//! The argument classifier: one pass over the argument list that gathers the
//! fields the front end needs and builds the argument list to re-issue inside
//! the container.

use crate::path::{join, joined};
use crate::subcommand::{named, Subcommand, SubcommandView};
use crate::target::{resolved, Target, TargetList, TargetView};
use crate::text::same_text;
use crate::token::{classified, classify, takes_value, Token, TokenView};
use vstd::prelude::*;

verus! {

/// Where the build output lives inside the container, whatever directory the
/// host uses.
pub const CONTAINER_TARGET_DIR: &'static str = "/target";

/// The single token that replaces a `--target-dir=<dir>` token.
pub const CONTAINER_TARGET_DIR_OPTION: &'static str = "--target-dir=/target";

/// The environment variable that tells whether the front end itself already
/// runs inside a container.
pub const DOCKER_IN_DOCKER_VARIABLE: &'static str = "CROSS_DOCKER_IN_DOCKER";

/// What the classifier needs to know of the process it runs in.
#[derive(Debug, Clone)]
pub struct Environment {
    /// The working directory, if it could be read.
    pub current_dir: Option<String>,
    /// The value of [`DOCKER_IN_DOCKER_VARIABLE`], if it is set.
    pub docker_in_docker: Option<String>,
}

/// An [`Environment`] with its texts as sequences of characters.
pub struct EnvironmentView {
    pub current_dir: Option<Seq<char>>,
    pub docker_in_docker: Option<Seq<char>>,
}

impl View for Environment {
    type V = EnvironmentView;

    open spec fn view(&self) -> EnvironmentView {
        EnvironmentView {
            current_dir: self.current_dir.deep_view(),
            docker_in_docker: self.docker_in_docker.deep_view(),
        }
    }
}

/// An invocation, interpreted.
#[derive(Debug)]
pub struct Args {
    /// The argument list to re-issue inside the container.
    pub all: Vec<String>,
    /// The build action that was asked for.
    pub subcommand: Option<Subcommand>,
    /// The toolchain channel, from a `+<channel>` token.
    pub channel: Option<String>,
    /// The target platform.
    pub target: Option<Target>,
    /// The directory for build output, as the host names it.
    pub target_dir: Option<String>,
    /// Whether the front end itself already runs inside a container.
    pub docker_in_docker: bool,
    /// The manifest, as a path resolved against the working directory.
    pub manifest_path: Option<String>,
}

/// An [`Args`] with its texts as sequences of characters.
pub struct ArgsView {
    pub all: Seq<Seq<char>>,
    pub subcommand: Option<SubcommandView>,
    pub channel: Option<Seq<char>>,
    pub target: Option<TargetView>,
    pub target_dir: Option<Seq<char>>,
    pub docker_in_docker: bool,
    pub manifest_path: Option<Seq<char>>,
}

impl View for Args {
    type V = ArgsView;

    open spec fn view(&self) -> ArgsView {
        ArgsView {
            all: self.all.deep_view(),
            subcommand: self.subcommand.deep_view(),
            channel: self.channel.deep_view(),
            target: self.target.deep_view(),
            target_dir: self.target_dir.deep_view(),
            docker_in_docker: self.docker_in_docker,
            manifest_path: self.manifest_path.deep_view(),
        }
    }
}

/// Of two values for one field, the one given first, if there is one.
pub open spec fn first_of<T>(first: Option<T>, second: Option<T>) -> Option<T> {
    if first is Some {
        first
    } else {
        second
    }
}

/// Of two values for one field, the one given last, if there is one.
pub open spec fn last_of<T>(first: Option<T>, second: Option<T>) -> Option<T> {
    if second is Some {
        second
    } else {
        first
    }
}

impl ArgsView {
    /// Nothing forwarded and nothing found.
    pub open spec fn nothing() -> ArgsView {
        ArgsView {
            all: Seq::empty(),
            subcommand: None,
            channel: None,
            target: None,
            target_dir: None,
            docker_in_docker: false,
            manifest_path: None,
        }
    }

    /// Only `all` forwarded and nothing found.
    pub open spec fn forwarding(all: Seq<Seq<char>>) -> ArgsView {
        ArgsView { all, ..ArgsView::nothing() }
    }

    /// What is known once `self` has been gathered from one stretch of the
    /// argument list and `next` from the stretch after it. The forwarded tokens
    /// follow each other. The subcommand is the first one found; of every
    /// other field the last value counts.
    pub open spec fn followed_by(self, next: ArgsView) -> ArgsView {
        ArgsView {
            all: self.all + next.all,
            subcommand: first_of(self.subcommand, next.subcommand),
            channel: last_of(self.channel, next.channel),
            target: last_of(self.target, next.target),
            target_dir: last_of(self.target_dir, next.target_dir),
            docker_in_docker: self.docker_in_docker || next.docker_in_docker,
            manifest_path: last_of(self.manifest_path, next.manifest_path),
        }
    }
}

/// The manifest path `p` as the host sees it from the working directory. With
/// no working directory there is no manifest path.
pub open spec fn manifest_in(current_dir: Option<Seq<char>>, p: Seq<char>) -> Option<Seq<char>> {
    match current_dir {
        Some(dir) => Some(joined(dir, p)),
        None => None,
    }
}

/// How many tokens the option at the front of `s` spans: two for a flag that
/// finds its value in the next token, else one.
pub open spec fn width(s: Seq<Seq<char>>) -> int
    recommends
        s.len() > 0,
{
    if takes_value(classified(s[0])) && s.len() >= 2 {
        2
    } else {
        1
    }
}

/// What the option at the front of `s` contributes: the tokens forwarded in
/// its place and the field it sets.
///
/// An empty token contributes nothing. A flag that finds no token after it is
/// forwarded and sets nothing. The value of `--manifest-path` and of
/// `--target` is forwarded as written, without a look at what kind of token it
/// is; that of `--target-dir` is replaced by the directory inside the
/// container. A channel token is forwarded as well as recorded.
pub open spec fn front(
    s: Seq<Seq<char>>,
    known: Seq<Seq<char>>,
    current_dir: Option<Seq<char>>,
) -> ArgsView
    recommends
        s.len() > 0,
{
    let t = s[0];
    match classified(t) {
        TokenView::Blank => ArgsView::nothing(),
        TokenView::ManifestPath => if s.len() >= 2 {
            ArgsView {
                manifest_path: manifest_in(current_dir, s[1]),
                ..ArgsView::forwarding(seq![t, s[1]])
            }
        } else {
            ArgsView::forwarding(seq![t])
        },
        TokenView::ManifestPathIs(p) => ArgsView {
            manifest_path: manifest_in(current_dir, p),
            ..ArgsView::forwarding(seq![t])
        },
        TokenView::Channel(c) => ArgsView { channel: Some(c), ..ArgsView::forwarding(seq![t]) },
        TokenView::Target => if s.len() >= 2 {
            ArgsView {
                target: Some(resolved(s[1], known)),
                ..ArgsView::forwarding(seq![t, s[1]])
            }
        } else {
            ArgsView::forwarding(seq![t])
        },
        TokenView::TargetIs(triple) => ArgsView {
            target: Some(resolved(triple, known)),
            ..ArgsView::forwarding(seq![t])
        },
        TokenView::TargetDir => if s.len() >= 2 {
            ArgsView {
                target_dir: Some(s[1]),
                ..ArgsView::forwarding(seq![t, CONTAINER_TARGET_DIR@])
            }
        } else {
            ArgsView::forwarding(seq![t])
        },
        TokenView::TargetDirIs(dir) => ArgsView {
            target_dir: Some(dir),
            ..ArgsView::forwarding(seq![CONTAINER_TARGET_DIR_OPTION@])
        },
        TokenView::Flag => ArgsView::forwarding(seq![t]),
        TokenView::Word => ArgsView { subcommand: Some(named(t)), ..ArgsView::forwarding(seq![t]) },
    }
}

/// What one pass over the argument list `s` gathers: the contribution of the
/// option at the front, then that of the rest.
pub open spec fn scanned(
    s: Seq<Seq<char>>,
    known: Seq<Seq<char>>,
    current_dir: Option<Seq<char>>,
) -> ArgsView
    decreases s.len(),
{
    if s.len() == 0 {
        ArgsView::nothing()
    } else {
        front(s, known, current_dir).followed_by(scanned(s.skip(width(s)), known, current_dir))
    }
}

/// The text of a boolean: `true` or `false`, exactly.
pub open spec fn bool_of(text: Seq<char>) -> Option<bool> {
    if text == "true"@ {
        Some(true)
    } else if text == "false"@ {
        Some(false)
    } else {
        None
    }
}

/// Whether the variable says that the front end runs inside a container: only
/// when it is set to the text `true`.
pub open spec fn enabled(value: Option<Seq<char>>) -> bool {
    match value {
        Some(text) => bool_of(text) == Some(true),
        None => false,
    }
}

/// The invocation `tokens`, interpreted, given the triples that are `known`
/// and the environment.
pub open spec fn parsed(
    tokens: Seq<Seq<char>>,
    known: Seq<Seq<char>>,
    env: EnvironmentView,
) -> ArgsView {
    ArgsView {
        docker_in_docker: enabled(env.docker_in_docker),
        ..scanned(tokens, known, env.current_dir)
    }
}

/// Reads the text of a boolean.
pub fn parse_bool(text: &str) -> (r: Option<bool>)
    ensures
        r == bool_of(text@),
{
    if same_text(text, "true") {
        Some(true)
    } else if same_text(text, "false") {
        Some(false)
    } else {
        None
    }
}

/// Whether the value of [`DOCKER_IN_DOCKER_VARIABLE`] says that the front end
/// runs inside a container. A value that is no boolean counts as `false`, as
/// does a variable that is not set.
pub fn docker_in_docker(value: &Option<String>) -> (r: bool)
    ensures
        r == enabled(value.deep_view()),
{
    match value {
        Some(text) => match parse_bool(text.as_str()) {
            Some(b) => b,
            None => false,
        },
        None => false,
    }
}

/// Resolves a manifest path as written on the command line against the
/// working directory.
pub fn manifest_path_in(current_dir: &Option<String>, p: &str) -> (r: Option<String>)
    ensures
        r.deep_view() == manifest_in(current_dir.deep_view(), p@),
{
    match current_dir {
        Some(dir) => Some(join(dir.as_str(), p)),
        None => None,
    }
}

/// What the classifier holds in its hands in the middle of a pass.
pub open spec fn gathered(
    all: Vec<String>,
    subcommand: Option<Subcommand>,
    channel: Option<String>,
    target: Option<Target>,
    target_dir: Option<String>,
    manifest_path: Option<String>,
) -> ArgsView {
    ArgsView {
        all: all.deep_view(),
        subcommand: subcommand.deep_view(),
        channel: channel.deep_view(),
        target: target.deep_view(),
        target_dir: target_dir.deep_view(),
        docker_in_docker: false,
        manifest_path: manifest_path.deep_view(),
    }
}

/// Appends `token` to the tokens to forward.
fn forward(all: &mut Vec<String>, token: &str)
    ensures
        final(all).deep_view() == old(all).deep_view().push(token@),
{
    all.push(token.to_owned());
}

/// Interprets the argument list `raw_args` (without the program's name).
///
/// Every token is looked at once, from left to right. Nothing makes the pass
/// fail: what cannot be interpreted is forwarded as it is, and a field that no
/// token sets stays `None`.
pub fn parse(raw_args: &[String], target_list: &TargetList, env: &Environment) -> (args: Args)
    ensures
        args@ == parsed(raw_args.deep_view(), target_list@, env@),
{
    let mut all: Vec<String> = Vec::new();
    let mut subcommand: Option<Subcommand> = None;
    let mut channel: Option<String> = None;
    let mut target: Option<Target> = None;
    let mut target_dir: Option<String> = None;
    let mut manifest_path: Option<String> = None;

    let ghost tokens = raw_args.deep_view();
    let ghost known = target_list@;
    let ghost dir = env@.current_dir;
    let n = raw_args.len();
    let mut i: usize = 0;
    assert(gathered(all, subcommand, channel, target, target_dir, manifest_path).followed_by(
        scanned(tokens.skip(0), known, dir),
    ) == scanned(tokens, known, dir)) by {
        assert(tokens.skip(0) =~= tokens);
        assert(all.deep_view() + scanned(tokens, known, dir).all =~= scanned(
            tokens,
            known,
            dir,
        ).all);
    }
    while i < n
        invariant
            n == raw_args@.len(),
            tokens == raw_args.deep_view(),
            known == target_list@,
            dir == env@.current_dir,
            i <= n,
            gathered(all, subcommand, channel, target, target_dir, manifest_path).followed_by(
                scanned(tokens.skip(i as int), known, dir),
            ) == scanned(tokens, known, dir),
        decreases n - i,
    {
        let ghost before = gathered(all, subcommand, channel, target, target_dir, manifest_path);
        let ghost s = tokens.skip(i as int);
        proof {
            scanned_from(tokens, i as int, known, dir);
        }
        let token = raw_args[i].as_str();
        i += 1;
        match classify(token) {
            Token::Blank => {},
            Token::ManifestPath => {
                forward(&mut all, token);
                if i < n {
                    let path = raw_args[i].as_str();
                    i += 1;
                    forward(&mut all, path);
                    if let Some(resolved) = manifest_path_in(&env.current_dir, path) {
                        manifest_path = Some(resolved);
                    }
                }
            },
            Token::ManifestPathIs(path) => {
                forward(&mut all, token);
                if let Some(resolved) = manifest_path_in(&env.current_dir, path) {
                    manifest_path = Some(resolved);
                }
            },
            Token::Channel(name) => {
                forward(&mut all, token);
                channel = Some(name.to_owned());
            },
            Token::Target => {
                forward(&mut all, token);
                if i < n {
                    let triple = raw_args[i].as_str();
                    i += 1;
                    forward(&mut all, triple);
                    target = Some(target_list.resolve(triple));
                }
            },
            Token::TargetIs(triple) => {
                forward(&mut all, token);
                target = Some(target_list.resolve(triple));
            },
            Token::TargetDir => {
                forward(&mut all, token);
                if i < n {
                    let host_dir = raw_args[i].as_str();
                    i += 1;
                    forward(&mut all, CONTAINER_TARGET_DIR);
                    target_dir = Some(host_dir.to_owned());
                }
            },
            Token::TargetDirIs(host_dir) => {
                forward(&mut all, CONTAINER_TARGET_DIR_OPTION);
                target_dir = Some(host_dir.to_owned());
            },
            Token::Flag => {
                forward(&mut all, token);
            },
            Token::Word => {
                forward(&mut all, token);
                if subcommand.is_none() {
                    subcommand = Some(Subcommand::from_name(token));
                }
            },
        }
        proof {
            let after = gathered(all, subcommand, channel, target, target_dir, manifest_path);
            let here = front(s, known, dir);
            assert(after.all =~= before.followed_by(here).all);
            followed_by_is_associative(before, here, scanned(tokens.skip(i as int), known, dir));
        }
    }
    Args {
        all,
        subcommand,
        channel,
        target,
        target_dir,
        docker_in_docker: docker_in_docker(&env.docker_in_docker),
        manifest_path,
    }
}

/// Putting stretches of the argument list one after the other does not depend
/// on how they are grouped.
pub proof fn followed_by_is_associative(a: ArgsView, b: ArgsView, c: ArgsView)
    ensures
        a.followed_by(b).followed_by(c) == a.followed_by(b.followed_by(c)),
{
    assert(a.followed_by(b).followed_by(c).all =~= a.followed_by(b.followed_by(c)).all);
}

/// One pass from token `i` on is the contribution of the option found there,
/// then one pass over what follows that option.
pub proof fn scanned_from(
    tokens: Seq<Seq<char>>,
    i: int,
    known: Seq<Seq<char>>,
    current_dir: Option<Seq<char>>,
)
    requires
        0 <= i < tokens.len(),
    ensures
        scanned(tokens.skip(i), known, current_dir) == front(
            tokens.skip(i),
            known,
            current_dir,
        ).followed_by(scanned(tokens.skip(i + width(tokens.skip(i))), known, current_dir)),
{
    let s = tokens.skip(i);
    assert(s.skip(width(s)) =~= tokens.skip(i + width(s)));
}

} // verus!
