//! What holds of every interpreted invocation.

use crate::cli::{
    front, parsed, scanned, width, ArgsView, EnvironmentView, CONTAINER_TARGET_DIR,
    CONTAINER_TARGET_DIR_OPTION,
};
use crate::path::{is_absolute, joined_is_absolute};
use crate::subcommand::named;
use crate::token::{classified, TokenView};
use vstd::prelude::*;

verus! {

/// The tokens of `s` that are not empty, in their order.
pub open spec fn written(s: Seq<Seq<char>>) -> Seq<Seq<char>> {
    s.filter(|t: Seq<char>| t.len() > 0)
}

/// Whether token `i` of `s` is looked at on its own, and is not the value of
/// the flag before it.
pub open spec fn starts_option(s: Seq<Seq<char>>, i: int) -> bool
    decreases s.len(),
{
    if i < 0 || i >= s.len() {
        false
    } else if i == 0 {
        true
    } else {
        i >= width(s) && starts_option(s.skip(width(s)), i - width(s))
    }
}

/// Whether token `i` of `s` is looked at on its own and could name a
/// subcommand.
pub open spec fn is_word_at(s: Seq<Seq<char>>, i: int) -> bool {
    starts_option(s, i) && classified(s[i]) is Word
}

/// How many empty tokens of `s` stand where a flag finds its value. Such a
/// token is not skipped: it is the value.
pub open spec fn blank_values(s: Seq<Seq<char>>) -> nat
    decreases s.len(),
{
    if s.len() == 0 {
        0
    } else {
        let here: nat = if width(s) == 2 && s[1].len() == 0 {
            1
        } else {
            0
        };
        here + blank_values(s.skip(width(s)))
    }
}

/// An interpreted invocation as it looks once the host's directory for build
/// output has given way to the one inside the container.
pub open spec fn settled(a: ArgsView) -> ArgsView {
    ArgsView {
        target_dir: if a.target_dir is Some {
            Some(CONTAINER_TARGET_DIR@)
        } else {
            None
        },
        ..a
    }
}

proof fn written_len_step(s: Seq<Seq<char>>)
    requires
        s.len() > 0,
    ensures
        written(s).len() == written(s.skip(1)).len() + (if s[0].len() > 0 {
            1nat
        } else {
            0nat
        }),
{
    let p = |t: Seq<char>| t.len() > 0;
    assert(s =~= seq![s[0]] + s.skip(1));
    s.skip(1).lemma_filter_prepend(s[0], p);
}

proof fn forwarded_count(s: Seq<Seq<char>>, known: Seq<Seq<char>>, dir: Option<Seq<char>>)
    ensures
        scanned(s, known, dir).all.len() == written(s).len() + blank_values(s),
    decreases s.len(),
{
    if s.len() == 0 {
        s.lemma_filter_len(|t: Seq<char>| t.len() > 0);
    } else {
        let w = width(s);
        forwarded_count(s.skip(w), known, dir);
        written_len_step(s);
        if w == 2 {
            written_len_step(s.skip(1));
            assert(s.skip(1).skip(1) =~= s.skip(2));
        }
    }
}

/// The forwarded list holds one token for each token of the invocation that
/// is not empty, and one for each empty token that a flag took as its value.
pub proof fn forwards_every_token_but_skipped_blanks(
    tokens: Seq<Seq<char>>,
    known: Seq<Seq<char>>,
    env: EnvironmentView,
)
    ensures
        parsed(tokens, known, env).all.len() == written(tokens).len() + blank_values(tokens),
{
    forwarded_count(tokens, known, env.current_dir);
}

proof fn values_written_none_blank(s: Seq<Seq<char>>)
    requires
        forall|i: int| 0 <= i < s.len() && !starts_option(s, i) ==> s[i].len() > 0,
    ensures
        blank_values(s) == 0,
    decreases s.len(),
{
    if s.len() > 0 {
        let w = width(s);
        let rest = s.skip(w);
        assert forall|i: int| 0 <= i < rest.len() && !starts_option(rest, i) implies rest[i].len()
            > 0 by {
            assert(!starts_option(s, i + w));
        }
        values_written_none_blank(rest);
        if w == 2 {
            assert(!starts_option(s, 1));
        }
    }
}

/// Where no flag takes an empty token as its value, the forwarded list is as
/// long as the invocation has tokens that are not empty: empty tokens are
/// dropped, and nothing else is.
pub proof fn forwards_as_many_as_written(
    tokens: Seq<Seq<char>>,
    known: Seq<Seq<char>>,
    env: EnvironmentView,
)
    requires
        forall|i: int| 0 <= i < tokens.len() && !starts_option(tokens, i) ==> tokens[i].len() > 0,
    ensures
        parsed(tokens, known, env).all.len() == written(tokens).len(),
{
    values_written_none_blank(tokens);
    forwarded_count(tokens, known, env.current_dir);
}

/// The token that replaces `--target-dir=<dir>` is itself of that form, with
/// the directory inside the container as its value.
pub proof fn container_option_is_a_target_dir()
    ensures
        classified(CONTAINER_TARGET_DIR_OPTION@) == TokenView::TargetDirIs(CONTAINER_TARGET_DIR@),
{
    reveal_strlit("--target-dir=/target");
    reveal_strlit("/target");
    reveal_strlit("--manifest-path");
    reveal_strlit("--manifest-path=");
    reveal_strlit("--target");
    reveal_strlit("--target=");
    reveal_strlit("--target-dir");
    reveal_strlit("--target-dir=");
    let t = CONTAINER_TARGET_DIR_OPTION@;
    assert(t.subrange(0, 16)[2] == 't');
    assert(t.subrange(0, 9)[8] == '-');
    assert(t.skip(13) =~= CONTAINER_TARGET_DIR@);
}

proof fn rescanned(s: Seq<Seq<char>>, known: Seq<Seq<char>>, dir: Option<Seq<char>>)
    ensures
        scanned(scanned(s, known, dir).all, known, dir) == settled(scanned(s, known, dir)),
    decreases s.len(),
{
    if s.len() > 0 {
        let w = width(s);
        let here = front(s, known, dir);
        let rest = scanned(s.skip(w), known, dir);
        let out = here.all + rest.all;
        rescanned(s.skip(w), known, dir);
        if !(classified(s[0]) is Blank) {
            container_option_is_a_target_dir();
            assert(out.skip(here.all.len() as int) =~= rest.all);
        }
    }
}

/// Interpreting the forwarded list again forwards the same list and finds the
/// same fields, but for the directory for build output: where one was given,
/// it is now the directory inside the container.
pub proof fn parsing_again_only_settles_target_dir(
    tokens: Seq<Seq<char>>,
    known: Seq<Seq<char>>,
    env: EnvironmentView,
)
    ensures
        parsed(parsed(tokens, known, env).all, known, env) == settled(parsed(tokens, known, env)),
{
    rescanned(tokens, known, env.current_dir);
}

proof fn scanned_manifest_is_absolute(
    s: Seq<Seq<char>>,
    known: Seq<Seq<char>>,
    dir: Option<Seq<char>>,
)
    requires
        dir matches Some(d) ==> is_absolute(d),
    ensures
        scanned(s, known, dir).manifest_path matches Some(p) ==> is_absolute(p),
        dir is None ==> scanned(s, known, dir).manifest_path is None,
    decreases s.len(),
{
    if s.len() > 0 {
        scanned_manifest_is_absolute(s.skip(width(s)), known, dir);
        if let Some(d) = dir {
            match classified(s[0]) {
                TokenView::ManifestPath => if s.len() >= 2 {
                    joined_is_absolute(d, s[1]);
                },
                TokenView::ManifestPathIs(p) => {
                    joined_is_absolute(d, p);
                },
                _ => {},
            }
        }
    }
}

/// The manifest path, where there is one, is absolute, however it was
/// written, as long as the working directory is. Without a working directory
/// there is no manifest path.
pub proof fn manifest_path_is_absolute(
    tokens: Seq<Seq<char>>,
    known: Seq<Seq<char>>,
    env: EnvironmentView,
)
    requires
        env.current_dir matches Some(dir) ==> is_absolute(dir),
    ensures
        parsed(tokens, known, env).manifest_path matches Some(p) ==> is_absolute(p),
        env.current_dir is None ==> parsed(tokens, known, env).manifest_path is None,
{
    scanned_manifest_is_absolute(tokens, known, env.current_dir);
}

proof fn scanned_subcommand_is_first_word(
    s: Seq<Seq<char>>,
    known: Seq<Seq<char>>,
    dir: Option<Seq<char>>,
)
    ensures
        match scanned(s, known, dir).subcommand {
            Some(c) => exists|i: int|
                #[trigger] is_word_at(s, i) && c == named(s[i]) && forall|j: int|
                    0 <= j < i ==> !is_word_at(s, j),
            None => forall|i: int| !is_word_at(s, i),
        },
    decreases s.len(),
{
    if s.len() > 0 {
        let w = width(s);
        let rest = s.skip(w);
        scanned_subcommand_is_first_word(rest, known, dir);
        if classified(s[0]) is Word {
            assert(is_word_at(s, 0));
        } else {
            assert forall|j: int| j != 0 && is_word_at(s, j) implies is_word_at(rest, j - w) by {}
            if let Some(c) = scanned(rest, known, dir).subcommand {
                let i = choose|i: int|
                    #[trigger] is_word_at(rest, i) && c == named(rest[i]) && forall|j: int|
                        0 <= j < i ==> !is_word_at(rest, j);
                assert(is_word_at(s, i + w));
            }
        }
    }
}

/// At most one subcommand is recorded: the classified name of the first token
/// that is looked at on its own and could name one. Where there is no such
/// token, there is no subcommand.
pub proof fn subcommand_is_the_first_word(
    tokens: Seq<Seq<char>>,
    known: Seq<Seq<char>>,
    env: EnvironmentView,
)
    ensures
        match parsed(tokens, known, env).subcommand {
            Some(c) => exists|i: int|
                #[trigger] is_word_at(tokens, i) && c == named(tokens[i]) && forall|j: int|
                    0 <= j < i ==> !is_word_at(tokens, j),
            None => forall|i: int| !is_word_at(tokens, i),
        },
{
    scanned_subcommand_is_first_word(tokens, known, env.current_dir);
}

/// An invocation without a token that could name a subcommand has none.
pub proof fn no_word_no_subcommand(
    tokens: Seq<Seq<char>>,
    known: Seq<Seq<char>>,
    env: EnvironmentView,
)
    requires
        forall|i: int| 0 <= i < tokens.len() ==> !(classified(#[trigger] tokens[i]) is Word),
    ensures
        parsed(tokens, known, env).subcommand is None,
{
    scanned_subcommand_is_first_word(tokens, known, env.current_dir);
}

proof fn scanned_verbatim(s: Seq<Seq<char>>, known: Seq<Seq<char>>, dir: Option<Seq<char>>)
    requires
        forall|i: int|
            0 <= i < s.len() ==> {
                let k = classified(#[trigger] s[i]);
                !(k is Blank) && !(k is TargetDir) && !(k is TargetDirIs)
            },
    ensures
        scanned(s, known, dir).all == s,
        scanned(s, known, dir).target_dir is None,
    decreases s.len(),
{
    if s.len() > 0 {
        let w = width(s);
        let rest = s.skip(w);
        assert forall|i: int| 0 <= i < rest.len() implies {
            let k = classified(#[trigger] rest[i]);
            !(k is Blank) && !(k is TargetDir) && !(k is TargetDirIs)
        } by {}
        scanned_verbatim(rest, known, dir);
    }
}

/// An invocation that has no empty token and names no directory for build
/// output is forwarded as it is.
pub proof fn forwards_verbatim_without_target_dir(
    tokens: Seq<Seq<char>>,
    known: Seq<Seq<char>>,
    env: EnvironmentView,
)
    requires
        forall|i: int|
            0 <= i < tokens.len() ==> {
                let k = classified(#[trigger] tokens[i]);
                !(k is Blank) && !(k is TargetDir) && !(k is TargetDirIs)
            },
    ensures
        parsed(tokens, known, env).all == tokens,
        parsed(tokens, known, env).target_dir is None,
{
    scanned_verbatim(tokens, known, env.current_dir);
}

proof fn scanned_all_ignores_the_rest(
    s: Seq<Seq<char>>,
    known: Seq<Seq<char>>,
    dir: Option<Seq<char>>,
    other_known: Seq<Seq<char>>,
    other_dir: Option<Seq<char>>,
)
    ensures
        scanned(s, known, dir).all == scanned(s, other_known, other_dir).all,
        scanned(s, known, dir).subcommand == scanned(s, other_known, other_dir).subcommand,
        scanned(s, known, dir).channel == scanned(s, other_known, other_dir).channel,
        scanned(s, known, dir).target_dir == scanned(s, other_known, other_dir).target_dir,
    decreases s.len(),
{
    if s.len() > 0 {
        scanned_all_ignores_the_rest(s.skip(width(s)), known, dir, other_known, other_dir);
    }
}

/// What is forwarded depends on the argument list alone, and so do the
/// subcommand, the channel and the directory for build output: neither the
/// known targets nor the environment change them.
pub proof fn forwarding_depends_on_the_arguments_alone(
    tokens: Seq<Seq<char>>,
    known: Seq<Seq<char>>,
    env: EnvironmentView,
    other_known: Seq<Seq<char>>,
    other_env: EnvironmentView,
)
    ensures
        parsed(tokens, known, env).all == parsed(tokens, other_known, other_env).all,
        parsed(tokens, known, env).subcommand == parsed(tokens, other_known, other_env).subcommand,
        parsed(tokens, known, env).channel == parsed(tokens, other_known, other_env).channel,
        parsed(tokens, known, env).target_dir == parsed(tokens, other_known, other_env).target_dir,
{
    scanned_all_ignores_the_rest(
        tokens,
        known,
        env.current_dir,
        other_known,
        other_env.current_dir,
    );
}

proof fn scanned_all_from_tokens(s: Seq<Seq<char>>, known: Seq<Seq<char>>, dir: Option<Seq<char>>)
    ensures
        forall|j: int|
            0 <= j < scanned(s, known, dir).all.len() ==> {
                let t = #[trigger] scanned(s, known, dir).all[j];
                s.contains(t) || t == CONTAINER_TARGET_DIR@ || t == CONTAINER_TARGET_DIR_OPTION@
            },
    decreases s.len(),
{
    if s.len() > 0 {
        let w = width(s);
        let here = front(s, known, dir).all;
        let rest = scanned(s.skip(w), known, dir).all;
        scanned_all_from_tokens(s.skip(w), known, dir);
        assert forall|j: int| 0 <= j < (here + rest).len() implies {
            let t = #[trigger] (here + rest)[j];
            s.contains(t) || t == CONTAINER_TARGET_DIR@ || t == CONTAINER_TARGET_DIR_OPTION@
        } by {
            if j >= here.len() {
                assert(rest[j - here.len()] == (here + rest)[j]);
            }
        }
    }
}

/// Every forwarded token is a token of the invocation, or one of the two
/// texts that stand for the directory inside the container.
pub proof fn forwarded_tokens_are_written_or_fixed(
    tokens: Seq<Seq<char>>,
    known: Seq<Seq<char>>,
    env: EnvironmentView,
)
    ensures
        forall|j: int|
            0 <= j < parsed(tokens, known, env).all.len() ==> {
                let t = #[trigger] parsed(tokens, known, env).all[j];
                tokens.contains(t) || t == CONTAINER_TARGET_DIR@ || t
                    == CONTAINER_TARGET_DIR_OPTION@
            },
{
    scanned_all_from_tokens(tokens, known, env.current_dir);
}

} // verus!
