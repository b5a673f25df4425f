//! The kinds of token that the argument list is made of.

use crate::text::{same_text, strip_prefix, tail};
use vstd::prelude::*;

verus! {

/// What one token of the argument list is, seen on its own.
pub enum TokenView {
    /// The empty token.
    Blank,
    /// `--manifest-path`; the path is the next token.
    ManifestPath,
    /// `--manifest-path=<path>`.
    ManifestPathIs(Seq<char>),
    /// `+<channel>`, with a channel of at least one character.
    Channel(Seq<char>),
    /// `--target`; the triple is the next token.
    Target,
    /// `--target=<triple>`.
    TargetIs(Seq<char>),
    /// `--target-dir`; the directory is the next token.
    TargetDir,
    /// `--target-dir=<dir>`.
    TargetDirIs(Seq<char>),
    /// Any other token that begins with `-`.
    Flag,
    /// Any other token: it may name the subcommand.
    Word,
}

/// What the token `t` is. No token fits two of the forms, so the order of the
/// tests decides nothing.
pub open spec fn classified(t: Seq<char>) -> TokenView {
    if t.len() == 0 {
        TokenView::Blank
    } else if t == "--manifest-path"@ {
        TokenView::ManifestPath
    } else if "--manifest-path="@.is_prefix_of(t) {
        TokenView::ManifestPathIs(t.skip("--manifest-path="@.len() as int))
    } else if t.len() >= 2 && t[0] == '+' {
        TokenView::Channel(t.skip(1))
    } else if t == "--target"@ {
        TokenView::Target
    } else if "--target="@.is_prefix_of(t) {
        TokenView::TargetIs(t.skip("--target="@.len() as int))
    } else if t == "--target-dir"@ {
        TokenView::TargetDir
    } else if "--target-dir="@.is_prefix_of(t) {
        TokenView::TargetDirIs(t.skip("--target-dir="@.len() as int))
    } else if t[0] == '-' {
        TokenView::Flag
    } else {
        TokenView::Word
    }
}

/// Whether a token of this kind takes the token after it as its value.
pub open spec fn takes_value(k: TokenView) -> bool {
    k is ManifestPath || k is Target || k is TargetDir
}

/// One token of the argument list, classified. The values borrow from the
/// token.
#[derive(Debug, Clone, Copy, PartialEq, Eq)]
pub enum Token<'a> {
    Blank,
    ManifestPath,
    ManifestPathIs(&'a str),
    Channel(&'a str),
    Target,
    TargetIs(&'a str),
    TargetDir,
    TargetDirIs(&'a str),
    Flag,
    Word,
}

impl<'a> View for Token<'a> {
    type V = TokenView;

    open spec fn view(&self) -> TokenView {
        match self {
            Token::Blank => TokenView::Blank,
            Token::ManifestPath => TokenView::ManifestPath,
            Token::ManifestPathIs(p) => TokenView::ManifestPathIs(p@),
            Token::Channel(c) => TokenView::Channel(c@),
            Token::Target => TokenView::Target,
            Token::TargetIs(t) => TokenView::TargetIs(t@),
            Token::TargetDir => TokenView::TargetDir,
            Token::TargetDirIs(d) => TokenView::TargetDirIs(d@),
            Token::Flag => TokenView::Flag,
            Token::Word => TokenView::Word,
        }
    }
}

/// Classifies one token of the argument list.
pub fn classify<'a>(token: &'a str) -> (k: Token<'a>)
    ensures
        k@ == classified(token@),
{
    if token.is_empty() {
        return Token::Blank;
    }
    if same_text(token, "--manifest-path") {
        return Token::ManifestPath;
    }
    if let Some(path) = strip_prefix(token, "--manifest-path=") {
        return Token::ManifestPathIs(path);
    }
    let first = token.get_char(0);
    if first == '+' && token.unicode_len() >= 2 {
        return Token::Channel(tail(token, 1));
    }
    if same_text(token, "--target") {
        return Token::Target;
    }
    if let Some(triple) = strip_prefix(token, "--target=") {
        return Token::TargetIs(triple);
    }
    if same_text(token, "--target-dir") {
        return Token::TargetDir;
    }
    if let Some(dir) = strip_prefix(token, "--target-dir=") {
        return Token::TargetDirIs(dir);
    }
    if first == '-' {
        Token::Flag
    } else {
        Token::Word
    }
}

/// `value` is what follows the first `=` of `t`.
pub open spec fn follows_first_equals(t: Seq<char>, value: Seq<char>) -> bool {
    exists|k: int|
        0 <= k < t.len() && #[trigger] t[k] == '=' && value == t.skip(k + 1) && forall|j: int|
            0 <= j < k ==> t[j] != '='
}

/// The value of a token of the form `<flag>=<value>` is everything after the
/// first `=`, so the value may itself hold that character.
pub proof fn value_follows_first_equals(t: Seq<char>)
    ensures
        match classified(t) {
            TokenView::ManifestPathIs(v) => t == "--manifest-path="@ + v && follows_first_equals(
                t,
                v,
            ),
            TokenView::TargetIs(v) => t == "--target="@ + v && follows_first_equals(t, v),
            TokenView::TargetDirIs(v) => t == "--target-dir="@ + v && follows_first_equals(t, v),
            _ => true,
        },
{
    reveal_strlit("--manifest-path=");
    reveal_strlit("--target=");
    reveal_strlit("--target-dir=");
    match classified(t) {
        TokenView::ManifestPathIs(v) => {
            let flag = "--manifest-path="@;
            assert(t =~= flag + v);
            assert(t[15] == '=');
            assert forall|j: int| 0 <= j < 15 implies t[j] != '=' by {}
        },
        TokenView::TargetIs(v) => {
            let flag = "--target="@;
            assert(t =~= flag + v);
            assert(t[8] == '=');
            assert forall|j: int| 0 <= j < 8 implies t[j] != '=' by {}
        },
        TokenView::TargetDirIs(v) => {
            let flag = "--target-dir="@;
            assert(t =~= flag + v);
            assert(t[12] == '=');
            assert forall|j: int| 0 <= j < 12 implies t[j] != '=' by {}
        },
        _ => {},
    }
}

/// A channel token is a `+` followed by the channel, which is not empty.
pub proof fn channel_follows_plus(t: Seq<char>)
    ensures
        classified(t) matches TokenView::Channel(c) ==> t == seq!['+'] + c && c.len() > 0,
{
}

/// A token can name a subcommand exactly when it is not empty, does not begin
/// with `-` and is no channel.
pub proof fn word_begins_with_no_dash(t: Seq<char>)
    ensures
        classified(t) is Word <==> t.len() > 0 && t[0] != '-' && !(t.len() >= 2 && t[0] == '+'),
{
    reveal_strlit("--manifest-path");
    reveal_strlit("--manifest-path=");
    reveal_strlit("--target");
    reveal_strlit("--target=");
    reveal_strlit("--target-dir");
    reveal_strlit("--target-dir=");
    if t.len() > 0 && t[0] != '-' {
        assert("--manifest-path="@.is_prefix_of(t) ==> t.subrange(0, 16)[0] == '-');
        assert("--target="@.is_prefix_of(t) ==> t.subrange(0, 9)[0] == '-');
        assert("--target-dir="@.is_prefix_of(t) ==> t.subrange(0, 13)[0] == '-');
    }
}

} // verus!
