//! The build action that an invocation asks for.

use crate::text::same_text;
use vstd::prelude::*;
use vstd::string::StringExecFns;

verus! {

/// A build action. A name that is not one of the known actions is kept as it
/// was written.
#[derive(Debug, Clone, PartialEq, Eq)]
pub enum Subcommand {
    Build,
    Test,
    Run,
    Other(String),
}

/// A [`Subcommand`] with its text as a sequence of characters.
pub enum SubcommandView {
    Build,
    Test,
    Run,
    Other(Seq<char>),
}

impl View for Subcommand {
    type V = SubcommandView;

    open spec fn view(&self) -> SubcommandView {
        match self {
            Subcommand::Build => SubcommandView::Build,
            Subcommand::Test => SubcommandView::Test,
            Subcommand::Run => SubcommandView::Run,
            Subcommand::Other(name) => SubcommandView::Other(name@),
        }
    }
}

/// The action that `name` stands for.
pub open spec fn named(name: Seq<char>) -> SubcommandView {
    if name == "build"@ {
        SubcommandView::Build
    } else if name == "test"@ {
        SubcommandView::Test
    } else if name == "run"@ {
        SubcommandView::Run
    } else {
        SubcommandView::Other(name)
    }
}

impl DeepView for Subcommand {
    type V = SubcommandView;

    open spec fn deep_view(&self) -> SubcommandView {
        self@
    }
}

impl Subcommand {
    /// Classifies the name of a build action.
    pub fn from_name(name: &str) -> (s: Subcommand)
        ensures
            s@ == named(name@),
    {
        if same_text(name, "build") {
            Subcommand::Build
        } else if same_text(name, "test") {
            Subcommand::Test
        } else if same_text(name, "run") {
            Subcommand::Run
        } else {
            Subcommand::Other(String::from_str(name))
        }
    }
}

/// Only the three known names are recognised; every other name comes back
/// unchanged inside `Other`.
pub proof fn named_other_keeps_name(name: Seq<char>)
    requires
        name != "build"@,
        name != "test"@,
        name != "run"@,
    ensures
        named(name) == SubcommandView::Other(name),
{
}

} // verus!
