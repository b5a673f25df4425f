//! Target platforms and the list of platforms that are known.

use crate::text::same_text;
use vstd::prelude::*;
use vstd::string::StringExecFns;

verus! {

/// A target platform, named by its triple. A triple that the list of known
/// platforms does not hold is kept, marked as unresolved.
#[derive(Debug, Clone, PartialEq, Eq)]
pub enum Target {
    Known { triple: String },
    Unresolved { triple: String },
}

/// A [`Target`] with its triple as a sequence of characters.
pub enum TargetView {
    Known { triple: Seq<char> },
    Unresolved { triple: Seq<char> },
}

impl View for Target {
    type V = TargetView;

    open spec fn view(&self) -> TargetView {
        match self {
            Target::Known { triple } => TargetView::Known { triple: triple@ },
            Target::Unresolved { triple } => TargetView::Unresolved { triple: triple@ },
        }
    }
}

impl DeepView for Target {
    type V = TargetView;

    open spec fn deep_view(&self) -> TargetView {
        self@
    }
}

impl Target {
    /// The triple as it was written.
    pub fn triple(&self) -> (t: &str)
        ensures
            t@ == triple_of(self@),
    {
        match self {
            Target::Known { triple } => triple.as_str(),
            Target::Unresolved { triple } => triple.as_str(),
        }
    }

    /// Whether the triple was found among the known platforms.
    pub fn is_known(&self) -> (r: bool)
        ensures
            r == (self@ is Known),
    {
        match self {
            Target::Known { .. } => true,
            Target::Unresolved { .. } => false,
        }
    }
}

/// The triple that a target carries.
pub open spec fn triple_of(t: TargetView) -> Seq<char> {
    match t {
        TargetView::Known { triple } => triple,
        TargetView::Unresolved { triple } => triple,
    }
}

/// What `raw` resolves to, given the triples in `known`.
pub open spec fn resolved(raw: Seq<char>, known: Seq<Seq<char>>) -> TargetView {
    if known.contains(raw) {
        TargetView::Known { triple: raw }
    } else {
        TargetView::Unresolved { triple: raw }
    }
}

/// The triples of the platforms that are known.
#[derive(Debug, Clone)]
pub struct TargetList {
    pub triples: Vec<String>,
}

impl View for TargetList {
    type V = Seq<Seq<char>>;

    open spec fn view(&self) -> Seq<Seq<char>> {
        self.triples.deep_view()
    }
}

impl TargetList {
    /// Whether `triple` is one of the known platforms.
    pub fn contains(&self, triple: &str) -> (r: bool)
        ensures
            r == self@.contains(triple@),
    {
        let n = self.triples.len();
        let mut i: usize = 0;
        while i < n
            invariant
                n == self.triples@.len(),
                i <= n,
                forall|k: int| 0 <= k < i ==> self@[k] != triple@,
            decreases n - i,
        {
            if same_text(self.triples[i].as_str(), triple) {
                assert(self@[i as int] == triple@);
                return true;
            }
            i += 1;
        }
        false
    }

    /// Resolves a triple as written on the command line. This never fails: a
    /// triple that is not known comes back as [`Target::Unresolved`].
    pub fn resolve(&self, raw: &str) -> (t: Target)
        ensures
            t@ == resolved(raw@, self@),
    {
        if self.contains(raw) {
            Target::Known { triple: String::from_str(raw) }
        } else {
            Target::Unresolved { triple: String::from_str(raw) }
        }
    }
}

/// Resolving never loses the text that was given.
pub proof fn resolved_keeps_triple(raw: Seq<char>, known: Seq<Seq<char>>)
    ensures
        triple_of(resolved(raw, known)) == raw,
        resolved(raw, known) is Known <==> known.contains(raw),
{
}

} // verus!
