//! Frame names and the configured substitutions between them.

use vstd::prelude::*;

verus! {

/// A `(parent, child)` pair of frame names, as contracts speak of it.
pub type FrameKey = (Seq<char>, Seq<char>);

/// A `(parent, child)` pair of frame names.
#[derive(Clone, Debug, PartialEq, Eq)]
pub struct FramePair {
    pub parent: String,
    pub child: String,
}

impl View for FramePair {
    type V = FrameKey;

    open spec fn view(&self) -> FrameKey {
        (self.parent@, self.child@)
    }
}

/// One configured substitution: transforms between `old_parent` and
/// `old_child` are to appear between `new_parent` and `new_child`.
#[derive(Clone, Debug, PartialEq, Eq)]
pub struct RemapRule {
    pub old_parent: String,
    pub old_child: String,
    pub new_parent: String,
    pub new_child: String,
}

/// What a [`RemapRule`] says: the pair it matches and the pair it puts in
/// its place.
pub struct RuleView {
    pub source: FrameKey,
    pub target: FrameKey,
}

impl View for RemapRule {
    type V = RuleView;

    open spec fn view(&self) -> RuleView {
        RuleView {
            source: (self.old_parent@, self.old_child@),
            target: (self.new_parent@, self.new_child@),
        }
    }
}

/// The rules of a list, in the order of the list.
pub open spec fn rule_views(rules: Seq<RemapRule>) -> Seq<RuleView> {
    Seq::new(rules.len(), |i: int| rules[i]@)
}

/// The rules in the order in which the configuration lists them. The list
/// may be empty, and two rules may match the same pair.
#[derive(Clone, Debug, PartialEq, Eq)]
pub struct RemapConfig {
    pub remaps: Vec<RemapRule>,
}

impl View for RemapConfig {
    type V = Seq<RuleView>;

    open spec fn view(&self) -> Seq<RuleView> {
        rule_views(self.remaps@)
    }
}

} // verus!
