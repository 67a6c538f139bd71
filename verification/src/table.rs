//! Exact-match lookup from a configured frame pair to its replacement.

use vstd::prelude::*;
use vstd::hash_map::StringHashMap;
use crate::frames::{FrameKey, FramePair, RemapRule, RuleView, rule_views};

verus! {

/// The mapping that a list of rules stands for: each rule's source pair is
/// sent to its target pair, and a later rule replaces an earlier one with
/// the same source pair.
pub open spec fn table_of(rules: Seq<RuleView>) -> Map<FrameKey, FrameKey>
    decreases rules.len(),
{
    if rules.len() == 0 {
        Map::empty()
    } else {
        table_of(rules.drop_last()).insert(rules.last().source, rules.last().target)
    }
}

/// No two rules match the same pair.
pub open spec fn distinct_sources(rules: Seq<RuleView>) -> bool {
    forall|i: int, j: int|
        0 <= i < j < rules.len() ==> (#[trigger] rules[i]).source != (#[trigger] rules[j]).source
}

/// The table of a list of rules holds a pair exactly when some rule of the
/// list matches it.
pub proof fn lemma_table_domain(rules: Seq<RuleView>, key: FrameKey)
    ensures
        table_of(rules).contains_key(key) <==> exists|i: int|
            0 <= i < rules.len() && (#[trigger] rules[i]).source == key,
    decreases rules.len(),
{
    if rules.len() > 0 {
        let front = rules.drop_last();
        lemma_table_domain(front, key);
        if table_of(rules).contains_key(key) {
            if rules.last().source == key {
                assert(rules[rules.len() - 1].source == key);
            } else {
                let i = choose|i: int| 0 <= i < front.len() && (#[trigger] front[i]).source == key;
                assert(rules[i].source == key);
            }
        }
        if exists|i: int| 0 <= i < rules.len() && (#[trigger] rules[i]).source == key {
            let i = choose|i: int| 0 <= i < rules.len() && (#[trigger] rules[i]).source == key;
            if i < front.len() {
                assert(front[i].source == key);
            }
        }
    }
}

/// Where several rules match the same pair, the last of them in the list
/// decides what the table holds for it.
pub proof fn lemma_last_rule_wins(rules: Seq<RuleView>, i: int)
    requires
        0 <= i < rules.len(),
        forall|j: int| i < j < rules.len() ==> (#[trigger] rules[j]).source != rules[i].source,
    ensures
        table_of(rules).contains_key(rules[i].source),
        table_of(rules)[rules[i].source] == rules[i].target,
    decreases rules.len(),
{
    if i < rules.len() - 1 {
        let front = rules.drop_last();
        assert(rules[rules.len() - 1].source != rules[i].source);
        assert forall|j: int| i < j < front.len() implies (#[trigger] front[j]).source
            != front[i].source by {
            assert(rules[j].source != rules[i].source);
        }
        lemma_last_rule_wins(front, i);
    }
}

/// Where no two rules match the same pair, the table holds for each rule's
/// source pair that rule's target pair, and holds nothing for a pair that
/// no rule matches.
pub proof fn lemma_distinct_sources_lookup(rules: Seq<RuleView>)
    requires
        distinct_sources(rules),
    ensures
        forall|i: int|
            0 <= i < rules.len() ==> table_of(rules).contains_key((#[trigger] rules[i]).source)
                && table_of(rules)[rules[i].source] == rules[i].target,
        forall|key: FrameKey|
            (forall|i: int| 0 <= i < rules.len() ==> (#[trigger] rules[i]).source != key)
                ==> !(#[trigger] table_of(rules).contains_key(key)),
{
    assert forall|i: int| 0 <= i < rules.len() implies table_of(rules).contains_key(
        (#[trigger] rules[i]).source,
    ) && table_of(rules)[rules[i].source] == rules[i].target by {
        lemma_last_rule_wins(rules, i);
    }
    assert forall|key: FrameKey|
        (forall|i: int| 0 <= i < rules.len() ==> (#[trigger] rules[i]).source != key)
        implies !(#[trigger] table_of(rules).contains_key(key)) by {
        lemma_table_domain(rules, key);
    }
}

/// The mapping held by a parent index and the per-parent child maps it
/// points into.
spec fn grouped_view(
    index: Map<Seq<char>, usize>,
    groups: Seq<StringHashMap<FramePair>>,
) -> Map<FrameKey, FrameKey> {
    Map::new(
        |k: FrameKey| index.contains_key(k.0) && groups[index[k.0] as int]@.contains_key(k.1),
        |k: FrameKey| groups[index[k.0] as int]@[k.1]@,
    )
}

/// Every parent has a group of its own.
spec fn grouped_wf(index: Map<Seq<char>, usize>, groups: Seq<StringHashMap<FramePair>>) -> bool {
    &&& forall|p: Seq<char>| index.contains_key(p) ==> (#[trigger] index[p]) < groups.len()
    &&& forall|p: Seq<char>, q: Seq<char>|
        index.contains_key(p) && index.contains_key(q) && #[trigger] index[p] == #[trigger] index[q]
            ==> p == q
}

/// Lookup table from `(old_parent, old_child)` to `(new_parent, new_child)`.
///
/// Old parents are hashed to a group, and each group hashes the old children
/// seen under that parent, so a lookup costs two hash probes.
pub struct RemapTable {
    index: StringHashMap<usize>,
    groups: Vec<StringHashMap<FramePair>>,
}

impl View for RemapTable {
    type V = Map<FrameKey, FrameKey>;

    closed spec fn view(&self) -> Map<FrameKey, FrameKey> {
        grouped_view(self.index@, self.groups@)
    }
}

impl RemapTable {
    #[verifier::type_invariant]
    spec fn wf(&self) -> bool {
        grouped_wf(self.index@, self.groups@)
    }

    /// Builds the table of `rules`, taken in order.
    pub fn build(rules: &Vec<RemapRule>) -> (table: RemapTable)
        ensures
            table@ == table_of(rule_views(rules@)),
    {
        let mut index: StringHashMap<usize> = StringHashMap::new();
        let mut groups: Vec<StringHashMap<FramePair>> = Vec::new();
        let mut i: usize = 0;
        while i < rules.len()
            invariant
                i <= rules.len(),
                grouped_wf(index@, groups@),
                grouped_view(index@, groups@) == table_of(rule_views(rules@).take(i as int)),
            decreases rules.len() - i,
        {
            let rule = &rules[i];
            let ghost before = grouped_view(index@, groups@);
            let target = FramePair { parent: rule.new_parent.clone(), child: rule.new_child.clone() };
            match index.get(rule.old_parent.as_str()) {
                Some(g) => {
                    let g: usize = *g;
                    groups[g].insert(rule.old_child.clone(), target);
                },
                None => {
                    let g: usize = groups.len();
                    let mut group: StringHashMap<FramePair> = StringHashMap::new();
                    group.insert(rule.old_child.clone(), target);
                    groups.push(group);
                    index.insert(rule.old_parent.clone(), g);
                },
            }
            proof {
                let views = rule_views(rules@);
                assert(views.take(i + 1).drop_last() == views.take(i as int));
                assert(views.take(i + 1).last() == rules[i as int]@);
                assert(grouped_view(index@, groups@) =~= before.insert(
                    rules[i as int]@.source,
                    rules[i as int]@.target,
                ));
            }
            i += 1;
        }
        assert(rule_views(rules@).take(rules.len() as int) == rule_views(rules@));
        RemapTable { index, groups }
    }

    /// The replacement configured for `(parent, child)`, if there is one.
    pub fn lookup(&self, parent: &str, child: &str) -> (found: Option<&FramePair>)
        ensures
            match found {
                Some(pair) => self@.contains_key((parent@, child@)) && pair@ == self@[(parent@, child@)],
                None => !self@.contains_key((parent@, child@)),
            },
    {
        proof {
            use_type_invariant(self);
        }
        match self.index.get(parent) {
            Some(g) => self.groups[*g].get(child),
            None => None,
        }
    }
}

} // verus!
