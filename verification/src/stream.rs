//! Rewriting of transform batches as they arrive.

use vstd::prelude::*;
use crate::frames::{FrameKey, RemapConfig, RuleView};
use crate::record::{RecordView, TransformRecord, record_views};
use crate::table::{RemapTable, lemma_last_rule_wins, table_of};

verus! {

/// What becomes of one record under `table`: renamed to the pair that the
/// table holds for its frames, or dropped where it holds none.
pub open spec fn remapped_record<P>(table: Map<FrameKey, FrameKey>, record: RecordView<P>) -> Option<
    RecordView<P>,
> {
    if table.contains_key(record.frames()) {
        Some(record.renamed(table[record.frames()]))
    } else {
        None
    }
}

/// [`remapped_record`] with the table fixed.
pub open spec fn remapper<P>(table: Map<FrameKey, FrameKey>) -> spec_fn(RecordView<P>) -> Option<
    RecordView<P>,
> {
    |record: RecordView<P>| remapped_record(table, record)
}

/// What becomes of a batch under `table`: the records that the table knows,
/// renamed, in the order in which they came.
pub open spec fn remapped_batch<P>(table: Map<FrameKey, FrameKey>, batch: Seq<RecordView<P>>) -> Seq<
    RecordView<P>,
> {
    batch.filter_map(remapper(table))
}

/// A batch is remapped record by record: what becomes of a batch with one
/// more record at its end is what becomes of the batch, followed by what
/// becomes of that record, if anything.
pub proof fn lemma_remapped_batch_push<P>(
    table: Map<FrameKey, FrameKey>,
    batch: Seq<RecordView<P>>,
    record: RecordView<P>,
)
    ensures
        remapped_batch(table, batch.push(record)) == match remapped_record(table, record) {
            Some(renamed) => remapped_batch(table, batch).push(renamed),
            None => remapped_batch(table, batch),
        },
{
    assert(batch.push(record).drop_last() == batch);
}

/// A batch none of whose records matches a rule becomes the empty batch.
pub proof fn lemma_unmatched_batch_is_dropped<P>(
    table: Map<FrameKey, FrameKey>,
    batch: Seq<RecordView<P>>,
)
    requires
        forall|i: int| 0 <= i < batch.len() ==> !table.contains_key((#[trigger] batch[i]).frames()),
    ensures
        remapped_batch(table, batch) == Seq::<RecordView<P>>::empty(),
    decreases batch.len(),
{
    if batch.len() > 0 {
        let front = batch.drop_last();
        assert forall|i: int| 0 <= i < front.len() implies !table.contains_key(
            (#[trigger] front[i]).frames(),
        ) by {
            assert(!table.contains_key(batch[i].frames()));
        }
        lemma_unmatched_batch_is_dropped(table, front);
        assert(!table.contains_key(batch[batch.len() - 1].frames()));
        assert(front.push(batch.last()) == batch);
        lemma_remapped_batch_push(table, front, batch.last());
    }
}

/// With no rules configured, every batch becomes the empty batch.
pub proof fn lemma_no_rules_drop_every_batch<P>(batch: Seq<RecordView<P>>)
    ensures
        remapped_batch(table_of(Seq::<RuleView>::empty()), batch) == Seq::<RecordView<P>>::empty(),
{
    lemma_unmatched_batch_is_dropped(table_of(Seq::<RuleView>::empty()), batch);
}

/// A record whose frames are the source pair of rule `i`, the last rule
/// with that source pair, comes out between that rule's target frames,
/// with the timestamp and the pose it came in with, whatever they are.
pub proof fn lemma_matched_record_keeps_payload<P>(
    rules: Seq<RuleView>,
    i: int,
    record: RecordView<P>,
)
    requires
        0 <= i < rules.len(),
        record.frames() == rules[i].source,
        forall|j: int| i < j < rules.len() ==> (#[trigger] rules[j]).source != rules[i].source,
    ensures
        remapped_record(table_of(rules), record) == Some(
            RecordView {
                parent: rules[i].target.0,
                child: rules[i].target.1,
                timestamp: record.timestamp,
                rigid_transform: record.rigid_transform,
            },
        ),
{
    lemma_last_rule_wins(rules, i);
}

/// Renames `record` by `table`, or drops it where no rule matches its frames.
pub fn remap_record<P: Copy>(table: &RemapTable, record: &TransformRecord<P>) -> (out: Option<
    TransformRecord<P>,
>)
    ensures
        match out {
            Some(renamed) => remapped_record(table@, record@) == Some(renamed@),
            None => remapped_record(table@, record@) is None,
        },
{
    match table.lookup(record.parent.as_str(), record.child.as_str()) {
        Some(target) => Some(
            TransformRecord {
                parent: target.parent.clone(),
                child: target.child.clone(),
                timestamp: record.timestamp,
                rigid_transform: record.rigid_transform,
            },
        ),
        None => None,
    }
}

/// Appends to `new_transforms` what becomes of `transforms` under `table`.
pub fn remap_transforms<P: Copy>(
    table: &RemapTable,
    transforms: &Vec<TransformRecord<P>>,
    new_transforms: &mut Vec<TransformRecord<P>>,
)
    ensures
        final(new_transforms)@.len() >= old(new_transforms)@.len(),
        final(new_transforms)@.take(old(new_transforms)@.len() as int) == old(new_transforms)@,
        record_views(final(new_transforms)@.skip(old(new_transforms)@.len() as int))
            == remapped_batch(table@, record_views(transforms@)),
{
    let ghost kept = new_transforms@;
    let ghost views = record_views(transforms@);
    let mut i: usize = 0;
    while i < transforms.len()
        invariant
            i <= transforms.len(),
            views == record_views(transforms@),
            new_transforms@.len() >= kept.len(),
            new_transforms@.take(kept.len() as int) == kept,
            record_views(new_transforms@.skip(kept.len() as int)) == remapped_batch(
                table@,
                views.take(i as int),
            ),
        decreases transforms.len() - i,
    {
        let ghost before = new_transforms@;
        proof {
            views.lemma_filter_map_take_succ(remapper(table@), i as int);
        }
        match remap_record(table, &transforms[i]) {
            Some(renamed) => {
                new_transforms.push(renamed);
                assert(new_transforms@.skip(kept.len() as int) == before.skip(kept.len() as int).push(
                    renamed,
                ));
            },
            None => {},
        }
        i += 1;
    }
    assert(views.take(transforms.len() as int) == views);
}

/// A remapper for one inbound stream, with its own snapshot of the table.
pub struct StreamRemapper {
    table: RemapTable,
}

impl View for StreamRemapper {
    type V = Map<FrameKey, FrameKey>;

    closed spec fn view(&self) -> Map<FrameKey, FrameKey> {
        self.table@
    }
}

impl StreamRemapper {
    /// A remapper that applies the rules of `config`.
    pub fn new(config: &RemapConfig) -> (remapper: StreamRemapper)
        ensures
            remapper@ == table_of(config@),
    {
        StreamRemapper { table: RemapTable::build(&config.remaps) }
    }

    /// The batch that `in_batch` becomes: matching records renamed and kept
    /// in order, the others dropped.
    pub fn apply<P: Copy>(&self, in_batch: &Vec<TransformRecord<P>>) -> (out_batch: Vec<
        TransformRecord<P>,
    >)
        ensures
            record_views(out_batch@) == remapped_batch(self@, record_views(in_batch@)),
    {
        let mut out_batch: Vec<TransformRecord<P>> = Vec::new();
        remap_transforms(&self.table, in_batch, &mut out_batch);
        assert(out_batch@.skip(0) == out_batch@);
        out_batch
    }

    /// What is to be published for `in_batch`: the remapped batch, or
    /// nothing where no record of `in_batch` matches a rule.
    pub fn process<P: Copy>(&self, in_batch: &Vec<TransformRecord<P>>) -> (publication: Option<
        Vec<TransformRecord<P>>,
    >)
        ensures
            publication is None <==> remapped_batch(self@, record_views(in_batch@)).len() == 0,
            publication matches Some(out_batch) ==> record_views(out_batch@) == remapped_batch(
                self@,
                record_views(in_batch@),
            ),
    {
        let out_batch = self.apply(in_batch);
        if out_batch.len() > 0 {
            Some(out_batch)
        } else {
            None
        }
    }
}

} // verus!
