//! Transform records: two frame names and a payload that is carried along.

use vstd::prelude::*;
use crate::frames::FrameKey;

verus! {

/// A point in time, split as in transform messages.
#[derive(Clone, Copy, Debug, PartialEq, Eq, Structural)]
pub struct Time {
    pub sec: i32,
    pub nanosec: u32,
}

/// A rigid transform of `child` relative to `parent` at `timestamp`.
///
/// The library reads and writes the two frame names only. The pose `P` is
/// whatever the surroundings use for rotation and translation.
#[derive(Clone, Debug, PartialEq)]
pub struct TransformRecord<P> {
    pub parent: String,
    pub child: String,
    pub timestamp: Time,
    pub rigid_transform: P,
}

/// A [`TransformRecord`] with the frame names as character sequences.
pub struct RecordView<P> {
    pub parent: Seq<char>,
    pub child: Seq<char>,
    pub timestamp: Time,
    pub rigid_transform: P,
}

impl<P> View for TransformRecord<P> {
    type V = RecordView<P>;

    open spec fn view(&self) -> RecordView<P> {
        RecordView {
            parent: self.parent@,
            child: self.child@,
            timestamp: self.timestamp,
            rigid_transform: self.rigid_transform,
        }
    }
}

impl<P> RecordView<P> {
    /// The pair of frame names that rules are matched against.
    pub open spec fn frames(self) -> FrameKey {
        (self.parent, self.child)
    }

    /// The same transform between the frames of `target`.
    pub open spec fn renamed(self, target: FrameKey) -> RecordView<P> {
        RecordView {
            parent: target.0,
            child: target.1,
            timestamp: self.timestamp,
            rigid_transform: self.rigid_transform,
        }
    }
}

/// The records of a batch, in the order of the batch.
pub open spec fn record_views<P>(batch: Seq<TransformRecord<P>>) -> Seq<RecordView<P>> {
    Seq::new(batch.len(), |i: int| batch[i]@)
}

} // verus!
