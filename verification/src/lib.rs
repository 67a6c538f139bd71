//! Renaming of coordinate frames in streams of spatial transforms.
//!
//! A static list of [`RemapRule`]s says which `(parent, child)` pairs of frame
//! names are to be published under which new names. [`RemapTable`] indexes the
//! rules for exact-match lookup. [`StreamRemapper`] rewrites batches of
//! transforms with it as they arrive, and [`BufferedReshaper`] decides, tick
//! by tick, what to re-emit from a store of buffered transforms.

pub mod frames;
pub mod record;
pub mod reshaper;
pub mod stream;
pub mod table;

pub use frames::{FramePair, RemapConfig, RemapRule, RuleView};
pub use record::{RecordView, Time, TransformRecord};
pub use reshaper::{relabel, reshape, ActionView, BufferedReshaper, TickAction};
pub use stream::{remap_record, remap_transforms, StreamRemapper};
pub use table::RemapTable;
