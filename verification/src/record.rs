//! One row of a package's version table.

use vstd::prelude::*;

verus! {

/// A published version of a package and how often it was downloaded.
///
/// The version is kept as the registry displays it; the records of one page may repeat a
/// version, and each of them stands for itself.
#[derive(Debug, Clone)]
pub struct Record {
    pub version: String,
    pub downloads: u64,
}

/// What a [`Record`] says, as mathematical values.
pub struct RecordView {
    pub version: Seq<char>,
    pub downloads: u64,
}

impl View for Record {
    type V = RecordView;

    open spec fn view(&self) -> RecordView {
        RecordView { version: self.version@, downloads: self.downloads }
    }
}

impl DeepView for Record {
    type V = RecordView;

    open spec fn deep_view(&self) -> RecordView {
        self@
    }
}

} // verus!
