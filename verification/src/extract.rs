//! From the rows of a version table to records: every row gives a record, or the whole
//! table gives none.

use vstd::prelude::*;
use crate::count::{
    count_error_text, downloads_of, is_decimal_form, lemma_decimal_form_gives_its_count,
    parse_downloads, without_separators, CountError,
};
use crate::record::{Record, RecordView};

verus! {

/// What a table row shows in the two cells that are read: the inner text of the anchor in
/// its first cell and that of its second cell, each `None` where the row has no such element.
#[derive(Debug, Clone)]
pub struct RowCells {
    pub version: Option<String>,
    pub downloads: Option<String>,
}

/// What a [`RowCells`] holds, as mathematical values.
pub struct RowCellsView {
    pub version: Option<Seq<char>>,
    pub downloads: Option<Seq<char>>,
}

impl View for RowCells {
    type V = RowCellsView;

    open spec fn view(&self) -> RowCellsView {
        RowCellsView {
            version: match self.version {
                Some(text) => Some(text@),
                None => None,
            },
            downloads: match self.downloads {
                Some(text) => Some(text@),
                None => None,
            },
        }
    }
}

impl DeepView for RowCells {
    type V = RowCellsView;

    open spec fn deep_view(&self) -> RowCellsView {
        self@
    }
}

/// Why a page gave no records.
#[derive(Debug, Clone)]
pub enum ExtractError {
    /// The page is longer than the parser can hold.
    PageTooLarge,
    /// The selector engine does not take one of the selectors that locate the table.
    SelectorRejected,
    /// A row has no anchor in its first cell.
    VersionCellMissing,
    /// A row has no second cell.
    DownloadsCellMissing,
    /// The second cell of a row does not hold a count; `raw` is what it holds.
    InvalidDownloads { raw: String, reason: CountError },
}

/// What an [`ExtractError`] says, as mathematical values.
pub enum ExtractErrorView {
    PageTooLarge,
    SelectorRejected,
    VersionCellMissing,
    DownloadsCellMissing,
    InvalidDownloads { raw: Seq<char>, reason: CountError },
}

impl View for ExtractError {
    type V = ExtractErrorView;

    open spec fn view(&self) -> ExtractErrorView {
        match *self {
            ExtractError::PageTooLarge => ExtractErrorView::PageTooLarge,
            ExtractError::SelectorRejected => ExtractErrorView::SelectorRejected,
            ExtractError::VersionCellMissing => ExtractErrorView::VersionCellMissing,
            ExtractError::DownloadsCellMissing => ExtractErrorView::DownloadsCellMissing,
            ExtractError::InvalidDownloads { raw, reason } => ExtractErrorView::InvalidDownloads {
                raw: raw@,
                reason,
            },
        }
    }
}

/// The record that `row` gives, or what is wrong with the row: the version cell is looked
/// at first, then the downloads cell, then the count in it.
pub open spec fn record_of(row: RowCellsView) -> Result<RecordView, ExtractErrorView> {
    match row.version {
        None => Err(ExtractErrorView::VersionCellMissing),
        Some(version) => match row.downloads {
            None => Err(ExtractErrorView::DownloadsCellMissing),
            Some(raw) => match downloads_of(raw) {
                Err(reason) => Err(ExtractErrorView::InvalidDownloads { raw, reason }),
                Ok(downloads) => Ok(RecordView { version, downloads }),
            },
        },
    }
}

/// The records that `rows` give, in the order of the rows, or what is wrong with the first
/// row that gives none.
pub open spec fn records_of(rows: Seq<RowCellsView>) -> Result<Seq<RecordView>, ExtractErrorView>
    decreases rows.len(),
{
    if rows.len() == 0 {
        Ok(Seq::empty())
    } else {
        match records_of(rows.drop_last()) {
            Err(error) => Err(error),
            Ok(records) => match record_of(rows.last()) {
                Err(error) => Err(error),
                Ok(record) => Ok(records.push(record)),
            },
        }
    }
}

/// What the result of reading one row says.
pub open spec fn record_result_view(result: Result<Record, ExtractError>) -> Result<
    RecordView,
    ExtractErrorView,
> {
    match result {
        Ok(record) => Ok(record@),
        Err(error) => Err(error@),
    }
}

/// What the result of an extraction says.
pub open spec fn extraction_view(result: Result<Vec<Record>, ExtractError>) -> Result<
    Seq<RecordView>,
    ExtractErrorView,
> {
    match result {
        Ok(records) => Ok(records.deep_view()),
        Err(error) => Err(error@),
    }
}

/// Turns one row into a record.
pub fn row_record(row: &RowCells) -> (result: Result<Record, ExtractError>)
    ensures
        record_result_view(result) == record_of(row@),
{
    match &row.version {
        None => Err(ExtractError::VersionCellMissing),
        Some(version) => match &row.downloads {
            None => Err(ExtractError::DownloadsCellMissing),
            Some(raw) => match parse_downloads(raw.as_str()) {
                Err(reason) => Err(ExtractError::InvalidDownloads { raw: raw.clone(), reason }),
                Ok(downloads) => Ok(Record { version: version.clone(), downloads }),
            },
        },
    }
}

/// Turns the rows of a table into records, all or none: the rows are read in order and the
/// first one that gives no record ends the reading with its error.
pub fn records_from_rows(rows: &Vec<RowCells>) -> (result: Result<Vec<Record>, ExtractError>)
    ensures
        extraction_view(result) == records_of(rows.deep_view()),
{
    let mut records: Vec<Record> = Vec::new();
    let mut i: usize = 0;
    let ghost all = rows.deep_view();
    assert(records.deep_view() =~= Seq::<RecordView>::empty());
    while i < rows.len()
        invariant
            i <= rows.len(),
            all == rows.deep_view(),
            records_of(all.take(i as int)) == Ok::<Seq<RecordView>, ExtractErrorView>(
                records.deep_view(),
            ),
        decreases rows.len() - i,
    {
        proof {
            assert(all.take(i + 1).drop_last() =~= all.take(i as int));
            assert(all.take(i + 1).last() == rows[i as int]@);
        }
        match row_record(&rows[i]) {
            Err(error) => {
                proof {
                    lemma_fault_stays(all, i + 1);
                }
                return Err(error);
            },
            Ok(record) => {
                let ghost before = records.deep_view();
                records.push(record);
                assert(records.deep_view() =~= before.push(record@));
            },
        }
        i = i + 1;
    }
    assert(all.take(i as int) =~= all);
    Ok(records)
}

/// Once the first `n` rows have given an error, every longer reading gives the same error.
pub proof fn lemma_fault_stays(rows: Seq<RowCellsView>, n: int)
    requires
        0 <= n <= rows.len(),
        records_of(rows.take(n)) is Err,
    ensures
        records_of(rows) == records_of(rows.take(n)),
    decreases rows.len() - n,
{
    if n < rows.len() {
        assert(rows.take(n + 1).drop_last() =~= rows.take(n));
        lemma_fault_stays(rows, n + 1);
    } else {
        assert(rows.take(n) =~= rows);
    }
}

/// Rows that each give a record give, together, one record for every row, in the order of
/// the rows. A table without rows gives no records and no error.
pub proof fn lemma_valid_rows_give_all_records(rows: Seq<RowCellsView>)
    requires
        forall|i: int| 0 <= i < rows.len() ==> record_of(#[trigger] rows[i]) is Ok,
    ensures
        records_of(rows) matches Ok(records) && records.len() == rows.len() && forall|i: int|
            0 <= i < rows.len() ==> record_of(rows[i]) == Ok::<RecordView, ExtractErrorView>(
                #[trigger] records[i],
            ),
    decreases rows.len(),
{
    if rows.len() > 0 {
        let before = rows.drop_last();
        assert forall|i: int| 0 <= i < before.len() implies record_of(
            #[trigger] before[i],
        ) is Ok by {
            assert(before[i] == rows[i]);
        }
        lemma_valid_rows_give_all_records(before);
        assert(record_of(rows[rows.len() - 1]) is Ok);
    }
}

/// An extraction that succeeds has left no row out: it holds one record for every row, the
/// record of that row, in the order of the rows.
pub proof fn lemma_records_cover_rows(rows: Seq<RowCellsView>)
    requires
        records_of(rows) is Ok,
    ensures
        records_of(rows) matches Ok(records) && records.len() == rows.len() && forall|i: int|
            0 <= i < rows.len() ==> record_of(rows[i]) == Ok::<RecordView, ExtractErrorView>(
                #[trigger] records[i],
            ),
    decreases rows.len(),
{
    if rows.len() > 0 {
        lemma_records_cover_rows(rows.drop_last());
    }
}

/// One row that gives no record is enough for the whole table to give none.
pub proof fn lemma_fault_fails(rows: Seq<RowCellsView>, i: int)
    requires
        0 <= i < rows.len(),
        record_of(rows[i]) is Err,
    ensures
        records_of(rows) is Err,
{
    assert(rows.take(i + 1).drop_last() =~= rows.take(i));
    assert(rows.take(i + 1).last() == rows[i]);
    lemma_fault_stays(rows, i + 1);
}

/// The error of an extraction is that of the first row that gives no record.
pub proof fn lemma_first_fault_is_reported(rows: Seq<RowCellsView>, i: int)
    requires
        0 <= i < rows.len(),
        record_of(rows[i]) is Err,
        forall|j: int| 0 <= j < i ==> record_of(#[trigger] rows[j]) is Ok,
    ensures
        records_of(rows) matches Err(error) && record_of(rows[i]) == Err::<
            RecordView,
            ExtractErrorView,
        >(error),
{
    let head = rows.take(i);
    assert forall|j: int| 0 <= j < head.len() implies record_of(#[trigger] head[j]) is Ok by {
        assert(head[j] == rows[j]);
    }
    lemma_valid_rows_give_all_records(head);
    assert(rows.take(i + 1).drop_last() =~= head);
    assert(rows.take(i + 1).last() == rows[i]);
    lemma_fault_stays(rows, i + 1);
}

/// Whether `row` shows the version `version` and the count `count`: its anchor holds the
/// text `version`, and the text of its downloads cell, commas set aside, is the decimal
/// form of `count`, which fits in 64 bits.
pub open spec fn shows(row: RowCellsView, version: Seq<char>, count: nat) -> bool {
    &&& row.version == Some(version)
    &&& row.downloads matches Some(raw) && is_decimal_form(without_separators(raw), count)
    &&& count <= u64::MAX
}

/// Rows that each show a version and a count give exactly these, row by row: as many
/// records as rows, none dropped, added, merged or moved, and none where there is no row.
pub proof fn lemma_rows_give_what_they_show(
    rows: Seq<RowCellsView>,
    versions: Seq<Seq<char>>,
    counts: Seq<nat>,
)
    requires
        versions.len() == rows.len(),
        counts.len() == rows.len(),
        forall|i: int| 0 <= i < rows.len() ==> #[trigger] shows(rows[i], versions[i], counts[i]),
    ensures
        records_of(rows) == Ok::<Seq<RecordView>, ExtractErrorView>(
            Seq::new(
                rows.len(),
                |i: int| RecordView { version: versions[i], downloads: counts[i] as u64 },
            ),
        ),
{
    assert forall|i: int| 0 <= i < rows.len() implies record_of(#[trigger] rows[i]) == Ok::<
        RecordView,
        ExtractErrorView,
    >(RecordView { version: versions[i], downloads: counts[i] as u64 }) by {
        assert(shows(rows[i], versions[i], counts[i]));
        lemma_decimal_form_gives_its_count(rows[i].downloads->0, counts[i]);
    }
    lemma_valid_rows_give_all_records(rows);
    let records = records_of(rows)->Ok_0;
    let expected = Seq::new(
        rows.len(),
        |i: int| RecordView { version: versions[i], downloads: counts[i] as u64 },
    );
    assert forall|i: int| 0 <= i < rows.len() implies records[i] == expected[i] by {
        assert(record_of(rows[i]) == Ok::<RecordView, ExtractErrorView>(records[i]));
    }
    assert(records =~= expected);
}

/// The words that report `error`.
pub open spec fn extract_error_text(error: ExtractErrorView) -> Seq<char> {
    match error {
        ExtractErrorView::PageTooLarge => "page too large"@,
        ExtractErrorView::SelectorRejected => "table selector rejected"@,
        ExtractErrorView::VersionCellMissing => "version cell not found"@,
        ExtractErrorView::DownloadsCellMissing => "downloads cell not found"@,
        ExtractErrorView::InvalidDownloads { raw, reason } => "failed to parse downloads '"@ + raw
            + "': "@ + count_error_text(reason),
    }
}

impl ExtractError {
    /// The error in words: which cell it is about and, for a count, the text that was found
    /// in place of one and why it is none.
    pub fn message(&self) -> (text: String)
        ensures
            text@ == extract_error_text(self@),
    {
        match self {
            ExtractError::PageTooLarge => String::from_str("page too large"),
            ExtractError::SelectorRejected => String::from_str("table selector rejected"),
            ExtractError::VersionCellMissing => String::from_str("version cell not found"),
            ExtractError::DownloadsCellMissing => String::from_str("downloads cell not found"),
            ExtractError::InvalidDownloads { raw, reason } => {
                let mut text = String::from_str("failed to parse downloads '");
                text.append(raw.as_str());
                text.append("': ");
                text.append(reason.message());
                text
            },
        }
    }
}

} // verus!
