//! From the fetched page of a package to the data points that are published for it.

use vstd::prelude::*;
use crate::extract::{
    lemma_rows_give_what_they_show, shows, ExtractError, ExtractErrorView, RowCellsView,
};
use crate::markup::{extraction_of, parse_html, table_rows_of};
use crate::request::{fetched_page_of, is_success, FetchError};
use crate::publish::{metric_points, points_of, MetricPoint, MetricPointView};
use crate::record::RecordView;

verus! {

/// The data points of `package` that the page `html` gives: one for every record of the
/// page, or none at all where the page gives no records.
pub open spec fn page_points_of(package: Seq<char>, html: Seq<char>) -> Result<
    Seq<MetricPointView>,
    ExtractErrorView,
> {
    match extraction_of(html) {
        Ok(records) => Ok(points_of(package, records)),
        Err(error) => Err(error),
    }
}

/// What the result of turning a page into data points says.
pub open spec fn points_view(result: Result<Vec<MetricPoint>, ExtractError>) -> Result<
    Seq<MetricPointView>,
    ExtractErrorView,
> {
    match result {
        Ok(points) => Ok(points.deep_view()),
        Err(error) => Err(error@),
    }
}

/// Extracts the records of `package` from its page and maps them to data points. A page
/// that fails gives its error and no point.
pub fn page_points(package: &str, html: &str) -> (result: Result<Vec<MetricPoint>, ExtractError>)
    ensures
        points_view(result) == page_points_of(package@, html@),
{
    match parse_html(html) {
        Ok(records) => Ok(metric_points(package, &records)),
        Err(error) => Err(error),
    }
}

/// As many data points are published for a package as records were extracted for it, and
/// the point at each place carries the package, the version and the downloads of the
/// record at that place.
pub proof fn lemma_one_point_for_each_record(package: Seq<char>, records: Seq<RecordView>)
    ensures
        points_of(package, records).len() == records.len(),
        forall|i: int|
            0 <= i < records.len() ==> {
                let point = #[trigger] points_of(package, records)[i];
                &&& point.value == records[i].downloads
                &&& point.package == package
                &&& point.version == records[i].version
            },
{
}

/// An answer of success whose page has rows that each show a version and a count gives
/// exactly these, from the fetch to the data points: the body is the page, the page gives
/// one record for every row with the version and the count that the row shows, and every
/// record gives its data point, labelled with the package, in the same order.
pub proof fn lemma_successful_answer_gives_what_its_rows_show(
    package: Seq<char>,
    status: u16,
    body: Seq<char>,
    rows: Seq<RowCellsView>,
    versions: Seq<Seq<char>>,
    counts: Seq<nat>,
)
    requires
        is_success(status),
        table_rows_of(body) == Ok::<Seq<RowCellsView>, ExtractErrorView>(rows),
        versions.len() == rows.len(),
        counts.len() == rows.len(),
        forall|i: int| 0 <= i < rows.len() ==> #[trigger] shows(rows[i], versions[i], counts[i]),
    ensures
        fetched_page_of(Some((status, body))) == Ok::<Seq<char>, FetchError>(body),
        extraction_of(body) == Ok::<Seq<RecordView>, ExtractErrorView>(
            Seq::new(
                rows.len(),
                |i: int| RecordView { version: versions[i], downloads: counts[i] as u64 },
            ),
        ),
        page_points_of(package, body) == Ok::<Seq<MetricPointView>, ExtractErrorView>(
            Seq::new(
                rows.len(),
                |i: int|
                    MetricPointView {
                        value: counts[i] as u64,
                        package,
                        version: versions[i],
                    },
            ),
        ),
{
    lemma_rows_give_what_they_show(rows, versions, counts);
    let records = Seq::new(
        rows.len(),
        |i: int| RecordView { version: versions[i], downloads: counts[i] as u64 },
    );
    let points = Seq::new(
        rows.len(),
        |i: int| MetricPointView { value: counts[i] as u64, package, version: versions[i] },
    );
    assert(points_of(package, records) =~= points);
}

} // verus!
