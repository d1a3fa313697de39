//! The version table of a registry page: where it stands in the markup, and how its rows
//! are read out of the parsed document.
//!
//! Parsing the markup and matching selectors is the work of the `scraper` crate. What is
//! believed of it is stated here and nowhere else; which elements are asked for, which of
//! them is read and what becomes of a row is verified.

use vstd::prelude::*;
use vstd::utf8::{encode_utf8, is_ascii_chars_encode_utf8};
use crate::chars::{join, joined};
use crate::extract::{
    extraction_view, lemma_first_fault_is_reported, lemma_records_cover_rows,
    lemma_rows_give_what_they_show, lemma_valid_rows_give_all_records, shows,
    record_of, records_from_rows, records_of, ExtractError, ExtractErrorView, RowCells,
    RowCellsView,
};
use crate::record::{Record, RecordView};

verus! {

/// `scraper::Html`, a parsed document. Nothing inside it is visible here, and no two
/// documents are ever compared by the program.
#[verifier::external_type_specification]
#[verifier::external_body]
pub struct ExHtml(scraper::Html);

/// `scraper::Selector`, a compiled selector group. Nothing inside it is visible here.
#[verifier::external_type_specification]
#[verifier::external_body]
pub struct ExSelector(scraper::Selector);

/// `scraper::error::SelectorErrorKind`, the reason why a selector text was not taken.
#[verifier::external_type_specification]
#[verifier::external_body]
pub struct ExSelectorErrorKind(scraper::error::SelectorErrorKind);

/// `scraper::ElementRef`, a reference to an element of a parsed document. Nothing inside
/// it is visible here, and no two references are ever compared by the program.
#[verifier::external_type_specification]
#[verifier::external_body]
pub struct ExElementRef<'a>(scraper::ElementRef<'a>);

/// The document that `scraper::Html::parse_document` builds from `text`.
pub uninterp spec fn parsed_document(text: Seq<char>) -> scraper::Html;

/// What `scraper::Selector::parse` makes of the selector text `css`.
pub uninterp spec fn compiled_selector(css: Seq<char>) -> Result<
    scraper::Selector,
    scraper::error::SelectorErrorKind,
>;

/// The elements that `scraper::Html::select` yields for `selector` in `document`, in the
/// order in which it yields them.
pub uninterp spec fn document_matches(
    document: &scraper::Html,
    selector: scraper::Selector,
) -> Seq<scraper::ElementRef<'_>>;

/// The elements that `scraper::ElementRef::select` yields for `selector` below `scope`, in
/// the order in which it yields them.
pub uninterp spec fn element_matches(
    scope: scraper::ElementRef<'_>,
    selector: scraper::Selector,
) -> Seq<scraper::ElementRef<'_>>;

/// The text nodes that `scraper::ElementRef::text` yields below `element`, in the order in
/// which it yields them.
pub uninterp spec fn element_text_nodes(element: scraper::ElementRef<'_>) -> Seq<Seq<char>>;

/// `scraper::Html::parse_document` never fails, and what it builds depends on the text
/// alone: the same text gives the same document. It gathers every text of the document in
/// a buffer whose capacity is a power of two within `u32`, so that no text can pass 2^31
/// bytes, and it panics where one would. A text holds at most three bytes for each byte of
/// the document (a NUL byte becomes U+FFFD). Documents of up to 512 MiB stay within that.
pub assume_specification[ scraper::Html::parse_document ](document: &str) -> (html: scraper::Html)
    requires
        encode_utf8(document@).len() <= 0x2000_0000,
    ensures
        html == parsed_document(document@),
;

/// `scraper::Selector::parse` takes a selector text or refuses it, and which of the two,
/// and with what, depends on the text alone. It reads the text from left to right and
/// refuses brackets nested beyond a fixed depth; it is asked for texts of up to 1 KiB only.
pub assume_specification[ scraper::Selector::parse ](selectors: &str) -> (result: Result<
    scraper::Selector,
    scraper::error::SelectorErrorKind,
>)
    requires
        encode_utf8(selectors@).len() <= 0x400,
    ensures
        result == compiled_selector(selectors@),
;

/// Runs `scraper::Html::select` to its end and keeps what it yields, in order. It is asked
/// for the rows of the table only: matching that selector goes four steps up from an
/// element, however deep the document is. Other selectors are not handed to it, since the
/// matching of some of them goes as deep as the document.
#[verifier::external_body]
fn select_in_document<'a>(document: &'a scraper::Html, selector: &scraper::Selector) -> (found:
    Vec<scraper::ElementRef<'a>>)
    requires
        selector_of(rows_selector_text()) == Some(*selector),
    ensures
        found@ == document_matches(document, *selector),
{
    document.select(selector).collect()
}

/// Runs `scraper::ElementRef::select` to its end and keeps what it yields, in order. It is
/// asked for the two cells of a row only: matching those selectors goes one step up from
/// an element at most. Other selectors are not handed to it.
#[verifier::external_body]
fn select_in_element<'a>(scope: &scraper::ElementRef<'a>, selector: &scraper::Selector) -> (found:
    Vec<scraper::ElementRef<'a>>)
    requires
        selector_of(version_selector_text()) == Some(*selector) || selector_of(
            downloads_selector_text(),
        ) == Some(*selector),
    ensures
        found@ == element_matches(*scope, *selector),
{
    scope.select(selector).collect()
}

/// Runs `scraper::ElementRef::text` to its end and keeps a copy of each text node that it
/// yields, in order.
#[verifier::external_body]
fn text_nodes(element: &scraper::ElementRef<'_>) -> (nodes: Vec<String>)
    ensures
        nodes.deep_view() == element_text_nodes(*element),
{
    element.text().map(|node| node.to_string()).collect()
}

/// The longest page, in bytes, that is handed to the parser.
pub const MAX_PAGE_BYTES: usize = 0x2000_0000;

/// The length of `text` in bytes.
pub open spec fn byte_length(text: Seq<char>) -> nat {
    encode_utf8(text).len()
}

/// The selector that the text `css` stands for, if the selector engine takes it.
pub open spec fn selector_of(css: Seq<char>) -> Option<scraper::Selector> {
    match compiled_selector(css) {
        Ok(selector) => Some(selector),
        Err(_) => None,
    }
}

/// Whether `css` is one of the three selectors of the table.
pub open spec fn is_table_selector(css: Seq<char>) -> bool {
    ||| css == rows_selector_text()
    ||| css == version_selector_text()
    ||| css == downloads_selector_text()
}

/// The selector of the table's rows: below the versions panel, in its inner container, the
/// table that is the fifth child, and the rows of its body. The path goes by position.
pub open spec fn rows_selector_text() -> Seq<char> {
    "#tabpanel-versions > div > table:nth-child(5) > tbody > tr"@
}

/// The selector, within a row, of the anchor in the first cell.
pub open spec fn version_selector_text() -> Seq<char> {
    "td:nth-child(1) > a"@
}

/// The selector, within a row, of the second cell.
pub open spec fn downloads_selector_text() -> Seq<char> {
    "td:nth-child(2)"@
}

/// The inner text of `element`: the text nodes below it, one after the other.
pub open spec fn inner_text_of(element: scraper::ElementRef<'_>) -> Seq<char> {
    joined(element_text_nodes(element))
}

/// The inner text of the first element of `found`, if there is one.
pub open spec fn first_text(found: Seq<scraper::ElementRef<'_>>) -> Option<Seq<char>> {
    if found.len() == 0 {
        None
    } else {
        Some(inner_text_of(found[0]))
    }
}

/// What `row` shows in its two cells: for each, the first element that its selector
/// matches below the row.
pub open spec fn row_cells_of(
    row: scraper::ElementRef<'_>,
    version: scraper::Selector,
    downloads: scraper::Selector,
) -> RowCellsView {
    RowCellsView {
        version: first_text(element_matches(row, version)),
        downloads: first_text(element_matches(row, downloads)),
    }
}

/// The rows that `rows` matches in `document`, each with its two cells.
pub open spec fn rows_in(
    document: &scraper::Html,
    rows: scraper::Selector,
    version: scraper::Selector,
    downloads: scraper::Selector,
) -> Seq<RowCellsView> {
    let found = document_matches(document, rows);
    Seq::new(found.len(), |i: int| row_cells_of(found[i], version, downloads))
}

/// The rows of the version table in the page `html`, each with the texts of its two
/// cells. A page without the panel or without the table has no rows; that is no error. A
/// page that is too long for the parser is refused, and so is every page if the selector
/// engine does not take the selectors of the table.
pub open spec fn table_rows_of(html: Seq<char>) -> Result<Seq<RowCellsView>, ExtractErrorView> {
    if byte_length(html) > MAX_PAGE_BYTES {
        Err(ExtractErrorView::PageTooLarge)
    } else {
        match (
            selector_of(rows_selector_text()),
            selector_of(version_selector_text()),
            selector_of(downloads_selector_text()),
        ) {
            (Some(rows), Some(version), Some(downloads)) => Ok(
                rows_in(&parsed_document(html), rows, version, downloads),
            ),
            _ => Err(ExtractErrorView::SelectorRejected),
        }
    }
}

/// The records of the page `html`: those of its rows, if every row gives one.
pub open spec fn extraction_of(html: Seq<char>) -> Result<Seq<RecordView>, ExtractErrorView> {
    match table_rows_of(html) {
        Ok(rows) => records_of(rows),
        Err(error) => Err(error),
    }
}

/// What the result of reading the rows says.
pub open spec fn rows_view(result: Result<Vec<RowCells>, ExtractError>) -> Result<
    Seq<RowCellsView>,
    ExtractErrorView,
> {
    match result {
        Ok(rows) => Ok(rows.deep_view()),
        Err(error) => Err(error@),
    }
}

/// The inner text of an element.
fn inner_text(element: &scraper::ElementRef<'_>) -> (text: String)
    ensures
        text@ == inner_text_of(*element),
{
    let nodes = text_nodes(element);
    join(&nodes)
}

/// The inner text of the first of the elements found.
fn first_inner_text(found: &Vec<scraper::ElementRef<'_>>) -> (text: Option<String>)
    ensures
        match text {
            Some(text) => first_text(found@) == Some(text@),
            None => first_text(found@) is None,
        },
{
    if found.len() > 0 {
        Some(inner_text(&found[0]))
    } else {
        None
    }
}

/// Reads the two cells of a row.
fn row_cells(
    row: &scraper::ElementRef<'_>,
    version: &scraper::Selector,
    downloads: &scraper::Selector,
) -> (cells: RowCells)
    requires
        selector_of(version_selector_text()) == Some(*version),
        selector_of(downloads_selector_text()) == Some(*downloads),
    ensures
        cells@ == row_cells_of(*row, *version, *downloads),
{
    let anchors = select_in_element(row, version);
    let counts = select_in_element(row, downloads);
    RowCells { version: first_inner_text(&anchors), downloads: first_inner_text(&counts) }
}

/// Compiles one of the selectors of the table.
fn table_selector(css: &str) -> (result: Result<scraper::Selector, ExtractError>)
    requires
        is_table_selector(css@),
    ensures
        match result {
            Ok(selector) => selector_of(css@) == Some(selector),
            Err(error) => selector_of(css@) is None && error@
                == ExtractErrorView::SelectorRejected,
        },
{
    proof {
        lemma_table_selectors_fit();
    }
    match scraper::Selector::parse(css) {
        Ok(selector) => Ok(selector),
        Err(_) => Err(ExtractError::SelectorRejected),
    }
}

/// The selector of the table's rows.
pub fn rows_selector() -> (css: &'static str)
    ensures
        css@ == rows_selector_text(),
{
    "#tabpanel-versions > div > table:nth-child(5) > tbody > tr"
}

/// The selector of the version anchor within a row.
pub fn version_selector() -> (css: &'static str)
    ensures
        css@ == version_selector_text(),
{
    "td:nth-child(1) > a"
}

/// The selector of the downloads cell within a row.
pub fn downloads_selector() -> (css: &'static str)
    ensures
        css@ == downloads_selector_text(),
{
    "td:nth-child(2)"
}

/// Parses a page and reads the rows of its version table, in the order in which the
/// selector engine yields them, each with the texts of its two cells. This is the one
/// place that knows where the table stands in the page.
pub fn table_rows(html: &str) -> (result: Result<Vec<RowCells>, ExtractError>)
    ensures
        rows_view(result) == table_rows_of(html@),
{
    if html.as_bytes().len() > MAX_PAGE_BYTES {
        return Err(ExtractError::PageTooLarge);
    }
    let rows = match table_selector(rows_selector()) {
        Ok(selector) => selector,
        Err(error) => {
            return Err(error);
        },
    };
    let version = match table_selector(version_selector()) {
        Ok(selector) => selector,
        Err(error) => {
            return Err(error);
        },
    };
    let downloads = match table_selector(downloads_selector()) {
        Ok(selector) => selector,
        Err(error) => {
            return Err(error);
        },
    };
    let document = scraper::Html::parse_document(html);
    let found = select_in_document(&document, &rows);
    let mut cells: Vec<RowCells> = Vec::new();
    let mut i: usize = 0;
    while i < found.len()
        invariant
            i <= found.len(),
            found@ == document_matches(&document, rows),
            selector_of(version_selector_text()) == Some(version),
            selector_of(downloads_selector_text()) == Some(downloads),
            cells.len() == i,
            forall|j: int|
                0 <= j < i ==> (#[trigger] cells[j])@ == row_cells_of(found[j], version, downloads),
        decreases found.len() - i,
    {
        cells.push(row_cells(&found[i], &version, &downloads));
        i = i + 1;
    }
    assert(cells.deep_view() =~= rows_in(&document, rows, version, downloads));
    Ok(cells)
}

/// Extracts the records of a package from its version page. Every row of the table gives
/// one record, and the records stand in the order in which the selector engine yields the
/// rows; a row without a version anchor, without a downloads cell or with a cell that
/// holds no count makes the whole page fail with the error of the first such row. The
/// result depends on the text of the page alone.
pub fn parse_html(html: &str) -> (result: Result<Vec<Record>, ExtractError>)
    ensures
        extraction_view(result) == extraction_of(html@),
        byte_length(html@) <= MAX_PAGE_BYTES && table_selectors_accepted() ==> table_rows_of(
            html@,
        ) is Ok,
        table_rows_of(html@) matches Ok(rows) ==> {
            &&& result is Ok <==> forall|i: int|
                0 <= i < rows.len() ==> record_of(#[trigger] rows[i]) is Ok
            &&& result matches Ok(records) ==> records.len() == rows.len() && forall|i: int|
                0 <= i < rows.len() ==> record_of(rows[i]) == Ok::<RecordView, ExtractErrorView>(
                    (#[trigger] records[i])@,
                )
        },
{
    proof {
        if table_rows_of(html@) is Ok {
            lemma_page_is_read_whole(html@, table_rows_of(html@)->Ok_0);
        }
    }
    let result = match table_rows(html) {
        Ok(rows) => records_from_rows(&rows),
        Err(error) => Err(error),
    };
    proof {
        if result is Ok {
            let records = result->Ok_0;
            assert forall|i: int| 0 <= i < records.len() implies records.deep_view()[i]
                == (#[trigger] records[i])@ by {}
        }
    }
    result
}

/// Whether the selector engine takes the three selectors of the table.
pub open spec fn table_selectors_accepted() -> bool {
    &&& compiled_selector(rows_selector_text()) is Ok
    &&& compiled_selector(version_selector_text()) is Ok
    &&& compiled_selector(downloads_selector_text()) is Ok
}

/// The three selectors of the table are short: none is longer than 1 KiB.
pub proof fn lemma_table_selectors_fit()
    ensures
        byte_length(rows_selector_text()) <= 0x400,
        byte_length(version_selector_text()) <= 0x400,
        byte_length(downloads_selector_text()) <= 0x400,
{
    reveal_strlit("#tabpanel-versions > div > table:nth-child(5) > tbody > tr");
    reveal_strlit("td:nth-child(1) > a");
    reveal_strlit("td:nth-child(2)");
    is_ascii_chars_encode_utf8(rows_selector_text());
    is_ascii_chars_encode_utf8(version_selector_text());
    is_ascii_chars_encode_utf8(downloads_selector_text());
}

/// A page within the size limit has its rows read, provided that the selector engine takes
/// the three selectors of the table: nothing else stands between a page and its rows.
pub proof fn lemma_page_within_limit_has_rows(html: Seq<char>)
    requires
        byte_length(html) <= MAX_PAGE_BYTES,
        table_selectors_accepted(),
    ensures
        table_rows_of(html) is Ok,
{
}

/// A page whose rows each show a version and a count gives exactly these: as many records
/// as the table has rows, the record at each place holding the version and the count that
/// the row at that place shows. A table without rows gives no records and no error.
pub proof fn lemma_page_gives_what_its_rows_show(
    html: Seq<char>,
    rows: Seq<RowCellsView>,
    versions: Seq<Seq<char>>,
    counts: Seq<nat>,
)
    requires
        table_rows_of(html) == Ok::<Seq<RowCellsView>, ExtractErrorView>(rows),
        versions.len() == rows.len(),
        counts.len() == rows.len(),
        forall|i: int| 0 <= i < rows.len() ==> #[trigger] shows(rows[i], versions[i], counts[i]),
    ensures
        extraction_of(html) == Ok::<Seq<RecordView>, ExtractErrorView>(
            Seq::new(
                rows.len(),
                |i: int| RecordView { version: versions[i], downloads: counts[i] as u64 },
            ),
        ),
{
    lemma_rows_give_what_they_show(rows, versions, counts);
}

/// Extracting twice from the same text gives the same result: nothing but the text decides
/// what is returned.
pub proof fn lemma_extraction_is_repeatable(
    html: Seq<char>,
    first: Result<Seq<RecordView>, ExtractErrorView>,
    second: Result<Seq<RecordView>, ExtractErrorView>,
)
    requires
        first == extraction_of(html),
        second == extraction_of(html),
    ensures
        first == second,
{
}

/// A page whose table has `rows.len()` rows, each of which gives a record, gives exactly
/// that many records, the record of each row at the place of the row.
pub proof fn lemma_page_of_valid_rows(html: Seq<char>, rows: Seq<RowCellsView>)
    requires
        table_rows_of(html) == Ok::<Seq<RowCellsView>, ExtractErrorView>(rows),
        forall|i: int| 0 <= i < rows.len() ==> record_of(#[trigger] rows[i]) is Ok,
    ensures
        extraction_of(html) matches Ok(records) && records.len() == rows.len() && forall|i: int|
            0 <= i < rows.len() ==> record_of(rows[i]) == Ok::<RecordView, ExtractErrorView>(
                #[trigger] records[i],
            ),
{
    lemma_valid_rows_give_all_records(rows);
}

/// A page with a row that gives no record gives no records at all, and the error is that
/// of its first such row.
pub proof fn lemma_page_with_faulty_row(html: Seq<char>, rows: Seq<RowCellsView>, i: int)
    requires
        table_rows_of(html) == Ok::<Seq<RowCellsView>, ExtractErrorView>(rows),
        0 <= i < rows.len(),
        record_of(rows[i]) is Err,
        forall|j: int| 0 <= j < i ==> record_of(#[trigger] rows[j]) is Ok,
    ensures
        extraction_of(html) matches Err(error) && record_of(rows[i]) == Err::<
            RecordView,
            ExtractErrorView,
        >(error),
{
    lemma_first_fault_is_reported(rows, i);
}

/// A page is read whole or not at all: where records come back, there is one for every row
/// of the table, the record of that row, and where a row gives none, none come back.
pub proof fn lemma_page_is_read_whole(html: Seq<char>, rows: Seq<RowCellsView>)
    requires
        table_rows_of(html) == Ok::<Seq<RowCellsView>, ExtractErrorView>(rows),
    ensures
        extraction_of(html) matches Ok(records) ==> records.len() == rows.len() && forall|i: int|
            0 <= i < rows.len() ==> record_of(rows[i]) == Ok::<RecordView, ExtractErrorView>(
                #[trigger] records[i],
            ),
        extraction_of(html) is Err <==> exists|i: int|
            0 <= i < rows.len() && record_of(#[trigger] rows[i]) is Err,
{
    match records_of(rows) {
        Ok(records) => {
            lemma_records_cover_rows(rows);
            assert forall|i: int| 0 <= i < rows.len() implies record_of(
                #[trigger] rows[i],
            ) is Ok by {
                assert(record_of(rows[i]) == Ok::<RecordView, ExtractErrorView>(records[i]));
            }
        },
        Err(_) => {
            if forall|i: int| 0 <= i < rows.len() ==> record_of(#[trigger] rows[i]) is Ok {
                lemma_valid_rows_give_all_records(rows);
            }
        },
    }
}

/// A page in which the selectors find no row gives no records and no error.
pub proof fn lemma_page_without_rows(html: Seq<char>)
    requires
        table_rows_of(html) == Ok::<Seq<RowCellsView>, ExtractErrorView>(Seq::empty()),
    ensures
        extraction_of(html) == Ok::<Seq<RecordView>, ExtractErrorView>(Seq::empty()),
{
}

} // verus!
