//! Bill-of-materials workbooks: the sheet that lists what is bought from a
//! vendor, and the part lists that are read from uploaded workbooks.

use crate::price::amount_text;
use crate::price::Price;
use crate::text::concat3;
use crate::text::decimal;
use crate::text::decimal_string;
use crate::text::parse_i32;
use crate::text::signed_decimal;
use crate::text::signed_decimal_string;
use crate::text::signed_value;
use umya_spreadsheet::Spreadsheet;
use umya_spreadsheet::XlsxError;
use vstd::prelude::*;

verus! {

#[verifier::external_type_specification]
#[verifier::external_body]
pub struct ExSpreadsheet(umya_spreadsheet::Spreadsheet);

#[verifier::external_type_specification]
#[verifier::external_body]
pub struct ExXlsxError(umya_spreadsheet::XlsxError);

/// A worksheet's cells: for each cell that exists, under its column and row,
/// the text read from it as its value and the text of its formula (empty
/// where it has none).
pub type Cells = Map<(u32, u32), (Seq<char>, Seq<char>)>;

/// A worksheet without cells.
pub open spec fn no_cells() -> Cells {
    Map::empty()
}

/// The titles of a workbook's worksheets, in workbook order.
pub uninterp spec fn sheet_titles(book: Spreadsheet) -> Seq<Seq<char>>;

/// The cells that the worksheet at position `sheet` holds; none as long
/// as the worksheet has not been read into cells.
pub uninterp spec fn sheet_cells(book: Spreadsheet, sheet: int) -> Cells;

/// Whether every worksheet of the workbook has been read into cells.
pub uninterp spec fn sheets_read(book: Spreadsheet) -> bool;

/// Whether the workbook is as it was made new, but for the worksheets,
/// values and formulas that it was given since: it holds no comments, no
/// number formats of its own and nothing drawn, and no file has been
/// written of it yet.
pub uninterp spec fn unwritten(book: Spreadsheet) -> bool;

/// The bytes of the xlsx file that is written of a workbook of which none
/// has been written yet; nothing where the workbook cannot be written.
pub uninterp spec fn xlsx_written(book: Spreadsheet) -> Option<Seq<u8>>;

/// Whether two workbooks have the same worksheets with the same cells.
pub open spec fn same_sheets(before: Spreadsheet, after: Spreadsheet) -> bool {
    &&& sheets_read(after) == sheets_read(before)
    &&& sheet_titles(after) == sheet_titles(before)
    &&& forall|sheet: int| #[trigger] sheet_cells(after, sheet) == sheet_cells(before, sheet)
}

/// The text read back from a cell after `text` was stored as its value.
pub uninterp spec fn cell_text(text: Seq<char>) -> Seq<char>;

/// Whether every cell of the workbook stands in column 1 or beyond: no
/// worksheet has a cell in column 0, which no file can name.
pub open spec fn columns_from_one(book: Spreadsheet) -> bool {
    forall|sheet: int, c: u32, r: u32|
        0 <= sheet < sheet_titles(book).len() && #[trigger] sheet_cells(
            book,
            sheet,
        ).dom().contains((c, r)) ==> c >= 1
}

/// The text read from the cell at `col`, `row` as its value: empty where
/// there is no such cell.
pub open spec fn value_of(cells: Cells, col: u32, row: u32) -> Seq<char> {
    if cells.dom().contains((col, row)) {
        cells[(col, row)].0
    } else {
        Seq::<char>::empty()
    }
}

/// The formula of the cell at `col`, `row`: empty where there is no such
/// cell.
pub open spec fn formula_of(cells: Cells, col: u32, row: u32) -> Seq<char> {
    if cells.dom().contains((col, row)) {
        cells[(col, row)].1
    } else {
        Seq::<char>::empty()
    }
}

/// The cells after a value that reads as `value` was stored in the cell at
/// `col`, `row`: the cell exists, reads as that and has no formula.
pub open spec fn with_value(cells: Cells, col: u32, row: u32, value: Seq<char>) -> Cells {
    cells.insert((col, row), (value, Seq::<char>::empty()))
}

/// The cells after `formula` was set on the cell at `col`, `row`: the cell
/// exists and keeps the value it had.
pub open spec fn with_formula(cells: Cells, col: u32, row: u32, formula: Seq<char>) -> Cells {
    cells.insert((col, row), (value_of(cells, col, row), formula))
}

/// Whether `row` is the highest row of a sheet with cells at `at`: no cell
/// stands in a higher row, and one stands in this row unless it is row 0.
pub open spec fn is_highest_row(at: Set<(u32, u32)>, row: u32) -> bool {
    &&& forall|c: u32, r: u32| at.contains((c, r)) ==> r <= row
    &&& row > 0 ==> exists|c: u32| at.contains((c, row))
}

/// Whether `after` is `before` with the cells of the worksheet at position
/// `sheet` replaced by `cells`, and nothing else changed.
pub open spec fn is_update(before: Spreadsheet, after: Spreadsheet, sheet: int, cells: Cells)
    -> bool {
    &&& sheets_read(after) == sheets_read(before)
    &&& unwritten(after) == unwritten(before)
    &&& sheet_titles(after) == sheet_titles(before)
    &&& sheet_cells(after, sheet) == cells
    &&& forall|i: int| i != sheet ==> sheet_cells(after, i) == sheet_cells(before, i)
}

/// `umya_spreadsheet::new_file`: a workbook whose only worksheet is titled
/// "Sheet1", has been read and has no cells; it holds nothing else.
#[verifier::external_body]
pub(crate) fn new_workbook() -> (book: Spreadsheet)
    ensures
        sheet_titles(book) == seq!["Sheet1"@],
        sheet_cells(book, 0) == no_cells(),
        sheets_read(book),
        unwritten(book),
{
    umya_spreadsheet::new_file()
}

/// `Spreadsheet::new_sheet`: where no worksheet is titled `title` yet, one
/// without cells is added behind the others under that title; otherwise
/// the workbook stays as it is.
#[verifier::external_body]
fn add_sheet(book: &mut Spreadsheet, title: &str) -> (added: bool)
    ensures
        added == !sheet_titles(*old(book)).contains(title@),
        added ==> sheet_titles(*final(book)) == sheet_titles(*old(book)).push(title@),
        added ==> sheets_read(*final(book)) == sheets_read(*old(book)),
        added ==> unwritten(*final(book)) == unwritten(*old(book)),
        added ==> sheet_cells(*final(book), sheet_titles(*old(book)).len() as int) == no_cells(),
        added ==> forall|i: int|
            0 <= i < sheet_titles(*old(book)).len() ==> sheet_cells(*final(book), i)
                == sheet_cells(*old(book), i),
        !added ==> *final(book) == *old(book),
{
    book.new_sheet(title).is_ok()
}

/// `Spreadsheet::get_sheet_count`: the number of worksheets.
#[verifier::external_body]
fn sheet_count(book: &Spreadsheet) -> (count: usize)
    ensures
        count == sheet_titles(*book).len(),
{
    book.get_sheet_count()
}

/// `Worksheet::get_name` on the worksheet at position `index` of
/// `Spreadsheet::get_sheet_collection_no_check`: its title.
#[verifier::external_body]
fn sheet_title(book: &Spreadsheet, index: usize) -> (title: String)
    requires
        index < sheet_titles(*book).len(),
    ensures
        title@ == sheet_titles(*book)[index as int],
{
    book.get_sheet_collection_no_check()[index].get_name().to_string()
}

/// `Worksheet::get_highest_row` on the worksheet at position `index` of
/// `Spreadsheet::get_sheet_collection_no_check`: the highest row in which
/// a cell exists, 0 without cells.
#[verifier::external_body]
fn highest_row(book: &Spreadsheet, index: usize) -> (row: u32)
    requires
        index < sheet_titles(*book).len(),
    ensures
        is_highest_row(sheet_cells(*book, index as int).dom(), row),
{
    book.get_sheet_collection_no_check()[index].get_highest_row()
}

/// `Worksheet::get_value` on the worksheet at position `index` of
/// `Spreadsheet::get_sheet_collection_no_check`: the text of the cell's
/// value, empty where the cell does not exist.
#[verifier::external_body]
fn cell_value(book: &Spreadsheet, index: usize, col: u32, row: u32) -> (text: String)
    requires
        index < sheet_titles(*book).len(),
    ensures
        text@ == value_of(sheet_cells(*book, index as int), col, row),
{
    book.get_sheet_collection_no_check()[index].get_value((col, row))
}

/// `Cell::set_value` on the cell that `Worksheet::get_cell_mut` gives for
/// `col` and `row` on the worksheet that `Spreadsheet::get_sheet_mut` gives
/// for `index`: the cell is made if it was missing, takes the text as its
/// value and loses its formula. Columns count from 1.
#[verifier::external_body]
pub(crate) fn set_value(book: &mut Spreadsheet, index: usize, col: u32, row: u32, text: &str)
    requires
        sheets_read(*old(book)),
        index < sheet_titles(*old(book)).len(),
        col >= 1,
    ensures
        is_update(
            *old(book),
            *final(book),
            index as int,
            with_value(sheet_cells(*old(book), index as int), col, row, cell_text(text@)),
        ),
{
    book.get_sheet_mut(&index).unwrap().get_cell_mut((col, row)).set_value(text);
}

/// `Cell::set_formula` on the cell that `Worksheet::get_cell_mut` gives for
/// `col` and `row` on the worksheet that `Spreadsheet::get_sheet_mut` gives
/// for `index`: the cell is made if it was missing, takes the formula and
/// keeps its value. Columns count from 1.
#[verifier::external_body]
fn set_formula(book: &mut Spreadsheet, index: usize, col: u32, row: u32, formula: &str)
    requires
        sheets_read(*old(book)),
        index < sheet_titles(*old(book)).len(),
        col >= 1,
    ensures
        is_update(
            *old(book),
            *final(book),
            index as int,
            with_formula(sheet_cells(*old(book), index as int), col, row, formula@),
        ),
{
    book.get_sheet_mut(&index).unwrap().get_cell_mut((col, row)).set_formula(formula);
}

/// `umya_spreadsheet::writer::xlsx::write_writer` into a vector: the
/// workbook as the bytes of an xlsx file, or why it could not be written.
///
/// The writer leaves worksheets and cells as they are, but it counts in
/// the workbook the texts that it has written, and writes that count into
/// the file: a second file of the same workbook differs from the first.
/// So the bytes are claimed of a workbook of which no file has been
/// written, and which holds nothing but cells: its rows and cells are
/// written in their order, the dates of its properties are fixed ones, and
/// the archive is stamped with no time of day. Of other workbooks nothing
/// is claimed: the authors of comments are written in the order of a hash
/// table.
///
/// The writer names each cell by the letters of its column, which start
/// at column 1: a workbook with a cell in column 0 is not handed to it.
#[verifier::external_body]
fn write_xlsx(book: &mut Spreadsheet) -> (written: Result<Vec<u8>, XlsxError>)
    requires
        columns_from_one(*old(book)),
    ensures
        same_sheets(*old(book), *final(book)),
        unwritten(*old(book)) ==> (written is Ok <==> xlsx_written(*old(book)) is Some),
        unwritten(*old(book)) && written is Ok ==> xlsx_written(*old(book)) == Some(
            written->Ok_0@,
        ),
{
    let mut bytes = Vec::new();
    umya_spreadsheet::writer::xlsx::write_writer(book, &mut bytes).map(|_| bytes)
}

/// `XlsxError`'s `Display`: the wording of the error.
#[verifier::external_body]
fn error_text(error: &XlsxError) -> (text: String) {
    error.to_string()
}

/// The position of the first of `titles` that equals `title`; the number
/// of titles where none does.
pub open spec fn position_of(titles: Seq<Seq<char>>, title: Seq<char>) -> int
    decreases titles.len(),
{
    if titles.len() == 0 || titles[0] == title {
        0
    } else {
        1 + position_of(titles.drop_first(), title)
    }
}

/// The position of a title: within the titles and at the first equal one,
/// or behind them where there is none.
pub proof fn lemma_position_of(titles: Seq<Seq<char>>, title: Seq<char>)
    ensures
        0 <= position_of(titles, title) <= titles.len(),
        position_of(titles, title) < titles.len() <==> titles.contains(title),
        position_of(titles, title) < titles.len() ==> titles[position_of(titles, title)] == title,
        forall|i: int| 0 <= i < position_of(titles, title) ==> titles[i] != title,
    decreases titles.len(),
{
    if titles.len() > 0 && titles[0] != title {
        let rest = titles.drop_first();
        lemma_position_of(rest, title);
        let p = position_of(rest, title);
        if p < rest.len() {
            assert(titles[p + 1] == title);
        }
        if titles.contains(title) {
            let k = choose|k: int| 0 <= k < titles.len() && titles[k] == title;
            assert(rest[k - 1] == title);
        }
        assert forall|i: int| 0 <= i < position_of(titles, title) implies titles[i] != title by {
            if i > 0 {
                assert(titles[i] == rest[i - 1]);
            }
        }
    } else if titles.len() > 0 {
        assert(titles[0] == title);
    }
}

/// The position of the first worksheet titled `title`, if there is one.
pub fn find_sheet(book: &Spreadsheet, title: &str) -> (found: Option<usize>)
    ensures
        found is Some <==> sheet_titles(*book).contains(title@),
        found matches Some(i) ==> i == position_of(sheet_titles(*book), title@) && i
            < sheet_titles(*book).len(),
{
    let wanted = title.to_owned();
    let count = sheet_count(book);
    let mut i: usize = 0;
    proof {
        lemma_position_of(sheet_titles(*book), title@);
    }
    while i < count
        invariant
            i <= count,
            count == sheet_titles(*book).len(),
            wanted@ == title@,
            forall|k: int| 0 <= k < i ==> sheet_titles(*book)[k] != title@,
        decreases count - i,
    {
        let name = sheet_title(book, i);
        if name == wanted {
            proof {
                lemma_position_of(sheet_titles(*book), title@);
                let p = position_of(sheet_titles(*book), title@);
                if p < i {
                    assert(sheet_titles(*book)[p] != title@);
                }
            }
            return Some(i);
        }
        i += 1;
    }
    proof {
        lemma_position_of(sheet_titles(*book), title@);
    }
    None
}

/// The highest row of a sheet with cells at `at`.
pub open spec fn top_row(at: Set<(u32, u32)>) -> u32 {
    choose|row: u32| is_highest_row(at, row)
}

/// A sheet has one highest row.
pub proof fn lemma_top_row(at: Set<(u32, u32)>, row: u32)
    requires
        is_highest_row(at, row),
    ensures
        top_row(at) == row,
{
    let other = top_row(at);
    assert(is_highest_row(at, other));
    if other < row {
        let c = choose|c: u32| at.contains((c, row));
        assert(at.contains((c, row)));
    } else if row < other {
        let c = choose|c: u32| at.contains((c, other));
        assert(at.contains((c, other)));
    }
}

/// The title of the worksheet that lists the order.
pub open spec fn order_sheet() -> Seq<char> {
    "Ordine"@
}

/// What heads column `col` of the order sheet.
pub open spec fn header_text(col: u32) -> Seq<char> {
    if col == 1 {
        "Description"@
    } else if col == 2 {
        "Manufacturer PN"@
    } else if col == 3 {
        "Manufacturer"@
    } else if col == 4 {
        "Quantity"@
    } else if col == 5 {
        "Unit price"@
    } else if col == 6 {
        "Price"@
    } else if col == 7 {
        "Price incl. VAT"@
    } else if col == 8 {
        "Proposta (Descrizione spesa)"@
    } else if col == 9 {
        "Link"@
    } else if col == 10 {
        "Project"@
    } else {
        "Delivered"@
    }
}

/// The cells of an order sheet that lists nothing yet: the eleven headers
/// in row 1, and in row 2 the total row, which reads "Total:" and twice
/// "0,00".
pub open spec fn seeded() -> Cells {
    Map::new(
        |at: (u32, u32)| (at.1 == 1 && 1 <= at.0 <= 11) || (at.1 == 2 && 5 <= at.0 <= 7),
        |at: (u32, u32)|
            if at.1 == 1 {
                (cell_text(header_text(at.0)), Seq::<char>::empty())
            } else if at.0 == 5 {
                (cell_text("Total:"@), Seq::<char>::empty())
            } else {
                (cell_text("0,00"@), Seq::<char>::empty())
            },
    )
}

/// One line of an order sheet, as plain values.
pub struct BomRow {
    pub description: Seq<char>,
    pub part_number: Seq<char>,
    pub manufacturer: Seq<char>,
    pub quantity: int,
    /// The unit price in millionths; none where the line has no price.
    pub unit_price: Option<int>,
    pub proposal: Seq<char>,
    pub link: Seq<char>,
    pub project: Seq<char>,
    pub delivered: Seq<char>,
}

/// A price as plain value, where there is one.
pub open spec fn price_view(price: Option<Price>) -> Option<int> {
    match price {
        Some(p) => Some(p@),
        None => None,
    }
}

/// What is written into the price cell of a line: the text of the price,
/// and nothing where the line has no price.
pub open spec fn price_text(price: Option<int>) -> Seq<char> {
    match price {
        Some(micros) => amount_text(micros as nat),
        None => Seq::<char>::empty(),
    }
}

/// The formula for the price of the line in row `row`: quantity times unit
/// price.
pub open spec fn line_price_formula(row: u32) -> Seq<char> {
    "=D"@ + decimal(row as nat) + "*E"@ + decimal(row as nat)
}

/// The formula for the price of the line in row `row` with 22% VAT on it.
pub open spec fn line_vat_formula(row: u32) -> Seq<char> {
    "=F"@ + decimal(row as nat) + "*1.22"@
}

/// The formula that sums column `column` from row 2 to row `last`.
pub open spec fn sum_formula(column: Seq<char>, last: u32) -> Seq<char> {
    "=SUM("@ + column + "2:"@ + column + decimal(last as nat) + ")"@
}

/// The cells after line `line` was written into row `row` and the total
/// row into the row below: the line's nine values and its two formulas in
/// columns 1 to 11, and below, from column 5 on, "Total:" and the sums of
/// columns F and G from row 2 to `row`.
pub open spec fn with_row(cells: Cells, row: u32, line: BomRow) -> Cells
    recommends
        row < u32::MAX,
{
    let below = (row + 1) as u32;
    let c = with_value(cells, 1, row, cell_text(line.description));
    let c = with_value(c, 2, row, cell_text(line.part_number));
    let c = with_value(c, 3, row, cell_text(line.manufacturer));
    let c = with_value(c, 4, row, cell_text(signed_decimal(line.quantity)));
    let c = with_value(c, 5, row, cell_text(price_text(line.unit_price)));
    let c = with_formula(c, 6, row, line_price_formula(row));
    let c = with_formula(c, 7, row, line_vat_formula(row));
    let c = with_value(c, 8, row, cell_text(line.proposal));
    let c = with_value(c, 9, row, cell_text(line.link));
    let c = with_value(c, 10, row, cell_text(line.project));
    let c = with_value(c, 11, row, cell_text(line.delivered));
    let c = with_value(c, 5, below, cell_text("Total:"@));
    let c = with_formula(c, 6, below, sum_formula("F"@, row));
    let c = with_formula(c, 7, below, sum_formula("G"@, row));
    c
}

/// The cells of an order sheet on which the lines `lines` were written one
/// after the other, each into the row of the total row before it.
pub open spec fn bom_cells(lines: Seq<BomRow>) -> Cells
    decreases lines.len(),
{
    if lines.len() == 0 {
        seeded()
    } else {
        with_row(bom_cells(lines.drop_last()), (lines.len() + 1) as u32, lines.last())
    }
}

/// A workbook for one vendor's share of an order: beside the first
/// worksheet, which stays empty, the order sheet with its headers and a
/// total row.
pub fn create_bom_file() -> (book: Spreadsheet)
    ensures
        sheets_read(book),
        unwritten(book),
        columns_from_one(book),
        sheet_titles(book) == seq!["Sheet1"@, order_sheet()],
        sheet_cells(book, 0) == no_cells(),
        sheet_cells(book, 1) == seeded(),
{
    let mut book = new_workbook();
    proof {
        reveal_strlit("Sheet1");
        reveal_strlit("Ordine");
        assert("Sheet1"@[0] != "Ordine"@[0]);
        assert(!seq!["Sheet1"@].contains("Ordine"@)) by {
            if seq!["Sheet1"@].contains("Ordine"@) {
                let k = choose|k: int| 0 <= k < 1 && seq!["Sheet1"@][k] == "Ordine"@;
                assert(seq!["Sheet1"@][k] == "Sheet1"@);
            }
        }
    }
    let added = add_sheet(&mut book, "Ordine");
    assert(added);
    assert(sheet_titles(book) =~= seq!["Sheet1"@, order_sheet()]);
    set_value(&mut book, 1, 1, 1, "Description");
    set_value(&mut book, 1, 2, 1, "Manufacturer PN");
    set_value(&mut book, 1, 3, 1, "Manufacturer");
    set_value(&mut book, 1, 4, 1, "Quantity");
    set_value(&mut book, 1, 5, 1, "Unit price");
    set_value(&mut book, 1, 6, 1, "Price");
    set_value(&mut book, 1, 7, 1, "Price incl. VAT");
    set_value(&mut book, 1, 8, 1, "Proposta (Descrizione spesa)");
    set_value(&mut book, 1, 9, 1, "Link");
    set_value(&mut book, 1, 10, 1, "Project");
    set_value(&mut book, 1, 11, 1, "Delivered");
    set_value(&mut book, 1, 5, 2, "Total:");
    set_value(&mut book, 1, 6, 2, "0,00");
    set_value(&mut book, 1, 7, 2, "0,00");
    assert(sheet_cells(book, 1) =~= seeded());
    assert(columns_from_one(book)) by {
        assert forall|sheet: int, c: u32, r: u32|
            0 <= sheet < sheet_titles(book).len() && #[trigger] sheet_cells(
                book,
                sheet,
            ).dom().contains((c, r)) implies c >= 1 by {
            assert(sheet == 0 || sheet == 1);
        }
    }
    book
}

/// The formula for the price of the line in row `row`.
fn line_price(row: u32) -> (formula: String)
    ensures
        formula@ == line_price_formula(row),
{
    let digits = decimal_string(row as u64);
    let mut formula = String::from_str("=D");
    formula.append(digits.as_str());
    formula.append("*E");
    formula.append(digits.as_str());
    formula
}

/// The formula for the price of the line in row `row` with VAT.
fn line_vat(row: u32) -> (formula: String)
    ensures
        formula@ == line_vat_formula(row),
{
    let digits = decimal_string(row as u64);
    concat3("=F", digits.as_str(), "*1.22")
}

/// The formula that sums column `column` from row 2 to row `last`.
fn column_sum(column: &str, last: u32) -> (formula: String)
    ensures
        formula@ == sum_formula(column@, last),
{
    let digits = decimal_string(last as u64);
    let mut formula = String::from_str("=SUM(");
    formula.append(column);
    formula.append("2:");
    formula.append(column);
    formula.append(digits.as_str());
    formula.append(")");
    formula
}

/// Writes a line at the foot of the order sheet: into the highest row that
/// has cells, which on a sheet made by `create_bom_file` is the total row,
/// and a new total row below it.
///
/// Fails, and leaves the workbook as it was, where the workbook has no
/// order sheet, and where the sheet's highest row is the last that a row
/// number can name.
pub fn add_item_to_bom(
    book: &mut Spreadsheet,
    manifacturer: String,
    manifacturer_pn: String,
    quantity: i32,
    description: String,
    unit_price: Option<Price>,
    proposal: String,
    link: String,
    project: String,
    delivered: String,
) -> (done: Result<(), String>)
    requires
        sheets_read(*old(book)),
    ensures
        ({
            let titles = sheet_titles(*old(book));
            let sheet = position_of(titles, order_sheet());
            let cells = sheet_cells(*old(book), sheet);
            let row = top_row(cells.dom());
            let line = BomRow {
                description: description@,
                part_number: manifacturer_pn@,
                manufacturer: manifacturer@,
                quantity: quantity as int,
                unit_price: price_view(unit_price),
                proposal: proposal@,
                link: link@,
                project: project@,
                delivered: delivered@,
            };
            if !titles.contains(order_sheet()) {
                &&& done matches Err(e) && e@ == "Sheet not found"@
                &&& *final(book) == *old(book)
            } else if row == u32::MAX {
                &&& done matches Err(e) && e@ == "Sheet is full"@
                &&& *final(book) == *old(book)
            } else {
                &&& done is Ok
                &&& is_update(*old(book), *final(book), sheet, with_row(cells, row, line))
            }
        }),
        columns_from_one(*old(book)) ==> columns_from_one(*final(book)),
{
    let sheet = match find_sheet(book, "Ordine") {
        Some(sheet) => sheet,
        None => {
            return Err(String::from_str("Sheet not found"));
        },
    };
    let row = highest_row(book, sheet);
    proof {
        lemma_top_row(sheet_cells(*book, sheet as int).dom(), row);
    }
    if row == u32::MAX {
        return Err(String::from_str("Sheet is full"));
    }
    let below = row + 1;
    set_value(book, sheet, 1, row, description.as_str());
    set_value(book, sheet, 2, row, manifacturer_pn.as_str());
    set_value(book, sheet, 3, row, manifacturer.as_str());
    set_value(book, sheet, 4, row, signed_decimal_string(quantity).as_str());
    let price = match unit_price {
        Some(price) => price.to_text(),
        None => String::new(),
    };
    set_value(book, sheet, 5, row, price.as_str());
    set_formula(book, sheet, 6, row, line_price(row).as_str());
    set_formula(book, sheet, 7, row, line_vat(row).as_str());
    set_value(book, sheet, 8, row, proposal.as_str());
    set_value(book, sheet, 9, row, link.as_str());
    set_value(book, sheet, 10, row, project.as_str());
    set_value(book, sheet, 11, row, delivered.as_str());
    set_value(book, sheet, 5, below, "Total:");
    set_formula(book, sheet, 6, below, column_sum("F", row).as_str());
    set_formula(book, sheet, 7, below, column_sum("G", row).as_str());
    proof {
        let line = BomRow {
            description: description@,
            part_number: manifacturer_pn@,
            manufacturer: manifacturer@,
            quantity: quantity as int,
            unit_price: price_view(unit_price),
            proposal: proposal@,
            link: link@,
            project: project@,
            delivered: delivered@,
        };
        lemma_row_columns(*old(book), *book, sheet as int, row, line);
    }
    Ok(())
}

/// A workbook without cells in column 0 has none after a line was written
/// on one of its worksheets.
proof fn lemma_row_columns(
    before: Spreadsheet,
    after: Spreadsheet,
    sheet: int,
    row: u32,
    line: BomRow,
)
    requires
        row < u32::MAX,
        is_update(before, after, sheet, with_row(sheet_cells(before, sheet), row, line)),
    ensures
        columns_from_one(before) ==> columns_from_one(after),
{
    let cells = sheet_cells(before, sheet);
    if columns_from_one(before) {
        assert forall|s: int, c: u32, r: u32|
            0 <= s < sheet_titles(after).len() && #[trigger] sheet_cells(after, s).dom().contains(
                (c, r),
            ) implies c >= 1 by {
            if s == sheet {
                assert(with_row(cells, row, line).dom().contains((c, r)));
                if c == 0 {
                    assert(cells.dom().contains((c, r)));
                }
            } else {
                assert(sheet_cells(before, s).dom().contains((c, r)));
            }
        }
    }
}

/// What writing a workbook comes to, given how the writer ended: the
/// bytes that it wrote, as they are, or the wording of what kept it from
/// writing.
pub fn written_bytes(written: Result<Vec<u8>, XlsxError>) -> (bytes: Result<Vec<u8>, String>)
    ensures
        match written {
            Ok(b) => bytes == Ok::<Vec<u8>, String>(b),
            Err(_) => bytes is Err,
        },
{
    match written {
        Ok(bytes) => Ok(bytes),
        Err(e) => Err(error_text(&e)),
    }
}

/// The workbook as the bytes of an xlsx file, or the wording of what kept
/// it from being written. Worksheets and cells stay as they are.
///
/// Of a workbook of which no file has been written yet, and which holds
/// only cells, as every workbook made here does, the bytes are those of
/// its xlsx file, and writing fails exactly where there is no such file.
/// Of other workbooks the bytes lie with the writer.
///
/// The workbook has no cell in column 0: a file has no name for one.
pub fn save_to_bytes(book: &mut Spreadsheet) -> (bytes: Result<Vec<u8>, String>)
    requires
        columns_from_one(*old(book)),
    ensures
        same_sheets(*old(book), *final(book)),
        unwritten(*old(book)) ==> match xlsx_written(*old(book)) {
            Some(b) => bytes matches Ok(w) && w@ == b,
            None => bytes is Err,
        },
{
    written_bytes(write_xlsx(book))
}

/// Where an order sheet with `k` lines has cells: in columns 1 to 11 of
/// the header row and of the `k` rows of lines below it, and in columns 5
/// to 7 of the total row that follows.
pub open spec fn bom_cells_at(k: nat) -> Set<(u32, u32)> {
    Set::new(
        |at: (u32, u32)|
            (1 <= at.0 <= 11 && 1 <= at.1 <= k + 1) || (5 <= at.0 <= 7 && at.1 == k + 2),
    )
}

/// Whether row `row` of `cells` holds the line `line`: its nine values as
/// they read back, and the two formulas that price it.
pub open spec fn row_holds(cells: Cells, row: u32, line: BomRow) -> bool {
    &&& value_of(cells, 1, row) == cell_text(line.description)
    &&& value_of(cells, 2, row) == cell_text(line.part_number)
    &&& value_of(cells, 3, row) == cell_text(line.manufacturer)
    &&& value_of(cells, 4, row) == cell_text(signed_decimal(line.quantity))
    &&& value_of(cells, 5, row) == cell_text(price_text(line.unit_price))
    &&& formula_of(cells, 6, row) == line_price_formula(row)
    &&& formula_of(cells, 7, row) == line_vat_formula(row)
    &&& value_of(cells, 8, row) == cell_text(line.proposal)
    &&& value_of(cells, 9, row) == cell_text(line.link)
    &&& value_of(cells, 10, row) == cell_text(line.project)
    &&& value_of(cells, 11, row) == cell_text(line.delivered)
}

/// An order sheet on which `k` lines were written has exactly the header
/// row, `k` rows of lines and the total row: its highest row is row
/// `k + 2`. Line `i` stands in row `i + 2`. The total row reads "Total:",
/// and once there is a line, its two formulas sum columns F and G from row
/// 2 to row `k + 1`, the rows of the lines.
pub proof fn lemma_bom_shape(lines: Seq<BomRow>)
    requires
        lines.len() + 2 <= u32::MAX,
    ensures
        bom_cells(lines).dom() == bom_cells_at(lines.len()),
        is_highest_row(bom_cells(lines).dom(), (lines.len() + 2) as u32),
        top_row(bom_cells(lines).dom()) == lines.len() + 2,
        forall|col: u32|
            1 <= col <= 11 ==> #[trigger] value_of(bom_cells(lines), col, 1) == cell_text(
                header_text(col),
            ),
        forall|i: int|
            0 <= i < lines.len() ==> row_holds(bom_cells(lines), (i + 2) as u32, #[trigger] lines[i]),
        value_of(bom_cells(lines), 5, (lines.len() + 2) as u32) == cell_text("Total:"@),
        lines.len() > 0 ==> formula_of(bom_cells(lines), 6, (lines.len() + 2) as u32)
            == sum_formula("F"@, (lines.len() + 1) as u32),
        lines.len() > 0 ==> formula_of(bom_cells(lines), 7, (lines.len() + 2) as u32)
            == sum_formula("G"@, (lines.len() + 1) as u32),
    decreases lines.len(),
{
    let k = lines.len();
    let cells = bom_cells(lines);
    if k == 0 {
        assert(cells.dom() =~= bom_cells_at(0));
    } else {
        let front = lines.drop_last();
        let before = bom_cells(front);
        let row = (k + 1) as u32;
        lemma_bom_shape(front);
        assert(cells == with_row(before, row, lines.last()));
        assert(cells.dom() =~= bom_cells_at(k));
        assert forall|col: u32| 1 <= col <= 11 implies #[trigger] value_of(cells, col, 1)
            == cell_text(header_text(col)) by {
            assert(value_of(before, col, 1) == cell_text(header_text(col)));
        }
        assert forall|i: int| 0 <= i < k implies row_holds(
            cells,
            (i + 2) as u32,
            #[trigger] lines[i],
        ) by {
            if i < k - 1 {
                assert(lines[i] == front[i]);
                assert(row_holds(before, (i + 2) as u32, front[i]));
            }
        }
    }
    assert(bom_cells_at(k).contains((5, (k + 2) as u32)));
    lemma_top_row(cells.dom(), (k + 2) as u32);
}

/// Writing a line at the foot of an order sheet that holds the lines
/// `lines` gives the order sheet that holds `lines` and then `line`.
pub proof fn lemma_bom_append(lines: Seq<BomRow>, line: BomRow)
    requires
        lines.len() + 3 <= u32::MAX,
    ensures
        with_row(bom_cells(lines), top_row(bom_cells(lines).dom()), line) == bom_cells(
            lines.push(line),
        ),
{
    lemma_bom_shape(lines);
    assert(lines.push(line).drop_last() =~= lines);
}

/// One line of an uploaded part list: how many pieces of which
/// manufacturer's part.
#[derive(Clone, Debug)]
pub struct KiCadItem {
    pub quantity: i32,
    pub manifacturer: String,
    pub manifacturer_pn: String,
}

/// A line of a part list as plain values.
pub struct KiCadItemView {
    pub quantity: int,
    pub manifacturer: Seq<char>,
    pub manifacturer_pn: Seq<char>,
}

impl View for KiCadItem {
    type V = KiCadItemView;

    open spec fn view(&self) -> KiCadItemView {
        KiCadItemView {
            quantity: self.quantity as int,
            manifacturer: self.manifacturer@,
            manifacturer_pn: self.manifacturer_pn@,
        }
    }
}

/// The line that row `row` of a part list makes: its first three cells as
/// quantity, manufacturer and part number, where the quantity is a number
/// above zero and neither name is empty; no line otherwise.
pub open spec fn kicad_line(cells: Cells, row: u32) -> Option<KiCadItemView> {
    let quantity = match signed_value(value_of(cells, 1, row)) {
        Some(n) => n as int,
        None => 0,
    };
    let manifacturer = value_of(cells, 2, row);
    let manifacturer_pn = value_of(cells, 3, row);
    if quantity > 0 && manifacturer.len() > 0 && manifacturer_pn.len() > 0 {
        Some(KiCadItemView { quantity, manifacturer, manifacturer_pn })
    } else {
        None
    }
}

/// The lines that rows 2 to `last` of a part list make, from the top
/// down; row 1 is taken to be the header.
pub open spec fn kicad_lines(cells: Cells, last: nat) -> Seq<KiCadItemView>
    decreases last,
{
    if last < 2 {
        Seq::<KiCadItemView>::empty()
    } else {
        let above = kicad_lines(cells, (last - 1) as nat);
        match kicad_line(cells, last as u32) {
            Some(line) => above.push(line),
            None => above,
        }
    }
}

/// The views of the lines `items`.
pub open spec fn kicad_views(items: Seq<KiCadItem>) -> Seq<KiCadItemView> {
    Seq::new(items.len(), |i: int| items[i]@)
}

/// The part list on the first worksheet of an uploaded workbook: the lines
/// of all its rows below the header.
///
/// Fails where the workbook has no worksheet.
pub fn parse_kicad_bom_file(book: &Spreadsheet) -> (items: Result<Vec<KiCadItem>, String>)
    ensures
        match items {
            Ok(lines) => sheet_titles(*book).len() > 0 && kicad_views(lines@) == kicad_lines(
                sheet_cells(*book, 0),
                top_row(sheet_cells(*book, 0).dom()) as nat,
            ),
            Err(e) => sheet_titles(*book).len() == 0 && e@ == "Sheet not found"@,
        },
{
    if sheet_count(book) == 0 {
        return Err(String::from_str("Sheet not found"));
    }
    let last = highest_row(book, 0);
    let ghost cells = sheet_cells(*book, 0);
    proof {
        lemma_top_row(cells.dom(), last);
    }
    let mut items: Vec<KiCadItem> = Vec::new();
    let mut row: u32 = 1;
    while row < last
        invariant
            1 <= row,
            row <= last || (last == 0 && row == 1),
            sheet_titles(*book).len() > 0,
            cells == sheet_cells(*book, 0),
            kicad_views(items@) == kicad_lines(cells, row as nat),
        decreases last - row,
    {
        row += 1;
        let quantity = match parse_i32(cell_value(book, 0, 1, row).as_str()) {
            Some(n) => n,
            None => 0,
        };
        let manifacturer = cell_value(book, 0, 2, row);
        let manifacturer_pn = cell_value(book, 0, 3, row);
        let ghost before = items@;
        if quantity > 0 && manifacturer.unicode_len() > 0 && manifacturer_pn.unicode_len() > 0 {
            items.push(KiCadItem { quantity, manifacturer, manifacturer_pn });
            assert(kicad_views(items@) =~= kicad_views(before).push(items@.last()@));
        }
    }
    assert(kicad_lines(cells, row as nat) == kicad_lines(cells, last as nat)) by {
        reveal_with_fuel(kicad_lines, 2);
    }
    Ok(items)
}

} // verus!
