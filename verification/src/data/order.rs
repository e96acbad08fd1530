//! Orders: which vendor a line is bought from, and the workbooks that list
//! each vendor's share.

use crate::data::errors::DataError;
use crate::data::errors::DataErrorView;
use crate::data::errors::SearchError;
use crate::data::excel::add_item_to_bom;
use crate::data::excel::bom_cells;
use crate::data::excel::create_bom_file;
use crate::data::excel::is_update;
use crate::data::excel::lemma_bom_append;
use crate::data::excel::lemma_bom_shape;
use crate::data::excel::columns_from_one;
use crate::data::excel::bom_cells_at;
use crate::data::excel::no_cells;
use crate::data::excel::unwritten;
use crate::data::excel::xlsx_written;
use crate::data::excel::order_sheet;
use crate::data::excel::position_of;
use crate::data::excel::price_view;
use crate::data::excel::save_to_bytes;
use crate::data::excel::sheet_cells;
use crate::data::excel::sheet_titles;
use crate::data::excel::sheets_read;
use crate::data::excel::top_row;
use crate::data::excel::with_row;
use crate::data::excel::BomRow;
use crate::models::digikey_api_models::DigiKeyPart;
use crate::models::digikey_api_models::DigiKeyPartView;
use crate::models::item::OrderItem;
use crate::models::mouser_api_models::MouserPart;
use crate::models::mouser_api_models::MouserPartView;
use crate::price::Price;
use crate::text::lowercased;
use crate::text::replace_char;
use crate::text::replaced;
use crate::text::to_lowercase;
use umya_spreadsheet::Spreadsheet;
use vstd::prelude::*;

verus! {

/// One of the two vendors that an order is sourced from.
#[derive(Clone, Copy, Debug, PartialEq, Eq, Structural)]
pub enum Vendor {
    DigiKey,
    Mouser,
}

/// What the two vendors answered for one line of an order.
#[derive(Clone, Debug)]
pub struct ItemProcessingResult {
    pub item: OrderItem,
    pub mouser_part: Option<MouserPart>,
    pub digikey_part: Option<DigiKeyPart>,
}

/// What a vendor offers, as far as its search went well: a search that
/// failed counts as a search that found nothing.
pub open spec fn offer_found<T>(found: Result<Option<T>, SearchError>) -> Option<T> {
    match found {
        Ok(offer) => offer,
        Err(_) => None,
    }
}

impl ItemProcessingResult {
    /// What the two vendors answered for the line `item`, given how the
    /// search at each of them ended. The failure of one search takes
    /// nothing from the other, and leaves the line without an offer from
    /// that vendor only.
    pub fn new(
        item: OrderItem,
        mouser_found: Result<Option<MouserPart>, SearchError>,
        digikey_found: Result<Option<DigiKeyPart>, SearchError>,
    ) -> (result: ItemProcessingResult)
        ensures
            result.item == item,
            result.mouser_part == offer_found(mouser_found),
            result.digikey_part == offer_found(digikey_found),
    {
        ItemProcessingResult {
            item,
            mouser_part: match mouser_found {
                Ok(offer) => offer,
                Err(_) => None,
            },
            digikey_part: match digikey_found {
                Ok(offer) => offer,
                Err(_) => None,
            },
        }
    }
}

/// The number of pieces that a line of `quantity` pieces asks the vendors
/// for: the quantity itself, read as an unsigned number of 32 bits.
pub open spec fn requested(quantity: i32) -> u32 {
    if quantity >= 0 {
        quantity as u32
    } else {
        (quantity + 0x1_0000_0000) as u32
    }
}

/// The number of pieces that a line of `quantity` pieces asks the vendors
/// for.
pub fn requested_quantity(quantity: i32) -> (pieces: u32)
    ensures
        pieces == requested(quantity),
{
    if quantity >= 0 {
        quantity as u32
    } else {
        (quantity as i64 + 0x1_0000_0000) as u32
    }
}

/// Whether an offer at `unit_price` with `availability` pieces in stock can
/// serve a line of `quantity` pieces: the stock covers the line, and the
/// price is known.
pub open spec fn is_viable(unit_price: int, availability: int, quantity: u32) -> bool {
    availability >= quantity && unit_price > 0
}

/// The vendor that a line of `quantity` pieces is bought from, given what
/// each vendor offers.
///
/// With two offers, Digi-Key is chosen where its offer is viable and
/// either is strictly cheaper than Mouser's, or Mouser's has no known
/// price, or Mouser's is viable at the very same price; else Mouser where
/// its offer is viable; else neither. A vendor that is alone in making an
/// offer is chosen whatever the offer says. Without offers no vendor is
/// chosen.
pub open spec fn choice(
    digikey: Option<DigiKeyPartView>,
    mouser: Option<MouserPartView>,
    quantity: u32,
) -> Option<Vendor> {
    match (digikey, mouser) {
        (Some(a), Some(b)) => {
            if is_viable(a.unit_price, a.availability, quantity) && (a.unit_price < b.unit_price
                || b.unit_price == 0 || (a.unit_price == b.unit_price && is_viable(
                b.unit_price,
                b.availability,
                quantity,
            ))) {
                Some(Vendor::DigiKey)
            } else if is_viable(b.unit_price, b.availability, quantity) {
                Some(Vendor::Mouser)
            } else {
                None
            }
        },
        (Some(_), None) => Some(Vendor::DigiKey),
        (None, Some(_)) => Some(Vendor::Mouser),
        (None, None) => None,
    }
}

/// The view of an optional Digi-Key offer.
pub open spec fn digikey_view(part: Option<DigiKeyPart>) -> Option<DigiKeyPartView> {
    match part {
        Some(p) => Some(p@),
        None => None,
    }
}

/// The view of an optional Mouser offer.
pub open spec fn mouser_view(part: Option<MouserPart>) -> Option<MouserPartView> {
    match part {
        Some(p) => Some(p@),
        None => None,
    }
}

/// The vendor that a line of `quantity` pieces is bought from.
pub fn choose_vendor(digikey: &Option<DigiKeyPart>, mouser: &Option<MouserPart>, quantity: u32) -> (chosen:
    Option<Vendor>)
    ensures
        chosen == choice(digikey_view(*digikey), mouser_view(*mouser), quantity),
{
    match (digikey, mouser) {
        (Some(a), Some(b)) => {
            let a_viable = a.availability >= quantity && !a.unit_price.is_zero();
            let b_viable = b.availability >= quantity && !b.unit_price.is_zero();
            let a_cheaper = a.unit_price.is_less_than(&b.unit_price);
            let same_price = !a_cheaper && !b.unit_price.is_less_than(&a.unit_price);
            if a_viable && (a_cheaper || b.unit_price.is_zero() || (same_price && b_viable)) {
                Some(Vendor::DigiKey)
            } else if b_viable {
                Some(Vendor::Mouser)
            } else {
                None
            }
        },
        (Some(_), None) => Some(Vendor::DigiKey),
        (None, Some(_)) => Some(Vendor::Mouser),
        (None, None) => None,
    }
}

/// Between two viable offers at the same price the line goes to Digi-Key.
pub proof fn lemma_tie_goes_to_digikey(a: DigiKeyPartView, b: MouserPartView, quantity: u32)
    requires
        is_viable(a.unit_price, a.availability, quantity),
        is_viable(b.unit_price, b.availability, quantity),
        a.unit_price == b.unit_price,
    ensures
        choice(Some(a), Some(b), quantity) == Some(Vendor::DigiKey),
{
}

/// Between two offers at different prices, Digi-Key is chosen exactly
/// where its offer is viable and is the cheaper one or Mouser's has no
/// known price; failing that, Mouser where its offer is viable; failing
/// that, nobody.
pub proof fn lemma_different_prices(a: DigiKeyPartView, b: MouserPartView, quantity: u32)
    requires
        a.unit_price != b.unit_price,
    ensures
        choice(Some(a), Some(b), quantity) == if is_viable(
            a.unit_price,
            a.availability,
            quantity,
        ) && (a.unit_price < b.unit_price || b.unit_price == 0) {
            Some(Vendor::DigiKey)
        } else if is_viable(b.unit_price, b.availability, quantity) {
            Some(Vendor::Mouser)
        } else {
            None
        },
{
}

/// A vendor that is alone in making an offer is chosen, whatever price and
/// stock the offer names.
pub proof fn lemma_sole_offer_is_chosen(a: DigiKeyPartView, b: MouserPartView, quantity: u32)
    ensures
        choice(Some(a), None, quantity) == Some(Vendor::DigiKey),
        choice(None, Some(b), quantity) == Some(Vendor::Mouser),
{
}

/// No vendor is chosen whose offer is not there; and of two offers, none
/// is chosen that is not viable.
pub proof fn lemma_chosen_offer(
    digikey: Option<DigiKeyPartView>,
    mouser: Option<MouserPartView>,
    quantity: u32,
)
    ensures
        choice(digikey, mouser, quantity) == Some(Vendor::DigiKey) ==> digikey is Some,
        choice(digikey, mouser, quantity) == Some(Vendor::Mouser) ==> mouser is Some,
        digikey is Some && mouser is Some && choice(digikey, mouser, quantity) == Some(
            Vendor::DigiKey,
        ) ==> is_viable(digikey->0.unit_price, digikey->0.availability, quantity),
        digikey is Some && mouser is Some && choice(digikey, mouser, quantity) == Some(
            Vendor::Mouser,
        ) ==> is_viable(mouser->0.unit_price, mouser->0.availability, quantity),
{
}

/// What is written down for one line of an order once it was sourced: the
/// workbook that lists it, the values of its row, and the vendor part
/// number that the order keeps for it.
#[derive(Clone, Debug)]
pub struct BomEntry {
    /// The vendor that the line is bought from, if any.
    pub chosen: Option<Vendor>,
    /// The vendor whose workbook lists the line.
    pub vendor: Vendor,
    pub manufacturer: String,
    pub manufacturer_pn: String,
    pub quantity: i32,
    pub description: String,
    /// The unit price of the offer; none for a line that nobody sells.
    pub unit_price: Option<Price>,
    pub proposal: String,
    pub product_url: String,
    pub project: String,
    pub mouser_pn: Option<String>,
    pub digikey_pn: Option<String>,
}

/// A sourced line as plain values.
pub struct BomEntryView {
    pub chosen: Option<Vendor>,
    pub vendor: Vendor,
    pub manufacturer: Seq<char>,
    pub manufacturer_pn: Seq<char>,
    pub quantity: int,
    pub description: Seq<char>,
    pub unit_price: Option<int>,
    pub proposal: Seq<char>,
    pub product_url: Seq<char>,
    pub project: Seq<char>,
    pub mouser_pn: Option<Seq<char>>,
    pub digikey_pn: Option<Seq<char>>,
}

/// The view of an optional text.
pub open spec fn text_view(text: Option<String>) -> Option<Seq<char>> {
    match text {
        Some(t) => Some(t@),
        None => None,
    }
}

impl View for BomEntry {
    type V = BomEntryView;

    open spec fn view(&self) -> BomEntryView {
        BomEntryView {
            chosen: self.chosen,
            vendor: self.vendor,
            manufacturer: self.manufacturer@,
            manufacturer_pn: self.manufacturer_pn@,
            quantity: self.quantity as int,
            description: self.description@,
            unit_price: price_view(self.unit_price),
            proposal: self.proposal@,
            product_url: self.product_url@,
            project: self.project@,
            mouser_pn: text_view(self.mouser_pn),
            digikey_pn: text_view(self.digikey_pn),
        }
    }
}

/// What is written down for a line with the vendors' answers `result`.
///
/// A line that goes to a vendor is listed in that vendor's workbook under
/// the names of the vendor's offer, with the quantity, proposal and
/// project of the line, at the offer's price, and keeps the offer's vendor
/// part number. A line that goes to no vendor is listed in Digi-Key's
/// workbook under its own names with quantity zero, with its description,
/// its price and its link left empty, and keeps no vendor part number.
pub open spec fn planned(result: ItemProcessingResult) -> BomEntryView {
    let item = result.item;
    match choice(
        digikey_view(result.digikey_part),
        mouser_view(result.mouser_part),
        requested(item.quantity),
    ) {
        Some(Vendor::DigiKey) => {
            let part = result.digikey_part->0;
            BomEntryView {
                chosen: Some(Vendor::DigiKey),
                vendor: Vendor::DigiKey,
                manufacturer: part.manufacturer@,
                manufacturer_pn: part.manufacturer_pn@,
                quantity: item.quantity as int,
                description: part.description@,
                unit_price: Some(part.unit_price@),
                proposal: item.proposal@,
                product_url: part.product_url@,
                project: item.project@,
                mouser_pn: None,
                digikey_pn: Some(part.digikey_pn@),
            }
        },
        Some(Vendor::Mouser) => {
            let part = result.mouser_part->0;
            BomEntryView {
                chosen: Some(Vendor::Mouser),
                vendor: Vendor::Mouser,
                manufacturer: part.manufacturer@,
                manufacturer_pn: part.manufacturer_pn@,
                quantity: item.quantity as int,
                description: part.description@,
                unit_price: Some(part.unit_price@),
                proposal: item.proposal@,
                product_url: part.product_url@,
                project: item.project@,
                mouser_pn: Some(part.mouser_pn@),
                digikey_pn: None,
            }
        },
        None => BomEntryView {
            chosen: None,
            vendor: Vendor::DigiKey,
            manufacturer: item.manufacturer@,
            manufacturer_pn: item.manufacturer_pn@,
            quantity: 0,
            description: Seq::<char>::empty(),
            unit_price: None,
            proposal: item.proposal@,
            product_url: Seq::<char>::empty(),
            project: item.project@,
            mouser_pn: None,
            digikey_pn: None,
        },
    }
}

/// What is written down for a line with the vendors' answers `result`.
pub fn plan_entry(result: &ItemProcessingResult) -> (entry: BomEntry)
    ensures
        entry@ == planned(*result),
{
    let item = &result.item;
    let chosen = choose_vendor(
        &result.digikey_part,
        &result.mouser_part,
        requested_quantity(item.quantity),
    );
    match (chosen, &result.digikey_part, &result.mouser_part) {
        (Some(Vendor::DigiKey), Some(part), _) => BomEntry {
            chosen: Some(Vendor::DigiKey),
            vendor: Vendor::DigiKey,
            manufacturer: part.manufacturer.clone(),
            manufacturer_pn: part.manufacturer_pn.clone(),
            quantity: item.quantity,
            description: part.description.clone(),
            unit_price: Some(part.unit_price),
            proposal: item.proposal.clone(),
            product_url: part.product_url.clone(),
            project: item.project.clone(),
            mouser_pn: None,
            digikey_pn: Some(part.digikey_pn.clone()),
        },
        (Some(Vendor::Mouser), _, Some(part)) => BomEntry {
            chosen: Some(Vendor::Mouser),
            vendor: Vendor::Mouser,
            manufacturer: part.manufacturer.clone(),
            manufacturer_pn: part.manufacturer_pn.clone(),
            quantity: item.quantity,
            description: part.description.clone(),
            unit_price: Some(part.unit_price),
            proposal: item.proposal.clone(),
            product_url: part.product_url.clone(),
            project: item.project.clone(),
            mouser_pn: Some(part.mouser_pn.clone()),
            digikey_pn: None,
        },
        _ => BomEntry {
            chosen: None,
            vendor: Vendor::DigiKey,
            manufacturer: item.manufacturer.clone(),
            manufacturer_pn: item.manufacturer_pn.clone(),
            quantity: 0,
            description: String::new(),
            unit_price: None,
            proposal: item.proposal.clone(),
            product_url: String::new(),
            project: item.project.clone(),
            mouser_pn: None,
            digikey_pn: None,
        },
    }
}

/// What is written down for each line of an order, in the order of the
/// lines.
pub fn plan_entries(results: &Vec<ItemProcessingResult>) -> (entries: Vec<BomEntry>)
    ensures
        entries@.len() == results@.len(),
        forall|i: int| 0 <= i < results@.len() ==> (#[trigger] entries@[i])@ == planned(results@[i]),
{
    let mut entries: Vec<BomEntry> = Vec::new();
    let mut i: usize = 0;
    while i < results.len()
        invariant
            i <= results.len(),
            entries@.len() == i,
            forall|k: int| 0 <= k < i ==> (#[trigger] entries@[k])@ == planned(results@[k]),
        decreases results.len() - i,
    {
        entries.push(plan_entry(&results[i]));
        i += 1;
    }
    entries
}

/// The part number under which a sourced line is listed: the part number
/// of the vendor whose workbook lists it, and the manufacturer's where the
/// line keeps no part number of that vendor.
pub open spec fn listed_pn(entry: BomEntryView) -> Seq<char> {
    let vendor_pn = match entry.vendor {
        Vendor::DigiKey => entry.digikey_pn,
        Vendor::Mouser => entry.mouser_pn,
    };
    match vendor_pn {
        Some(pn) => pn,
        None => entry.manufacturer_pn,
    }
}

/// The row that lists a sourced line; nothing is noted on delivery yet.
pub open spec fn row_of(entry: BomEntryView) -> BomRow {
    BomRow {
        description: entry.description,
        part_number: listed_pn(entry),
        manufacturer: entry.manufacturer,
        quantity: entry.quantity,
        unit_price: entry.unit_price,
        proposal: entry.proposal,
        link: entry.product_url,
        project: entry.project,
        delivered: Seq::<char>::empty(),
    }
}

/// Lists a sourced line at the foot of the order sheet of `book`.
///
/// Fails, and leaves the workbook as it was, where the workbook has no
/// order sheet, and where its order sheet has no row left.
pub fn add_to_bom(entry: &BomEntry, book: &mut Spreadsheet) -> (done: Result<(), DataError>)
    requires
        sheets_read(*old(book)),
    ensures
        ({
            let titles = sheet_titles(*old(book));
            let sheet = position_of(titles, order_sheet());
            let cells = sheet_cells(*old(book), sheet);
            let row = top_row(cells.dom());
            if !titles.contains(order_sheet()) {
                &&& done matches Err(e) && e@ == DataErrorView::FailedQuery("Sheet not found"@)
                &&& *final(book) == *old(book)
            } else if row == u32::MAX {
                &&& done matches Err(e) && e@ == DataErrorView::FailedQuery("Sheet is full"@)
                &&& *final(book) == *old(book)
            } else {
                &&& done is Ok
                &&& is_update(*old(book), *final(book), sheet, with_row(cells, row, row_of(entry@)))
            }
        }),
        columns_from_one(*old(book)) ==> columns_from_one(*final(book)),
{
    let vendor_pn = match entry.vendor {
        Vendor::DigiKey => &entry.digikey_pn,
        Vendor::Mouser => &entry.mouser_pn,
    };
    let part_number = match vendor_pn {
        Some(pn) => pn.clone(),
        None => entry.manufacturer_pn.clone(),
    };
    match add_item_to_bom(
        book,
        entry.manufacturer.clone(),
        part_number,
        entry.quantity,
        entry.description.clone(),
        entry.unit_price,
        entry.proposal.clone(),
        entry.product_url.clone(),
        entry.project.clone(),
        String::new(),
    ) {
        Ok(()) => Ok(()),
        Err(e) => Err(DataError::FailedQuery(e)),
    }
}

/// The rows that list the lines of `entries` that go into the workbook of
/// `vendor`, in the order of the lines.
pub open spec fn rows_for(entries: Seq<BomEntry>, vendor: Vendor) -> Seq<BomRow>
    decreases entries.len(),
{
    if entries.len() == 0 {
        Seq::<BomRow>::empty()
    } else {
        let rest = rows_for(entries.drop_last(), vendor);
        if entries.last().vendor == vendor {
            rest.push(row_of(entries.last()@))
        } else {
            rest
        }
    }
}

/// Every line is listed in exactly one of the two workbooks: the rows of
/// both together are as many as the lines.
pub proof fn lemma_listed_once(entries: Seq<BomEntry>)
    ensures
        rows_for(entries, Vendor::DigiKey).len() + rows_for(entries, Vendor::Mouser).len()
            == entries.len(),
    decreases entries.len(),
{
    if entries.len() > 0 {
        lemma_listed_once(entries.drop_last());
    }
}

/// The rows of the first lines are among the rows of all lines.
proof fn lemma_rows_grow(entries: Seq<BomEntry>, vendor: Vendor, n: int)
    requires
        0 <= n <= entries.len(),
    ensures
        rows_for(entries.take(n), vendor).len() <= rows_for(entries, vendor).len(),
    decreases entries.len() - n,
{
    if n < entries.len() {
        lemma_rows_grow(entries, vendor, n + 1);
        assert(entries.take(n + 1).drop_last() =~= entries.take(n));
    } else {
        assert(entries.take(n) =~= entries);
    }
}

/// How many lines an order sheet can list: the header row and the total
/// row take two of the rows that a row number can name.
pub const MAX_LINES: u32 = 0xffff_fffd;

/// Whether `book` is the workbook that lists the rows `lines`: its first
/// worksheet empty, its second the order sheet with these lines.
pub open spec fn is_bom(book: Spreadsheet, lines: Seq<BomRow>) -> bool {
    &&& sheets_read(book)
    &&& unwritten(book)
    &&& sheet_titles(book) == seq!["Sheet1"@, order_sheet()]
    &&& sheet_cells(book, 0) == no_cells()
    &&& sheet_cells(book, 1) == bom_cells(lines)
}

/// The workbook that lists the rows `lines` has no cell in column 0.
pub proof fn lemma_bom_columns(book: Spreadsheet, lines: Seq<BomRow>)
    requires
        is_bom(book, lines),
        lines.len() <= MAX_LINES,
    ensures
        columns_from_one(book),
{
    lemma_bom_shape(lines);
    assert forall|sheet: int, c: u32, r: u32|
        0 <= sheet < sheet_titles(book).len() && #[trigger] sheet_cells(
            book,
            sheet,
        ).dom().contains((c, r)) implies c >= 1 by {
        if sheet == 1 {
            assert(bom_cells_at(lines.len()).contains((c, r)));
        }
    }
}

/// The two workbooks of an order, one for each vendor.
pub struct BomBooks {
    pub digikey: Spreadsheet,
    pub mouser: Spreadsheet,
}

/// In a vendor's workbook the order sheet is the second worksheet.
proof fn lemma_order_sheet_is_second(titles: Seq<Seq<char>>)
    requires
        titles == seq!["Sheet1"@, order_sheet()],
    ensures
        position_of(titles, order_sheet()) == 1,
        titles.contains(order_sheet()),
{
    reveal_strlit("Sheet1");
    reveal_strlit("Ordine");
    assert("Sheet1"@[0] != "Ordine"@[0]);
    assert(titles[0] != order_sheet());
    assert(titles.drop_first()[0] == order_sheet());
    reveal_with_fuel(position_of, 3);
    assert(titles[1] == order_sheet());
}

/// The two workbooks that list the sourced lines `entries`, each line in
/// the workbook of its vendor, in the order of the lines.
///
/// Fails where one of the two workbooks would have to list more than
/// `MAX_LINES` lines.
pub fn build_boms(entries: &Vec<BomEntry>) -> (books: Result<BomBooks, DataError>)
    ensures
        match books {
            Ok(b) => {
                &&& is_bom(b.digikey, rows_for(entries@, Vendor::DigiKey))
                &&& is_bom(b.mouser, rows_for(entries@, Vendor::Mouser))
                &&& rows_for(entries@, Vendor::DigiKey).len() <= MAX_LINES
                &&& rows_for(entries@, Vendor::Mouser).len() <= MAX_LINES
            },
            Err(e) => {
                &&& e@ == DataErrorView::FailedQuery("Sheet is full"@)
                &&& (rows_for(entries@, Vendor::DigiKey).len() > MAX_LINES || rows_for(
                    entries@,
                    Vendor::Mouser,
                ).len() > MAX_LINES)
            },
        },
{
    let mut digikey = create_bom_file();
    let mut mouser = create_bom_file();
    let mut i: usize = 0;
    while i < entries.len()
        invariant
            i <= entries.len(),
            is_bom(digikey, rows_for(entries@.take(i as int), Vendor::DigiKey)),
            is_bom(mouser, rows_for(entries@.take(i as int), Vendor::Mouser)),
            rows_for(entries@.take(i as int), Vendor::DigiKey).len() <= MAX_LINES,
            rows_for(entries@.take(i as int), Vendor::Mouser).len() <= MAX_LINES,
        decreases entries.len() - i,
    {
        let entry = &entries[i];
        let ghost before = entries@.take(i as int);
        let ghost after = entries@.take(i + 1);
        let ghost lines = rows_for(before, entry.vendor);
        proof {
            assert(after.drop_last() =~= before);
            assert(after.last() == *entry);
            lemma_bom_shape(lines);
            lemma_order_sheet_is_second(seq!["Sheet1"@, order_sheet()]);
            lemma_rows_grow(entries@, entry.vendor, i + 1);
            if lines.len() < MAX_LINES {
                lemma_bom_append(lines, row_of(entry@));
            }
        }
        let done = match entry.vendor {
            Vendor::DigiKey => add_to_bom(entry, &mut digikey),
            Vendor::Mouser => add_to_bom(entry, &mut mouser),
        };
        match done {
            Ok(()) => {},
            Err(e) => {
                return Err(e);
            },
        }
        i += 1;
    }
    assert(entries@.take(i as int) =~= entries@);
    Ok(BomBooks { digikey, mouser })
}

/// The name under which the workbooks of an order described as
/// `description` are filed: the description in lowercase, with an
/// underscore for every space.
pub open spec fn filename_of(description: Seq<char>) -> Seq<char> {
    lowercased(replaced(description, ' ', '_'))
}

/// The name under which the workbooks of an order are filed.
pub fn bom_filename(description: &str) -> (name: String)
    ensures
        name@ == filename_of(description@),
{
    to_lowercase(replace_char(description, ' ', '_').as_str())
}

/// The workbooks of an order as they are stored: the bytes of each
/// vendor's xlsx file, and the name they are filed under.
#[derive(Clone, Debug)]
pub struct BomFiles {
    pub mouser: Vec<u8>,
    pub digikey: Vec<u8>,
    pub filename: String,
}

/// The stored form of an order's workbooks, given how writing each of
/// them ended, for an order described as `description`. Both workbooks
/// have to be written: where Mouser's was not, the order fails for that;
/// else where Digi-Key's was not, for that.
pub fn pack_boms(
    mouser: Result<Vec<u8>, String>,
    digikey: Result<Vec<u8>, String>,
    description: &str,
) -> (files: Result<BomFiles, DataError>)
    ensures
        match (mouser, digikey) {
            (Ok(m), Ok(d)) => files matches Ok(f) && f.mouser == m && f.digikey == d
                && f.filename@ == filename_of(description@),
            (Err(why), _) => files matches Err(e) && e@ == DataErrorView::FailedQuery(why@),
            (Ok(_), Err(why)) => files matches Err(e) && e@ == DataErrorView::FailedQuery(why@),
        },
{
    match (mouser, digikey) {
        (Ok(m), Ok(d)) => Ok(
            BomFiles { mouser: m, digikey: d, filename: bom_filename(description) },
        ),
        (Err(why), _) => Err(DataError::FailedQuery(why)),
        (Ok(_), Err(why)) => Err(DataError::FailedQuery(why)),
    }
}

/// Whether `files` is what storing two workbooks comes to, given the
/// bytes that each is written into, if any: with both written, the bytes
/// of both under the name of the order; else a failure.
pub open spec fn is_stored(
    files: Result<BomFiles, DataError>,
    mouser: Option<Seq<u8>>,
    digikey: Option<Seq<u8>>,
    description: Seq<char>,
) -> bool {
    match (mouser, digikey) {
        (Some(m), Some(d)) => files matches Ok(f) && f.mouser@ == m && f.digikey@ == d
            && f.filename@ == filename_of(description),
        _ => files matches Err(e) && e@ is FailedQuery,
    }
}

/// The stored form of the workbooks that list the sourced lines
/// `entries` of an order described as `description`: the xlsx files of the
/// two workbooks that list each vendor's lines, under the name of the
/// order.
///
/// Fails where a workbook would have to list more than `MAX_LINES` lines,
/// and where one of the two workbooks has no xlsx file.
pub fn generate_bom(entries: &Vec<BomEntry>, description: &str) -> (files: Result<
    BomFiles,
    DataError,
>)
    ensures
        if rows_for(entries@, Vendor::DigiKey).len() > MAX_LINES || rows_for(
            entries@,
            Vendor::Mouser,
        ).len() > MAX_LINES {
            files matches Err(e) && e@ == DataErrorView::FailedQuery("Sheet is full"@)
        } else {
            exists|m: Spreadsheet, d: Spreadsheet|
                #![trigger xlsx_written(m), xlsx_written(d)]
                is_bom(m, rows_for(entries@, Vendor::Mouser)) && is_bom(
                    d,
                    rows_for(entries@, Vendor::DigiKey),
                ) && is_stored(files, xlsx_written(m), xlsx_written(d), description@)
        },
{
    let mut books = match build_boms(entries) {
        Ok(books) => books,
        Err(e) => {
            return Err(e);
        },
    };
    let ghost built = books;
    proof {
        lemma_bom_columns(books.mouser, rows_for(entries@, Vendor::Mouser));
        lemma_bom_columns(books.digikey, rows_for(entries@, Vendor::DigiKey));
    }
    let mouser = save_to_bytes(&mut books.mouser);
    let digikey = save_to_bytes(&mut books.digikey);
    let files = pack_boms(mouser, digikey, description);
    assert(is_stored(
        files,
        xlsx_written(built.mouser),
        xlsx_written(built.digikey),
        description@,
    ));
    files
}

/// A day of the calendar.
#[derive(Clone, Copy, Debug, PartialEq, Eq, Structural)]
pub struct OrderDate {
    pub year: i32,
    pub month: u8,
    pub day: u8,
}

/// An order as the order store keeps it.
#[derive(Clone, Debug)]
pub struct Order {
    pub id: i32,
    pub author_id: i32,
    pub date: OrderDate,
    pub ready: bool,
    pub confirmed: bool,
    pub description: String,
    pub area_division: String,
    pub area_sub_area: String,
}

/// How a day of the calendar is written after the format description
/// `format`; empty where the three numbers name no day, and where the
/// description is none that can be read.
pub uninterp spec fn date_text(year: int, month: int, day: int, format: Seq<char>) -> Seq<char>;

/// The format description of a date as day, month and year with slashes
/// between them.
pub open spec fn day_month_year() -> Seq<char> {
    "[day]/[month]/[year]"@
}

/// `time::Date::format` with the format description that
/// `time::format_description::parse` reads from `format`, on the date that
/// `Month::try_from` and `Date::from_calendar_date` make of the three
/// numbers: the written date, and the empty text where one of the steps
/// fails.
#[verifier::external_body]
#[allow(deprecated)]
fn format_date(year: i32, month: u8, day: u8, format: &str) -> (text: String)
    ensures
        text@ == date_text(year as int, month as int, day as int, format@),
{
    let date = time::Month::try_from(month).ok().and_then(
        |m| time::Date::from_calendar_date(year, m, day).ok(),
    );
    let format = time::format_description::parse(format).ok();
    date.zip(format).and_then(|(d, f)| d.format(&f).ok()).unwrap_or_default()
}

/// What an order's state of progress is called.
pub open spec fn status_text(ready: bool, confirmed: bool) -> Seq<char> {
    if confirmed {
        "All done! \u{2705}"@
    } else if ready {
        "Waiting for approval ..."@
    } else {
        "To be completed ..."@
    }
}

/// The colour that shows an order's state of progress.
pub open spec fn status_color(ready: bool, confirmed: bool) -> Seq<char> {
    if confirmed {
        " #ACF39D"@
    } else if ready {
        " #FFC107"@
    } else {
        " #E85F5C"@
    }
}

impl Order {
    /// The day of the order, written as day, month and year.
    pub fn get_date(&self) -> (text: String)
        ensures
            text@ == date_text(
                self.date.year as int,
                self.date.month as int,
                self.date.day as int,
                day_month_year(),
            ),
    {
        format_date(self.date.year, self.date.month, self.date.day, "[day]/[month]/[year]")
    }

    /// What the order's state of progress is called: a confirmed order is
    /// done, a ready one waits for approval, any other is to be completed.
    pub fn get_status(&self) -> (text: &'static str)
        ensures
            text@ == status_text(self.ready, self.confirmed),
    {
        if self.confirmed {
            "All done! \u{2705}"
        } else if self.ready {
            "Waiting for approval ..."
        } else {
            "To be completed ..."
        }
    }

    /// The colour that shows the order's state of progress.
    pub fn get_bg_color(&self) -> (color: &'static str)
        ensures
            color@ == status_color(self.ready, self.confirmed),
    {
        if self.confirmed {
            " #ACF39D"
        } else if self.ready {
            " #FFC107"
        } else {
            " #E85F5C"
        }
    }
}

} // verus!
