//! Editing an order: the jobs that generate its workbooks, and what of it
//! can be downloaded.

use crate::data::errors::AppError;
use crate::data::errors::AppErrorView;
use crate::data::errors::DataError;
use crate::data::errors::DataErrorView;
use crate::data::excel::cell_text;
use crate::data::excel::columns_from_one;
use crate::data::excel::new_workbook;
use crate::data::excel::no_cells;
use crate::data::excel::save_to_bytes;
use crate::data::excel::unwritten;
use crate::data::excel::xlsx_written;
use crate::data::excel::set_value;
use crate::data::excel::sheet_cells;
use crate::data::excel::sheet_titles;
use crate::data::excel::sheets_read;
use crate::data::excel::with_value;
use crate::data::excel::Cells;
use crate::data::order::Vendor;
use crate::models::item::OrderItem;
use crate::text::concat;
use crate::text::digit_char;
use crate::text::digit_to_char;
use crate::text::signed_decimal;
use crate::text::signed_decimal_string;
use crate::text::trim_end_matches;
use crate::text::trimmed_end;
use std::collections::HashMap;
use std::io::Cursor;
use std::io::Write;
use umya_spreadsheet::Spreadsheet;
use vstd::prelude::*;
use vstd::utf8::encode_utf8;
use zip::ZipWriter;

verus! {

broadcast use vstd::std_specs::hash::group_hash_axioms;

/// How far the generation of an order's workbooks has come.
#[derive(Clone, Copy, Debug, PartialEq, Eq, Structural)]
pub enum JobStatus {
    NotStarted,
    InProgress,
    Done,
    Failed,
}

/// The word that reports a status to whoever asks for it.
pub open spec fn status_word(status: JobStatus) -> Seq<char> {
    match status {
        JobStatus::NotStarted => "not_started"@,
        JobStatus::InProgress => "in_progress"@,
        JobStatus::Done => "done"@,
        JobStatus::Failed => "failed"@,
    }
}

impl JobStatus {
    /// The word that reports this status.
    pub fn as_str(&self) -> (word: &'static str)
        ensures
            word@ == status_word(*self),
    {
        match self {
            JobStatus::NotStarted => "not_started",
            JobStatus::InProgress => "in_progress",
            JobStatus::Done => "done",
            JobStatus::Failed => "failed",
        }
    }

    /// Whether the job has come to an end, well or badly.
    pub fn is_over(&self) -> (over: bool)
        ensures
            over == (*self == JobStatus::Done || *self == JobStatus::Failed),
    {
        match self {
            JobStatus::Done => true,
            JobStatus::Failed => true,
            _ => false,
        }
    }
}

/// The status that a word reports: a word that is none of the four
/// reports nothing.
pub fn status_of_word(word: &str) -> (status: Option<JobStatus>)
    ensures
        match status {
            Some(s) => word@ == status_word(s),
            None => forall|s: JobStatus| word@ != #[trigger] status_word(s),
        },
{
    let w = word.to_owned();
    proof {
        reveal_strlit("not_started");
        reveal_strlit("in_progress");
        reveal_strlit("done");
        reveal_strlit("failed");
    }
    if w == String::from_str("not_started") {
        Some(JobStatus::NotStarted)
    } else if w == String::from_str("in_progress") {
        Some(JobStatus::InProgress)
    } else if w == String::from_str("done") {
        Some(JobStatus::Done)
    } else if w == String::from_str("failed") {
        Some(JobStatus::Failed)
    } else {
        None
    }
}

/// The jobs that generate workbooks, by the order they work for. The
/// registry lives in memory: what it knows is lost when the process ends.
pub struct BomJobs {
    jobs: HashMap<i32, JobStatus>,
}

impl View for BomJobs {
    type V = Map<i32, JobStatus>;

    closed spec fn view(&self) -> Map<i32, JobStatus> {
        self.jobs@
    }
}

/// The status of the job for `order_id` among `jobs`: not started where
/// no job was ever begun for it.
pub open spec fn status_in(jobs: Map<i32, JobStatus>, order_id: i32) -> JobStatus {
    if jobs.dom().contains(order_id) {
        jobs[order_id]
    } else {
        JobStatus::NotStarted
    }
}

impl BomJobs {
    /// A registry without jobs.
    pub fn new() -> (jobs: BomJobs)
        ensures
            jobs@ == Map::<i32, JobStatus>::empty(),
    {
        BomJobs { jobs: HashMap::new() }
    }

    /// Notes that a job for `order_id` begins. Whatever was known of an
    /// earlier job for the same order is overwritten.
    pub fn start(&mut self, order_id: i32)
        ensures
            final(self)@ == old(self)@.insert(order_id, JobStatus::InProgress),
    {
        self.jobs.insert(order_id, JobStatus::InProgress);
    }

    /// Notes that the job for `order_id` is over, and how it ended.
    pub fn finish(&mut self, order_id: i32, succeeded: bool)
        ensures
            final(self)@ == old(self)@.insert(
                order_id,
                if succeeded {
                    JobStatus::Done
                } else {
                    JobStatus::Failed
                },
            ),
    {
        let status = if succeeded {
            JobStatus::Done
        } else {
            JobStatus::Failed
        };
        self.jobs.insert(order_id, status);
    }

    /// The status of the job for `order_id`.
    pub fn status(&self, order_id: i32) -> (status: JobStatus)
        ensures
            status == status_in(self@, order_id),
    {
        match self.jobs.get(&order_id) {
            Some(status) => *status,
            None => JobStatus::NotStarted,
        }
    }
}

/// A job that was begun and finished reports how it ended, whatever was
/// begun or finished for other orders in between; and an order for which
/// nothing was begun reports that nothing was started.
pub proof fn lemma_job_reports_its_end(jobs: Map<i32, JobStatus>, order_id: i32, other: i32)
    requires
        other != order_id,
    ensures
        status_in(jobs.insert(order_id, JobStatus::Done), order_id) == JobStatus::Done,
        status_in(jobs.insert(order_id, JobStatus::Failed), order_id) == JobStatus::Failed,
        status_in(jobs.insert(other, JobStatus::InProgress), order_id) == status_in(jobs, order_id),
        status_in(Map::<i32, JobStatus>::empty(), order_id) == JobStatus::NotStarted,
{
}

/// How long to wait before asking for a job's status again, in seconds.
pub const POLL_SECONDS: u64 = 1;

/// Whether to go on waiting for a job that reports `word`, and how many
/// seconds to wait before asking again: waiting ends once the job is done
/// or has failed.
pub fn after_poll(word: &str) -> (wait: Option<u64>)
    ensures
        wait == if word@ == status_word(JobStatus::Done) || word@ == status_word(
            JobStatus::Failed,
        ) {
            None
        } else {
            Some(POLL_SECONDS)
        },
{
    match status_of_word(word) {
        Some(status) => {
            if status.is_over() {
                None
            } else {
                proof {
                    reveal_strlit("not_started");
                    reveal_strlit("in_progress");
                    reveal_strlit("done");
                    reveal_strlit("failed");
                    assert(word@.len() == 11);
                }
                Some(POLL_SECONDS)
            }
        },
        None => {
            assert(word@ != status_word(JobStatus::Done));
            assert(word@ != status_word(JobStatus::Failed));
            Some(POLL_SECONDS)
        },
    }
}

/// The character that writes the value `n` of four bits as a digit of
/// base sixteen, with capital letters.
pub open spec fn hex_digit(n: int) -> char
    recommends
        0 <= n < 16,
{
    if n < 10 {
        digit_char(n)
    } else if n == 10 {
        'A'
    } else if n == 11 {
        'B'
    } else if n == 12 {
        'C'
    } else if n == 13 {
        'D'
    } else if n == 14 {
        'E'
    } else {
        'F'
    }
}

/// Whether the byte `b` is an ASCII letter or digit.
pub open spec fn is_alphanumeric(b: u8) -> bool {
    (0x30 <= b <= 0x39) || (0x41 <= b <= 0x5a) || (0x61 <= b <= 0x7a)
}

/// The percent-encoding of `bytes` that leaves only ASCII letters and
/// digits as they are: every other byte becomes a percent sign and its two
/// digits of base sixteen.
pub open spec fn percent_encoded(bytes: Seq<u8>) -> Seq<char>
    decreases bytes.len(),
{
    if bytes.len() == 0 {
        Seq::<char>::empty()
    } else {
        let b = bytes.last();
        percent_encoded(bytes.drop_last()) + if is_alphanumeric(b) {
            seq![b as char]
        } else {
            seq!['%', hex_digit(b as int / 16), hex_digit(b as int % 16)]
        }
    }
}

/// The digit of base sixteen that writes the value `n` of four bits.
fn hex_digit_of(n: u8) -> (digit: char)
    requires
        n < 16,
    ensures
        digit == hex_digit(n as int),
{
    if n < 10 {
        digit_to_char(n)
    } else if n == 10 {
        'A'
    } else if n == 11 {
        'B'
    } else if n == 12 {
        'C'
    } else if n == 13 {
        'D'
    } else if n == 14 {
        'E'
    } else {
        'F'
    }
}

/// The percent-encoding of the UTF-8 bytes of `text` that leaves only
/// ASCII letters and digits as they are.
pub fn percent_encode(text: &str) -> (encoded: String)
    ensures
        encoded@ == percent_encoded(encode_utf8(text@)),
{
    let bytes = text.as_bytes();
    let mut encoded = String::new();
    let mut i: usize = 0;
    while i < bytes.len()
        invariant
            i <= bytes.len(),
            bytes@ == encode_utf8(text@),
            encoded@ == percent_encoded(bytes@.take(i as int)),
        decreases bytes.len() - i,
    {
        let b: u8 = bytes[i];
        proof {
            assert(bytes@.take(i + 1).drop_last() =~= bytes@.take(i as int));
            assert(bytes@.take(i + 1).last() == b);
        }
        if (0x30 <= b && b <= 0x39) || (0x41 <= b && b <= 0x5a) || (0x61 <= b && b <= 0x7a) {
            encoded.push(b as char);
        } else {
            encoded.push('%');
            encoded.push(hex_digit_of(b / 16));
            encoded.push(hex_digit_of(b % 16));
        }
        assert(encoded@ =~= percent_encoded(bytes@.take(i + 1)));
        i += 1;
    }
    assert(bytes@.take(i as int) =~= bytes@);
    encoded
}

/// The names under which the workbooks of an order are downloaded.
#[derive(Clone, Debug)]
pub struct BomDownload {
    /// The name of Mouser's workbook inside the archive.
    pub mouser_name: String,
    /// The name of Digi-Key's workbook inside the archive.
    pub digikey_name: String,
    /// The name of the archive.
    pub archive_name: String,
    /// The header that tells the browser to save the archive under its
    /// name.
    pub content_disposition: String,
}

/// The name that the workbooks of the order `order_id` go by: the name
/// they were filed under, without any ".xlsx" at its end; "bom_" and the
/// number of the order where they were filed without a name.
pub open spec fn download_base(filename: Option<Seq<char>>, order_id: i32) -> Seq<char> {
    let filed = match filename {
        Some(name) => name,
        None => "bom_"@ + signed_decimal(order_id as int),
    };
    trimmed_end(filed, ".xlsx"@)
}

/// The names under which the workbooks of the order `order_id`, filed
/// under `filename`, are downloaded.
pub fn bom_download(filename: &Option<String>, order_id: i32) -> (names: BomDownload)
    ensures
        ({
            let base = download_base(
                match *filename {
                    Some(name) => Some(name@),
                    None => None,
                },
                order_id,
            );
            &&& names.mouser_name@ == base + "_mouser.xlsx"@
            &&& names.digikey_name@ == base + "_digikey.xlsx"@
            &&& names.archive_name@ == base + "_bom.zip"@
            &&& names.content_disposition@ == "attachment; filename=\""@ + names.archive_name@
                + "\"; filename*=UTF-8''"@ + percent_encoded(encode_utf8(names.archive_name@))
        }),
{
    let filed = match filename {
        Some(name) => name.clone(),
        None => concat("bom_", signed_decimal_string(order_id).as_str()),
    };
    let base = trim_end_matches(filed.as_str(), ".xlsx");
    let archive_name = concat(base.as_str(), "_bom.zip");
    let encoded = percent_encode(archive_name.as_str());
    let mut content_disposition = String::from_str("attachment; filename=\"");
    content_disposition.append(archive_name.as_str());
    content_disposition.append("\"; filename*=UTF-8''");
    content_disposition.append(encoded.as_str());
    BomDownload {
        mouser_name: concat(base.as_str(), "_mouser.xlsx"),
        digikey_name: concat(base.as_str(), "_digikey.xlsx"),
        archive_name,
        content_disposition,
    }
}

/// The two stored workbooks of an order, as far as the order store has
/// them: an order without stored workbooks, or with one of them missing,
/// has nothing to download.
pub fn stored_boms(record: Option<(Option<Vec<u8>>, Option<Vec<u8>>)>) -> (files: Result<
    (Vec<u8>, Vec<u8>),
    AppError,
>)
    ensures
        match record {
            Some((Some(mouser), Some(digikey))) => files == Ok::<(Vec<u8>, Vec<u8>), AppError>(
                (mouser, digikey),
            ),
            Some((None, _)) => files matches Err(e) && e@ == AppErrorView::Database(
                DataErrorView::FailedQuery("Missing Mouser BOM"@),
            ),
            Some((Some(_), None)) => files matches Err(e) && e@ == AppErrorView::Database(
                DataErrorView::FailedQuery("Missing Digikey BOM"@),
            ),
            None => files matches Err(e) && e@ == AppErrorView::Database(
                DataErrorView::FailedQuery("No BOM found for order"@),
            ),
        },
{
    match record {
        Some((Some(mouser), Some(digikey))) => Ok((mouser, digikey)),
        Some((None, _)) => Err(
            AppError::Database(DataError::FailedQuery(String::from_str("Missing Mouser BOM"))),
        ),
        Some((Some(_), None)) => Err(
            AppError::Database(DataError::FailedQuery(String::from_str("Missing Digikey BOM"))),
        ),
        None => Err(
            AppError::Database(DataError::FailedQuery(String::from_str("No BOM found for order"))),
        ),
    }
}

/// The part number under which `vendor` sells a line, if the line has one.
pub open spec fn vendor_pn(item: OrderItem, vendor: Vendor) -> Option<String> {
    match vendor {
        Vendor::DigiKey => item.digikey_pn,
        Vendor::Mouser => item.mouser_pn,
    }
}

/// The cells of the cart that orders the lines `items` from `vendor`: one
/// row for each line that has a part number of that vendor, from row 1
/// down in the order of the lines, with the quantity in column 1 and the
/// vendor's part number in column 2.
pub open spec fn cart_cells(items: Seq<OrderItem>, vendor: Vendor) -> Cells
    decreases items.len(),
{
    if items.len() == 0 {
        no_cells()
    } else {
        let above = cart_cells(items.drop_last(), vendor);
        match vendor_pn(items.last(), vendor) {
            Some(pn) => {
                let row = (cart_rows(items.drop_last(), vendor) + 1) as u32;
                with_value(
                    with_value(
                        above,
                        1,
                        row,
                        cell_text(signed_decimal(items.last().quantity as int)),
                    ),
                    2,
                    row,
                    cell_text(pn@),
                )
            },
            None => above,
        }
    }
}

/// How many of the lines `items` have a part number of `vendor`.
pub open spec fn cart_rows(items: Seq<OrderItem>, vendor: Vendor) -> nat
    decreases items.len(),
{
    if items.len() == 0 {
        0
    } else {
        cart_rows(items.drop_last(), vendor) + if vendor_pn(items.last(), vendor) is Some {
            1nat
        } else {
            0nat
        }
    }
}

proof fn lemma_cart_rows(items: Seq<OrderItem>, vendor: Vendor)
    ensures
        cart_rows(items, vendor) <= items.len(),
    decreases items.len(),
{
    if items.len() > 0 {
        lemma_cart_rows(items.drop_last(), vendor);
    }
}

/// Whether `book` is the cart that orders the lines `items` from `vendor`:
/// a workbook of one worksheet with the cells of the cart, of which no
/// file has been written yet.
pub open spec fn is_cart(book: Spreadsheet, items: Seq<OrderItem>, vendor: Vendor) -> bool {
    &&& sheets_read(book)
    &&& unwritten(book)
    &&& sheet_titles(book) == seq!["Sheet1"@]
    &&& sheet_cells(book, 0) == cart_cells(items, vendor)
}

/// The workbook that orders from `vendor` those of the lines `items` that
/// have a part number of that vendor: a cart that the vendor's site takes
/// as it is, without a header.
pub fn build_cart(items: &Vec<OrderItem>, vendor: Vendor) -> (book: Spreadsheet)
    requires
        items@.len() < u32::MAX,
    ensures
        is_cart(book, items@, vendor),
        columns_from_one(book),
{
    let mut book = new_workbook();
    let mut row: u32 = 1;
    let mut i: usize = 0;
    while i < items.len()
        invariant
            i <= items.len(),
            items@.len() < u32::MAX,
            sheets_read(book),
            unwritten(book),
            sheet_titles(book) == seq!["Sheet1"@],
            row == cart_rows(items@.take(i as int), vendor) + 1,
            sheet_cells(book, 0) == cart_cells(items@.take(i as int), vendor),
        decreases items.len() - i,
    {
        let item = &items[i];
        proof {
            assert(items@.take(i + 1).drop_last() =~= items@.take(i as int));
            lemma_cart_rows(items@.take(i as int), vendor);
        }
        let pn = match vendor {
            Vendor::DigiKey => &item.digikey_pn,
            Vendor::Mouser => &item.mouser_pn,
        };
        match pn {
            Some(pn) => {
                set_value(&mut book, 0, 1, row, signed_decimal_string(item.quantity).as_str());
                set_value(&mut book, 0, 2, row, pn.as_str());
                row += 1;
            },
            None => {},
        }
        i += 1;
    }
    assert(items@.take(i as int) =~= items@);
    proof {
        lemma_cart_columns(items@, vendor);
        assert forall|sheet: int, c: u32, r: u32|
            0 <= sheet < sheet_titles(book).len() && #[trigger] sheet_cells(
                book,
                sheet,
            ).dom().contains((c, r)) implies c >= 1 by {
            assert(sheet == 0);
        }
    }
    book
}

/// A cart has cells in columns 1 and 2 only.
proof fn lemma_cart_columns(items: Seq<OrderItem>, vendor: Vendor)
    ensures
        forall|c: u32, r: u32| #[trigger]
            cart_cells(items, vendor).dom().contains((c, r)) ==> c == 1 || c == 2,
    decreases items.len(),
{
    if items.len() > 0 {
        lemma_cart_columns(items.drop_last(), vendor);
        let above = cart_cells(items.drop_last(), vendor);
        assert forall|c: u32, r: u32| #[trigger]
            cart_cells(items, vendor).dom().contains((c, r)) implies c == 1 || c == 2 by {
            if c != 1 && c != 2 {
                assert(above.dom().contains((c, r)));
            }
        }
    }
}

/// The name of the vendor as file names spell it.
pub open spec fn vendor_word(vendor: Vendor) -> Seq<char> {
    match vendor {
        Vendor::DigiKey => "digikey"@,
        Vendor::Mouser => "mouser"@,
    }
}

/// What is sent for the download of a cart.
#[derive(Clone, Debug)]
pub struct CartDownload {
    /// The cart as the bytes of an xlsx file.
    pub bytes: Vec<u8>,
    /// The header that tells the browser to save the cart under its name.
    pub content_disposition: String,
}

/// The media type of an xlsx file.
pub open spec fn xlsx_media_type() -> Seq<char> {
    "application/vnd.openxmlformats-officedocument.spreadsheetml.sheet"@
}

/// The media type of an xlsx file.
pub fn xlsx_content_type() -> (media_type: &'static str)
    ensures
        media_type@ == xlsx_media_type(),
{
    "application/vnd.openxmlformats-officedocument.spreadsheetml.sheet"
}

/// The header under which the cart of the order `order_id` for `vendor`
/// is saved.
pub fn cart_disposition(vendor: Vendor, order_id: i32) -> (header: String)
    ensures
        header@ == "attachment; filename=\""@ + vendor_word(vendor) + "_cart_"@ + signed_decimal(
            order_id as int,
        ) + ".xlsx\""@,
{
    let mut header = String::from_str("attachment; filename=\"");
    match vendor {
        Vendor::DigiKey => header.append("digikey"),
        Vendor::Mouser => header.append("mouser"),
    }
    header.append("_cart_");
    header.append(signed_decimal_string(order_id).as_str());
    header.append(".xlsx\"");
    header
}

/// Whether `cart` is what sending a cart comes to, given the bytes that
/// its workbook is written into, if any: the bytes under `disposition`,
/// or a failure where there are none.
pub open spec fn is_sent(
    cart: Result<CartDownload, DataError>,
    written: Option<Seq<u8>>,
    disposition: Seq<char>,
) -> bool {
    match written {
        Some(bytes) => cart matches Ok(c) && c.bytes@ == bytes && c.content_disposition@
            == disposition,
        None => cart matches Err(e) && e@ is Internal,
    }
}

/// The cart that orders the lines `items` of the order `order_id` from
/// `vendor`, ready for download: the xlsx file of the cart's workbook,
/// under the name of vendor and order.
///
/// Fails where the cart has no xlsx file.
pub fn download_cart(items: &Vec<OrderItem>, vendor: Vendor, order_id: i32) -> (cart: Result<
    CartDownload,
    DataError,
>)
    requires
        items@.len() < u32::MAX,
    ensures
        exists|book: Spreadsheet|
            #![trigger xlsx_written(book)]
            is_cart(book, items@, vendor) && is_sent(
                cart,
                xlsx_written(book),
                "attachment; filename=\""@ + vendor_word(vendor) + "_cart_"@ + signed_decimal(
                    order_id as int,
                ) + ".xlsx\""@,
            ),
{
    let mut book = build_cart(items, vendor);
    let ghost built = book;
    let cart = match save_to_bytes(&mut book) {
        Ok(bytes) => Ok(
            CartDownload { bytes, content_disposition: cart_disposition(vendor, order_id) },
        ),
        Err(e) => Err(DataError::Internal(e)),
    };
    assert(is_sent(
        cart,
        xlsx_written(built),
        "attachment; filename=\""@ + vendor_word(vendor) + "_cart_"@ + signed_decimal(
            order_id as int,
        ) + ".xlsx\""@,
    ));
    cart
}

/// A zip archive that is being written in memory: a `zip::ZipWriter` on a
/// buffer.
#[verifier::external_body]
pub struct Archive {
    writer: ZipWriter<Cursor<Vec<u8>>>,
}

/// Files as an archive holds them: the name and the bytes of each, in
/// their order.
pub type Files = Seq<(Seq<char>, Seq<u8>)>;

/// The files that were written into an archive so far, in the order in
/// which they were written; the file on which writing failed is the last
/// of them.
pub uninterp spec fn archived(archive: Archive) -> Files;

/// The bytes of the zip archive that holds exactly the files `files`, in
/// that order, each stored as it is and dated 1 January 1980; nothing
/// where one of the files cannot be written into an archive.
pub uninterp spec fn zip_stored(files: Files) -> Option<Seq<u8>>;

/// No files.
pub open spec fn no_files() -> Files {
    Seq::empty()
}

/// Whether no archive holds `files`, whatever files follow them.
pub open spec fn cannot_hold(files: Files) -> bool {
    forall|rest: Files| (#[trigger] zip_stored(files + rest)) is None
}

/// `ZipWriter::new` on an empty buffer in memory: an archive without
/// files.
#[verifier::external_body]
fn new_archive() -> (archive: Archive)
    ensures
        archived(archive) == no_files(),
{
    Archive { writer: ZipWriter::new(Cursor::new(Vec::new())) }
}

/// `ZipWriter::start_file` with the options of `FileOptions::default` set
/// to store without compression and to the date of `DateTime::default`,
/// then `write_all` of the bytes: the file is written behind the others,
/// or the archive says why it cannot be. Whether it can be lies with the
/// files alone: the buffer takes what is written, and the writer refuses
/// only a file that is too large for these options. After a refusal the
/// writer is closed, and every later call fails.
#[verifier::external_body]
fn add_file(archive: &mut Archive, name: &str, bytes: &Vec<u8>) -> (added: Result<(), String>)
    ensures
        added is Ok ==> archived(*final(archive)) == archived(*old(archive)).push((name@, bytes@)),
        added is Err ==> cannot_hold(archived(*old(archive)).push((name@, bytes@))),
{
    let stored = zip::write::FileOptions::default().compression_method(
        zip::CompressionMethod::Stored,
    ).last_modified_time(zip::DateTime::default());
    archive.writer.start_file(name, stored).map_err(|e| e.to_string())?;
    archive.writer.write_all(bytes).map_err(|e| e.to_string())
}

/// `ZipWriter::finish` and the buffer of its result: the bytes of the
/// archive with the files written so far, or why it cannot be closed. The
/// bytes follow from names, contents and options of the files alone, and
/// closing fails only after a file was refused.
#[verifier::external_body]
fn finish_archive(archive: Archive) -> (bytes: Result<Vec<u8>, String>)
    ensures
        bytes is Ok <==> zip_stored(archived(archive)) is Some,
        bytes matches Ok(b) ==> zip_stored(archived(archive)) == Some(b@),
{
    let mut archive = archive;
    archive.writer.finish().map(|buffer| buffer.into_inner()).map_err(|e| e.to_string())
}

/// What is sent for the download of an order's workbooks.
#[derive(Clone, Debug)]
pub struct ArchiveDownload {
    /// The archive with both workbooks as the bytes of a zip file.
    pub bytes: Vec<u8>,
    /// The header that tells the browser to save the archive under its
    /// name.
    pub content_disposition: String,
}

/// The media type of a zip archive.
pub fn zip_content_type() -> (media_type: &'static str)
    ensures
        media_type@ == "application/zip"@,
{
    "application/zip"
}

/// Whether `download` is what sending an archive comes to, given the
/// bytes of the archive, if there are any: the bytes under `disposition`,
/// or a failure where there are none.
pub open spec fn is_archive_sent(
    download: Result<ArchiveDownload, AppError>,
    archive: Option<Seq<u8>>,
    disposition: Seq<char>,
) -> bool {
    match archive {
        Some(bytes) => download matches Ok(d) && d.bytes@ == bytes && d.content_disposition@
            == disposition,
        None => download matches Err(e) && e@ matches AppErrorView::Database(
            DataErrorView::FailedQuery(_),
        ),
    }
}

/// The archive that holds the two stored workbooks of the order
/// `order_id`, filed under `filename`: Mouser's first, then Digi-Key's,
/// each under its download name.
///
/// Fails exactly where no archive holds the two files.
pub fn download_bom(
    filename: &Option<String>,
    order_id: i32,
    mouser: &Vec<u8>,
    digikey: &Vec<u8>,
) -> (download: Result<ArchiveDownload, AppError>)
    ensures
        ({
            let base = download_base(
                match *filename {
                    Some(name) => Some(name@),
                    None => None,
                },
                order_id,
            );
            is_archive_sent(
                download,
                zip_stored(
                    seq![(base + "_mouser.xlsx"@, mouser@), (base + "_digikey.xlsx"@, digikey@)],
                ),
                "attachment; filename=\""@ + (base + "_bom.zip"@) + "\"; filename*=UTF-8''"@
                    + percent_encoded(encode_utf8(base + "_bom.zip"@)),
            )
        }),
{
    let names = bom_download(filename, order_id);
    let ghost first = (names.mouser_name@, mouser@);
    let ghost second = (names.digikey_name@, digikey@);
    let ghost disposition = names.content_disposition@;
    let ghost none = no_files();
    let mut archive = new_archive();
    match add_file(&mut archive, names.mouser_name.as_str(), mouser) {
        Ok(()) => {},
        Err(why) => {
            assert(none.push(first) + seq![second] =~= seq![first, second]);
            assert(zip_stored(none.push(first) + seq![second]) is None);
            return Err(AppError::Database(DataError::FailedQuery(why)));
        },
    }
    let ghost one = archived(archive);
    match add_file(&mut archive, names.digikey_name.as_str(), digikey) {
        Ok(()) => {},
        Err(why) => {
            assert(one.push(second) + none =~= seq![first, second]);
            assert(zip_stored(one.push(second) + none) is None);
            return Err(AppError::Database(DataError::FailedQuery(why)));
        },
    }
    assert(archived(archive) =~= seq![first, second]);
    let finished = finish_archive(archive);
    let download = match finished {
        Ok(bytes) => Ok(ArchiveDownload { bytes, content_disposition: names.content_disposition }),
        Err(why) => Err(AppError::Database(DataError::FailedQuery(why))),
    };
    assert(is_archive_sent(download, zip_stored(seq![first, second]), disposition));
    download
}

} // verus!
