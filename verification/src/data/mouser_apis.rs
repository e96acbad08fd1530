//! The Mouser side of sourcing: what a search answer offers for a requested
//! part, and when a search is sent again.

use crate::data::errors::SearchError;
use crate::data::errors::SearchErrorView;
use crate::models::mouser_api_models::InnerRequest;
use crate::models::mouser_api_models::KeywordSearchRequest;
use crate::models::mouser_api_models::MouserPart;
use crate::models::mouser_api_models::MouserPartView;
use crate::models::mouser_api_models::MouserResponse;
use crate::models::mouser_api_models::Part;
use crate::models::mouser_api_models::PriceBreak;
use crate::price::amount_value;
use crate::price::last_applicable;
use crate::price::last_applicable_break;
use crate::price::lemma_last_applicable;
use crate::price::Price;
use crate::text::concat;
use crate::text::concat3;
use crate::text::parse_u32;
use crate::text::strip_suffix;
use crate::text::unsigned_value;
use crate::text::without_suffix;
use vstd::prelude::*;

verus! {

/// What follows the amount in a price that Mouser writes: a space and the
/// euro sign.
pub open spec fn euro_suffix() -> Seq<char> {
    " \u{20ac}"@
}

/// What follows the count in a stock level that Mouser writes.
pub open spec fn in_stock_suffix() -> Seq<char> {
    " In Stock"@
}

/// The price that the text of a price break stands for, in millionths: the
/// amount before the euro suffix; zero where the suffix is missing or what
/// stands before it is no amount.
pub open spec fn price_of_text(text: Seq<char>) -> int {
    match without_suffix(text, euro_suffix()) {
        Some(amount) => match amount_value(amount) {
            Some(micros) => micros as int,
            None => 0,
        },
        None => 0,
    }
}

/// The stock that an availability text stands for: the count before
/// " In Stock"; zero where the suffix is missing or what stands before it
/// is no count.
pub open spec fn stock_of_text(text: Seq<char>) -> int {
    match without_suffix(text, in_stock_suffix()) {
        Some(count) => match unsigned_value(count) {
            Some(n) => n as int,
            None => 0,
        },
        None => 0,
    }
}

/// The price that the text of a price break stands for.
pub fn parse_price(text: &str) -> (price: Price)
    ensures
        price@ == price_of_text(text@),
{
    match strip_suffix(text, " \u{20ac}") {
        Some(amount) => match Price::parse(amount.as_str()) {
            Some(price) => price,
            None => Price::zero(),
        },
        None => Price::zero(),
    }
}

/// The stock that an availability text stands for.
pub fn parse_availability(text: &str) -> (stock: u32)
    ensures
        stock == stock_of_text(text@),
{
    match strip_suffix(text, " In Stock") {
        Some(count) => match parse_u32(count.as_str()) {
            Some(stock) => stock,
            None => 0,
        },
        None => 0,
    }
}

/// The text of an optional field, empty where the field is missing.
pub open spec fn text_or_empty(field: Option<String>) -> Seq<char> {
    match field {
        Some(text) => text@,
        None => Seq::<char>::empty(),
    }
}

/// The position of the first part of `parts` whose manufacturer part number
/// is `pn`, if there is one.
pub open spec fn first_match(parts: Seq<Part>, pn: Seq<char>) -> Option<int>
    decreases parts.len(),
{
    if parts.len() == 0 {
        None
    } else {
        match first_match(parts.drop_last(), pn) {
            Some(i) => Some(i),
            None => if text_or_empty(parts.last().manufacturer_part_number) == pn {
                Some(parts.len() - 1)
            } else {
                None
            },
        }
    }
}

/// The quantities from which the breaks apply, in the order of the breaks.
pub open spec fn break_quantities(breaks: Seq<PriceBreak>) -> Seq<u32> {
    breaks.map_values(|b: PriceBreak| b.quantity)
}

/// The unit price, in millionths, that `breaks` gives for `quantity`
/// pieces: what the last break that applies writes, zero where none
/// applies.
pub open spec fn break_price(breaks: Seq<PriceBreak>, quantity: u32) -> int {
    match last_applicable(break_quantities(breaks), quantity) {
        Some(i) => price_of_text(breaks[i].price@),
        None => 0,
    }
}

/// The offer that a part makes for `quantity` pieces: none without price
/// breaks; else its fields, each empty where missing, with the unit price
/// of its breaks and the stock that its availability writes.
pub open spec fn offer_of(part: Part, quantity: u32) -> Option<MouserPartView> {
    match part.price_breaks {
        Some(breaks) => Some(
            MouserPartView {
                manufacturer: text_or_empty(part.manufacturer),
                manufacturer_pn: text_or_empty(part.manufacturer_part_number),
                description: text_or_empty(part.description),
                mouser_pn: text_or_empty(part.mouser_part_number),
                product_url: text_or_empty(part.product_detail_url),
                unit_price: break_price(breaks@, quantity),
                availability: stock_of_text(text_or_empty(part.availability)),
            },
        ),
        None => None,
    }
}

/// What an answer offers for `quantity` pieces of the part numbered `pn`:
/// the offer of the first part with that number, none where the answer has
/// no results or no such part.
pub open spec fn offered(response: MouserResponse, pn: Seq<char>, quantity: u32) -> Option<
    MouserPartView,
> {
    match response.search_results {
        Some(results) => match first_match(results.parts@, pn) {
            Some(i) => offer_of(results.parts@[i], quantity),
            None => None,
        },
        None => None,
    }
}

/// The first match stands in the list, carries the number, and no part
/// before it does.
pub proof fn lemma_first_match(parts: Seq<Part>, pn: Seq<char>)
    ensures
        match first_match(parts, pn) {
            Some(i) => {
                &&& 0 <= i < parts.len()
                &&& text_or_empty(parts[i].manufacturer_part_number) == pn
                &&& forall|j: int|
                    0 <= j < i ==> text_or_empty(#[trigger] parts[j].manufacturer_part_number)
                        != pn
            },
            None => forall|j: int|
                0 <= j < parts.len() ==> text_or_empty(#[trigger] parts[j].manufacturer_part_number)
                    != pn,
        },
    decreases parts.len(),
{
    if parts.len() > 0 {
        let front = parts.drop_last();
        lemma_first_match(front, pn);
        assert forall|j: int| 0 <= j < front.len() implies front[j] == parts[j] by {}
    }
}

/// What is offered is what was asked for: an offer carries the requested
/// part number.
pub proof fn lemma_offer_serves_request(
    response: MouserResponse,
    pn: Seq<char>,
    quantity: u32,
    part: MouserPartView,
)
    requires
        offered(response, pn, quantity) == Some(part),
    ensures
        part.manufacturer_pn == pn,
{
    lemma_first_match(response.search_results->0.parts@, pn);
}

/// A copy of an optional text, empty where it is missing.
fn text_of(field: &Option<String>) -> (text: String)
    ensures
        text@ == text_or_empty(*field),
{
    match field {
        Some(text) => text.clone(),
        None => String::new(),
    }
}

/// The quantities from which the breaks apply.
fn quantities_of(breaks: &Vec<PriceBreak>) -> (quantities: Vec<u32>)
    ensures
        quantities@ == break_quantities(breaks@),
{
    let mut quantities: Vec<u32> = Vec::new();
    let mut i: usize = 0;
    while i < breaks.len()
        invariant
            i <= breaks.len(),
            quantities@ == break_quantities(breaks@.take(i as int)),
        decreases breaks.len() - i,
    {
        quantities.push(breaks[i].quantity);
        assert(quantities@ =~= break_quantities(breaks@.take(i + 1)));
        i += 1;
    }
    assert(breaks@.take(i as int) =~= breaks@);
    quantities
}

/// The unit price that a list of breaks gives for `quantity` pieces.
pub fn unit_price_at(breaks: &Vec<PriceBreak>, quantity: u32) -> (price: Price)
    ensures
        price@ == break_price(breaks@, quantity),
{
    let quantities = quantities_of(breaks);
    proof {
        lemma_last_applicable(quantities@, quantity);
    }
    match last_applicable_break(&quantities, quantity) {
        Some(i) => parse_price(breaks[i].price.as_str()),
        None => Price::zero(),
    }
}

/// What a search answer offers for `quantity` pieces of the part numbered
/// `query_manufacturer_pn`.
pub fn select_offer(response: &MouserResponse, query_manufacturer_pn: &str, quantity: u32) -> (part:
    Option<MouserPart>)
    ensures
        match part {
            Some(p) => offered(*response, query_manufacturer_pn@, quantity) == Some(p@),
            None => offered(*response, query_manufacturer_pn@, quantity) is None,
        },
{
    let pn = query_manufacturer_pn.to_owned();
    match &response.search_results {
        Some(results) => {
            let mut i: usize = 0;
            while i < results.parts.len()
                invariant
                    i <= results.parts.len(),
                    pn@ == query_manufacturer_pn@,
                    response.search_results == Some(*results),
                    first_match(results.parts@.take(i as int), pn@) is None,
                decreases results.parts.len() - i,
            {
                let part = &results.parts[i];
                let manufacturer_pn = text_of(&part.manufacturer_part_number);
                proof {
                    assert(results.parts@.take(i + 1).drop_last() =~= results.parts@.take(
                        i as int,
                    ));
                }
                if manufacturer_pn == pn {
                    proof {
                        lemma_first_match_extends(results.parts@, pn@, i as int);
                    }
                    return match &part.price_breaks {
                        Some(breaks) => Some(
                            MouserPart {
                                manufacturer: text_of(&part.manufacturer),
                                manufacturer_pn,
                                description: text_of(&part.description),
                                mouser_pn: text_of(&part.mouser_part_number),
                                product_url: text_of(&part.product_detail_url),
                                unit_price: unit_price_at(breaks, quantity),
                                availability: parse_availability(
                                    text_of(&part.availability).as_str(),
                                ),
                            },
                        ),
                        None => None,
                    };
                }
                i += 1;
            }
            assert(results.parts@.take(i as int) =~= results.parts@);
            None
        },
        None => None,
    }
}

/// A match found among the first parts of a list is the first match of the
/// whole list.
proof fn lemma_first_match_extends(parts: Seq<Part>, pn: Seq<char>, n: int)
    requires
        0 <= n < parts.len(),
        first_match(parts.take(n), pn) is None,
        text_or_empty(parts[n].manufacturer_part_number) == pn,
    ensures
        first_match(parts, pn) == Some(n),
{
    lemma_first_match(parts, pn);
    lemma_first_match(parts.take(n), pn);
    match first_match(parts, pn) {
        Some(i) => {
            if i < n {
                assert(parts.take(n)[i] == parts[i]);
            }
        },
        None => {},
    }
}

/// How often a search is sent again after the first attempt, at most.
pub const MAX_RETRIES: u32 = 15;

/// How one attempt to reach the vendor ended.
#[derive(Clone, Copy, Debug, PartialEq, Eq, Structural)]
pub enum Attempt {
    /// An answer with a status that reports success.
    Answered,
    /// An answer with any other status.
    Refused,
    /// No answer: the request did not get through.
    Failed,
}

/// What follows an attempt.
#[derive(Clone, Copy, Debug, PartialEq, Eq, Structural)]
pub enum Next {
    /// Read the body of the answer just received.
    Read,
    /// Wait `delay_ms` milliseconds and send the request again; `attempts`
    /// counts the retries, this one included.
    Retry { attempts: u32, delay_ms: u64 },
    /// Stop without an answer.
    GiveUp,
}

/// Two to the power `n`.
pub open spec fn pow2(n: nat) -> nat
    decreases n,
{
    if n == 0 {
        1
    } else {
        2 * pow2((n - 1) as nat)
    }
}

/// What follows an attempt that ended as `outcome` after `attempts`
/// retries. An answer that reports success is read. After anything else
/// the request is sent again, with a delay that doubles from retry to
/// retry, as long as fewer than `MAX_RETRIES` retries were made; after
/// that, the refusing answer is read as it is, and a request without answer
/// is given up.
pub open spec fn next_step(attempts: u32, outcome: Attempt) -> Next {
    if outcome == Attempt::Answered {
        Next::Read
    } else if attempts < MAX_RETRIES {
        Next::Retry { attempts: (attempts + 1) as u32, delay_ms: pow2((attempts + 1) as nat) as u64 }
    } else if outcome == Attempt::Refused {
        Next::Read
    } else {
        Next::GiveUp
    }
}

/// The delay before retry number `attempt`, in milliseconds.
pub fn backoff_ms(attempt: u32) -> (delay: u64)
    requires
        attempt <= MAX_RETRIES,
    ensures
        delay == pow2(attempt as nat),
        delay <= 32768,
{
    let mut delay: u64 = 1;
    let mut i: u32 = 0;
    while i < attempt
        invariant
            i <= attempt <= MAX_RETRIES,
            delay == pow2(i as nat),
        decreases attempt - i,
    {
        proof {
            lemma_pow2_grows(i as nat + 1, 15);
        }
        delay = delay * 2;
        i += 1;
    }
    proof {
        lemma_pow2_grows(attempt as nat, 15);
    }
    delay
}

proof fn lemma_pow2_grows(a: nat, b: nat)
    requires
        a <= b,
    ensures
        pow2(a) <= pow2(b),
        pow2(15) == 32768,
    decreases b,
{
    reveal_with_fuel(pow2, 16);
    if a < b {
        lemma_pow2_grows(a, (b - 1) as nat);
    }
}

/// What follows an attempt that ended as `outcome` after `attempts`
/// retries.
pub fn after_attempt(attempts: u32, outcome: Attempt) -> (next: Next)
    ensures
        next == next_step(attempts, outcome),
{
    match outcome {
        Attempt::Answered => Next::Read,
        Attempt::Refused => {
            if attempts < MAX_RETRIES {
                Next::Retry { attempts: attempts + 1, delay_ms: backoff_ms(attempts + 1) }
            } else {
                Next::Read
            }
        },
        Attempt::Failed => {
            if attempts < MAX_RETRIES {
                Next::Retry { attempts: attempts + 1, delay_ms: backoff_ms(attempts + 1) }
            } else {
                Next::GiveUp
            }
        },
    }
}

/// The attempt whose answer is read when a fresh search meets the outcomes
/// `outcomes` in turn, having made `attempts` retries before them: none
/// where the search is given up, or where the outcomes end before one is
/// read.
pub open spec fn attempt_read(outcomes: Seq<Attempt>, attempts: u32) -> Option<int>
    decreases outcomes.len(),
{
    if outcomes.len() == 0 {
        None
    } else {
        match next_step(attempts, outcomes[0]) {
            Next::Read => Some(0),
            Next::Retry { attempts: made, delay_ms: _ } => match attempt_read(
                outcomes.drop_first(),
                made,
            ) {
                Some(i) => Some(i + 1),
                None => None,
            },
            Next::GiveUp => None,
        }
    }
}

/// A vendor that refuses or fails the first attempts and then answers with
/// success has exactly that answer read, as long as it comes within the
/// first attempt and `MAX_RETRIES` retries.
pub proof fn lemma_success_is_read(outcomes: Seq<Attempt>, n: int)
    requires
        1 <= n <= MAX_RETRIES + 1,
        n <= outcomes.len(),
        forall|i: int| 0 <= i < n - 1 ==> outcomes[i] != Attempt::Answered,
        outcomes[n - 1] == Attempt::Answered,
    ensures
        attempt_read(outcomes, 0) == Some(n - 1),
{
    lemma_read_after(outcomes, 0, n);
}

/// A vendor that refuses the first attempt and every one of the
/// `MAX_RETRIES` retries has its last refusal read: the search ends
/// without giving up.
pub proof fn lemma_last_refusal_is_read(outcomes: Seq<Attempt>)
    requires
        outcomes.len() >= MAX_RETRIES + 1,
        forall|i: int| 0 <= i <= MAX_RETRIES ==> outcomes[i] == Attempt::Refused,
    ensures
        attempt_read(outcomes, 0) == Some(MAX_RETRIES as int),
{
    lemma_refusals(outcomes, 0);
}

proof fn lemma_read_after(outcomes: Seq<Attempt>, made: u32, n: int)
    requires
        1 <= n <= outcomes.len(),
        made + n <= MAX_RETRIES + 1,
        forall|i: int| 0 <= i < n - 1 ==> outcomes[i] != Attempt::Answered,
        outcomes[n - 1] == Attempt::Answered,
    ensures
        attempt_read(outcomes, made) == Some(n - 1),
    decreases n,
{
    if n > 1 {
        let rest = outcomes.drop_first();
        assert(outcomes[0] != Attempt::Answered);
        assert forall|i: int| 0 <= i < n - 2 implies rest[i] != Attempt::Answered by {
            assert(rest[i] == outcomes[i + 1]);
        }
        lemma_read_after(rest, (made + 1) as u32, n - 1);
    }
}

proof fn lemma_refusals(outcomes: Seq<Attempt>, made: u32)
    requires
        made <= MAX_RETRIES,
        outcomes.len() >= MAX_RETRIES + 1 - made,
        forall|i: int| 0 <= i <= MAX_RETRIES - made ==> outcomes[i] == Attempt::Refused,
    ensures
        attempt_read(outcomes, made) == Some(MAX_RETRIES - made),
    decreases MAX_RETRIES - made,
{
    assert(outcomes[0] == Attempt::Refused);
    if made < MAX_RETRIES {
        let rest = outcomes.drop_first();
        assert forall|i: int| 0 <= i <= MAX_RETRIES - made - 1 implies rest[i]
            == Attempt::Refused by {
            assert(rest[i] == outcomes[i + 1]);
        }
        lemma_refusals(rest, (made + 1) as u32);
    }
}

/// The body of an answer, as far as it could be read.
#[derive(Clone, Debug)]
pub enum Body {
    /// The body is no search answer; why not.
    Unreadable(String),
    /// A search answer.
    Answer(MouserResponse),
}

/// What a search has come to once a body was read.
#[derive(Clone, Debug)]
pub enum Found {
    /// The search is over, with this offer or none.
    Offer(Option<MouserPart>),
    /// The whole search is to be run once more, from the first attempt.
    SearchAgain,
    /// The search is over without an answer.
    Error(SearchError),
}

/// What a search for `quantity` pieces of the part numbered
/// `query_manufacturer_pn` comes to once the body of an answer was read.
/// A body that can be read gives its offer, whatever the status of the
/// answer. An unreadable body under a status that reports success has the
/// whole search run once more; if the search was run again already, it
/// ends with a parse error. An unreadable body under any other status ends
/// the search without an offer.
pub fn search_mouser(
    query_manufacturer_pn: &str,
    quantity: u32,
    answered: bool,
    body: &Body,
    searched_again: bool,
) -> (found: Found)
    ensures
        match *body {
            Body::Answer(response) => found matches Found::Offer(part) && match part {
                Some(p) => offered(response, query_manufacturer_pn@, quantity) == Some(p@),
                None => offered(response, query_manufacturer_pn@, quantity) is None,
            },
            Body::Unreadable(reason) => if !answered {
                found == Found::Offer(None)
            } else if !searched_again {
                found == Found::SearchAgain
            } else {
                found matches Found::Error(e) && e@ == SearchErrorView::Parse(reason@)
            },
        },
{
    match body {
        Body::Answer(response) => Found::Offer(
            select_offer(response, query_manufacturer_pn, quantity),
        ),
        Body::Unreadable(reason) => {
            if !answered {
                Found::Offer(None)
            } else if !searched_again {
                Found::SearchAgain
            } else {
                Found::Error(SearchError::Parse(reason.clone()))
            }
        },
    }
}

/// The body of the search for a manufacturer's part: the manufacturer and
/// the part number as the keyword, every record, no options.
pub fn search_request(query_manufacturer: &str, query_manufacturer_pn: &str) -> (body:
    KeywordSearchRequest)
    ensures
        body.request.keyword@ == query_manufacturer@ + " "@ + query_manufacturer_pn@,
        body.request.records == 0,
        body.request.starting_record == 0,
        body.request.search_options@ == Seq::<char>::empty(),
        body.request.search_with_your_sign_up_language@ == Seq::<char>::empty(),
{
    KeywordSearchRequest {
        request: InnerRequest {
            keyword: concat3(query_manufacturer, " ", query_manufacturer_pn),
            records: 0,
            starting_record: 0,
            search_options: String::new(),
            search_with_your_sign_up_language: String::new(),
        },
    }
}

/// The address of the keyword search for the holder of `api_key`.
pub fn search_url(api_key: &str) -> (url: String)
    ensures
        url@ == "https://api.mouser.com/api/v1/search/keyword?apiKey="@ + api_key@,
{
    concat("https://api.mouser.com/api/v1/search/keyword?apiKey=", api_key)
}

} // verus!
