//! Requests to and answers from the Mouser keyword search.

use crate::price::Price;
use vstd::prelude::*;

verus! {

/// The body of a keyword search request.
#[derive(Clone, Debug)]
pub struct KeywordSearchRequest {
    pub request: InnerRequest,
}

#[derive(Clone, Debug)]
pub struct InnerRequest {
    pub keyword: String,
    pub records: u32,
    pub starting_record: u32,
    pub search_options: String,
    pub search_with_your_sign_up_language: String,
}

/// The answer to a keyword search.
#[derive(Clone, Debug)]
pub struct MouserResponse {
    pub search_results: Option<SearchResults>,
}

#[derive(Clone, Debug)]
pub struct SearchResults {
    pub parts: Vec<Part>,
}

/// One part of an answer, as the vendor words it.
#[derive(Clone, Debug)]
pub struct Part {
    pub manufacturer: Option<String>,
    pub manufacturer_part_number: Option<String>,
    pub description: Option<String>,
    pub mouser_part_number: Option<String>,
    pub product_detail_url: Option<String>,
    pub price_breaks: Option<Vec<PriceBreak>>,
    pub availability: Option<String>,
}

/// From `quantity` pieces on, one piece costs what `price` writes, such as
/// "1,23 €".
#[derive(Clone, Debug)]
pub struct PriceBreak {
    pub quantity: u32,
    pub price: String,
    pub currency: String,
}

/// What Mouser offers for one requested part.
#[derive(Clone, Debug)]
pub struct MouserPart {
    pub manufacturer: String,
    pub manufacturer_pn: String,
    pub description: String,
    pub mouser_pn: String,
    pub product_url: String,
    pub unit_price: Price,
    pub availability: u32,
}

/// A Mouser offer as plain values.
pub struct MouserPartView {
    pub manufacturer: Seq<char>,
    pub manufacturer_pn: Seq<char>,
    pub description: Seq<char>,
    pub mouser_pn: Seq<char>,
    pub product_url: Seq<char>,
    pub unit_price: int,
    pub availability: int,
}

impl View for MouserPart {
    type V = MouserPartView;

    open spec fn view(&self) -> MouserPartView {
        MouserPartView {
            manufacturer: self.manufacturer@,
            manufacturer_pn: self.manufacturer_pn@,
            description: self.description@,
            mouser_pn: self.mouser_pn@,
            product_url: self.product_url@,
            unit_price: self.unit_price@,
            availability: self.availability as int,
        }
    }
}

} // verus!
