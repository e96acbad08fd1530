//! Requests to and answers from the Digi-Key product search.

use crate::price::last_applicable;
use crate::price::last_applicable_break;
use crate::price::lemma_last_applicable;
use crate::price::Price;
use std::cmp::Ordering;
use vstd::prelude::*;

verus! {

/// The answer of the token endpoint.
#[derive(Clone, Debug)]
pub struct TokenResponse {
    pub access_token: String,
    pub token_type: String,
    pub expires_in: u64,
}

/// The body of a keyword search request.
#[derive(Clone, Debug)]
pub struct DigiKeyRequestBody {
    pub keywords: String,
    pub limit: u32,
    pub offset: u32,
    pub filter_options_request: FilterOptionsRequest,
    pub sort_options: SortOptions,
}

#[derive(Clone, Debug)]
pub struct SortOptions {
    pub field: String,
    pub sort_order: String,
}

#[derive(Clone, Debug)]
pub struct FilterOptionsRequest {
    pub minimum_quantity_available: u32,
    pub market_place_filter: String,
}

/// The answer to a keyword search.
#[derive(Clone, Debug)]
pub struct DigiKeySearchResult {
    pub products: Vec<Product>,
    pub products_count: u32,
    pub exact_matches: Vec<Product>,
}

#[derive(Clone, Debug)]
pub struct Product {
    pub description: ProductDescription,
    pub manufacturer: Manufacturer,
    pub manufacturer_product_number: String,
    pub product_url: String,
    pub datasheet_url: Option<String>,
    pub quantity_available: u32,
    pub product_variations: Vec<ProductVariation>,
}

#[derive(Clone, Debug)]
pub struct ProductDescription {
    pub product_description: String,
    pub detailed_description: String,
}

#[derive(Clone, Debug)]
pub struct Manufacturer {
    pub id: i32,
    pub name: String,
}

/// One way of buying a product: a package type with its own stock, minimum
/// order and price list.
#[derive(Clone, Debug)]
pub struct ProductVariation {
    pub digi_key_product_number: String,
    pub standard_pricing: Option<Vec<PriceBreak>>,
    pub quantity_availablefor_package_type: u32,
    pub minimum_order_quantity: u32,
}

/// From `break_quantity` pieces on, one piece costs `unit_price`.
#[derive(Clone, Copy, Debug, PartialEq, Eq, Structural)]
pub struct PriceBreak {
    pub break_quantity: u32,
    pub unit_price: Price,
    pub total_price: Price,
}

/// What Digi-Key offers for one requested part.
#[derive(Clone, Debug)]
pub struct DigiKeyPart {
    pub manufacturer: String,
    pub manufacturer_pn: String,
    pub description: String,
    pub digikey_pn: String,
    pub product_url: String,
    pub unit_price: Price,
    pub availability: u32,
}

/// A Digi-Key offer as plain values.
pub struct DigiKeyPartView {
    pub manufacturer: Seq<char>,
    pub manufacturer_pn: Seq<char>,
    pub description: Seq<char>,
    pub digikey_pn: Seq<char>,
    pub product_url: Seq<char>,
    pub unit_price: int,
    pub availability: int,
}

impl View for DigiKeyPart {
    type V = DigiKeyPartView;

    open spec fn view(&self) -> DigiKeyPartView {
        DigiKeyPartView {
            manufacturer: self.manufacturer@,
            manufacturer_pn: self.manufacturer_pn@,
            description: self.description@,
            digikey_pn: self.digikey_pn@,
            product_url: self.product_url@,
            unit_price: self.unit_price@,
            availability: self.availability as int,
        }
    }
}

/// The quantities from which the breaks apply, in the order of the breaks.
pub open spec fn break_quantities(breaks: Seq<PriceBreak>) -> Seq<u32> {
    breaks.map_values(|b: PriceBreak| b.break_quantity)
}

/// The unit price that `breaks` gives for `quantity` pieces: that of the
/// last break that applies, absent where none does.
pub open spec fn resolved_price(breaks: Seq<PriceBreak>, quantity: u32) -> Option<Price> {
    match last_applicable(break_quantities(breaks), quantity) {
        Some(i) => Some(breaks[i].unit_price),
        None => None,
    }
}

/// Whether the breaks stand in ascending order of their quantities.
pub open spec fn ascending(breaks: Seq<PriceBreak>) -> bool {
    forall|i: int, j: int|
        0 <= i <= j < breaks.len() ==> breaks[i].break_quantity <= breaks[j].break_quantity
}

/// The quantities from which the breaks apply.
fn quantities_of(breaks: &Vec<PriceBreak>) -> (quantities: Vec<u32>)
    ensures
        quantities@ == break_quantities(breaks@),
{
    let mut quantities: Vec<u32> = Vec::new();
    let mut i: usize = 0;
    while i < breaks.len()
        invariant
            i <= breaks.len(),
            quantities@ == break_quantities(breaks@.take(i as int)),
        decreases breaks.len() - i,
    {
        quantities.push(breaks[i].break_quantity);
        assert(quantities@ =~= break_quantities(breaks@.take(i + 1)));
        i += 1;
    }
    assert(breaks@.take(i as int) =~= breaks@);
    quantities
}

/// The unit price of a list of breaks at `quantity` pieces.
pub fn resolve_unit_price(breaks: &Vec<PriceBreak>, quantity: u32) -> (price: Option<Price>)
    ensures
        price == resolved_price(breaks@, quantity),
{
    let quantities = quantities_of(breaks);
    proof {
        lemma_last_applicable(quantities@, quantity);
    }
    match last_applicable_break(&quantities, quantity) {
        Some(i) => Some(breaks[i].unit_price),
        None => None,
    }
}

/// On a price list in ascending order of quantity, the resolved unit price
/// is that of the highest break at or below the requested quantity: every
/// break at or below it stands no later and asks no more pieces. Where no
/// break is at or below the requested quantity, no price is resolved.
pub proof fn lemma_resolved_price_is_highest_break(breaks: Seq<PriceBreak>, quantity: u32)
    requires
        ascending(breaks),
    ensures
        match resolved_price(breaks, quantity) {
            Some(price) => exists|i: int|
                {
                    &&& 0 <= i < breaks.len()
                    &&& price == breaks[i].unit_price
                    &&& #[trigger] breaks[i].break_quantity <= quantity
                    &&& forall|j: int|
                        0 <= j < breaks.len() && breaks[j].break_quantity <= quantity ==> j <= i
                            && breaks[j].break_quantity <= breaks[i].break_quantity
                },
            None => forall|j: int| 0 <= j < breaks.len() ==> breaks[j].break_quantity > quantity,
        },
{
    let quantities = break_quantities(breaks);
    lemma_last_applicable(quantities, quantity);
    assert forall|j: int| 0 <= j < breaks.len() implies quantities[j]
        == #[trigger] breaks[j].break_quantity by {}
    match last_applicable(quantities, quantity) {
        Some(i) => {
            assert(breaks[i].break_quantity <= quantity);
            assert forall|j: int|
                0 <= j < breaks.len() && breaks[j].break_quantity <= quantity implies j <= i
                && breaks[j].break_quantity <= breaks[i].break_quantity by {
                assert(quantities[j] <= quantity);
            }
        },
        None => {
            assert forall|j: int| 0 <= j < breaks.len() implies breaks[j].break_quantity
                > quantity by {
                assert(quantities[j] > quantity);
            }
        },
    }
}

impl ProductVariation {
    /// The unit price of this variation at `quantity` pieces, as a value of
    /// the model: what its price list resolves to; absent without a price
    /// list, and where the list has no break that applies.
    pub open spec fn price_at(self, quantity: u32) -> Option<Price> {
        match self.standard_pricing {
            Some(breaks) => resolved_price(breaks@, quantity),
            None => None,
        }
    }

    /// The unit price at `quantity` pieces, absent where none is resolved.
    pub fn get_price(&self, quantity: u32) -> (price: Option<Price>)
        ensures
            price == self.price_at(quantity),
    {
        match &self.standard_pricing {
            Some(breaks) => resolve_unit_price(breaks, quantity),
            None => None,
        }
    }
}

/// Two variations count as equal where they cost the same at quantity
/// zero, or both have no price there.
impl PartialEq for ProductVariation {
    fn eq(&self, other: &Self) -> (r: bool) {
        match (self.get_price(0), other.get_price(0)) {
            (Some(a), Some(b)) => a.micros == b.micros,
            (None, None) => true,
            _ => false,
        }
    }
}

impl vstd::std_specs::cmp::PartialEqSpecImpl for ProductVariation {
    open spec fn obeys_eq_spec() -> bool {
        true
    }

    open spec fn eq_spec(&self, other: &Self) -> bool {
        self.price_at(0) == other.price_at(0)
    }
}

impl Eq for ProductVariation {

}

/// Variations are ordered by what they cost at quantity zero; one without
/// a price there comes after every one that has one.
impl PartialOrd for ProductVariation {
    fn partial_cmp(&self, other: &Self) -> (r: Option<Ordering>) {
        match (self.get_price(0), other.get_price(0)) {
            (Some(a), Some(b)) => {
                if a.micros < b.micros {
                    Some(Ordering::Less)
                } else if a.micros == b.micros {
                    Some(Ordering::Equal)
                } else {
                    Some(Ordering::Greater)
                }
            },
            (Some(_), None) => Some(Ordering::Less),
            (None, Some(_)) => Some(Ordering::Greater),
            (None, None) => Some(Ordering::Equal),
        }
    }
}

impl vstd::std_specs::cmp::PartialOrdSpecImpl for ProductVariation {
    open spec fn obeys_partial_cmp_spec() -> bool {
        true
    }

    open spec fn partial_cmp_spec(&self, other: &Self) -> Option<Ordering> {
        match (self.price_at(0), other.price_at(0)) {
            (Some(a), Some(b)) => {
                if a.micros < b.micros {
                    Some(Ordering::Less)
                } else if a.micros == b.micros {
                    Some(Ordering::Equal)
                } else {
                    Some(Ordering::Greater)
                }
            },
            (Some(_), None) => Some(Ordering::Less),
            (None, Some(_)) => Some(Ordering::Greater),
            (None, None) => Some(Ordering::Equal),
        }
    }
}

} // verus!
