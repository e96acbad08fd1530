//! The Digi-Key side of sourcing: which of the products that a search
//! returned is offered for a requested part.

use crate::data::errors::SearchError;
use crate::data::errors::SearchErrorView;
use crate::models::digikey_api_models::DigiKeyPart;
use crate::models::digikey_api_models::DigiKeyPartView;
use crate::models::digikey_api_models::DigiKeyRequestBody;
use crate::models::digikey_api_models::DigiKeySearchResult;
use crate::models::digikey_api_models::FilterOptionsRequest;
use crate::models::digikey_api_models::Product;
use crate::models::digikey_api_models::ProductVariation;
use crate::models::digikey_api_models::SortOptions;
use crate::models::digikey_api_models::TokenResponse;
use crate::price::Price;
use crate::text::concat;
use crate::text::concat3;
use crate::text::decimal;
use crate::text::decimal_string;
use vstd::prelude::*;

verus! {

/// Whether variation `j` of product `i` can serve a request for `quantity`
/// pieces of the part numbered `pn`: the product carries exactly that part
/// number, the variation has the pieces in stock and sells that few.
pub open spec fn is_candidate(
    products: Seq<Product>,
    pn: Seq<char>,
    quantity: u32,
    i: int,
    j: int,
) -> bool {
    &&& 0 <= i < products.len()
    &&& products[i].manufacturer_product_number@ == pn
    &&& 0 <= j < products[i].product_variations@.len()
    &&& products[i].product_variations@[j].quantity_availablefor_package_type >= quantity
    &&& products[i].product_variations@[j].minimum_order_quantity <= quantity
}

/// The rank of a variation among the candidates, lower being better: its
/// unit price at quantity zero; a variation whose price is not resolved
/// there ranks behind every variation that has one, and is never taken
/// for free.
pub open spec fn rank(variation: ProductVariation) -> int {
    match variation.price_at(0) {
        Some(price) => price@,
        None => u64::MAX + 1,
    }
}

/// Whether variation `j` of product `i` is the one offered: a candidate of
/// the lowest rank and, among those, the first in the order of the answer.
pub open spec fn is_chosen(
    products: Seq<Product>,
    pn: Seq<char>,
    quantity: u32,
    i: int,
    j: int,
) -> bool {
    &&& is_candidate(products, pn, quantity, i, j)
    &&& forall|i2: int, j2: int| #[trigger]
        is_candidate(products, pn, quantity, i2, j2) ==> {
            let mine = rank(products[i].product_variations@[j]);
            let other = rank(products[i2].product_variations@[j2]);
            mine < other || (mine == other && (i < i2 || (i == i2 && j <= j2)))
        }
}

/// The offer made from a product and one of its variations for `quantity`
/// pieces: the product's names and total stock, the variation's Digi-Key
/// part number, and the variation's unit price at `quantity` pieces, zero
/// where it has none.
pub open spec fn offer_of(product: Product, variation: ProductVariation, quantity: u32)
    -> DigiKeyPartView {
    DigiKeyPartView {
        manufacturer: product.manufacturer.name@,
        manufacturer_pn: product.manufacturer_product_number@,
        description: product.description.product_description@,
        digikey_pn: variation.digi_key_product_number@,
        product_url: product.product_url@,
        unit_price: match variation.price_at(quantity) {
            Some(price) => price@,
            None => 0,
        },
        availability: product.quantity_available as int,
    }
}

/// Whether rank `a` is strictly better than rank `b`, each given as the
/// price at quantity zero.
fn ranks_before(a: &Option<Price>, b: &Option<Price>) -> (before: bool)
    ensures
        before == (match (*a, *b) {
            (Some(x), Some(y)) => x@ < y@,
            (Some(_), None) => true,
            (None, _) => false,
        }),
{
    match (a, b) {
        (Some(x), Some(y)) => x.is_less_than(y),
        (Some(_), None) => true,
        (None, _) => false,
    }
}

/// Whether `part` is what the products of a search answer offer for
/// `quantity` pieces of the part numbered `pn`: the offer made from the
/// chosen candidate, and none exactly where there is no candidate.
pub open spec fn is_offer(
    products: Seq<Product>,
    pn: Seq<char>,
    quantity: u32,
    part: Option<DigiKeyPartView>,
) -> bool {
    match part {
        Some(p) => exists|i: int, j: int|
            #![trigger is_chosen(products, pn, quantity, i, j)]
            is_chosen(products, pn, quantity, i, j) && p == offer_of(
                products[i],
                products[i].product_variations@[j],
                quantity,
            ),
        None => forall|i: int, j: int| !is_candidate(products, pn, quantity, i, j),
    }
}

/// The view of an optional offer.
pub open spec fn offer_view(part: Option<DigiKeyPart>) -> Option<DigiKeyPartView> {
    match part {
        Some(p) => Some(p@),
        None => None,
    }
}

/// The offer for `quantity` pieces of the part numbered
/// `query_manufacturer_pn` among the products of a search answer.
pub fn select_offer(products: &Vec<Product>, query_manufacturer_pn: &str, quantity: u32) -> (part:
    Option<DigiKeyPart>)
    ensures
        is_offer(products@, query_manufacturer_pn@, quantity, offer_view(part)),
{
    let pn = query_manufacturer_pn.to_owned();
    let ghost ps = products@;
    let ghost want = query_manufacturer_pn@;
    let mut best: Option<(usize, usize)> = None;
    let mut best_rank: Option<Price> = None;
    let mut i: usize = 0;
    while i < products.len()
        invariant
            i <= products.len(),
            ps == products@,
            want == pn@,
            match best {
                Some((bi, bj)) => {
                    &&& is_candidate(ps, want, quantity, bi as int, bj as int)
                    &&& bi < i
                    &&& best_rank == ps[bi as int].product_variations@[bj as int].price_at(0)
                    &&& forall|i2: int, j2: int| #[trigger]
                        is_candidate(ps, want, quantity, i2, j2) && i2 < i ==> {
                            let mine = rank(ps[bi as int].product_variations@[bj as int]);
                            let other = rank(ps[i2].product_variations@[j2]);
                            mine < other || (mine == other && (bi < i2 || (bi == i2 && bj <= j2)))
                        }
                },
                None => forall|i2: int, j2: int| #[trigger]
                    is_candidate(ps, want, quantity, i2, j2) ==> i2 >= i,
            },
        decreases products.len() - i,
    {
        let product = &products[i];
        if product.manufacturer_product_number == pn {
            let mut j: usize = 0;
            while j < product.product_variations.len()
                invariant
                    i < products.len(),
                    ps == products@,
                    want == pn@,
                    product == ps[i as int],
                    product.manufacturer_product_number@ == want,
                    j <= product.product_variations.len(),
                    match best {
                        Some((bi, bj)) => {
                            &&& is_candidate(ps, want, quantity, bi as int, bj as int)
                            &&& (bi < i || (bi == i && bj < j))
                            &&& best_rank == ps[bi as int].product_variations@[bj as int].price_at(
                                0,
                            )
                            &&& forall|i2: int, j2: int| #[trigger]
                                is_candidate(ps, want, quantity, i2, j2) && (i2 < i || (i2 == i
                                    && j2 < j)) ==> {
                                    let mine = rank(ps[bi as int].product_variations@[bj as int]);
                                    let other = rank(ps[i2].product_variations@[j2]);
                                    mine < other || (mine == other && (bi < i2 || (bi == i2 && bj
                                        <= j2)))
                                }
                        },
                        None => forall|i2: int, j2: int| #[trigger]
                            is_candidate(ps, want, quantity, i2, j2) ==> i2 > i || (i2 == i && j2
                                >= j),
                    },
                decreases product.product_variations.len() - j,
            {
                let variation = &product.product_variations[j];
                if variation.quantity_availablefor_package_type >= quantity
                    && variation.minimum_order_quantity <= quantity {
                    let r = variation.get_price(0);
                    let better = match best {
                        Some(_) => ranks_before(&r, &best_rank),
                        None => true,
                    };
                    if better {
                        best = Some((i, j));
                        best_rank = r;
                    }
                }
                j += 1;
            }
        }
        i += 1;
    }
    match best {
        Some((bi, bj)) => {
            let product = &products[bi];
            let variation = &product.product_variations[bj];
            let unit_price = match variation.get_price(quantity) {
                Some(price) => price,
                None => Price::zero(),
            };
            let part = DigiKeyPart {
                manufacturer: product.manufacturer.name.clone(),
                manufacturer_pn: product.manufacturer_product_number.clone(),
                description: product.description.product_description.clone(),
                digikey_pn: variation.digi_key_product_number.clone(),
                product_url: product.product_url.clone(),
                unit_price,
                availability: product.quantity_available,
            };
            assert(is_chosen(ps, want, quantity, bi as int, bj as int));
            Some(part)
        },
        None => None,
    }
}

/// At most one offer answers a request: two offers that the same products
/// make for the same request are equal.
pub proof fn lemma_offer_is_unique(
    products: Seq<Product>,
    pn: Seq<char>,
    quantity: u32,
    a: Option<DigiKeyPartView>,
    b: Option<DigiKeyPartView>,
)
    requires
        is_offer(products, pn, quantity, a),
        is_offer(products, pn, quantity, b),
    ensures
        a == b,
{
    match (a, b) {
        (Some(x), Some(y)) => {
            let (i, j) = choose|i: int, j: int|
                #![trigger is_chosen(products, pn, quantity, i, j)]
                is_chosen(products, pn, quantity, i, j) && x == offer_of(
                    products[i],
                    products[i].product_variations@[j],
                    quantity,
                );
            let (i2, j2) = choose|i: int, j: int|
                #![trigger is_chosen(products, pn, quantity, i, j)]
                is_chosen(products, pn, quantity, i, j) && y == offer_of(
                    products[i],
                    products[i].product_variations@[j],
                    quantity,
                );
            assert(is_candidate(products, pn, quantity, i, j));
            assert(is_candidate(products, pn, quantity, i2, j2));
        },
        (Some(x), None) => {
            let (i, j) = choose|i: int, j: int|
                #![trigger is_chosen(products, pn, quantity, i, j)]
                is_chosen(products, pn, quantity, i, j) && x == offer_of(
                    products[i],
                    products[i].product_variations@[j],
                    quantity,
                );
            assert(is_candidate(products, pn, quantity, i, j));
        },
        (None, Some(y)) => {
            let (i, j) = choose|i: int, j: int|
                #![trigger is_chosen(products, pn, quantity, i, j)]
                is_chosen(products, pn, quantity, i, j) && y == offer_of(
                    products[i],
                    products[i].product_variations@[j],
                    quantity,
                );
            assert(is_candidate(products, pn, quantity, i, j));
        },
        (None, None) => {},
    }
}

/// What is offered is what was asked for: the offer carries the requested
/// part number, and comes from a variation that has the requested pieces
/// in stock and sells that few.
pub proof fn lemma_offer_serves_request(
    products: Seq<Product>,
    pn: Seq<char>,
    quantity: u32,
    part: DigiKeyPartView,
)
    requires
        is_offer(products, pn, quantity, Some(part)),
    ensures
        part.manufacturer_pn == pn,
        exists|i: int, j: int|
            #![trigger is_candidate(products, pn, quantity, i, j)]
            is_candidate(products, pn, quantity, i, j) && part.digikey_pn
                == products[i].product_variations@[j].digi_key_product_number@
                && part.availability == products[i].quantity_available as int,
{
    let (i, j) = choose|i: int, j: int|
        #![trigger is_chosen(products, pn, quantity, i, j)]
        is_chosen(products, pn, quantity, i, j) && part == offer_of(
            products[i],
            products[i].product_variations@[j],
            quantity,
        );
    assert(is_candidate(products, pn, quantity, i, j));
}

/// How many products a search asks for at most.
pub const SEARCH_LIMIT: u32 = 20;

/// The body of the search for `quantity` pieces of a manufacturer's part:
/// the manufacturer and the part number as keywords, the first
/// `SEARCH_LIMIT` products, only those with `quantity` pieces in stock, in
/// the vendor's own order.
pub fn search_request(query_manufacturer: &str, query_manufacturer_pn: &str, quantity: u32) -> (body:
    DigiKeyRequestBody)
    ensures
        body.keywords@ == query_manufacturer@ + " "@ + query_manufacturer_pn@,
        body.limit == SEARCH_LIMIT,
        body.offset == 0,
        body.filter_options_request.minimum_quantity_available == quantity,
        body.filter_options_request.market_place_filter@ == "NoFilter"@,
        body.sort_options.field@ == "None"@,
        body.sort_options.sort_order@ == "Ascending"@,
{
    DigiKeyRequestBody {
        keywords: concat3(query_manufacturer, " ", query_manufacturer_pn),
        limit: SEARCH_LIMIT,
        offset: 0,
        filter_options_request: FilterOptionsRequest {
            minimum_quantity_available: quantity,
            market_place_filter: String::from_str("NoFilter"),
        },
        sort_options: SortOptions {
            field: String::from_str("None"),
            sort_order: String::from_str("Ascending"),
        },
    }
}

/// Where the keyword search is asked.
pub fn search_url() -> (url: &'static str)
    ensures
        url@ == "https://api.digikey.com/products/v4/search/keyword"@,
{
    "https://api.digikey.com/products/v4/search/keyword"
}

/// Where access tokens are asked for.
pub fn token_url() -> (url: &'static str)
    ensures
        url@ == "https://api.digikey.com/v1/oauth2/token"@,
{
    "https://api.digikey.com/v1/oauth2/token"
}

/// How many seconds a request to a vendor may take.
pub const REQUEST_TIMEOUT: u64 = 100;

/// The headers of a search, as names and values: the client, the locale
/// (English, euro, the Italian site), JSON both ways, and the access
/// token as bearer.
pub open spec fn search_header_texts(client_id: Seq<char>, token: Seq<char>) -> Seq<
    (Seq<char>, Seq<char>),
> {
    seq![
        ("X-DIGIKEY-Client-Id"@, client_id),
        ("X-DIGIKEY-Locale-Language"@, "en"@),
        ("X-DIGIKEY-Locale-Currency"@, "EUR"@),
        ("X-DIGIKEY-Locale-Site"@, "IT"@),
        ("accept"@, "application/json"@),
        ("Content-Type"@, "application/json"@),
        ("Authorization"@, "Bearer "@ + token),
    ]
}

/// The texts of a list of headers.
pub open spec fn header_texts(headers: Seq<(String, String)>) -> Seq<(Seq<char>, Seq<char>)> {
    Seq::new(headers.len(), |i: int| (headers[i].0@, headers[i].1@))
}

/// The headers of a search by the client `client_id` that holds `token`.
pub fn search_headers(client_id: &str, token: &str) -> (headers: Vec<(String, String)>)
    ensures
        header_texts(headers@) == search_header_texts(client_id@, token@),
{
    let mut headers: Vec<(String, String)> = Vec::new();
    headers.push((String::from_str("X-DIGIKEY-Client-Id"), String::from_str(client_id)));
    headers.push((String::from_str("X-DIGIKEY-Locale-Language"), String::from_str("en")));
    headers.push((String::from_str("X-DIGIKEY-Locale-Currency"), String::from_str("EUR")));
    headers.push((String::from_str("X-DIGIKEY-Locale-Site"), String::from_str("IT")));
    headers.push((String::from_str("accept"), String::from_str("application/json")));
    headers.push((String::from_str("Content-Type"), String::from_str("application/json")));
    headers.push((String::from_str("Authorization"), concat("Bearer ", token)));
    assert(header_texts(headers@) =~= search_header_texts(client_id@, token@));
    headers
}

/// The form that asks the token endpoint for an access token.
pub fn token_request(client_id: &str, client_secret: &str) -> (form: String)
    ensures
        form@ == "client_id="@ + client_id@ + "&client_secret="@ + client_secret@
            + "&grant_type=client_credentials"@,
{
    let mut form = String::from_str("client_id=");
    form.append(client_id);
    form.append("&client_secret=");
    form.append(client_secret);
    form.append("&grant_type=client_credentials");
    form
}

/// Whether an HTTP status reports success.
pub open spec fn status_is_success(status: u16) -> bool {
    200 <= status < 300
}

/// Whether an HTTP status reports success.
pub fn is_success(status: u16) -> (ok: bool)
    ensures
        ok == status_is_success(status),
{
    200 <= status && status < 300
}

/// How many seconds before its announced end a token stops being used, so
/// that no request in flight carries a token that has just run out.
pub const EXPIRY_MARGIN: u64 = 60;

/// An access token and the time, in seconds of the caller's clock, from
/// which it is no longer used.
#[derive(Clone, Debug)]
pub struct TokenCache {
    pub token: String,
    pub expires_at: u64,
}

/// Whether the cache holds a token that may be used at time `now`.
pub open spec fn holds_fresh_token(cache: Option<TokenCache>, now: u64) -> bool {
    cache matches Some(c) && now < c.expires_at
}

/// The cached token, as long as it may be used at time `now`: a token is
/// never handed out from its expiry on.
pub fn cached_token(cache: &Option<TokenCache>, now: u64) -> (token: Option<String>)
    ensures
        token is Some <==> holds_fresh_token(*cache, now),
        token matches Some(t) ==> t@ == cache->0.token@,
{
    match cache {
        Some(c) => {
            if now < c.expires_at {
                Some(c.token.clone())
            } else {
                None
            }
        },
        None => None,
    }
}

/// The time from which a token received at `now` with a lifetime of
/// `expires_in` seconds is no longer used: its lifetime less the margin
/// after `now`, at the latest the last second that the clock can show.
pub open spec fn expiry(now: u64, expires_in: u64) -> u64 {
    let lifetime = if expires_in >= EXPIRY_MARGIN {
        expires_in - EXPIRY_MARGIN
    } else {
        0
    };
    if now + lifetime <= u64::MAX {
        (now + lifetime) as u64
    } else {
        u64::MAX
    }
}

/// Whether `cache` is what the cache holds after `response` was granted at
/// time `now`.
pub open spec fn is_granted(cache: TokenCache, response: TokenResponse, now: u64) -> bool {
    cache.token@ == response.access_token@ && cache.expires_at == expiry(now, response.expires_in)
}

/// Once a token was granted, whoever looks into the cache before its
/// expiry finds that very token there and has no need to ask for another;
/// from the expiry on nobody is handed it. Where the lifetime is a minute
/// or more, the expiry comes a minute before the announced end.
pub proof fn lemma_granted_token_is_shared(
    cache: TokenCache,
    response: TokenResponse,
    now: u64,
    later: u64,
)
    requires
        is_granted(cache, response, now),
    ensures
        holds_fresh_token(Some(cache), later) <==> later < expiry(now, response.expires_in),
        response.expires_in >= EXPIRY_MARGIN && now + response.expires_in - EXPIRY_MARGIN
            <= u64::MAX ==> expiry(now, response.expires_in) == now + response.expires_in
            - EXPIRY_MARGIN,
        response.expires_in <= EXPIRY_MARGIN ==> !holds_fresh_token(Some(cache), now),
{
}

/// Whether `after` is what the cache holds once a caller had its turn at
/// time `now` on the cache `before`, every exchange being granted as
/// `response`: the caller looks for a fresh token first, as `cached_token`
/// does, and leaves the cache as it is where it finds one; only where it
/// finds none does it exchange, and the cache then holds what
/// `refresh_token` puts there.
pub open spec fn is_turn(
    before: Option<TokenCache>,
    after: Option<TokenCache>,
    now: u64,
    response: TokenResponse,
) -> bool {
    if holds_fresh_token(before, now) {
        after == before
    } else {
        after matches Some(c) && is_granted(c, response, now)
    }
}

/// The token that a caller is handed whose turn at time `now` took the
/// cache from `before` to `after`: the cached one where it was fresh, else
/// the one that the exchange put there.
pub open spec fn token_handed(before: Option<TokenCache>, after: Option<TokenCache>, now: u64)
    -> Seq<char> {
    if holds_fresh_token(before, now) {
        before->0.token@
    } else {
        after->0.token@
    }
}

/// Callers that find no fresh token take their turns on the cache one
/// after the other, each looking again before it exchanges. Where the
/// first of them finds no fresh token and the others have their turn
/// before the expiry of the token that the first was granted, only the
/// first exchanges: every later caller finds a fresh token, and all of
/// them are handed the token of that one exchange.
pub proof fn lemma_one_exchange_serves_all(
    caches: Seq<Option<TokenCache>>,
    times: Seq<u64>,
    response: TokenResponse,
)
    requires
        times.len() >= 1,
        caches.len() == times.len() + 1,
        !holds_fresh_token(caches[0], times[0]),
        forall|i: int|
            0 <= i < times.len() ==> is_turn(
                #[trigger] caches[i],
                caches[i + 1],
                times[i],
                response,
            ),
        forall|i: int|
            1 <= i < times.len() ==> #[trigger] times[i] < expiry(times[0], response.expires_in),
    ensures
        forall|i: int| 1 <= i < times.len() ==> holds_fresh_token(#[trigger] caches[i], times[i]),
        forall|i: int|
            0 <= i < times.len() ==> token_handed(#[trigger] caches[i], caches[i + 1], times[i])
                == response.access_token@,
{
    assert forall|i: int| 1 <= i < times.len() implies holds_fresh_token(
        #[trigger] caches[i],
        times[i],
    ) by {
        lemma_turns_keep_the_grant(caches, times, response, i);
    }
    assert forall|i: int| 0 <= i < times.len() implies token_handed(
        #[trigger] caches[i],
        caches[i + 1],
        times[i],
    ) == response.access_token@ by {
        if i >= 1 {
            lemma_turns_keep_the_grant(caches, times, response, i);
        } else {
            assert(is_turn(caches[0], caches[1], times[0], response));
        }
    }
}

/// After the first turn and any number of later ones, the cache still
/// holds what the first caller was granted.
proof fn lemma_turns_keep_the_grant(
    caches: Seq<Option<TokenCache>>,
    times: Seq<u64>,
    response: TokenResponse,
    n: int,
)
    requires
        1 <= n <= times.len(),
        caches.len() == times.len() + 1,
        !holds_fresh_token(caches[0], times[0]),
        forall|i: int|
            0 <= i < times.len() ==> is_turn(
                #[trigger] caches[i],
                caches[i + 1],
                times[i],
                response,
            ),
        forall|i: int|
            1 <= i < times.len() ==> #[trigger] times[i] < expiry(times[0], response.expires_in),
    ensures
        caches[n] matches Some(c) && is_granted(c, response, times[0]),
    decreases n,
{
    if n == 1 {
        assert(is_turn(caches[0], caches[1], times[0], response));
    } else {
        lemma_turns_keep_the_grant(caches, times, response, n - 1);
        assert(is_turn(caches[n - 1], caches[n], times[n - 1], response));
        assert(times[n - 1] < expiry(times[0], response.expires_in));
    }
}

/// How the token endpoint answered.
#[derive(Clone, Debug)]
pub enum TokenReply {
    /// No answer: the request did not get through.
    Failed(String),
    /// An answer that does not report success, with its body.
    Refused(String),
    /// An answer that reports success with a body that is no token.
    Unreadable(String),
    /// A token.
    Granted(TokenResponse),
}

/// What a caller gets after the token endpoint answered at time `now`, and
/// what the cache holds from then on. A granted token is cached until its
/// expiry and returned; every other answer is an authentication error that
/// carries the answer's text, and leaves the cache as it was.
pub fn refresh_token(cache: &mut Option<TokenCache>, reply: &TokenReply, now: u64) -> (token: Result<
    String,
    SearchError,
>)
    ensures
        match *reply {
            TokenReply::Granted(response) => {
                &&& token matches Ok(t) && t@ == response.access_token@
                &&& *final(cache) matches Some(c) && is_granted(c, response, now)
            },
            TokenReply::Refused(body) => {
                &&& token matches Err(e) && e@ == SearchErrorView::Auth(
                    "Failed to get Digi-Key token: "@ + body@,
                )
                &&& *final(cache) == *old(cache)
            },
            TokenReply::Failed(reason) => {
                &&& token matches Err(e) && e@ == SearchErrorView::Auth(reason@)
                &&& *final(cache) == *old(cache)
            },
            TokenReply::Unreadable(reason) => {
                &&& token matches Err(e) && e@ == SearchErrorView::Auth(reason@)
                &&& *final(cache) == *old(cache)
            },
        },
{
    match reply {
        TokenReply::Granted(response) => {
            let lifetime = response.expires_in.saturating_sub(EXPIRY_MARGIN);
            *cache = Some(
                TokenCache {
                    token: response.access_token.clone(),
                    expires_at: now.saturating_add(lifetime),
                },
            );
            Ok(response.access_token.clone())
        },
        TokenReply::Refused(body) => Err(
            SearchError::Auth(concat("Failed to get Digi-Key token: ", body.as_str())),
        ),
        TokenReply::Failed(reason) => Err(SearchError::Auth(reason.clone())),
        TokenReply::Unreadable(reason) => Err(SearchError::Auth(reason.clone())),
    }
}

/// How the search endpoint answered.
#[derive(Clone, Debug)]
pub enum SearchReply {
    /// No answer: the request did not get through.
    Failed(String),
    /// An answer with a status that does not report success.
    Refused(u16),
    /// An answer that reports success with a body that is no search
    /// result.
    Unreadable(String),
    /// A search result.
    Answer(DigiKeySearchResult),
}

/// What a search for `quantity` pieces of the part numbered
/// `query_manufacturer_pn` comes to, given the vendor's answer: the offer
/// made from a search result; a transport error where no answer came or
/// the status refuses; a parse error where the body cannot be read.
pub fn digikey_search(query_manufacturer_pn: &str, quantity: u32, reply: &SearchReply) -> (found:
    Result<Option<DigiKeyPart>, SearchError>)
    ensures
        match *reply {
            SearchReply::Answer(result) => found matches Ok(part) && is_offer(
                result.products@,
                query_manufacturer_pn@,
                quantity,
                offer_view(part),
            ),
            SearchReply::Refused(status) => found matches Err(e) && e@
                == SearchErrorView::Transport(
                "Failed to search DigiKey: code "@ + decimal(status as nat),
            ),
            SearchReply::Failed(reason) => found matches Err(e) && e@
                == SearchErrorView::Transport(reason@),
            SearchReply::Unreadable(reason) => found matches Err(e) && e@ == SearchErrorView::Parse(
                "Error parsing JSON: "@ + reason@,
            ),
        },
{
    match reply {
        SearchReply::Answer(result) => Ok(
            select_offer(&result.products, query_manufacturer_pn, quantity),
        ),
        SearchReply::Refused(status) => {
            let code = decimal_string(*status as u64);
            Err(SearchError::Transport(concat("Failed to search DigiKey: code ", code.as_str())))
        },
        SearchReply::Failed(reason) => Err(SearchError::Transport(reason.clone())),
        SearchReply::Unreadable(reason) => Err(
            SearchError::Parse(concat("Error parsing JSON: ", reason.as_str())),
        ),
    }
}

} // verus!
