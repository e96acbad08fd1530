use politocean_backend::data::digikey_apis::cached_token;
use politocean_backend::data::digikey_apis::digikey_search;
use politocean_backend::data::digikey_apis::is_success;
use politocean_backend::data::digikey_apis::refresh_token;
use politocean_backend::data::digikey_apis::search_request;
use politocean_backend::data::digikey_apis::select_offer;
use politocean_backend::data::digikey_apis::token_request;
use politocean_backend::data::digikey_apis::SearchReply;
use politocean_backend::data::digikey_apis::TokenCache;
use politocean_backend::data::digikey_apis::TokenReply;
use politocean_backend::data::errors::SearchError;
use politocean_backend::models::digikey_api_models::DigiKeySearchResult;
use politocean_backend::models::digikey_api_models::Manufacturer;
use politocean_backend::models::digikey_api_models::PriceBreak;
use politocean_backend::models::digikey_api_models::Product;
use politocean_backend::models::digikey_api_models::ProductDescription;
use politocean_backend::models::digikey_api_models::ProductVariation;
use politocean_backend::models::digikey_api_models::TokenResponse;
use politocean_backend::price::Price;
use politocean_backend::data::digikey_apis::search_headers;
use politocean_backend::data::digikey_apis::search_url;
use politocean_backend::data::digikey_apis::token_url;
use politocean_backend::data::digikey_apis::REQUEST_TIMEOUT;

fn price_break(quantity: u32, micros: u64) -> PriceBreak {
    PriceBreak {
        break_quantity: quantity,
        unit_price: Price::from_micros(micros),
        total_price: Price::from_micros(micros),
    }
}

fn variation(pn: &str, stock: u32, minimum: u32, breaks: Option<Vec<PriceBreak>>) -> ProductVariation {
    ProductVariation {
        digi_key_product_number: pn.to_string(),
        standard_pricing: breaks,
        quantity_availablefor_package_type: stock,
        minimum_order_quantity: minimum,
    }
}

fn product(pn: &str, stock: u32, variations: Vec<ProductVariation>) -> Product {
    Product {
        description: ProductDescription {
            product_description: format!("{} timer", pn),
            detailed_description: "long".to_string(),
        },
        manufacturer: Manufacturer { id: 296, name: "Texas Instruments".to_string() },
        manufacturer_product_number: pn.to_string(),
        product_url: format!("https://www.digikey.it/{}", pn),
        datasheet_url: None,
        quantity_available: stock,
        product_variations: variations,
    }
}

#[test]
fn the_offer_reports_the_price_at_the_requested_quantity() {
    let products = vec![product(
        "NE555P",
        5000,
        vec![variation(
            "296-1411-5-ND",
            5000,
            1,
            Some(vec![price_break(1, 500_000), price_break(10, 400_000)]),
        )],
    )];
    let part = select_offer(&products, "NE555P", 25).unwrap();
    assert_eq!(part.manufacturer, "Texas Instruments");
    assert_eq!(part.manufacturer_pn, "NE555P");
    assert_eq!(part.description, "NE555P timer");
    assert_eq!(part.digikey_pn, "296-1411-5-ND");
    assert_eq!(part.product_url, "https://www.digikey.it/NE555P");
    assert_eq!(part.unit_price, Price::from_micros(400_000));
    assert_eq!(part.availability, 5000);
}

#[test]
fn only_products_with_the_very_part_number_are_offered() {
    let products = vec![
        product("NE555PW", 10, vec![variation("A", 10, 1, Some(vec![price_break(1, 1)]))]),
        product("ne555p", 10, vec![variation("B", 10, 1, Some(vec![price_break(1, 1)]))]),
    ];
    assert!(select_offer(&products, "NE555P", 1).is_none());
    assert_eq!(select_offer(&products, "NE555PW", 1).unwrap().digikey_pn, "A");
}

#[test]
fn variations_short_of_stock_or_above_the_quantity_are_passed_over() {
    let products = vec![product(
        "NE555P",
        1000,
        vec![
            variation("SHORT", 9, 1, Some(vec![price_break(1, 100)])),
            variation("REEL", 1000, 500, Some(vec![price_break(1, 100)])),
            variation("TAPE", 10, 10, Some(vec![price_break(1, 300)])),
        ],
    )];
    assert_eq!(select_offer(&products, "NE555P", 10).unwrap().digikey_pn, "TAPE");
    assert!(select_offer(&products, "NE555P", 11).is_none());
    assert_eq!(select_offer(&products, "NE555P", 500).unwrap().digikey_pn, "REEL");
}

#[test]
fn candidates_are_ranked_by_their_price_at_quantity_zero() {
    let products = vec![
        product(
            "NE555P",
            100,
            vec![
                variation("UNPRICED", 100, 1, None),
                variation("FROM-ONE", 100, 1, Some(vec![price_break(1, 900_000)])),
                variation("FROM-ZERO", 100, 1, Some(vec![price_break(0, 200_000)])),
            ],
        ),
        product(
            "NE555P",
            50,
            vec![variation("CHEAP-AT-ZERO", 100, 1, Some(vec![price_break(0, 100_000)]))],
        ),
    ];
    // at quantity zero: none, none, 0.2 and 0.1; the lowest wins
    let part = select_offer(&products, "NE555P", 5).unwrap();
    assert_eq!(part.digikey_pn, "CHEAP-AT-ZERO");
    assert_eq!(part.unit_price, Price::from_micros(100_000));
    assert_eq!(part.availability, 50);
}

#[test]
fn a_candidate_without_a_price_at_quantity_zero_ranks_behind_a_priced_one() {
    let products = vec![product(
        "NE555P",
        100,
        vec![
            variation("UNPRICED", 100, 1, None),
            variation("FROM-ONE", 100, 1, Some(vec![price_break(1, 100)])),
            variation("FROM-ZERO", 100, 1, Some(vec![price_break(0, 900_000)])),
        ],
    )];
    let part = select_offer(&products, "NE555P", 5).unwrap();
    assert_eq!(part.digikey_pn, "FROM-ZERO");
    assert_eq!(part.unit_price, Price::from_micros(900_000));
}

#[test]
fn an_offer_without_an_applicable_break_carries_the_price_zero() {
    let products = vec![product(
        "NE555P",
        100,
        vec![variation("FROM-TEN", 100, 1, Some(vec![price_break(10, 400_000)]))],
    )];
    let part = select_offer(&products, "NE555P", 5).unwrap();
    assert_eq!(part.digikey_pn, "FROM-TEN");
    assert_eq!(part.unit_price, Price::zero());
    let part = select_offer(&products, "NE555P", 10).unwrap();
    assert_eq!(part.unit_price, Price::from_micros(400_000));
}

#[test]
fn among_equal_ranks_the_first_candidate_is_offered() {
    let products = vec![
        product("NE555P", 7, vec![variation("FIRST", 100, 1, Some(vec![price_break(1, 500)]))]),
        product("NE555P", 8, vec![variation("SECOND", 100, 1, Some(vec![price_break(1, 100)]))]),
    ];
    let part = select_offer(&products, "NE555P", 5).unwrap();
    assert_eq!(part.digikey_pn, "FIRST");
    assert_eq!(part.unit_price, Price::from_micros(500));
}

#[test]
fn a_candidate_without_prices_is_offered_at_no_price_when_alone() {
    let products = vec![product("NE555P", 7, vec![variation("UNPRICED", 100, 1, None)])];
    let part = select_offer(&products, "NE555P", 5).unwrap();
    assert_eq!(part.digikey_pn, "UNPRICED");
    assert_eq!(part.unit_price, Price::zero());
}

#[test]
fn an_answer_without_products_offers_nothing() {
    assert!(select_offer(&Vec::new(), "NE555P", 5).is_none());
    assert!(select_offer(&vec![product("NE555P", 7, vec![])], "NE555P", 5).is_none());
}

#[test]
fn the_search_asks_for_twenty_products_with_enough_stock() {
    let body = search_request("Texas Instruments", "NE555P", 25);
    assert_eq!(body.keywords, "Texas Instruments NE555P");
    assert_eq!(body.limit, 20);
    assert_eq!(body.offset, 0);
    assert_eq!(body.filter_options_request.minimum_quantity_available, 25);
    assert_eq!(body.filter_options_request.market_place_filter, "NoFilter");
    assert_eq!(body.sort_options.field, "None");
    assert_eq!(body.sort_options.sort_order, "Ascending");
}

#[test]
fn the_search_is_sent_with_locale_and_bearer_token() {
    let headers = search_headers("client", "t0ken");
    let expected: Vec<(String, String)> = [
        ("X-DIGIKEY-Client-Id", "client"),
        ("X-DIGIKEY-Locale-Language", "en"),
        ("X-DIGIKEY-Locale-Currency", "EUR"),
        ("X-DIGIKEY-Locale-Site", "IT"),
        ("accept", "application/json"),
        ("Content-Type", "application/json"),
        ("Authorization", "Bearer t0ken"),
    ]
    .iter()
    .map(|(k, v)| (k.to_string(), v.to_string()))
    .collect();
    assert_eq!(headers, expected);
    assert_eq!(search_url(), "https://api.digikey.com/products/v4/search/keyword");
    assert_eq!(token_url(), "https://api.digikey.com/v1/oauth2/token");
    assert_eq!(REQUEST_TIMEOUT, 100);
}

#[test]
fn the_token_form_names_the_client() {
    assert_eq!(
        token_request("id", "secret"),
        "client_id=id&client_secret=secret&grant_type=client_credentials"
    );
}

#[test]
fn statuses_from_200_to_299_report_success() {
    assert!(is_success(200));
    assert!(is_success(204));
    assert!(is_success(299));
    assert!(!is_success(199));
    assert!(!is_success(300));
    assert!(!is_success(403));
    assert!(!is_success(500));
}

#[test]
fn a_cached_token_is_handed_out_until_its_expiry() {
    let cache = Some(TokenCache { token: "abc".to_string(), expires_at: 1000 });
    assert_eq!(cached_token(&cache, 0), Some("abc".to_string()));
    assert_eq!(cached_token(&cache, 999), Some("abc".to_string()));
    assert_eq!(cached_token(&cache, 1000), None);
    assert_eq!(cached_token(&cache, 1001), None);
    assert_eq!(cached_token(&None, 0), None);
}

#[test]
fn a_granted_token_is_cached_with_a_margin_of_a_minute() {
    let mut cache = None;
    let reply = TokenReply::Granted(TokenResponse {
        access_token: "fresh".to_string(),
        token_type: "Bearer".to_string(),
        expires_in: 600,
    });
    let token = refresh_token(&mut cache, &reply, 1000).unwrap();
    assert_eq!(token, "fresh");
    let cached = cache.clone().unwrap();
    assert_eq!(cached.token, "fresh");
    assert_eq!(cached.expires_at, 1540);
    assert_eq!(cached_token(&cache, 1539), Some("fresh".to_string()));
    assert_eq!(cached_token(&cache, 1540), None);
}

#[test]
fn a_short_lived_token_is_never_handed_out_from_the_cache() {
    let mut cache = None;
    let reply = TokenReply::Granted(TokenResponse {
        access_token: "brief".to_string(),
        token_type: "Bearer".to_string(),
        expires_in: 30,
    });
    assert_eq!(refresh_token(&mut cache, &reply, 1000).unwrap(), "brief");
    assert_eq!(cache.clone().unwrap().expires_at, 1000);
    assert_eq!(cached_token(&cache, 1000), None);
}

#[test]
fn the_expiry_stops_at_the_end_of_the_clock() {
    let mut cache = None;
    let reply = TokenReply::Granted(TokenResponse {
        access_token: "late".to_string(),
        token_type: "Bearer".to_string(),
        expires_in: 1000,
    });
    refresh_token(&mut cache, &reply, u64::MAX - 10).unwrap();
    assert_eq!(cache.unwrap().expires_at, u64::MAX);
}

#[test]
fn a_failed_exchange_is_an_authentication_error_and_is_not_cached() {
    let old = Some(TokenCache { token: "old".to_string(), expires_at: 5 });
    let mut cache = old.clone();
    let refused = refresh_token(&mut cache, &TokenReply::Refused("denied".to_string()), 10);
    assert!(matches!(refused, Err(SearchError::Auth(m)) if m == "Failed to get Digi-Key token: denied"));
    assert_eq!(cache.clone().unwrap().token, "old");
    assert_eq!(cache.clone().unwrap().expires_at, 5);
    let failed = refresh_token(&mut cache, &TokenReply::Failed("timeout".to_string()), 10);
    assert!(matches!(failed, Err(SearchError::Auth(m)) if m == "timeout"));
    let unreadable = refresh_token(&mut cache, &TokenReply::Unreadable("no json".to_string()), 10);
    assert!(matches!(unreadable, Err(SearchError::Auth(m)) if m == "no json"));
    assert_eq!(cache.unwrap().token, "old");
    let mut empty = None;
    assert!(refresh_token(&mut empty, &TokenReply::Failed("timeout".to_string()), 10).is_err());
    assert!(empty.is_none());
}

#[test]
fn a_search_answer_is_turned_into_an_offer_or_an_error() {
    let answer = SearchReply::Answer(DigiKeySearchResult {
        products: vec![product(
            "NE555P",
            5000,
            vec![variation("296-1411-5-ND", 5000, 1, Some(vec![price_break(1, 500_000)]))],
        )],
        products_count: 1,
        exact_matches: vec![],
    });
    let found = digikey_search("NE555P", 5, &answer).unwrap().unwrap();
    assert_eq!(found.digikey_pn, "296-1411-5-ND");
    assert!(digikey_search("LM741", 5, &answer).unwrap().is_none());
    let refused = digikey_search("NE555P", 5, &SearchReply::Refused(403));
    assert!(matches!(refused, Err(SearchError::Transport(m)) if m == "Failed to search DigiKey: code 403"));
    let failed = digikey_search("NE555P", 5, &SearchReply::Failed("timeout".to_string()));
    assert!(matches!(failed, Err(SearchError::Transport(m)) if m == "timeout"));
    let unreadable = digikey_search("NE555P", 5, &SearchReply::Unreadable("at line 1".to_string()));
    assert!(matches!(unreadable, Err(SearchError::Parse(m)) if m == "Error parsing JSON: at line 1"));
}

#[test]
fn callers_that_take_their_turns_share_one_exchange() {
    let mut cache = Some(TokenCache { token: "stale".to_string(), expires_at: 1000 });
    let mut exchanges = 0;
    let mut handed = Vec::new();
    for now in [1000u64, 1000, 1001, 1200, 1539] {
        let token = match cached_token(&cache, now) {
            Some(token) => token,
            None => {
                exchanges += 1;
                let reply = TokenReply::Granted(TokenResponse {
                    access_token: format!("token-{}", exchanges),
                    expires_in: 600,
                    token_type: "Bearer".to_string(),
                });
                refresh_token(&mut cache, &reply, now).unwrap()
            }
        };
        handed.push(token);
    }
    assert_eq!(exchanges, 1);
    assert_eq!(handed, vec!["token-1"; 5]);
    // from the expiry on the next caller exchanges again
    assert_eq!(cached_token(&cache, 1540), None);
}
