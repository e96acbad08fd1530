use politocean_backend::data::errors::SearchError;
use politocean_backend::data::mouser_apis::after_attempt;
use politocean_backend::data::mouser_apis::backoff_ms;
use politocean_backend::data::mouser_apis::parse_availability;
use politocean_backend::data::mouser_apis::parse_price;
use politocean_backend::data::mouser_apis::search_mouser;
use politocean_backend::data::mouser_apis::search_request;
use politocean_backend::data::mouser_apis::search_url;
use politocean_backend::data::mouser_apis::select_offer;
use politocean_backend::data::mouser_apis::unit_price_at;
use politocean_backend::data::mouser_apis::Attempt;
use politocean_backend::data::mouser_apis::Body;
use politocean_backend::data::mouser_apis::Found;
use politocean_backend::data::mouser_apis::Next;
use politocean_backend::data::mouser_apis::MAX_RETRIES;
use politocean_backend::models::mouser_api_models::MouserPart;
use politocean_backend::models::mouser_api_models::MouserResponse;
use politocean_backend::models::mouser_api_models::Part;
use politocean_backend::models::mouser_api_models::PriceBreak;
use politocean_backend::models::mouser_api_models::SearchResults;
use politocean_backend::price::Price;

fn price_break(quantity: u32, price: &str) -> PriceBreak {
    PriceBreak { quantity, price: price.to_string(), currency: "EUR".to_string() }
}

fn part(pn: &str, mouser_pn: &str, breaks: Option<Vec<PriceBreak>>, availability: Option<&str>) -> Part {
    Part {
        manufacturer: Some("Texas Instruments".to_string()),
        manufacturer_part_number: Some(pn.to_string()),
        description: Some("Timer".to_string()),
        mouser_part_number: Some(mouser_pn.to_string()),
        product_detail_url: Some(format!("https://www.mouser.it/{}", mouser_pn)),
        price_breaks: breaks,
        availability: availability.map(|a| a.to_string()),
    }
}

fn answer(parts: Vec<Part>) -> MouserResponse {
    MouserResponse { search_results: Some(SearchResults { parts }) }
}

fn ne555(price: &str) -> MouserResponse {
    answer(vec![part("NE555P", "595-NE555P", Some(vec![price_break(1, price)]), Some("42 In Stock"))])
}

/// Runs a search against a vendor whose answers are scripted: each entry
/// is the outcome of one attempt and the body that comes with it.
fn run_search(
    script: &[(Attempt, Option<Body>)],
    pn: &str,
    quantity: u32,
) -> (Result<Option<MouserPart>, SearchError>, Vec<u64>, usize) {
    let mut delays = Vec::new();
    let mut attempts = 0;
    let mut searched_again = false;
    let mut sent = 0;
    loop {
        let (outcome, body) = script[sent].clone();
        sent += 1;
        match after_attempt(attempts, outcome) {
            Next::Retry { attempts: made, delay_ms } => {
                attempts = made;
                delays.push(delay_ms);
            }
            Next::GiveUp => {
                return (Err(SearchError::Transport("no answer".to_string())), delays, sent);
            }
            Next::Read => {
                let answered = outcome == Attempt::Answered;
                match search_mouser(pn, quantity, answered, &body.unwrap(), searched_again) {
                    Found::Offer(offer) => return (Ok(offer), delays, sent),
                    Found::Error(e) => return (Err(e), delays, sent),
                    Found::SearchAgain => {
                        searched_again = true;
                        attempts = 0;
                    }
                }
            }
        }
    }
}

#[test]
fn prices_are_read_from_the_vendors_wording() {
    assert_eq!(parse_price("1,23 €"), Price::from_micros(1_230_000));
    assert_eq!(parse_price("0,123 €"), Price::from_micros(123_000));
    assert_eq!(parse_price("12 €"), Price::from_micros(12_000_000));
    assert_eq!(parse_price("1.5 €"), Price::from_micros(1_500_000));
}

#[test]
fn a_price_in_other_words_is_no_price() {
    assert_eq!(parse_price("1,23"), Price::zero());
    assert_eq!(parse_price("$1.23"), Price::zero());
    assert_eq!(parse_price("1,23€"), Price::zero());
    assert_eq!(parse_price("1.234,56 €"), Price::zero());
    assert_eq!(parse_price(" €"), Price::zero());
    assert_eq!(parse_price(""), Price::zero());
    assert_eq!(parse_price("abc €"), Price::zero());
}

#[test]
fn stock_is_read_from_the_vendors_wording() {
    assert_eq!(parse_availability("42 In Stock"), 42);
    assert_eq!(parse_availability("0 In Stock"), 0);
    assert_eq!(parse_availability("4294967295 In Stock"), u32::MAX);
    assert_eq!(parse_availability("4294967296 In Stock"), 0);
    assert_eq!(parse_availability("42"), 0);
    assert_eq!(parse_availability("None"), 0);
    assert_eq!(parse_availability("42 in stock"), 0);
    assert_eq!(parse_availability("1.234 In Stock"), 0);
    assert_eq!(parse_availability(" In Stock"), 0);
    assert_eq!(parse_availability(""), 0);
}

#[test]
fn the_last_break_at_or_below_the_quantity_gives_the_written_price() {
    let breaks = vec![price_break(1, "0,50 €"), price_break(10, "0,40 €"), price_break(100, "0,30 €")];
    assert_eq!(unit_price_at(&breaks, 0), Price::zero());
    assert_eq!(unit_price_at(&breaks, 1), Price::from_micros(500_000));
    assert_eq!(unit_price_at(&breaks, 10), Price::from_micros(400_000));
    assert_eq!(unit_price_at(&breaks, 5000), Price::from_micros(300_000));
    let unreadable = vec![price_break(1, "0,50 €"), price_break(10, "call us")];
    assert_eq!(unit_price_at(&unreadable, 10), Price::zero());
    assert_eq!(unit_price_at(&Vec::new(), 10), Price::zero());
}

#[test]
fn the_first_part_with_the_part_number_is_offered() {
    let response = answer(vec![
        part("NE555PW", "595-NE555PW", Some(vec![price_break(1, "0,10 €")]), Some("1 In Stock")),
        part("NE555P", "595-NE555P", Some(vec![price_break(1, "0,50 €")]), Some("42 In Stock")),
        part("NE555P", "595-NE555P-2", Some(vec![price_break(1, "0,20 €")]), Some("99 In Stock")),
    ]);
    let offer = select_offer(&response, "NE555P", 5).unwrap();
    assert_eq!(offer.manufacturer, "Texas Instruments");
    assert_eq!(offer.manufacturer_pn, "NE555P");
    assert_eq!(offer.description, "Timer");
    assert_eq!(offer.mouser_pn, "595-NE555P");
    assert_eq!(offer.product_url, "https://www.mouser.it/595-NE555P");
    assert_eq!(offer.unit_price, Price::from_micros(500_000));
    assert_eq!(offer.availability, 42);
}

#[test]
fn a_matching_part_without_price_breaks_ends_the_search_without_offer() {
    let response = answer(vec![
        part("NE555P", "595-NE555P", None, Some("42 In Stock")),
        part("NE555P", "595-NE555P-2", Some(vec![price_break(1, "0,20 €")]), Some("99 In Stock")),
    ]);
    assert!(select_offer(&response, "NE555P", 5).is_none());
}

#[test]
fn missing_fields_are_offered_empty() {
    let bare = Part {
        manufacturer: None,
        manufacturer_part_number: Some("NE555P".to_string()),
        description: None,
        mouser_part_number: None,
        product_detail_url: None,
        price_breaks: Some(vec![]),
        availability: None,
    };
    let offer = select_offer(&answer(vec![bare]), "NE555P", 5).unwrap();
    assert_eq!(offer.manufacturer, "");
    assert_eq!(offer.description, "");
    assert_eq!(offer.mouser_pn, "");
    assert_eq!(offer.product_url, "");
    assert_eq!(offer.unit_price, Price::zero());
    assert_eq!(offer.availability, 0);
    let nameless = Part {
        manufacturer: None,
        manufacturer_part_number: None,
        description: None,
        mouser_part_number: None,
        product_detail_url: None,
        price_breaks: Some(vec![]),
        availability: None,
    };
    assert!(select_offer(&answer(vec![nameless.clone()]), "NE555P", 5).is_none());
    assert!(select_offer(&answer(vec![nameless]), "", 5).is_some());
}

#[test]
fn an_answer_without_results_offers_nothing() {
    assert!(select_offer(&MouserResponse { search_results: None }, "NE555P", 5).is_none());
    assert!(select_offer(&answer(vec![]), "NE555P", 5).is_none());
}

#[test]
fn the_delay_doubles_from_retry_to_retry() {
    assert_eq!(backoff_ms(0), 1);
    assert_eq!(backoff_ms(1), 2);
    assert_eq!(backoff_ms(2), 4);
    assert_eq!(backoff_ms(10), 1024);
    assert_eq!(backoff_ms(15), 32768);
}

#[test]
fn an_attempt_is_followed_by_reading_retrying_or_giving_up() {
    assert_eq!(after_attempt(0, Attempt::Answered), Next::Read);
    assert_eq!(after_attempt(15, Attempt::Answered), Next::Read);
    assert_eq!(after_attempt(0, Attempt::Refused), Next::Retry { attempts: 1, delay_ms: 2 });
    assert_eq!(after_attempt(3, Attempt::Failed), Next::Retry { attempts: 4, delay_ms: 16 });
    assert_eq!(after_attempt(14, Attempt::Refused), Next::Retry { attempts: 15, delay_ms: 32768 });
    assert_eq!(after_attempt(15, Attempt::Refused), Next::Read);
    assert_eq!(after_attempt(15, Attempt::Failed), Next::GiveUp);
    assert_eq!(after_attempt(u32::MAX, Attempt::Refused), Next::Read);
    assert_eq!(MAX_RETRIES, 15);
}

#[test]
fn a_vendor_that_answers_at_the_nth_attempt_gives_that_offer() {
    for n in 1..=16usize {
        let mut script: Vec<(Attempt, Option<Body>)> = Vec::new();
        for _ in 1..n {
            script.push((Attempt::Refused, Some(Body::Unreadable("forbidden".to_string()))));
        }
        script.push((Attempt::Answered, Some(Body::Answer(ne555("0,50 €")))));
        let (found, delays, sent) = run_search(&script, "NE555P", 5);
        let offer = found.unwrap().unwrap();
        assert_eq!(offer.mouser_pn, "595-NE555P");
        assert_eq!(offer.unit_price, Price::from_micros(500_000));
        assert_eq!(sent, n);
        let expected: Vec<u64> = (1..n as u32).map(|k| 1u64 << k).collect();
        assert_eq!(delays, expected);
    }
}

#[test]
fn a_vendor_that_refuses_every_attempt_gives_no_offer_and_no_error() {
    let script: Vec<(Attempt, Option<Body>)> = (0..16)
        .map(|_| (Attempt::Refused, Some(Body::Answer(MouserResponse { search_results: None }))))
        .collect();
    let (found, delays, sent) = run_search(&script, "NE555P", 5);
    assert!(matches!(found, Ok(None)));
    assert_eq!(sent, 16);
    assert_eq!(delays.len(), 15);
    let unreadable: Vec<(Attempt, Option<Body>)> = (0..16)
        .map(|_| (Attempt::Refused, Some(Body::Unreadable("<html>".to_string()))))
        .collect();
    let (found, _, sent) = run_search(&unreadable, "NE555P", 5);
    assert!(matches!(found, Ok(None)));
    assert_eq!(sent, 16);
}

#[test]
fn a_vendor_that_never_answers_is_given_up() {
    let script: Vec<(Attempt, Option<Body>)> = (0..16).map(|_| (Attempt::Failed, None)).collect();
    let (found, delays, sent) = run_search(&script, "NE555P", 5);
    assert!(matches!(found, Err(SearchError::Transport(_))));
    assert_eq!(sent, 16);
    assert_eq!(delays.len(), 15);
}

#[test]
fn an_unreadable_answer_has_the_search_run_once_more() {
    let script = vec![
        (Attempt::Answered, Some(Body::Unreadable("bad json".to_string()))),
        (Attempt::Refused, None),
        (Attempt::Answered, Some(Body::Answer(ne555("0,70 €")))),
    ];
    let (found, delays, sent) = run_search(&script, "NE555P", 5);
    assert_eq!(found.unwrap().unwrap().unit_price, Price::from_micros(700_000));
    assert_eq!(sent, 3);
    assert_eq!(delays, vec![2]);
    let twice = vec![
        (Attempt::Answered, Some(Body::Unreadable("bad json".to_string()))),
        (Attempt::Answered, Some(Body::Unreadable("worse json".to_string()))),
    ];
    let (found, _, sent) = run_search(&twice, "NE555P", 5);
    assert!(matches!(found, Err(SearchError::Parse(m)) if m == "worse json"));
    assert_eq!(sent, 2);
}

#[test]
fn a_read_body_decides_the_search() {
    let body = Body::Answer(ne555("0,50 €"));
    assert!(matches!(search_mouser("NE555P", 5, true, &body, false), Found::Offer(Some(_))));
    assert!(matches!(search_mouser("NE555P", 5, false, &body, true), Found::Offer(Some(_))));
    assert!(matches!(search_mouser("LM741", 5, true, &body, false), Found::Offer(None)));
    let bad = Body::Unreadable("bad".to_string());
    assert!(matches!(search_mouser("NE555P", 5, true, &bad, false), Found::SearchAgain));
    assert!(matches!(search_mouser("NE555P", 5, true, &bad, true), Found::Error(SearchError::Parse(_))));
    assert!(matches!(search_mouser("NE555P", 5, false, &bad, false), Found::Offer(None)));
    assert!(matches!(search_mouser("NE555P", 5, false, &bad, true), Found::Offer(None)));
}

#[test]
fn the_search_asks_for_the_manufacturer_and_the_part() {
    let body = search_request("Texas Instruments", "NE555P");
    assert_eq!(body.request.keyword, "Texas Instruments NE555P");
    assert_eq!(body.request.records, 0);
    assert_eq!(body.request.starting_record, 0);
    assert_eq!(body.request.search_options, "");
    assert_eq!(body.request.search_with_your_sign_up_language, "");
    assert_eq!(search_url("k3y"), "https://api.mouser.com/api/v1/search/keyword?apiKey=k3y");
}
