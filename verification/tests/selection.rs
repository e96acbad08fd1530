use politocean_backend::data::order::choose_vendor;
use politocean_backend::data::order::Vendor;
use politocean_backend::models::digikey_api_models::DigiKeyPart;
use politocean_backend::models::mouser_api_models::MouserPart;
use politocean_backend::price::Price;

fn digikey(price_micros: u64, availability: u32) -> DigiKeyPart {
    DigiKeyPart {
        manufacturer: "Texas Instruments".to_string(),
        manufacturer_pn: "NE555P".to_string(),
        description: "Timer".to_string(),
        digikey_pn: "296-1411-5-ND".to_string(),
        product_url: "https://www.digikey.it/ne555p".to_string(),
        unit_price: Price::from_micros(price_micros),
        availability,
    }
}

fn mouser(price_micros: u64, availability: u32) -> MouserPart {
    MouserPart {
        manufacturer: "Texas Instruments".to_string(),
        manufacturer_pn: "NE555P".to_string(),
        description: "Timer".to_string(),
        mouser_pn: "595-NE555P".to_string(),
        product_url: "https://www.mouser.it/ne555p".to_string(),
        unit_price: Price::from_micros(price_micros),
        availability,
    }
}

#[test]
fn cheaper_mouser_offer_is_chosen() {
    let chosen = choose_vendor(&Some(digikey(5_000_000, 10)), &Some(mouser(4_000_000, 10)), 5);
    assert_eq!(chosen, Some(Vendor::Mouser));
}

#[test]
fn equal_prices_go_to_digikey() {
    let chosen = choose_vendor(&Some(digikey(4_000_000, 10)), &Some(mouser(4_000_000, 10)), 5);
    assert_eq!(chosen, Some(Vendor::DigiKey));
}

#[test]
fn sole_mouser_offer_is_chosen_whatever_it_says() {
    assert_eq!(choose_vendor(&None, &Some(mouser(0, 0)), 5), Some(Vendor::Mouser));
    assert_eq!(choose_vendor(&None, &Some(mouser(9_000_000, 1)), 500), Some(Vendor::Mouser));
}
