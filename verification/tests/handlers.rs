use politocean_backend::data::errors::server_error;
use politocean_backend::data::errors::AppError;
use politocean_backend::data::errors::DataError;
use politocean_backend::data::errors::SearchError;
use politocean_backend::data::order::Vendor;
use politocean_backend::data::user::authenticate_user;
use politocean_backend::data::user::get_user_role;
use politocean_backend::data::user::hash_password;
use politocean_backend::data::user::User;
use politocean_backend::handlers::auth::landing_page;
use politocean_backend::handlers::auth::require_login;
use politocean_backend::handlers::auth::require_role;
use politocean_backend::handlers::auth::Access;
use politocean_backend::handlers::edit_order::after_poll;
use politocean_backend::handlers::edit_order::bom_download;
use politocean_backend::data::excel::save_to_bytes;
use politocean_backend::handlers::edit_order::build_cart;
use politocean_backend::handlers::edit_order::cart_disposition;
use politocean_backend::handlers::edit_order::download_cart;
use politocean_backend::handlers::edit_order::status_of_word;
use politocean_backend::handlers::edit_order::stored_boms;
use politocean_backend::handlers::edit_order::xlsx_content_type;
use politocean_backend::handlers::edit_order::BomJobs;
use politocean_backend::handlers::edit_order::JobStatus;
use politocean_backend::handlers::new_order::distinct;
use politocean_backend::handlers::new_order::lookup;
use politocean_backend::handlers::new_order::new_order_page;
use politocean_backend::handlers::new_order::read_order_form;
use politocean_backend::handlers::new_order::FormError;
use politocean_backend::handlers::order_operations::lines_to_merge;
use politocean_backend::handlers::order_operations::may_merge;
use politocean_backend::handlers::order_operations::may_scale;
use politocean_backend::handlers::password_reset::new_password_hash;
use politocean_backend::handlers::password_reset::new_token;
use politocean_backend::handlers::password_reset::request_password_reset;
use politocean_backend::handlers::password_reset::reset_link;
use politocean_backend::handlers::password_reset::token_error;
use politocean_backend::handlers::password_reset::token_of;
use politocean_backend::handlers::prof_homepage::notification_body;
use politocean_backend::handlers::prof_homepage::notification_subject;
use politocean_backend::handlers::prof_homepage::order_notification;
use politocean_backend::handlers::prof_homepage::OrderNotificationRequest;
use politocean_backend::handlers::user_settings::user_to_update;
use politocean_backend::handlers::user_settings::UpdateEmailForm;
use politocean_backend::models::app::CurrentUser;
use politocean_backend::models::item::OrderItem;
use politocean_backend::models::order_operations::MergeOrderOption;
use politocean_backend::models::order_operations::MergeOrderRequest;
use politocean_backend::models::password_reset::ResetForm;
use politocean_backend::models::user_info::UserInfo;
use politocean_backend::handlers::edit_order::download_bom;
use politocean_backend::handlers::edit_order::percent_encode;
use politocean_backend::handlers::edit_order::zip_content_type;
use std::io::Read;

fn item(pn: &str, quantity: i32, mouser_pn: Option<&str>, digikey_pn: Option<&str>) -> OrderItem {
    OrderItem {
        order_id: 7,
        manufacturer: "Maker".to_string(),
        manufacturer_pn: pn.to_string(),
        quantity,
        proposal: "Proposal".to_string(),
        project: "Project".to_string(),
        mouser_pn: mouser_pn.map(|s| s.to_string()),
        digikey_pn: digikey_pn.map(|s| s.to_string()),
    }
}

fn form(pairs: &[(&str, &str)]) -> Vec<(String, String)> {
    pairs.iter().map(|(k, v)| (k.to_string(), v.to_string())).collect()
}

fn user(id: i32, name: &str, email: Option<&str>) -> UserInfo {
    UserInfo {
        id,
        username: name.to_string(),
        email: email.map(|s| s.to_string()),
        active: true,
        role: "advisor".to_string(),
        belonging_area_division: "Electronics".to_string(),
        belonging_area_sub_area: "Power".to_string(),
    }
}

#[test]
fn errors_are_worded_by_their_kind() {
    assert_eq!(DataError::Query("x".to_string()).message(), "Failed database query: x");
    assert_eq!(DataError::FailedQuery("x".to_string()).message(), "Failed to query: x");
    assert_eq!(DataError::Internal("x".to_string()).message(), "Internal error: x");
    assert_eq!(DataError::Bcrypt("x".to_string()).message(), "Failed to hash: x");
    assert_eq!(DataError::Utf8Conversion("x".to_string()).message(), "Failed to convert from utf8: x");
    assert_eq!(DataError::Mail("x".to_string()).message(), "Failed to send mail: x");
    assert_eq!(DataError::TokenError("x".to_string()).message(), "Invalid token: x");
    assert_eq!(AppError::Database(DataError::Internal("x".to_string())).message(), "Database error");
    assert_eq!(AppError::Template("x".to_string()).message(), "Template error");
    assert_eq!(AppError::Session("x".to_string()).message(), "Failed loading session");
    assert_eq!(SearchError::Auth("a".to_string()).message(), "a");
    assert_eq!(SearchError::Transport("t".to_string()).message(), "t");
    assert_eq!(SearchError::Parse("p".to_string()).message(), "p");
}

#[test]
fn an_error_is_answered_with_a_page_and_status_500() {
    let (status, page) = server_error("boom");
    assert_eq!(status, 500);
    assert_eq!(
        page,
        "<!DOCTYPE html>\n        <html>\n        <head><title>500 Internal Server Error</title></head>\n        <body>\n            <h1>Internal Server Error</h1>\n            <pre>boom</pre>\n        </body>\n        </html>"
    );
    let (status, page) = AppError::Session("lost".to_string()).into_response();
    assert_eq!(status, 500);
    assert!(page.contains("<pre>Failed loading session</pre>"));
}

#[test]
fn users_land_on_the_page_of_their_role() {
    assert_eq!(landing_page("prof"), "/prof");
    assert_eq!(landing_page("board"), "/home");
    assert_eq!(landing_page("advisor"), "/home");
    assert_eq!(landing_page(""), "/home");
    assert_eq!(landing_page("Prof"), "/home");
}

#[test]
fn requests_without_login_or_role_are_sent_away() {
    assert_eq!(require_login(Some(3)), Access::Granted);
    assert_eq!(require_login(None), Access::Redirect("/"));
    assert_eq!(require_role(&Some("board".to_string()), "board"), Access::Granted);
    assert_eq!(require_role(&Some("prof".to_string()), "board"), Access::Redirect("/home"));
    assert_eq!(require_role(&None, "board"), Access::Redirect("/home"));
    assert_eq!(require_role(&Some("prof".to_string()), "prof"), Access::Granted);
}

#[test]
fn a_user_is_known_by_login_or_is_nobody() {
    let nobody = CurrentUser::anonymous();
    assert!(!nobody.is_authenticated);
    assert_eq!(nobody.user_id, None);
    let someone = CurrentUser::logged_in(12);
    assert!(someone.is_authenticated);
    assert_eq!(someone.user_id, Some(12));
}

#[test]
fn a_password_is_checked_against_its_hash() {
    let hashed = bcrypt::hash("correct horse", 4).unwrap();
    let known = Some(User { id: 42, password_hash: hashed });
    assert_eq!(authenticate_user(&known, "correct horse").ok(), Some(42));
    let wrong = authenticate_user(&known, "battery staple");
    assert!(matches!(wrong, Err(DataError::FailedQuery(m)) if m == "Invalid credentials"));
    let unknown = authenticate_user(&None, "correct horse");
    assert!(matches!(unknown, Err(DataError::FailedQuery(m)) if m == "Invalid credentials"));
    let broken = Some(User { id: 42, password_hash: "no hash".to_string() });
    assert!(matches!(authenticate_user(&broken, "correct horse"), Err(DataError::Bcrypt(_))));
}

#[test]
fn a_new_password_is_hashed_without_the_space_around_it() {
    let form = ResetForm { token: "t".to_string(), new_password: "  secret \n".to_string() };
    let hashed = new_password_hash(&form).unwrap();
    assert!(bcrypt::verify("secret", &hashed).unwrap());
    assert!(!bcrypt::verify("  secret \n", &hashed).unwrap());
    let plain = hash_password("secret").unwrap();
    assert!(plain.starts_with("$2b$10$"));
    assert!(bcrypt::verify("secret", &plain).unwrap());
    // the login accepts the password for its hash, and no other
    let user = Some(User { id: 9, password_hash: plain });
    assert_eq!(authenticate_user(&user, "secret").ok(), Some(9));
    assert!(authenticate_user(&user, "Secret").is_err());
    let reset = Some(User { id: 9, password_hash: hashed });
    assert_eq!(authenticate_user(&reset, "secret").ok(), Some(9));
    assert_ne!(hash_password("secret").unwrap(), hash_password("secret").unwrap());
}

#[test]
fn the_role_of_an_unknown_user_is_an_error() {
    assert_eq!(get_user_role(Some("board".to_string())).ok(), Some("board".to_string()));
    assert!(matches!(get_user_role(None), Err(DataError::FailedQuery(m)) if m == "User not found"));
}

#[test]
fn a_reset_token_is_the_base64_of_its_bytes() {
    let bytes: Vec<u8> = (0u8..24).collect();
    assert_eq!(token_of(&bytes), "AAECAwQFBgcICQoLDA0ODxAREhMUFRYX");
    let high: Vec<u8> = vec![0xfb, 0xff, 0xfe, 0xfb, 0xff, 0xfe, 0xfb, 0xff, 0xfe, 0xfb, 0xff, 0xfe,
        0xfb, 0xff, 0xfe, 0xfb, 0xff, 0xfe, 0xfb, 0xff, 0xfe, 0xfb, 0xff, 0xfe];
    assert_eq!(token_of(&high), "-__--__--__--__--__--__--__--__-");
    let fresh = new_token();
    assert_eq!(fresh.len(), 32);
    assert!(fresh.chars().all(|c| c.is_ascii_alphanumeric() || c == '-' || c == '_'));
    assert_ne!(new_token(), new_token());
}

#[test]
fn a_reset_is_asked_for_by_a_logged_in_user() {
    assert_eq!(reset_link("abc"), "/reset-password?token=abc");
    let (id, stored, link) = request_password_reset(Some(5), "abc".to_string()).ok().unwrap();
    assert_eq!(id, 5);
    assert_eq!(stored, "abc");
    assert_eq!(link, "/reset-password?token=abc");
    let refused = request_password_reset(None, "abc".to_string());
    assert!(matches!(
        refused,
        Err(AppError::Database(DataError::Internal(m))) if m == "user not logged in while attempting password reset"
    ));
    assert!(matches!(
        token_error("Invalid token"),
        AppError::Database(DataError::TokenError(m)) if m == "Invalid token"
    ));
}

#[test]
fn an_address_has_to_be_an_email_address() {
    assert!(UpdateEmailForm { email: "team@politocean.it".to_string() }.validate().is_ok());
    for bad in ["", "team", "team@", "@politocean.it", "te am@politocean.it"] {
        let checked = UpdateEmailForm { email: bad.to_string() }.validate();
        assert!(
            matches!(checked, Err(AppError::Database(DataError::Mail(m))) if m == "email: Invalid email format"),
            "{}",
            bad
        );
    }
    assert_eq!(user_to_update(Some(4)), 4);
    assert_eq!(user_to_update(None), -1);
}

#[test]
fn jobs_report_how_far_they_are() {
    let mut jobs = BomJobs::new();
    assert_eq!(jobs.status(1), JobStatus::NotStarted);
    jobs.start(1);
    assert_eq!(jobs.status(1), JobStatus::InProgress);
    assert_eq!(jobs.status(2), JobStatus::NotStarted);
    jobs.start(2);
    jobs.finish(1, true);
    jobs.finish(2, false);
    assert_eq!(jobs.status(1), JobStatus::Done);
    assert_eq!(jobs.status(2), JobStatus::Failed);
    jobs.start(1);
    assert_eq!(jobs.status(1), JobStatus::InProgress);
    assert_eq!(jobs.status(2), JobStatus::Failed);
    assert_eq!(JobStatus::NotStarted.as_str(), "not_started");
    assert_eq!(JobStatus::InProgress.as_str(), "in_progress");
    assert_eq!(JobStatus::Done.as_str(), "done");
    assert_eq!(JobStatus::Failed.as_str(), "failed");
    assert_eq!(status_of_word("done"), Some(JobStatus::Done));
    assert_eq!(status_of_word("failed"), Some(JobStatus::Failed));
    assert_eq!(status_of_word("in_progress"), Some(JobStatus::InProgress));
    assert_eq!(status_of_word("not_started"), Some(JobStatus::NotStarted));
    assert_eq!(status_of_word("Done"), None);
}

#[test]
fn waiting_for_a_job_ends_when_the_job_is_over() {
    assert_eq!(after_poll("done"), None);
    assert_eq!(after_poll("failed"), None);
    assert_eq!(after_poll("in_progress"), Some(1));
    assert_eq!(after_poll("not_started"), Some(1));
    assert_eq!(after_poll("anything"), Some(1));
    assert!(JobStatus::Done.is_over() && JobStatus::Failed.is_over());
    assert!(!JobStatus::InProgress.is_over() && !JobStatus::NotStarted.is_over());
}

#[test]
fn workbooks_are_downloaded_under_the_name_they_were_filed_under() {
    let names = bom_download(&Some("scheda motori.xlsx".to_string()), 7);
    assert_eq!(names.mouser_name, "scheda motori_mouser.xlsx");
    assert_eq!(names.digikey_name, "scheda motori_digikey.xlsx");
    assert_eq!(names.archive_name, "scheda motori_bom.zip");
    assert_eq!(
        names.content_disposition,
        "attachment; filename=\"scheda motori_bom.zip\"; filename*=UTF-8''scheda%20motori%5Fbom%2Ezip"
    );
    let unnamed = bom_download(&None, 7);
    assert_eq!(unnamed.archive_name, "bom_7_bom.zip");
    assert_eq!(unnamed.mouser_name, "bom_7_mouser.xlsx");
    let accented = bom_download(&Some("però.xlsx.xlsx".to_string()), -3);
    assert_eq!(accented.archive_name, "però_bom.zip");
    assert_eq!(
        accented.content_disposition,
        "attachment; filename=\"però_bom.zip\"; filename*=UTF-8''per%C3%B2%5Fbom%2Ezip"
    );
    assert_eq!(
        xlsx_content_type(),
        "application/vnd.openxmlformats-officedocument.spreadsheetml.sheet"
    );
}

#[test]
fn stored_workbooks_are_both_there_or_there_is_nothing_to_download() {
    assert_eq!(stored_boms(Some((Some(vec![1]), Some(vec![2])))).ok(), Some((vec![1], vec![2])));
    let no_mouser = stored_boms(Some((None, Some(vec![2]))));
    assert!(matches!(no_mouser, Err(AppError::Database(DataError::FailedQuery(m))) if m == "Missing Mouser BOM"));
    let neither = stored_boms(Some((None, None)));
    assert!(matches!(neither, Err(AppError::Database(DataError::FailedQuery(m))) if m == "Missing Mouser BOM"));
    let no_digikey = stored_boms(Some((Some(vec![1]), None)));
    assert!(matches!(no_digikey, Err(AppError::Database(DataError::FailedQuery(m))) if m == "Missing Digikey BOM"));
    let nothing = stored_boms(None);
    assert!(matches!(nothing, Err(AppError::Database(DataError::FailedQuery(m))) if m == "No BOM found for order"));
}

#[test]
fn a_cart_lists_the_lines_that_the_vendor_sells() {
    let items = vec![
        item("A", 3, Some("595-A"), None),
        item("B", 5, None, Some("296-B-ND")),
        item("C", 7, Some("595-C"), Some("296-C-ND")),
        item("D", 9, None, None),
    ];
    let mouser = build_cart(&items, Vendor::Mouser);
    let sheet = mouser.get_sheet(&0).unwrap();
    assert_eq!(sheet.get_highest_row(), 2);
    assert_eq!(sheet.get_value((1, 1)), "3");
    assert_eq!(sheet.get_value((2, 1)), "595-A");
    assert_eq!(sheet.get_value((1, 2)), "7");
    assert_eq!(sheet.get_value((2, 2)), "595-C");
    let digikey = build_cart(&items, Vendor::DigiKey);
    let sheet = digikey.get_sheet(&0).unwrap();
    assert_eq!(sheet.get_highest_row(), 2);
    assert_eq!(sheet.get_value((1, 1)), "5");
    assert_eq!(sheet.get_value((2, 1)), "296-B-ND");
    assert_eq!(sheet.get_value((2, 2)), "296-C-ND");
    let empty = build_cart(&Vec::new(), Vendor::Mouser);
    assert_eq!(empty.get_sheet(&0).unwrap().get_highest_row(), 0);
    assert_eq!(cart_disposition(Vendor::Mouser, 7), "attachment; filename=\"mouser_cart_7.xlsx\"");
    assert_eq!(cart_disposition(Vendor::DigiKey, 12), "attachment; filename=\"digikey_cart_12.xlsx\"");
    let cart = download_cart(&items, Vendor::DigiKey, 12).ok().unwrap();
    assert_eq!(cart.content_disposition, "attachment; filename=\"digikey_cart_12.xlsx\"");
    assert_eq!(&cart.bytes[0..2], b"PK");
    let mut built = build_cart(&items, Vendor::DigiKey);
    assert_eq!(cart.bytes, save_to_bytes(&mut built).unwrap());
    let other = download_cart(&items, Vendor::Mouser, 12).ok().unwrap();
    assert_ne!(other.bytes, cart.bytes);
}

#[test]
fn an_order_form_is_read_line_by_line() {
    let filled = form(&[
        ("description", "Scheda motori"),
        ("area_division", "Electronics"),
        ("area_sub_area", "Power"),
        ("items_manifacturer_2", "Murata"),
        ("items_manifacturer_pn_2", "GRM188"),
        ("items_quantity_2", "100"),
        ("items_proposal_2", "Condensatori"),
        ("items_project_2", "ROV"),
        ("items_manifacturer_pn_0", "NE555P"),
        ("items_quantity_0", "many"),
    ]);
    let order = read_order_form(&filled).ok().unwrap();
    assert_eq!(order.description, "Scheda motori");
    assert_eq!(order.area_division, "Electronics");
    assert_eq!(order.area_sub_area, "Power");
    assert_eq!(order.items.len(), 2);
    assert_eq!(order.items[0].manufacturer, "Murata");
    assert_eq!(order.items[0].manufacturer_pn, "GRM188");
    assert_eq!(order.items[0].quantity, 100);
    assert_eq!(order.items[0].proposal, "Condensatori");
    assert_eq!(order.items[0].project, "ROV");
    assert_eq!(order.items[1].manufacturer, "");
    assert_eq!(order.items[1].manufacturer_pn, "NE555P");
    assert_eq!(order.items[1].quantity, 1);
    assert_eq!(order.items[1].proposal, "Elettronica generale");
    assert_eq!(order.items[1].project, "Varie per lab");
}

#[test]
fn a_line_is_read_once_under_the_number_it_is_written_with() {
    let filled = form(&[
        ("description", "d"),
        ("area_division", "a"),
        ("area_sub_area", "s"),
        ("items_manifacturer_pn_+3", "plus"),
        ("items_manifacturer_pn_3", "plain"),
        ("items_manifacturer_pn_03", "padded"),
        ("items_quantity_3", "8"),
        ("items_manifacturer_pn_-1", "minus"),
        ("items_quantity_-1", "2"),
    ]);
    let order = read_order_form(&filled).ok().unwrap();
    assert_eq!(order.items.len(), 2);
    assert_eq!(order.items[0].manufacturer_pn, "plain");
    assert_eq!(order.items[0].quantity, 8);
    assert_eq!(order.items[1].manufacturer_pn, "minus");
    assert_eq!(order.items[1].quantity, 2);
    let empty = read_order_form(&form(&[("description", "d"), ("area_division", "a"), ("area_sub_area", "s")]));
    assert!(empty.ok().unwrap().items.is_empty());
}

#[test]
fn a_form_with_missing_or_misnumbered_fields_is_refused() {
    let no_area = read_order_form(&form(&[("description", "d"), ("area_sub_area", "s")]));
    assert!(matches!(no_area, Err(FormError::MissingField(f)) if f == "area_division"));
    let nothing = read_order_form(&Vec::new());
    assert!(matches!(nothing, Err(FormError::MissingField(f)) if f == "description"));
    let no_sub = read_order_form(&form(&[("description", "d"), ("area_division", "a")]));
    assert!(matches!(no_sub, Err(FormError::MissingField(f)) if f == "area_sub_area"));
    let misnumbered = read_order_form(&form(&[
        ("description", "d"),
        ("area_division", "a"),
        ("area_sub_area", "s"),
        ("items_manifacturer_pn_1", "ok"),
        ("items_manifacturer_pn_x", "bad"),
        ("items_manifacturer_pn_", "worse"),
    ]));
    assert!(matches!(misnumbered, Err(FormError::BadIndex(f)) if f == "items_manifacturer_pn_x"));
    let no_quantity = read_order_form(&form(&[
        ("description", "d"),
        ("area_division", "a"),
        ("area_sub_area", "s"),
        ("items_manifacturer_pn_1", "ok"),
        ("items_quantity_1", "1"),
        ("items_manifacturer_pn_2", "no quantity"),
    ]));
    assert!(matches!(no_quantity, Err(FormError::MissingField(f)) if f == "items_quantity_2"));
}

#[test]
fn the_first_field_of_a_name_is_the_one_that_counts() {
    let fields = form(&[("a", "1"), ("b", "2"), ("a", "3")]);
    assert_eq!(lookup(&fields, "a"), Some("1".to_string()));
    assert_eq!(lookup(&fields, "b"), Some("2".to_string()));
    assert_eq!(lookup(&fields, "c"), None);
}

#[test]
fn choices_are_offered_once() {
    let names: Vec<String> = ["b", "a", "b", "c", "a", "b"].iter().map(|s| s.to_string()).collect();
    assert_eq!(distinct(&names), vec!["b", "a", "c"]);
    assert!(distinct(&Vec::new()).is_empty());
    let page = new_order_page(
        &names,
        &vec!["x".to_string(), "x".to_string()],
        vec!["p".to_string(), "p".to_string()],
        vec!["q".to_string()],
    );
    assert_eq!(page.areas, vec!["b", "a", "c"]);
    assert_eq!(page.sub_areas, vec!["x"]);
    assert_eq!(page.proposals, vec!["p", "p"]);
    assert_eq!(page.projects, vec!["q"]);
}

#[test]
fn orders_are_scaled_by_their_author_only() {
    assert!(may_scale(Some(4), 4));
    assert!(!may_scale(Some(5), 4));
    assert!(!may_scale(None, 4));
    assert!(may_scale(None, -1));
}

#[test]
fn orders_are_merged_by_the_board_or_by_an_author() {
    assert!(may_merge("board", 9, &vec![1, 2]));
    assert!(may_merge("board", 9, &vec![]));
    assert!(may_merge("advisor", 1, &vec![1, 2]));
    assert!(may_merge("advisor", 2, &vec![1, 2]));
    assert!(may_merge("advisor", 1, &vec![1]));
    assert!(!may_merge("advisor", 3, &vec![1, 2]));
    assert!(!may_merge("prof", 3, &vec![1, 2]));
}

#[test]
fn a_merge_moves_the_lines_of_the_source_to_the_target() {
    let request = MergeOrderRequest { source_id: 7, target_id: 8 };
    let source = vec![item("A", 3, Some("595-A"), None), item("B", 5, None, Some("296-B-ND"))];
    let lines = lines_to_merge(&request, MergeOrderOption::AddQuantities, &source);
    assert_eq!(lines.len(), 2);
    assert_eq!(lines[0].order_id, 8);
    assert_eq!(lines[0].manufacturer_pn, "A");
    assert_eq!(lines[0].quantity, 3);
    assert_eq!(lines[0].mouser_pn, Some("595-A".to_string()));
    assert_eq!(lines[1].order_id, 8);
    assert_eq!(lines[1].digikey_pn, Some("296-B-ND".to_string()));
    assert_eq!(lines[1].proposal, "Proposal");
    for option in [
        MergeOrderOption::KeepSrcQuantity,
        MergeOrderOption::KeepTargetQuantity,
        MergeOrderOption::KeepHighestQuantity,
        MergeOrderOption::KeepLowestQuantity,
    ] {
        assert!(lines_to_merge(&request, option, &source).is_empty());
    }
}

#[test]
fn the_professor_is_told_who_confirmed_which_order() {
    let request = OrderNotificationRequest { order_id: 31, user_id: 2 };
    assert_eq!(notification_subject(31), "PoliTOcean: conferma ordine #31");
    let body = notification_body(
        &request,
        "Scheda motori",
        &user(5, "anna", Some("anna@politocean.it")),
        &user(2, "bruno", None),
    );
    let expected = format!(
        "
            Buongiorno professore,\n\n
            un ordine è stato confermato da {} (id: {}, mail: {}) in data odierna.\n\n
            Ordine #{}: {}\n
            Autore: {} (id: {}, mail: {})\n\n
            Allegati a questa mail troverà i file di preventivo separati per mouser e digikey (BOM),\n
            insieme a due altri file (aventi \"cart\" nel nome) che le permetteranno di aggiungere automaticamente gli oggetti al carrello.\n\n
            Le auguriamo una buona giornata,\n
            Team PoliTOcean.
        ",
        "bruno", 2, "not found", 31, "Scheda motori", "anna", 5, "anna@politocean.it",
    );
    assert_eq!(body, expected);
}

#[test]
fn the_message_carries_the_four_files_of_the_order() {
    let request = OrderNotificationRequest { order_id: 31, user_id: 2 };
    let author = user(5, "anna", None);
    let confirmer = user(2, "bruno", None);
    let message = order_notification(
        &request,
        "Scheda motori",
        &author,
        &confirmer,
        &Some("scheda_motori".to_string()),
        Some(vec![1]),
        Some(vec![2]),
        vec![3],
        vec![4],
    )
    .ok()
    .unwrap();
    assert_eq!(message.subject, "PoliTOcean: conferma ordine #31");
    let names: Vec<&str> = message.attachments.iter().map(|a| a.name.as_str()).collect();
    assert_eq!(
        names,
        vec![
            "scheda_motori_mouser_31.xlsx",
            "scheda_motori_digikey_31.xlsx",
            "cart_mouser_31.xlsx",
            "cart_digikey_31.xlsx"
        ]
    );
    let bytes: Vec<Vec<u8>> = message.attachments.iter().map(|a| a.bytes.clone()).collect();
    assert_eq!(bytes, vec![vec![1], vec![2], vec![3], vec![4]]);
    let unnamed = order_notification(
        &request, "d", &author, &confirmer, &None, Some(vec![1]), Some(vec![2]), vec![3], vec![4],
    )
    .ok()
    .unwrap();
    assert_eq!(unnamed.attachments[0].name, "name not found_mouser_31.xlsx");
}

#[test]
fn a_message_without_one_of_its_files_is_not_sent() {
    let request = OrderNotificationRequest { order_id: 31, user_id: 2 };
    let author = user(5, "anna", None);
    let confirmer = user(2, "bruno", None);
    let cases: Vec<(Option<Vec<u8>>, Option<Vec<u8>>, Vec<u8>, Vec<u8>)> = vec![
        (None, Some(vec![2]), vec![3], vec![4]),
        (Some(vec![1]), None, vec![3], vec![4]),
        (Some(vec![]), Some(vec![2]), vec![3], vec![4]),
        (Some(vec![1]), Some(vec![]), vec![3], vec![4]),
        (Some(vec![1]), Some(vec![2]), vec![], vec![4]),
        (Some(vec![1]), Some(vec![2]), vec![3], vec![]),
    ];
    for (bom_mouser, bom_digikey, mouser_cart, digikey_cart) in cases {
        let message = order_notification(
            &request, "d", &author, &confirmer, &None, bom_mouser, bom_digikey, mouser_cart, digikey_cart,
        );
        assert!(matches!(
            message,
            Err(AppError::Database(DataError::Internal(m))) if m == "Error generating BOM files or carts."
        ));
    }
}

#[test]
fn both_workbooks_are_downloaded_in_one_archive() {
    let mouser = b"mouser workbook".to_vec();
    let digikey = b"digikey workbook, a little longer".to_vec();
    let download = download_bom(&Some("scheda.xlsx".to_string()), 7, &mouser, &digikey).ok().unwrap();
    assert_eq!(
        download.content_disposition,
        "attachment; filename=\"scheda_bom.zip\"; filename*=UTF-8''scheda%5Fbom%2Ezip"
    );
    assert_eq!(zip_content_type(), "application/zip");
    let mut archive = zip::ZipArchive::new(std::io::Cursor::new(download.bytes)).unwrap();
    assert_eq!(archive.len(), 2);
    let mut names = Vec::new();
    let mut contents = Vec::new();
    for i in 0..archive.len() {
        let mut file = archive.by_index(i).unwrap();
        names.push(file.name().to_string());
        let mut bytes = Vec::new();
        file.read_to_end(&mut bytes).unwrap();
        contents.push(bytes);
    }
    assert_eq!(names, vec!["scheda_mouser.xlsx", "scheda_digikey.xlsx"]);
    assert_eq!(contents, vec![mouser, digikey]);
}

#[test]
fn the_same_workbooks_make_the_same_archive() {
    let mouser = b"mouser workbook".to_vec();
    let digikey = b"digikey workbook".to_vec();
    let name = Some("scheda.xlsx".to_string());
    let first = download_bom(&name, 7, &mouser, &digikey).ok().unwrap();
    let second = download_bom(&name, 7, &mouser, &digikey).ok().unwrap();
    assert_eq!(first.bytes, second.bytes);
    let swapped = download_bom(&name, 7, &digikey, &mouser).ok().unwrap();
    assert_ne!(first.bytes, swapped.bytes);
    let renamed = download_bom(&None, 7, &mouser, &digikey).ok().unwrap();
    assert_ne!(first.bytes, renamed.bytes);
    // stored without compression, dated 1 January 1980
    assert_eq!(&first.bytes[0..4], b"PK\x03\x04");
    assert_eq!(&first.bytes[8..10], &[0, 0]);
    assert_eq!(&first.bytes[10..14], &[0, 0, 0x21, 0]);
}

#[test]
fn only_letters_and_digits_stay_as_they_are_in_a_percent_encoding() {
    assert_eq!(percent_encode(""), "");
    assert_eq!(percent_encode("abcXYZ019"), "abcXYZ019");
    assert_eq!(percent_encode("a b"), "a%20b");
    assert_eq!(percent_encode("scheda_bom.zip"), "scheda%5Fbom%2Ezip");
    assert_eq!(percent_encode("-~/:@"), "%2D%7E%2F%3A%40");
    assert_eq!(percent_encode("però"), "per%C3%B2");
    assert_eq!(percent_encode("\u{20ac}\u{0}\u{7f}"), "%E2%82%AC%00%7F");
    assert_eq!(
        percent_encode("però €"),
        percent_encoding::utf8_percent_encode("però €", percent_encoding::NON_ALPHANUMERIC).to_string()
    );
}
