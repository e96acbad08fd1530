//! Telling the professor that an order was confirmed: the words of the
//! message, and the files that go with it.

use crate::data::errors::AppError;
use crate::data::errors::AppErrorView;
use crate::data::errors::DataError;
use crate::data::errors::DataErrorView;
use crate::models::user_info::UserInfo;
use crate::text::concat;
use crate::text::concat3;
use crate::text::signed_decimal;
use crate::text::signed_decimal_string;
use vstd::prelude::*;

verus! {

/// The request to tell the professor that the user `user_id` confirmed the
/// order `order_id`.
#[derive(Clone, Copy, Debug, PartialEq, Eq, Structural)]
pub struct OrderNotificationRequest {
    pub order_id: i32,
    pub user_id: i32,
}

/// A file that goes with a message.
#[derive(Clone, Debug)]
pub struct Attachment {
    pub name: String,
    pub bytes: Vec<u8>,
}

/// A message to the professor.
#[derive(Clone, Debug)]
pub struct Notification {
    pub subject: String,
    pub body: String,
    pub attachments: Vec<Attachment>,
}

/// The server that takes the message.
pub open spec fn mail_server() -> Seq<char> {
    "smtp.gmail.com"@
}

/// The server that takes the message.
pub fn smtp_server() -> (server: &'static str)
    ensures
        server@ == mail_server(),
{
    "smtp.gmail.com"
}

/// The media type of the words of the message.
pub fn text_content_type() -> (media_type: &'static str)
    ensures
        media_type@ == "text/plain; charset=utf-8"@,
{
    "text/plain; charset=utf-8"
}

/// The subject of the message about the order `order_id`.
pub open spec fn subject_text(order_id: i32) -> Seq<char> {
    "PoliTOcean: conferma ordine #"@ + signed_decimal(order_id as int)
}

/// The address of a user as the message gives it.
pub open spec fn address_text(email: Option<String>) -> Seq<char> {
    match email {
        Some(address) => address@,
        None => "not found"@,
    }
}

/// The words of the message: who confirmed which order of which author,
/// and what the attached files are for.
pub open spec fn body_text(
    request: OrderNotificationRequest,
    description: Seq<char>,
    author: UserInfo,
    confirmer: UserInfo,
) -> Seq<char> {
    "\n            Buongiorno professore,\n\n\n            un ordine \u{e8} stato confermato da "@
        + confirmer.username@ + " (id: "@ + signed_decimal(request.user_id as int) + ", mail: "@
        + address_text(confirmer.email)
        + ") in data odierna.\n\n\n            Ordine #"@ + signed_decimal(
        request.order_id as int,
    ) + ": "@ + description + "\n\n            Autore: "@ + author.username@ + " (id: "@
        + signed_decimal(author.id as int) + ", mail: "@ + address_text(author.email)
        + ")\n\n\n            Allegati a questa mail trover\u{e0} i file di preventivo separati per mouser e digikey (BOM),\n\n            insieme a due altri file (aventi \"cart\" nel nome) che le permetteranno di aggiungere automaticamente gli oggetti al carrello.\n\n\n            Le auguriamo una buona giornata,\n\n            Team PoliTOcean.\n        "@
}

/// The name of the order's workbooks in the names of the attached files.
pub open spec fn filed_name(filename: Option<String>) -> Seq<char> {
    match filename {
        Some(name) => name@,
        None => "name not found"@,
    }
}

/// The subject of the message about the order `order_id`.
pub fn notification_subject(order_id: i32) -> (subject: String)
    ensures
        subject@ == subject_text(order_id),
{
    concat("PoliTOcean: conferma ordine #", signed_decimal_string(order_id).as_str())
}

/// The address of a user as the message gives it.
fn address_of(email: &Option<String>) -> (text: String)
    ensures
        text@ == address_text(*email),
{
    match email {
        Some(address) => address.clone(),
        None => String::from_str("not found"),
    }
}

/// The words of the message.
pub fn notification_body(
    request: &OrderNotificationRequest,
    description: &str,
    author: &UserInfo,
    confirmer: &UserInfo,
) -> (body: String)
    ensures
        body@ == body_text(*request, description@, *author, *confirmer),
{
    let mut body = String::from_str(
        "\n            Buongiorno professore,\n\n\n            un ordine \u{e8} stato confermato da ",
    );
    body.append(confirmer.username.as_str());
    body.append(" (id: ");
    body.append(signed_decimal_string(request.user_id).as_str());
    body.append(", mail: ");
    body.append(address_of(&confirmer.email).as_str());
    body.append(") in data odierna.\n\n\n            Ordine #");
    body.append(signed_decimal_string(request.order_id).as_str());
    body.append(": ");
    body.append(description);
    body.append("\n\n            Autore: ");
    body.append(author.username.as_str());
    body.append(" (id: ");
    body.append(signed_decimal_string(author.id).as_str());
    body.append(", mail: ");
    body.append(address_of(&author.email).as_str());
    body.append(
        ")\n\n\n            Allegati a questa mail trover\u{e0} i file di preventivo separati per mouser e digikey (BOM),\n\n            insieme a due altri file (aventi \"cart\" nel nome) che le permetteranno di aggiungere automaticamente gli oggetti al carrello.\n\n\n            Le auguriamo una buona giornata,\n\n            Team PoliTOcean.\n        ",
    );
    body
}

/// Whether the four files of an order are there to be sent: both carts
/// and both stored workbooks, none of them empty.
pub open spec fn files_ready(
    mouser_cart: Seq<u8>,
    digikey_cart: Seq<u8>,
    bom_mouser: Option<Vec<u8>>,
    bom_digikey: Option<Vec<u8>>,
) -> bool {
    &&& mouser_cart.len() > 0
    &&& digikey_cart.len() > 0
    &&& bom_mouser matches Some(bytes) && bytes@.len() > 0
    &&& bom_digikey matches Some(bytes) && bytes@.len() > 0
}

/// The message that tells the professor of a confirmed order, with its
/// four files: the workbooks of Mouser and of Digi-Key, then the carts of
/// Mouser and of Digi-Key.
///
/// Fails where one of the files is missing or empty.
pub fn order_notification(
    request: &OrderNotificationRequest,
    description: &str,
    author: &UserInfo,
    confirmer: &UserInfo,
    filename: &Option<String>,
    bom_mouser: Option<Vec<u8>>,
    bom_digikey: Option<Vec<u8>>,
    mouser_cart: Vec<u8>,
    digikey_cart: Vec<u8>,
) -> (message: Result<Notification, AppError>)
    ensures
        match message {
            Ok(m) => {
                &&& files_ready(mouser_cart@, digikey_cart@, bom_mouser, bom_digikey)
                &&& m.subject@ == subject_text(request.order_id)
                &&& m.body@ == body_text(*request, description@, *author, *confirmer)
                &&& m.attachments@.len() == 4
                &&& m.attachments@[0].name@ == filed_name(*filename) + "_mouser_"@ + signed_decimal(
                    request.order_id as int,
                ) + ".xlsx"@
                &&& m.attachments@[0].bytes == bom_mouser->0
                &&& m.attachments@[1].name@ == filed_name(*filename) + "_digikey_"@
                    + signed_decimal(request.order_id as int) + ".xlsx"@
                &&& m.attachments@[1].bytes == bom_digikey->0
                &&& m.attachments@[2].name@ == "cart_mouser_"@ + signed_decimal(
                    request.order_id as int,
                ) + ".xlsx"@
                &&& m.attachments@[2].bytes == mouser_cart
                &&& m.attachments@[3].name@ == "cart_digikey_"@ + signed_decimal(
                    request.order_id as int,
                ) + ".xlsx"@
                &&& m.attachments@[3].bytes == digikey_cart
            },
            Err(e) => {
                &&& !files_ready(mouser_cart@, digikey_cart@, bom_mouser, bom_digikey)
                &&& e@ == AppErrorView::Database(
                    DataErrorView::Internal("Error generating BOM files or carts."@),
                )
            },
        },
{
    let (mouser_bom, digikey_bom) = match (bom_mouser, bom_digikey) {
        (Some(m), Some(d)) => {
            if mouser_cart.len() == 0 || digikey_cart.len() == 0 || m.len() == 0 || d.len() == 0 {
                return Err(
                    AppError::Database(
                        DataError::Internal(
                            String::from_str("Error generating BOM files or carts."),
                        ),
                    ),
                );
            }
            (m, d)
        },
        _ => {
            return Err(
                AppError::Database(
                    DataError::Internal(String::from_str("Error generating BOM files or carts.")),
                ),
            );
        },
    };
    let number = signed_decimal_string(request.order_id);
    let filed = match filename {
        Some(name) => name.clone(),
        None => String::from_str("name not found"),
    };
    let mut mouser_name = filed.clone();
    mouser_name.append("_mouser_");
    mouser_name.append(number.as_str());
    mouser_name.append(".xlsx");
    let mut digikey_name = filed;
    digikey_name.append("_digikey_");
    digikey_name.append(number.as_str());
    digikey_name.append(".xlsx");
    let mut attachments: Vec<Attachment> = Vec::new();
    attachments.push(Attachment { name: mouser_name, bytes: mouser_bom });
    attachments.push(Attachment { name: digikey_name, bytes: digikey_bom });
    attachments.push(
        Attachment { name: concat3("cart_mouser_", number.as_str(), ".xlsx"), bytes: mouser_cart },
    );
    attachments.push(
        Attachment {
            name: concat3("cart_digikey_", number.as_str(), ".xlsx"),
            bytes: digikey_cart,
        },
    );
    Ok(
        Notification {
            subject: notification_subject(request.order_id),
            body: notification_body(request, description, author, confirmer),
            attachments,
        },
    )
}

} // verus!
