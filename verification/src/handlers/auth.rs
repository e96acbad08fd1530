//! Who may see what, and where a user is sent.

use vstd::prelude::*;

verus! {

/// The role of the members of the board, who confirm orders.
pub open spec fn board_role() -> Seq<char> {
    "board"@
}

/// The role of the professor, who sees the confirmed orders.
pub open spec fn prof_role() -> Seq<char> {
    "prof"@
}

/// Whether a request goes on or is sent elsewhere.
#[derive(Clone, Copy, Debug, PartialEq, Eq)]
pub enum Access {
    /// The request goes on.
    Granted,
    /// The request is answered by sending the user to this path.
    Redirect(&'static str),
}

/// Where an access decision sends the user, if anywhere.
pub open spec fn target_of(access: Access) -> Option<Seq<char>> {
    match access {
        Access::Granted => None,
        Access::Redirect(path) => Some(path@),
    }
}

/// Where a user lands after logging in: the professor on the page of the
/// confirmed orders, everybody else on the page of their own orders.
pub fn landing_page(user_role: &str) -> (path: &'static str)
    ensures
        path@ == if user_role@ == prof_role() {
            "/prof"@
        } else {
            "/home"@
        },
{
    if user_role.to_owned() == String::from_str("prof") {
        "/prof"
    } else {
        "/home"
    }
}

/// Whether a request may go on that only logged-in users may make: a
/// request without a user is sent to the login page.
pub fn require_login(user_id: Option<i32>) -> (access: Access)
    ensures
        target_of(access) == if user_id is Some {
            None
        } else {
            Some("/"@)
        },
{
    match user_id {
        Some(_) => Access::Granted,
        None => Access::Redirect("/"),
    }
}

/// Whether a logged-in user may go on with a request that needs the role
/// `required`: a user whose role is unknown, or is another one, is sent to
/// the page of their own orders.
pub fn require_role(user_role: &Option<String>, required: &str) -> (access: Access)
    ensures
        target_of(access) == if user_role matches Some(role) && role@ == required@ {
            None
        } else {
            Some("/home"@)
        },
{
    match user_role {
        Some(role) => {
            if *role == required.to_owned() {
                Access::Granted
            } else {
                Access::Redirect("/home")
            }
        },
        None => Access::Redirect("/home"),
    }
}

} // verus!
