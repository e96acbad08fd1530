//! Scaling and merging whole orders: who may, and what a merge moves.

use crate::handlers::auth::board_role;
use crate::models::item::OrderItem;
use crate::models::order_operations::MergeOrderOption;
use crate::models::order_operations::MergeOrderRequest;
use vstd::prelude::*;

verus! {

/// The user that a request without login is taken to come from.
pub const NOBODY: i32 = -1;

/// Whether the user of a request may scale the order written by
/// `author_id`: only its author may.
pub fn may_scale(user_id: Option<i32>, author_id: i32) -> (allowed: bool)
    ensures
        allowed == (match user_id {
            Some(id) => id == author_id,
            None => author_id == NOBODY,
        }),
{
    let user = match user_id {
        Some(id) => id,
        None => NOBODY,
    };
    user == author_id
}

/// Whether a user may merge two orders whose authors are `author_ids`: a
/// member of the board may, and so may the author of either order.
pub open spec fn merge_allowed(user_role: Seq<char>, user_id: i32, author_ids: Seq<i32>) -> bool {
    user_role == board_role() || user_id == author_ids[0] || user_id == author_ids[1]
}

/// Whether the user `user_id` with the role `user_role` may merge two
/// orders whose authors are `author_ids`.
pub fn may_merge(user_role: &str, user_id: i32, author_ids: &Vec<i32>) -> (allowed: bool)
    requires
        user_role@ != board_role() ==> author_ids@.len() >= 1,
        user_role@ != board_role() && user_id != author_ids@[0] ==> author_ids@.len() >= 2,
    ensures
        allowed == merge_allowed(user_role@, user_id, author_ids@),
{
    if user_role.to_owned() == String::from_str("board") {
        true
    } else if user_id == author_ids[0] {
        true
    } else {
        user_id == author_ids[1]
    }
}

/// The lines that a merge adds to the target order: with quantities
/// added, every line of the source order, so that a part on both orders
/// ends with the sum of both quantities; under any other option none.
pub open spec fn merged_lines(option: MergeOrderOption, source: Seq<OrderItem>, target_id: i32)
    -> Seq<OrderItem> {
    if option == MergeOrderOption::AddQuantities {
        Seq::new(source.len(), |i: int| OrderItem { order_id: target_id, ..source[i] })
    } else {
        Seq::<OrderItem>::empty()
    }
}

/// The lines that the merge `request` adds to its target order, given the
/// lines `source` of its source order.
pub fn lines_to_merge(
    request: &MergeOrderRequest,
    option: MergeOrderOption,
    source: &Vec<OrderItem>,
) -> (lines: Vec<OrderItem>)
    ensures
        lines@.len() == merged_lines(option, source@, request.target_id).len(),
        forall|i: int|
            0 <= i < lines@.len() ==> {
                let line = #[trigger] lines@[i];
                let from = source@[i];
                &&& line.order_id == request.target_id
                &&& line.manufacturer@ == from.manufacturer@
                &&& line.manufacturer_pn@ == from.manufacturer_pn@
                &&& line.quantity == from.quantity
                &&& line.proposal@ == from.proposal@
                &&& line.project@ == from.project@
                &&& line.mouser_pn == from.mouser_pn
                &&& line.digikey_pn == from.digikey_pn
            },
{
    let mut lines: Vec<OrderItem> = Vec::new();
    match option {
        MergeOrderOption::AddQuantities => {
            let mut i: usize = 0;
            while i < source.len()
                invariant
                    i <= source.len(),
                    lines@.len() == i,
                    forall|k: int|
                        0 <= k < i ==> {
                            let line = #[trigger] lines@[k];
                            let from = source@[k];
                            &&& line.order_id == request.target_id
                            &&& line.manufacturer@ == from.manufacturer@
                            &&& line.manufacturer_pn@ == from.manufacturer_pn@
                            &&& line.quantity == from.quantity
                            &&& line.proposal@ == from.proposal@
                            &&& line.project@ == from.project@
                            &&& line.mouser_pn == from.mouser_pn
                            &&& line.digikey_pn == from.digikey_pn
                        },
                decreases source.len() - i,
            {
                let from = &source[i];
                lines.push(
                    OrderItem {
                        order_id: request.target_id,
                        manufacturer: from.manufacturer.clone(),
                        manufacturer_pn: from.manufacturer_pn.clone(),
                        quantity: from.quantity,
                        proposal: from.proposal.clone(),
                        project: from.project.clone(),
                        mouser_pn: from.mouser_pn.clone(),
                        digikey_pn: from.digikey_pn.clone(),
                    },
                );
                i += 1;
            }
        },
        _ => {},
    }
    lines
}

} // verus!
