//! The plain shapes of deposit-route request payloads.  The copies
//! that carry wire-format derives live with the HTTP layer; these are
//! the values the logic works on.

use vstd::prelude::*;

verus! {

/// Path parameter of the deposit routes.
pub struct ReservationIdPath {
    pub reservation_id: String,
}

/// Body of a hold-deposit request.
pub struct HoldDepositInput {
    pub reservation_id: String,
    pub note: Option<String>,
}

/// The currency a deposit is collected in when none is given.
pub fn default_currency() -> (r: String)
    ensures
        r@ == "PYG"@,
{
    String::from_str("PYG")
}

} // verus!
