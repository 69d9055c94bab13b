//! A coin-flip trade direction.

use crate::randomness::random_bool;
use vstd::prelude::*;

verus! {

/// Draw a random action: the label is always one of the two trade
/// directions. Printing it is left to the caller.
pub fn random_action() -> (r: String)
    ensures
        r@ == "Buy"@ || r@ == "Sell"@,
{
    if random_bool() {
        "Buy".to_string()
    } else {
        "Sell".to_string()
    }
}

} // verus!
