//! What the C interface keeps and reports: the per-thread last-error slot
//! and the texts of its argument errors.

use crate::text::{concat, nat_text, u64_text};
use vstd::prelude::*;

verus! {

/// Store an error message in a last-error slot.
pub fn set_last_error(slot: &mut Option<String>, message: String)
    ensures
        *final(slot) == Some(message),
{
    *slot = Some(message);
}

/// Clear a last-error slot.
pub fn clear_last_error(slot: &mut Option<String>)
    ensures
        *final(slot) == None::<String>,
{
    *slot = None;
}

/// The error for a null pointer argument named `name`.
pub fn null_argument_message(name: &str) -> (m: String)
    ensures
        m@ == name@ + " must not be NULL"@,
{
    concat(name, " must not be NULL")
}

/// The error for a C string argument named `name` that is not UTF-8.
pub fn invalid_utf8_message(name: &str) -> (m: String)
    ensures
        m@ == name@ + " is not valid UTF-8"@,
{
    concat(name, " is not valid UTF-8")
}

/// The argument name of circuit number `i` in a C array of circuits.
pub fn circuit_argument_name(i: usize) -> (m: String)
    ensures
        m@ == "circuits["@ + nat_text(i as nat) + "]"@,
{
    let head = concat("circuits[", u64_text(i as u64).as_str());
    concat(head.as_str(), "]")
}

/// Check the circuit array pointer of a C call: a null array is only
/// accepted when it holds no circuits.
pub fn check_circuit_array(is_null: bool, n_circuits: usize) -> (r: Result<(), String>)
    ensures
        r is Ok <==> !(is_null && n_circuits > 0),
        r matches Err(m) ==> m@ == "circuits must not be NULL when n_circuits > 0"@,
{
    if is_null && n_circuits > 0 {
        Err(String::from_str("circuits must not be NULL when n_circuits > 0"))
    } else {
        Ok(())
    }
}

} // verus!
