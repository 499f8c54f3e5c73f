use vstd::prelude::*;

verus! {

/// Relies on `oysterpack_uid::ulid::ulid_str`: a new ULID, made from the
/// clock and a random source, as a string. Its value depends on both, so
/// nothing is promised of it. (The underlying generator panics only on a
/// clock set outside the years 1970 to 10889.)
#[verifier::external_body]
pub(crate) fn new_message_id() -> (r: String) {
    oysterpack_uid::ulid::ulid_str()
}

} // verus!
