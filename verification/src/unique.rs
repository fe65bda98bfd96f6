use vstd::prelude::*;

verus! {

/// Relies on `uuid::Uuid::new_v4` and its `Display` impl: a fresh random
/// version-4 identifier rendered in the hyphenated form, which is always 36
/// ASCII characters. Nothing is promised about the drawn value itself.
#[verifier::external_body]
pub fn uuid() -> (r: String)
    ensures
        r@.len() == 36,
{
    uuid::Uuid::new_v4().to_string()
}

} // verus!
