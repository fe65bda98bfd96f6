use vstd::prelude::*;

use crate::api::response::Response;
use crate::database::binance_secret::BinanceSecret;
use crate::database::person::PersonIdentifier;

verus! {

/// The decision behind depositing an exchange credential: under a known
/// purview code, the credential to insert when the owner holds none of that
/// purview yet, or nothing when one already exists; an unknown code is
/// rejected outright.
pub fn plan_secret_deposit(
    owner: PersonIdentifier,
    purview: u8,
    api_key: String,
    secret_key: String,
    already_deposited: bool,
) -> (r: Result<Option<BinanceSecret>, Response<()>>)
    ensures
        purview != 1 && purview != 2 ==> (r matches Err(e) && e.ok == false && e.code == 400 && (
        e.error matches Some(m) && m@ == "Purview parameter error"@)),
        (purview == 1 || purview == 2) && already_deposited ==> r == Ok::<
            Option<BinanceSecret>,
            Response<()>,
        >(None),
        purview == 1 && !already_deposited ==> (r matches Ok(Some(s)) && s@.owner == owner@
            && s@.purview is Read && s@.api_key == api_key@ && s@.secret_key == secret_key@),
        purview == 2 && !already_deposited ==> (r matches Ok(Some(s)) && s@.owner == owner@
            && s@.purview is Spot && s@.api_key == api_key@ && s@.secret_key == secret_key@),
{
    match purview {
        1 => {
            if already_deposited {
                Ok(None)
            } else {
                Ok(Some(BinanceSecret::with_read(owner, api_key, secret_key)))
            }
        },
        2 => {
            if already_deposited {
                Ok(None)
            } else {
                Ok(Some(BinanceSecret::with_spot(owner, api_key, secret_key)))
            }
        },
        _ => Err(Response::incompatible(String::from_str("Purview parameter error"))),
    }
}

} // verus!
