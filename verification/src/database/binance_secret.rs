use vstd::prelude::*;

use crate::database::client::{views_of, Recorder, RecorderResult};
use crate::database::person::PersonIdentifier;

verus! {

/// An exchange credential an account has deposited: which purview it grants
/// and its key pair.
#[derive(Debug)]
pub struct BinanceSecret {
    pub owner: PersonIdentifier,
    pub purview: BinanceSecretPurview,
    pub api_key: String,
    pub secret_key: String,
}

/// The mathematical value of a `BinanceSecret`.
pub struct BinanceSecretView {
    pub owner: Seq<char>,
    pub purview: BinanceSecretPurview,
    pub api_key: Seq<char>,
    pub secret_key: Seq<char>,
}

impl View for BinanceSecret {
    type V = BinanceSecretView;

    open spec fn view(&self) -> BinanceSecretView {
        BinanceSecretView {
            owner: self.owner@,
            purview: self.purview,
            api_key: self.api_key@,
            secret_key: self.secret_key@,
        }
    }
}

impl Clone for BinanceSecret {
    fn clone(&self) -> (r: Self)
        ensures
            r@ == self@,
    {
        BinanceSecret {
            owner: self.owner.clone(),
            purview: self.purview,
            api_key: self.api_key.clone(),
            secret_key: self.secret_key.clone(),
        }
    }
}

impl BinanceSecret {
    /// A credential granting read access.
    pub fn with_read(owner: PersonIdentifier, api_key: String, secret_key: String) -> (r: Self)
        ensures
            r@.owner == owner@,
            r@.purview is Read,
            r@.api_key == api_key@,
            r@.secret_key == secret_key@,
    {
        BinanceSecret { owner, purview: BinanceSecretPurview::Read, api_key, secret_key }
    }

    /// A credential granting spot trading access.
    pub fn with_spot(owner: PersonIdentifier, api_key: String, secret_key: String) -> (r: Self)
        ensures
            r@.owner == owner@,
            r@.purview is Spot,
            r@.api_key == api_key@,
            r@.secret_key == secret_key@,
    {
        BinanceSecret { owner, purview: BinanceSecretPurview::Spot, api_key, secret_key }
    }
}

/// What a deposited credential grants.
#[derive(Clone, Copy, Debug, PartialEq, Eq, Structural)]
pub enum BinanceSecretPurview {
    Read,
    Spot,
}

impl BinanceSecretPurview {
    /// The numeric code a purview is stored under.
    pub fn code(&self) -> (r: u8)
        ensures
            *self is Read ==> r == 1,
            *self is Spot ==> r == 2,
    {
        match self {
            BinanceSecretPurview::Read => 1,
            BinanceSecretPurview::Spot => 2,
        }
    }

    /// The purview a stored numeric code stands for, if any.
    pub fn from_code(code: u8) -> (r: Option<BinanceSecretPurview>)
        ensures
            code == 1 ==> r == Some(BinanceSecretPurview::Read),
            code == 2 ==> r == Some(BinanceSecretPurview::Spot),
            code != 1 && code != 2 ==> r is None,
    {
        match code {
            1 => Some(BinanceSecretPurview::Read),
            2 => Some(BinanceSecretPurview::Spot),
            _ => None,
        }
    }

    /// The stored numeric code, rendered as text.
    pub fn to_string(&self) -> (r: String)
        ensures
            *self is Read ==> r@ == "1"@,
            *self is Spot ==> r@ == "2"@,
    {
        match self {
            BinanceSecretPurview::Read => String::from_str("1"),
            BinanceSecretPurview::Spot => String::from_str("2"),
        }
    }
}

/// Whether some credential in `s` belongs to `owner` with purview `purview`.
pub open spec fn has_secret_with_owner_purview(
    s: Seq<BinanceSecretView>,
    owner: Seq<char>,
    purview: BinanceSecretPurview,
) -> bool {
    exists|j: int| 0 <= j < s.len() && s[j].owner == owner && s[j].purview == purview
}

/// The credentials that belong to `owner`.
pub open spec fn secret_owned_by(owner: Seq<char>) -> spec_fn(BinanceSecretView) -> bool {
    |p: BinanceSecretView| p.owner == owner
}

/// The operations the credential table offers.
pub trait Interface {
    fn insert(&mut self, item: &BinanceSecret) -> RecorderResult<()>;

    fn select_one_by_owner_and_purview(
        &self,
        owner: &PersonIdentifier,
        purview: &BinanceSecretPurview,
    ) -> RecorderResult<Option<BinanceSecret>>;

    fn select_one_spot_by_owner(&self, owner: &PersonIdentifier) -> RecorderResult<
        Option<BinanceSecret>,
    >;

    fn select_all_by_owner(&self, owner: &PersonIdentifier) -> RecorderResult<Vec<BinanceSecret>>;
}

impl Interface for Recorder<BinanceSecret> {
    /// Appends the credential.
    fn insert(&mut self, item: &BinanceSecret) -> (r: RecorderResult<()>)
        ensures
            r is Ok,
            final(self)@ == old(self)@.push(item@),
    {
        self.items.push(item.clone());
        proof {
            assert(self@ =~= old(self)@.push(item@));
        }
        Ok(())
    }

    /// Hands out the first credential of `owner` with the purview; `None`
    /// exactly when there is none.
    fn select_one_by_owner_and_purview(
        &self,
        owner: &PersonIdentifier,
        purview: &BinanceSecretPurview,
    ) -> (r: RecorderResult<Option<BinanceSecret>>)
        ensures
            r matches Ok(o) && (o is Some <==> has_secret_with_owner_purview(
                self@,
                owner@,
                *purview,
            )),
            r matches Ok(Some(p)) ==> exists|j: int|
                0 <= j < self@.len() && p@ == self@[j] && self@[j].owner == owner@
                    && self@[j].purview == *purview,
    {
        let mut i: usize = 0;
        let n = self.items.len();
        while i < n
            invariant
                0 <= i <= n,
                n == self.items.len(),
                forall|k: int|
                    0 <= k < i ==> !(self@[k].owner == owner@ && self@[k].purview == *purview),
            decreases n - i,
        {
            if self.items[i].owner.eq(owner) && self.items[i].purview == *purview {
                let found = self.items[i].clone();
                proof {
                    assert(0 <= i < self@.len() && found@ == self@[i as int] && self@[
                        i as int
                    ].owner == owner@ && self@[i as int].purview == *purview);
                }
                return Ok(Some(found));
            }
            i += 1;
        }
        Ok(None)
    }

    /// Hands out the first spot-trading credential of `owner`; `None` exactly
    /// when there is none.
    fn select_one_spot_by_owner(&self, owner: &PersonIdentifier) -> (r: RecorderResult<
        Option<BinanceSecret>,
    >)
        ensures
            r matches Ok(o) && (o is Some <==> has_secret_with_owner_purview(
                self@,
                owner@,
                BinanceSecretPurview::Spot,
            )),
            r matches Ok(Some(p)) ==> exists|j: int|
                0 <= j < self@.len() && p@ == self@[j] && self@[j].owner == owner@
                    && self@[j].purview is Spot,
    {
        self.select_one_by_owner_and_purview(owner, &BinanceSecretPurview::Spot)
    }

    /// Hands out every credential of `owner`, in insertion order.
    fn select_all_by_owner(&self, owner: &PersonIdentifier) -> (r: RecorderResult<
        Vec<BinanceSecret>,
    >)
        ensures
            r matches Ok(v) && views_of(v@) == self@.filter(secret_owned_by(owner@)),
    {
        let mut out: Vec<BinanceSecret> = Vec::new();
        let mut i: usize = 0;
        let n = self.items.len();
        while i < n
            invariant
                0 <= i <= n,
                n == self.items.len(),
                views_of(out@) =~= self@.take(i as int).filter(secret_owned_by(owner@)),
            decreases n - i,
        {
            proof {
                assert(self@.take(i as int + 1) =~= self@.take(i as int).push(self@[i as int]));
                self@.take(i as int).lemma_filter_push(self@[i as int], secret_owned_by(owner@));
                assert(secret_owned_by(owner@)(self@[i as int]) == (self@[i as int].owner
                    == owner@));
            }
            let ghost prev = out@;
            if self.items[i].owner.eq(owner) {
                out.push(self.items[i].clone());
                proof {
                    assert(views_of(out@) =~= views_of(prev).push(self@[i as int]));
                }
            }
            i += 1;
        }
        proof {
            assert(self@.take(n as int) =~= self@);
        }
        Ok(out)
    }
}

} // verus!
