use vstd::prelude::*;

use crate::database::client::{Recorder, RecorderError, RecorderResult, Uniquer};
use crate::unique;

verus! {

pub type PersonIdentifier = String;

/// An account: a unique identifier, a unique login name, a role and a
/// password.
#[derive(Debug)]
pub struct Person {
    pub identifier: PersonIdentifier,
    pub name: String,
    pub role: PersonRole,
    pub password: String,
}

/// The mathematical value of a `Person`.
pub struct PersonView {
    pub identifier: Seq<char>,
    pub name: Seq<char>,
    pub role: PersonRole,
    pub password: Seq<char>,
}

impl View for Person {
    type V = PersonView;

    open spec fn view(&self) -> PersonView {
        PersonView {
            identifier: self.identifier@,
            name: self.name@,
            role: self.role,
            password: self.password@,
        }
    }
}

impl Clone for Person {
    fn clone(&self) -> (r: Self)
        ensures
            r@ == self@,
    {
        Person {
            identifier: self.identifier.clone(),
            name: self.name.clone(),
            role: self.role,
            password: self.password.clone(),
        }
    }
}

impl Person {
    /// A fresh account with the given role; the identifier is newly drawn.
    pub fn new(name: String, role: PersonRole, password: String) -> (r: Self)
        ensures
            r@.name == name@,
            r@.role == role,
            r@.password == password@,
            r@.identifier.len() == 36,
    {
        Person { identifier: unique::uuid(), name, role, password }
    }

    /// A fresh ordinary account; the identifier is newly drawn.
    pub fn with_normal(name: String, password: String) -> (r: Self)
        ensures
            r@.name == name@,
            r@.role is Normal,
            r@.password == password@,
            r@.identifier.len() == 36,
    {
        Person { identifier: unique::uuid(), name, role: PersonRole::Normal, password }
    }
}

impl Uniquer for Person {
    type Sign = PersonIdentifier;

    fn identifier(&self) -> (r: &PersonIdentifier)
        ensures
            r@ == self@.identifier,
    {
        &self.identifier
    }
}

/// What an account may do.
#[derive(Clone, Copy, Debug, PartialEq, Eq, Structural)]
pub enum PersonRole {
    Normal,
    Administrator,
}

impl PersonRole {
    /// The numeric code a role is stored under.
    pub fn code(&self) -> (r: u8)
        ensures
            *self is Normal ==> r == 1,
            *self is Administrator ==> r == 2,
    {
        match self {
            PersonRole::Normal => 1,
            PersonRole::Administrator => 2,
        }
    }

    /// The role a stored numeric code stands for, if any.
    pub fn from_code(code: u8) -> (r: Option<PersonRole>)
        ensures
            code == 1 ==> r == Some(PersonRole::Normal),
            code == 2 ==> r == Some(PersonRole::Administrator),
            code != 1 && code != 2 ==> r is None,
    {
        match code {
            1 => Some(PersonRole::Normal),
            2 => Some(PersonRole::Administrator),
            _ => None,
        }
    }
}

/// Whether some record in `s` carries this identifier.
pub open spec fn has_person_with_identifier(s: Seq<PersonView>, identifier: Seq<char>) -> bool {
    exists|j: int| 0 <= j < s.len() && s[j].identifier == identifier
}

/// Whether some record in `s` carries this login name.
pub open spec fn has_person_with_name(s: Seq<PersonView>, name: Seq<char>) -> bool {
    exists|j: int| 0 <= j < s.len() && s[j].name == name
}

/// The operations the account table offers.
pub trait Interface {
    fn insert(&mut self, item: &Person) -> RecorderResult<()>;

    fn select_all(&self) -> RecorderResult<Vec<Person>>;

    fn select_one_by_identifier(&self, identifier: &PersonIdentifier) -> RecorderResult<
        Option<Person>,
    >;

    fn select_one_by_name(&self, name: &String) -> RecorderResult<Option<Person>>;

    fn select_identifier_by_name_and_password(&self, name: &String, password: &String)
        -> RecorderResult<Option<PersonIdentifier>>;
}

impl Interface for Recorder<Person> {
    /// Appends the record; refused when its identifier or name is taken.
    fn insert(&mut self, item: &Person) -> (r: RecorderResult<()>)
        ensures
            r is Ok <==> !has_person_with_identifier(old(self)@, item@.identifier)
                && !has_person_with_name(old(self)@, item@.name),
            r is Ok ==> final(self)@ == old(self)@.push(item@),
            r is Err ==> final(self)@ == old(self)@,
    {
        let mut i: usize = 0;
        let n = self.items.len();
        while i < n
            invariant
                0 <= i <= n,
                n == self.items.len(),
                forall|j: int|
                    0 <= j < i ==> self@[j].identifier != item@.identifier && self@[j].name
                        != item@.name,
            decreases n - i,
        {
            if self.items[i].identifier.eq(&item.identifier) || self.items[i].name.eq(&item.name) {
                proof {
                    assert(0 <= i < self@.len());
                    assert(self@[i as int].identifier == item@.identifier || self@[i as int].name
                        == item@.name);
                }
                return Err(
                    RecorderError::Sqlite(String::from_str("UNIQUE constraint failed: Person")),
                );
            }
            i += 1;
        }
        self.items.push(item.clone());
        proof {
            assert(self@ =~= old(self)@.push(item@));
        }
        Ok(())
    }

    /// Hands out every record, in insertion order.
    fn select_all(&self) -> (r: RecorderResult<Vec<Person>>)
        ensures
            r matches Ok(v) && crate::database::client::views_of(v@) == self@,
    {
        let mut out: Vec<Person> = Vec::new();
        let mut i: usize = 0;
        let n = self.items.len();
        while i < n
            invariant
                0 <= i <= n,
                n == self.items.len(),
                out@.len() == i,
                forall|k: int| 0 <= k < i ==> out@[k]@ == self@[k],
            decreases n - i,
        {
            out.push(self.items[i].clone());
            i += 1;
        }
        proof {
            assert(crate::database::client::views_of(out@) =~= self@);
        }
        Ok(out)
    }

    /// Hands out the first record carrying the identifier; `None` exactly when
    /// there is none.
    fn select_one_by_identifier(&self, identifier: &PersonIdentifier) -> (r: RecorderResult<
        Option<Person>,
    >)
        ensures
            r matches Ok(o) && (o is Some <==> has_person_with_identifier(self@, identifier@)),
            r matches Ok(Some(p)) ==> exists|j: int|
                0 <= j < self@.len() && p@ == self@[j] && self@[j].identifier == identifier@ && (
                forall|k: int| 0 <= k < j ==> self@[k].identifier != identifier@),
    {
        let mut i: usize = 0;
        let n = self.items.len();
        while i < n
            invariant
                0 <= i <= n,
                n == self.items.len(),
                forall|k: int| 0 <= k < i ==> self@[k].identifier != identifier@,
            decreases n - i,
        {
            if self.items[i].identifier.eq(identifier) {
                let found = self.items[i].clone();
                proof {
                    assert(0 <= i < self@.len() && found@ == self@[i as int] && self@[
                        i as int
                    ].identifier == identifier@);
                }
                return Ok(Some(found));
            }
            i += 1;
        }
        Ok(None)
    }

    /// Hands out the first record carrying the login name; `None` exactly when
    /// there is none.
    fn select_one_by_name(&self, name: &String) -> (r: RecorderResult<Option<Person>>)
        ensures
            r matches Ok(o) && (o is Some <==> has_person_with_name(self@, name@)),
            r matches Ok(Some(p)) ==> exists|j: int|
                0 <= j < self@.len() && p@ == self@[j] && self@[j].name == name@ && (forall|k: int|
                    0 <= k < j ==> self@[k].name != name@),
    {
        let mut i: usize = 0;
        let n = self.items.len();
        while i < n
            invariant
                0 <= i <= n,
                n == self.items.len(),
                forall|k: int| 0 <= k < i ==> self@[k].name != name@,
            decreases n - i,
        {
            if self.items[i].name.eq(name) {
                let found = self.items[i].clone();
                proof {
                    assert(0 <= i < self@.len() && found@ == self@[i as int] && self@[i as int].name
                        == name@);
                }
                return Ok(Some(found));
            }
            i += 1;
        }
        Ok(None)
    }

    /// Hands out the identifier of the first record matching both the login
    /// name and the password; `None` exactly when there is none.
    fn select_identifier_by_name_and_password(&self, name: &String, password: &String) -> (r:
        RecorderResult<Option<PersonIdentifier>>)
        ensures
            r matches Ok(o) && (o is Some <==> exists|j: int|
                0 <= j < self@.len() && self@[j].name == name@ && self@[j].password == password@),
            r matches Ok(Some(id)) ==> exists|j: int|
                0 <= j < self@.len() && id@ == self@[j].identifier && self@[j].name == name@
                    && self@[j].password == password@,
    {
        let mut i: usize = 0;
        let n = self.items.len();
        while i < n
            invariant
                0 <= i <= n,
                n == self.items.len(),
                forall|k: int|
                    0 <= k < i ==> !(self@[k].name == name@ && self@[k].password == password@),
            decreases n - i,
        {
            if self.items[i].name.eq(name) && self.items[i].password.eq(password) {
                let id = self.items[i].identifier.clone();
                proof {
                    assert(0 <= i < self@.len() && id@ == self@[i as int].identifier && self@[
                        i as int
                    ].name == name@ && self@[i as int].password == password@);
                }
                return Ok(Some(id));
            }
            i += 1;
        }
        Ok(None)
    }
}

} // verus!
