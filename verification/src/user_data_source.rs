use vstd::prelude::*;

use crate::database::current_version_code;
use crate::version_code::convert_to_version_code;

verus! {

/// A user record: an opaque id, a display name, and the email addresses
/// associated with the account.
#[derive(Debug, PartialEq, Eq)]
pub struct UserEntity {
    pub id: String,
    pub display_name: String,
    pub email_addresses: Vec<String>,
}

/// The mathematical shape of a user record.
#[verifier::ext_equal]
pub struct UserEntityView {
    pub id: Seq<char>,
    pub display_name: Seq<char>,
    pub email_addresses: Seq<Seq<char>>,
}

/// The views of a vector of strings.
pub open spec fn strings_view(s: Seq<String>) -> Seq<Seq<char>> {
    s.map_values(|e: String| e@)
}

impl View for UserEntity {
    type V = UserEntityView;

    open spec fn view(&self) -> UserEntityView {
        UserEntityView {
            id: self.id@,
            display_name: self.display_name@,
            email_addresses: strings_view(self.email_addresses@),
        }
    }
}

impl Clone for UserEntity {
    fn clone(&self) -> (r: Self)
        ensures
            r@ == self@,
    {
        UserEntity {
            id: self.id.clone(),
            display_name: self.display_name.clone(),
            email_addresses: clone_strings(&self.email_addresses),
        }
    }
}

pub fn clone_strings(v: &Vec<String>) -> (r: Vec<String>)
    ensures
        r@ == v@,
{
    let mut r: Vec<String> = Vec::new();
    for i in 0..v.len()
        invariant
            r@ == v@.take(i as int),
    {
        r.push(v[i].clone());
        proof {
            assert(v@.take(i + 1) =~= v@.take(i as int).push(v@[i as int]));
        }
    }
    proof {
        assert(v@.take(v@.len() as int) =~= v@);
    }
    r
}

/// Holds of the users that carry at least one of the given email
/// addresses.
pub open spec fn matches_emails(emails: Seq<Seq<char>>) -> spec_fn(UserEntityView) -> bool {
    |u: UserEntityView|
        exists|j: int| 0 <= j < u.email_addresses.len() && emails.contains(u.email_addresses[j])
}

/// The views of a vector of users.
pub open spec fn user_entity_views(s: Seq<UserEntity>) -> Seq<UserEntityView> {
    s.map_values(|u: UserEntity| u@)
}

/// The keyed user list the user repository reads and writes: lookup by id,
/// lookup by email membership, append-only writes.
pub trait UserDataSource {
    /// The stored user records, in insertion order.
    spec fn users(&self) -> Seq<UserEntityView>;

    /// The first user whose id is `id`, if any.
    fn find_user(&self, id: &str) -> (r: Option<UserEntity>)
        ensures
            match r {
                Some(u) => exists|i: int|
                    0 <= i < self.users().len() && self.users()[i].id == id@ && u@
                        == self.users()[i],
                None => forall|i: int| 0 <= i < self.users().len() ==> self.users()[i].id != id@,
            },
    ;

    /// The users carrying at least one of the given addresses, in stored
    /// order.
    fn find_user_by_emails(&self, emails: &Vec<String>) -> (r: Vec<UserEntity>)
        ensures
            user_entity_views(r@) == self.users().filter(matches_emails(strings_view(emails@))),
    ;

    /// Appends a user record.
    fn save_user(&mut self, user: UserEntity)
        ensures
            final(self).users() == old(self).users().push(user@),
    ;
}

/// The user table as stored: a version code and the user records.
#[derive(Debug, PartialEq, Eq)]
pub struct UserTable {
    pub version_code: u64,
    pub users: Vec<UserEntity>,
}

impl UserTable {
    /// A fresh user table: current version, no users.
    pub fn new() -> (r: UserTable)
        ensures
            r.version_code == current_version_code(),
            r.users@.len() == 0,
    {
        let (version, flush_code) = crate::database::generate_latest_database_version();
        UserTable { version_code: convert_to_version_code(&version, flush_code), users: Vec::new() }
    }
}

} // verus!
