use vstd::prelude::*;

use crate::user_api::{
    EmailAddress, User, UserID, emails_view, entity_of_user, entity_to_user, user_of,
};
use crate::user_data_source::{
    UserDataSource, UserEntity, matches_emails, strings_view, user_entity_views,
};

verus! {

/// The user directory: a keyed list of accounts looked up by id or by
/// email, with append-only writes and no concurrency of its own.
pub struct UserRepository<D: UserDataSource> {
    pub data_source: D,
}

impl<D: UserDataSource> UserRepository<D> {
    pub fn prepare(data_source: D) -> (r: UserRepository<D>)
        ensures
            r.data_source == data_source,
    {
        UserRepository { data_source }
    }

    /// The user carrying `id`, if any.
    pub fn find_user(&self, id: &str) -> (r: Option<User>)
        ensures
            match r {
                Some(u) => exists|i: int|
                    0 <= i < self.data_source.users().len() && self.data_source.users()[i].id
                        == id@ && u@ == user_of(self.data_source.users()[i]),
                None => forall|i: int|
                    0 <= i < self.data_source.users().len() ==> self.data_source.users()[i].id
                        != id@,
            },
    {
        match self.data_source.find_user(id) {
            Some(entity) => {
                let ghost ev = entity@;
                let u = user_from_entity(entity);
                proof {
                    let i = choose|i: int|
                        0 <= i < self.data_source.users().len() && self.data_source.users()[i].id
                            == id@ && ev == self.data_source.users()[i];
                    assert(0 <= i < self.data_source.users().len()
                        && self.data_source.users()[i].id == id@ && u@ == user_of(
                        self.data_source.users()[i],
                    ));
                }
                Some(u)
            },
            None => None,
        }
    }

    /// The users carrying at least one of the given addresses, in stored
    /// order.
    pub fn find_user_by_emails(&self, emails: &Vec<EmailAddress>) -> (r: Vec<User>)
        ensures
            r@.map_values(|u: User| u@) == self.data_source.users().filter(
                matches_emails(emails_view(emails@)),
            ).map_values(entity_to_user()),
    {
        let mut strs: Vec<String> = Vec::new();
        let n = emails.len();
        for i in 0..n
            invariant
                n == emails@.len(),
                strs@.len() == i,
                forall|k: int| 0 <= k < i ==> strs@[k]@ == emails@[k]@,
        {
            strs.push(emails[i].0.clone());
        }
        proof {
            assert(strings_view(strs@) =~= emails_view(emails@));
        }
        let found = self.data_source.find_user_by_emails(&strs);
        let mut out: Vec<User> = Vec::new();
        let m = found.len();
        for i in 0..m
            invariant
                m == found@.len(),
                user_entity_views(found@) == self.data_source.users().filter(
                    matches_emails(emails_view(emails@)),
                ),
                out@.len() == i,
                forall|k: int| 0 <= k < i ==> out@[k]@ == user_of(found@[k]@),
        {
            out.push(user_from_entity(found[i].clone()));
        }
        proof {
            assert(out@.map_values(|u: User| u@) =~= self.data_source.users().filter(
                matches_emails(emails_view(emails@)),
            ).map_values(entity_to_user()));
        }
        out
    }

    /// Appends a user record.
    pub fn save_user(&mut self, user: User)
        ensures
            final(self).data_source.users() == old(self).data_source.users().push(
                entity_of_user(user@),
            ),
    {
        let ghost uv = user@;
        let mut addresses: Vec<String> = Vec::new();
        let n = user.email_addresses.len();
        for i in 0..n
            invariant
                n == user.email_addresses@.len(),
                addresses@.len() == i,
                forall|k: int| 0 <= k < i ==> addresses@[k]@ == user.email_addresses@[k]@,
        {
            addresses.push(user.email_addresses[i].0.clone());
        }
        let entity = UserEntity {
            id: user.id.0,
            display_name: user.display_name,
            email_addresses: addresses,
        };
        proof {
            assert(entity@ =~= entity_of_user(uv));
        }
        self.data_source.save_user(entity);
    }
}

/// Converts a stored record to the repository's user shape.
pub fn user_from_entity(entity: UserEntity) -> (r: User)
    ensures
        r@ == user_of(entity@),
{
    let ghost ev = entity@;
    let mut email_addresses: Vec<EmailAddress> = Vec::new();
    let n = entity.email_addresses.len();
    for i in 0..n
        invariant
            n == entity.email_addresses@.len(),
            email_addresses@.len() == i,
            forall|k: int|
                0 <= k < i ==> email_addresses@[k]@ == entity.email_addresses@[k]@,
    {
        email_addresses.push(EmailAddress(entity.email_addresses[i].clone()));
    }
    let r = User {
        id: UserID(entity.id),
        display_name: entity.display_name,
        email_addresses,
    };
    proof {
        assert(r@ =~= user_of(ev));
    }
    r
}

} // verus!
