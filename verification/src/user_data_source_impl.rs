use vstd::prelude::*;

use crate::database::current_version_code;
use crate::model::ChatError;
use crate::user_data_source::{
    UserDataSource, UserEntity, UserEntityView, UserTable, matches_emails, strings_view,
    user_entity_views,
};
use crate::version::Version;
use crate::version_code::{convert_to_version, convert_to_version_code, spec_version_code};
use crate::text::str_eq;

verus! {

/// The in-memory user list backing the `UserDataSource` trait; persistence
/// of the table is the caller's concern.
pub struct UserDataSourceImpl {
    pub table: UserTable,
}

/// The flush counter of the running program for the user table.
pub const FLUSH_CODE: u16 = 0;

/// The schema version this build of the program writes and expects of the
/// user table.
pub fn generate_latest_database_version() -> (r: (Version, u16))
    ensures
        r.0 == (Version { major: 0, minor: 3, patch: 0 }),
        r.1 == 0,
{
    (Version { major: 0, minor: 3, patch: 0 }, FLUSH_CODE)
}

impl UserDataSourceImpl {
    /// Accepts a freshly read user table, refusing one whose stored schema
    /// version differs from the version this program writes.
    pub fn create(table: UserTable) -> (r: Result<UserDataSourceImpl, ChatError>)
        ensures
            match r {
                Ok(ds) => table.version_code == current_version_code() && ds.table == table,
                Err(e) => e == ChatError::SchemaVersion && table.version_code
                    != current_version_code(),
            },
    {
        let (version, flush_code) = generate_latest_database_version();
        let latest = convert_to_version_code(&version, flush_code);
        if table.version_code != latest {
            return Err(ChatError::SchemaVersion);
        }
        Ok(UserDataSourceImpl { table })
    }

    /// The stored schema version of the user table, unpacked.
    pub fn database_version(&self) -> (r: (Version, u16))
        ensures
            spec_version_code(r.0, r.1) == self.table.version_code,
    {
        let r = convert_to_version(self.table.version_code);
        proof {
            crate::version_code::lemma_version_code_round_trip(r.0, r.1);
            vstd::arithmetic::div_mod::lemma_fundamental_div_mod(
                self.table.version_code as int,
                0x1_0000,
            );
            vstd::arithmetic::div_mod::lemma_fundamental_div_mod(
                self.table.version_code as int / 0x1_0000,
                0x1_0000,
            );
            vstd::arithmetic::div_mod::lemma_fundamental_div_mod(
                self.table.version_code as int / 0x1_0000_0000,
                0x1_0000,
            );
        }
        r
    }
}

/// Whether `list` holds a string equal to `e`.
fn contains_string(list: &Vec<String>, e: &String) -> (r: bool)
    ensures
        r == strings_view(list@).contains(e@),
{
    let n = list.len();
    for i in 0..n
        invariant
            n == list@.len(),
            forall|k: int| 0 <= k < i ==> list@[k]@ != e@,
    {
        if str_eq(list[i].as_str(), e.as_str()) {
            proof {
                assert(strings_view(list@)[i as int] == e@);
            }
            return true;
        }
    }
    proof {
        assert forall|k: int| 0 <= k < strings_view(list@).len() implies strings_view(list@)[k]
            != e@ by {
            assert(strings_view(list@)[k] == list@[k]@);
        }
    }
    false
}

/// Whether the user carries at least one of the given addresses.
fn user_matches(u: &UserEntity, emails: &Vec<String>) -> (r: bool)
    ensures
        r == matches_emails(strings_view(emails@))(u@),
{
    let n = u.email_addresses.len();
    for j in 0..n
        invariant
            n == u.email_addresses@.len(),
            forall|k: int|
                0 <= k < j ==> !strings_view(emails@).contains(u@.email_addresses[k]),
    {
        if contains_string(emails, &u.email_addresses[j]) {
            proof {
                assert(u@.email_addresses[j as int] == u.email_addresses@[j as int]@);
            }
            return true;
        }
        proof {
            assert(u@.email_addresses[j as int] == u.email_addresses@[j as int]@);
        }
    }
    proof {
        assert(!matches_emails(strings_view(emails@))(u@));
    }
    false
}

impl UserDataSource for UserDataSourceImpl {
    open spec fn users(&self) -> Seq<UserEntityView> {
        user_entity_views(self.table.users@)
    }

    fn find_user(&self, id: &str) -> (r: Option<UserEntity>) {
        let n = self.table.users.len();
        for i in 0..n
            invariant
                n == self.table.users@.len(),
                forall|k: int| 0 <= k < i ==> user_entity_views(self.table.users@)[k].id != id@,
        {
            if str_eq(self.table.users[i].id.as_str(), id) {
                let found = self.table.users[i].clone();
                proof {
                    assert(user_entity_views(self.table.users@)[i as int]
                        == self.table.users@[i as int]@);
                    assert(exists|k: int|
                        0 <= k < self.users().len() && self.users()[k].id == id@ && found@
                            == self.users()[k]) by {
                        assert(self.users()[i as int].id == id@ && found@
                            == self.users()[i as int]);
                    }
                }
                return Some(found);
            }
            proof {
                assert(user_entity_views(self.table.users@)[i as int]
                    == self.table.users@[i as int]@);
            }
        }
        None
    }

    fn find_user_by_emails(&self, emails: &Vec<String>) -> (r: Vec<UserEntity>) {
        let mut out: Vec<UserEntity> = Vec::new();
        let n = self.table.users.len();
        let ghost pred = matches_emails(strings_view(emails@));
        proof {
            reveal(Seq::filter);
        }
        for i in 0..n
            invariant
                n == self.table.users@.len(),
                pred == matches_emails(strings_view(emails@)),
                user_entity_views(out@) == user_entity_views(self.table.users@).take(
                    i as int,
                ).filter(pred),
        {
            proof {
                reveal(Seq::filter);
                let views = user_entity_views(self.table.users@);
                assert(views.take(i + 1).drop_last() =~= views.take(i as int));
                assert(views.take(i + 1).last() == views[i as int]);
                assert(views[i as int] == self.table.users@[i as int]@);
            }
            if user_matches(&self.table.users[i], emails) {
                out.push(self.table.users[i].clone());
                proof {
                    assert(user_entity_views(out@) =~= user_entity_views(
                        self.table.users@,
                    ).take(i + 1).filter(pred));
                }
            }
        }
        proof {
            assert(user_entity_views(self.table.users@).take(n as int) =~= user_entity_views(
                self.table.users@,
            ));
        }
        out
    }

    fn save_user(&mut self, user: UserEntity) {
        let ghost uv = user@;
        self.table.users.push(user);
        proof {
            assert(user_entity_views(self.table.users@) =~= user_entity_views(
                old(self).table.users@,
            ).push(uv));
        }
    }
}

} // verus!
