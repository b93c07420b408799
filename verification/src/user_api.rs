use vstd::prelude::*;

use crate::ids::{id_text, random_uuid};
use crate::model::ChatError;
use crate::user_data_source::{UserDataSource, UserEntityView, matches_emails};
use crate::user_repository::UserRepository;

verus! {

/// Identifier of a user account, in text form.
#[derive(Debug, PartialEq, Eq, Hash)]
pub struct UserID(pub String);

impl View for UserID {
    type V = Seq<char>;

    open spec fn view(&self) -> Seq<char> {
        self.0@
    }
}

impl Clone for UserID {
    fn clone(&self) -> (r: Self)
        ensures
            r == *self,
    {
        UserID(self.0.clone())
    }
}

/// One email address associated with an account.
#[derive(Debug, PartialEq, Eq, Hash)]
pub struct EmailAddress(pub String);

impl View for EmailAddress {
    type V = Seq<char>;

    open spec fn view(&self) -> Seq<char> {
        self.0@
    }
}

impl Clone for EmailAddress {
    fn clone(&self) -> (r: Self)
        ensures
            r == *self,
    {
        EmailAddress(self.0.clone())
    }
}

/// A user account.
#[derive(Debug, PartialEq, Eq)]
pub struct User {
    pub id: UserID,
    pub display_name: String,
    pub email_addresses: Vec<EmailAddress>,
}

/// The mathematical shape of a user account.
#[verifier::ext_equal]
pub struct UserView {
    pub id: Seq<char>,
    pub display_name: Seq<char>,
    pub email_addresses: Seq<Seq<char>>,
}

/// The views of a vector of email addresses.
pub open spec fn emails_view(s: Seq<EmailAddress>) -> Seq<Seq<char>> {
    s.map_values(|e: EmailAddress| e@)
}

impl View for User {
    type V = UserView;

    open spec fn view(&self) -> UserView {
        UserView {
            id: self.id@,
            display_name: self.display_name@,
            email_addresses: emails_view(self.email_addresses@),
        }
    }
}

/// A stored record seen as a user account.
pub open spec fn user_of(e: UserEntityView) -> UserView {
    UserView { id: e.id, display_name: e.display_name, email_addresses: e.email_addresses }
}

/// The same translation, as a function value for mapping.
pub open spec fn entity_to_user() -> spec_fn(UserEntityView) -> UserView {
    |e: UserEntityView| user_of(e)
}

/// A user account seen as a stored record.
pub open spec fn entity_of_user(u: UserView) -> UserEntityView {
    UserEntityView { id: u.id, display_name: u.display_name, email_addresses: u.email_addresses }
}

/// One address of an account as a query response.
pub struct EmailResponse {
    pub email: String,
    pub visibility: bool,
}

/// The input of an add-user write.
pub struct UserInput {
    pub email: String,
}

/// The reply to an add-user write.
pub struct UserResponse {
    pub id: String,
}

/// The emails carried by a sequence of responses.
pub open spec fn response_emails(r: Seq<EmailResponse>) -> Seq<Seq<char>> {
    r.map_values(|e: EmailResponse| e.email@)
}

impl User {
    /// The addresses of this account as the query layer reports them, each
    /// marked not publicly visible; an account that no longer resolves has
    /// none.
    pub fn emails<D: UserDataSource>(&self, repo: &UserRepository<D>) -> (r: Vec<EmailResponse>)
        ensures
            (forall|i: int|
                0 <= i < repo.data_source.users().len() ==> repo.data_source.users()[i].id
                    != self.id@) ==> r@.len() == 0,
            (exists|i: int|
                0 <= i < repo.data_source.users().len() && repo.data_source.users()[i].id
                    == self.id@) ==> exists|i: int|
                0 <= i < repo.data_source.users().len() && repo.data_source.users()[i].id
                    == self.id@ && response_emails(r@) == repo.data_source.users()[i].email_addresses,
            forall|k: int| 0 <= k < r@.len() ==> r@[k].visibility == false,
    {
        let user = match repo.find_user(self.id.0.as_str()) {
            Some(u) => u,
            None => {
                let empty: Vec<EmailResponse> = Vec::new();
                proof {
                    assert(response_emails(empty@) =~= Seq::<Seq<char>>::empty());
                }
                return empty;
            },
        };
        let mut out: Vec<EmailResponse> = Vec::new();
        let n = user.email_addresses.len();
        for j in 0..n
            invariant
                n == user.email_addresses@.len(),
                out@.len() == j,
                forall|k: int|
                    0 <= k < j ==> out@[k].email@ == user.email_addresses@[k]@ && out@[k].visibility
                        == false,
        {
            out.push(EmailResponse { email: user.email_addresses[j].0.clone(), visibility: false });
        }
        proof {
            assert(response_emails(out@) =~= user@.email_addresses);
            let i = choose|i: int|
                0 <= i < repo.data_source.users().len() && repo.data_source.users()[i].id
                    == self.id@ && user@ == user_of(repo.data_source.users()[i]);
            assert(response_emails(out@) == repo.data_source.users()[i].email_addresses);
        }
        out
    }
}

/// Creates an account under a freshly drawn id, provided no existing
/// account already carries the given address; the address becomes both the
/// display name and the single associated email.
pub fn add_user<D: UserDataSource>(repo: &mut UserRepository<D>, user: UserInput) -> (r: Result<
    UserResponse,
    ChatError,
>)
    ensures
        match r {
            Ok(resp) => {
                &&& old(repo).data_source.users().filter(
                    matches_emails(seq![user.email@]),
                ).len() == 0
                &&& final(repo).data_source.users() == old(repo).data_source.users().push(
                    UserEntityView {
                        id: resp.id@,
                        display_name: user.email@,
                        email_addresses: seq![user.email@],
                    },
                )
            },
            Err(e) => {
                &&& e == ChatError::EmailAlreadyAssociated
                &&& old(repo).data_source.users().filter(matches_emails(seq![user.email@])).len()
                    > 0
                &&& *final(repo) == *old(repo)
            },
        },
{
    let mut query: Vec<EmailAddress> = Vec::new();
    query.push(EmailAddress(user.email.clone()));
    proof {
        assert(emails_view(query@) =~= seq![user.email@]);
    }
    let existing = repo.find_user_by_emails(&query);
    if existing.len() > 0 {
        proof {
            assert(existing@.map_values(|u: User| u@).len() == existing@.len());
        }
        return Err(ChatError::EmailAlreadyAssociated);
    }
    proof {
        assert(existing@.map_values(|u: User| u@).len() == existing@.len());
    }
    let idt = id_text(random_uuid());
    let idt_copy = idt.clone();
    let mut email_addresses: Vec<EmailAddress> = Vec::new();
    let display_name = user.email.clone();
    email_addresses.push(EmailAddress(user.email));
    let account = User { id: UserID(idt), display_name, email_addresses };
    proof {
        assert(entity_of_user(account@) =~= (UserEntityView {
            id: idt_copy@,
            display_name: account@.display_name,
            email_addresses: seq![account@.email_addresses[0]],
        }));
    }
    repo.save_user(account);
    Ok(UserResponse { id: idt_copy })
}

/// Looks an account up by its id in text form.
pub fn user<D: UserDataSource>(repo: &UserRepository<D>, id: &str) -> (r: Option<User>)
    ensures
        match r {
            Some(u) => exists|i: int|
                0 <= i < repo.data_source.users().len() && repo.data_source.users()[i].id == id@
                    && u@ == user_of(repo.data_source.users()[i]),
            None => forall|i: int|
                0 <= i < repo.data_source.users().len() ==> repo.data_source.users()[i].id != id@,
        },
{
    repo.find_user(id)
}

} // verus!
