use chat::model::ChatError;
use chat::user_api::{EmailAddress, User, UserID, UserInput, add_user, user};
use chat::user_data_source::{UserDataSource, UserEntity, UserTable};
use chat::user_data_source_impl::UserDataSourceImpl;
use chat::user_repository::UserRepository;

fn fresh_repo() -> UserRepository<UserDataSourceImpl> {
    let ds = UserDataSourceImpl::create(UserTable::new()).unwrap();
    UserRepository::prepare(ds)
}

fn account(id: &str, name: &str, emails: &[&str]) -> User {
    User {
        id: UserID(id.to_string()),
        display_name: name.to_string(),
        email_addresses: emails
            .iter()
            .map(|e| EmailAddress(e.to_string()))
            .collect(),
    }
}

#[test]
fn user_table_create_rejects_version_mismatch() {
    let mut table = UserTable::new();
    table.version_code += 1;
    assert!(matches!(
        UserDataSourceImpl::create(table),
        Err(ChatError::SchemaVersion)
    ));
}

#[test]
fn save_and_find_user_by_id() {
    let mut repo = fresh_repo();
    repo.save_user(account("u1", "Alice", &["a@example.com"]));
    repo.save_user(account("u2", "Bob", &["b@example.com"]));

    let found = repo.find_user("u2").unwrap();
    assert_eq!(found.display_name, "Bob");
    assert_eq!(found.email_addresses, vec![EmailAddress("b@example.com".to_string())]);
    assert!(repo.find_user("u3").is_none());
}

#[test]
fn find_user_by_emails_filters_by_membership() {
    let mut repo = fresh_repo();
    repo.save_user(account("u1", "Alice", &["a@example.com", "shared@example.com"]));
    repo.save_user(account("u2", "Bob", &["b@example.com"]));
    repo.save_user(account("u3", "Cara", &["shared@example.com"]));

    let hits = repo.find_user_by_emails(&vec![EmailAddress("shared@example.com".to_string())]);
    assert_eq!(hits.len(), 2);
    assert_eq!(hits[0].id, UserID("u1".to_string()));
    assert_eq!(hits[1].id, UserID("u3".to_string()));

    let none = repo.find_user_by_emails(&vec![EmailAddress("nobody@example.com".to_string())]);
    assert_eq!(none.len(), 0);
}

#[test]
fn add_user_rejects_duplicate_email() {
    let mut repo = fresh_repo();
    let first = add_user(
        &mut repo,
        UserInput {
            email: "a@example.com".to_string(),
        },
    )
    .unwrap();

    // the new account carries the email as display name and only address
    let fetched = user(&repo, &first.id).unwrap();
    assert_eq!(fetched.display_name, "a@example.com");
    assert_eq!(
        fetched.email_addresses,
        vec![EmailAddress("a@example.com".to_string())]
    );

    let second = add_user(
        &mut repo,
        UserInput {
            email: "a@example.com".to_string(),
        },
    );
    assert!(matches!(second, Err(ChatError::EmailAlreadyAssociated)));
}

#[test]
fn user_emails_reports_addresses_not_visible() {
    let mut repo = fresh_repo();
    repo.save_user(account("u1", "Alice", &["a@example.com", "a2@example.com"]));
    let alice = repo.find_user("u1").unwrap();
    let responses = alice.emails(&repo);
    assert_eq!(responses.len(), 2);
    assert_eq!(responses[0].email, "a@example.com");
    assert_eq!(responses[1].email, "a2@example.com");
    assert!(responses.iter().all(|r| !r.visibility));

    let ghost_account = account("missing", "Nobody", &[]);
    assert_eq!(ghost_account.emails(&repo).len(), 0);
}

#[test]
fn data_source_version_round_trip() {
    let ds = UserDataSourceImpl::create(UserTable::new()).unwrap();
    let (version, flush) = ds.database_version();
    assert_eq!(
        (version, flush),
        chat::user_data_source_impl::generate_latest_database_version()
    );
    assert!(ds.find_user("anyone").is_none());
}
