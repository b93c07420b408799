use vstd::prelude::*;

verus! {

/// Failure taxonomy of the store.
///
/// Storage- and schema-level failures (`Io`, `Parse`, `Serialize`,
/// `SchemaVersion`, `MissingVersionCode`, `StaleMigrationTable`,
/// `RegistryPoisoned`) are fatal to the calling request; `NotFound` and
/// `ChannelNotFound` are ordinary failures the caller may recover from by
/// retrying with different inputs.
#[derive(Clone, Copy, Debug, PartialEq, Eq, Structural)]
pub enum ChatError {
    /// A file could not be opened, created, read or written.
    Io,
    /// The document text does not parse.
    Parse,
    /// The document could not be rendered for storage.
    Serialize,
    /// The stored schema version does not match what this program expects.
    SchemaVersion,
    /// The document lacks its version-code field.
    MissingVersionCode,
    /// A cursor or channel id does not resolve to any record.
    NotFound,
    /// A comment refers to a channel that is not in the document.
    ChannelNotFound,
    /// A waiter list was left in an inconsistent state by another thread.
    RegistryPoisoned,
    /// The running program is older than its own migration table.
    StaleMigrationTable,
    /// An email address is already associated with another account.
    EmailAlreadyAssociated,
}

/// Direction of an ordered comment or channel query.
#[derive(Clone, Copy, Debug, PartialEq, Eq, Structural)]
pub enum OrderDirection {
    ASC,
    DESC,
}

/// Outcome of a long-polling read: either records were already available, or
/// the caller was registered as a waiter and must block on the given handle
/// until the next matching write publishes to it.
#[derive(Debug, PartialEq, Eq)]
pub enum PollReply<T> {
    Ready(Vec<T>),
    Wait(u64),
}

/// The pair of repositories a request handler works against, created once
/// at startup and shared for the process's lifetime.
pub struct Context<D: crate::user_data_source::UserDataSource> {
    pub chat_repo: crate::repository::DevFlexChatRepository,
    pub user_repo: crate::user_repository::UserRepository<D>,
}

impl<D: crate::user_data_source::UserDataSource> Context<D> {
    pub fn new(
        chat_repo: crate::repository::DevFlexChatRepository,
        user_repo: crate::user_repository::UserRepository<D>,
    ) -> (r: Context<D>)
        ensures
            r.chat_repo == chat_repo,
            r.user_repo == user_repo,
    {
        Context { chat_repo, user_repo }
    }
}

} // verus!
