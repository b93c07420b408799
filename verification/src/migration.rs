use vstd::prelude::*;

use crate::database::current_version_code;
use crate::entity::{
    ChannelEntity, ChannelEntityView, ChannelID, StoredComment, StoredCommentView, StoredTable,
    StoredTableView, clone_stored_comments,
};
use crate::ids::random_uuid;
use crate::model::ChatError;
use crate::version::Version;
use crate::version_code::spec_version_code;

verus! {

use vstd::string::*;

/// The version code that the channel-introducing schema step stamps.
pub open spec fn code_0_3_0() -> u64 {
    spec_version_code(Version { major: 0, minor: 3, patch: 0 }, 0)
}

/// The version code assumed of a document that predates version stamping.
pub open spec fn code_0_1_0() -> u64 {
    spec_version_code(Version { major: 0, minor: 1, patch: 0 }, 0)
}

/// The version code a stored document claims: a document without the field
/// predates version stamping.
pub open spec fn spec_retrieve_code(st: StoredTableView) -> u64 {
    match st.version_code {
        Some(v) => v,
        None => code_0_1_0(),
    }
}

/// Reads the stored version code, assuming the oldest stamped version for a
/// document that lacks the field.
pub fn retrieve_database_version_code(stored: &StoredTable) -> (r: u64)
    ensures
        r == spec_retrieve_code(stored@),
{
    match stored.version_code {
        Some(v) => v,
        None => {
            let v = Version { major: 0, minor: 1, patch: 0 };
            crate::version_code::convert_to_version_code(&v, 0)
        },
    }
}

/// The channel-introducing schema step: stamp the step's version, replace
/// the channel list with a single fresh channel named "General", and link
/// every pre-existing comment to it.
pub open spec fn spec_migrate_0_3_0(st: StoredTableView, general: ChannelID) -> StoredTableView {
    StoredTableView {
        version_code: Some(code_0_3_0()),
        channels: seq![ChannelEntityView { id: general, name: "General"@ }],
        comments: Seq::new(
            st.comments.len(),
            |i: int|
                StoredCommentView {
                    id: st.comments[i].id,
                    channel_id: Some(general),
                    name: st.comments[i].name,
                    message: st.comments[i].message,
                },
        ),
    }
}

/// Applies the channel-introducing schema step with the given fresh channel
/// id.
pub fn migrate_0_3_0(stored: StoredTable, general_channel_id: ChannelID) -> (r: StoredTable)
    ensures
        r@ == spec_migrate_0_3_0(stored@, general_channel_id),
{
    let v = Version { major: 0, minor: 3, patch: 0 };
    let code = crate::version_code::convert_to_version_code(&v, 0);
    let mut channels: Vec<ChannelEntity> = Vec::new();
    channels.push(ChannelEntity { id: general_channel_id, name: String::from_str("General") });
    let mut comments: Vec<StoredComment> = Vec::new();
    let n = stored.comments.len();
    for i in 0..n
        invariant
            n == stored.comments@.len(),
            comments@.len() == i,
            forall|k: int|
                0 <= k < i ==> comments@[k]@ == (StoredCommentView {
                    id: stored@.comments[k].id,
                    channel_id: Some(general_channel_id),
                    name: stored@.comments[k].name,
                    message: stored@.comments[k].message,
                }),
    {
        let c = &stored.comments[i];
        comments.push(
            StoredComment {
                id: c.id,
                channel_id: Some(general_channel_id),
                name: c.name.clone(),
                message: c.message.clone(),
            },
        );
    }
    let r = StoredTable { version_code: Some(code), comments, channels };
    proof {
        assert(r@ =~= spec_migrate_0_3_0(stored@, general_channel_id));
    }
    r
}

/// Stamps a stored document with a version code.
pub open spec fn spec_set_version_code(st: StoredTableView, code: u64) -> StoredTableView {
    StoredTableView { version_code: Some(code), ..st }
}

pub fn set_database_version_code(stored: StoredTable, version_code: u64) -> (r: StoredTable)
    ensures
        r@ == spec_set_version_code(stored@, version_code),
{
    let r = StoredTable {
        version_code: Some(version_code),
        comments: stored.comments,
        channels: stored.channels,
    };
    proof {
        assert(r@ =~= spec_set_version_code(stored@, version_code));
    }
    r
}

/// The migration run as a whole: refuse a document stamped newer than the
/// program, refuse a program older than its own migration table, apply each
/// step whose target exceeds the stored version in ascending order, and
/// stamp the program's current version at the end.
pub open spec fn spec_migration(st: StoredTableView, general: ChannelID) -> Result<
    StoredTableView,
    ChatError,
> {
    let current = current_version_code();
    let db_code = spec_retrieve_code(st);
    if current < db_code {
        Err(ChatError::SchemaVersion)
    } else if current < code_0_3_0() {
        Err(ChatError::StaleMigrationTable)
    } else {
        let stepped = if db_code < code_0_3_0() {
            spec_migrate_0_3_0(st, general)
        } else {
            st
        };
        Ok(spec_set_version_code(stepped, current))
    }
}

/// Runs the migration with a caller-chosen id for the default channel the
/// first step may create.
pub fn run_migration(stored: StoredTable, general_channel_id: ChannelID) -> (r: Result<
    StoredTable,
    ChatError,
>)
    ensures
        match r {
            Ok(t) => spec_migration(stored@, general_channel_id) == Ok::<
                StoredTableView,
                ChatError,
            >(t@),
            Err(e) => spec_migration(stored@, general_channel_id) == Err::<
                StoredTableView,
                ChatError,
            >(e),
        },
{
    let (version, flush_code) = crate::database::generate_latest_database_version();
    let current = crate::version_code::convert_to_version_code(&version, flush_code);
    let db_code = retrieve_database_version_code(&stored);
    if current < db_code {
        return Err(ChatError::SchemaVersion);
    }
    let v030 = Version { major: 0, minor: 3, patch: 0 };
    let target = crate::version_code::convert_to_version_code(&v030, 0);
    if current < target {
        return Err(ChatError::StaleMigrationTable);
    }
    let stepped = if db_code < target {
        migrate_0_3_0(stored, general_channel_id)
    } else {
        stored
    };
    Ok(set_database_version_code(stepped, current))
}

/// Runs the migration, drawing a fresh random id for the default channel.
pub fn migration(stored: StoredTable) -> (r: Result<StoredTable, ChatError>)
    ensures
        match r {
            Ok(t) => exists|g: ChannelID|
                spec_migration(stored@, g) == Ok::<StoredTableView, ChatError>(t@),
            Err(e) => forall|g: ChannelID|
                spec_migration(stored@, g) == Err::<StoredTableView, ChatError>(e),
        },
{
    let general_channel_id = ChannelID(random_uuid());
    let r = run_migration(stored, general_channel_id);
    proof {
        match &r {
            Ok(t) => {
                assert(spec_migration(stored@, general_channel_id) == Ok::<
                    StoredTableView,
                    ChatError,
                >(t@));
            },
            Err(e) => {
                assert forall|g: ChannelID|
                    spec_migration(stored@, g) == Err::<StoredTableView, ChatError>(*e) by {
                    assert(spec_migration(stored@, general_channel_id) == Err::<
                        StoredTableView,
                        ChatError,
                    >(*e));
                }
            },
        }
    }
    r
}

/// Re-running the migration is a no-op: once a run has succeeded, a second
/// run — whatever fresh channel id it would draw — succeeds and leaves the
/// document exactly as the first run left it, because the stored version
/// code now equals the program's and gates every step off.
pub proof fn lemma_migration_idempotent(
    st: StoredTableView,
    g1: ChannelID,
    g2: ChannelID,
    t1: StoredTableView,
)
    requires
        spec_migration(st, g1) == Ok::<StoredTableView, ChatError>(t1),
    ensures
        spec_migration(t1, g2) == Ok::<StoredTableView, ChatError>(t1),
{
    assert(t1.version_code == Some(current_version_code()));
    assert(spec_retrieve_code(t1) == current_version_code());
    assert(spec_set_version_code(t1, current_version_code()) =~= t1);
}

} // verus!

verus! {

/// The stored version code never decreases: a successful migration stamps
/// the program's current version, which is at least the version the
/// document carried before.
pub proof fn lemma_migration_monotone(st: StoredTableView, g: ChannelID, t: StoredTableView)
    requires
        spec_migration(st, g) == Ok::<StoredTableView, ChatError>(t),
    ensures
        t.version_code == Some(current_version_code()),
        spec_retrieve_code(st) <= current_version_code(),
{
}

} // verus!
