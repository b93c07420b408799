use chat::entity::{ChannelID, CommentID, StoredComment, StoredTable};
use chat::migration::{
    migrate_0_3_0, migration, retrieve_database_version_code, run_migration,
    set_database_version_code,
};
use chat::model::ChatError;

fn legacy_comment(id: u128, message: &str) -> StoredComment {
    StoredComment {
        id: CommentID(id),
        channel_id: None,
        name: "old author".to_string(),
        message: message.to_string(),
    }
}

fn legacy_table() -> StoredTable {
    StoredTable {
        version_code: None,
        comments: vec![
            legacy_comment(1, "first"),
            legacy_comment(2, "second"),
            legacy_comment(3, "third"),
        ],
        channels: vec![],
    }
}

#[test]
fn version_code_defaults_to_oldest_stamp() {
    // a document without the field counts as 0.1.0
    assert_eq!(retrieve_database_version_code(&legacy_table()), 1 << 32);
    let stamped = set_database_version_code(legacy_table(), 42);
    assert_eq!(retrieve_database_version_code(&stamped), 42);
}

#[test]
fn migration_step_links_all_comments_to_general() {
    let migrated = migrate_0_3_0(legacy_table(), ChannelID(77));
    assert_eq!(migrated.version_code, Some(3 << 32));
    assert_eq!(migrated.channels.len(), 1);
    assert_eq!(migrated.channels[0].id, ChannelID(77));
    assert_eq!(migrated.channels[0].name, "General");
    assert_eq!(migrated.comments.len(), 3);
    for c in &migrated.comments {
        assert_eq!(c.channel_id, Some(ChannelID(77)));
    }
    assert_eq!(migrated.comments[0].message, "first");
    assert_eq!(migrated.comments[2].message, "third");
}

#[test]
fn migration_runs_step_and_stamps_current_version() {
    let out = run_migration(legacy_table(), ChannelID(9)).unwrap();
    assert_eq!(out.version_code, Some(3 << 32));
    assert_eq!(out.channels.len(), 1);
    assert_eq!(out.channels[0].name, "General");
    assert_eq!(out.comments.len(), 3);
    for c in &out.comments {
        assert_eq!(c.channel_id, Some(ChannelID(9)));
    }
}

#[test]
fn migration_is_gated_by_version_code_on_second_run() {
    let first = run_migration(legacy_table(), ChannelID(9)).unwrap();
    // the second run draws a different id, but the version gate keeps it
    // from inserting a second default channel or touching anything
    let second = run_migration(first.clone(), ChannelID(10)).unwrap();
    assert_eq!(second, first);
}

#[test]
fn migration_refuses_a_newer_document() {
    let newer = set_database_version_code(legacy_table(), u64::MAX);
    assert_eq!(
        run_migration(newer, ChannelID(1)),
        Err(ChatError::SchemaVersion)
    );
    let newer_again = set_database_version_code(legacy_table(), u64::MAX);
    assert_eq!(migration(newer_again), Err(ChatError::SchemaVersion));
}

#[test]
fn migration_with_fresh_id_links_comments() {
    let out = migration(legacy_table()).unwrap();
    assert_eq!(out.channels.len(), 1);
    assert_eq!(out.channels[0].name, "General");
    let general = out.channels[0].id;
    for c in &out.comments {
        assert_eq!(c.channel_id, Some(general));
    }
}

#[test]
fn up_to_date_document_passes_unchanged_but_restamped() {
    let stamped = StoredTable {
        version_code: Some(3 << 32),
        comments: vec![StoredComment {
            id: CommentID(5),
            channel_id: Some(ChannelID(1)),
            name: "a".to_string(),
            message: "m".to_string(),
        }],
        channels: vec![chat::entity::ChannelEntity {
            id: ChannelID(1),
            name: "keep me".to_string(),
        }],
    };
    let out = run_migration(stamped.clone(), ChannelID(99)).unwrap();
    assert_eq!(out.comments, stamped.comments);
    assert_eq!(out.channels, stamped.channels);
    assert_eq!(out.version_code, Some(3 << 32));
}
