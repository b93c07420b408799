use chat::codec::{encode_stored, encode_table, finalize_stored, parse_stored, to_stored};
use chat::database::DevFlexChatDatabase;
use chat::entity::{
    ChannelEntity, ChannelID, CommentEntity, CommentID, DevFlexChatTable, StoredComment,
    StoredTable,
};
use chat::model::ChatError;
use chat::repository::DevFlexChatRepository;

fn channel(id: u128, name: &str) -> ChannelEntity {
    ChannelEntity {
        id: ChannelID(id),
        name: name.to_string(),
    }
}

fn comment(id: u128, channel_id: u128, name: &str, message: &str) -> CommentEntity {
    CommentEntity {
        id: CommentID(id),
        channel_id: ChannelID(channel_id),
        name: name.to_string(),
        message: message.to_string(),
    }
}

#[test]
fn empty_table_encodes_to_version_line() {
    let table = DevFlexChatTable::new();
    // 0.3.0 with flush 0 packs to 3 << 32
    assert_eq!(encode_table(&table), "version-code = 12884901888\n");
}

#[test]
fn channel_line_text_is_exact() {
    let mut table = DevFlexChatTable::new();
    table.channels.push(channel(1, "General"));
    assert_eq!(
        encode_table(&table),
        "version-code = 12884901888\n\
         channel = { id = \"00000000000000000000000000000001\", name = \"General\" }\n"
    );
}

#[test]
fn comment_line_text_is_exact() {
    let mut table = DevFlexChatTable::new();
    table.channels.push(channel(1, "General"));
    table.comments.push(comment(2, 1, "alice", "hi \"there\"\nline2"));
    assert_eq!(
        encode_table(&table),
        "version-code = 12884901888\n\
         comment = { id = \"00000000000000000000000000000002\", \
         channel-id = \"00000000000000000000000000000001\", \
         name = \"alice\", message = \"hi \\\"there\\\"\\nline2\" }\n\
         channel = { id = \"00000000000000000000000000000001\", name = \"General\" }\n"
    );
}

#[test]
fn save_read_round_trip_many_records() {
    let mut table = DevFlexChatTable::new();
    for i in 0..5u128 {
        table.channels.push(channel(i + 1, &format!("channel {}", i)));
    }
    let awkward = [
        "plain",
        "with \"quotes\"",
        "back\\slash",
        "tab\tand\rreturn",
        "new\nline",
        "",
        "ünïcödé ✓",
    ];
    for (i, text) in awkward.iter().enumerate() {
        table
            .comments
            .push(comment(100 + i as u128, (i as u128 % 5) + 1, "author", text));
    }

    let text = encode_table(&table);
    let stored = parse_stored(&text).unwrap();
    let reread = finalize_stored(stored).unwrap();
    assert_eq!(reread, table);
}

#[test]
fn reopening_a_saved_store_preserves_order() {
    let db = DevFlexChatDatabase::create(DevFlexChatTable::new()).unwrap();
    let mut repo = DevFlexChatRepository::prepare(db);
    repo.save_channel(channel(1, "first"));
    repo.save_channel(channel(2, "second"));
    repo.save_comment(comment(10, 1, "a", "one")).unwrap();
    repo.save_comment(comment(11, 2, "b", "two")).unwrap();
    repo.save_comment(comment(12, 1, "a", "three")).unwrap();

    let text = encode_table(&repo.database.table);
    let reread = finalize_stored(parse_stored(&text).unwrap()).unwrap();
    let reopened = DevFlexChatDatabase::create(reread).unwrap();
    assert_eq!(reopened.table.channels, repo.database.table.channels);
    assert_eq!(reopened.table.comments, repo.database.table.comments);
}

#[test]
fn parse_rejects_malformed_text() {
    assert_eq!(parse_stored("garbage"), Err(ChatError::Parse));
    assert_eq!(
        parse_stored("version-code = notanumber\n"),
        Err(ChatError::Parse)
    );
    assert_eq!(
        parse_stored("channel = { id = \"tooshort\", name = \"x\" }\n"),
        Err(ChatError::Parse)
    );
    assert_eq!(
        parse_stored("version-code = 99999999999999999999999999\n"),
        Err(ChatError::Parse)
    );
    assert_eq!(
        parse_stored("channel = { id = \"00000000000000000000000000000001\", name = \"unterminated\n"),
        Err(ChatError::Parse)
    );
}

#[test]
fn finalize_requires_version_and_channel_links() {
    // no version line at all
    let stored = parse_stored("").unwrap();
    assert_eq!(finalize_stored(stored), Err(ChatError::MissingVersionCode));

    // a comment that still lacks its channel reference
    let legacy = StoredTable {
        version_code: Some(12884901888),
        comments: vec![StoredComment {
            id: CommentID(1),
            channel_id: None,
            name: "a".to_string(),
            message: "m".to_string(),
        }],
        channels: vec![],
    };
    assert_eq!(finalize_stored(legacy), Err(ChatError::Parse));
}

#[test]
fn legacy_comment_lines_parse_without_channel_reference() {
    let text = "comment = { id = \"000000000000000000000000000000aa\", \
                name = \"old\", message = \"pre-channel era\" }\n";
    let stored = parse_stored(text).unwrap();
    assert_eq!(stored.version_code, None);
    assert_eq!(stored.comments.len(), 1);
    assert_eq!(stored.comments[0].id, CommentID(0xaa));
    assert_eq!(stored.comments[0].channel_id, None);
    assert_eq!(stored.channels.len(), 0);
}

#[test]
fn stored_round_trip_keeps_optional_fields() {
    let stored = StoredTable {
        version_code: None,
        comments: vec![StoredComment {
            id: CommentID(7),
            channel_id: None,
            name: "n".to_string(),
            message: "m".to_string(),
        }],
        channels: vec![],
    };
    let text = encode_stored(&stored);
    assert_eq!(parse_stored(&text).unwrap(), stored);
}

#[test]
fn to_stored_marks_everything_present() {
    let mut table = DevFlexChatTable::new();
    table.channels.push(channel(1, "c"));
    table.comments.push(comment(2, 1, "a", "m"));
    let stored = to_stored(&table);
    assert_eq!(stored.version_code, Some(table.version_code));
    assert_eq!(stored.comments[0].channel_id, Some(ChannelID(1)));
}
