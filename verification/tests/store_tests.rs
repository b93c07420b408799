use chat::database::{DevFlexChatDatabase, FLUSH_CODE, generate_latest_database_version};
use chat::entity::{ChannelEntity, ChannelID, CommentEntity, CommentID, DevFlexChatTable};
use chat::model::{ChatError, OrderDirection, PollReply};
use chat::repository::DevFlexChatRepository;
use chat::version_code::convert_to_version_code;

fn channel(id: u128, name: &str) -> ChannelEntity {
    ChannelEntity {
        id: ChannelID(id),
        name: name.to_string(),
    }
}

fn comment(id: u128, channel_id: u128, name: &str, message: &str) -> CommentEntity {
    CommentEntity {
        id: CommentID(id),
        channel_id: ChannelID(channel_id),
        name: name.to_string(),
        message: message.to_string(),
    }
}

fn fresh_repo() -> DevFlexChatRepository {
    let db = DevFlexChatDatabase::create(DevFlexChatTable::new()).unwrap();
    DevFlexChatRepository::prepare(db)
}

#[test]
fn create_rejects_version_mismatch() {
    let mut table = DevFlexChatTable::new();
    table.version_code += 1;
    assert!(matches!(
        DevFlexChatDatabase::create(table),
        Err(ChatError::SchemaVersion)
    ));
}

#[test]
fn create_accepts_current_version() {
    let table = DevFlexChatTable::new();
    let db = DevFlexChatDatabase::create(table).unwrap();
    let (version, flush) = db.database_version();
    assert_eq!((version, flush), generate_latest_database_version());
    assert_eq!(
        db.table.version_code,
        convert_to_version_code(&version, FLUSH_CODE)
    );
}

#[test]
fn channels_after_cursor_ordering() {
    let mut repo = fresh_repo();
    repo.save_channel(channel(1, "A"));
    repo.save_channel(channel(2, "B"));
    repo.save_channel(channel(3, "C"));

    let after_b = repo
        .database
        .channels_after_created_asc(&ChannelID(2))
        .unwrap();
    assert_eq!(after_b, vec![channel(3, "C")]);

    let after_c = repo
        .database
        .channels_after_created_asc(&ChannelID(3))
        .unwrap();
    assert_eq!(after_c, vec![]);

    assert!(matches!(
        repo.database.channels_after_created_asc(&ChannelID(99)),
        Err(ChatError::NotFound)
    ));
}

#[test]
fn save_comment_requires_existing_channel() {
    let mut repo = fresh_repo();
    repo.save_channel(channel(1, "general"));

    let r = repo.save_comment(comment(10, 2, "alice", "hello"));
    assert!(matches!(r, Err(ChatError::ChannelNotFound)));

    // the failed write left the document unchanged
    assert_eq!(repo.database.table.comments, vec![]);
    assert_eq!(repo.database.table.channels, vec![channel(1, "general")]);

    let ok = repo.save_comment(comment(10, 1, "alice", "hello")).unwrap();
    assert_eq!(ok.entity, comment(10, 1, "alice", "hello"));
    assert_eq!(repo.database.table.comments.len(), 1);
}

#[test]
fn first_comments_returns_last_n_ascending() {
    let mut repo = fresh_repo();
    repo.save_channel(channel(1, "general"));
    repo.save_comment(comment(11, 1, "a", "c1")).unwrap();
    repo.save_comment(comment(12, 1, "a", "c2")).unwrap();
    repo.save_comment(comment(13, 1, "a", "c3")).unwrap();
    repo.save_comment(comment(14, 1, "a", "c4")).unwrap();

    let asc = repo.retrieve_first(&ChannelID(1), 2, &OrderDirection::ASC);
    assert_eq!(
        asc,
        vec![comment(13, 1, "a", "c3"), comment(14, 1, "a", "c4")]
    );

    let desc = repo.retrieve_first(&ChannelID(1), 2, &OrderDirection::DESC);
    assert_eq!(
        desc,
        vec![comment(14, 1, "a", "c4"), comment(13, 1, "a", "c3")]
    );

    let all = repo.retrieve_first(&ChannelID(1), 10, &OrderDirection::ASC);
    assert_eq!(all.len(), 4);
}

#[test]
fn comments_after_cursor_and_direction() {
    let mut repo = fresh_repo();
    repo.save_channel(channel(1, "general"));
    repo.save_channel(channel(2, "random"));
    repo.save_comment(comment(11, 1, "a", "c1")).unwrap();
    repo.save_comment(comment(21, 2, "b", "other")).unwrap();
    repo.save_comment(comment(12, 1, "a", "c2")).unwrap();
    repo.save_comment(comment(13, 1, "a", "c3")).unwrap();

    let asc = repo
        .database
        .retrieve_after_created_asc(&ChannelID(1), &CommentID(11))
        .unwrap();
    assert_eq!(
        asc,
        vec![comment(12, 1, "a", "c2"), comment(13, 1, "a", "c3")]
    );

    let desc = repo
        .database
        .retrieve_after_created_desc(&ChannelID(1), &CommentID(11))
        .unwrap();
    assert_eq!(
        desc,
        vec![comment(13, 1, "a", "c3"), comment(12, 1, "a", "c2")]
    );

    // a cursor from another channel's comments does not resolve here
    assert!(matches!(
        repo.database
            .retrieve_after_created_asc(&ChannelID(1), &CommentID(21)),
        Err(ChatError::NotFound)
    ));
}

#[test]
fn long_poll_waiter_wakes_on_matching_channel_only() {
    let mut repo = fresh_repo();
    repo.save_channel(channel(1, "x"));
    repo.save_channel(channel(2, "y"));

    let w = repo.long_polling(&ChannelID(1));

    // a write to another channel does not deliver to the waiter
    let other = repo.save_comment(comment(21, 2, "b", "elsewhere")).unwrap();
    assert!(!other.waiters.contains(&w));

    // the next write to the watched channel delivers exactly that comment
    let hit = repo.save_comment(comment(11, 1, "a", "hello")).unwrap();
    assert_eq!(hit.waiters, vec![w]);
    assert_eq!(hit.entity, comment(11, 1, "a", "hello"));

    // delivery is single-use: the next write wakes nobody
    let again = repo.save_comment(comment(12, 1, "a", "again")).unwrap();
    assert_eq!(again.waiters, vec![]);
}

#[test]
fn channel_creation_wakes_any_channel_waiters() {
    let mut repo = fresh_repo();
    let w1 = repo.channel_long_polling();
    let w2 = repo.channel_long_polling();
    let p = repo.save_channel(channel(1, "fresh"));
    assert_eq!(p.waiters, vec![w1, w2]);
    assert_eq!(p.entity, channel(1, "fresh"));
}

#[test]
fn long_poll_read_returns_data_or_registers() {
    let mut repo = fresh_repo();
    repo.save_channel(channel(1, "x"));
    repo.save_comment(comment(11, 1, "a", "c1")).unwrap();
    repo.save_comment(comment(12, 1, "a", "c2")).unwrap();

    // data after the cursor is returned at once
    let ready = repo
        .retrieve_after_long_polling(&ChannelID(1), &CommentID(11), &OrderDirection::ASC)
        .unwrap();
    assert_eq!(
        ready,
        PollReply::Ready(vec![comment(12, 1, "a", "c2")])
    );

    // nothing after the cursor: the caller is registered as a waiter
    let wait = repo
        .retrieve_after_long_polling(&ChannelID(1), &CommentID(12), &OrderDirection::ASC)
        .unwrap();
    let w = match wait {
        PollReply::Wait(w) => w,
        PollReply::Ready(_) => panic!("expected a registered waiter"),
    };
    let p = repo.save_comment(comment(13, 1, "a", "c3")).unwrap();
    assert_eq!(p.waiters, vec![w]);

    // an unknown cursor is refused
    assert!(matches!(
        repo.retrieve_after_long_polling(&ChannelID(1), &CommentID(99), &OrderDirection::ASC),
        Err(ChatError::NotFound)
    ));
}

#[test]
fn serialized_writes_each_land_exactly_once() {
    let mut repo = fresh_repo();
    repo.save_channel(channel(1, "general"));
    let n = 20u128;
    for i in 0..n {
        repo.save_comment(comment(100 + i, 1, "writer", &format!("payload {}", i)))
            .unwrap();
    }
    let all = repo.database.retrieve_comments(&ChannelID(1));
    assert_eq!(all.len(), n as usize);
    for i in 0..n {
        let matching: Vec<&CommentEntity> = all
            .iter()
            .filter(|c| c.id == CommentID(100 + i))
            .collect();
        assert_eq!(matching.len(), 1);
        assert_eq!(matching[0].message, format!("payload {}", i));
    }
}
