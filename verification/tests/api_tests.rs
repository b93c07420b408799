use chat::chat_api::{ChannelInput, CommentInput, add_channel, add_comment, channel, channels};
use chat::database::DevFlexChatDatabase;
use chat::entity::DevFlexChatTable;
use chat::model::{ChatError, OrderDirection, PollReply};
use chat::paths::{get_chat_database_file_path, get_database_path, get_user_database_file_path};
use chat::repository::DevFlexChatRepository;

fn fresh_repo() -> DevFlexChatRepository {
    let db = DevFlexChatDatabase::create(DevFlexChatTable::new()).unwrap();
    DevFlexChatRepository::prepare(db)
}

#[test]
fn add_channel_then_look_it_up_by_text_id() {
    let mut repo = fresh_repo();
    let (response, publication) = add_channel(
        &mut repo,
        ChannelInput {
            name: "general".to_string(),
        },
    );
    assert_eq!(response.name, "general");
    assert_eq!(response.id.len(), 32);
    assert_eq!(publication.entity.name, "general");

    // the text id resolves back to the stored channel
    let found = channel(&repo, &response.id).unwrap().unwrap();
    assert_eq!(found.name, "general");
    assert_eq!(found.id, publication.entity.id);

    let listed = channels(&repo);
    assert_eq!(listed.len(), 1);
    assert_eq!(listed[0].name, "general");
}

#[test]
fn channel_lookup_rejects_bad_ids() {
    let repo = fresh_repo();
    assert!(matches!(channel(&repo, "not-hex"), Err(ChatError::Parse)));
    let missing = "00000000000000000000000000000001";
    assert!(channel(&repo, missing).unwrap().is_none());
}

#[test]
fn add_comment_flows_through_channel_reference() {
    let mut repo = fresh_repo();
    let (ch, _) = add_channel(
        &mut repo,
        ChannelInput {
            name: "general".to_string(),
        },
    );

    let bad_ref = add_comment(
        &mut repo,
        CommentInput {
            channel_id: "zz".to_string(),
            name: "alice".to_string(),
            message: "hi".to_string(),
        },
    );
    assert!(matches!(bad_ref, Err(ChatError::Parse)));

    let unknown = add_comment(
        &mut repo,
        CommentInput {
            channel_id: "000000000000000000000000000000ff".to_string(),
            name: "alice".to_string(),
            message: "hi".to_string(),
        },
    );
    assert!(matches!(unknown, Err(ChatError::ChannelNotFound)));

    let (response, publication) = add_comment(
        &mut repo,
        CommentInput {
            channel_id: ch.id.clone(),
            name: "alice".to_string(),
            message: "hi".to_string(),
        },
    )
    .unwrap();
    assert_eq!(response.name, "alice");
    assert_eq!(response.message, "hi");
    assert_eq!(response.id.len(), 32);
    assert_eq!(publication.entity.name, "alice");
    assert_eq!(repo.database.table.comments.len(), 1);
}

#[test]
fn channel_comments_query_maps_records() {
    let mut repo = fresh_repo();
    let (ch, _) = add_channel(
        &mut repo,
        ChannelInput {
            name: "general".to_string(),
        },
    );
    for i in 0..3 {
        add_comment(
            &mut repo,
            CommentInput {
                channel_id: ch.id.clone(),
                name: "a".to_string(),
                message: format!("m{}", i),
            },
        )
        .unwrap();
    }
    let found = channel(&repo, &ch.id).unwrap().unwrap();
    let latest_two = found.comments(&repo, 2, &OrderDirection::ASC);
    assert_eq!(latest_two.len(), 2);
    assert_eq!(latest_two[0].message, "m1");
    assert_eq!(latest_two[1].message, "m2");

    let reversed = found.comments(&repo, 2, &OrderDirection::DESC);
    assert_eq!(reversed[0].message, "m2");
    assert_eq!(reversed[1].message, "m1");
}

#[test]
fn channel_comments_long_polling_registers_when_empty() {
    let mut repo = fresh_repo();
    let (ch, _) = add_channel(
        &mut repo,
        ChannelInput {
            name: "general".to_string(),
        },
    );
    let found = channel(&repo, &ch.id).unwrap().unwrap();

    // no cursor: always a registered waiter
    let r = found
        .comments_long_polling(&mut repo, None, &OrderDirection::ASC)
        .unwrap();
    let w = match r {
        PollReply::Wait(w) => w,
        PollReply::Ready(_) => panic!("expected a registered waiter"),
    };

    let (_, publication) = add_comment(
        &mut repo,
        CommentInput {
            channel_id: ch.id.clone(),
            name: "a".to_string(),
            message: "wake".to_string(),
        },
    )
    .unwrap();
    assert!(publication.waiters.contains(&w));

    // a bad cursor is refused before anything is registered
    let bad = found.comments_long_polling(&mut repo, Some("xyz".to_string()), &OrderDirection::ASC);
    assert!(matches!(bad, Err(ChatError::Parse)));
}

#[test]
fn database_paths_join_fixed_filenames() {
    assert_eq!(get_database_path(None), ".");
    assert_eq!(get_database_path(Some("/data".to_string())), "/data");
    assert_eq!(
        get_chat_database_file_path("/data".to_string()),
        "/data/database.toml"
    );
    assert_eq!(
        get_user_database_file_path(".".to_string()),
        "./user.toml"
    );
}
