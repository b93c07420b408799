use vstd::prelude::*;

use crate::database::{
    ChannelPublication, CommentPublication, channels_after, comments_after, comments_view,
    has_channel, in_channel, last_n,
};
use crate::entity::{ChannelEntity, ChannelID, CommentEntity, CommentEntityView, CommentID};
use crate::ids::{id_text, random_uuid};
use crate::model::{ChatError, OrderDirection, PollReply};
use crate::registry::{Topic, can_subscribe, off_topic, waiters_of};
use crate::repository::DevFlexChatRepository;
use crate::text::{hex_digits, hex32_decode, spec_parse_hex32};

verus! {

/// A channel as the query layer sees it.
pub struct Channel {
    pub id: ChannelID,
    pub name: String,
}

impl View for Channel {
    type V = crate::entity::ChannelEntityView;

    open spec fn view(&self) -> crate::entity::ChannelEntityView {
        crate::entity::ChannelEntityView { id: self.id, name: self.name@ }
    }
}

/// The input of an add-channel write.
pub struct ChannelInput {
    pub name: String,
}

/// The reply to an add-channel write: the new channel with its id in text
/// form.
pub struct ChannelResponse {
    pub id: String,
    pub name: String,
}

/// A comment as the query layer returns it: id in text form.
pub struct Comment {
    pub id: String,
    pub name: String,
    pub message: String,
}

/// The input of an add-comment write: the channel reference in text form.
pub struct CommentInput {
    pub channel_id: String,
    pub name: String,
    pub message: String,
}

/// The reply to an add-comment write.
pub struct CommentResponse {
    pub id: String,
    pub name: String,
    pub message: String,
}

/// Whether the comments in `r` are exactly the records of `s`, in order,
/// each with its id written as text.
pub open spec fn comment_texts_match(r: Seq<Comment>, s: Seq<CommentEntityView>) -> bool {
    r.len() == s.len() && forall|k: int|
        0 <= k < s.len() ==> r[k].id@ == hex_digits(s[k].id.0 as int, 32) && r[k].name@ == s[k].name
            && r[k].message@ == s[k].message
}

/// Converts comment records to their query-layer form.
fn map_comments(v: Vec<CommentEntity>) -> (r: Vec<Comment>)
    ensures
        comment_texts_match(r@, comments_view(v@)),
{
    let mut r: Vec<Comment> = Vec::new();
    let n = v.len();
    for i in 0..n
        invariant
            n == v@.len(),
            r@.len() == i,
            forall|k: int|
                0 <= k < i ==> r@[k].id@ == hex_digits(v@[k]@.id.0 as int, 32) && r@[k].name@
                    == v@[k]@.name && r@[k].message@ == v@[k]@.message,
    {
        let c = &v[i];
        r.push(Comment { id: id_text(c.id.0), name: c.name.clone(), message: c.message.clone() });
    }
    r
}

impl Channel {
    /// The "first N" comments of this channel: the last `first` comments by
    /// creation order, ascending or reversed per the requested direction.
    pub fn comments(
        &self,
        repo: &DevFlexChatRepository,
        first: u32,
        order_by: &OrderDirection,
    ) -> (r: Vec<Comment>)
        ensures
            match order_by {
                OrderDirection::ASC => comment_texts_match(
                    r@,
                    last_n(
                        repo.database.table@.comments.filter(in_channel(self.id)),
                        first as int,
                    ),
                ),
                OrderDirection::DESC => comment_texts_match(
                    r@,
                    last_n(
                        repo.database.table@.comments.filter(in_channel(self.id)),
                        first as int,
                    ).reverse(),
                ),
            },
    {
        map_comments(repo.retrieve_first(&self.id, first, order_by))
    }

    /// The long-poll read for this channel's comments: with a cursor, the
    /// comments after it if there are any, else a registered waiter;
    /// without a cursor, always a registered waiter for the next comment.
    pub fn comments_long_polling(
        &self,
        repo: &mut DevFlexChatRepository,
        id: Option<String>,
        order_by: &OrderDirection,
    ) -> (r: Result<PollReply<Comment>, ChatError>)
        requires
            can_subscribe(old(repo).database.registry),
        ensures
            match id {
                Some(cursor) => match r {
                    Ok(reply) => match reply {
                        PollReply::Ready(v) => {
                            &&& spec_parse_hex32(cursor@) matches Some(u)
                            &&& spec_parse_hex32(cursor@) matches Some(u) ==> {
                                &&& comments_after(
                                    old(repo).database.table@.comments.filter(
                                        in_channel(self.id),
                                    ),
                                    CommentID(u),
                                ) matches Some(s)
                                &&& comments_after(
                                    old(repo).database.table@.comments.filter(
                                        in_channel(self.id),
                                    ),
                                    CommentID(u),
                                ) matches Some(s) ==> s.len() > 0 && (match order_by {
                                    OrderDirection::ASC => comment_texts_match(v@, s),
                                    OrderDirection::DESC => comment_texts_match(v@, s.reverse()),
                                })
                            }
                            &&& *final(repo) == *old(repo)
                        },
                        PollReply::Wait(w) => {
                            &&& spec_parse_hex32(cursor@) matches Some(u)
                            &&& spec_parse_hex32(cursor@) matches Some(u) ==> comments_after(
                                old(repo).database.table@.comments.filter(in_channel(self.id)),
                                CommentID(u),
                            ) == Some(Seq::<CommentEntityView>::empty())
                            &&& w == old(repo).database.registry.next_waiter
                            &&& final(repo).database.registry.entries@ == old(
                                repo,
                            ).database.registry.entries@.push((Topic::Channel(self.id), w))
                            &&& final(repo).database.table == old(repo).database.table
                        },
                    },
                    Err(e) => {
                        &&& (e == ChatError::Parse || e == ChatError::NotFound)
                        &&& e == ChatError::Parse ==> spec_parse_hex32(cursor@) is None
                        &&& *final(repo) == *old(repo)
                    },
                },
                None => match r {
                    Ok(reply) => match reply {
                        PollReply::Ready(v) => false,
                        PollReply::Wait(w) => {
                            &&& w == old(repo).database.registry.next_waiter
                            &&& final(repo).database.registry.entries@ == old(
                                repo,
                            ).database.registry.entries@.push((Topic::Channel(self.id), w))
                            &&& final(repo).database.table == old(repo).database.table
                        },
                    },
                    Err(e) => false,
                },
            },
    {
        match id {
            Some(cursor) => {
                let u = match hex32_decode(cursor.as_str()) {
                    Some(u) => u,
                    None => { return Err(ChatError::Parse) },
                };
                match repo.retrieve_after_long_polling(&self.id, &CommentID(u), order_by) {
                    Ok(PollReply::Ready(v)) => Ok(PollReply::Ready(map_comments(v))),
                    Ok(PollReply::Wait(w)) => Ok(PollReply::Wait(w)),
                    Err(e) => Err(e),
                }
            },
            None => Ok(PollReply::Wait(repo.long_polling(&self.id))),
        }
    }
}

/// Looks a channel up by its id in text form.
pub fn channel(repo: &DevFlexChatRepository, id: &str) -> (r: Result<Option<Channel>, ChatError>)
    ensures
        match r {
            Ok(found) => {
                &&& spec_parse_hex32(id@) matches Some(u)
                &&& spec_parse_hex32(id@) matches Some(u) ==> match found {
                    Some(ch) => {
                        &&& ch.id == ChannelID(u)
                        &&& has_channel(repo.database.table@.channels, ChannelID(u))
                        &&& exists|i: int|
                            0 <= i < repo.database.table@.channels.len() && ch@
                                == repo.database.table@.channels[i]
                    },
                    None => !has_channel(repo.database.table@.channels, ChannelID(u)),
                }
            },
            Err(e) => e == ChatError::Parse && spec_parse_hex32(id@) is None,
        },
{
    let u = match hex32_decode(id) {
        Some(u) => u,
        None => { return Err(ChatError::Parse) },
    };
    match repo.find_channel(&ChannelID(u)) {
        Some(entity) => Ok(Some(Channel { id: entity.id, name: entity.name })),
        None => Ok(None),
    }
}

/// All channels, in creation order.
pub fn channels(repo: &DevFlexChatRepository) -> (r: Vec<Channel>)
    ensures
        r@.len() == repo.database.table@.channels.len(),
        forall|k: int|
            0 <= k < r@.len() ==> r@[k].id == repo.database.table@.channels[k].id && r@[k].name@
                == repo.database.table@.channels[k].name,
{
    let entities = repo.channels();
    let mut r: Vec<Channel> = Vec::new();
    let n = entities.len();
    for i in 0..n
        invariant
            n == entities@.len(),
            entities@ == repo.database.table.channels@,
            r@.len() == i,
            forall|k: int|
                0 <= k < i ==> r@[k].id == repo.database.table@.channels[k].id && r@[k].name@
                    == repo.database.table@.channels[k].name,
    {
        let e = &entities[i];
        r.push(Channel { id: e.id, name: e.name.clone() });
    }
    r
}

/// Creates a channel under a freshly drawn id, appends and publishes it;
/// duplicate names are allowed by design.
pub fn add_channel(repo: &mut DevFlexChatRepository, channel: ChannelInput) -> (r: (
    ChannelResponse,
    ChannelPublication,
))
    ensures
        r.1.entity@.name == channel.name@,
        final(repo).database.table@.channels == old(repo).database.table@.channels.push(
            r.1.entity@,
        ),
        final(repo).database.table@.comments == old(repo).database.table@.comments,
        final(repo).database.table.version_code == old(repo).database.table.version_code,
        r.1.waiters@ == waiters_of(old(repo).database.registry.entries@, Topic::AnyChannel),
        final(repo).database.registry.entries@ == old(repo).database.registry.entries@.filter(
            off_topic(Topic::AnyChannel),
        ),
        r.0.id@ == hex_digits(r.1.entity.id.0 as int, 32),
        r.0.name@ == channel.name@,
{
    let id = ChannelID(random_uuid());
    let name_copy = channel.name.clone();
    let p = repo.save_channel(ChannelEntity { id, name: channel.name });
    (ChannelResponse { id: id_text(id.0), name: name_copy }, p)
}

/// Posts a comment under a freshly drawn id to the channel the input names
/// in text form; refused with `Parse` for an unreadable channel reference
/// and with `ChannelNotFound` for an unknown channel, leaving the document
/// unchanged either way.
pub fn add_comment(repo: &mut DevFlexChatRepository, comment: CommentInput) -> (r: Result<
    (CommentResponse, CommentPublication),
    ChatError,
>)
    ensures
        match r {
            Ok(p) => {
                &&& spec_parse_hex32(comment.channel_id@) matches Some(u)
                &&& spec_parse_hex32(comment.channel_id@) matches Some(u) ==> {
                    &&& p.1.entity@.channel_id == ChannelID(u)
                    &&& has_channel(old(repo).database.table@.channels, ChannelID(u))
                }
                &&& p.1.entity@.name == comment.name@
                &&& p.1.entity@.message == comment.message@
                &&& final(repo).database.table@.comments == old(
                    repo,
                ).database.table@.comments.push(p.1.entity@)
                &&& final(repo).database.table@.channels == old(repo).database.table@.channels
                &&& final(repo).database.table.version_code == old(
                    repo,
                ).database.table.version_code
                &&& p.1.waiters@ == waiters_of(
                    old(repo).database.registry.entries@,
                    Topic::Channel(p.1.entity.channel_id),
                )
                &&& final(repo).database.registry.entries@ == old(
                    repo,
                ).database.registry.entries@.filter(off_topic(Topic::Channel(p.1.entity.channel_id)))
                &&& p.0.id@ == hex_digits(p.1.entity.id.0 as int, 32)
                &&& p.0.name@ == comment.name@
                &&& p.0.message@ == comment.message@
            },
            Err(e) => {
                &&& *final(repo) == *old(repo)
                &&& (e == ChatError::Parse || e == ChatError::ChannelNotFound)
                &&& e == ChatError::Parse ==> spec_parse_hex32(comment.channel_id@) is None
                &&& e == ChatError::ChannelNotFound ==> {
                    &&& spec_parse_hex32(comment.channel_id@) matches Some(u)
                    &&& spec_parse_hex32(comment.channel_id@) matches Some(u) ==> !has_channel(
                        old(repo).database.table@.channels,
                        ChannelID(u),
                    )
                }
            },
        },
{
    let u = match hex32_decode(comment.channel_id.as_str()) {
        Some(u) => u,
        None => { return Err(ChatError::Parse) },
    };
    let id = CommentID(random_uuid());
    let name_copy = comment.name.clone();
    let message_copy = comment.message.clone();
    let p = match repo.save_comment(
        CommentEntity {
            id,
            channel_id: ChannelID(u),
            name: comment.name,
            message: comment.message,
        },
    ) {
        Ok(p) => p,
        Err(e) => { return Err(e) },
    };
    Ok((CommentResponse { id: id_text(id.0), name: name_copy, message: message_copy }, p))
}

} // verus!
