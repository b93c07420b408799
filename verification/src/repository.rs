use vstd::prelude::*;

use crate::database::{
    ChannelPublication, CommentPublication, DevFlexChatDatabase, channels_after, channels_view,
    comments_after, comments_view, has_channel, in_channel, last_n,
};
use crate::entity::{
    ChannelEntity, ChannelEntityView, ChannelID, CommentEntity, CommentEntityView, CommentID,
};
use crate::model::{ChatError, OrderDirection, PollReply};
use crate::registry::{Topic, can_subscribe, off_topic, waiters_of};
use crate::version::Version;
use crate::version_code::spec_version_code;

verus! {

/// The facade the request handlers talk to: one repository owns the
/// document store and its subscription registry for the process's
/// lifetime.
pub struct DevFlexChatRepository {
    pub database: DevFlexChatDatabase,
}

impl DevFlexChatRepository {
    pub fn prepare(database: DevFlexChatDatabase) -> (r: DevFlexChatRepository)
        ensures
            r.database == database,
    {
        DevFlexChatRepository { database }
    }

    /// Registers a waiter for the next channel creation.
    pub fn channel_long_polling(&mut self) -> (w: u64)
        requires
            can_subscribe(old(self).database.registry),
        ensures
            w == old(self).database.registry.next_waiter,
            final(self).database.registry.entries@ == old(self).database.registry.entries@.push(
                (Topic::AnyChannel, w),
            ),
            final(self).database.registry.next_waiter == old(self).database.registry.next_waiter
                + 1,
            final(self).database.table == old(self).database.table,
    {
        self.database.channel_long_polling()
    }

    /// All channels in creation order.
    pub fn channels(&self) -> (r: Vec<ChannelEntity>)
        ensures
            r@ == self.database.table.channels@,
    {
        self.database.channels_created_asc()
    }

    /// The stored schema version, unpacked.
    pub fn database_version(&self) -> (r: (Version, u16))
        ensures
            spec_version_code(r.0, r.1) == self.database.table.version_code,
    {
        self.database.database_version()
    }

    /// The first channel carrying `id`, if any.
    pub fn find_channel(&self, id: &ChannelID) -> (r: Option<ChannelEntity>)
        ensures
            match r {
                Some(c) => has_channel(self.database.table@.channels, *id) && c.id == *id
                    && exists|i: int|
                        0 <= i < self.database.table@.channels.len() && c@
                            == self.database.table@.channels[i],
                None => !has_channel(self.database.table@.channels, *id),
            },
    {
        self.database.find_channel(id)
    }

    /// The long-poll read for channels after a cursor.
    pub fn retrieve_channel_after_long_polling(
        &mut self,
        id: &ChannelID,
        order_direction: &OrderDirection,
    ) -> (r: Result<PollReply<ChannelEntity>, ChatError>)
        requires
            can_subscribe(old(self).database.registry),
        ensures
            match r {
                Ok(reply) => match reply {
                    PollReply::Ready(v) => {
                        &&& channels_after(old(self).database.table@.channels, *id) == Some(
                            channels_view(v@),
                        )
                        &&& v@.len() > 0
                        &&& *final(self) == *old(self)
                    },
                    PollReply::Wait(w) => {
                        &&& channels_after(old(self).database.table@.channels, *id) == Some(
                            Seq::<ChannelEntityView>::empty(),
                        )
                        &&& w == old(self).database.registry.next_waiter
                        &&& final(self).database.registry.entries@ == old(
                            self,
                        ).database.registry.entries@.push((Topic::AnyChannel, w))
                        &&& final(self).database.registry.next_waiter == old(
                            self,
                        ).database.registry.next_waiter + 1
                        &&& final(self).database.table == old(self).database.table
                    },
                },
                Err(e) => {
                    &&& e == ChatError::NotFound
                    &&& channels_after(old(self).database.table@.channels, *id) is None
                    &&& *final(self) == *old(self)
                },
            },
    {
        self.database.channels_after_long_polling(id, order_direction)
    }

    /// The "first N" comment query, in the requested direction.
    pub fn retrieve_first(
        &self,
        channel_id: &ChannelID,
        count: u32,
        order_direction: &OrderDirection,
    ) -> (r: Vec<CommentEntity>)
        ensures
            match order_direction {
                OrderDirection::ASC => comments_view(r@) == last_n(
                    self.database.table@.comments.filter(in_channel(*channel_id)),
                    count as int,
                ),
                OrderDirection::DESC => comments_view(r@) == last_n(
                    self.database.table@.comments.filter(in_channel(*channel_id)),
                    count as int,
                ).reverse(),
            },
    {
        match order_direction {
            OrderDirection::ASC => self.database.retrieve_first_created_at_asc(channel_id, count),
            OrderDirection::DESC => self.database.retrieve_first_created_at_desc(
                channel_id,
                count,
            ),
        }
    }

    /// The long-poll read for comments after a cursor.
    pub fn retrieve_after_long_polling(
        &mut self,
        channel_id: &ChannelID,
        id: &CommentID,
        order_direction: &OrderDirection,
    ) -> (r: Result<PollReply<CommentEntity>, ChatError>)
        requires
            can_subscribe(old(self).database.registry),
        ensures
            match r {
                Ok(reply) => match reply {
                    PollReply::Ready(v) => {
                        &&& comments_after(
                            old(self).database.table@.comments.filter(in_channel(*channel_id)),
                            *id,
                        ) matches Some(s)
                        &&& comments_after(
                            old(self).database.table@.comments.filter(in_channel(*channel_id)),
                            *id,
                        ) matches Some(s) ==> s.len() > 0 && (match order_direction {
                            OrderDirection::ASC => comments_view(v@) == s,
                            OrderDirection::DESC => comments_view(v@) == s.reverse(),
                        })
                        &&& v@.len() > 0
                        &&& *final(self) == *old(self)
                    },
                    PollReply::Wait(w) => {
                        &&& comments_after(
                            old(self).database.table@.comments.filter(in_channel(*channel_id)),
                            *id,
                        ) == Some(Seq::<CommentEntityView>::empty())
                        &&& w == old(self).database.registry.next_waiter
                        &&& final(self).database.registry.entries@ == old(
                            self,
                        ).database.registry.entries@.push((Topic::Channel(*channel_id), w))
                        &&& final(self).database.registry.next_waiter == old(
                            self,
                        ).database.registry.next_waiter + 1
                        &&& final(self).database.table == old(self).database.table
                    },
                },
                Err(e) => {
                    &&& e == ChatError::NotFound
                    &&& comments_after(
                        old(self).database.table@.comments.filter(in_channel(*channel_id)),
                        *id,
                    ) is None
                    &&& *final(self) == *old(self)
                },
            },
    {
        self.database.retrieve_after_long_polling(channel_id, id, order_direction)
    }

    /// Registers a waiter for the next comment on `channel_id`.
    pub fn long_polling(&mut self, channel_id: &ChannelID) -> (w: u64)
        requires
            can_subscribe(old(self).database.registry),
        ensures
            w == old(self).database.registry.next_waiter,
            final(self).database.registry.entries@ == old(self).database.registry.entries@.push(
                (Topic::Channel(*channel_id), w),
            ),
            final(self).database.registry.next_waiter == old(self).database.registry.next_waiter
                + 1,
            final(self).database.table == old(self).database.table,
    {
        self.database.long_polling(channel_id)
    }

    /// Appends a channel and drains the "any channel" waiters.
    pub fn save_channel(&mut self, entity: ChannelEntity) -> (p: ChannelPublication)
        ensures
            final(self).database.table@.channels == old(self).database.table@.channels.push(
                entity@,
            ),
            final(self).database.table@.comments == old(self).database.table@.comments,
            final(self).database.table.version_code == old(self).database.table.version_code,
            p.entity@ == entity@,
            p.waiters@ == waiters_of(old(self).database.registry.entries@, Topic::AnyChannel),
            final(self).database.registry.entries@ == old(self).database.registry.entries@.filter(
                off_topic(Topic::AnyChannel),
            ),
            final(self).database.registry.next_waiter == old(self).database.registry.next_waiter,
    {
        self.database.save_channel(entity)
    }

    /// Appends a comment, provided its channel exists, and drains that
    /// channel's waiters.
    pub fn save_comment(&mut self, comment: CommentEntity) -> (r: Result<
        CommentPublication,
        ChatError,
    >)
        ensures
            match r {
                Ok(p) => {
                    &&& has_channel(old(self).database.table@.channels, comment.channel_id)
                    &&& final(self).database.table@.comments == old(
                        self,
                    ).database.table@.comments.push(comment@)
                    &&& final(self).database.table@.channels == old(self).database.table@.channels
                    &&& final(self).database.table.version_code == old(
                        self,
                    ).database.table.version_code
                    &&& p.entity@ == comment@
                    &&& p.waiters@ == waiters_of(
                        old(self).database.registry.entries@,
                        Topic::Channel(comment.channel_id),
                    )
                    &&& final(self).database.registry.entries@ == old(
                        self,
                    ).database.registry.entries@.filter(off_topic(Topic::Channel(comment.channel_id)))
                    &&& final(self).database.registry.next_waiter == old(
                        self,
                    ).database.registry.next_waiter
                },
                Err(e) => {
                    &&& e == ChatError::ChannelNotFound
                    &&& !has_channel(old(self).database.table@.channels, comment.channel_id)
                    &&& *final(self) == *old(self)
                },
            },
    {
        self.database.save_comment(comment)
    }
}

} // verus!
