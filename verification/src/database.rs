use vstd::prelude::*;

use crate::entity::{
    ChannelEntity, ChannelEntityView, ChannelID, CommentEntity, CommentEntityView, CommentID,
    DevFlexChatTable, clone_channels,
};
use crate::model::{ChatError, OrderDirection, PollReply};
use crate::registry::{
    SubscriptionRegistry, Topic, can_subscribe, waiters_of, off_topic,
};
use crate::version::Version;
use crate::version_code::{convert_to_version, convert_to_version_code, spec_version_code};

verus! {

/// The flush counter of the running program: bumped to force a re-stamp
/// without a semantic version change.
pub const FLUSH_CODE: u16 = 0;

/// The schema version this build of the program writes and expects.
pub fn generate_latest_database_version() -> (r: (Version, u16))
    ensures
        r.0 == (Version { major: 0, minor: 3, patch: 0 }),
        r.1 == 0,
{
    (Version { major: 0, minor: 3, patch: 0 }, FLUSH_CODE)
}

/// The version code this build of the program stamps documents with.
pub open spec fn current_version_code() -> u64 {
    spec_version_code(Version { major: 0, minor: 3, patch: 0 }, 0)
}

impl DevFlexChatTable {
    /// A fresh document: current version, no channels, no comments.
    pub fn new() -> (r: DevFlexChatTable)
        ensures
            r.version_code == current_version_code(),
            r@.comments =~= Seq::<CommentEntityView>::empty(),
            r@.channels =~= Seq::<ChannelEntityView>::empty(),
    {
        let (version, flush_code) = generate_latest_database_version();
        DevFlexChatTable {
            version_code: convert_to_version_code(&version, flush_code),
            comments: Vec::new(),
            channels: Vec::new(),
        }
    }
}

/// The views of a vector of channels.
pub open spec fn channels_view(s: Seq<ChannelEntity>) -> Seq<ChannelEntityView> {
    s.map_values(|c: ChannelEntity| c@)
}

/// The views of a vector of comments.
pub open spec fn comments_view(s: Seq<CommentEntity>) -> Seq<CommentEntityView> {
    s.map_values(|c: CommentEntity| c@)
}

/// Holds of the comments that belong to channel `id`.
pub open spec fn in_channel(id: ChannelID) -> spec_fn(CommentEntityView) -> bool {
    |c: CommentEntityView| c.channel_id == id
}

/// Whether some channel in the sequence carries `id`.
pub open spec fn has_channel(chs: Seq<ChannelEntityView>, id: ChannelID) -> bool {
    exists|i: int| 0 <= i < chs.len() && chs[i].id == id
}

/// Everything after the first channel whose id is `id`, in creation order;
/// `None` when no channel carries `id`.
pub open spec fn channels_after(chs: Seq<ChannelEntityView>, id: ChannelID) -> Option<
    Seq<ChannelEntityView>,
>
    decreases chs.len(),
{
    if chs.len() == 0 {
        None
    } else if chs[0].id == id {
        Some(chs.skip(1))
    } else {
        channels_after(chs.skip(1), id)
    }
}

/// Everything after the first comment whose id is `id`, in creation order;
/// `None` when no comment carries `id`.
pub open spec fn comments_after(cs: Seq<CommentEntityView>, id: CommentID) -> Option<
    Seq<CommentEntityView>,
>
    decreases cs.len(),
{
    if cs.len() == 0 {
        None
    } else if cs[0].id == id {
        Some(cs.skip(1))
    } else {
        comments_after(cs.skip(1), id)
    }
}

/// The last `count` elements (all of them when there are fewer), in their
/// original ascending order: what a "first N" comment query returns.
pub open spec fn last_n(s: Seq<CommentEntityView>, count: int) -> Seq<CommentEntityView> {
    if s.len() <= count {
        s
    } else {
        s.skip(s.len() - count)
    }
}

proof fn lemma_channels_after_found(chs: Seq<ChannelEntityView>, id: ChannelID, i: int)
    requires
        0 <= i < chs.len(),
        chs[i].id == id,
        forall|k: int| 0 <= k < i ==> chs[k].id != id,
    ensures
        channels_after(chs, id) == Some(chs.skip(i + 1)),
    decreases i,
{
    if i == 0 {
        assert(chs.skip(i + 1) =~= chs.skip(1));
    } else {
        assert(chs[0].id != id);
        let t = chs.skip(1);
        assert(forall|k: int| 0 <= k < i - 1 ==> t[k] == chs[k + 1] && t[k].id != id);
        assert(t[i - 1] == chs[i]);
        lemma_channels_after_found(t, id, i - 1);
        assert(t.skip(i) =~= chs.skip(i + 1));
    }
}

proof fn lemma_channels_after_none(chs: Seq<ChannelEntityView>, id: ChannelID)
    requires
        forall|k: int| 0 <= k < chs.len() ==> chs[k].id != id,
    ensures
        channels_after(chs, id) is None,
    decreases chs.len(),
{
    if chs.len() != 0 {
        let t = chs.skip(1);
        assert(forall|k: int| 0 <= k < t.len() ==> t[k] == chs[k + 1] && t[k].id != id);
        lemma_channels_after_none(t, id);
    }
}

proof fn lemma_comments_after_found(cs: Seq<CommentEntityView>, id: CommentID, i: int)
    requires
        0 <= i < cs.len(),
        cs[i].id == id,
        forall|k: int| 0 <= k < i ==> cs[k].id != id,
    ensures
        comments_after(cs, id) == Some(cs.skip(i + 1)),
    decreases i,
{
    if i == 0 {
        assert(cs.skip(i + 1) =~= cs.skip(1));
    } else {
        assert(cs[0].id != id);
        let t = cs.skip(1);
        assert(forall|k: int| 0 <= k < i - 1 ==> t[k] == cs[k + 1] && t[k].id != id);
        assert(t[i - 1] == cs[i]);
        lemma_comments_after_found(t, id, i - 1);
        assert(t.skip(i) =~= cs.skip(i + 1));
    }
}

proof fn lemma_comments_after_none(cs: Seq<CommentEntityView>, id: CommentID)
    requires
        forall|k: int| 0 <= k < cs.len() ==> cs[k].id != id,
    ensures
        comments_after(cs, id) is None,
    decreases cs.len(),
{
    if cs.len() != 0 {
        let t = cs.skip(1);
        assert(forall|k: int| 0 <= k < t.len() ==> t[k] == cs[k + 1] && t[k].id != id);
        lemma_comments_after_none(t, id);
    }
}

/// A write's outcome on the channel topic: the record that was appended and
/// the waiters that must now be delivered exactly that record.
pub struct ChannelPublication {
    pub entity: ChannelEntity,
    pub waiters: Vec<u64>,
}

/// A write's outcome on one channel's comment topic.
pub struct CommentPublication {
    pub entity: CommentEntity,
    pub waiters: Vec<u64>,
}

/// The in-memory document store with its subscription registry: the owner
/// of the document between a read from storage and the next overwrite.
/// Callers serialize writes; each mutating call appends to the document and
/// says which waiters to wake.
pub struct DevFlexChatDatabase {
    pub table: DevFlexChatTable,
    pub registry: SubscriptionRegistry,
}

impl DevFlexChatDatabase {
    /// Accepts a freshly read document, refusing one whose stored schema
    /// version differs from the version this program writes.
    pub fn create(table: DevFlexChatTable) -> (r: Result<DevFlexChatDatabase, ChatError>)
        ensures
            match r {
                Ok(db) => {
                    &&& table.version_code == current_version_code()
                    &&& db.table@ == table@
                    &&& db.registry.entries@ =~= Seq::<(Topic, u64)>::empty()
                    &&& db.registry.next_waiter == 0
                },
                Err(e) => {
                    &&& e == ChatError::SchemaVersion
                    &&& table.version_code != current_version_code()
                },
            },
    {
        let (version, flush_code) = generate_latest_database_version();
        let latest = convert_to_version_code(&version, flush_code);
        if table.version_code != latest {
            return Err(ChatError::SchemaVersion);
        }
        Ok(DevFlexChatDatabase { table, registry: SubscriptionRegistry::new() })
    }

    /// The stored schema version, unpacked.
    pub fn database_version(&self) -> (r: (Version, u16))
        ensures
            spec_version_code(r.0, r.1) == self.table.version_code,
    {
        let r = convert_to_version(self.table.version_code);
        proof {
            crate::version_code::lemma_version_code_round_trip(r.0, r.1);
            vstd::arithmetic::div_mod::lemma_fundamental_div_mod(
                self.table.version_code as int,
                0x1_0000,
            );
            vstd::arithmetic::div_mod::lemma_fundamental_div_mod(
                self.table.version_code as int / 0x1_0000,
                0x1_0000,
            );
            vstd::arithmetic::div_mod::lemma_fundamental_div_mod(
                self.table.version_code as int / 0x1_0000_0000,
                0x1_0000,
            );
        }
        r
    }

    /// All channels in creation order.
    pub fn channels_created_asc(&self) -> (r: Vec<ChannelEntity>)
        ensures
            r@ == self.table.channels@,
    {
        clone_channels(&self.table.channels)
    }

    /// The first channel carrying `channel_id`, if any.
    pub fn find_channel(&self, channel_id: &ChannelID) -> (r: Option<ChannelEntity>)
        ensures
            match r {
                Some(c) => has_channel(self.table@.channels, *channel_id) && c.id == *channel_id
                    && exists|i: int|
                        0 <= i < self.table@.channels.len() && c@ == self.table@.channels[i],
                None => !has_channel(self.table@.channels, *channel_id),
            },
    {
        let n = self.table.channels.len();
        for i in 0..n
            invariant
                n == self.table.channels@.len(),
                forall|k: int| 0 <= k < i ==> self.table@.channels[k].id != *channel_id,
        {
            if self.table.channels[i].id.0 == channel_id.0 {
                proof {
                    assert(self.table@.channels[i as int].id == *channel_id);
                    assert(has_channel(self.table@.channels, *channel_id));
                }
                return Some(self.table.channels[i].clone());
            }
        }
        None
    }

    /// All channels created after the one carrying `channel_id`, in
    /// creation order; `NotFound` when no channel carries it.
    pub fn channels_after_created_asc(&self, channel_id: &ChannelID) -> (r: Result<
        Vec<ChannelEntity>,
        ChatError,
    >)
        ensures
            match r {
                Ok(v) => channels_after(self.table@.channels, *channel_id) == Some(
                    channels_view(v@),
                ),
                Err(e) => e == ChatError::NotFound && channels_after(
                    self.table@.channels,
                    *channel_id,
                ) is None,
            },
    {
        let n = self.table.channels.len();
        for i in 0..n
            invariant
                n == self.table.channels@.len(),
                forall|k: int| 0 <= k < i ==> self.table@.channels[k].id != *channel_id,
        {
            if self.table.channels[i].id.0 == channel_id.0 {
                let mut out: Vec<ChannelEntity> = Vec::new();
                for j in (i + 1)..n
                    invariant
                        n == self.table.channels@.len(),
                        i < n,
                        i + 1 <= j <= n,
                        out@.len() == j - (i + 1),
                        forall|k: int|
                            0 <= k < out@.len() ==> out@[k]@ == self.table@.channels[i + 1 + k],
                {
                    out.push(self.table.channels[j].clone());
                    proof {
                        assert(out@[j - (i + 1)]@ == self.table@.channels[j as int]);
                    }
                }
                proof {
                    lemma_channels_after_found(self.table@.channels, *channel_id, i as int);
                    assert(channels_view(out@) =~= self.table@.channels.skip(i + 1));
                }
                return Ok(out);
            }
        }
        proof {
            lemma_channels_after_none(self.table@.channels, *channel_id);
        }
        Err(ChatError::NotFound)
    }

    /// The comments of channel `channel_id`, in creation order.
    pub fn retrieve_comments(&self, channel_id: &ChannelID) -> (r: Vec<CommentEntity>)
        ensures
            comments_view(r@) == self.table@.comments.filter(in_channel(*channel_id)),
    {
        let mut out: Vec<CommentEntity> = Vec::new();
        let n = self.table.comments.len();
        proof {
            reveal(Seq::filter);
        }
        for i in 0..n
            invariant
                n == self.table.comments@.len(),
                comments_view(out@) == self.table@.comments.take(i as int).filter(
                    in_channel(*channel_id),
                ),
        {
            proof {
                let prefix = self.table@.comments.take(i as int);
                reveal(Seq::filter);
                assert(self.table@.comments.take(i + 1).drop_last() =~= prefix);
                assert(self.table@.comments.take(i + 1).last() == self.table@.comments[i as int]);
            }
            if self.table.comments[i].channel_id.0 == channel_id.0 {
                out.push(self.table.comments[i].clone());
                proof {
                    assert(in_channel(*channel_id)(self.table@.comments[i as int]));
                    assert(comments_view(out@) =~= self.table@.comments.take(i + 1).filter(
                        in_channel(*channel_id),
                    ));
                }
            } else {
                proof {
                    assert(!in_channel(*channel_id)(self.table@.comments[i as int]));
                }
            }
        }
        proof {
            assert(self.table@.comments.take(n as int) =~= self.table@.comments);
        }
        out
    }

    /// The comments of `channel_id` created after comment `id`, ascending;
    /// `NotFound` when `id` is not among that channel's comments.
    pub fn retrieve_after_created_asc(&self, channel_id: &ChannelID, id: &CommentID) -> (r: Result<
        Vec<CommentEntity>,
        ChatError,
    >)
        ensures
            match r {
                Ok(v) => comments_after(
                    self.table@.comments.filter(in_channel(*channel_id)),
                    *id,
                ) == Some(comments_view(v@)),
                Err(e) => e == ChatError::NotFound && comments_after(
                    self.table@.comments.filter(in_channel(*channel_id)),
                    *id,
                ) is None,
            },
    {
        let all = self.retrieve_comments(channel_id);
        let ghost filtered = self.table@.comments.filter(in_channel(*channel_id));
        let n = all.len();
        for i in 0..n
            invariant
                n == all@.len(),
                comments_view(all@) == filtered,
                filtered == self.table@.comments.filter(in_channel(*channel_id)),
                forall|k: int| 0 <= k < i ==> filtered[k].id != *id,
        {
            if all[i].id.0 == id.0 {
                let mut out: Vec<CommentEntity> = Vec::new();
                for j in (i + 1)..n
                    invariant
                        n == all@.len(),
                        i < n,
                        i + 1 <= j <= n,
                        comments_view(all@) == filtered,
                        filtered == self.table@.comments.filter(in_channel(*channel_id)),
                        out@.len() == j - (i + 1),
                        forall|k: int| 0 <= k < out@.len() ==> out@[k]@ == filtered[i + 1 + k],
                {
                    out.push(all[j].clone());
                    proof {
                        assert(all@[j as int]@ == comments_view(all@)[j as int]);
                        assert(out@[j - (i + 1)]@ == filtered[j as int]);
                    }
                }
                proof {
                    lemma_comments_after_found(filtered, *id, i as int);
                    assert(comments_view(out@) =~= filtered.skip(i + 1));
                }
                return Ok(out);
            }
        }
        proof {
            lemma_comments_after_none(filtered, *id);
        }
        Err(ChatError::NotFound)
    }

    /// As `retrieve_after_created_asc`, in reverse (newest first).
    pub fn retrieve_after_created_desc(&self, channel_id: &ChannelID, id: &CommentID) -> (r:
        Result<Vec<CommentEntity>, ChatError>)
        ensures
            match r {
                Ok(v) => comments_after(
                    self.table@.comments.filter(in_channel(*channel_id)),
                    *id,
                ) matches Some(s) && comments_view(v@) == s.reverse(),
                Err(e) => e == ChatError::NotFound && comments_after(
                    self.table@.comments.filter(in_channel(*channel_id)),
                    *id,
                ) is None,
            },
    {
        match self.retrieve_after_created_asc(channel_id, id) {
            Ok(v) => Ok(reverse_comments(v)),
            Err(e) => Err(e),
        }
    }

    /// The earliest-by-position slice the "first N" query returns: the last
    /// `count` comments of the channel, in ascending creation order.
    pub fn retrieve_first_created_at_asc(&self, channel_id: &ChannelID, count: u32) -> (r: Vec<
        CommentEntity,
    >)
        ensures
            comments_view(r@) == last_n(
                self.table@.comments.filter(in_channel(*channel_id)),
                count as int,
            ),
    {
        let all = self.retrieve_comments(channel_id);
        let ghost filtered = self.table@.comments.filter(in_channel(*channel_id));
        let n = all.len();
        let range_start: usize = if n < count as usize {
            0
        } else {
            n - count as usize
        };
        let mut out: Vec<CommentEntity> = Vec::new();
        for j in range_start..n
            invariant
                n == all@.len(),
                range_start <= n,
                comments_view(all@) == filtered,
                out@.len() == j - range_start,
                forall|k: int| 0 <= k < out@.len() ==> out@[k]@ == filtered[range_start + k],
        {
            out.push(all[j].clone());
            proof {
                assert(all@[j as int]@ == comments_view(all@)[j as int]);
                assert(out@[j - range_start]@ == filtered[j as int]);
            }
        }
        proof {
            assert(comments_view(out@) =~= last_n(filtered, count as int));
        }
        out
    }

    /// As `retrieve_first_created_at_asc`, in reverse (newest first).
    pub fn retrieve_first_created_at_desc(&self, channel_id: &ChannelID, count: u32) -> (r: Vec<
        CommentEntity,
    >)
        ensures
            comments_view(r@) == last_n(
                self.table@.comments.filter(in_channel(*channel_id)),
                count as int,
            ).reverse(),
    {
        reverse_comments(self.retrieve_first_created_at_asc(channel_id, count))
    }

    /// Appends a channel to the document and drains the "any channel"
    /// waiters: each returned waiter must be delivered exactly the appended
    /// record.
    pub fn save_channel(&mut self, entity: ChannelEntity) -> (p: ChannelPublication)
        ensures
            final(self).table@.channels == old(self).table@.channels.push(entity@),
            final(self).table@.comments == old(self).table@.comments,
            final(self).table.version_code == old(self).table.version_code,
            p.entity@ == entity@,
            p.waiters@ == waiters_of(old(self).registry.entries@, Topic::AnyChannel),
            final(self).registry.entries@ == old(self).registry.entries@.filter(
                off_topic(Topic::AnyChannel),
            ),
            final(self).registry.next_waiter == old(self).registry.next_waiter,
    {
        let cloned = entity.clone();
        self.table.channels.push(entity);
        proof {
            assert(self.table@.channels =~= old(self).table@.channels.push(cloned@));
            assert(self.table@.comments =~= old(self).table@.comments);
        }
        let waiters = self.registry.publish(Topic::AnyChannel);
        ChannelPublication { entity: cloned, waiters }
    }

    /// Appends a comment to the document, provided its channel exists, and
    /// drains that channel's waiters: each returned waiter must be
    /// delivered exactly the appended record. A comment naming an unknown
    /// channel is refused with `ChannelNotFound` and changes nothing.
    pub fn save_comment(&mut self, entity: CommentEntity) -> (r: Result<
        CommentPublication,
        ChatError,
    >)
        ensures
            match r {
                Ok(p) => {
                    &&& has_channel(old(self).table@.channels, entity.channel_id)
                    &&& final(self).table@.comments == old(self).table@.comments.push(entity@)
                    &&& final(self).table@.channels == old(self).table@.channels
                    &&& final(self).table.version_code == old(self).table.version_code
                    &&& p.entity@ == entity@
                    &&& p.waiters@ == waiters_of(
                        old(self).registry.entries@,
                        Topic::Channel(entity.channel_id),
                    )
                    &&& final(self).registry.entries@ == old(self).registry.entries@.filter(
                        off_topic(Topic::Channel(entity.channel_id)),
                    )
                    &&& final(self).registry.next_waiter == old(self).registry.next_waiter
                },
                Err(e) => {
                    &&& e == ChatError::ChannelNotFound
                    &&& !has_channel(old(self).table@.channels, entity.channel_id)
                    &&& *final(self) == *old(self)
                },
            },
    {
        if self.find_channel(&entity.channel_id).is_none() {
            return Err(ChatError::ChannelNotFound);
        }
        let cloned = entity.clone();
        let topic = Topic::Channel(entity.channel_id);
        self.table.comments.push(entity);
        proof {
            assert(self.table@.comments =~= old(self).table@.comments.push(cloned@));
            assert(self.table@.channels =~= old(self).table@.channels);
        }
        let waiters = self.registry.publish(topic);
        Ok(CommentPublication { entity: cloned, waiters })
    }

    /// Registers a waiter for the next comment on `channel_id`.
    pub fn long_polling(&mut self, channel_id: &ChannelID) -> (w: u64)
        requires
            can_subscribe(old(self).registry),
        ensures
            w == old(self).registry.next_waiter,
            final(self).registry.entries@ == old(self).registry.entries@.push(
                (Topic::Channel(*channel_id), w),
            ),
            final(self).registry.next_waiter == old(self).registry.next_waiter + 1,
            final(self).table == old(self).table,
    {
        self.registry.subscribe(Topic::Channel(*channel_id))
    }

    /// Registers a waiter for the next channel creation.
    pub fn channel_long_polling(&mut self) -> (w: u64)
        requires
            can_subscribe(old(self).registry),
        ensures
            w == old(self).registry.next_waiter,
            final(self).registry.entries@ == old(self).registry.entries@.push(
                (Topic::AnyChannel, w),
            ),
            final(self).registry.next_waiter == old(self).registry.next_waiter + 1,
            final(self).table == old(self).table,
    {
        self.registry.subscribe(Topic::AnyChannel)
    }

    /// The long-poll read for channels: answers at once with the channels
    /// after the cursor when there are any, otherwise registers a waiter
    /// for the next channel creation. The requested direction is accepted
    /// but not yet applied, as the stored order is the only one served.
    pub fn channels_after_long_polling(
        &mut self,
        channel_id: &ChannelID,
        _order_direction: &OrderDirection,
    ) -> (r: Result<PollReply<ChannelEntity>, ChatError>)
        requires
            can_subscribe(old(self).registry),
        ensures
            match r {
                Ok(reply) => match reply {
                    PollReply::Ready(v) => {
                        &&& channels_after(old(self).table@.channels, *channel_id) == Some(
                            channels_view(v@),
                        )
                        &&& v@.len() > 0
                        &&& *final(self) == *old(self)
                    },
                    PollReply::Wait(w) => {
                        &&& channels_after(old(self).table@.channels, *channel_id) == Some(
                            Seq::<ChannelEntityView>::empty(),
                        )
                        &&& w == old(self).registry.next_waiter
                        &&& final(self).registry.entries@ == old(self).registry.entries@.push(
                            (Topic::AnyChannel, w),
                        )
                        &&& final(self).registry.next_waiter == old(self).registry.next_waiter + 1
                        &&& final(self).table == old(self).table
                    },
                },
                Err(e) => {
                    &&& e == ChatError::NotFound
                    &&& channels_after(old(self).table@.channels, *channel_id) is None
                    &&& *final(self) == *old(self)
                },
            },
    {
        let channels = match self.channels_after_created_asc(channel_id) {
            Ok(v) => v,
            Err(e) => { return Err(e) },
        };
        if channels.len() > 0 {
            proof {
                assert(channels_view(channels@).len() == channels@.len());
            }
            return Ok(PollReply::Ready(channels));
        }
        proof {
            assert(channels_view(channels@) =~= Seq::<ChannelEntityView>::empty());
        }
        Ok(PollReply::Wait(self.channel_long_polling()))
    }

    /// The long-poll read for comments: answers at once with the comments
    /// after the cursor (in the requested direction) when there are any,
    /// otherwise registers a waiter on the channel's topic.
    pub fn retrieve_after_long_polling(
        &mut self,
        channel_id: &ChannelID,
        id: &CommentID,
        order_direction: &OrderDirection,
    ) -> (r: Result<PollReply<CommentEntity>, ChatError>)
        requires
            can_subscribe(old(self).registry),
        ensures
            match r {
                Ok(reply) => match reply {
                    PollReply::Ready(v) => {
                        &&& comments_after(
                            old(self).table@.comments.filter(in_channel(*channel_id)),
                            *id,
                        ) matches Some(s)
                        &&& comments_after(
                            old(self).table@.comments.filter(in_channel(*channel_id)),
                            *id,
                        ) matches Some(s) ==> s.len() > 0 && (match order_direction {
                            OrderDirection::ASC => comments_view(v@) == s,
                            OrderDirection::DESC => comments_view(v@) == s.reverse(),
                        })
                        &&& v@.len() > 0
                        &&& *final(self) == *old(self)
                    },
                    PollReply::Wait(w) => {
                        &&& comments_after(
                            old(self).table@.comments.filter(in_channel(*channel_id)),
                            *id,
                        ) == Some(Seq::<CommentEntityView>::empty())
                        &&& w == old(self).registry.next_waiter
                        &&& final(self).registry.entries@ == old(self).registry.entries@.push(
                            (Topic::Channel(*channel_id), w),
                        )
                        &&& final(self).registry.next_waiter == old(self).registry.next_waiter + 1
                        &&& final(self).table == old(self).table
                    },
                },
                Err(e) => {
                    &&& e == ChatError::NotFound
                    &&& comments_after(
                        old(self).table@.comments.filter(in_channel(*channel_id)),
                        *id,
                    ) is None
                    &&& *final(self) == *old(self)
                },
            },
    {
        let found = match order_direction {
            OrderDirection::ASC => self.retrieve_after_created_asc(channel_id, id),
            OrderDirection::DESC => self.retrieve_after_created_desc(channel_id, id),
        };
        let comments = match found {
            Ok(v) => v,
            Err(e) => { return Err(e) },
        };
        if comments.len() > 0 {
            proof {
                assert(comments_view(comments@).len() == comments@.len());
            }
            return Ok(PollReply::Ready(comments));
        }
        proof {
            assert(comments_view(comments@) =~= Seq::<CommentEntityView>::empty());
            match comments_after(old(self).table@.comments.filter(in_channel(*channel_id)), *id) {
                Some(s) => {
                    assert(match order_direction {
                        OrderDirection::ASC => s =~= Seq::<CommentEntityView>::empty(),
                        OrderDirection::DESC => s.reverse() =~= Seq::<CommentEntityView>::empty(),
                    });
                    if s.reverse().len() == 0 {
                        assert(s.len() == 0);
                    }
                    assert(s =~= Seq::<CommentEntityView>::empty());
                },
                None => {
                    assert(false);
                },
            }
        }
        Ok(PollReply::Wait(self.long_polling(channel_id)))
    }
}

/// Reverses a vector of comments.
pub fn reverse_comments(v: Vec<CommentEntity>) -> (r: Vec<CommentEntity>)
    ensures
        comments_view(r@) == comments_view(v@).reverse(),
{
    let mut r: Vec<CommentEntity> = Vec::new();
    let n = v.len();
    for j in 0..n
        invariant
            n == v@.len(),
            r@.len() == j,
            forall|k: int| 0 <= k < r@.len() ==> r@[k]@ == v@[n - 1 - k]@,
    {
        r.push(v[n - 1 - j].clone());
        proof {
            assert(r@[j as int]@ == v@[n - 1 - j]@);
        }
    }
    proof {
        assert(comments_view(r@) =~= comments_view(v@).reverse());
    }
    r
}

} // verus!

verus! {

// ------------------------------------------------------------------
// Serialized writes.
// ------------------------------------------------------------------

/// Holds of the comments whose id is `id`.
pub open spec fn with_id(id: CommentID) -> spec_fn(CommentEntityView) -> bool {
    |c: CommentEntityView| c.id == id
}

proof fn lemma_filter_id_none(s: Seq<CommentEntityView>, id: CommentID)
    requires
        forall|k: int| 0 <= k < s.len() ==> s[k].id != id,
    ensures
        s.filter(with_id(id)).len() == 0,
    decreases s.len(),
{
    reveal(Seq::filter);
    if s.len() != 0 {
        assert(forall|k: int| 0 <= k < s.drop_last().len() ==> s.drop_last()[k] == s[k]);
        lemma_filter_id_none(s.drop_last(), id);
        assert(!with_id(id)(s.last()));
    }
}

proof fn lemma_filter_id_one(s: Seq<CommentEntityView>, id: CommentID, i: int)
    requires
        0 <= i < s.len(),
        s[i].id == id,
        forall|k: int| 0 <= k < s.len() && k != i ==> s[k].id != id,
    ensures
        s.filter(with_id(id)).len() == 1,
    decreases s.len(),
{
    reveal(Seq::filter);
    assert(forall|k: int| 0 <= k < s.drop_last().len() ==> s.drop_last()[k] == s[k]);
    if i == s.len() - 1 {
        lemma_filter_id_none(s.drop_last(), id);
        assert(with_id(id)(s.last()));
    } else {
        lemma_filter_id_one(s.drop_last(), id, i);
        assert(!with_id(id)(s.last()));
    }
}

/// Serialized writes land exactly once: when a batch of comments with
/// pairwise distinct, previously unused ids is appended to the document one
/// write at a time — which is how every `save_comment` changes the comment
/// list — the final document holds each appended comment exactly once, and
/// the records already present are untouched.
pub proof fn lemma_serialized_appends(
    base: Seq<CommentEntityView>,
    added: Seq<CommentEntityView>,
)
    requires
        forall|a: int, b: int| 0 <= a < b < added.len() ==> added[a].id != added[b].id,
        forall|a: int, k: int|
            0 <= a < added.len() && 0 <= k < base.len() ==> base[k].id != added[a].id,
    ensures
        forall|a: int|
            0 <= a < added.len() ==> #[trigger] (base + added).filter(
                with_id(added[a].id),
            ).len() == 1,
        (base + added).take(base.len() as int) == base,
{
    assert((base + added).take(base.len() as int) =~= base);
    assert forall|a: int|
        0 <= a < added.len() implies #[trigger] (base + added).filter(
        with_id(added[a].id),
    ).len() == 1 by {
        let s = base + added;
        let i = base.len() + a;
        assert(s[i as int].id == added[a].id);
        assert forall|k: int| 0 <= k < s.len() && k != i implies s[k].id != added[a].id by {
            if k < base.len() {
                assert(s[k] == base[k]);
            } else {
                assert(s[k] == added[k - base.len()]);
                if k - base.len() < a {
                    assert(added[k - base.len()].id != added[a].id);
                }
            }
        }
        lemma_filter_id_one(s, added[a].id, i as int);
    }
}

} // verus!

verus! {

use crate::entity::DevFlexChatTableView;

// ------------------------------------------------------------------
// The document invariant: referential integrity.
// ------------------------------------------------------------------

/// The document invariant on channel references: every comment's channel
/// resolves to a channel present in the document.
pub open spec fn comments_linked(t: DevFlexChatTableView) -> bool {
    forall|i: int| 0 <= i < t.comments.len() ==> has_channel(t.channels, t.comments[i].channel_id)
}

/// Appending a channel preserves referential integrity: every reference
/// that resolved before still resolves among the grown channel list.
pub proof fn lemma_save_channel_preserves_links(
    before: DevFlexChatTableView,
    after: DevFlexChatTableView,
    entity: ChannelEntityView,
)
    requires
        comments_linked(before),
        after.channels == before.channels.push(entity),
        after.comments == before.comments,
    ensures
        comments_linked(after),
{
    assert forall|i: int| 0 <= i < after.comments.len() implies has_channel(
        after.channels,
        after.comments[i].channel_id,
    ) by {
        let j = choose|j: int|
            0 <= j < before.channels.len() && before.channels[j].id
                == before.comments[i].channel_id;
        assert(after.channels[j].id == after.comments[i].channel_id);
    }
}

/// A successful comment write preserves referential integrity: it is only
/// accepted when its channel resolves, so the grown comment list stays
/// fully linked.
pub proof fn lemma_save_comment_preserves_links(
    before: DevFlexChatTableView,
    after: DevFlexChatTableView,
    entity: CommentEntityView,
)
    requires
        comments_linked(before),
        has_channel(before.channels, entity.channel_id),
        after.comments == before.comments.push(entity),
        after.channels == before.channels,
    ensures
        comments_linked(after),
{
    assert forall|i: int| 0 <= i < after.comments.len() implies has_channel(
        after.channels,
        after.comments[i].channel_id,
    ) by {
        if i < before.comments.len() {
            assert(after.comments[i] == before.comments[i]);
        } else {
            assert(after.comments[i] == entity);
        }
    }
}

} // verus!
