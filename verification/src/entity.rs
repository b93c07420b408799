use vstd::prelude::*;

verus! {

/// Identifier of a comment: an opaque 128-bit value generated at creation
/// time.
#[derive(Clone, Copy, Debug, PartialEq, Eq, Hash, Structural)]
pub struct CommentID(pub u128);

/// Identifier of a channel: an opaque 128-bit value generated at creation
/// time.
#[derive(Clone, Copy, Debug, PartialEq, Eq, Hash, Structural)]
pub struct ChannelID(pub u128);

/// A channel record as it lives in the document.
#[derive(Debug, PartialEq, Eq)]
pub struct ChannelEntity {
    pub id: ChannelID,
    pub name: String,
}

impl Clone for ChannelEntity {
    fn clone(&self) -> (r: Self)
        ensures
            r == *self,
    {
        ChannelEntity { id: self.id, name: self.name.clone() }
    }
}

/// A comment record as it lives in the document; `channel_id` must refer to
/// a channel already present when the comment is written.
#[derive(Debug, PartialEq, Eq)]
pub struct CommentEntity {
    pub id: CommentID,
    pub channel_id: ChannelID,
    pub name: String,
    pub message: String,
}

impl Clone for CommentEntity {
    fn clone(&self) -> (r: Self)
        ensures
            r == *self,
    {
        CommentEntity {
            id: self.id,
            channel_id: self.channel_id,
            name: self.name.clone(),
            message: self.message.clone(),
        }
    }
}

/// A comment as it stands in a stored document, which may predate the
/// schema step that introduced channels: such a comment has no channel
/// reference yet.
#[derive(Debug, PartialEq, Eq)]
pub struct StoredComment {
    pub id: CommentID,
    pub channel_id: Option<ChannelID>,
    pub name: String,
    pub message: String,
}

impl Clone for StoredComment {
    fn clone(&self) -> (r: Self)
        ensures
            r == *self,
    {
        StoredComment {
            id: self.id,
            channel_id: self.channel_id,
            name: self.name.clone(),
            message: self.message.clone(),
        }
    }
}

/// A document as it stands in storage. The version code and per-comment
/// channel references are optional because documents written before the
/// corresponding schema steps lack them.
#[derive(Debug, PartialEq, Eq)]
pub struct StoredTable {
    pub version_code: Option<u64>,
    pub comments: Vec<StoredComment>,
    pub channels: Vec<ChannelEntity>,
}

impl Clone for StoredTable {
    fn clone(&self) -> (r: Self)
        ensures
            r@ == self@,
    {
        StoredTable {
            version_code: self.version_code,
            comments: clone_stored_comments(&self.comments),
            channels: clone_channels(&self.channels),
        }
    }
}

/// A fully up-to-date document: version code present and every comment
/// linked to a channel.
#[derive(Debug, PartialEq, Eq)]
pub struct DevFlexChatTable {
    pub version_code: u64,
    pub comments: Vec<CommentEntity>,
    pub channels: Vec<ChannelEntity>,
}

impl Clone for DevFlexChatTable {
    fn clone(&self) -> (r: Self)
        ensures
            r@ == self@,
    {
        DevFlexChatTable {
            version_code: self.version_code,
            comments: clone_comments(&self.comments),
            channels: clone_channels(&self.channels),
        }
    }
}

pub fn clone_channels(v: &Vec<ChannelEntity>) -> (r: Vec<ChannelEntity>)
    ensures
        r@ == v@,
{
    let mut r: Vec<ChannelEntity> = Vec::new();
    for i in 0..v.len()
        invariant
            r@ == v@.take(i as int),
    {
        r.push(v[i].clone());
        proof {
            assert(v@.take(i + 1) =~= v@.take(i as int).push(v@[i as int]));
        }
    }
    proof {
        assert(v@.take(v@.len() as int) =~= v@);
    }
    r
}

pub fn clone_comments(v: &Vec<CommentEntity>) -> (r: Vec<CommentEntity>)
    ensures
        r@ == v@,
{
    let mut r: Vec<CommentEntity> = Vec::new();
    for i in 0..v.len()
        invariant
            r@ == v@.take(i as int),
    {
        r.push(v[i].clone());
        proof {
            assert(v@.take(i + 1) =~= v@.take(i as int).push(v@[i as int]));
        }
    }
    proof {
        assert(v@.take(v@.len() as int) =~= v@);
    }
    r
}

pub fn clone_stored_comments(v: &Vec<StoredComment>) -> (r: Vec<StoredComment>)
    ensures
        r@ == v@,
{
    let mut r: Vec<StoredComment> = Vec::new();
    for i in 0..v.len()
        invariant
            r@ == v@.take(i as int),
    {
        r.push(v[i].clone());
        proof {
            assert(v@.take(i + 1) =~= v@.take(i as int).push(v@[i as int]));
        }
    }
    proof {
        assert(v@.take(v@.len() as int) =~= v@);
    }
    r
}

// ------------------------------------------------------------------
// Mathematical views of the record types.
// ------------------------------------------------------------------

#[verifier::ext_equal]
pub struct ChannelEntityView {
    pub id: ChannelID,
    pub name: Seq<char>,
}

#[verifier::ext_equal]
pub struct StoredCommentView {
    pub id: CommentID,
    pub channel_id: Option<ChannelID>,
    pub name: Seq<char>,
    pub message: Seq<char>,
}

#[verifier::ext_equal]
pub struct CommentEntityView {
    pub id: CommentID,
    pub channel_id: ChannelID,
    pub name: Seq<char>,
    pub message: Seq<char>,
}

#[verifier::ext_equal]
pub struct StoredTableView {
    pub version_code: Option<u64>,
    pub comments: Seq<StoredCommentView>,
    pub channels: Seq<ChannelEntityView>,
}

#[verifier::ext_equal]
pub struct DevFlexChatTableView {
    pub version_code: u64,
    pub comments: Seq<CommentEntityView>,
    pub channels: Seq<ChannelEntityView>,
}

impl View for ChannelEntity {
    type V = ChannelEntityView;

    open spec fn view(&self) -> ChannelEntityView {
        ChannelEntityView { id: self.id, name: self.name@ }
    }
}

impl View for CommentEntity {
    type V = CommentEntityView;

    open spec fn view(&self) -> CommentEntityView {
        CommentEntityView {
            id: self.id,
            channel_id: self.channel_id,
            name: self.name@,
            message: self.message@,
        }
    }
}

impl View for StoredComment {
    type V = StoredCommentView;

    open spec fn view(&self) -> StoredCommentView {
        StoredCommentView {
            id: self.id,
            channel_id: self.channel_id,
            name: self.name@,
            message: self.message@,
        }
    }
}

impl View for StoredTable {
    type V = StoredTableView;

    open spec fn view(&self) -> StoredTableView {
        StoredTableView {
            version_code: self.version_code,
            comments: Seq::new(self.comments@.len(), |i: int| self.comments@[i]@),
            channels: Seq::new(self.channels@.len(), |i: int| self.channels@[i]@),
        }
    }
}

impl View for DevFlexChatTable {
    type V = DevFlexChatTableView;

    open spec fn view(&self) -> DevFlexChatTableView {
        DevFlexChatTableView {
            version_code: self.version_code,
            comments: Seq::new(self.comments@.len(), |i: int| self.comments@[i]@),
            channels: Seq::new(self.channels@.len(), |i: int| self.channels@[i]@),
        }
    }
}

} // verus!
