use vstd::prelude::*;

use crate::entity::{
    ChannelEntity, ChannelEntityView, ChannelID, CommentID, StoredComment, StoredCommentView,
    StoredTable, StoredTableView,
};
use crate::model::ChatError;
use crate::text::{
    dec_digits, dec_val, escaped_char, hex_digits, hex_val, spec_escape, spec_expect,
    spec_parse_dec_u64, spec_parse_hex32, spec_parse_string, split_on, lemma_dec_u64_round_trip,
    lemma_hex32_round_trip, lemma_hex_digits_len, lemma_hex_digits_all_hex,
    lemma_hex_char_not_special, lemma_hex_char_val, lemma_parse_escaped, lemma_escape_no_newline,
    lemma_split_on_step, lemma_seg_len_of,
};

verus! {

// ------------------------------------------------------------------
// The document grammar: one record per line.
//
//   version-code = 844424930131968
//   comment = { id = "...", channel-id = "...", name = "...", message = "..." }
//   channel = { id = "...", name = "..." }
//
// Identifiers are 32 hexadecimal digits; string values are quoted with
// backslash escapes; a comment written before channels existed has no
// channel-id field.
// ------------------------------------------------------------------

pub open spec fn key_version() -> Seq<char> {
    "version-code = "@
}

pub open spec fn key_channel() -> Seq<char> {
    "channel = { id = \""@
}

pub open spec fn key_comment() -> Seq<char> {
    "comment = { id = \""@
}

pub open spec fn key_channel_id() -> Seq<char> {
    ", channel-id = \""@
}

pub open spec fn key_name() -> Seq<char> {
    ", name = \""@
}

pub open spec fn key_message() -> Seq<char> {
    ", message = \""@
}

pub open spec fn key_close() -> Seq<char> {
    " }"@
}

/// The line that stores the document's version code.
pub open spec fn line_version(v: u64) -> Seq<char> {
    key_version() + dec_digits(v as int)
}

/// The line that stores one channel record.
pub open spec fn line_channel(c: ChannelEntityView) -> Seq<char> {
    key_channel() + hex_digits(c.id.0 as int, 32) + seq!['"'] + key_name() + spec_escape(c.name)
        + seq!['"'] + key_close()
}

/// The line that stores one comment record.
pub open spec fn line_comment(c: StoredCommentView) -> Seq<char> {
    key_comment() + hex_digits(c.id.0 as int, 32) + seq!['"'] + (match c.channel_id {
        Some(cid) => key_channel_id() + hex_digits(cid.0 as int, 32) + seq!['"'],
        None => Seq::<char>::empty(),
    }) + key_name() + spec_escape(c.name) + seq!['"'] + key_message() + spec_escape(c.message)
        + seq!['"'] + key_close()
}

/// What one line of the document stands for.
pub enum LineItemV {
    Blank,
    VersionCode(u64),
    Channel(ChannelEntityView),
    Comment(StoredCommentView),
}

pub open spec fn spec_parse_channel_tail(rest: Seq<char>) -> Option<LineItemV> {
    match spec_parse_string(rest) {
        Some(id_r) => match spec_parse_hex32(id_r.0) {
            Some(id) => match spec_expect(id_r.1, key_name()) {
                Some(r2) => match spec_parse_string(r2) {
                    Some(name_r) => match spec_expect(name_r.1, key_close()) {
                        Some(r4) => if r4.len() == 0 {
                            Some(
                                LineItemV::Channel(
                                    ChannelEntityView { id: ChannelID(id), name: name_r.0 },
                                ),
                            )
                        } else {
                            None
                        },
                        None => None,
                    },
                    None => None,
                },
                None => None,
            },
            None => None,
        },
        None => None,
    }
}

pub open spec fn spec_parse_comment_fields(
    id: CommentID,
    chan: Option<ChannelID>,
    r: Seq<char>,
) -> Option<LineItemV> {
    match spec_expect(r, key_name()) {
        Some(r2) => match spec_parse_string(r2) {
            Some(name_r) => match spec_expect(name_r.1, key_message()) {
                Some(r4) => match spec_parse_string(r4) {
                    Some(msg_r) => match spec_expect(msg_r.1, key_close()) {
                        Some(r6) => if r6.len() == 0 {
                            Some(
                                LineItemV::Comment(
                                    StoredCommentView {
                                        id,
                                        channel_id: chan,
                                        name: name_r.0,
                                        message: msg_r.0,
                                    },
                                ),
                            )
                        } else {
                            None
                        },
                        None => None,
                    },
                    None => None,
                },
                None => None,
            },
            None => None,
        },
        None => None,
    }
}

pub open spec fn spec_parse_comment_tail(rest: Seq<char>) -> Option<LineItemV> {
    match spec_parse_string(rest) {
        Some(id_r) => match spec_parse_hex32(id_r.0) {
            Some(id) => match spec_expect(id_r.1, key_channel_id()) {
                Some(rc) => match spec_parse_string(rc) {
                    Some(cid_r) => match spec_parse_hex32(cid_r.0) {
                        Some(cid) => spec_parse_comment_fields(
                            CommentID(id),
                            Some(ChannelID(cid)),
                            cid_r.1,
                        ),
                        None => None,
                    },
                    None => None,
                },
                None => spec_parse_comment_fields(CommentID(id), None, id_r.1),
            },
            None => None,
        },
        None => None,
    }
}

/// What one line of text means: a blank line, the version field, a channel,
/// or a comment; anything else refuses to parse.
pub open spec fn spec_parse_line(line: Seq<char>) -> Option<LineItemV> {
    if line.len() == 0 {
        Some(LineItemV::Blank)
    } else {
        match spec_expect(line, key_version()) {
            Some(rest) => match spec_parse_dec_u64(rest) {
                Some(v) => Some(LineItemV::VersionCode(v)),
                None => None,
            },
            None => match spec_expect(line, key_channel()) {
                Some(rest) => spec_parse_channel_tail(rest),
                None => match spec_expect(line, key_comment()) {
                    Some(rest) => spec_parse_comment_tail(rest),
                    None => None,
                },
            },
        }
    }
}

// ------------------------------------------------------------------
// Whole documents.
// ------------------------------------------------------------------

pub open spec fn empty_stored() -> StoredTableView {
    StoredTableView { version_code: None, comments: Seq::empty(), channels: Seq::empty() }
}

/// Folds one parsed line into the document being built: records append in
/// line order, a version line sets the version field.
pub open spec fn apply_line(t: StoredTableView, item: LineItemV) -> StoredTableView {
    match item {
        LineItemV::Blank => t,
        LineItemV::VersionCode(v) => StoredTableView { version_code: Some(v), ..t },
        LineItemV::Channel(c) => StoredTableView { channels: t.channels.push(c), ..t },
        LineItemV::Comment(c) => StoredTableView { comments: t.comments.push(c), ..t },
    }
}

pub open spec fn spec_parse_lines(lines: Seq<Seq<char>>, acc: StoredTableView) -> Option<
    StoredTableView,
>
    decreases lines.len(),
{
    if lines.len() == 0 {
        Some(acc)
    } else {
        match spec_parse_line(lines[0]) {
            Some(item) => spec_parse_lines(lines.skip(1), apply_line(acc, item)),
            None => None,
        }
    }
}

/// The meaning of a whole document text.
pub open spec fn spec_parse_document(s: Seq<char>) -> Option<StoredTableView> {
    spec_parse_lines(split_on(s, '\n'), empty_stored())
}

pub open spec fn encode_comments(s: Seq<StoredCommentView>) -> Seq<char>
    decreases s.len(),
{
    if s.len() == 0 {
        Seq::empty()
    } else {
        line_comment(s[0]) + seq!['\n'] + encode_comments(s.skip(1))
    }
}

pub open spec fn encode_channels(s: Seq<ChannelEntityView>) -> Seq<char>
    decreases s.len(),
{
    if s.len() == 0 {
        Seq::empty()
    } else {
        line_channel(s[0]) + seq!['\n'] + encode_channels(s.skip(1))
    }
}

/// The canonical text of a stored document: the version line (if the
/// version is known), then one line per comment, then one line per channel,
/// each line newline-terminated.
pub open spec fn spec_encode_document(t: StoredTableView) -> Seq<char> {
    (match t.version_code {
        Some(v) => line_version(v) + seq!['\n'],
        None => Seq::<char>::empty(),
    }) + encode_comments(t.comments) + encode_channels(t.channels)
}

// ------------------------------------------------------------------
// Facts about the grammar's fixed text.
// ------------------------------------------------------------------

pub proof fn lemma_keys()
    ensures
        key_version().len() == 15,
        key_channel().len() == 18,
        key_comment().len() == 18,
        key_channel_id().len() == 16,
        key_name().len() == 10,
        key_message().len() == 13,
        key_close().len() == 2,
        forall|k: int| 0 <= k < key_version().len() ==> key_version()[k] != '\n',
        forall|k: int| 0 <= k < key_channel().len() ==> key_channel()[k] != '\n',
        forall|k: int| 0 <= k < key_comment().len() ==> key_comment()[k] != '\n',
        forall|k: int| 0 <= k < key_channel_id().len() ==> key_channel_id()[k] != '\n',
        forall|k: int| 0 <= k < key_name().len() ==> key_name()[k] != '\n',
        forall|k: int| 0 <= k < key_message().len() ==> key_message()[k] != '\n',
        forall|k: int| 0 <= k < key_close().len() ==> key_close()[k] != '\n',
        key_version()[0] == 'v',
        key_channel()[0] == 'c',
        key_comment()[0] == 'c',
        key_channel()[1] == 'h',
        key_comment()[1] == 'o',
        key_channel_id()[2] == 'c',
        key_name()[2] == 'n',
{
    reveal_strlit("version-code = ");
    reveal_strlit("channel = { id = \"");
    reveal_strlit("comment = { id = \"");
    reveal_strlit(", channel-id = \"");
    reveal_strlit(", name = \"");
    reveal_strlit(", message = \"");
    reveal_strlit(" }");
}

/// A mismatch at any one position refuses the whole literal.
pub proof fn lemma_expect_none_at(s: Seq<char>, lit: Seq<char>, j: int)
    requires
        0 <= j < lit.len(),
        j >= s.len() || s[j] != lit[j],
    ensures
        spec_expect(s, lit) is None,
{
    if lit.is_prefix_of(s) {
        assert(lit[j] == s.subrange(0, lit.len() as int)[j]);
    }
}

/// Matching a literal against itself plus a remainder yields the remainder.
pub proof fn lemma_expect_prefix(pre: Seq<char>, rest: Seq<char>)
    ensures
        spec_expect(pre + rest, pre) == Some(rest),
{
    let s = pre + rest;
    assert(pre =~= s.subrange(0, pre.len() as int));
    assert(s.skip(pre.len() as int) =~= rest);
}

/// Text made only of ordinary characters is its own escaped form.
pub proof fn lemma_plain_escape_id(s: Seq<char>)
    requires
        forall|k: int| 0 <= k < s.len() ==> !escaped_char(s[k]),
    ensures
        spec_escape(s) == s,
    decreases s.len(),
{
    if s.len() != 0 {
        assert(!escaped_char(s[0]));
        lemma_plain_escape_id(s.skip(1));
        assert(spec_escape(s) =~= seq![s[0]] + s.skip(1));
        assert(seq![s[0]] + s.skip(1) =~= s);
    }
}

/// Hexadecimal digit text is plain: nothing in it is escaped or a newline.
pub proof fn lemma_hex_digits_plain(v: int, n: nat)
    ensures
        forall|k: int| 0 <= k < hex_digits(v, n).len() ==> !escaped_char(hex_digits(v, n)[k])
            && hex_digits(v, n)[k] != '\n',
{
    lemma_hex_digits_all_hex(v, n);
    assert forall|k: int| 0 <= k < hex_digits(v, n).len() implies !escaped_char(
        hex_digits(v, n)[k],
    ) && hex_digits(v, n)[k] != '\n' by {
        lemma_hex_char_not_special(hex_digits(v, n)[k]);
    }
}

pub proof fn lemma_dec_digits_all_dec(v: int)
    requires
        v >= 0,
    ensures
        forall|k: int| 0 <= k < dec_digits(v).len() ==> dec_val(dec_digits(v)[k]) is Some,
    decreases v,
{
    if v < 10 {
        lemma_hex_char_val(v);
    } else {
        assert(0 <= v / 10 < v) by (nonlinear_arith)
            requires
                v >= 10,
        ;
        lemma_dec_digits_all_dec(v / 10);
        lemma_hex_char_val(v % 10);
        let front = dec_digits(v / 10);
        assert(forall|k: int| 0 <= k < dec_digits(v).len() ==> dec_digits(v)[k] == if k
            < front.len() {
            front[k]
        } else {
            dec_digits(v)[k]
        });
        assert(dec_digits(v)[front.len() as int] == crate::text::hex_char_of(v % 10));
    }
}

/// Decimal digit text is plain and newline-free.
pub proof fn lemma_dec_digits_plain(v: int)
    requires
        v >= 0,
    ensures
        forall|k: int| 0 <= k < dec_digits(v).len() ==> !escaped_char(dec_digits(v)[k])
            && dec_digits(v)[k] != '\n',
{
    lemma_dec_digits_all_dec(v);
    assert forall|k: int| 0 <= k < dec_digits(v).len() implies !escaped_char(dec_digits(v)[k])
        && dec_digits(v)[k] != '\n' by {
        assert(dec_val(dec_digits(v)[k]) is Some);
        assert(hex_val(dec_digits(v)[k]) is Some);
        lemma_hex_char_not_special(dec_digits(v)[k]);
    }
}

} // verus!

verus! {

// ------------------------------------------------------------------
// Round trip: an encoded document parses back to itself.
// ------------------------------------------------------------------

/// No character of `s` is a newline.
pub open spec fn nl_free(s: Seq<char>) -> bool {
    forall|k: int| 0 <= k < s.len() ==> s[k] != '\n'
}

pub proof fn lemma_nl_free_concat(a: Seq<char>, b: Seq<char>)
    requires
        nl_free(a),
        nl_free(b),
    ensures
        nl_free(a + b),
{
    assert forall|k: int| 0 <= k < (a + b).len() implies (a + b)[k] != '\n' by {
        if k < a.len() {
            assert((a + b)[k] == a[k]);
        } else {
            assert((a + b)[k] == b[k - a.len()]);
        }
    }
}

pub proof fn lemma_line_version_no_newline(v: u64)
    ensures
        nl_free(line_version(v)),
{
    lemma_keys();
    lemma_dec_digits_plain(v as int);
    lemma_nl_free_concat(key_version(), dec_digits(v as int));
}

pub proof fn lemma_line_channel_no_newline(c: ChannelEntityView)
    ensures
        nl_free(line_channel(c)),
{
    lemma_keys();
    let hexid = hex_digits(c.id.0 as int, 32);
    lemma_hex_digits_plain(c.id.0 as int, 32);
    lemma_escape_no_newline(c.name);
    let q = seq!['"'];
    assert(nl_free(q));
    lemma_nl_free_concat(key_channel(), hexid);
    lemma_nl_free_concat(key_channel() + hexid, q);
    lemma_nl_free_concat(key_channel() + hexid + q, key_name());
    lemma_nl_free_concat(key_channel() + hexid + q + key_name(), spec_escape(c.name));
    lemma_nl_free_concat(key_channel() + hexid + q + key_name() + spec_escape(c.name), q);
    lemma_nl_free_concat(
        key_channel() + hexid + q + key_name() + spec_escape(c.name) + q,
        key_close(),
    );
}

pub proof fn lemma_line_comment_no_newline(c: StoredCommentView)
    ensures
        nl_free(line_comment(c)),
{
    lemma_keys();
    let hexid = hex_digits(c.id.0 as int, 32);
    lemma_hex_digits_plain(c.id.0 as int, 32);
    lemma_escape_no_newline(c.name);
    lemma_escape_no_newline(c.message);
    let q = seq!['"'];
    assert(nl_free(q));
    let mid = match c.channel_id {
        Some(cid) => key_channel_id() + hex_digits(cid.0 as int, 32) + q,
        None => Seq::<char>::empty(),
    };
    match c.channel_id {
        Some(cid) => {
            lemma_hex_digits_plain(cid.0 as int, 32);
            lemma_nl_free_concat(key_channel_id(), hex_digits(cid.0 as int, 32));
            lemma_nl_free_concat(key_channel_id() + hex_digits(cid.0 as int, 32), q);
        },
        None => {},
    }
    assert(nl_free(mid));
    lemma_nl_free_concat(key_comment(), hexid);
    lemma_nl_free_concat(key_comment() + hexid, q);
    lemma_nl_free_concat(key_comment() + hexid + q, mid);
    lemma_nl_free_concat(key_comment() + hexid + q + mid, key_name());
    lemma_nl_free_concat(key_comment() + hexid + q + mid + key_name(), spec_escape(c.name));
    lemma_nl_free_concat(
        key_comment() + hexid + q + mid + key_name() + spec_escape(c.name),
        q,
    );
    lemma_nl_free_concat(
        key_comment() + hexid + q + mid + key_name() + spec_escape(c.name) + q,
        key_message(),
    );
    lemma_nl_free_concat(
        key_comment() + hexid + q + mid + key_name() + spec_escape(c.name) + q + key_message(),
        spec_escape(c.message),
    );
    lemma_nl_free_concat(
        key_comment() + hexid + q + mid + key_name() + spec_escape(c.name) + q + key_message()
            + spec_escape(c.message),
        q,
    );
    lemma_nl_free_concat(
        key_comment() + hexid + q + mid + key_name() + spec_escape(c.name) + q + key_message()
            + spec_escape(c.message) + q,
        key_close(),
    );
}

pub proof fn lemma_parse_line_version(v: u64)
    ensures
        spec_parse_line(line_version(v)) == Some(LineItemV::VersionCode(v)),
{
    lemma_keys();
    let line = line_version(v);
    assert(line.len() != 0);
    lemma_expect_prefix(key_version(), dec_digits(v as int));
    lemma_dec_u64_round_trip(v);
}

pub proof fn lemma_parse_line_channel(c: ChannelEntityView)
    ensures
        spec_parse_line(line_channel(c)) == Some(LineItemV::Channel(c)),
{
    lemma_keys();
    let hexid = hex_digits(c.id.0 as int, 32);
    lemma_hex_digits_len(c.id.0 as int, 32);
    lemma_hex_digits_plain(c.id.0 as int, 32);
    let line = line_channel(c);
    let q = seq!['"'];
    let tail2 = spec_escape(c.name) + q + key_close();
    let tail1 = key_name() + tail2;
    let rest = hexid + q + tail1;
    assert(line =~= key_channel() + rest);
    assert(line.len() != 0);
    assert(line[0] == 'c');
    lemma_expect_none_at(line, key_version(), 0);
    lemma_expect_prefix(key_channel(), rest);
    assert(spec_expect(line, key_channel()) == Some(rest));
    lemma_plain_escape_id(hexid);
    lemma_parse_escaped(hexid, tail1);
    assert(rest == spec_escape(hexid) + q + tail1);
    assert(spec_parse_string(rest) == Some((hexid, tail1)));
    lemma_hex32_round_trip(c.id.0);
    lemma_expect_prefix(key_name(), tail2);
    lemma_parse_escaped(c.name, key_close());
    assert(spec_parse_string(tail2) == Some((c.name, key_close())));
    lemma_expect_prefix(key_close(), Seq::<char>::empty());
    assert(key_close() + Seq::<char>::empty() =~= key_close());
    assert(spec_expect(key_close(), key_close()) == Some(Seq::<char>::empty()));
    assert(ChannelID(c.id.0) == c.id);
    assert(ChannelEntityView { id: ChannelID(c.id.0), name: c.name } == c);
}

pub proof fn lemma_parse_line_comment(c: StoredCommentView)
    ensures
        spec_parse_line(line_comment(c)) == Some(LineItemV::Comment(c)),
{
    lemma_keys();
    let hexid = hex_digits(c.id.0 as int, 32);
    lemma_hex_digits_len(c.id.0 as int, 32);
    lemma_hex_digits_plain(c.id.0 as int, 32);
    let line = line_comment(c);
    let q = seq!['"'];
    let tail_msg = spec_escape(c.message) + q + key_close();
    let tail4 = key_message() + tail_msg;
    let tail3 = spec_escape(c.name) + q + tail4;
    let tail2 = key_name() + tail3;
    let r1 = match c.channel_id {
        Some(cid) => key_channel_id() + (hex_digits(cid.0 as int, 32) + q + tail2),
        None => tail2,
    };
    let rest = hexid + q + r1;
    assert(line =~= key_comment() + rest);
    assert(line.len() != 0);
    assert(line[0] == 'c');
    lemma_expect_none_at(line, key_version(), 0);
    assert(line[1] == 'o');
    lemma_expect_none_at(line, key_channel(), 1);
    lemma_expect_prefix(key_comment(), rest);
    assert(spec_expect(line, key_comment()) == Some(rest));
    lemma_plain_escape_id(hexid);
    lemma_parse_escaped(hexid, r1);
    assert(rest == spec_escape(hexid) + q + r1);
    assert(spec_parse_string(rest) == Some((hexid, r1)));
    lemma_hex32_round_trip(c.id.0);
    // the optional channel reference
    match c.channel_id {
        Some(cid) => {
            let hexcid = hex_digits(cid.0 as int, 32);
            lemma_hex_digits_len(cid.0 as int, 32);
            lemma_hex_digits_plain(cid.0 as int, 32);
            let rc = hexcid + q + tail2;
            lemma_expect_prefix(key_channel_id(), rc);
            assert(spec_expect(r1, key_channel_id()) == Some(rc));
            lemma_plain_escape_id(hexcid);
            lemma_parse_escaped(hexcid, tail2);
            assert(rc == spec_escape(hexcid) + q + tail2);
            assert(spec_parse_string(rc) == Some((hexcid, tail2)));
            lemma_hex32_round_trip(cid.0);
            assert(ChannelID(cid.0) == cid);
        },
        None => {
            assert(r1 == tail2);
            assert(r1[2] == key_name()[2]);
            assert(r1[2] == 'n');
            lemma_expect_none_at(r1, key_channel_id(), 2);
        },
    }
    // the name and message fields
    lemma_expect_prefix(key_name(), tail3);
    assert(spec_expect(tail2, key_name()) == Some(tail3));
    lemma_parse_escaped(c.name, tail4);
    assert(tail3 == spec_escape(c.name) + q + tail4);
    assert(spec_parse_string(tail3) == Some((c.name, tail4)));
    lemma_expect_prefix(key_message(), tail_msg);
    lemma_parse_escaped(c.message, key_close());
    assert(spec_parse_string(tail_msg) == Some((c.message, key_close())));
    lemma_expect_prefix(key_close(), Seq::<char>::empty());
    assert(key_close() + Seq::<char>::empty() =~= key_close());
    assert(spec_expect(key_close(), key_close()) == Some(Seq::<char>::empty()));
    assert(CommentID(c.id.0) == c.id);
    assert(StoredCommentView {
        id: CommentID(c.id.0),
        channel_id: c.channel_id,
        name: c.name,
        message: c.message,
    } == c);
}

pub proof fn lemma_parse_encode_channels(chs: Seq<ChannelEntityView>, acc: StoredTableView)
    ensures
        spec_parse_lines(split_on(encode_channels(chs), '\n'), acc) == Some(
            StoredTableView { channels: acc.channels + chs, ..acc },
        ),
    decreases chs.len(),
{
    if chs.len() == 0 {
        assert(encode_channels(chs) == Seq::<char>::empty());
        assert(split_on(Seq::<char>::empty(), '\n') =~= Seq::<Seq<char>>::empty());
        assert(acc.channels + chs =~= acc.channels);
        assert(StoredTableView { channels: acc.channels + chs, ..acc } =~= acc);
    } else {
        let c0 = chs[0];
        let l0 = line_channel(c0);
        let restenc = encode_channels(chs.skip(1));
        lemma_line_channel_no_newline(c0);
        lemma_split_on_step(l0, restenc, '\n');
        assert(encode_channels(chs) == l0 + seq!['\n'] + restenc);
        let lines = split_on(encode_channels(chs), '\n');
        assert(lines == seq![l0] + split_on(restenc, '\n'));
        assert(lines.len() != 0);
        assert(lines[0] == l0);
        assert(lines.skip(1) =~= split_on(restenc, '\n'));
        lemma_parse_line_channel(c0);
        let acc1 = apply_line(acc, LineItemV::Channel(c0));
        lemma_parse_encode_channels(chs.skip(1), acc1);
        assert(acc1.channels + chs.skip(1) =~= acc.channels + chs);
        assert(StoredTableView { channels: acc1.channels + chs.skip(1), ..acc1 }
            =~= StoredTableView { channels: acc.channels + chs, ..acc });
    }
}

#[verifier::rlimit(50)]
pub proof fn lemma_parse_encode_tail(
    cs: Seq<StoredCommentView>,
    chs: Seq<ChannelEntityView>,
    acc: StoredTableView,
)
    ensures
        spec_parse_lines(split_on(encode_comments(cs) + encode_channels(chs), '\n'), acc) == Some(
            StoredTableView {
                comments: acc.comments + cs,
                channels: acc.channels + chs,
                ..acc
            },
        ),
    decreases cs.len(),
{
    if cs.len() == 0 {
        assert(encode_comments(cs) + encode_channels(chs) =~= encode_channels(chs));
        lemma_parse_encode_channels(chs, acc);
        assert(acc.comments + cs =~= acc.comments);
        assert(StoredTableView { comments: acc.comments + cs, channels: acc.channels + chs, ..acc }
            =~= StoredTableView { channels: acc.channels + chs, ..acc });
    } else {
        let c0 = cs[0];
        let l0 = line_comment(c0);
        let restenc = encode_comments(cs.skip(1)) + encode_channels(chs);
        lemma_line_comment_no_newline(c0);
        lemma_split_on_step(l0, restenc, '\n');
        assert(encode_comments(cs) + encode_channels(chs) =~= l0 + seq!['\n'] + restenc);
        let lines = split_on(encode_comments(cs) + encode_channels(chs), '\n');
        assert(lines == seq![l0] + split_on(restenc, '\n'));
        assert(lines.len() != 0);
        assert(lines[0] == l0);
        assert(lines.skip(1) =~= split_on(restenc, '\n'));
        lemma_parse_line_comment(c0);
        let acc1 = apply_line(acc, LineItemV::Comment(c0));
        lemma_parse_encode_tail(cs.skip(1), chs, acc1);
        assert(acc1.comments + cs.skip(1) =~= acc.comments + cs);
        assert(StoredTableView {
            comments: acc1.comments + cs.skip(1),
            channels: acc1.channels + chs,
            ..acc1
        } =~= StoredTableView {
            comments: acc.comments + cs,
            channels: acc.channels + chs,
            ..acc
        });
    }
}

/// The document round trip: any stored document, encoded to text and parsed
/// back, is recovered exactly — version field, comment order and channel
/// order included.
pub proof fn lemma_document_round_trip(t: StoredTableView)
    ensures
        spec_parse_document(spec_encode_document(t)) == Some(t),
{
    let body = encode_comments(t.comments) + encode_channels(t.channels);
    match t.version_code {
        None => {
            assert(spec_encode_document(t) =~= body);
            lemma_parse_encode_tail(t.comments, t.channels, empty_stored());
            assert(empty_stored().comments + t.comments =~= t.comments);
            assert(empty_stored().channels + t.channels =~= t.channels);
            assert(StoredTableView {
                comments: empty_stored().comments + t.comments,
                channels: empty_stored().channels + t.channels,
                ..empty_stored()
            } =~= t);
        },
        Some(v) => {
            lemma_line_version_no_newline(v);
            lemma_split_on_step(line_version(v), body, '\n');
            assert(spec_encode_document(t) =~= line_version(v) + seq!['\n'] + body);
            let lines = split_on(spec_encode_document(t), '\n');
            assert(lines == seq![line_version(v)] + split_on(body, '\n'));
            assert(lines.len() != 0);
            assert(lines[0] == line_version(v));
            assert(lines.skip(1) =~= split_on(body, '\n'));
            lemma_parse_line_version(v);
            let acc1 = apply_line(empty_stored(), LineItemV::VersionCode(v));
            lemma_parse_encode_tail(t.comments, t.channels, acc1);
            assert(acc1.comments + t.comments =~= t.comments);
            assert(acc1.channels + t.channels =~= t.channels);
            assert(StoredTableView {
                comments: acc1.comments + t.comments,
                channels: acc1.channels + t.channels,
                ..acc1
            } =~= t);
        },
    }
}

} // verus!

verus! {

use vstd::string::*;
use crate::text::{push_char, escape_append, hex32_append, dec_append};

// ------------------------------------------------------------------
// Executable encoding.
// ------------------------------------------------------------------

pub proof fn lemma_encode_comments_push(s: Seq<StoredCommentView>, x: StoredCommentView)
    ensures
        encode_comments(s.push(x)) == encode_comments(s) + line_comment(x) + seq!['\n'],
    decreases s.len(),
{
    if s.len() == 0 {
        assert(s.push(x)[0] == x);
        assert(s.push(x).skip(1) =~= Seq::<StoredCommentView>::empty());
        assert(encode_comments(Seq::<StoredCommentView>::empty()) == Seq::<char>::empty());
        assert(encode_comments(s.push(x)) =~= encode_comments(s) + line_comment(x) + seq!['\n']);
    } else {
        assert(s.push(x)[0] == s[0]);
        assert(s.push(x).skip(1) =~= s.skip(1).push(x));
        lemma_encode_comments_push(s.skip(1), x);
        assert(encode_comments(s.push(x)) =~= encode_comments(s) + line_comment(x) + seq!['\n']);
    }
}

pub proof fn lemma_encode_channels_push(s: Seq<ChannelEntityView>, x: ChannelEntityView)
    ensures
        encode_channels(s.push(x)) == encode_channels(s) + line_channel(x) + seq!['\n'],
    decreases s.len(),
{
    if s.len() == 0 {
        assert(s.push(x)[0] == x);
        assert(s.push(x).skip(1) =~= Seq::<ChannelEntityView>::empty());
        assert(encode_channels(Seq::<ChannelEntityView>::empty()) == Seq::<char>::empty());
        assert(encode_channels(s.push(x)) =~= encode_channels(s) + line_channel(x) + seq!['\n']);
    } else {
        assert(s.push(x)[0] == s[0]);
        assert(s.push(x).skip(1) =~= s.skip(1).push(x));
        lemma_encode_channels_push(s.skip(1), x);
        assert(encode_channels(s.push(x)) =~= encode_channels(s) + line_channel(x) + seq!['\n']);
    }
}

fn append_channel_line(out: &mut String, c: &ChannelEntity)
    ensures
        final(out)@ == old(out)@ + line_channel(c@) + seq!['\n'],
{
    out.append("channel = { id = \"");
    hex32_append(out, c.id.0);
    push_char(out, '"');
    out.append(", name = \"");
    escape_append(out, c.name.as_str());
    push_char(out, '"');
    out.append(" }");
    push_char(out, '\n');
    proof {
        assert(out@ =~= old(out)@ + line_channel(c@) + seq!['\n']);
    }
}

fn append_comment_line(out: &mut String, c: &StoredComment)
    ensures
        final(out)@ == old(out)@ + line_comment(c@) + seq!['\n'],
{
    out.append("comment = { id = \"");
    hex32_append(out, c.id.0);
    push_char(out, '"');
    match c.channel_id {
        Some(cid) => {
            out.append(", channel-id = \"");
            hex32_append(out, cid.0);
            push_char(out, '"');
        },
        None => {},
    }
    out.append(", name = \"");
    escape_append(out, c.name.as_str());
    push_char(out, '"');
    out.append(", message = \"");
    escape_append(out, c.message.as_str());
    push_char(out, '"');
    out.append(" }");
    push_char(out, '\n');
    proof {
        assert(out@ =~= old(out)@ + line_comment(c@) + seq!['\n']);
    }
}

/// Renders a stored document as text, exactly as `spec_encode_document`
/// describes it.
pub fn encode_stored(t: &StoredTable) -> (r: String)
    ensures
        r@ == spec_encode_document(t@),
{
    let mut out = String::new();
    match t.version_code {
        Some(v) => {
            out.append("version-code = ");
            dec_append(&mut out, v);
            push_char(&mut out, '\n');
        },
        None => {},
    }
    let ghost head: Seq<char> = match t@.version_code {
        Some(v) => line_version(v) + seq!['\n'],
        None => Seq::<char>::empty(),
    };
    proof {
        assert(out@ =~= head);
    }
    let ncs = t.comments.len();
    for i in 0..ncs
        invariant
            ncs == t.comments@.len(),
            head == (match t@.version_code {
                Some(v) => line_version(v) + seq!['\n'],
                None => Seq::<char>::empty(),
            }),
            out@ == head + encode_comments(t@.comments.take(i as int)),
    {
        let ghost prefix = t@.comments.take(i as int);
        append_comment_line(&mut out, &t.comments[i]);
        proof {
            lemma_encode_comments_push(prefix, t@.comments[i as int]);
            assert(t@.comments.take(i + 1) =~= prefix.push(t@.comments[i as int]));
            assert(t@.comments[i as int] == t.comments@[i as int]@);
            assert(head + encode_comments(prefix) + line_comment(t@.comments[i as int]) + seq![
                '\n',
            ] =~= head + encode_comments(t@.comments.take(i + 1)));
        }
    }
    proof {
        assert(t@.comments.take(ncs as int) =~= t@.comments);
    }
    let ghost head2 = head + encode_comments(t@.comments);
    let nch = t.channels.len();
    for i in 0..nch
        invariant
            nch == t.channels@.len(),
            head2 == head + encode_comments(t@.comments),
            out@ == head2 + encode_channels(t@.channels.take(i as int)),
    {
        let ghost prefix = t@.channels.take(i as int);
        append_channel_line(&mut out, &t.channels[i]);
        proof {
            lemma_encode_channels_push(prefix, t@.channels[i as int]);
            assert(t@.channels.take(i + 1) =~= prefix.push(t@.channels[i as int]));
            assert(t@.channels[i as int] == t.channels@[i as int]@);
            assert(head2 + encode_channels(prefix) + line_channel(t@.channels[i as int]) + seq![
                '\n',
            ] =~= head2 + encode_channels(t@.channels.take(i + 1)));
        }
    }
    proof {
        assert(t@.channels.take(nch as int) =~= t@.channels);
        assert(out@ =~= spec_encode_document(t@));
    }
    out
}

} // verus!

verus! {

use crate::text::{expect_lit, parse_quoted, parse_dec_all, hex32_decode, str_to_chars, subvec};

// ------------------------------------------------------------------
// Executable parsing.
// ------------------------------------------------------------------

/// The executable counterpart of `LineItemV`.
pub enum LineItem {
    Blank,
    VersionCode(u64),
    Channel(ChannelEntity),
    Comment(StoredComment),
}

impl View for LineItem {
    type V = LineItemV;

    open spec fn view(&self) -> LineItemV {
        match self {
            LineItem::Blank => LineItemV::Blank,
            LineItem::VersionCode(v) => LineItemV::VersionCode(*v),
            LineItem::Channel(c) => LineItemV::Channel(c@),
            LineItem::Comment(c) => LineItemV::Comment(c@),
        }
    }
}

fn parse_channel_tail(line: &Vec<char>, p: usize) -> (r: Option<LineItem>)
    requires
        p <= line@.len(),
    ensures
        match r {
            Some(item) => spec_parse_channel_tail(line@.skip(p as int)) == Some(item@),
            None => spec_parse_channel_tail(line@.skip(p as int)) is None,
        },
{
    let (idstr, p1) = match parse_quoted(line, p) {
        Some(x) => x,
        None => { return None },
    };
    let id = match hex32_decode(idstr.as_str()) {
        Some(x) => x,
        None => { return None },
    };
    let p2 = match expect_lit(line, p1, ", name = \"") {
        Some(x) => x,
        None => { return None },
    };
    let (name, p3) = match parse_quoted(line, p2) {
        Some(x) => x,
        None => { return None },
    };
    let p4 = match expect_lit(line, p3, " }") {
        Some(x) => x,
        None => { return None },
    };
    if p4 != line.len() {
        proof {
            assert(line@.skip(p4 as int).len() != 0);
        }
        return None;
    }
    proof {
        assert(line@.skip(p4 as int).len() == 0);
    }
    Some(LineItem::Channel(ChannelEntity { id: ChannelID(id), name }))
}

fn parse_comment_fields(line: &Vec<char>, id: CommentID, chan: Option<ChannelID>, p: usize) -> (r:
    Option<LineItem>)
    requires
        p <= line@.len(),
    ensures
        match r {
            Some(item) => spec_parse_comment_fields(id, chan, line@.skip(p as int)) == Some(
                item@,
            ),
            None => spec_parse_comment_fields(id, chan, line@.skip(p as int)) is None,
        },
{
    let p2 = match expect_lit(line, p, ", name = \"") {
        Some(x) => x,
        None => { return None },
    };
    let (name, p3) = match parse_quoted(line, p2) {
        Some(x) => x,
        None => { return None },
    };
    let p4 = match expect_lit(line, p3, ", message = \"") {
        Some(x) => x,
        None => { return None },
    };
    let (message, p5) = match parse_quoted(line, p4) {
        Some(x) => x,
        None => { return None },
    };
    let p6 = match expect_lit(line, p5, " }") {
        Some(x) => x,
        None => { return None },
    };
    if p6 != line.len() {
        proof {
            assert(line@.skip(p6 as int).len() != 0);
        }
        return None;
    }
    proof {
        assert(line@.skip(p6 as int).len() == 0);
    }
    Some(LineItem::Comment(StoredComment { id, channel_id: chan, name, message }))
}

fn parse_comment_tail(line: &Vec<char>, p: usize) -> (r: Option<LineItem>)
    requires
        p <= line@.len(),
    ensures
        match r {
            Some(item) => spec_parse_comment_tail(line@.skip(p as int)) == Some(item@),
            None => spec_parse_comment_tail(line@.skip(p as int)) is None,
        },
{
    let (idstr, p1) = match parse_quoted(line, p) {
        Some(x) => x,
        None => { return None },
    };
    let id = match hex32_decode(idstr.as_str()) {
        Some(x) => x,
        None => { return None },
    };
    match expect_lit(line, p1, ", channel-id = \"") {
        Some(pc) => {
            let (cidstr, p2) = match parse_quoted(line, pc) {
                Some(x) => x,
                None => { return None },
            };
            let cid = match hex32_decode(cidstr.as_str()) {
                Some(x) => x,
                None => { return None },
            };
            parse_comment_fields(line, CommentID(id), Some(ChannelID(cid)), p2)
        },
        None => parse_comment_fields(line, CommentID(id), None, p1),
    }
}

/// Parses one line of the document.
fn parse_line_chars(line: &Vec<char>) -> (r: Option<LineItem>)
    ensures
        match r {
            Some(item) => spec_parse_line(line@) == Some(item@),
            None => spec_parse_line(line@) is None,
        },
{
    proof {
        assert(line@.skip(0) =~= line@);
    }
    if line.len() == 0 {
        return Some(LineItem::Blank);
    }
    match expect_lit(line, 0, "version-code = ") {
        Some(p) => {
            match parse_dec_all(line, p) {
                Some(v) => Some(LineItem::VersionCode(v)),
                None => None,
            }
        },
        None => {
            match expect_lit(line, 0, "channel = { id = \"") {
                Some(p) => parse_channel_tail(line, p),
                None => {
                    match expect_lit(line, 0, "comment = { id = \"") {
                        Some(p) => parse_comment_tail(line, p),
                        None => None,
                    }
                },
            }
        },
    }
}

/// Parses a whole document text; fails with `Parse` exactly when the text
/// has no meaning under the grammar.
pub fn parse_stored(s: &str) -> (r: Result<StoredTable, ChatError>)
    ensures
        match r {
            Ok(t) => spec_parse_document(s@) == Some(t@),
            Err(e) => e == ChatError::Parse && spec_parse_document(s@) is None,
        },
{
    let chars = str_to_chars(s);
    let n = chars.len();
    let mut acc = StoredTable { version_code: None, comments: Vec::new(), channels: Vec::new() };
    let mut pos: usize = 0;
    proof {
        assert(chars@.skip(0) =~= chars@);
        assert(acc@ =~= empty_stored());
    }
    loop
        invariant
            pos <= n,
            n == chars@.len(),
            chars@ == s@,
            spec_parse_document(s@) == spec_parse_lines(
                split_on(chars@.skip(pos as int), '\n'),
                acc@,
            ),
        decreases n - pos,
    {
        if pos == n {
            proof {
                assert(chars@.skip(pos as int).len() == 0);
            }
            return Ok(acc);
        }
        let mut j = pos;
        while j < n && chars[j] != '\n'
            invariant
                pos <= j <= n,
                n == chars@.len(),
                forall|k: int| pos <= k < j ==> chars@[k] != '\n',
            decreases n - j,
        {
            j = j + 1;
        }
        let line = subvec(&chars, pos, j);
        let ghost rem = chars@.skip(pos as int);
        proof {
            assert(forall|k: int| 0 <= k < line@.len() ==> line@[k] == chars@[pos + k]
                && line@[k] != '\n');
            if j < n {
                assert(chars@[j as int] == '\n');
                assert(rem =~= line@ + seq!['\n'] + chars@.skip(j + 1));
                lemma_split_on_step(line@, chars@.skip(j + 1), '\n');
                assert(split_on(rem, '\n') == seq![line@] + split_on(chars@.skip(j + 1), '\n'));
            } else {
                assert(rem =~= line@);
                assert(rem.len() > 0);
                lemma_seg_len_of(rem, '\n', rem.len() as int);
                assert(split_on(rem, '\n') == seq![rem]);
                assert(split_on(rem, '\n')[0] == line@);
                assert(split_on(rem, '\n').skip(1) =~= Seq::<Seq<char>>::empty());
            }
        }
        match parse_line_chars(&line) {
            None => {
                return Err(ChatError::Parse);
            },
            Some(item) => {
                let ghost acc_old = acc@;
                match item {
                    LineItem::Blank => {},
                    LineItem::VersionCode(v) => {
                        acc.version_code = Some(v);
                    },
                    LineItem::Channel(c) => {
                        let ghost cv = c@;
                        acc.channels.push(c);
                        proof {
                            assert(acc@.channels =~= acc_old.channels.push(cv));
                        }
                    },
                    LineItem::Comment(c) => {
                        let ghost cv = c@;
                        acc.comments.push(c);
                        proof {
                            assert(acc@.comments =~= acc_old.comments.push(cv));
                        }
                    },
                }
                proof {
                    assert(acc@ =~= apply_line(acc_old, item@));
                    let lines = split_on(rem, '\n');
                    assert(lines.len() != 0);
                    assert(lines[0] == line@);
                    if j < n {
                        assert(lines.skip(1) =~= split_on(chars@.skip(j + 1), '\n'));
                        assert(spec_parse_lines(lines, acc_old) == spec_parse_lines(
                            split_on(chars@.skip(j + 1), '\n'),
                            acc@,
                        ));
                    } else {
                        assert(lines.skip(1) =~= Seq::<Seq<char>>::empty());
                        assert(spec_parse_lines(lines, acc_old) == spec_parse_lines(
                            Seq::<Seq<char>>::empty(),
                            acc@,
                        ));
                    }
                }
                if j == n {
                    proof {
                        assert(spec_parse_lines(Seq::<Seq<char>>::empty(), acc@) == Some(acc@));
                    }
                    return Ok(acc);
                }
                pos = j + 1;
            },
        }
    }
}

} // verus!

verus! {

use crate::entity::{CommentEntity, CommentEntityView, DevFlexChatTable, DevFlexChatTableView};
use crate::entity::{clone_channels};

// ------------------------------------------------------------------
// Between the stored shape and the up-to-date table.
// ------------------------------------------------------------------

/// An up-to-date table in its stored shape: version present, every comment
/// linked.
pub open spec fn spec_to_stored(t: DevFlexChatTableView) -> StoredTableView {
    StoredTableView {
        version_code: Some(t.version_code),
        comments: Seq::new(
            t.comments.len(),
            |i: int|
                StoredCommentView {
                    id: t.comments[i].id,
                    channel_id: Some(t.comments[i].channel_id),
                    name: t.comments[i].name,
                    message: t.comments[i].message,
                },
        ),
        channels: t.channels,
    }
}

/// Reads an up-to-date table out of a stored document: fails with
/// `MissingVersionCode` when the version field is absent, and with `Parse`
/// when some comment still lacks its channel reference.
pub open spec fn spec_finalize(st: StoredTableView) -> Result<DevFlexChatTableView, ChatError> {
    match st.version_code {
        None => Err(ChatError::MissingVersionCode),
        Some(vc) => {
            if exists|i: int| 0 <= i < st.comments.len() && st.comments[i].channel_id is None {
                Err(ChatError::Parse)
            } else {
                Ok(
                    DevFlexChatTableView {
                        version_code: vc,
                        comments: Seq::new(
                            st.comments.len(),
                            |i: int|
                                CommentEntityView {
                                    id: st.comments[i].id,
                                    channel_id: match st.comments[i].channel_id {
                                        Some(c) => c,
                                        None => ChannelID(0),
                                    },
                                    name: st.comments[i].name,
                                    message: st.comments[i].message,
                                },
                        ),
                        channels: st.channels,
                    },
                )
            }
        },
    }
}

/// Converts an up-to-date table to its stored shape.
pub fn to_stored(t: &DevFlexChatTable) -> (r: StoredTable)
    ensures
        r@ == spec_to_stored(t@),
{
    let mut comments: Vec<StoredComment> = Vec::new();
    let n = t.comments.len();
    for i in 0..n
        invariant
            n == t.comments@.len(),
            comments@.len() == i,
            forall|k: int| 0 <= k < i ==> comments@[k]@ == spec_to_stored(t@).comments[k],
    {
        let c = &t.comments[i];
        comments.push(
            StoredComment {
                id: c.id,
                channel_id: Some(c.channel_id),
                name: c.name.clone(),
                message: c.message.clone(),
            },
        );
    }
    let r = StoredTable {
        version_code: Some(t.version_code),
        comments,
        channels: clone_channels(&t.channels),
    };
    proof {
        assert(r@ =~= spec_to_stored(t@));
    }
    r
}

/// Reads an up-to-date table out of a stored document.
pub fn finalize_stored(st: StoredTable) -> (r: Result<DevFlexChatTable, ChatError>)
    ensures
        match r {
            Ok(t) => spec_finalize(st@) == Ok::<DevFlexChatTableView, ChatError>(t@),
            Err(e) => spec_finalize(st@) == Err::<DevFlexChatTableView, ChatError>(e),
        },
{
    let vc = match st.version_code {
        Some(v) => v,
        None => { return Err(ChatError::MissingVersionCode) },
    };
    let mut comments: Vec<CommentEntity> = Vec::new();
    let n = st.comments.len();
    for i in 0..n
        invariant
            n == st.comments@.len(),
            comments@.len() == i,
            forall|k: int| 0 <= k < i ==> st@.comments[k].channel_id is Some,
            st.version_code is Some,
            forall|k: int|
                0 <= k < i ==> comments@[k]@ == (CommentEntityView {
                    id: st@.comments[k].id,
                    channel_id: match st@.comments[k].channel_id {
                        Some(c) => c,
                        None => ChannelID(0),
                    },
                    name: st@.comments[k].name,
                    message: st@.comments[k].message,
                }),
    {
        let c = &st.comments[i];
        match c.channel_id {
            Some(cid) => {
                comments.push(
                    CommentEntity {
                        id: c.id,
                        channel_id: cid,
                        name: c.name.clone(),
                        message: c.message.clone(),
                    },
                );
            },
            None => {
                proof {
                    assert(st@.comments[i as int].channel_id is None);
                }
                return Err(ChatError::Parse);
            },
        }
    }
    let r = DevFlexChatTable { version_code: vc, comments, channels: st.channels };
    proof {
        assert(forall|i: int| 0 <= i < st@.comments.len() ==> st@.comments[i].channel_id is Some);
        match spec_finalize(st@) {
            Ok(tv) => {
                assert(r@ =~= tv);
            },
            Err(_) => {
                assert(false);
            },
        }
    }
    Ok(r)
}

/// Renders an up-to-date table as document text.
pub fn encode_table(t: &DevFlexChatTable) -> (r: String)
    ensures
        r@ == spec_encode_document(spec_to_stored(t@)),
{
    let st = to_stored(t);
    encode_stored(&st)
}

/// The save/read round trip for up-to-date tables: writing a table as text,
/// parsing the text and reading the table back out recovers it exactly —
/// the version code and the ordered channel and comment sequences included.
pub proof fn lemma_table_round_trip(t: DevFlexChatTableView)
    ensures
        spec_parse_document(spec_encode_document(spec_to_stored(t))) == Some(spec_to_stored(t)),
        spec_finalize(spec_to_stored(t)) == Ok::<DevFlexChatTableView, ChatError>(t),
{
    lemma_document_round_trip(spec_to_stored(t));
    let st = spec_to_stored(t);
    assert(forall|i: int| 0 <= i < st.comments.len() ==> st.comments[i].channel_id is Some);
    match spec_finalize(st) {
        Ok(tv) => {
            assert(tv =~= t);
        },
        Err(_) => {
            assert(false);
        },
    }
}

} // verus!
