use vstd::prelude::*;

verus! {

/// A three-part semantic version. Ordering is lexicographic on
/// `(major, minor, patch)`.
#[derive(Clone, Copy, Debug, PartialEq, Eq, Structural)]
pub struct Version {
    pub major: u16,
    pub minor: u16,
    pub patch: u16,
}

/// The ordering `partial_cmp` (and `<`, `<=`, `>`, `>=`) computes on versions:
/// compare majors first, then minors, then patches.
pub open spec fn version_cmp(a: Version, b: Version) -> core::cmp::Ordering {
    if a.major != b.major {
        if a.major < b.major {
            core::cmp::Ordering::Less
        } else {
            core::cmp::Ordering::Greater
        }
    } else if a.minor != b.minor {
        if a.minor < b.minor {
            core::cmp::Ordering::Less
        } else {
            core::cmp::Ordering::Greater
        }
    } else if a.patch != b.patch {
        if a.patch < b.patch {
            core::cmp::Ordering::Less
        } else {
            core::cmp::Ordering::Greater
        }
    } else {
        core::cmp::Ordering::Equal
    }
}

impl PartialOrd for Version {
    fn partial_cmp(&self, other: &Version) -> (r: Option<core::cmp::Ordering>) {
        let major = if self.major < other.major {
            core::cmp::Ordering::Less
        } else if self.major > other.major {
            core::cmp::Ordering::Greater
        } else {
            core::cmp::Ordering::Equal
        };
        if !matches!(major, core::cmp::Ordering::Equal) {
            return Some(major);
        }

        let minor = if self.minor < other.minor {
            core::cmp::Ordering::Less
        } else if self.minor > other.minor {
            core::cmp::Ordering::Greater
        } else {
            core::cmp::Ordering::Equal
        };
        if !matches!(minor, core::cmp::Ordering::Equal) {
            return Some(minor);
        }

        let patch = if self.patch < other.patch {
            core::cmp::Ordering::Less
        } else if self.patch > other.patch {
            core::cmp::Ordering::Greater
        } else {
            core::cmp::Ordering::Equal
        };
        if !matches!(patch, core::cmp::Ordering::Equal) {
            return Some(patch);
        }

        Some(core::cmp::Ordering::Equal)
    }
}

impl vstd::std_specs::cmp::PartialOrdSpecImpl for Version {
    open spec fn obeys_partial_cmp_spec() -> bool {
        true
    }

    open spec fn partial_cmp_spec(&self, other: &Version) -> Option<core::cmp::Ordering> {
        Some(version_cmp(*self, *other))
    }
}

impl From<[u16; 3]> for Version {
    fn from(v: [u16; 3]) -> (r: Version) {
        Version { major: v[0], minor: v[1], patch: v[2] }
    }
}

impl vstd::std_specs::convert::FromSpecImpl<[u16; 3]> for Version {
    open spec fn obeys_from_spec() -> bool {
        true
    }

    open spec fn from_spec(v: [u16; 3]) -> Version {
        Version { major: v@[0], minor: v@[1], patch: v@[2] }
    }
}

} // verus!

verus! {

use crate::model::ChatError;
use crate::text::{
    dec_digits, spec_parse_dec_u64, split_on, dec_append, parse_dec_all, push_char, str_to_chars,
    subvec, lemma_seg_len_of, lemma_split_on_step,
};

/// The parse of one dot-separated version component.
pub open spec fn spec_parse_u16(s: Seq<char>) -> Option<u16> {
    match spec_parse_dec_u64(s) {
        Some(v) => if v <= u16::MAX as u64 {
            Some(v as u16)
        } else {
            None
        },
        None => None,
    }
}

/// The parse of a version string: at least three dot-separated components,
/// of which the first three must be decimal numbers that fit in sixteen
/// bits; any further components are ignored.
pub open spec fn spec_parse_version(s: Seq<char>) -> Option<Version> {
    let parts = split_on(s, '.');
    if parts.len() < 3 {
        None
    } else {
        match (spec_parse_u16(parts[0]), spec_parse_u16(parts[1]), spec_parse_u16(parts[2])) {
            (Some(a), Some(b), Some(c)) => Some(Version { major: a, minor: b, patch: c }),
            _ => None,
        }
    }
}

/// The dotted text of a version.
pub open spec fn spec_version_text(v: Version) -> Seq<char> {
    dec_digits(v.major as int) + seq!['.'] + dec_digits(v.minor as int) + seq!['.'] + dec_digits(
        v.patch as int,
    )
}

fn parse_component(seg: &Vec<char>) -> (r: Option<u16>)
    ensures
        r == spec_parse_u16(seg@),
{
    proof {
        assert(seg@.skip(0) =~= seg@);
    }
    match parse_dec_all(seg, 0) {
        Some(v) => if v <= 0xFFFF {
            Some(v as u16)
        } else {
            None
        },
        None => None,
    }
}

impl Version {
    /// Parses a dotted version string; fails exactly when
    /// `spec_parse_version` has no value for it.
    pub fn parse(version: &str) -> (r: Result<Version, ChatError>)
        ensures
            match r {
                Ok(v) => spec_parse_version(version@) == Some(v),
                Err(e) => e == ChatError::Parse && spec_parse_version(version@) is None,
            },
    {
        let chars = str_to_chars(version);
        let n = chars.len();
        let ghost parts = split_on(chars@, '.');
        let mut j1: usize = 0;
        while j1 < n && chars[j1] != '.'
            invariant
                0 <= j1 <= n,
                n == chars@.len(),
                forall|k: int| 0 <= k < j1 ==> chars@[k] != '.',
            decreases n - j1,
        {
            j1 = j1 + 1;
        }
        if j1 == n {
            proof {
                if n > 0 {
                    lemma_seg_len_of(chars@, '.', n as int);
                }
                assert(parts.len() < 3);
            }
            return Err(ChatError::Parse);
        }
        let seg1 = subvec(&chars, 0, j1);
        let ghost rest1 = chars@.skip(j1 + 1);
        proof {
            assert(chars@[j1 as int] == '.');
            assert(chars@ =~= seg1@ + seq!['.'] + rest1);
            lemma_split_on_step(seg1@, rest1, '.');
            assert(parts == seq![seg1@] + split_on(rest1, '.'));
        }
        let mut j2: usize = j1 + 1;
        while j2 < n && chars[j2] != '.'
            invariant
                j1 + 1 <= j2 <= n,
                n == chars@.len(),
                forall|k: int| j1 + 1 <= k < j2 ==> chars@[k] != '.',
            decreases n - j2,
        {
            j2 = j2 + 1;
        }
        let seg2 = subvec(&chars, j1 + 1, j2);
        if j2 == n {
            proof {
                assert(rest1 =~= seg2@);
                if rest1.len() > 0 {
                    lemma_seg_len_of(rest1, '.', rest1.len() as int);
                }
                assert(split_on(rest1, '.').len() <= 1);
                assert(parts.len() < 3);
            }
            return Err(ChatError::Parse);
        }
        let ghost rest2 = chars@.skip(j2 + 1);
        proof {
            assert(chars@[j2 as int] == '.');
            assert(rest1 =~= seg2@ + seq!['.'] + rest2);
            lemma_split_on_step(seg2@, rest2, '.');
            assert(parts == seq![seg1@] + (seq![seg2@] + split_on(rest2, '.')));
        }
        let mut j3: usize = j2 + 1;
        while j3 < n && chars[j3] != '.'
            invariant
                j2 + 1 <= j3 <= n,
                n == chars@.len(),
                forall|k: int| j2 + 1 <= k < j3 ==> chars@[k] != '.',
            decreases n - j3,
        {
            j3 = j3 + 1;
        }
        let seg3 = subvec(&chars, j2 + 1, j3);
        proof {
            if j3 == n {
                assert(rest2 =~= seg3@);
                if rest2.len() > 0 {
                    lemma_seg_len_of(rest2, '.', rest2.len() as int);
                    assert(split_on(rest2, '.') == seq![rest2]);
                    assert(parts.len() == 3);
                    assert(parts[2] == seg3@);
                }
            } else {
                assert(chars@[j3 as int] == '.');
                let rest3 = chars@.skip(j3 + 1);
                assert(rest2 =~= seg3@ + seq!['.'] + rest3);
                lemma_split_on_step(seg3@, rest3, '.');
                assert(parts[2] == seg3@);
            }
            assert(parts[0] == seg1@);
            assert(parts[1] == seg2@);
        }
        if j3 == n && j2 + 1 == n {
            proof {
                assert(rest2.len() == 0);
                assert(split_on(rest2, '.') =~= Seq::<Seq<char>>::empty());
                assert(parts.len() < 3);
            }
            return Err(ChatError::Parse);
        }
        proof {
            assert(parts.len() >= 3);
        }
        let major = match parse_component(&seg1) {
            Some(v) => v,
            None => { return Err(ChatError::Parse) },
        };
        let minor = match parse_component(&seg2) {
            Some(v) => v,
            None => { return Err(ChatError::Parse) },
        };
        let patch = match parse_component(&seg3) {
            Some(v) => v,
            None => { return Err(ChatError::Parse) },
        };
        Ok(Version { major, minor, patch })
    }

    /// The dotted text of this version.
    pub fn to_text(&self) -> (r: String)
        ensures
            r@ == spec_version_text(*self),
    {
        let mut out = String::new();
        dec_append(&mut out, self.major as u64);
        push_char(&mut out, '.');
        dec_append(&mut out, self.minor as u64);
        push_char(&mut out, '.');
        dec_append(&mut out, self.patch as u64);
        proof {
            assert(out@ =~= spec_version_text(*self));
        }
        out
    }
}

impl core::str::FromStr for Version {
    type Err = ChatError;

    fn from_str(s: &str) -> Result<Version, ChatError> {
        Version::parse(s)
    }
}

} // verus!

verus! {

use crate::codec::lemma_dec_digits_all_dec;
use crate::text::{dec_val, lemma_dec_u64_round_trip, lemma_hex_char_not_special};

proof fn lemma_dec_digits_no_dot(v: int)
    requires
        v >= 0,
    ensures
        forall|k: int| 0 <= k < dec_digits(v).len() ==> dec_digits(v)[k] != '.',
{
    lemma_dec_digits_all_dec(v);
    assert forall|k: int| 0 <= k < dec_digits(v).len() implies dec_digits(v)[k] != '.' by {
        assert(dec_val(dec_digits(v)[k]) is Some);
        lemma_hex_char_not_special(dec_digits(v)[k]);
    }
}

/// A version survives the round trip through its dotted text.
pub proof fn lemma_version_text_round_trip(v: Version)
    ensures
        spec_parse_version(spec_version_text(v)) == Some(v),
{
    let a = dec_digits(v.major as int);
    let b = dec_digits(v.minor as int);
    let c = dec_digits(v.patch as int);
    lemma_dec_digits_no_dot(v.major as int);
    lemma_dec_digits_no_dot(v.minor as int);
    lemma_dec_digits_no_dot(v.patch as int);
    let text = spec_version_text(v);
    assert(text =~= a + seq!['.'] + (b + seq!['.'] + c));
    lemma_split_on_step(a, b + seq!['.'] + c, '.');
    lemma_split_on_step(b, c, '.');
    assert(c.len() > 0) by {
        if v.patch >= 10 {
        }
    }
    crate::text::lemma_seg_len_of(c, '.', c.len() as int);
    let parts = split_on(text, '.');
    assert(parts == seq![a] + (seq![b] + seq![c]));
    assert(parts.len() == 3);
    assert(parts[0] == a && parts[1] == b && parts[2] == c);
    lemma_dec_u64_round_trip(v.major as u64);
    lemma_dec_u64_round_trip(v.minor as u64);
    lemma_dec_u64_round_trip(v.patch as u64);
}

} // verus!
