use vstd::prelude::*;

verus! {

// ------------------------------------------------------------------
// Splitting a character sequence on a separator.
// ------------------------------------------------------------------

/// Length of the prefix of `s` that precedes the first occurrence of `sep`
/// (the whole length when `sep` does not occur).
pub open spec fn seg_len(s: Seq<char>, sep: char) -> int
    decreases s.len(),
{
    if s.len() == 0 {
        0
    } else if s[0] == sep {
        0
    } else {
        1 + seg_len(s.skip(1), sep)
    }
}

pub proof fn lemma_seg_len_bounds(s: Seq<char>, sep: char)
    ensures
        0 <= seg_len(s, sep) <= s.len(),
    decreases s.len(),
{
    if s.len() != 0 && s[0] != sep {
        lemma_seg_len_bounds(s.skip(1), sep);
    }
}

/// `s` split into the segments that `sep` separates; a trailing separator
/// closes the last segment without opening an empty one.
pub open spec fn split_on(s: Seq<char>, sep: char) -> Seq<Seq<char>>
    decreases s.len(),
    via split_on_dec
{
    if s.len() == 0 {
        Seq::empty()
    } else {
        let i = seg_len(s, sep);
        if i == s.len() {
            seq![s]
        } else {
            seq![s.take(i)] + split_on(s.skip(i + 1), sep)
        }
    }
}

#[via_fn]
proof fn split_on_dec(s: Seq<char>, sep: char) {
    lemma_seg_len_bounds(s, sep);
}

/// Identifies `seg_len` from pointwise facts: if nothing before `m` is the
/// separator, and `m` is either the end or a separator, then `m` is exactly
/// the first segment's length.
pub proof fn lemma_seg_len_of(s: Seq<char>, sep: char, m: int)
    requires
        0 <= m <= s.len(),
        forall|k: int| 0 <= k < m ==> s[k] != sep,
        m < s.len() ==> s[m] == sep,
    ensures
        seg_len(s, sep) == m,
    decreases s.len(),
{
    if m == 0 {
    } else {
        assert(s[0] != sep);
        let t = s.skip(1);
        assert(forall|k: int| 0 <= k < m - 1 ==> t[k] == s[k + 1] && t[k] != sep);
        lemma_seg_len_of(t, sep, m - 1);
    }
}

/// Splitting `l + [sep] + rest` peels off exactly `l` when `l` itself is
/// separator-free.
pub proof fn lemma_split_on_step(l: Seq<char>, rest: Seq<char>, sep: char)
    requires
        forall|k: int| 0 <= k < l.len() ==> l[k] != sep,
    ensures
        split_on(l + seq![sep] + rest, sep) == seq![l] + split_on(rest, sep),
{
    let s = l + seq![sep] + rest;
    assert(forall|k: int| 0 <= k < l.len() ==> s[k] == l[k]);
    assert(s[l.len() as int] == sep);
    lemma_seg_len_of(s, sep, l.len() as int);
    assert(s.take(l.len() as int) =~= l);
    assert(s.skip(l.len() as int + 1) =~= rest);
}

// ------------------------------------------------------------------
// Escaping: how a string value is written between double quotes.
// ------------------------------------------------------------------

/// The characters that cannot stand bare inside a quoted value.
pub open spec fn escaped_char(c: char) -> bool {
    c == '"' || c == '\\' || c == '\n' || c == '\r' || c == '\t'
}

/// The escape sequence (or the bare character) a single character is
/// written as inside a quoted value.
pub open spec fn spec_escape_char(c: char) -> Seq<char> {
    if c == '"' {
        seq!['\\', '"']
    } else if c == '\\' {
        seq!['\\', '\\']
    } else if c == '\n' {
        seq!['\\', 'n']
    } else if c == '\r' {
        seq!['\\', 'r']
    } else if c == '\t' {
        seq!['\\', 't']
    } else {
        seq![c]
    }
}

/// The character a code letter after a backslash stands for.
pub open spec fn spec_unescape_char(c: char) -> Option<char> {
    if c == '"' {
        Some('"')
    } else if c == '\\' {
        Some('\\')
    } else if c == 'n' {
        Some('\n')
    } else if c == 'r' {
        Some('\r')
    } else if c == 't' {
        Some('\t')
    } else {
        None
    }
}

/// A string value as it is written inside double quotes.
pub open spec fn spec_escape(s: Seq<char>) -> Seq<char>
    decreases s.len(),
{
    if s.len() == 0 {
        Seq::empty()
    } else {
        spec_escape_char(s[0]) + spec_escape(s.skip(1))
    }
}

pub proof fn lemma_escape_push(s: Seq<char>, c: char)
    ensures
        spec_escape(s.push(c)) == spec_escape(s) + spec_escape_char(c),
    decreases s.len(),
{
    if s.len() == 0 {
        assert(s.push(c).len() == 1);
        assert(s.push(c)[0] == c);
        assert(s.push(c).skip(1) =~= Seq::<char>::empty());
        assert(spec_escape(Seq::<char>::empty()) == Seq::<char>::empty());
        assert(spec_escape(s.push(c)) == spec_escape_char(c) + Seq::<char>::empty());
        assert(spec_escape(s.push(c)) =~= spec_escape(s) + spec_escape_char(c));
    } else {
        assert(s.push(c).skip(1) =~= s.skip(1).push(c));
        lemma_escape_push(s.skip(1), c);
        assert(spec_escape(s.push(c)) == spec_escape_char(s[0]) + (spec_escape(s.skip(1))
            + spec_escape_char(c)));
        assert(spec_escape_char(s[0]) + (spec_escape(s.skip(1)) + spec_escape_char(c))
            =~= spec_escape(s) + spec_escape_char(c));
    }
}

/// Escaped text never contains a newline: every newline in the value itself
/// is rewritten to a backslash pair.
pub proof fn lemma_escape_no_newline(s: Seq<char>)
    ensures
        forall|k: int| 0 <= k < spec_escape(s).len() ==> spec_escape(s)[k] != '\n',
    decreases s.len(),
{
    if s.len() != 0 {
        lemma_escape_no_newline(s.skip(1));
        let head = spec_escape_char(s[0]);
        assert(forall|k: int| 0 <= k < head.len() ==> head[k] != '\n');
        assert(forall|k: int| 0 <= k < spec_escape(s).len() ==> spec_escape(s)[k] == if k
            < head.len() {
            head[k]
        } else {
            spec_escape(s.skip(1))[k - head.len()]
        });
    }
}

// ------------------------------------------------------------------
// Parsing a quoted value: consume up to and including the closing quote.
// ------------------------------------------------------------------

/// Reads an escaped value up to and including its closing quote; yields the
/// unescaped value and the remainder after the quote. Fails on a bare
/// backslash at the end, an unknown escape code, or a missing closing quote.
pub open spec fn spec_parse_string(s: Seq<char>) -> Option<(Seq<char>, Seq<char>)>
    decreases s.len(),
{
    if s.len() == 0 {
        None
    } else if s[0] == '"' {
        Some((Seq::empty(), s.skip(1)))
    } else if s[0] == '\\' {
        if s.len() < 2 {
            None
        } else {
            match spec_unescape_char(s[1]) {
                Some(c) => match spec_parse_string(s.skip(2)) {
                    Some(tr) => Some((seq![c] + tr.0, tr.1)),
                    None => None,
                },
                None => None,
            }
        }
    } else {
        match spec_parse_string(s.skip(1)) {
            Some(tr) => Some((seq![s[0]] + tr.0, tr.1)),
            None => None,
        }
    }
}

/// Parsing inverts escaping: an escaped value followed by its closing quote
/// parses back to the value, leaving exactly the remainder.
pub proof fn lemma_parse_escaped(s: Seq<char>, rest: Seq<char>)
    ensures
        spec_parse_string(spec_escape(s) + seq!['"'] + rest) == Some((s, rest)),
    decreases s.len(),
{
    let input = spec_escape(s) + seq!['"'] + rest;
    if s.len() == 0 {
        assert(input =~= seq!['"'] + rest);
        assert(input[0] == '"');
        assert(input.skip(1) =~= rest);
        assert(spec_parse_string(input) == Some((Seq::<char>::empty(), rest)));
        assert(Seq::<char>::empty() =~= s);
    } else {
        lemma_parse_escaped(s.skip(1), rest);
        let tail_input = spec_escape(s.skip(1)) + seq!['"'] + rest;
        let head = spec_escape_char(s[0]);
        assert(input =~= head + tail_input);
        if escaped_char(s[0]) {
            assert(head.len() == 2);
            assert(input[0] == '\\');
            assert(input[1] == head[1]);
            assert(spec_unescape_char(head[1]) == Some(s[0]));
            assert(input.skip(2) =~= tail_input);
            assert(spec_parse_string(input) == Some((seq![s[0]] + s.skip(1), rest)));
        } else {
            assert(head.len() == 1);
            assert(input[0] == s[0]);
            assert(input[0] != '"' && input[0] != '\\');
            assert(input.skip(1) =~= tail_input);
            assert(spec_parse_string(input) == Some((seq![s[0]] + s.skip(1), rest)));
        }
        assert(seq![s[0]] + s.skip(1) =~= s);
    }
}

} // verus!

verus! {

// ------------------------------------------------------------------
// Digits: hexadecimal identifiers and decimal version codes.
// ------------------------------------------------------------------

/// The character a single digit value is written as (hexadecimal, lower
/// case).
pub open spec fn hex_char_of(d: int) -> char {
    if d == 0 { '0' } else if d == 1 { '1' } else if d == 2 { '2' } else if d == 3 { '3' }
    else if d == 4 { '4' } else if d == 5 { '5' } else if d == 6 { '6' } else if d == 7 { '7' }
    else if d == 8 { '8' } else if d == 9 { '9' } else if d == 10 { 'a' } else if d == 11 { 'b' }
    else if d == 12 { 'c' } else if d == 13 { 'd' } else if d == 14 { 'e' } else { 'f' }
}

/// The value of a hexadecimal digit character, if it is one.
pub open spec fn hex_val(c: char) -> Option<int> {
    if c == '0' { Some(0) } else if c == '1' { Some(1) } else if c == '2' { Some(2) }
    else if c == '3' { Some(3) } else if c == '4' { Some(4) } else if c == '5' { Some(5) }
    else if c == '6' { Some(6) } else if c == '7' { Some(7) } else if c == '8' { Some(8) }
    else if c == '9' { Some(9) } else if c == 'a' { Some(10) } else if c == 'b' { Some(11) }
    else if c == 'c' { Some(12) } else if c == 'd' { Some(13) } else if c == 'e' { Some(14) }
    else if c == 'f' { Some(15) } else { None }
}

/// The value of a decimal digit character, if it is one.
pub open spec fn dec_val(c: char) -> Option<int> {
    match hex_val(c) {
        Some(d) => if d < 10 { Some(d) } else { None },
        None => None,
    }
}

pub proof fn lemma_hex_char_val(d: int)
    requires 0 <= d < 16,
    ensures hex_val(hex_char_of(d)) == Some(d),
{
}

/// A digit character is never one of the characters the text format treats
/// specially.
pub proof fn lemma_hex_char_not_special(c: char)
    requires hex_val(c) is Some,
    ensures !escaped_char(c), c != '\n', c != '.',
{
}

pub open spec fn pow16(n: nat) -> int
    decreases n,
{
    if n == 0 { 1 } else { 16 * pow16((n - 1) as nat) }
}

pub open spec fn pow10(n: nat) -> int
    decreases n,
{
    if n == 0 { 1 } else { 10 * pow10((n - 1) as nat) }
}

pub proof fn lemma_pow16_pos(n: nat)
    ensures pow16(n) >= 1,
    decreases n,
{
    if n > 0 { lemma_pow16_pos((n - 1) as nat); }
}

pub proof fn lemma_pow10_pos(n: nat)
    ensures pow10(n) >= 1,
    decreases n,
{
    if n > 0 { lemma_pow10_pos((n - 1) as nat); }
}

/// `v` written as exactly `n` hexadecimal digits, most significant first.
pub open spec fn hex_digits(v: int, n: nat) -> Seq<char>
    decreases n,
{
    if n == 0 {
        Seq::empty()
    } else {
        hex_digits(v / 16, (n - 1) as nat) + seq![hex_char_of(v % 16)]
    }
}

pub proof fn lemma_hex_digits_len(v: int, n: nat)
    ensures hex_digits(v, n).len() == n,
    decreases n,
{
    if n > 0 { lemma_hex_digits_len(v / 16, (n - 1) as nat); }
}

pub proof fn lemma_hex_digits_all_hex(v: int, n: nat)
    ensures forall|i: int| 0 <= i < hex_digits(v, n).len() ==> hex_val(hex_digits(v, n)[i]) is Some,
    decreases n,
{
    if n > 0 {
        lemma_hex_digits_all_hex(v / 16, (n - 1) as nat);
        lemma_hex_digits_len(v / 16, (n - 1) as nat);
        lemma_hex_char_val(v % 16);
        let front = hex_digits(v / 16, (n - 1) as nat);
        assert(forall|i: int| 0 <= i < hex_digits(v, n).len() ==> hex_digits(v, n)[i] == if i < front.len() { front[i] } else { hex_char_of(v % 16) });
    }
}

/// `v` written as decimal digits with no leading zero (`0` itself as one
/// digit).
pub open spec fn dec_digits(v: int) -> Seq<char>
    decreases v,
    via dec_digits_dec
{
    if v < 10 {
        seq![hex_char_of(v)]
    } else {
        dec_digits(v / 10) + seq![hex_char_of(v % 10)]
    }
}

#[via_fn]
proof fn dec_digits_dec(v: int) {
    if v >= 10 {
        assert(0 <= v / 10 < v) by (nonlinear_arith)
            requires v >= 10;
    }
}

/// Reads digit characters left to right, accumulating
/// `acc * base + digit`; fails at the first character that is not a digit.
pub open spec fn digits_fold(
    s: Seq<char>,
    val: spec_fn(char) -> Option<int>,
    base: int,
    acc: int,
) -> Option<int>
    decreases s.len(),
{
    if s.len() == 0 {
        Some(acc)
    } else {
        match val(s[0]) {
            Some(d) => digits_fold(s.skip(1), val, base, acc * base + d),
            None => None,
        }
    }
}

pub proof fn lemma_digits_fold_append(
    a: Seq<char>,
    b: Seq<char>,
    val: spec_fn(char) -> Option<int>,
    base: int,
    acc: int,
)
    ensures
        digits_fold(a + b, val, base, acc) == match digits_fold(a, val, base, acc) {
            Some(m) => digits_fold(b, val, base, m),
            None => None,
        },
    decreases a.len(),
{
    if a.len() == 0 {
        assert(a + b =~= b);
    } else {
        assert((a + b)[0] == a[0]);
        assert((a + b).skip(1) =~= a.skip(1) + b);
        match val(a[0]) {
            Some(d) => {
                lemma_digits_fold_append(a.skip(1), b, val, base, acc * base + d);
            },
            None => {},
        }
    }
}

/// Folding digits never shrinks the accumulator.
pub proof fn lemma_digits_fold_lower(
    s: Seq<char>,
    val: spec_fn(char) -> Option<int>,
    base: int,
    acc: int,
)
    requires
        base >= 1,
        acc >= 0,
        forall|c: char| #[trigger] val(c) matches Some(d) ==> d >= 0,
    ensures
        digits_fold(s, val, base, acc) matches Some(x) ==> x >= acc,
    decreases s.len(),
{
    if s.len() != 0 {
        match val(s[0]) {
            Some(d) => {
                assert(acc * base >= acc) by (nonlinear_arith)
                    requires base >= 1, acc >= 0;
                lemma_digits_fold_lower(s.skip(1), val, base, acc * base + d);
            },
            None => {},
        }
    }
}

/// Folding the fixed-width hexadecimal digits of `v` recovers `v`.
pub proof fn lemma_hex_fold_digits(v: int, n: nat, acc: int)
    requires
        0 <= v < pow16(n),
        0 <= acc,
    ensures
        digits_fold(hex_digits(v, n), |c: char| hex_val(c), 16, acc) == Some(acc * pow16(n) + v),
    decreases n,
{
    let val = |c: char| hex_val(c);
    if n == 0 {
        assert(acc * 1 + 0 == acc) by (nonlinear_arith);
    } else {
        let p = pow16((n - 1) as nat);
        assert(pow16(n) == 16 * p);
        lemma_pow16_pos((n - 1) as nat);
        assert(0 <= v / 16 < p) by (nonlinear_arith)
            requires 0 <= v, v < 16 * p, p >= 1;
        let front = hex_digits(v / 16, (n - 1) as nat);
        let lastc = hex_char_of(v % 16);
        lemma_hex_char_val(v % 16);
        lemma_hex_fold_digits(v / 16, (n - 1) as nat, acc);
        lemma_digits_fold_append(front, seq![lastc], val, 16, acc);
        let m = acc * p + v / 16;
        assert(val(lastc) == Some(v % 16));
        assert(seq![lastc].skip(1) =~= Seq::<char>::empty());
        assert(digits_fold(Seq::<char>::empty(), val, 16, m * 16 + v % 16) == Some(m * 16 + v
            % 16));
        assert(digits_fold(seq![lastc], val, 16, m) == Some(m * 16 + v % 16));
        vstd::arithmetic::div_mod::lemma_fundamental_div_mod(v, 16);
        assert((acc * p + v / 16) * 16 + v % 16 == acc * (16 * p) + (16 * (v / 16) + v % 16))
            by (nonlinear_arith);
    }
}

/// Folding the minimal decimal digits of `v` recovers `v`.
pub proof fn lemma_dec_fold_digits(v: int, acc: int)
    requires
        0 <= v,
        0 <= acc,
    ensures
        digits_fold(dec_digits(v), |c: char| dec_val(c), 10, acc) == Some(
            acc * pow10(dec_digits(v).len() as nat) + v,
        ),
    decreases v,
{
    let val = |c: char| dec_val(c);
    if v < 10 {
        lemma_hex_char_val(v);
        assert(val(hex_char_of(v)) == Some(v));
        assert(seq![hex_char_of(v)].skip(1) =~= Seq::<char>::empty());
        assert(digits_fold(Seq::<char>::empty(), val, 10, acc * 10 + v) == Some(acc * 10 + v));
        assert(digits_fold(seq![hex_char_of(v)], val, 10, acc) == Some(acc * 10 + v));
        assert(dec_digits(v).len() == 1);
        assert(pow10(1) == 10 * pow10(0));
    } else {
        assert(0 <= v / 10 < v) by (nonlinear_arith)
            requires v >= 10;
        let front = dec_digits(v / 10);
        let lastc = hex_char_of(v % 10);
        assert(0 <= v % 10 < 10);
        lemma_hex_char_val(v % 10);
        lemma_dec_fold_digits(v / 10, acc);
        lemma_digits_fold_append(front, seq![lastc], val, 10, acc);
        let k = front.len() as nat;
        let m = acc * pow10(k) + v / 10;
        lemma_pow10_pos(k);
        assert(m >= 0) by (nonlinear_arith)
            requires acc >= 0, pow10(k) >= 1, v / 10 >= 0, m == acc * pow10(k) + v / 10;
        assert(val(lastc) == Some(v % 10));
        assert(seq![lastc].skip(1) =~= Seq::<char>::empty());
        assert(digits_fold(Seq::<char>::empty(), val, 10, m * 10 + v % 10) == Some(m * 10 + v
            % 10));
        assert(digits_fold(seq![lastc], val, 10, m) == Some(m * 10 + v % 10));
        assert(dec_digits(v) == front + seq![lastc]);
        assert(dec_digits(v).len() == k + 1);
        assert(pow10((k + 1) as nat) == 10 * pow10(k));
        vstd::arithmetic::div_mod::lemma_fundamental_div_mod(v, 10);
        assert((acc * pow10(k) + v / 10) * 10 + v % 10 == acc * (10 * pow10(k)) + (10 * (v / 10)
            + v % 10)) by (nonlinear_arith);
    }
}

/// The parse of a 32-digit hexadecimal identifier.
pub open spec fn spec_parse_hex32(s: Seq<char>) -> Option<u128> {
    if s.len() != 32 {
        None
    } else {
        match digits_fold(s, |c: char| hex_val(c), 16, 0) {
            Some(x) => if 0 <= x < 0x1_0000_0000_0000_0000_0000_0000_0000_0000 {
                Some(x as u128)
            } else {
                None
            },
            None => None,
        }
    }
}

/// The parse of a bare decimal integer occupying a whole field.
pub open spec fn spec_parse_dec_u64(s: Seq<char>) -> Option<u64> {
    if s.len() == 0 {
        None
    } else {
        match digits_fold(s, |c: char| dec_val(c), 10, 0) {
            Some(x) => if x <= u64::MAX { Some(x as u64) } else { None },
            None => None,
        }
    }
}

pub proof fn lemma_pow16_32()
    ensures pow16(32) == 0x1_0000_0000_0000_0000_0000_0000_0000_0000,
{
    reveal_with_fuel(pow16, 33);
}

/// A 128-bit identifier survives the round trip through its 32 hexadecimal
/// digits.
pub proof fn lemma_hex32_round_trip(v: u128)
    ensures spec_parse_hex32(hex_digits(v as int, 32)) == Some(v),
{
    lemma_pow16_32();
    lemma_hex_digits_len(v as int, 32);
    lemma_hex_fold_digits(v as int, 32, 0);
    assert(0 * pow16(32) + v as int == v as int) by (nonlinear_arith);
}

/// A 64-bit integer survives the round trip through its decimal digits.
pub proof fn lemma_dec_u64_round_trip(v: u64)
    ensures spec_parse_dec_u64(dec_digits(v as int)) == Some(v),
{
    lemma_dec_fold_digits(v as int, 0);
    assert(dec_digits(v as int).len() > 0) by {
        if v >= 10 { lemma_hex_digits_len(0, 0); }
    };
    assert(0 * pow10(dec_digits(v as int).len() as nat) + v as int == v as int)
        by (nonlinear_arith);
}

} // verus!

verus! {

use vstd::string::*;

// ------------------------------------------------------------------
// Executable text building.
// ------------------------------------------------------------------

/// Relies on `String::push`: appends the given character to the end of the
/// string.
#[verifier::external_body]
pub(crate) fn push_char(s: &mut String, c: char)
    ensures
        final(s)@ == old(s)@.push(c),
{
    s.push(c);
}

/// Appends `s` in its escaped form.
pub fn escape_append(out: &mut String, s: &str)
    ensures
        final(out)@ == old(out)@ + spec_escape(s@),
{
    let n = s.unicode_len();
    for i in 0..n
        invariant
            n == s@.len(),
            out@ == old(out)@ + spec_escape(s@.take(i as int)),
    {
        let c = s.get_char(i);
        proof {
            lemma_escape_push(s@.take(i as int), c);
            assert(s@.take(i + 1) =~= s@.take(i as int).push(c));
        }
        let ghost prev = out@;
        if c == '"' {
            push_char(out, '\\');
            push_char(out, '"');
        } else if c == '\\' {
            push_char(out, '\\');
            push_char(out, '\\');
        } else if c == '\n' {
            push_char(out, '\\');
            push_char(out, 'n');
        } else if c == '\r' {
            push_char(out, '\\');
            push_char(out, 'r');
        } else if c == '\t' {
            push_char(out, '\\');
            push_char(out, 't');
        } else {
            push_char(out, c);
        }
        proof {
            assert(out@ =~= prev + spec_escape_char(c));
            assert(prev + spec_escape_char(c) =~= old(out)@ + spec_escape(s@.take(i + 1)));
        }
    }
    proof {
        assert(s@.take(n as int) =~= s@);
    }
}

/// The character for one digit value, hexadecimal, lower case.
fn hex_digit_char(d: u8) -> (c: char)
    requires
        d < 16,
    ensures
        c == hex_char_of(d as int),
{
    if d == 0 { '0' } else if d == 1 { '1' } else if d == 2 { '2' } else if d == 3 { '3' }
    else if d == 4 { '4' } else if d == 5 { '5' } else if d == 6 { '6' } else if d == 7 { '7' }
    else if d == 8 { '8' } else if d == 9 { '9' } else if d == 10 { 'a' } else if d == 11 { 'b' }
    else if d == 12 { 'c' } else if d == 13 { 'd' } else if d == 14 { 'e' } else { 'f' }
}

/// The value of one hexadecimal digit character.
fn hex_char_value(c: char) -> (r: Option<u8>)
    ensures
        match r {
            Some(d) => hex_val(c) == Some(d as int) && d < 16,
            None => hex_val(c) is None,
        },
{
    if c == '0' { Some(0) } else if c == '1' { Some(1) } else if c == '2' { Some(2) }
    else if c == '3' { Some(3) } else if c == '4' { Some(4) } else if c == '5' { Some(5) }
    else if c == '6' { Some(6) } else if c == '7' { Some(7) } else if c == '8' { Some(8) }
    else if c == '9' { Some(9) } else if c == 'a' { Some(10) } else if c == 'b' { Some(11) }
    else if c == 'c' { Some(12) } else if c == 'd' { Some(13) } else if c == 'e' { Some(14) }
    else if c == 'f' { Some(15) } else { None }
}

/// Appends the characters of `tmp` in reverse order.
fn append_reversed(out: &mut String, tmp: &Vec<char>)
    ensures
        final(out)@ == old(out)@ + tmp@.reverse(),
{
    let n = tmp.len();
    for j in 0..n
        invariant
            n == tmp@.len(),
            out@ == old(out)@ + tmp@.reverse().take(j as int),
    {
        let c = tmp[n - 1 - j];
        proof {
            assert(tmp@.reverse()[j as int] == tmp@[n - 1 - j]);
            assert(tmp@.reverse().take(j + 1) =~= tmp@.reverse().take(j as int).push(tmp@[n - 1
                - j]));
        }
        push_char(out, c);
        proof {
            assert(out@ =~= old(out)@ + tmp@.reverse().take(j + 1));
        }
    }
    proof {
        assert(tmp@.reverse().take(n as int) =~= tmp@.reverse());
    }
}

/// Appends `v` as exactly 32 hexadecimal digits.
pub fn hex32_append(out: &mut String, v: u128)
    ensures
        final(out)@ == old(out)@ + hex_digits(v as int, 32),
{
    let mut tmp: Vec<char> = Vec::new();
    let mut cur: u128 = v;
    for k in 0..32usize
        invariant
            tmp@.len() == k,
            hex_digits(v as int, 32) == hex_digits(cur as int, (32 - k) as nat) + tmp@.reverse(),
    {
        let d: u8 = (cur % 16) as u8;
        let c = hex_digit_char(d);
        proof {
            assert(hex_digits(cur as int, (32 - k) as nat) == hex_digits(cur as int / 16, (31
                - k) as nat) + seq![hex_char_of(cur as int % 16)]);
            assert(tmp@.push(c).reverse() =~= seq![c] + tmp@.reverse());
            assert(hex_digits(cur as int / 16, (31 - k) as nat) + seq![hex_char_of(
                cur as int % 16,
            )] + tmp@.reverse() =~= hex_digits(cur as int / 16, (31 - k) as nat) + (seq![c]
                + tmp@.reverse()));
        }
        tmp.push(c);
        cur = cur / 16;
    }
    proof {
        assert(hex_digits(cur as int, 0) == Seq::<char>::empty());
        assert(hex_digits(v as int, 32) =~= tmp@.reverse());
    }
    append_reversed(out, &tmp);
}

/// Appends `v` in decimal.
pub fn dec_append(out: &mut String, v: u64)
    ensures
        final(out)@ == old(out)@ + dec_digits(v as int),
{
    let mut tmp: Vec<char> = Vec::new();
    let mut cur: u64 = v;
    while cur >= 10
        invariant
            dec_digits(v as int) == dec_digits(cur as int) + tmp@.reverse(),
        decreases cur,
    {
        let d: u8 = (cur % 10) as u8;
        let c = hex_digit_char(d);
        proof {
            assert(dec_digits(cur as int) == dec_digits(cur as int / 10) + seq![hex_char_of(
                cur as int % 10,
            )]);
            assert(tmp@.push(c).reverse() =~= seq![c] + tmp@.reverse());
            assert(dec_digits(cur as int / 10) + seq![hex_char_of(cur as int % 10)]
                + tmp@.reverse() =~= dec_digits(cur as int / 10) + (seq![c] + tmp@.reverse()));
        }
        tmp.push(c);
        cur = cur / 10;
        proof {
            assert(cur as int == (cur as int));
        }
    }
    let c0 = hex_digit_char(cur as u8);
    let ghost before = out@;
    push_char(out, c0);
    proof {
        assert(dec_digits(cur as int) == seq![hex_char_of(cur as int)]);
        assert(out@ =~= before + seq![hex_char_of(cur as int)]);
    }
    append_reversed(out, &tmp);
    proof {
        assert(before + seq![hex_char_of(cur as int)] + tmp@.reverse() =~= before + (seq![
            hex_char_of(cur as int),
        ] + tmp@.reverse()));
        assert(seq![hex_char_of(cur as int)] + tmp@.reverse() =~= dec_digits(cur as int)
            + tmp@.reverse());
    }
}

} // verus!

verus! {

// ------------------------------------------------------------------
// Executable scanning.
// ------------------------------------------------------------------

pub proof fn lemma_pow16_mono(a: nat, b: nat)
    requires
        a <= b,
    ensures
        pow16(a) <= pow16(b),
    decreases b,
{
    if a < b {
        lemma_pow16_mono(a, (b - 1) as nat);
        lemma_pow16_pos((b - 1) as nat);
    }
}

/// Converts a string to the vector of its characters.
pub fn str_to_chars(s: &str) -> (r: Vec<char>)
    ensures
        r@ == s@,
{
    let n = s.unicode_len();
    let mut r: Vec<char> = Vec::new();
    for i in 0..n
        invariant
            n == s@.len(),
            r@ == s@.take(i as int),
    {
        let c = s.get_char(i);
        r.push(c);
        proof {
            assert(s@.take(i + 1) =~= s@.take(i as int).push(s@[i as int]));
        }
    }
    proof {
        assert(s@.take(n as int) =~= s@);
    }
    r
}

/// The remainder of `s` after a required literal prefix.
pub open spec fn spec_expect(s: Seq<char>, lit: Seq<char>) -> Option<Seq<char>> {
    if lit.is_prefix_of(s) {
        Some(s.skip(lit.len() as int))
    } else {
        None
    }
}

/// Matches the literal `lit` at `pos`; on success returns the position just
/// past it.
pub fn expect_lit(line: &Vec<char>, pos: usize, lit: &str) -> (r: Option<usize>)
    requires
        pos <= line@.len(),
    ensures
        match r {
            Some(p) => pos <= p <= line@.len() && spec_expect(line@.skip(pos as int), lit@)
                == Some(line@.skip(p as int)),
            None => spec_expect(line@.skip(pos as int), lit@) is None,
        },
{
    let m = lit.unicode_len();
    let n = line.len();
    if n - pos < m {
        proof {
            assert(lit@.len() > line@.skip(pos as int).len());
        }
        return None;
    }
    for j in 0..m
        invariant
            m == lit@.len(),
            n == line@.len(),
            pos <= n,
            n - pos >= m,
            forall|k: int| 0 <= k < j ==> line@[pos + k] == lit@[k],
    {
        let c = line[pos + j];
        let e = lit.get_char(j);
        if c != e {
            proof {
                let sk = line@.skip(pos as int);
                assert(sk[j as int] == line@[pos + j]);
                assert(!lit@.is_prefix_of(sk)) by {
                    if lit@.is_prefix_of(sk) {
                        assert(lit@[j as int] == sk.subrange(0, lit@.len() as int)[j as int]);
                    }
                }
            }
            return None;
        }
    }
    proof {
        let sk = line@.skip(pos as int);
        assert(forall|k: int| 0 <= k < m ==> sk.subrange(0, m as int)[k] == line@[pos + k]);
        assert(lit@ =~= sk.subrange(0, m as int));
        assert(sk.skip(m as int) =~= line@.skip((pos + m) as int));
    }
    Some(pos + m)
}

/// How a partial scan of a quoted value relates to the full parse: what was
/// read so far, plus whatever the remaining text yields.
pub open spec fn parse_string_cont(
    full: Option<(Seq<char>, Seq<char>)>,
    done: Seq<char>,
    rem: Seq<char>,
) -> bool {
    match spec_parse_string(rem) {
        Some(tr) => full == Some((done + tr.0, tr.1)),
        None => full is None,
    }
}

fn unescape_char_exec(c: char) -> (r: Option<char>)
    ensures
        r == spec_unescape_char(c),
{
    if c == '"' {
        Some('"')
    } else if c == '\\' {
        Some('\\')
    } else if c == 'n' {
        Some('\n')
    } else if c == 'r' {
        Some('\r')
    } else if c == 't' {
        Some('\t')
    } else {
        None
    }
}

/// Reads a quoted value starting at `pos` (just after the opening quote);
/// on success returns the unescaped value and the position just past the
/// closing quote.
pub fn parse_quoted(line: &Vec<char>, pos: usize) -> (r: Option<(String, usize)>)
    requires
        pos <= line@.len(),
    ensures
        match r {
            Some(cp) => pos <= cp.1 <= line@.len() && spec_parse_string(line@.skip(pos as int))
                == Some((cp.0@, line@.skip(cp.1 as int))),
            None => spec_parse_string(line@.skip(pos as int)) is None,
        },
{
    let ghost full = spec_parse_string(line@.skip(pos as int));
    let mut content = String::new();
    let mut i: usize = pos;
    proof {
        assert(content@ + spec_parse_string(line@.skip(pos as int)).unwrap().0
            =~= spec_parse_string(line@.skip(pos as int)).unwrap().0) by {
            assert(content@.len() == 0);
        }
    }
    loop
        invariant
            pos <= i <= line@.len(),
            full == spec_parse_string(line@.skip(pos as int)),
            parse_string_cont(full, content@, line@.skip(i as int)),
        decreases line@.len() - i,
    {
        let ghost rem = line@.skip(i as int);
        if i >= line.len() {
            proof {
                assert(rem.len() == 0);
            }
            return None;
        }
        let c = line[i];
        proof {
            assert(rem[0] == c);
        }
        if c == '"' {
            proof {
                assert(rem.skip(1) =~= line@.skip(i + 1));
                assert(spec_parse_string(rem) == Some(
                    (Seq::<char>::empty(), line@.skip(i + 1)),
                ));
                assert(content@ + Seq::<char>::empty() =~= content@);
            }
            return Some((content, i + 1));
        } else if c == '\\' {
            if i + 1 >= line.len() {
                proof {
                    assert(rem.len() < 2);
                }
                return None;
            }
            let c2 = line[i + 1];
            proof {
                assert(rem[1] == c2);
            }
            match unescape_char_exec(c2) {
                Some(d) => {
                    let ghost prev = content@;
                    push_char(&mut content, d);
                    proof {
                        assert(rem.skip(2) =~= line@.skip(i + 2));
                        match spec_parse_string(line@.skip(i + 2)) {
                            Some(tr2) => {
                                assert(spec_parse_string(rem) == Some(
                                    (seq![d] + tr2.0, tr2.1),
                                ));
                                assert(prev + (seq![d] + tr2.0) =~= content@ + tr2.0);
                            },
                            None => {
                                assert(spec_parse_string(rem) is None);
                            },
                        }
                    }
                    i = i + 2;
                },
                None => {
                    return None;
                },
            }
        } else {
            let ghost prev = content@;
            push_char(&mut content, c);
            proof {
                assert(rem.skip(1) =~= line@.skip(i + 1));
                match spec_parse_string(line@.skip(i + 1)) {
                    Some(tr2) => {
                        assert(spec_parse_string(rem) == Some((seq![c] + tr2.0, tr2.1)));
                        assert(prev + (seq![c] + tr2.0) =~= content@ + tr2.0);
                    },
                    None => {
                        assert(spec_parse_string(rem) is None);
                    },
                }
            }
            i = i + 1;
        }
    }
}

/// Parses a 32-digit hexadecimal identifier.
pub fn hex32_decode(s: &str) -> (r: Option<u128>)
    ensures
        r == spec_parse_hex32(s@),
{
    let n = s.unicode_len();
    if n != 32 {
        return None;
    }
    let mut acc: u128 = 0;
    proof {
        assert(s@.skip(0) =~= s@);
    }
    for i in 0..32usize
        invariant
            s@.len() == 32,
            acc < pow16(i as nat),
            digits_fold(s@, |c: char| hex_val(c), 16, 0) == digits_fold(
                s@.skip(i as int),
                |c: char| hex_val(c),
                16,
                acc as int,
            ),
    {
        let c = s.get_char(i);
        proof {
            assert(s@.skip(i as int)[0] == s@[i as int]);
            assert(s@.skip(i as int).skip(1) =~= s@.skip(i + 1));
        }
        match hex_char_value(c) {
            Some(d) => {
                proof {
                    lemma_pow16_pos(i as nat);
                    assert(pow16((i + 1) as nat) == 16 * pow16(i as nat));
                    assert((acc as int) * 16 + d < pow16((i + 1) as nat)) by (nonlinear_arith)
                        requires
                            (acc as int) < pow16(i as nat),
                            d < 16,
                            pow16((i + 1) as nat) == 16 * pow16(i as nat),
                    ;
                    lemma_pow16_mono((i + 1) as nat, 32);
                    lemma_pow16_32();
                }
                acc = acc * 16 + d as u128;
            },
            None => {
                return None;
            },
        }
    }
    proof {
        assert(s@.skip(32) =~= Seq::<char>::empty());
        lemma_pow16_32();
    }
    Some(acc)
}

fn dec_char_value(c: char) -> (r: Option<u8>)
    ensures
        match r {
            Some(d) => dec_val(c) == Some(d as int) && d < 10,
            None => dec_val(c) is None,
        },
{
    match hex_char_value(c) {
        Some(d) => if d < 10 {
            Some(d)
        } else {
            None
        },
        None => None,
    }
}

/// Parses the rest of the line from `pos` on as one bare decimal integer.
pub fn parse_dec_all(line: &Vec<char>, pos: usize) -> (r: Option<u64>)
    requires
        pos <= line@.len(),
    ensures
        r == spec_parse_dec_u64(line@.skip(pos as int)),
{
    let n = line.len();
    if pos >= n {
        proof {
            assert(line@.skip(pos as int).len() == 0);
        }
        return None;
    }
    let mut acc: u64 = 0;
    let mut i: usize = pos;
    proof {
        assert(line@.skip(pos as int).skip(0) =~= line@.skip(pos as int));
    }
    while i < n
        invariant
            pos <= i <= n,
            n == line@.len(),
            pos < n,
            digits_fold(line@.skip(pos as int), |c: char| dec_val(c), 10, 0) == digits_fold(
                line@.skip(i as int),
                |c: char| dec_val(c),
                10,
                acc as int,
            ),
        decreases n - i,
    {
        let c = line[i];
        proof {
            assert(line@.skip(i as int)[0] == line@[i as int]);
            assert(line@.skip(i as int).skip(1) =~= line@.skip(i + 1));
        }
        match dec_char_value(c) {
            Some(d) => {
                if acc > (u64::MAX - d as u64) / 10 {
                    proof {
                        let m = u64::MAX as int;
                        let dd = d as int;
                        vstd::arithmetic::div_mod::lemma_fundamental_div_mod(m - dd, 10);
                        assert(acc as int >= (m - dd) / 10 + 1);
                        assert(acc as int * 10 >= ((m - dd) / 10 + 1) * 10) by (nonlinear_arith)
                            requires
                                acc as int >= (m - dd) / 10 + 1,
                        ;
                        assert(acc as int * 10 + dd > m);
                        let val = |c: char| dec_val(c);
                        assert(forall|cc: char| #[trigger] val(cc) matches Some(x) ==> x >= 0);
                        lemma_digits_fold_lower(line@.skip(i + 1), val, 10, acc as int * 10 + dd);
                    }
                    return None;
                }
                acc = acc * 10 + d as u64;
                i = i + 1;
            },
            None => {
                return None;
            },
        }
    }
    proof {
        assert(line@.skip(n as int) =~= Seq::<char>::empty());
    }
    Some(acc)
}

} // verus!

verus! {

/// Copies the characters of `[start, end)` into a vector of their own.
pub fn subvec(chars: &Vec<char>, start: usize, end: usize) -> (r: Vec<char>)
    requires
        start <= end <= chars@.len(),
    ensures
        r@ == chars@.subrange(start as int, end as int),
{
    let mut r: Vec<char> = Vec::new();
    for i in start..end
        invariant
            start <= end <= chars@.len(),
            r@ == chars@.subrange(start as int, i as int),
    {
        r.push(chars[i]);
        proof {
            assert(chars@.subrange(start as int, i + 1) =~= chars@.subrange(
                start as int,
                i as int,
            ).push(chars@[i as int]));
        }
    }
    r
}

} // verus!

verus! {

use vstd::string::StrSliceExecFns;

/// Whether two strings hold the same characters.
pub fn str_eq(a: &str, b: &str) -> (r: bool)
    ensures
        r == (a@ == b@),
{
    let na = a.unicode_len();
    let nb = b.unicode_len();
    if na != nb {
        return false;
    }
    for i in 0..na
        invariant
            na == a@.len(),
            na == b@.len(),
            forall|k: int| 0 <= k < i ==> a@[k] == b@[k],
    {
        if a.get_char(i) != b.get_char(i) {
            return false;
        }
    }
    proof {
        assert(a@ =~= b@);
    }
    true
}

} // verus!
