//! The flat-file text format: a JSON array of record objects, written and
//! read by verified code. The encoder emits one canonical form; the parser
//! reads exactly that form back, and the round trip is proved lossless.

use vstd::prelude::*;

use crate::digits::{
    char_hex, dec_rep, dec_val, digit_val, hex_char, hex_char_exec, hex_val, is_digit,
};
use crate::datetime::int_rep;
use crate::record::RecordV;
use crate::text::str_to_chars;

verus! {

/// The encoding of one character inside a quoted string: quote and
/// backslash are escaped, control characters become `\u00..`, everything
/// else stands as itself.
pub open spec fn esc_char(c: char) -> Seq<char> {
    if c == '"' {
        seq!['\\', '"']
    } else if c == '\\' {
        seq!['\\', '\\']
    } else if (c as u32) < 32 {
        seq!['\\', 'u', '0', '0', hex_char(c as u32 as int / 16), hex_char((c as u32 % 16) as int)]
    } else {
        seq![c]
    }
}

/// The escaped body of a quoted string.
pub open spec fn escape(s: Seq<char>) -> Seq<char>
    decreases s.len(),
{
    if s.len() == 0 {
        Seq::empty()
    } else {
        esc_char(s[0]) + escape(s.skip(1))
    }
}

/// A quoted, escaped string.
pub open spec fn enc_str(s: Seq<char>) -> Seq<char> {
    seq!['"'] + escape(s) + seq!['"']
}

/// Escaping one character more appends that character's encoding.
pub proof fn lemma_escape_snoc(t: Seq<char>, c: char)
    ensures
        escape(t.push(c)) == escape(t) + esc_char(c),
    decreases t.len(),
{
    if t.len() == 0 {
        assert(t.push(c)[0] == c);
        assert(t.push(c).skip(1) =~= Seq::<char>::empty());
        assert(escape(Seq::<char>::empty()) =~= Seq::<char>::empty());
        assert(escape(t.push(c)) == esc_char(c) + escape(t.push(c).skip(1)));
        assert(escape(t.push(c)) =~= escape(t) + esc_char(c));
    } else {
        assert(t.push(c)[0] == t[0]);
        assert(t.push(c).skip(1) =~= t.skip(1).push(c));
        lemma_escape_snoc(t.skip(1), c);
        assert(escape(t.push(c)) =~= escape(t) + esc_char(c));
    }
}

/// Appends the quoted, escaped form of a string to the output.
pub fn push_json_string(s: &str, out: &mut Vec<char>)
    ensures
        final(out)@ == old(out)@ + enc_str(s@),
{
    let v = str_to_chars(s);
    out.push('"');
    let mut i: usize = 0;
    assert(escape(v@.take(0)) =~= Seq::<char>::empty());
    assert(out@ =~= old(out)@ + seq!['"'] + escape(v@.take(0)));
    while i < v.len()
        invariant
            v@ == s@,
            i <= v@.len(),
            out@ == old(out)@ + seq!['"'] + escape(v@.take(i as int)),
        decreases v@.len() - i,
    {
        let c = v[i];
        if c == '"' {
            out.push('\\');
            out.push('"');
        } else if c == '\\' {
            out.push('\\');
            out.push('\\');
        } else if (c as u32) < 32 {
            out.push('\\');
            out.push('u');
            out.push('0');
            out.push('0');
            let h1 = hex_char_exec(((c as u32) / 16) as u8);
            let h0 = hex_char_exec(((c as u32) % 16) as u8);
            out.push(h1);
            out.push(h0);
        } else {
            out.push(c);
        }
        proof {
            lemma_escape_snoc(v@.take(i as int), c);
            assert(v@.take(i as int).push(c) =~= v@.take(i as int + 1));
            assert(out@ =~= old(out)@ + seq!['"'] + escape(v@.take(i as int + 1)));
        }
        i = i + 1;
    }
    assert(v@.take(v@.len() as int) =~= v@);
    out.push('"');
    assert(out@ =~= old(out)@ + enc_str(s@));
}

/// What parsing a quoted string from position `i` yields: the unescaped
/// body and the position after the closing quote.
pub open spec fn p_string(s: Seq<char>, i: int) -> Option<(Seq<char>, int)> {
    if 0 <= i < s.len() && s[i] == '"' {
        p_str_body(s, i + 1, Seq::empty())
    } else {
        None
    }
}

/// Parsing the body of a quoted string: characters collected into `acc`
/// until the closing quote; escapes are undone; raw control characters and
/// unknown escapes are refused.
pub open spec fn p_str_body(s: Seq<char>, i: int, acc: Seq<char>) -> Option<(Seq<char>, int)>
    decreases s.len() - i,
{
    if i < 0 || i >= s.len() {
        None
    } else if s[i] == '"' {
        Some((acc, i + 1))
    } else if s[i] == '\\' {
        if i + 1 >= s.len() {
            None
        } else if s[i + 1] == '"' {
            p_str_body(s, i + 2, acc.push('"'))
        } else if s[i + 1] == '\\' {
            p_str_body(s, i + 2, acc.push('\\'))
        } else if s[i + 1] == 'u' {
            if i + 6 > s.len() {
                None
            } else if hex_val(s[i + 2]) >= 0 && hex_val(s[i + 3]) >= 0 && hex_val(s[i + 4]) >= 0
                && hex_val(s[i + 5]) >= 0 {
                let v = hex_val(s[i + 2]) * 4096 + hex_val(s[i + 3]) * 256 + hex_val(s[i + 4]) * 16
                    + hex_val(s[i + 5]);
                if v < 32 {
                    p_str_body(s, i + 6, acc.push((v as u8) as char))
                } else {
                    None
                }
            } else {
                None
            }
        } else {
            None
        }
    } else if (s[i] as u32) < 32 {
        None
    } else {
        p_str_body(s, i + 1, acc.push(s[i]))
    }
}

/// Parses a quoted string, returning its unescaped body and the position
/// after the closing quote.
pub fn parse_string(v: &Vec<char>, i: usize) -> (r: Option<(Vec<char>, usize)>)
    ensures
        match r {
            Some(t) => p_string(v@, i as int) == Some((t.0@, t.1 as int)) && i < t.1 <= v@.len(),
            None => p_string(v@, i as int) is None,
        },
{
    if i >= v.len() || v[i] != '"' {
        return None;
    }
    let mut acc: Vec<char> = Vec::new();
    let mut k: usize = i + 1;
    loop
        invariant
            i + 1 <= k <= v@.len(),
            p_string(v@, i as int) == p_str_body(v@, k as int, acc@),
        decreases v@.len() - k,
    {
        if k >= v.len() {
            return None;
        }
        let c = v[k];
        if c == '"' {
            return Some((acc, k + 1));
        } else if c == '\\' {
            if k + 1 >= v.len() {
                return None;
            }
            let e = v[k + 1];
            if e == '"' {
                acc.push('"');
                k = k + 2;
            } else if e == '\\' {
                acc.push('\\');
                k = k + 2;
            } else if e == 'u' {
                if v.len() - k < 6 {
                    return None;
                }
                let h3 = char_hex(v[k + 2]);
                let h2 = char_hex(v[k + 3]);
                let h1 = char_hex(v[k + 4]);
                let h0 = char_hex(v[k + 5]);
                match (h3, h2, h1, h0) {
                    (Some(a), Some(b), Some(cc), Some(d)) => {
                        let val: u32 = (a as u32) * 4096 + (b as u32) * 256 + (cc as u32) * 16 + (
                        d as u32);
                        if val < 32 {
                            acc.push((val as u8) as char);
                            k = k + 6;
                        } else {
                            return None;
                        }
                    },
                    _ => {
                        return None;
                    },
                }
            } else {
                return None;
            }
        } else if (c as u32) < 32 {
            return None;
        } else {
            acc.push(c);
            k = k + 1;
        }
    }
}

/// Reading back an escaped body followed by the closing quote yields the
/// original characters.
proof fn lemma_str_body_round_trip(t: Seq<char>, s: Seq<char>, i: int, acc: Seq<char>)
    requires
        0 <= i,
        i + escape(t).len() + 1 <= s.len(),
        s.subrange(i, i + escape(t).len()) == escape(t),
        s[i + escape(t).len()] == '"',
    ensures
        p_str_body(s, i, acc) == Some((acc + t, i + escape(t).len() + 1)),
    decreases t.len(),
{
    if t.len() == 0 {
        assert(escape(t).len() == 0);
        assert(s[i] == '"');
        assert(acc + t =~= acc);
    } else {
        let c = t[0];
        let e = esc_char(c);
        let rest = t.skip(1);
        assert(escape(t) == e + escape(rest));
        assert forall|x: int| 0 <= x < e.len() implies s[i + x] == e[x] by {
            assert(s.subrange(i, i + escape(t).len())[x] == s[i + x]);
            assert((e + escape(rest))[x] == e[x]);
        }
        assert(s.subrange(i + e.len(), i + e.len() + escape(rest).len()) =~= escape(rest)) by {
            assert forall|x: int| 0 <= x < escape(rest).len() implies s.subrange(
                i + e.len(),
                i + e.len() + escape(rest).len(),
            )[x] == escape(rest)[x] by {
                assert(s.subrange(i, i + escape(t).len())[e.len() + x] == s[i + e.len() + x]);
                assert((e + escape(rest))[e.len() + x] == escape(rest)[x]);
            }
        }
        if c == '"' {
            assert(e == seq!['\\', '"']);
            assert(e[0] == '\\' && e[1] == '"');
            assert(s[i] == '\\' && s[i + 1] == '"');
            lemma_str_body_round_trip(rest, s, i + 2, acc.push(c));
            assert(acc.push(c) + rest =~= acc + t);
        } else if c == '\\' {
            assert(e == seq!['\\', '\\']);
            assert(e[0] == '\\' && e[1] == '\\');
            assert(s[i] == '\\' && s[i + 1] == '\\');
            lemma_str_body_round_trip(rest, s, i + 2, acc.push(c));
            assert(acc.push(c) + rest =~= acc + t);
        } else if (c as u32) < 32 {
            assert(e[0] == '\\' && e[1] == 'u' && e[2] == '0' && e[3] == '0');
            assert(s[i] == '\\' && s[i + 1] == 'u' && s[i + 2] == '0' && s[i + 3] == '0');
            assert(s[i + 4] == hex_char(c as u32 as int / 16));
            assert(s[i + 5] == hex_char((c as u32 % 16) as int));
            crate::digits::lemma_hex_char_val(c as u32 as int / 16);
            crate::digits::lemma_hex_char_val((c as u32 % 16) as int);
            assert(hex_val(s[i + 2]) == 0 && hex_val(s[i + 3]) == 0);
            let v = hex_val(s[i + 2]) * 4096 + hex_val(s[i + 3]) * 256 + hex_val(s[i + 4]) * 16
                + hex_val(s[i + 5]);
            assert(v == (c as u32 / 16) * 16 + (c as u32 % 16));
            assert(v == c as u32);
            assert(((v as u8) as char) == c) by {
                vstd::utf8::char_u32_cast(c, c as u32);
            }
            lemma_str_body_round_trip(rest, s, i + 6, acc.push(c));
            assert(acc.push(c) + rest =~= acc + t);
        } else {
            assert(e == seq![c]);
            assert(e[0] == c);
            assert(s[i] == c);
            lemma_str_body_round_trip(rest, s, i + 1, acc.push(c));
            assert(acc.push(c) + rest =~= acc + t);
        }
    }
}

/// Parsing an unsigned number: digits are accumulated while they fit in a
/// 64-bit value; a value too large is refused.
pub open spec fn p_u64_loop(s: Seq<char>, i: int, acc: u64) -> Option<(u64, int)>
    decreases s.len() - i,
{
    if 0 <= i < s.len() && is_digit(s[i]) {
        let d = digit_val(s[i]);
        if acc > (u64::MAX - d) / 10 {
            None
        } else {
            p_u64_loop(s, i + 1, (acc * 10 + d) as u64)
        }
    } else {
        Some((acc, i))
    }
}

/// What parsing an unsigned number from position `i` yields: the value of
/// the maximal digit run and the position after it; at least one digit is
/// required.
pub open spec fn p_u64(s: Seq<char>, i: int) -> Option<(u64, int)> {
    if 0 <= i < s.len() && is_digit(s[i]) {
        p_u64_loop(s, i, 0)
    } else {
        None
    }
}

/// What parsing a signed number from position `i` yields: an optional
/// leading minus sign, then digits, refused when out of 64-bit range.
pub open spec fn p_i64(s: Seq<char>, i: int) -> Option<(i64, int)> {
    if 0 <= i < s.len() && s[i] == '-' {
        match p_u64(s, i + 1) {
            Some(t) => {
                if t.0 <= 0x8000_0000_0000_0000u64 {
                    Some(((-(t.0 as int)) as i64, t.1))
                } else {
                    None
                }
            },
            None => None,
        }
    } else {
        match p_u64(s, i) {
            Some(t) => {
                if t.0 <= i64::MAX as u64 {
                    Some((t.0 as i64, t.1))
                } else {
                    None
                }
            },
            None => None,
        }
    }
}

/// Parses an unsigned number.
pub fn parse_u64(v: &Vec<char>, i: usize) -> (r: Option<(u64, usize)>)
    ensures
        match r {
            Some(t) => p_u64(v@, i as int) == Some((t.0, t.1 as int)) && i < t.1 <= v@.len(),
            None => p_u64(v@, i as int) is None,
        },
{
    if i >= v.len() {
        return None;
    }
    if crate::digits::char_digit(v[i]).is_none() {
        return None;
    }
    let mut acc: u64 = 0;
    let mut k: usize = i;
    loop
        invariant
            i <= k <= v@.len(),
            k == i ==> acc == 0 && is_digit(v@[i as int]),
            p_u64(v@, i as int) == p_u64_loop(v@, k as int, acc),
        decreases v@.len() - k,
    {
        if k >= v.len() {
            return Some((acc, k));
        }
        match crate::digits::char_digit(v[k]) {
            None => {
                return Some((acc, k));
            },
            Some(d) => {
                if acc > (u64::MAX - d as u64) / 10 {
                    return None;
                }
                acc = acc * 10 + d as u64;
                k = k + 1;
            },
        }
    }
}

/// Parses a signed number.
pub fn parse_i64(v: &Vec<char>, i: usize) -> (r: Option<(i64, usize)>)
    ensures
        match r {
            Some(t) => p_i64(v@, i as int) == Some((t.0, t.1 as int)) && i < t.1 <= v@.len(),
            None => p_i64(v@, i as int) is None,
        },
{
    if i < v.len() && v[i] == '-' {
        match parse_u64(v, i + 1) {
            Some((val, j)) => {
                if val <= 0x7fff_ffff_ffff_ffffu64 {
                    Some((-(val as i64), j))
                } else if val == 0x8000_0000_0000_0000u64 {
                    Some((i64::MIN, j))
                } else {
                    None
                }
            },
            None => None,
        }
    } else {
        match parse_u64(v, i) {
            Some((val, j)) => {
                if val <= 0x7fff_ffff_ffff_ffffu64 {
                    Some((val as i64, j))
                } else {
                    None
                }
            },
            None => None,
        }
    }
}

/// Reading an all-digit run back accumulates exactly its value.
proof fn lemma_p_u64_loop_run(s: Seq<char>, i: int, d: Seq<char>, acc: u64)
    requires
        0 <= i,
        i + d.len() <= s.len(),
        s.subrange(i, i + d.len()) == d,
        crate::digits::all_digits(d),
        i + d.len() == s.len() || !is_digit(s[i + d.len()]),
        acc * crate::digits::pow10(d.len() as nat) + dec_val(d) <= u64::MAX,
    ensures
        p_u64_loop(s, i, acc) == Some(
            (((acc * crate::digits::pow10(d.len() as nat) + dec_val(d)) as u64), i + d.len()),
        ),
    decreases d.len(),
{
    crate::digits::lemma_dec_val_nonneg(d);
    if d.len() == 0 {
        assert(crate::digits::pow10(0) == 1);
        assert(dec_val(d) == 0);
    } else {
        assert(s[i] == d[0]) by {
            assert(s.subrange(i, i + d.len())[0] == s[i]);
        }
        let dd = digit_val(d[0]);
        let rest = d.skip(1);
        let p = crate::digits::pow10((d.len() - 1) as nat);
        crate::digits::lemma_pow10_pos((d.len() - 1) as nat);
        crate::digits::lemma_dec_val_first(d);
        assert(crate::digits::all_digits(rest)) by {
            assert(forall|x: int| 0 <= x < rest.len() ==> rest[x] == d[x + 1]);
        }
        crate::digits::lemma_dec_val_nonneg(rest);
        assert(crate::digits::pow10(d.len() as nat) == 10 * p);
        // The whole value bounds the first accumulation step.
        assert(acc * (10 * p) + (dd * p + dec_val(rest)) == (acc * 10 + dd) * p + dec_val(rest))
            by (nonlinear_arith);
        assert((acc * 10 + dd) * p + dec_val(rest) <= u64::MAX);
        assert(acc * 10 + dd <= (acc * 10 + dd) * p) by (nonlinear_arith)
            requires
                p >= 1,
                acc * 10 + dd >= 0,
        ;
        assert(acc * 10 + dd <= u64::MAX);
        assert(!(acc > (u64::MAX - dd) / 10)) by {
            assert(acc * 10 <= u64::MAX - dd);
            assert(acc <= (u64::MAX - dd) / 10) by (nonlinear_arith)
                requires
                    acc * 10 <= u64::MAX - dd,
                    acc >= 0,
            ;
        }
        let acc2 = (acc * 10 + dd) as u64;
        assert(s.subrange(i + 1, i + 1 + rest.len()) =~= rest) by {
            assert forall|x: int| 0 <= x < rest.len() implies s.subrange(
                i + 1,
                i + 1 + rest.len(),
            )[x] == rest[x] by {
                assert(s.subrange(i, i + d.len())[x + 1] == s[i + 1 + x]);
                assert(d[x + 1] == rest[x]);
            }
        }
        lemma_p_u64_loop_run(s, i + 1, rest, acc2);
        assert(acc2 * p + dec_val(rest) == acc * crate::digits::pow10(d.len() as nat) + dec_val(d));
    }
}

/// Reading back a rendered unsigned number, followed by anything but a
/// digit, yields the number.
pub proof fn lemma_enc_u64_round_trip(n: u64, s: Seq<char>, i: int)
    requires
        0 <= i,
        i + dec_rep(n as nat).len() <= s.len(),
        s.subrange(i, i + dec_rep(n as nat).len()) == dec_rep(n as nat),
        i + dec_rep(n as nat).len() == s.len() || !is_digit(s[i + dec_rep(n as nat).len()]),
    ensures
        p_u64(s, i) == Some((n, i + dec_rep(n as nat).len())),
{
    let d = dec_rep(n as nat);
    crate::digits::lemma_dec_rep_digits(n as nat);
    crate::digits::lemma_dec_roundtrip(n as nat);
    assert(s[i] == d[0]) by {
        assert(s.subrange(i, i + d.len())[0] == s[i]);
    }
    assert(is_digit(s[i]));
    lemma_p_u64_loop_run(s, i, d, 0);
}

/// Reading back a rendered signed number, followed by anything but a digit,
/// yields the number.
pub proof fn lemma_enc_i64_round_trip(n: i64, s: Seq<char>, i: int)
    requires
        0 <= i,
        i + int_rep(n as int).len() <= s.len(),
        s.subrange(i, i + int_rep(n as int).len()) == int_rep(n as int),
        i + int_rep(n as int).len() == s.len() || !is_digit(s[i + int_rep(n as int).len()]),
    ensures
        p_i64(s, i) == Some((n, i + int_rep(n as int).len())),
{
    if n >= 0 {
        let d = dec_rep(n as nat);
        assert(int_rep(n as int) == d);
        crate::digits::lemma_dec_rep_digits(n as nat);
        assert(s[i] == d[0]) by {
            assert(s.subrange(i, i + d.len())[0] == s[i]);
        }
        assert(s[i] != '-');
        lemma_enc_u64_round_trip(n as u64, s, i);
    } else {
        let m = (-(n as int)) as u64;
        let d = dec_rep(m as nat);
        assert(int_rep(n as int) == seq!['-'] + d);
        assert(s[i] == '-') by {
            assert(s.subrange(i, i + int_rep(n as int).len())[0] == s[i]);
            assert((seq!['-'] + d)[0] == '-');
        }
        assert(s.subrange(i + 1, i + 1 + d.len()) =~= d) by {
            assert forall|x: int| 0 <= x < d.len() implies s.subrange(i + 1, i + 1 + d.len())[x]
                == d[x] by {
                assert(s.subrange(i, i + int_rep(n as int).len())[x + 1] == s[i + 1 + x]);
                assert((seq!['-'] + d)[x + 1] == d[x]);
            }
        }
        lemma_enc_u64_round_trip(m, s, i + 1);
        assert(m <= 0x8000_0000_0000_0000u64);
        assert(((-(m as int)) as i64) == n);
    }
}

/// Reading back an encoded string yields the original characters.
pub proof fn lemma_enc_str_round_trip(t: Seq<char>, s: Seq<char>, i: int)
    requires
        0 <= i,
        i + enc_str(t).len() <= s.len(),
        s.subrange(i, i + enc_str(t).len()) == enc_str(t),
    ensures
        p_string(s, i) == Some((t, i + enc_str(t).len())),
{
    assert(s[i] == '"') by {
        assert(s.subrange(i, i + enc_str(t).len())[0] == s[i]);
    }
    assert forall|x: int| 0 <= x < escape(t).len() implies s[i + 1 + x] == escape(t)[x] by {
        assert(s.subrange(i, i + enc_str(t).len())[1 + x] == s[i + 1 + x]);
        assert(enc_str(t)[1 + x] == escape(t)[x]);
    }
    assert(s.subrange(i + 1, i + 1 + escape(t).len()) =~= escape(t));
    assert(s[i + 1 + escape(t).len()] == '"') by {
        assert(s.subrange(i, i + enc_str(t).len())[enc_str(t).len() - 1] == s[i + enc_str(t).len()
            - 1]);
        assert(enc_str(t)[enc_str(t).len() - 1] == '"');
    }
    lemma_str_body_round_trip(t, s, i + 1, Seq::empty());
    assert(Seq::<char>::empty() + t =~= t);
}

/// The rendering of a boolean.
pub open spec fn enc_bool(b: bool) -> Seq<char> {
    if b {
        seq!['t', 'r', 'u', 'e']
    } else {
        seq!['f', 'a', 'l', 's', 'e']
    }
}

/// What expecting a fixed piece of text at position `i` yields: the
/// position after it, if it is there.
pub open spec fn p_lit(s: Seq<char>, i: int, l: Seq<char>) -> Option<int> {
    if 0 <= i && i + l.len() <= s.len() && s.subrange(i, i + l.len()) == l {
        Some(i + l.len())
    } else {
        None
    }
}

/// What parsing a boolean yields.
pub open spec fn p_bool(s: Seq<char>, i: int) -> Option<(bool, int)> {
    if p_lit(s, i, enc_bool(true)) is Some {
        Some((true, i + 4))
    } else if p_lit(s, i, enc_bool(false)) is Some {
        Some((false, i + 5))
    } else {
        None
    }
}

/// A piece of text found where expected splits off cleanly: what is before
/// and after the split keeps its own reading.
pub proof fn lemma_subrange_split(s: Seq<char>, i: int, a: Seq<char>, b: Seq<char>)
    requires
        0 <= i,
        i + a.len() + b.len() <= s.len(),
        s.subrange(i, i + a.len() + b.len()) == a + b,
    ensures
        s.subrange(i, i + a.len()) == a,
        s.subrange(i + a.len(), i + a.len() + b.len()) == b,
{
    assert(s.subrange(i, i + a.len()) =~= a) by {
        assert forall|x: int| 0 <= x < a.len() implies s.subrange(i, i + a.len())[x] == a[x] by {
            assert(s.subrange(i, i + a.len() + b.len())[x] == s[i + x]);
            assert((a + b)[x] == a[x]);
        }
    }
    assert(s.subrange(i + a.len(), i + a.len() + b.len()) =~= b) by {
        assert forall|x: int| 0 <= x < b.len() implies s.subrange(
            i + a.len(),
            i + a.len() + b.len(),
        )[x] == b[x] by {
            assert(s.subrange(i, i + a.len() + b.len())[a.len() + x] == s[i + a.len() + x]);
            assert((a + b)[a.len() + x] == b[x]);
        }
    }
}

/// The items of a string array, comma separated.
pub open spec fn enc_tags_items(ts: Seq<Seq<char>>) -> Seq<char>
    decreases ts.len(),
{
    if ts.len() == 0 {
        Seq::empty()
    } else if ts.len() == 1 {
        enc_str(ts[0])
    } else {
        enc_str(ts[0]) + (seq![','] + enc_tags_items(ts.skip(1)))
    }
}

/// A string array in brackets.
pub open spec fn enc_tags(ts: Seq<Seq<char>>) -> Seq<char> {
    seq!['['] + (enc_tags_items(ts) + seq![']'])
}

/// Parsing the items of a string array, up to and including the closing
/// bracket.
pub open spec fn p_tags_items(s: Seq<char>, i: int, acc: Seq<Seq<char>>) -> Option<
    (Seq<Seq<char>>, int),
>
    decreases s.len() - i,
{
    match p_string(s, i) {
        None => None,
        Some(t) => {
            let j = t.1;
            if j < s.len() && s[j] == ',' {
                if i < j + 1 && j + 1 <= s.len() {
                    p_tags_items(s, j + 1, acc.push(t.0))
                } else {
                    None
                }
            } else if j < s.len() && s[j] == ']' {
                Some((acc.push(t.0), j + 1))
            } else {
                None
            }
        },
    }
}

/// What parsing a string array yields.
pub open spec fn p_tags(s: Seq<char>, i: int) -> Option<(Seq<Seq<char>>, int)> {
    if 0 <= i < s.len() && s[i] == '[' {
        if i + 1 < s.len() && s[i + 1] == ']' {
            Some((Seq::empty(), i + 2))
        } else {
            p_tags_items(s, i + 1, Seq::empty())
        }
    } else {
        None
    }
}

/// Reading back encoded string-array items, up to the closing bracket,
/// yields the items.
proof fn lemma_tags_items_round_trip(ts: Seq<Seq<char>>, s: Seq<char>, i: int, acc: Seq<Seq<char>>)
    requires
        ts.len() > 0,
        0 <= i,
        i + enc_tags_items(ts).len() + 1 <= s.len(),
        s.subrange(i, i + enc_tags_items(ts).len()) == enc_tags_items(ts),
        s[i + enc_tags_items(ts).len()] == ']',
    ensures
        p_tags_items(s, i, acc) == Some((acc + ts, i + enc_tags_items(ts).len() + 1)),
    decreases ts.len(),
{
    let e = enc_tags_items(ts);
    let a = enc_str(ts[0]);
    if ts.len() == 1 {
        assert(e == a);
        lemma_enc_str_round_trip(ts[0], s, i);
        assert(s[i + a.len()] == ']');
        assert(acc.push(ts[0]) =~= acc + ts);
    } else {
        let rest = seq![','] + enc_tags_items(ts.skip(1));
        assert(e == a + rest);
        lemma_subrange_split(s, i, a, rest);
        lemma_enc_str_round_trip(ts[0], s, i);
        let j = i + a.len();
        assert(s[j] == ',') by {
            assert(s.subrange(j, j + rest.len())[0] == s[j]);
            assert(rest[0] == ',');
        }
        lemma_subrange_split(s, j, seq![','], enc_tags_items(ts.skip(1)));
        lemma_tags_items_round_trip(ts.skip(1), s, j + 1, acc.push(ts[0]));
        assert(acc.push(ts[0]) + ts.skip(1) =~= acc + ts);
        assert(j + 1 + enc_tags_items(ts.skip(1)).len() == i + e.len());
    }
}

/// Reading back an encoded string array yields the strings.
pub proof fn lemma_enc_tags_round_trip(ts: Seq<Seq<char>>, s: Seq<char>, i: int)
    requires
        0 <= i,
        i + enc_tags(ts).len() <= s.len(),
        s.subrange(i, i + enc_tags(ts).len()) == enc_tags(ts),
    ensures
        p_tags(s, i) == Some((ts, i + enc_tags(ts).len())),
{
    let e = enc_tags(ts);
    assert(s[i] == '[') by {
        assert(s.subrange(i, i + e.len())[0] == s[i]);
    }
    lemma_subrange_split(s, i, seq!['['], enc_tags_items(ts) + seq![']']);
    if ts.len() == 0 {
        assert(enc_tags_items(ts).len() == 0);
        assert(s[i + 1] == ']') by {
            assert(s.subrange(i, i + e.len())[1] == s[i + 1]);
            assert(e[1] == ']');
        }
    } else {
        lemma_subrange_split(s, i + 1, enc_tags_items(ts), seq![']']);
        assert(s[i + 1 + enc_tags_items(ts).len()] == ']') by {
            assert(s.subrange(
                i + 1 + enc_tags_items(ts).len(),
                i + 1 + enc_tags_items(ts).len() + 1,
            )[0] == s[i + 1 + enc_tags_items(ts).len()]);
        }
        // A non-empty item list starts with a quote, not a bracket.
        assert(enc_tags_items(ts)[0] == '"') by {
            if ts.len() == 1 {
                assert(enc_tags_items(ts) == enc_str(ts[0]));
            }
            assert(enc_str(ts[0])[0] == '"');
        }
        assert(s[i + 1] == '"') by {
            assert(s.subrange(i + 1, i + 1 + enc_tags_items(ts).len())[0] == s[i + 1]);
        }
        lemma_tags_items_round_trip(ts, s, i + 1, Seq::empty());
        assert(Seq::<Seq<char>>::empty() + ts =~= ts);
    }
}

/// One milestone entry: its percentage and label as a two-element array.
pub open spec fn enc_ms_item(m: (u8, Seq<char>)) -> Seq<char> {
    seq!['['] + (dec_rep(m.0 as nat) + (seq![','] + (enc_str(m.1) + seq![']'])))
}

/// The milestone entries, comma separated.
pub open spec fn enc_ms_items(ms: Seq<(u8, Seq<char>)>) -> Seq<char>
    decreases ms.len(),
{
    if ms.len() == 0 {
        Seq::empty()
    } else if ms.len() == 1 {
        enc_ms_item(ms[0])
    } else {
        enc_ms_item(ms[0]) + (seq![','] + enc_ms_items(ms.skip(1)))
    }
}

/// A milestone array in brackets.
pub open spec fn enc_milestones(ms: Seq<(u8, Seq<char>)>) -> Seq<char> {
    seq!['['] + (enc_ms_items(ms) + seq![']'])
}

/// What parsing one milestone entry yields.
pub open spec fn p_ms_item(s: Seq<char>, i: int) -> Option<((u8, Seq<char>), int)> {
    if 0 <= i < s.len() && s[i] == '[' {
        match p_u64(s, i + 1) {
            None => None,
            Some(n) => {
                if n.0 <= 255 && n.1 < s.len() && s[n.1] == ',' {
                    match p_string(s, n.1 + 1) {
                        None => None,
                        Some(t) => {
                            if t.1 < s.len() && s[t.1] == ']' {
                                Some(((n.0 as u8, t.0), t.1 + 1))
                            } else {
                                None
                            }
                        },
                    }
                } else {
                    None
                }
            },
        }
    } else {
        None
    }
}

/// Parsing the milestone entries, up to and including the closing bracket.
pub open spec fn p_ms_items(s: Seq<char>, i: int, acc: Seq<(u8, Seq<char>)>) -> Option<
    (Seq<(u8, Seq<char>)>, int),
>
    decreases s.len() - i,
{
    match p_ms_item(s, i) {
        None => None,
        Some(t) => {
            let j = t.1;
            if j < s.len() && s[j] == ',' {
                if i < j + 1 && j + 1 <= s.len() {
                    p_ms_items(s, j + 1, acc.push(t.0))
                } else {
                    None
                }
            } else if j < s.len() && s[j] == ']' {
                Some((acc.push(t.0), j + 1))
            } else {
                None
            }
        },
    }
}

/// What parsing a milestone array yields.
pub open spec fn p_milestones(s: Seq<char>, i: int) -> Option<(Seq<(u8, Seq<char>)>, int)> {
    if 0 <= i < s.len() && s[i] == '[' {
        if i + 1 < s.len() && s[i + 1] == ']' {
            Some((Seq::empty(), i + 2))
        } else {
            p_ms_items(s, i + 1, Seq::empty())
        }
    } else {
        None
    }
}

/// Reading back one encoded milestone entry yields the entry.
proof fn lemma_ms_item_round_trip(m: (u8, Seq<char>), s: Seq<char>, i: int)
    requires
        0 <= i,
        i + enc_ms_item(m).len() <= s.len(),
        s.subrange(i, i + enc_ms_item(m).len()) == enc_ms_item(m),
    ensures
        p_ms_item(s, i) == Some((m, i + enc_ms_item(m).len())),
{
    let e = enc_ms_item(m);
    let d = dec_rep(m.0 as nat);
    assert(s[i] == '[') by {
        assert(s.subrange(i, i + e.len())[0] == s[i]);
    }
    lemma_subrange_split(s, i, seq!['['], d + (seq![','] + (enc_str(m.1) + seq![']'])));
    lemma_subrange_split(s, i + 1, d, seq![','] + (enc_str(m.1) + seq![']']));
    let j = i + 1 + d.len();
    assert(s[j] == ',') by {
        assert(s.subrange(j, j + 1 + (enc_str(m.1) + seq![']']).len())[0] == s[j]);
    }
    lemma_enc_u64_round_trip(m.0 as u64, s, i + 1);
    lemma_subrange_split(s, j, seq![','], enc_str(m.1) + seq![']']);
    lemma_subrange_split(s, j + 1, enc_str(m.1), seq![']']);
    lemma_enc_str_round_trip(m.1, s, j + 1);
    let j2 = j + 1 + enc_str(m.1).len();
    assert(s[j2] == ']') by {
        assert(s.subrange(j2, j2 + 1)[0] == s[j2]);
    }
    assert(j2 + 1 == i + e.len());
}

/// Reading back encoded milestone entries, up to the closing bracket,
/// yields the entries.
proof fn lemma_ms_items_round_trip(
    ms: Seq<(u8, Seq<char>)>,
    s: Seq<char>,
    i: int,
    acc: Seq<(u8, Seq<char>)>,
)
    requires
        ms.len() > 0,
        0 <= i,
        i + enc_ms_items(ms).len() + 1 <= s.len(),
        s.subrange(i, i + enc_ms_items(ms).len()) == enc_ms_items(ms),
        s[i + enc_ms_items(ms).len()] == ']',
    ensures
        p_ms_items(s, i, acc) == Some((acc + ms, i + enc_ms_items(ms).len() + 1)),
    decreases ms.len(),
{
    let e = enc_ms_items(ms);
    let a = enc_ms_item(ms[0]);
    if ms.len() == 1 {
        assert(e == a);
        lemma_ms_item_round_trip(ms[0], s, i);
        assert(s[i + a.len()] == ']');
        assert(acc.push(ms[0]) =~= acc + ms);
    } else {
        let rest = seq![','] + enc_ms_items(ms.skip(1));
        assert(e == a + rest);
        lemma_subrange_split(s, i, a, rest);
        lemma_ms_item_round_trip(ms[0], s, i);
        let j = i + a.len();
        assert(s[j] == ',') by {
            assert(s.subrange(j, j + rest.len())[0] == s[j]);
        }
        lemma_subrange_split(s, j, seq![','], enc_ms_items(ms.skip(1)));
        lemma_ms_items_round_trip(ms.skip(1), s, j + 1, acc.push(ms[0]));
        assert(acc.push(ms[0]) + ms.skip(1) =~= acc + ms);
        assert(j + 1 + enc_ms_items(ms.skip(1)).len() == i + e.len());
    }
}

/// Reading back an encoded milestone array yields the entries.
pub proof fn lemma_enc_milestones_round_trip(ms: Seq<(u8, Seq<char>)>, s: Seq<char>, i: int)
    requires
        0 <= i,
        i + enc_milestones(ms).len() <= s.len(),
        s.subrange(i, i + enc_milestones(ms).len()) == enc_milestones(ms),
    ensures
        p_milestones(s, i) == Some((ms, i + enc_milestones(ms).len())),
{
    let e = enc_milestones(ms);
    assert(s[i] == '[') by {
        assert(s.subrange(i, i + e.len())[0] == s[i]);
    }
    lemma_subrange_split(s, i, seq!['['], enc_ms_items(ms) + seq![']']);
    if ms.len() == 0 {
        assert(enc_ms_items(ms).len() == 0);
        assert(s[i + 1] == ']') by {
            assert(s.subrange(i, i + e.len())[1] == s[i + 1]);
            assert(e[1] == ']');
        }
    } else {
        lemma_subrange_split(s, i + 1, enc_ms_items(ms), seq![']']);
        assert(s[i + 1 + enc_ms_items(ms).len()] == ']') by {
            assert(s.subrange(
                i + 1 + enc_ms_items(ms).len(),
                i + 1 + enc_ms_items(ms).len() + 1,
            )[0] == s[i + 1 + enc_ms_items(ms).len()]);
        }
        // A non-empty entry list starts with an inner bracket whose reading
        // is not the empty array's closing bracket.
        assert(enc_ms_items(ms)[0] == '[') by {
            if ms.len() == 1 {
                assert(enc_ms_items(ms) == enc_ms_item(ms[0]));
            }
            assert(enc_ms_item(ms[0])[0] == '[');
        }
        assert(s[i + 1] == '[') by {
            assert(s.subrange(i + 1, i + 1 + enc_ms_items(ms).len())[0] == s[i + 1]);
        }
        // The character after the inner bracket is a digit, so the array is
        // not read as empty.
        crate::digits::lemma_dec_rep_digits(ms[0].0 as nat);
        assert(enc_ms_items(ms)[1] == dec_rep(ms[0].0 as nat)[0]) by {
            if ms.len() == 1 {
                assert(enc_ms_items(ms) == enc_ms_item(ms[0]));
            }
            assert(enc_ms_item(ms[0])[1] == dec_rep(ms[0].0 as nat)[0]);
        }
        assert(enc_ms_items(ms).len() >= 2);
        assert(s[i + 2] == dec_rep(ms[0].0 as nat)[0]) by {
            assert(s.subrange(i + 1, i + 1 + enc_ms_items(ms).len())[1] == s[i + 2]);
        }
        assert(s[i + 2] != ']');
        lemma_ms_items_round_trip(ms, s, i + 1, Seq::empty());
        assert(Seq::<(u8, Seq<char>)>::empty() + ms =~= ms);
    }
}

/// One record object in the canonical field order.
#[verifier::opaque]
pub open spec fn enc_record(r: RecordV) -> Seq<char> {
    seq!['{','"','u','i','d','"',':'] + (enc_str(r.uid) + (seq![',','"','n','a','m','e','"',':'] + (enc_str(r.name) + (seq![',','"','d','u','e','_','t','e','x','t','"',':'] + (enc_str(r.due_text) + (seq![',','"','d','i','f','f','i','c','u','l','t','y','"',':'] + (dec_rep(r.difficulty as nat) + (seq![',','"','p','r','o','g','r','e','s','s','"',':'] + (dec_rep(r.progress as nat) + (seq![',','"','t','a','g','s','"',':'] + (enc_tags(r.tags) + (seq![',','"','m','i','l','e','s','t','o','n','e','s','"',':'] + (enc_milestones(r.milestones) + (seq![',','"','d','e','l','e','t','e','d','"',':'] + (enc_bool(r.deleted) + (seq![',','"','c','r','e','a','t','e','d','_','a','t','"',':'] + (int_rep(r.created_at as int) + (seq![',','"','u','p','d','a','t','e','d','_','a','t','"',':'] + (int_rep(r.updated_at as int) + (seq![',','"','s','c','h','e','m','a','_','v','e','r','s','i','o','n','"',':'] + (dec_rep(r.schema_version as nat) + (seq!['}']))))))))))))))))))))))
}

/// What parsing one record object yields.
#[verifier::opaque]
pub open spec fn p_record(s: Seq<char>, i: int) -> Option<(RecordV, int)> {
    match p_lit(s, i, seq!['{','"','u','i','d','"',':']) {
        None => None,
        Some(i1) => match p_string(s, i1) {
            None => None,
            Some(uid) => match p_lit(s, uid.1, seq![',','"','n','a','m','e','"',':']) {
                None => None,
                Some(i2) => match p_string(s, i2) {
                    None => None,
                    Some(name) => match p_lit(s, name.1, seq![',','"','d','u','e','_','t','e','x','t','"',':']) {
                        None => None,
                        Some(i3) => match p_string(s, i3) {
                            None => None,
                            Some(due) => match p_lit(s, due.1, seq![',','"','d','i','f','f','i','c','u','l','t','y','"',':']) {
                                None => None,
                                Some(i4) => match p_u64(s, i4) {
                                    None => None,
                                    Some(diff) => match p_lit(s, diff.1, seq![',','"','p','r','o','g','r','e','s','s','"',':']) {
                                        None => None,
                                        Some(i5) => match p_u64(s, i5) {
                                            None => None,
                                            Some(prog) => match p_lit(s, prog.1, seq![',','"','t','a','g','s','"',':']) {
                                                None => None,
                                                Some(i6) => match p_tags(s, i6) {
                                                    None => None,
                                                    Some(tags) => match p_lit(s, tags.1, seq![',','"','m','i','l','e','s','t','o','n','e','s','"',':']) {
                                                        None => None,
                                                        Some(i7) => match p_milestones(s, i7) {
                                                            None => None,
                                                            Some(ms) => match p_lit(s, ms.1, seq![',','"','d','e','l','e','t','e','d','"',':']) {
                                                                None => None,
                                                                Some(i8) => match p_bool(s, i8) {
                                                                    None => None,
                                                                    Some(del) => match p_lit(s, del.1, seq![',','"','c','r','e','a','t','e','d','_','a','t','"',':']) {
                                                                        None => None,
                                                                        Some(i9) => match p_i64(s, i9) {
                                                                            None => None,
                                                                            Some(cre) => match p_lit(s, cre.1, seq![',','"','u','p','d','a','t','e','d','_','a','t','"',':']) {
                                                                                None => None,
                                                                                Some(i10) => match p_i64(s, i10) {
                                                                                    None => None,
                                                                                    Some(upd) => match p_lit(s, upd.1, seq![',','"','s','c','h','e','m','a','_','v','e','r','s','i','o','n','"',':']) {
                                                                                        None => None,
                                                                                        Some(i11) => match p_u64(s, i11) {
                                                                                            None => None,
                                                                                            Some(sch) => match p_lit(s, sch.1, seq!['}']) {
                                                                                                None => None,
                                                                                                Some(end) => {
                                                                                                    if diff.0 <= 255 && prog.0 <= 255 && sch.0 <= 65535 {
                                                                                                        Some((RecordV {
                                                                                                            uid: uid.0,
                                                                                                            name: name.0,
                                                                                                            due_text: due.0,
                                                                                                            difficulty: diff.0 as u8,
                                                                                                            progress: prog.0 as u8,
                                                                                                            tags: tags.0,
                                                                                                            milestones: ms.0,
                                                                                                            deleted: del.0,
                                                                                                            created_at: cre.0,
                                                                                                            updated_at: upd.0,
                                                                                                            schema_version: sch.0 as u16,
                                                                                                        }, end))
                                                                                                    } else {
                                                                                                        None
                                                                                                    }
                                                                                                },
                                                                                            },
                                                                                        },
                                                                                    },
                                                                                },
                                                                            },
                                                                        },
                                                                    },
                                                                },
                                                            },
                                                        },
                                                    },
                                                },
                                            },
                                        },
                                    },
                                },
                            },
                        },
                    },
                },
            },
        },
    }
}

/// Reading back a rendered boolean yields it.
proof fn lemma_enc_bool_round_trip(b: bool, s: Seq<char>, i: int)
    requires
        0 <= i,
        i + enc_bool(b).len() <= s.len(),
        s.subrange(i, i + enc_bool(b).len()) == enc_bool(b),
    ensures
        p_bool(s, i) == Some((b, i + enc_bool(b).len())),
{
    if b {
        assert(p_lit(s, i, enc_bool(true)) == Some(i + 4));
    } else {
        assert(s[i] == 'f') by {
            assert(s.subrange(i, i + 5)[0] == s[i]);
        }
        assert(p_lit(s, i, enc_bool(true)) is None) by {
            if p_lit(s, i, enc_bool(true)) is Some {
                assert(s.subrange(i, i + 4) == enc_bool(true));
                assert(s.subrange(i, i + 4)[0] == s[i]);
            }
        }
        assert(p_lit(s, i, enc_bool(false)) == Some(i + 5));
    }
}

/// The first half of a record object parses field by field.
#[verifier::rlimit(100)]
#[verifier::spinoff_prover]
proof fn lemma_record_steps_head(r: RecordV, s: Seq<char>, i: int)
    requires
        0 <= i,
        ({ let q0 = i; q0 + (seq!['{','"','u','i','d','"',':'] + (enc_str(r.uid) + (seq![',','"','n','a','m','e','"',':'] + (enc_str(r.name) + (seq![',','"','d','u','e','_','t','e','x','t','"',':'] + (enc_str(r.due_text) + (seq![',','"','d','i','f','f','i','c','u','l','t','y','"',':'] + (dec_rep(r.difficulty as nat) + (seq![',','"','p','r','o','g','r','e','s','s','"',':'] + (dec_rep(r.progress as nat) + (seq![',','"','t','a','g','s','"',':'] + (enc_tags(r.tags) + (seq![',','"','m','i','l','e','s','t','o','n','e','s','"',':'] + (enc_milestones(r.milestones) + (seq![',','"','d','e','l','e','t','e','d','"',':'] + (enc_bool(r.deleted) + (seq![',','"','c','r','e','a','t','e','d','_','a','t','"',':'] + (int_rep(r.created_at as int) + (seq![',','"','u','p','d','a','t','e','d','_','a','t','"',':'] + (int_rep(r.updated_at as int) + (seq![',','"','s','c','h','e','m','a','_','v','e','r','s','i','o','n','"',':'] + (dec_rep(r.schema_version as nat) + (seq!['}']))))))))))))))))))))))).len() <= s.len() }),
        ({ let q0 = i; s.subrange(q0, q0 + (seq!['{','"','u','i','d','"',':'] + (enc_str(r.uid) + (seq![',','"','n','a','m','e','"',':'] + (enc_str(r.name) + (seq![',','"','d','u','e','_','t','e','x','t','"',':'] + (enc_str(r.due_text) + (seq![',','"','d','i','f','f','i','c','u','l','t','y','"',':'] + (dec_rep(r.difficulty as nat) + (seq![',','"','p','r','o','g','r','e','s','s','"',':'] + (dec_rep(r.progress as nat) + (seq![',','"','t','a','g','s','"',':'] + (enc_tags(r.tags) + (seq![',','"','m','i','l','e','s','t','o','n','e','s','"',':'] + (enc_milestones(r.milestones) + (seq![',','"','d','e','l','e','t','e','d','"',':'] + (enc_bool(r.deleted) + (seq![',','"','c','r','e','a','t','e','d','_','a','t','"',':'] + (int_rep(r.created_at as int) + (seq![',','"','u','p','d','a','t','e','d','_','a','t','"',':'] + (int_rep(r.updated_at as int) + (seq![',','"','s','c','h','e','m','a','_','v','e','r','s','i','o','n','"',':'] + (dec_rep(r.schema_version as nat) + (seq!['}']))))))))))))))))))))))).len()) == seq!['{','"','u','i','d','"',':'] + (enc_str(r.uid) + (seq![',','"','n','a','m','e','"',':'] + (enc_str(r.name) + (seq![',','"','d','u','e','_','t','e','x','t','"',':'] + (enc_str(r.due_text) + (seq![',','"','d','i','f','f','i','c','u','l','t','y','"',':'] + (dec_rep(r.difficulty as nat) + (seq![',','"','p','r','o','g','r','e','s','s','"',':'] + (dec_rep(r.progress as nat) + (seq![',','"','t','a','g','s','"',':'] + (enc_tags(r.tags) + (seq![',','"','m','i','l','e','s','t','o','n','e','s','"',':'] + (enc_milestones(r.milestones) + (seq![',','"','d','e','l','e','t','e','d','"',':'] + (enc_bool(r.deleted) + (seq![',','"','c','r','e','a','t','e','d','_','a','t','"',':'] + (int_rep(r.created_at as int) + (seq![',','"','u','p','d','a','t','e','d','_','a','t','"',':'] + (int_rep(r.updated_at as int) + (seq![',','"','s','c','h','e','m','a','_','v','e','r','s','i','o','n','"',':'] + (dec_rep(r.schema_version as nat) + (seq!['}'])))))))))))))))))))))) }),
    ensures
        ({ let q0 = i; let q1 = q0 + (seq!['{','"','u','i','d','"',':']).len(); let q2 = q1 + (enc_str(r.uid)).len(); let q3 = q2 + (seq![',','"','n','a','m','e','"',':']).len(); let q4 = q3 + (enc_str(r.name)).len(); let q5 = q4 + (seq![',','"','d','u','e','_','t','e','x','t','"',':']).len(); let q6 = q5 + (enc_str(r.due_text)).len(); let q7 = q6 + (seq![',','"','d','i','f','f','i','c','u','l','t','y','"',':']).len(); let q8 = q7 + (dec_rep(r.difficulty as nat)).len(); let q9 = q8 + (seq![',','"','p','r','o','g','r','e','s','s','"',':']).len(); let q10 = q9 + (dec_rep(r.progress as nat)).len(); let q11 = q10 + (seq![',','"','t','a','g','s','"',':']).len(); let q12 = q11 + (enc_tags(r.tags)).len();
            &&& p_lit(s, q0, seq!['{','"','u','i','d','"',':']) == Some(q1)
            &&& p_string(s, q1) == Some((r.uid, q2))
            &&& p_lit(s, q2, seq![',','"','n','a','m','e','"',':']) == Some(q3)
            &&& p_string(s, q3) == Some((r.name, q4))
            &&& p_lit(s, q4, seq![',','"','d','u','e','_','t','e','x','t','"',':']) == Some(q5)
            &&& p_string(s, q5) == Some((r.due_text, q6))
            &&& p_lit(s, q6, seq![',','"','d','i','f','f','i','c','u','l','t','y','"',':']) == Some(q7)
            &&& p_u64(s, q7) == Some((r.difficulty as u64, q8))
            &&& p_lit(s, q8, seq![',','"','p','r','o','g','r','e','s','s','"',':']) == Some(q9)
            &&& p_u64(s, q9) == Some((r.progress as u64, q10))
            &&& p_lit(s, q10, seq![',','"','t','a','g','s','"',':']) == Some(q11)
            &&& p_tags(s, q11) == Some((r.tags, q12))
            &&& s.subrange(q12, q12 + (seq![',','"','m','i','l','e','s','t','o','n','e','s','"',':'] + (enc_milestones(r.milestones) + (seq![',','"','d','e','l','e','t','e','d','"',':'] + (enc_bool(r.deleted) + (seq![',','"','c','r','e','a','t','e','d','_','a','t','"',':'] + (int_rep(r.created_at as int) + (seq![',','"','u','p','d','a','t','e','d','_','a','t','"',':'] + (int_rep(r.updated_at as int) + (seq![',','"','s','c','h','e','m','a','_','v','e','r','s','i','o','n','"',':'] + (dec_rep(r.schema_version as nat) + (seq!['}']))))))))))).len()) == seq![',','"','m','i','l','e','s','t','o','n','e','s','"',':'] + (enc_milestones(r.milestones) + (seq![',','"','d','e','l','e','t','e','d','"',':'] + (enc_bool(r.deleted) + (seq![',','"','c','r','e','a','t','e','d','_','a','t','"',':'] + (int_rep(r.created_at as int) + (seq![',','"','u','p','d','a','t','e','d','_','a','t','"',':'] + (int_rep(r.updated_at as int) + (seq![',','"','s','c','h','e','m','a','_','v','e','r','s','i','o','n','"',':'] + (dec_rep(r.schema_version as nat) + (seq!['}']))))))))))
            &&& q12 + (seq![',','"','m','i','l','e','s','t','o','n','e','s','"',':'] + (enc_milestones(r.milestones) + (seq![',','"','d','e','l','e','t','e','d','"',':'] + (enc_bool(r.deleted) + (seq![',','"','c','r','e','a','t','e','d','_','a','t','"',':'] + (int_rep(r.created_at as int) + (seq![',','"','u','p','d','a','t','e','d','_','a','t','"',':'] + (int_rep(r.updated_at as int) + (seq![',','"','s','c','h','e','m','a','_','v','e','r','s','i','o','n','"',':'] + (dec_rep(r.schema_version as nat) + (seq!['}']))))))))))).len() <= s.len()
        }),
{
    let g0 = seq!['{','"','u','i','d','"',':'];
    let g1 = enc_str(r.uid);
    let g2 = seq![',','"','n','a','m','e','"',':'];
    let g3 = enc_str(r.name);
    let g4 = seq![',','"','d','u','e','_','t','e','x','t','"',':'];
    let g5 = enc_str(r.due_text);
    let g6 = seq![',','"','d','i','f','f','i','c','u','l','t','y','"',':'];
    let g7 = dec_rep(r.difficulty as nat);
    let g8 = seq![',','"','p','r','o','g','r','e','s','s','"',':'];
    let g9 = dec_rep(r.progress as nat);
    let g10 = seq![',','"','t','a','g','s','"',':'];
    let g11 = enc_tags(r.tags);
    let p0 = i;
    lemma_subrange_split(s, p0, g0, enc_str(r.uid) + (seq![',','"','n','a','m','e','"',':'] + (enc_str(r.name) + (seq![',','"','d','u','e','_','t','e','x','t','"',':'] + (enc_str(r.due_text) + (seq![',','"','d','i','f','f','i','c','u','l','t','y','"',':'] + (dec_rep(r.difficulty as nat) + (seq![',','"','p','r','o','g','r','e','s','s','"',':'] + (dec_rep(r.progress as nat) + (seq![',','"','t','a','g','s','"',':'] + (enc_tags(r.tags) + (seq![',','"','m','i','l','e','s','t','o','n','e','s','"',':'] + (enc_milestones(r.milestones) + (seq![',','"','d','e','l','e','t','e','d','"',':'] + (enc_bool(r.deleted) + (seq![',','"','c','r','e','a','t','e','d','_','a','t','"',':'] + (int_rep(r.created_at as int) + (seq![',','"','u','p','d','a','t','e','d','_','a','t','"',':'] + (int_rep(r.updated_at as int) + (seq![',','"','s','c','h','e','m','a','_','v','e','r','s','i','o','n','"',':'] + (dec_rep(r.schema_version as nat) + (seq!['}']))))))))))))))))))))));
    let p1 = p0 + g0.len();
    assert(p_lit(s, p0, g0) == Some(p1));
    lemma_subrange_split(s, p1, g1, seq![',','"','n','a','m','e','"',':'] + (enc_str(r.name) + (seq![',','"','d','u','e','_','t','e','x','t','"',':'] + (enc_str(r.due_text) + (seq![',','"','d','i','f','f','i','c','u','l','t','y','"',':'] + (dec_rep(r.difficulty as nat) + (seq![',','"','p','r','o','g','r','e','s','s','"',':'] + (dec_rep(r.progress as nat) + (seq![',','"','t','a','g','s','"',':'] + (enc_tags(r.tags) + (seq![',','"','m','i','l','e','s','t','o','n','e','s','"',':'] + (enc_milestones(r.milestones) + (seq![',','"','d','e','l','e','t','e','d','"',':'] + (enc_bool(r.deleted) + (seq![',','"','c','r','e','a','t','e','d','_','a','t','"',':'] + (int_rep(r.created_at as int) + (seq![',','"','u','p','d','a','t','e','d','_','a','t','"',':'] + (int_rep(r.updated_at as int) + (seq![',','"','s','c','h','e','m','a','_','v','e','r','s','i','o','n','"',':'] + (dec_rep(r.schema_version as nat) + (seq!['}'])))))))))))))))))))));
    let p2 = p1 + g1.len();
    lemma_enc_str_round_trip(r.uid, s, p1);
    lemma_subrange_split(s, p2, g2, enc_str(r.name) + (seq![',','"','d','u','e','_','t','e','x','t','"',':'] + (enc_str(r.due_text) + (seq![',','"','d','i','f','f','i','c','u','l','t','y','"',':'] + (dec_rep(r.difficulty as nat) + (seq![',','"','p','r','o','g','r','e','s','s','"',':'] + (dec_rep(r.progress as nat) + (seq![',','"','t','a','g','s','"',':'] + (enc_tags(r.tags) + (seq![',','"','m','i','l','e','s','t','o','n','e','s','"',':'] + (enc_milestones(r.milestones) + (seq![',','"','d','e','l','e','t','e','d','"',':'] + (enc_bool(r.deleted) + (seq![',','"','c','r','e','a','t','e','d','_','a','t','"',':'] + (int_rep(r.created_at as int) + (seq![',','"','u','p','d','a','t','e','d','_','a','t','"',':'] + (int_rep(r.updated_at as int) + (seq![',','"','s','c','h','e','m','a','_','v','e','r','s','i','o','n','"',':'] + (dec_rep(r.schema_version as nat) + (seq!['}']))))))))))))))))))));
    let p3 = p2 + g2.len();
    assert(p_lit(s, p2, g2) == Some(p3));
    lemma_subrange_split(s, p3, g3, seq![',','"','d','u','e','_','t','e','x','t','"',':'] + (enc_str(r.due_text) + (seq![',','"','d','i','f','f','i','c','u','l','t','y','"',':'] + (dec_rep(r.difficulty as nat) + (seq![',','"','p','r','o','g','r','e','s','s','"',':'] + (dec_rep(r.progress as nat) + (seq![',','"','t','a','g','s','"',':'] + (enc_tags(r.tags) + (seq![',','"','m','i','l','e','s','t','o','n','e','s','"',':'] + (enc_milestones(r.milestones) + (seq![',','"','d','e','l','e','t','e','d','"',':'] + (enc_bool(r.deleted) + (seq![',','"','c','r','e','a','t','e','d','_','a','t','"',':'] + (int_rep(r.created_at as int) + (seq![',','"','u','p','d','a','t','e','d','_','a','t','"',':'] + (int_rep(r.updated_at as int) + (seq![',','"','s','c','h','e','m','a','_','v','e','r','s','i','o','n','"',':'] + (dec_rep(r.schema_version as nat) + (seq!['}'])))))))))))))))))));
    let p4 = p3 + g3.len();
    lemma_enc_str_round_trip(r.name, s, p3);
    lemma_subrange_split(s, p4, g4, enc_str(r.due_text) + (seq![',','"','d','i','f','f','i','c','u','l','t','y','"',':'] + (dec_rep(r.difficulty as nat) + (seq![',','"','p','r','o','g','r','e','s','s','"',':'] + (dec_rep(r.progress as nat) + (seq![',','"','t','a','g','s','"',':'] + (enc_tags(r.tags) + (seq![',','"','m','i','l','e','s','t','o','n','e','s','"',':'] + (enc_milestones(r.milestones) + (seq![',','"','d','e','l','e','t','e','d','"',':'] + (enc_bool(r.deleted) + (seq![',','"','c','r','e','a','t','e','d','_','a','t','"',':'] + (int_rep(r.created_at as int) + (seq![',','"','u','p','d','a','t','e','d','_','a','t','"',':'] + (int_rep(r.updated_at as int) + (seq![',','"','s','c','h','e','m','a','_','v','e','r','s','i','o','n','"',':'] + (dec_rep(r.schema_version as nat) + (seq!['}']))))))))))))))))));
    let p5 = p4 + g4.len();
    assert(p_lit(s, p4, g4) == Some(p5));
    lemma_subrange_split(s, p5, g5, seq![',','"','d','i','f','f','i','c','u','l','t','y','"',':'] + (dec_rep(r.difficulty as nat) + (seq![',','"','p','r','o','g','r','e','s','s','"',':'] + (dec_rep(r.progress as nat) + (seq![',','"','t','a','g','s','"',':'] + (enc_tags(r.tags) + (seq![',','"','m','i','l','e','s','t','o','n','e','s','"',':'] + (enc_milestones(r.milestones) + (seq![',','"','d','e','l','e','t','e','d','"',':'] + (enc_bool(r.deleted) + (seq![',','"','c','r','e','a','t','e','d','_','a','t','"',':'] + (int_rep(r.created_at as int) + (seq![',','"','u','p','d','a','t','e','d','_','a','t','"',':'] + (int_rep(r.updated_at as int) + (seq![',','"','s','c','h','e','m','a','_','v','e','r','s','i','o','n','"',':'] + (dec_rep(r.schema_version as nat) + (seq!['}'])))))))))))))))));
    let p6 = p5 + g5.len();
    lemma_enc_str_round_trip(r.due_text, s, p5);
    lemma_subrange_split(s, p6, g6, dec_rep(r.difficulty as nat) + (seq![',','"','p','r','o','g','r','e','s','s','"',':'] + (dec_rep(r.progress as nat) + (seq![',','"','t','a','g','s','"',':'] + (enc_tags(r.tags) + (seq![',','"','m','i','l','e','s','t','o','n','e','s','"',':'] + (enc_milestones(r.milestones) + (seq![',','"','d','e','l','e','t','e','d','"',':'] + (enc_bool(r.deleted) + (seq![',','"','c','r','e','a','t','e','d','_','a','t','"',':'] + (int_rep(r.created_at as int) + (seq![',','"','u','p','d','a','t','e','d','_','a','t','"',':'] + (int_rep(r.updated_at as int) + (seq![',','"','s','c','h','e','m','a','_','v','e','r','s','i','o','n','"',':'] + (dec_rep(r.schema_version as nat) + (seq!['}']))))))))))))))));
    let p7 = p6 + g6.len();
    assert(p_lit(s, p6, g6) == Some(p7));
    lemma_subrange_split(s, p7, g7, seq![',','"','p','r','o','g','r','e','s','s','"',':'] + (dec_rep(r.progress as nat) + (seq![',','"','t','a','g','s','"',':'] + (enc_tags(r.tags) + (seq![',','"','m','i','l','e','s','t','o','n','e','s','"',':'] + (enc_milestones(r.milestones) + (seq![',','"','d','e','l','e','t','e','d','"',':'] + (enc_bool(r.deleted) + (seq![',','"','c','r','e','a','t','e','d','_','a','t','"',':'] + (int_rep(r.created_at as int) + (seq![',','"','u','p','d','a','t','e','d','_','a','t','"',':'] + (int_rep(r.updated_at as int) + (seq![',','"','s','c','h','e','m','a','_','v','e','r','s','i','o','n','"',':'] + (dec_rep(r.schema_version as nat) + (seq!['}'])))))))))))))));
    let p8 = p7 + g7.len();
    assert(s[p8] == (seq![',','"','p','r','o','g','r','e','s','s','"',':'] + (dec_rep(r.progress as nat) + (seq![',','"','t','a','g','s','"',':'] + (enc_tags(r.tags) + (seq![',','"','m','i','l','e','s','t','o','n','e','s','"',':'] + (enc_milestones(r.milestones) + (seq![',','"','d','e','l','e','t','e','d','"',':'] + (enc_bool(r.deleted) + (seq![',','"','c','r','e','a','t','e','d','_','a','t','"',':'] + (int_rep(r.created_at as int) + (seq![',','"','u','p','d','a','t','e','d','_','a','t','"',':'] + (int_rep(r.updated_at as int) + (seq![',','"','s','c','h','e','m','a','_','v','e','r','s','i','o','n','"',':'] + (dec_rep(r.schema_version as nat) + (seq!['}'])))))))))))))))[0]) by {
        assert(s.subrange(p8, p8 + (seq![',','"','p','r','o','g','r','e','s','s','"',':'] + (dec_rep(r.progress as nat) + (seq![',','"','t','a','g','s','"',':'] + (enc_tags(r.tags) + (seq![',','"','m','i','l','e','s','t','o','n','e','s','"',':'] + (enc_milestones(r.milestones) + (seq![',','"','d','e','l','e','t','e','d','"',':'] + (enc_bool(r.deleted) + (seq![',','"','c','r','e','a','t','e','d','_','a','t','"',':'] + (int_rep(r.created_at as int) + (seq![',','"','u','p','d','a','t','e','d','_','a','t','"',':'] + (int_rep(r.updated_at as int) + (seq![',','"','s','c','h','e','m','a','_','v','e','r','s','i','o','n','"',':'] + (dec_rep(r.schema_version as nat) + (seq!['}']))))))))))))))).len())[0] == s[p8]);
    }
    assert(!is_digit(s[p8]));
    lemma_enc_u64_round_trip(r.difficulty as u64, s, p7);
    lemma_subrange_split(s, p8, g8, dec_rep(r.progress as nat) + (seq![',','"','t','a','g','s','"',':'] + (enc_tags(r.tags) + (seq![',','"','m','i','l','e','s','t','o','n','e','s','"',':'] + (enc_milestones(r.milestones) + (seq![',','"','d','e','l','e','t','e','d','"',':'] + (enc_bool(r.deleted) + (seq![',','"','c','r','e','a','t','e','d','_','a','t','"',':'] + (int_rep(r.created_at as int) + (seq![',','"','u','p','d','a','t','e','d','_','a','t','"',':'] + (int_rep(r.updated_at as int) + (seq![',','"','s','c','h','e','m','a','_','v','e','r','s','i','o','n','"',':'] + (dec_rep(r.schema_version as nat) + (seq!['}']))))))))))))));
    let p9 = p8 + g8.len();
    assert(p_lit(s, p8, g8) == Some(p9));
    lemma_subrange_split(s, p9, g9, seq![',','"','t','a','g','s','"',':'] + (enc_tags(r.tags) + (seq![',','"','m','i','l','e','s','t','o','n','e','s','"',':'] + (enc_milestones(r.milestones) + (seq![',','"','d','e','l','e','t','e','d','"',':'] + (enc_bool(r.deleted) + (seq![',','"','c','r','e','a','t','e','d','_','a','t','"',':'] + (int_rep(r.created_at as int) + (seq![',','"','u','p','d','a','t','e','d','_','a','t','"',':'] + (int_rep(r.updated_at as int) + (seq![',','"','s','c','h','e','m','a','_','v','e','r','s','i','o','n','"',':'] + (dec_rep(r.schema_version as nat) + (seq!['}'])))))))))))));
    let p10 = p9 + g9.len();
    assert(s[p10] == (seq![',','"','t','a','g','s','"',':'] + (enc_tags(r.tags) + (seq![',','"','m','i','l','e','s','t','o','n','e','s','"',':'] + (enc_milestones(r.milestones) + (seq![',','"','d','e','l','e','t','e','d','"',':'] + (enc_bool(r.deleted) + (seq![',','"','c','r','e','a','t','e','d','_','a','t','"',':'] + (int_rep(r.created_at as int) + (seq![',','"','u','p','d','a','t','e','d','_','a','t','"',':'] + (int_rep(r.updated_at as int) + (seq![',','"','s','c','h','e','m','a','_','v','e','r','s','i','o','n','"',':'] + (dec_rep(r.schema_version as nat) + (seq!['}'])))))))))))))[0]) by {
        assert(s.subrange(p10, p10 + (seq![',','"','t','a','g','s','"',':'] + (enc_tags(r.tags) + (seq![',','"','m','i','l','e','s','t','o','n','e','s','"',':'] + (enc_milestones(r.milestones) + (seq![',','"','d','e','l','e','t','e','d','"',':'] + (enc_bool(r.deleted) + (seq![',','"','c','r','e','a','t','e','d','_','a','t','"',':'] + (int_rep(r.created_at as int) + (seq![',','"','u','p','d','a','t','e','d','_','a','t','"',':'] + (int_rep(r.updated_at as int) + (seq![',','"','s','c','h','e','m','a','_','v','e','r','s','i','o','n','"',':'] + (dec_rep(r.schema_version as nat) + (seq!['}']))))))))))))).len())[0] == s[p10]);
    }
    assert(!is_digit(s[p10]));
    lemma_enc_u64_round_trip(r.progress as u64, s, p9);
    lemma_subrange_split(s, p10, g10, enc_tags(r.tags) + (seq![',','"','m','i','l','e','s','t','o','n','e','s','"',':'] + (enc_milestones(r.milestones) + (seq![',','"','d','e','l','e','t','e','d','"',':'] + (enc_bool(r.deleted) + (seq![',','"','c','r','e','a','t','e','d','_','a','t','"',':'] + (int_rep(r.created_at as int) + (seq![',','"','u','p','d','a','t','e','d','_','a','t','"',':'] + (int_rep(r.updated_at as int) + (seq![',','"','s','c','h','e','m','a','_','v','e','r','s','i','o','n','"',':'] + (dec_rep(r.schema_version as nat) + (seq!['}']))))))))))));
    let p11 = p10 + g10.len();
    assert(p_lit(s, p10, g10) == Some(p11));
    lemma_subrange_split(s, p11, g11, seq![',','"','m','i','l','e','s','t','o','n','e','s','"',':'] + (enc_milestones(r.milestones) + (seq![',','"','d','e','l','e','t','e','d','"',':'] + (enc_bool(r.deleted) + (seq![',','"','c','r','e','a','t','e','d','_','a','t','"',':'] + (int_rep(r.created_at as int) + (seq![',','"','u','p','d','a','t','e','d','_','a','t','"',':'] + (int_rep(r.updated_at as int) + (seq![',','"','s','c','h','e','m','a','_','v','e','r','s','i','o','n','"',':'] + (dec_rep(r.schema_version as nat) + (seq!['}'])))))))))));
    let p12 = p11 + g11.len();
    lemma_enc_tags_round_trip(r.tags, s, p11);
}

/// The second half of a record object parses field by field.
#[verifier::rlimit(100)]
#[verifier::spinoff_prover]
proof fn lemma_record_steps_tail(r: RecordV, s: Seq<char>, i: int)
    requires
        0 <= i,
        ({ let q0 = i; let q1 = q0 + (seq!['{','"','u','i','d','"',':']).len(); let q2 = q1 + (enc_str(r.uid)).len(); let q3 = q2 + (seq![',','"','n','a','m','e','"',':']).len(); let q4 = q3 + (enc_str(r.name)).len(); let q5 = q4 + (seq![',','"','d','u','e','_','t','e','x','t','"',':']).len(); let q6 = q5 + (enc_str(r.due_text)).len(); let q7 = q6 + (seq![',','"','d','i','f','f','i','c','u','l','t','y','"',':']).len(); let q8 = q7 + (dec_rep(r.difficulty as nat)).len(); let q9 = q8 + (seq![',','"','p','r','o','g','r','e','s','s','"',':']).len(); let q10 = q9 + (dec_rep(r.progress as nat)).len(); let q11 = q10 + (seq![',','"','t','a','g','s','"',':']).len(); let q12 = q11 + (enc_tags(r.tags)).len(); q12 + (seq![',','"','m','i','l','e','s','t','o','n','e','s','"',':'] + (enc_milestones(r.milestones) + (seq![',','"','d','e','l','e','t','e','d','"',':'] + (enc_bool(r.deleted) + (seq![',','"','c','r','e','a','t','e','d','_','a','t','"',':'] + (int_rep(r.created_at as int) + (seq![',','"','u','p','d','a','t','e','d','_','a','t','"',':'] + (int_rep(r.updated_at as int) + (seq![',','"','s','c','h','e','m','a','_','v','e','r','s','i','o','n','"',':'] + (dec_rep(r.schema_version as nat) + (seq!['}']))))))))))).len() <= s.len() }),
        ({ let q0 = i; let q1 = q0 + (seq!['{','"','u','i','d','"',':']).len(); let q2 = q1 + (enc_str(r.uid)).len(); let q3 = q2 + (seq![',','"','n','a','m','e','"',':']).len(); let q4 = q3 + (enc_str(r.name)).len(); let q5 = q4 + (seq![',','"','d','u','e','_','t','e','x','t','"',':']).len(); let q6 = q5 + (enc_str(r.due_text)).len(); let q7 = q6 + (seq![',','"','d','i','f','f','i','c','u','l','t','y','"',':']).len(); let q8 = q7 + (dec_rep(r.difficulty as nat)).len(); let q9 = q8 + (seq![',','"','p','r','o','g','r','e','s','s','"',':']).len(); let q10 = q9 + (dec_rep(r.progress as nat)).len(); let q11 = q10 + (seq![',','"','t','a','g','s','"',':']).len(); let q12 = q11 + (enc_tags(r.tags)).len(); s.subrange(q12, q12 + (seq![',','"','m','i','l','e','s','t','o','n','e','s','"',':'] + (enc_milestones(r.milestones) + (seq![',','"','d','e','l','e','t','e','d','"',':'] + (enc_bool(r.deleted) + (seq![',','"','c','r','e','a','t','e','d','_','a','t','"',':'] + (int_rep(r.created_at as int) + (seq![',','"','u','p','d','a','t','e','d','_','a','t','"',':'] + (int_rep(r.updated_at as int) + (seq![',','"','s','c','h','e','m','a','_','v','e','r','s','i','o','n','"',':'] + (dec_rep(r.schema_version as nat) + (seq!['}']))))))))))).len()) == seq![',','"','m','i','l','e','s','t','o','n','e','s','"',':'] + (enc_milestones(r.milestones) + (seq![',','"','d','e','l','e','t','e','d','"',':'] + (enc_bool(r.deleted) + (seq![',','"','c','r','e','a','t','e','d','_','a','t','"',':'] + (int_rep(r.created_at as int) + (seq![',','"','u','p','d','a','t','e','d','_','a','t','"',':'] + (int_rep(r.updated_at as int) + (seq![',','"','s','c','h','e','m','a','_','v','e','r','s','i','o','n','"',':'] + (dec_rep(r.schema_version as nat) + (seq!['}'])))))))))) }),
    ensures
        ({ let q0 = i; let q1 = q0 + (seq!['{','"','u','i','d','"',':']).len(); let q2 = q1 + (enc_str(r.uid)).len(); let q3 = q2 + (seq![',','"','n','a','m','e','"',':']).len(); let q4 = q3 + (enc_str(r.name)).len(); let q5 = q4 + (seq![',','"','d','u','e','_','t','e','x','t','"',':']).len(); let q6 = q5 + (enc_str(r.due_text)).len(); let q7 = q6 + (seq![',','"','d','i','f','f','i','c','u','l','t','y','"',':']).len(); let q8 = q7 + (dec_rep(r.difficulty as nat)).len(); let q9 = q8 + (seq![',','"','p','r','o','g','r','e','s','s','"',':']).len(); let q10 = q9 + (dec_rep(r.progress as nat)).len(); let q11 = q10 + (seq![',','"','t','a','g','s','"',':']).len(); let q12 = q11 + (enc_tags(r.tags)).len(); let q13 = q12 + (seq![',','"','m','i','l','e','s','t','o','n','e','s','"',':']).len(); let q14 = q13 + (enc_milestones(r.milestones)).len(); let q15 = q14 + (seq![',','"','d','e','l','e','t','e','d','"',':']).len(); let q16 = q15 + (enc_bool(r.deleted)).len(); let q17 = q16 + (seq![',','"','c','r','e','a','t','e','d','_','a','t','"',':']).len(); let q18 = q17 + (int_rep(r.created_at as int)).len(); let q19 = q18 + (seq![',','"','u','p','d','a','t','e','d','_','a','t','"',':']).len(); let q20 = q19 + (int_rep(r.updated_at as int)).len(); let q21 = q20 + (seq![',','"','s','c','h','e','m','a','_','v','e','r','s','i','o','n','"',':']).len(); let q22 = q21 + (dec_rep(r.schema_version as nat)).len(); let q23 = q22 + (seq!['}']).len();
            &&& p_lit(s, q12, seq![',','"','m','i','l','e','s','t','o','n','e','s','"',':']) == Some(q13)
            &&& p_milestones(s, q13) == Some((r.milestones, q14))
            &&& p_lit(s, q14, seq![',','"','d','e','l','e','t','e','d','"',':']) == Some(q15)
            &&& p_bool(s, q15) == Some((r.deleted, q16))
            &&& p_lit(s, q16, seq![',','"','c','r','e','a','t','e','d','_','a','t','"',':']) == Some(q17)
            &&& p_i64(s, q17) == Some((r.created_at, q18))
            &&& p_lit(s, q18, seq![',','"','u','p','d','a','t','e','d','_','a','t','"',':']) == Some(q19)
            &&& p_i64(s, q19) == Some((r.updated_at, q20))
            &&& p_lit(s, q20, seq![',','"','s','c','h','e','m','a','_','v','e','r','s','i','o','n','"',':']) == Some(q21)
            &&& p_u64(s, q21) == Some((r.schema_version as u64, q22))
            &&& p_lit(s, q22, seq!['}']) == Some(q23)
        }),
{
    let g12 = seq![',','"','m','i','l','e','s','t','o','n','e','s','"',':'];
    let g13 = enc_milestones(r.milestones);
    let g14 = seq![',','"','d','e','l','e','t','e','d','"',':'];
    let g15 = enc_bool(r.deleted);
    let g16 = seq![',','"','c','r','e','a','t','e','d','_','a','t','"',':'];
    let g17 = int_rep(r.created_at as int);
    let g18 = seq![',','"','u','p','d','a','t','e','d','_','a','t','"',':'];
    let g19 = int_rep(r.updated_at as int);
    let g20 = seq![',','"','s','c','h','e','m','a','_','v','e','r','s','i','o','n','"',':'];
    let g21 = dec_rep(r.schema_version as nat);
    let g22 = seq!['}'];
    let p12 = i + (seq!['{','"','u','i','d','"',':']).len() + (enc_str(r.uid)).len() + (seq![',','"','n','a','m','e','"',':']).len() + (enc_str(r.name)).len() + (seq![',','"','d','u','e','_','t','e','x','t','"',':']).len() + (enc_str(r.due_text)).len() + (seq![',','"','d','i','f','f','i','c','u','l','t','y','"',':']).len() + (dec_rep(r.difficulty as nat)).len() + (seq![',','"','p','r','o','g','r','e','s','s','"',':']).len() + (dec_rep(r.progress as nat)).len() + (seq![',','"','t','a','g','s','"',':']).len() + (enc_tags(r.tags)).len();
    lemma_subrange_split(s, p12, g12, enc_milestones(r.milestones) + (seq![',','"','d','e','l','e','t','e','d','"',':'] + (enc_bool(r.deleted) + (seq![',','"','c','r','e','a','t','e','d','_','a','t','"',':'] + (int_rep(r.created_at as int) + (seq![',','"','u','p','d','a','t','e','d','_','a','t','"',':'] + (int_rep(r.updated_at as int) + (seq![',','"','s','c','h','e','m','a','_','v','e','r','s','i','o','n','"',':'] + (dec_rep(r.schema_version as nat) + (seq!['}']))))))))));
    let p13 = p12 + g12.len();
    assert(p_lit(s, p12, g12) == Some(p13));
    lemma_subrange_split(s, p13, g13, seq![',','"','d','e','l','e','t','e','d','"',':'] + (enc_bool(r.deleted) + (seq![',','"','c','r','e','a','t','e','d','_','a','t','"',':'] + (int_rep(r.created_at as int) + (seq![',','"','u','p','d','a','t','e','d','_','a','t','"',':'] + (int_rep(r.updated_at as int) + (seq![',','"','s','c','h','e','m','a','_','v','e','r','s','i','o','n','"',':'] + (dec_rep(r.schema_version as nat) + (seq!['}'])))))))));
    let p14 = p13 + g13.len();
    lemma_enc_milestones_round_trip(r.milestones, s, p13);
    lemma_subrange_split(s, p14, g14, enc_bool(r.deleted) + (seq![',','"','c','r','e','a','t','e','d','_','a','t','"',':'] + (int_rep(r.created_at as int) + (seq![',','"','u','p','d','a','t','e','d','_','a','t','"',':'] + (int_rep(r.updated_at as int) + (seq![',','"','s','c','h','e','m','a','_','v','e','r','s','i','o','n','"',':'] + (dec_rep(r.schema_version as nat) + (seq!['}']))))))));
    let p15 = p14 + g14.len();
    assert(p_lit(s, p14, g14) == Some(p15));
    lemma_subrange_split(s, p15, g15, seq![',','"','c','r','e','a','t','e','d','_','a','t','"',':'] + (int_rep(r.created_at as int) + (seq![',','"','u','p','d','a','t','e','d','_','a','t','"',':'] + (int_rep(r.updated_at as int) + (seq![',','"','s','c','h','e','m','a','_','v','e','r','s','i','o','n','"',':'] + (dec_rep(r.schema_version as nat) + (seq!['}'])))))));
    let p16 = p15 + g15.len();
    lemma_enc_bool_round_trip(r.deleted, s, p15);
    lemma_subrange_split(s, p16, g16, int_rep(r.created_at as int) + (seq![',','"','u','p','d','a','t','e','d','_','a','t','"',':'] + (int_rep(r.updated_at as int) + (seq![',','"','s','c','h','e','m','a','_','v','e','r','s','i','o','n','"',':'] + (dec_rep(r.schema_version as nat) + (seq!['}']))))));
    let p17 = p16 + g16.len();
    assert(p_lit(s, p16, g16) == Some(p17));
    lemma_subrange_split(s, p17, g17, seq![',','"','u','p','d','a','t','e','d','_','a','t','"',':'] + (int_rep(r.updated_at as int) + (seq![',','"','s','c','h','e','m','a','_','v','e','r','s','i','o','n','"',':'] + (dec_rep(r.schema_version as nat) + (seq!['}'])))));
    let p18 = p17 + g17.len();
    assert(s[p18] == (seq![',','"','u','p','d','a','t','e','d','_','a','t','"',':'] + (int_rep(r.updated_at as int) + (seq![',','"','s','c','h','e','m','a','_','v','e','r','s','i','o','n','"',':'] + (dec_rep(r.schema_version as nat) + (seq!['}'])))))[0]) by {
        assert(s.subrange(p18, p18 + (seq![',','"','u','p','d','a','t','e','d','_','a','t','"',':'] + (int_rep(r.updated_at as int) + (seq![',','"','s','c','h','e','m','a','_','v','e','r','s','i','o','n','"',':'] + (dec_rep(r.schema_version as nat) + (seq!['}']))))).len())[0] == s[p18]);
    }
    assert(!is_digit(s[p18]));
    lemma_enc_i64_round_trip(r.created_at, s, p17);
    lemma_subrange_split(s, p18, g18, int_rep(r.updated_at as int) + (seq![',','"','s','c','h','e','m','a','_','v','e','r','s','i','o','n','"',':'] + (dec_rep(r.schema_version as nat) + (seq!['}']))));
    let p19 = p18 + g18.len();
    assert(p_lit(s, p18, g18) == Some(p19));
    lemma_subrange_split(s, p19, g19, seq![',','"','s','c','h','e','m','a','_','v','e','r','s','i','o','n','"',':'] + (dec_rep(r.schema_version as nat) + (seq!['}'])));
    let p20 = p19 + g19.len();
    assert(s[p20] == (seq![',','"','s','c','h','e','m','a','_','v','e','r','s','i','o','n','"',':'] + (dec_rep(r.schema_version as nat) + (seq!['}'])))[0]) by {
        assert(s.subrange(p20, p20 + (seq![',','"','s','c','h','e','m','a','_','v','e','r','s','i','o','n','"',':'] + (dec_rep(r.schema_version as nat) + (seq!['}']))).len())[0] == s[p20]);
    }
    assert(!is_digit(s[p20]));
    lemma_enc_i64_round_trip(r.updated_at, s, p19);
    lemma_subrange_split(s, p20, g20, dec_rep(r.schema_version as nat) + (seq!['}']));
    let p21 = p20 + g20.len();
    assert(p_lit(s, p20, g20) == Some(p21));
    lemma_subrange_split(s, p21, g21, seq!['}']);
    let p22 = p21 + g21.len();
    assert(s[p22] == (seq!['}'])[0]) by {
        assert(s.subrange(p22, p22 + (seq!['}']).len())[0] == s[p22]);
    }
    assert(!is_digit(s[p22]));
    lemma_enc_u64_round_trip(r.schema_version as u64, s, p21);
    let p23 = p22 + g22.len();
    assert(p_lit(s, p22, g22) == Some(p23));
}

/// Reading back one encoded record yields the record.
#[verifier::rlimit(100)]
#[verifier::spinoff_prover]
pub proof fn lemma_enc_record_round_trip(r: RecordV, s: Seq<char>, i: int)
    requires
        0 <= i,
        i + enc_record(r).len() <= s.len(),
        s.subrange(i, i + enc_record(r).len()) == enc_record(r),
    ensures
        p_record(s, i) == Some((r, i + enc_record(r).len())),
{
    reveal(enc_record);
    reveal(p_record);
    assert(enc_record(r) == seq!['{','"','u','i','d','"',':'] + (enc_str(r.uid) + (seq![',','"','n','a','m','e','"',':'] + (enc_str(r.name) + (seq![',','"','d','u','e','_','t','e','x','t','"',':'] + (enc_str(r.due_text) + (seq![',','"','d','i','f','f','i','c','u','l','t','y','"',':'] + (dec_rep(r.difficulty as nat) + (seq![',','"','p','r','o','g','r','e','s','s','"',':'] + (dec_rep(r.progress as nat) + (seq![',','"','t','a','g','s','"',':'] + (enc_tags(r.tags) + (seq![',','"','m','i','l','e','s','t','o','n','e','s','"',':'] + (enc_milestones(r.milestones) + (seq![',','"','d','e','l','e','t','e','d','"',':'] + (enc_bool(r.deleted) + (seq![',','"','c','r','e','a','t','e','d','_','a','t','"',':'] + (int_rep(r.created_at as int) + (seq![',','"','u','p','d','a','t','e','d','_','a','t','"',':'] + (int_rep(r.updated_at as int) + (seq![',','"','s','c','h','e','m','a','_','v','e','r','s','i','o','n','"',':'] + (dec_rep(r.schema_version as nat) + (seq!['}'])))))))))))))))))))))));
    lemma_record_steps_head(r, s, i);
    lemma_record_steps_tail(r, s, i);
    let q0 = i;
    let q1 = q0 + (seq!['{','"','u','i','d','"',':']).len();
    let q2 = q1 + (enc_str(r.uid)).len();
    let q3 = q2 + (seq![',','"','n','a','m','e','"',':']).len();
    let q4 = q3 + (enc_str(r.name)).len();
    let q5 = q4 + (seq![',','"','d','u','e','_','t','e','x','t','"',':']).len();
    let q6 = q5 + (enc_str(r.due_text)).len();
    let q7 = q6 + (seq![',','"','d','i','f','f','i','c','u','l','t','y','"',':']).len();
    let q8 = q7 + (dec_rep(r.difficulty as nat)).len();
    let q9 = q8 + (seq![',','"','p','r','o','g','r','e','s','s','"',':']).len();
    let q10 = q9 + (dec_rep(r.progress as nat)).len();
    let q11 = q10 + (seq![',','"','t','a','g','s','"',':']).len();
    let q12 = q11 + (enc_tags(r.tags)).len();
    let q13 = q12 + (seq![',','"','m','i','l','e','s','t','o','n','e','s','"',':']).len();
    let q14 = q13 + (enc_milestones(r.milestones)).len();
    let q15 = q14 + (seq![',','"','d','e','l','e','t','e','d','"',':']).len();
    let q16 = q15 + (enc_bool(r.deleted)).len();
    let q17 = q16 + (seq![',','"','c','r','e','a','t','e','d','_','a','t','"',':']).len();
    let q18 = q17 + (int_rep(r.created_at as int)).len();
    let q19 = q18 + (seq![',','"','u','p','d','a','t','e','d','_','a','t','"',':']).len();
    let q20 = q19 + (int_rep(r.updated_at as int)).len();
    let q21 = q20 + (seq![',','"','s','c','h','e','m','a','_','v','e','r','s','i','o','n','"',':']).len();
    let q22 = q21 + (dec_rep(r.schema_version as nat)).len();
    let q23 = q22 + (seq!['}']).len();
    assert(q23 == i + enc_record(r).len());
    match p_record(s, i) {
        Some(t) => {
            assert(t.0 =~= r);
            assert(t.1 == i + enc_record(r).len());
        },
        None => {
            assert(false);
        },
    }
}
/// The record objects, comma separated.
pub open spec fn enc_records_items(rs: Seq<RecordV>) -> Seq<char>
    decreases rs.len(),
{
    if rs.len() == 0 {
        Seq::empty()
    } else if rs.len() == 1 {
        enc_record(rs[0])
    } else {
        enc_record(rs[0]) + (seq![','] + enc_records_items(rs.skip(1)))
    }
}

/// The whole collection: a bracketed array of record objects.
pub open spec fn enc_records(rs: Seq<RecordV>) -> Seq<char> {
    seq!['['] + (enc_records_items(rs) + seq![']'])
}

/// Parsing the record objects, up to and including the closing bracket.
pub open spec fn p_records_items(s: Seq<char>, i: int, acc: Seq<RecordV>) -> Option<
    (Seq<RecordV>, int),
>
    decreases s.len() - i,
{
    match p_record(s, i) {
        None => None,
        Some(t) => {
            let j = t.1;
            if j < s.len() && s[j] == ',' {
                if i < j + 1 && j + 1 <= s.len() {
                    p_records_items(s, j + 1, acc.push(t.0))
                } else {
                    None
                }
            } else if j < s.len() && s[j] == ']' {
                Some((acc.push(t.0), j + 1))
            } else {
                None
            }
        },
    }
}

/// What parsing the whole collection array yields.
pub open spec fn p_records(s: Seq<char>, i: int) -> Option<(Seq<RecordV>, int)> {
    if 0 <= i < s.len() && s[i] == '[' {
        if i + 1 < s.len() && s[i + 1] == ']' {
            Some((Seq::empty(), i + 2))
        } else {
            p_records_items(s, i + 1, Seq::empty())
        }
    } else {
        None
    }
}

/// What parsing a whole document yields: the collection, provided nothing
/// follows the closing bracket.
pub open spec fn parse_records_text(s: Seq<char>) -> Option<Seq<RecordV>> {
    match p_records(s, 0) {
        Some(t) => {
            if t.1 == s.len() {
                Some(t.0)
            } else {
                None
            }
        },
        None => None,
    }
}

/// A record object's text begins with its opening brace.
proof fn lemma_enc_record_first(r: RecordV)
    ensures
        enc_record(r).len() >= 1,
        enc_record(r)[0] == '{',
{
    reveal(enc_record);
    assert(enc_record(r)[0] == '{');
}

/// Reading back encoded record objects, up to the closing bracket, yields
/// the records.
#[verifier::rlimit(100)]
#[verifier::spinoff_prover]
proof fn lemma_records_items_round_trip(rs: Seq<RecordV>, s: Seq<char>, i: int, acc: Seq<RecordV>)
    requires
        rs.len() > 0,
        0 <= i,
        i + enc_records_items(rs).len() + 1 <= s.len(),
        s.subrange(i, i + enc_records_items(rs).len()) == enc_records_items(rs),
        s[i + enc_records_items(rs).len()] == ']',
    ensures
        p_records_items(s, i, acc) == Some((acc + rs, i + enc_records_items(rs).len() + 1)),
    decreases rs.len(),
{
    let e = enc_records_items(rs);
    let a = enc_record(rs[0]);
    if rs.len() == 1 {
        assert(e == a);
        lemma_enc_record_round_trip(rs[0], s, i);
        assert(s[i + a.len()] == ']');
        assert(acc.push(rs[0]) =~= acc + rs);
    } else {
        let rest = seq![','] + enc_records_items(rs.skip(1));
        assert(e == a + rest);
        lemma_subrange_split(s, i, a, rest);
        lemma_enc_record_round_trip(rs[0], s, i);
        let j = i + a.len();
        assert(s[j] == ',') by {
            assert(s.subrange(j, j + rest.len())[0] == s[j]);
        }
        lemma_subrange_split(s, j, seq![','], enc_records_items(rs.skip(1)));
        lemma_records_items_round_trip(rs.skip(1), s, j + 1, acc.push(rs[0]));
        assert(acc.push(rs[0]) + rs.skip(1) =~= acc + rs);
        assert(j + 1 + enc_records_items(rs.skip(1)).len() == i + e.len());
    }
}

/// Reading back an encoded collection yields the records.
pub proof fn lemma_enc_records_round_trip_at(rs: Seq<RecordV>, s: Seq<char>, i: int)
    requires
        0 <= i,
        i + enc_records(rs).len() <= s.len(),
        s.subrange(i, i + enc_records(rs).len()) == enc_records(rs),
    ensures
        p_records(s, i) == Some((rs, i + enc_records(rs).len())),
{
    let e = enc_records(rs);
    assert(s[i] == '[') by {
        assert(s.subrange(i, i + e.len())[0] == s[i]);
    }
    lemma_subrange_split(s, i, seq!['['], enc_records_items(rs) + seq![']']);
    if rs.len() == 0 {
        assert(enc_records_items(rs).len() == 0);
        assert(s[i + 1] == ']') by {
            assert(s.subrange(i, i + e.len())[1] == s[i + 1]);
            assert(e[1] == ']');
        }
    } else {
        lemma_subrange_split(s, i + 1, enc_records_items(rs), seq![']']);
        assert(s[i + 1 + enc_records_items(rs).len()] == ']') by {
            assert(s.subrange(
                i + 1 + enc_records_items(rs).len(),
                i + 1 + enc_records_items(rs).len() + 1,
            )[0] == s[i + 1 + enc_records_items(rs).len()]);
        }
        lemma_enc_record_first(rs[0]);
        assert(enc_records_items(rs)[0] == '{') by {
            if rs.len() == 1 {
                assert(enc_records_items(rs) == enc_record(rs[0]));
            }
        }
        assert(s[i + 1] == '{') by {
            assert(s.subrange(i + 1, i + 1 + enc_records_items(rs).len())[0] == s[i + 1]);
        }
        lemma_records_items_round_trip(rs, s, i + 1, Seq::empty());
        assert(Seq::<RecordV>::empty() + rs =~= rs);
    }
}

/// The round trip: writing a collection of records to text and reading the
/// text back yields field-for-field the same records, in the same order.
pub proof fn lemma_records_round_trip(rs: Seq<RecordV>)
    ensures
        parse_records_text(enc_records(rs)) == Some(rs),
{
    let s = enc_records(rs);
    assert(s.subrange(0, s.len() as int) =~= s);
    lemma_enc_records_round_trip_at(rs, s, 0);
}

/// Appends a fixed piece of text to the output.
pub fn push_chars(lit: &str, out: &mut Vec<char>)
    ensures
        final(out)@ == old(out)@ + lit@,
{
    let mut piece = str_to_chars(lit);
    out.append(&mut piece);
}

/// Appends the rendering of a boolean to the output.
pub fn push_bool(b: bool, out: &mut Vec<char>)
    ensures
        final(out)@ == old(out)@ + enc_bool(b),
{
    if b {
        proof {
            reveal_strlit("true");
        }
        push_chars("true", out);
        assert(final(out)@ =~= old(out)@ + enc_bool(b));
    } else {
        proof {
            reveal_strlit("false");
        }
        push_chars("false", out);
        assert(final(out)@ =~= old(out)@ + enc_bool(b));
    }
}

/// Adding one more string to the items extends the comma-separated text.
proof fn lemma_tags_items_push(u: Seq<Seq<char>>, x: Seq<char>)
    ensures
        enc_tags_items(u.push(x)) == if u.len() == 0 {
            enc_str(x)
        } else {
            enc_tags_items(u) + (seq![','] + enc_str(x))
        },
    decreases u.len(),
{
    if u.len() == 0 {
        assert(u.push(x).len() == 1);
        assert(u.push(x)[0] == x);
    } else if u.len() == 1 {
        assert(u.push(x)[0] == u[0]);
        assert(u.push(x).skip(1) =~= Seq::<Seq<char>>::empty().push(x));
        lemma_tags_items_push(Seq::<Seq<char>>::empty(), x);
        assert(enc_tags_items(u.push(x)) =~= enc_tags_items(u) + (seq![','] + enc_str(x)));
    } else {
        assert(u.push(x)[0] == u[0]);
        assert(u.push(x).skip(1) =~= u.skip(1).push(x));
        lemma_tags_items_push(u.skip(1), x);
        assert(enc_tags_items(u.push(x)) =~= enc_tags_items(u) + (seq![','] + enc_str(x)));
    }
}

/// Appends the bracketed string array to the output.
pub fn push_tags(ts: &Vec<String>, out: &mut Vec<char>)
    ensures
        final(out)@ == old(out)@ + enc_tags(ts.deep_view()),
{
    out.push('[');
    let mut i: usize = 0;
    assert(ts.deep_view().take(0) =~= Seq::<Seq<char>>::empty());
    assert(out@ =~= old(out)@ + seq!['['] + enc_tags_items(ts.deep_view().take(0)));
    while i < ts.len()
        invariant
            i <= ts@.len(),
            ts@.len() == ts.deep_view().len(),
            out@ == old(out)@ + seq!['['] + enc_tags_items(ts.deep_view().take(i as int)),
        decreases ts@.len() - i,
    {
        if i > 0 {
            out.push(',');
        }
        push_json_string(ts[i].as_str(), out);
        proof {
            let dv = ts.deep_view();
            assert(dv[i as int] == ts@[i as int]@);
            assert(dv.take(i as int).push(dv[i as int]) =~= dv.take(i as int + 1));
            lemma_tags_items_push(dv.take(i as int), dv[i as int]);
            assert(out@ =~= old(out)@ + seq!['['] + enc_tags_items(dv.take(i as int + 1)));
        }
        i = i + 1;
    }
    out.push(']');
    assert(ts.deep_view().take(ts@.len() as int) =~= ts.deep_view());
    assert(out@ =~= old(out)@ + enc_tags(ts.deep_view()));
}

/// Appends one milestone entry to the output.
pub fn push_ms_item(p: u8, label: &str, out: &mut Vec<char>)
    ensures
        final(out)@ == old(out)@ + enc_ms_item((p, label@)),
{
    out.push('[');
    crate::digits::push_dec_u64(p as u64, out);
    out.push(',');
    push_json_string(label, out);
    out.push(']');
    assert(final(out)@ =~= old(out)@ + enc_ms_item((p, label@)));
}

/// Adding one more entry to the milestones extends the comma-separated
/// text.
proof fn lemma_ms_items_push(u: Seq<(u8, Seq<char>)>, x: (u8, Seq<char>))
    ensures
        enc_ms_items(u.push(x)) == if u.len() == 0 {
            enc_ms_item(x)
        } else {
            enc_ms_items(u) + (seq![','] + enc_ms_item(x))
        },
    decreases u.len(),
{
    if u.len() == 0 {
        assert(u.push(x).len() == 1);
        assert(u.push(x)[0] == x);
    } else if u.len() == 1 {
        assert(u.push(x)[0] == u[0]);
        assert(u.push(x).skip(1) =~= Seq::<(u8, Seq<char>)>::empty().push(x));
        lemma_ms_items_push(Seq::<(u8, Seq<char>)>::empty(), x);
        assert(enc_ms_items(u.push(x)) =~= enc_ms_items(u) + (seq![','] + enc_ms_item(x)));
    } else {
        assert(u.push(x)[0] == u[0]);
        assert(u.push(x).skip(1) =~= u.skip(1).push(x));
        lemma_ms_items_push(u.skip(1), x);
        assert(enc_ms_items(u.push(x)) =~= enc_ms_items(u) + (seq![','] + enc_ms_item(x)));
    }
}

/// Appends the bracketed milestone array to the output.
pub fn push_milestones(ms: &Vec<(u8, String)>, out: &mut Vec<char>)
    ensures
        final(out)@ == old(out)@ + enc_milestones(ms.deep_view()),
{
    out.push('[');
    let mut i: usize = 0;
    assert(ms.deep_view().take(0) =~= Seq::<(u8, Seq<char>)>::empty());
    assert(out@ =~= old(out)@ + seq!['['] + enc_ms_items(ms.deep_view().take(0)));
    while i < ms.len()
        invariant
            i <= ms@.len(),
            ms@.len() == ms.deep_view().len(),
            out@ == old(out)@ + seq!['['] + enc_ms_items(ms.deep_view().take(i as int)),
        decreases ms@.len() - i,
    {
        if i > 0 {
            out.push(',');
        }
        push_ms_item(ms[i].0, ms[i].1.as_str(), out);
        proof {
            let dv = ms.deep_view();
            assert(dv[i as int] == (ms@[i as int].0, ms@[i as int].1@));
            assert(dv.take(i as int).push(dv[i as int]) =~= dv.take(i as int + 1));
            lemma_ms_items_push(dv.take(i as int), dv[i as int]);
            assert(out@ =~= old(out)@ + seq!['['] + enc_ms_items(dv.take(i as int + 1)));
        }
        i = i + 1;
    }
    out.push(']');
    assert(ms.deep_view().take(ms@.len() as int) =~= ms.deep_view());
    assert(out@ =~= old(out)@ + enc_milestones(ms.deep_view()));
}

/// The first half of a record object's text, through the tags array.
pub open spec fn enc_record_head(r: RecordV) -> Seq<char> {
    seq!['{','"','u','i','d','"',':'] + (enc_str(r.uid)
    + (seq![',','"','n','a','m','e','"',':'] + (enc_str(r.name)
    + (seq![',','"','d','u','e','_','t','e','x','t','"',':'] + (enc_str(r.due_text)
    + (seq![',','"','d','i','f','f','i','c','u','l','t','y','"',':'] + (dec_rep(r.difficulty as nat)
    + (seq![',','"','p','r','o','g','r','e','s','s','"',':'] + (dec_rep(r.progress as nat)
    + (seq![',','"','t','a','g','s','"',':'] + enc_tags(r.tags)))))))))))
}

/// The second half of a record object's text, from the milestones array.
pub open spec fn enc_record_tail(r: RecordV) -> Seq<char> {
    seq![',','"','m','i','l','e','s','t','o','n','e','s','"',':'] + (enc_milestones(r.milestones)
    + (seq![',','"','d','e','l','e','t','e','d','"',':'] + (enc_bool(r.deleted)
    + (seq![',','"','c','r','e','a','t','e','d','_','a','t','"',':'] + (int_rep(r.created_at as int)
    + (seq![',','"','u','p','d','a','t','e','d','_','a','t','"',':'] + (int_rep(r.updated_at as int)
    + (seq![',','"','s','c','h','e','m','a','_','v','e','r','s','i','o','n','"',':'] + (dec_rep(r.schema_version as nat)
    + seq!['}'])))))))))
}

/// A record object's text is its two halves, one after the other.
#[verifier::rlimit(100)]
#[verifier::spinoff_prover]
proof fn lemma_record_halves(r: RecordV)
    ensures
        enc_record(r) == enc_record_head(r) + enc_record_tail(r),
{
    reveal(enc_record);
    assert(enc_record(r) =~= enc_record_head(r) + enc_record_tail(r));
}

/// Appends the first half of a record object to the output.
#[verifier::rlimit(100)]
#[verifier::spinoff_prover]
fn push_record_head(rec: &crate::record::HomeworkRecord, out: &mut Vec<char>)
    ensures
        final(out)@ == old(out)@ + enc_record_head(rec@),
{
    proof {
        reveal_strlit("{\"uid\":");
        reveal_strlit(",\"name\":");
        reveal_strlit(",\"due_text\":");
        reveal_strlit(",\"difficulty\":");
        reveal_strlit(",\"progress\":");
        reveal_strlit(",\"tags\":");
    }
    push_chars("{\"uid\":", out);
    push_json_string(rec.uid.as_str(), out);
    push_chars(",\"name\":", out);
    push_json_string(rec.name.as_str(), out);
    push_chars(",\"due_text\":", out);
    push_json_string(rec.due_text.as_str(), out);
    push_chars(",\"difficulty\":", out);
    crate::digits::push_dec_u64(rec.difficulty as u64, out);
    push_chars(",\"progress\":", out);
    crate::digits::push_dec_u64(rec.progress as u64, out);
    push_chars(",\"tags\":", out);
    push_tags(&rec.tags, out);
    assert(final(out)@ =~= old(out)@ + enc_record_head(rec@));
}

/// Appends the second half of a record object to the output.
#[verifier::rlimit(100)]
#[verifier::spinoff_prover]
fn push_record_tail(rec: &crate::record::HomeworkRecord, out: &mut Vec<char>)
    ensures
        final(out)@ == old(out)@ + enc_record_tail(rec@),
{
    proof {
        reveal_strlit(",\"milestones\":");
        reveal_strlit(",\"deleted\":");
        reveal_strlit(",\"created_at\":");
        reveal_strlit(",\"updated_at\":");
        reveal_strlit(",\"schema_version\":");
    }
    push_chars(",\"milestones\":", out);
    push_milestones(&rec.milestones, out);
    push_chars(",\"deleted\":", out);
    push_bool(rec.deleted, out);
    push_chars(",\"created_at\":", out);
    crate::datetime::push_dec_i64(rec.created_at, out);
    push_chars(",\"updated_at\":", out);
    crate::datetime::push_dec_i64(rec.updated_at, out);
    push_chars(",\"schema_version\":", out);
    crate::digits::push_dec_u64(rec.schema_version as u64, out);
    out.push('}');
    assert(final(out)@ =~= old(out)@ + enc_record_tail(rec@));
}

/// Appends one record object to the output.
pub fn push_record(rec: &crate::record::HomeworkRecord, out: &mut Vec<char>)
    ensures
        final(out)@ == old(out)@ + enc_record(rec@),
{
    push_record_head(rec, out);
    push_record_tail(rec, out);
    proof {
        lemma_record_halves(rec@);
        assert(final(out)@ =~= old(out)@ + enc_record(rec@));
    }
}

/// Adding one more record extends the comma-separated text.
proof fn lemma_records_items_push(u: Seq<RecordV>, x: RecordV)
    ensures
        enc_records_items(u.push(x)) == if u.len() == 0 {
            enc_record(x)
        } else {
            enc_records_items(u) + (seq![','] + enc_record(x))
        },
    decreases u.len(),
{
    if u.len() == 0 {
        assert(u.push(x).len() == 1);
        assert(u.push(x)[0] == x);
    } else if u.len() == 1 {
        assert(u.push(x)[0] == u[0]);
        assert(u.push(x).skip(1) =~= Seq::<RecordV>::empty().push(x));
        lemma_records_items_push(Seq::<RecordV>::empty(), x);
        assert(enc_records_items(u.push(x)) =~= enc_records_items(u) + (seq![','] + enc_record(x)));
    } else {
        assert(u.push(x)[0] == u[0]);
        assert(u.push(x).skip(1) =~= u.skip(1).push(x));
        lemma_records_items_push(u.skip(1), x);
        assert(enc_records_items(u.push(x)) =~= enc_records_items(u) + (seq![','] + enc_record(x)));
    }
}

/// Renders a whole collection of records as the flat-file text.
pub fn to_text(records: &Vec<crate::record::HomeworkRecord>) -> (r: String)
    ensures
        r@ == enc_records(records.deep_view()),
{
    let mut out: Vec<char> = Vec::new();
    out.push('[');
    let mut i: usize = 0;
    assert(records.deep_view().take(0) =~= Seq::<RecordV>::empty());
    assert(out@ =~= seq!['['] + enc_records_items(records.deep_view().take(0)));
    while i < records.len()
        invariant
            i <= records@.len(),
            records@.len() == records.deep_view().len(),
            out@ == seq!['['] + enc_records_items(records.deep_view().take(i as int)),
        decreases records@.len() - i,
    {
        if i > 0 {
            out.push(',');
        }
        push_record(&records[i], &mut out);
        proof {
            let dv = records.deep_view();
            assert(dv[i as int] == records@[i as int]@);
            assert(dv.take(i as int).push(dv[i as int]) =~= dv.take(i as int + 1));
            lemma_records_items_push(dv.take(i as int), dv[i as int]);
            assert(out@ =~= seq!['['] + enc_records_items(dv.take(i as int + 1)));
        }
        i = i + 1;
    }
    out.push(']');
    assert(records.deep_view().take(records@.len() as int) =~= records.deep_view());
    assert(out@ =~= enc_records(records.deep_view()));
    crate::text::chars_to_string(&out)
}

/// Expects a fixed piece of text at the position, returning the position
/// after it.
pub fn expect_lit(v: &Vec<char>, i: usize, l: &Vec<char>) -> (r: Option<usize>)
    ensures
        match r {
            Some(j) => p_lit(v@, i as int, l@) == Some(j as int) && j as int == i + l@.len() && j
                <= v@.len(),
            None => p_lit(v@, i as int, l@) is None,
        },
{
    if i > v.len() || v.len() - i < l.len() {
        return None;
    }
    let mut x: usize = 0;
    while x < l.len()
        invariant
            x <= l@.len(),
            i + l@.len() <= v@.len(),
            v@.len() <= usize::MAX,
            forall|y: int| 0 <= y < x ==> v@[i + y] == l@[y],
        decreases l@.len() - x,
    {
        if v[i + x] != l[x] {
            proof {
                if p_lit(v@, i as int, l@) is Some {
                    assert(v@.subrange(i as int, i + l@.len())[x as int] == v@[i + x]);
                }
            }
            return None;
        }
        x = x + 1;
    }
    assert(v@.subrange(i as int, i + l@.len()) =~= l@);
    Some(i + l.len())
}

/// Parses a boolean.
pub fn parse_bool(v: &Vec<char>, i: usize) -> (r: Option<(bool, usize)>)
    ensures
        match r {
            Some(t) => p_bool(v@, i as int) == Some((t.0, t.1 as int)) && i < t.1 <= v@.len(),
            None => p_bool(v@, i as int) is None,
        },
{
    proof {
        reveal_strlit("true");
        reveal_strlit("false");
    }
    let lt = str_to_chars("true");
    assert(lt@ =~= enc_bool(true));
    match expect_lit(v, i, &lt) {
        Some(j) => {
            return Some((true, j));
        },
        None => {},
    }
    let lf = str_to_chars("false");
    assert(lf@ =~= enc_bool(false));
    match expect_lit(v, i, &lf) {
        Some(j) => {
            return Some((false, j));
        },
        None => {},
    }
    None
}

/// Parses a bracketed string array.
pub fn parse_tags(v: &Vec<char>, i: usize) -> (r: Option<(Vec<String>, usize)>)
    ensures
        match r {
            Some(t) => p_tags(v@, i as int) == Some((t.0.deep_view(), t.1 as int)) && i < t.1
                <= v@.len(),
            None => p_tags(v@, i as int) is None,
        },
{
    if i >= v.len() || v[i] != '[' {
        return None;
    }
    if i + 1 < v.len() && v[i + 1] == ']' {
        let empty: Vec<String> = Vec::new();
        assert(empty.deep_view() =~= Seq::<Seq<char>>::empty());
        return Some((empty, i + 2));
    }
    let mut acc: Vec<String> = Vec::new();
    let mut k: usize = i + 1;
    assert(acc.deep_view() =~= Seq::<Seq<char>>::empty());
    loop
        invariant
            i + 1 <= k <= v@.len(),
            acc@.len() == acc.deep_view().len(),
            p_tags(v@, i as int) == p_tags_items(v@, k as int, acc.deep_view()),
        decreases v@.len() - k,
    {
        match parse_string(v, k) {
            None => {
                return None;
            },
            Some((tv, j)) => {
                let tag = crate::text::chars_to_string(&tv);
                let ghost prev = acc.deep_view();
                acc.push(tag);
                assert(acc.deep_view() =~= prev.push(tv@));
                if j < v.len() && v[j] == ',' {
                    k = j + 1;
                } else if j < v.len() && v[j] == ']' {
                    return Some((acc, j + 1));
                } else {
                    return None;
                }
            },
        }
    }
}

/// Parses one milestone entry.
pub fn parse_ms_item(v: &Vec<char>, i: usize) -> (r: Option<((u8, String), usize)>)
    ensures
        match r {
            Some(t) => p_ms_item(v@, i as int) == Some(((t.0.0, t.0.1@), t.1 as int)) && i < t.1
                <= v@.len(),
            None => p_ms_item(v@, i as int) is None,
        },
{
    if i >= v.len() || v[i] != '[' {
        return None;
    }
    match parse_u64(v, i + 1) {
        None => None,
        Some((n, j)) => {
            if n <= 255 && j < v.len() && v[j] == ',' {
                match parse_string(v, j + 1) {
                    None => None,
                    Some((lab, j2)) => {
                        if j2 < v.len() && v[j2] == ']' {
                            let label = crate::text::chars_to_string(&lab);
                            Some(((n as u8, label), j2 + 1))
                        } else {
                            None
                        }
                    },
                }
            } else {
                None
            }
        },
    }
}

/// Parses a bracketed milestone array.
pub fn parse_milestones(v: &Vec<char>, i: usize) -> (r: Option<(Vec<(u8, String)>, usize)>)
    ensures
        match r {
            Some(t) => p_milestones(v@, i as int) == Some((t.0.deep_view(), t.1 as int)) && i < t.1
                <= v@.len(),
            None => p_milestones(v@, i as int) is None,
        },
{
    if i >= v.len() || v[i] != '[' {
        return None;
    }
    if i + 1 < v.len() && v[i + 1] == ']' {
        let empty: Vec<(u8, String)> = Vec::new();
        assert(empty.deep_view() =~= Seq::<(u8, Seq<char>)>::empty());
        return Some((empty, i + 2));
    }
    let mut acc: Vec<(u8, String)> = Vec::new();
    let mut k: usize = i + 1;
    assert(acc.deep_view() =~= Seq::<(u8, Seq<char>)>::empty());
    loop
        invariant
            i + 1 <= k <= v@.len(),
            acc@.len() == acc.deep_view().len(),
            p_milestones(v@, i as int) == p_ms_items(v@, k as int, acc.deep_view()),
        decreases v@.len() - k,
    {
        match parse_ms_item(v, k) {
            None => {
                return None;
            },
            Some((m, j)) => {
                let ghost prev = acc.deep_view();
                let ghost mv = (m.0, m.1@);
                acc.push(m);
                assert(acc.deep_view() =~= prev.push(mv));
                if j < v.len() && v[j] == ',' {
                    k = j + 1;
                } else if j < v.len() && v[j] == ']' {
                    return Some((acc, j + 1));
                } else {
                    return None;
                }
            },
        }
    }
}

/// Parses one record object.
#[verifier::rlimit(100)]
#[verifier::spinoff_prover]
pub fn parse_record(v: &Vec<char>, i: usize) -> (r: Option<(crate::record::HomeworkRecord, usize)>)
    ensures
        match r {
            Some(t) => p_record(v@, i as int) == Some((t.0@, t.1 as int)) && i < t.1 <= v@.len(),
            None => p_record(v@, i as int) is None,
        },
{
    proof {
        reveal(p_record);
        reveal_strlit("{\"uid\":");
        reveal_strlit(",\"name\":");
        reveal_strlit(",\"due_text\":");
        reveal_strlit(",\"difficulty\":");
        reveal_strlit(",\"progress\":");
        reveal_strlit(",\"tags\":");
        reveal_strlit(",\"milestones\":");
        reveal_strlit(",\"deleted\":");
        reveal_strlit(",\"created_at\":");
        reveal_strlit(",\"updated_at\":");
        reveal_strlit(",\"schema_version\":");
    }
    let k_uid = str_to_chars("{\"uid\":");
    assert(k_uid@ =~= seq!['{','"','u','i','d','"',':']);
    let i1 = match expect_lit(v, i, &k_uid) {
        None => {
            return None;
        },
        Some(x) => x,
    };
    let (uid_c, i2) = match parse_string(v, i1) {
        None => {
            return None;
        },
        Some(t) => t,
    };
    let k_name = str_to_chars(",\"name\":");
    assert(k_name@ =~= seq![',','"','n','a','m','e','"',':']);
    let i3 = match expect_lit(v, i2, &k_name) {
        None => {
            return None;
        },
        Some(x) => x,
    };
    let (name_c, i4) = match parse_string(v, i3) {
        None => {
            return None;
        },
        Some(t) => t,
    };
    let k_due = str_to_chars(",\"due_text\":");
    assert(k_due@ =~= seq![',','"','d','u','e','_','t','e','x','t','"',':']);
    let i5 = match expect_lit(v, i4, &k_due) {
        None => {
            return None;
        },
        Some(x) => x,
    };
    let (due_c, i6) = match parse_string(v, i5) {
        None => {
            return None;
        },
        Some(t) => t,
    };
    let k_diff = str_to_chars(",\"difficulty\":");
    assert(k_diff@ =~= seq![',','"','d','i','f','f','i','c','u','l','t','y','"',':']);
    let i7 = match expect_lit(v, i6, &k_diff) {
        None => {
            return None;
        },
        Some(x) => x,
    };
    let (diff_n, i8) = match parse_u64(v, i7) {
        None => {
            return None;
        },
        Some(t) => t,
    };
    let k_prog = str_to_chars(",\"progress\":");
    assert(k_prog@ =~= seq![',','"','p','r','o','g','r','e','s','s','"',':']);
    let i9 = match expect_lit(v, i8, &k_prog) {
        None => {
            return None;
        },
        Some(x) => x,
    };
    let (prog_n, i10) = match parse_u64(v, i9) {
        None => {
            return None;
        },
        Some(t) => t,
    };
    let k_tags = str_to_chars(",\"tags\":");
    assert(k_tags@ =~= seq![',','"','t','a','g','s','"',':']);
    let i11 = match expect_lit(v, i10, &k_tags) {
        None => {
            return None;
        },
        Some(x) => x,
    };
    let (tags, i12) = match parse_tags(v, i11) {
        None => {
            return None;
        },
        Some(t) => t,
    };
    let k_ms = str_to_chars(",\"milestones\":");
    assert(k_ms@ =~= seq![',','"','m','i','l','e','s','t','o','n','e','s','"',':']);
    let i13 = match expect_lit(v, i12, &k_ms) {
        None => {
            return None;
        },
        Some(x) => x,
    };
    let (ms, i14) = match parse_milestones(v, i13) {
        None => {
            return None;
        },
        Some(t) => t,
    };
    let k_del = str_to_chars(",\"deleted\":");
    assert(k_del@ =~= seq![',','"','d','e','l','e','t','e','d','"',':']);
    let i15 = match expect_lit(v, i14, &k_del) {
        None => {
            return None;
        },
        Some(x) => x,
    };
    let (del, i16) = match parse_bool(v, i15) {
        None => {
            return None;
        },
        Some(t) => t,
    };
    let k_cre = str_to_chars(",\"created_at\":");
    assert(k_cre@ =~= seq![',','"','c','r','e','a','t','e','d','_','a','t','"',':']);
    let i17 = match expect_lit(v, i16, &k_cre) {
        None => {
            return None;
        },
        Some(x) => x,
    };
    let (cre, i18) = match parse_i64(v, i17) {
        None => {
            return None;
        },
        Some(t) => t,
    };
    let k_upd = str_to_chars(",\"updated_at\":");
    assert(k_upd@ =~= seq![',','"','u','p','d','a','t','e','d','_','a','t','"',':']);
    let i19 = match expect_lit(v, i18, &k_upd) {
        None => {
            return None;
        },
        Some(x) => x,
    };
    let (upd, i20) = match parse_i64(v, i19) {
        None => {
            return None;
        },
        Some(t) => t,
    };
    let k_sch = str_to_chars(",\"schema_version\":");
    assert(k_sch@ =~= seq![',','"','s','c','h','e','m','a','_','v','e','r','s','i','o','n','"',':']);
    let i21 = match expect_lit(v, i20, &k_sch) {
        None => {
            return None;
        },
        Some(x) => x,
    };
    let (sch, i22) = match parse_u64(v, i21) {
        None => {
            return None;
        },
        Some(t) => t,
    };
    let k_end = str_to_chars("}");
    proof {
        reveal_strlit("}");
    }
    assert(k_end@ =~= seq!['}']);
    let end = match expect_lit(v, i22, &k_end) {
        None => {
            return None;
        },
        Some(x) => x,
    };
    if diff_n <= 255 && prog_n <= 255 && sch <= 65535 {
        let rec = crate::record::HomeworkRecord {
            uid: crate::text::chars_to_string(&uid_c),
            name: crate::text::chars_to_string(&name_c),
            due_text: crate::text::chars_to_string(&due_c),
            difficulty: diff_n as u8,
            progress: prog_n as u8,
            tags,
            milestones: ms,
            deleted: del,
            created_at: cre,
            updated_at: upd,
            schema_version: sch as u16,
        };
        assert(p_record(v@, i as int) is Some);
        assert(rec@ =~= p_record(v@, i as int)->Some_0.0);
        Some((rec, end))
    } else {
        None
    }
}

/// Parses the whole collection array.
pub fn parse_records(v: &Vec<char>, i: usize) -> (r: Option<
    (Vec<crate::record::HomeworkRecord>, usize),
>)
    ensures
        match r {
            Some(t) => p_records(v@, i as int) == Some((t.0.deep_view(), t.1 as int)) && i < t.1
                <= v@.len(),
            None => p_records(v@, i as int) is None,
        },
{
    if i >= v.len() || v[i] != '[' {
        return None;
    }
    if i + 1 < v.len() && v[i + 1] == ']' {
        let empty: Vec<crate::record::HomeworkRecord> = Vec::new();
        assert(empty.deep_view() =~= Seq::<RecordV>::empty());
        return Some((empty, i + 2));
    }
    let mut acc: Vec<crate::record::HomeworkRecord> = Vec::new();
    let mut k: usize = i + 1;
    assert(acc.deep_view() =~= Seq::<RecordV>::empty());
    loop
        invariant
            i + 1 <= k <= v@.len(),
            acc@.len() == acc.deep_view().len(),
            p_records(v@, i as int) == p_records_items(v@, k as int, acc.deep_view()),
        decreases v@.len() - k,
    {
        match parse_record(v, k) {
            None => {
                return None;
            },
            Some((rec, j)) => {
                let ghost prev = acc.deep_view();
                let ghost rv = rec@;
                acc.push(rec);
                assert(acc.deep_view() =~= prev.push(rv));
                if j < v.len() && v[j] == ',' {
                    k = j + 1;
                } else if j < v.len() && v[j] == ']' {
                    return Some((acc, j + 1));
                } else {
                    return None;
                }
            },
        }
    }
}

/// Reads a whole flat-file document back into records. Nothing may follow
/// the closing bracket.
pub fn from_text(s: &str) -> (r: Option<Vec<crate::record::HomeworkRecord>>)
    ensures
        match r {
            Some(rs) => parse_records_text(s@) == Some(rs.deep_view()),
            None => parse_records_text(s@) is None,
        },
{
    let v = str_to_chars(s);
    match parse_records(&v, 0) {
        Some((rs, j)) => {
            if j == v.len() {
                Some(rs)
            } else {
                None
            }
        },
        None => None,
    }
}

/// What parsing a whole string-array text yields: the strings, provided
/// nothing follows the closing bracket.
pub open spec fn parse_tags_text(s: Seq<char>) -> Option<Seq<Seq<char>>> {
    match p_tags(s, 0) {
        Some(t) => {
            if t.1 == s.len() {
                Some(t.0)
            } else {
                None
            }
        },
        None => None,
    }
}

/// What parsing a whole milestone-array text yields.
pub open spec fn parse_milestones_text(s: Seq<char>) -> Option<Seq<(u8, Seq<char>)>> {
    match p_milestones(s, 0) {
        Some(t) => {
            if t.1 == s.len() {
                Some(t.0)
            } else {
                None
            }
        },
        None => None,
    }
}

/// Renders a string array as one piece of text.
pub fn tags_to_text(ts: &Vec<String>) -> (r: String)
    ensures
        r@ == enc_tags(ts.deep_view()),
{
    let mut out: Vec<char> = Vec::new();
    push_tags(ts, &mut out);
    crate::text::chars_to_string(&out)
}

/// Renders a milestone array as one piece of text.
pub fn milestones_to_text(ms: &Vec<(u8, String)>) -> (r: String)
    ensures
        r@ == enc_milestones(ms.deep_view()),
{
    let mut out: Vec<char> = Vec::new();
    push_milestones(ms, &mut out);
    crate::text::chars_to_string(&out)
}

/// Reads a whole string-array text back.
pub fn tags_from_text(s: &str) -> (r: Option<Vec<String>>)
    ensures
        match r {
            Some(ts) => parse_tags_text(s@) == Some(ts.deep_view()),
            None => parse_tags_text(s@) is None,
        },
{
    let v = str_to_chars(s);
    match parse_tags(&v, 0) {
        Some((ts, j)) => {
            if j == v.len() {
                Some(ts)
            } else {
                None
            }
        },
        None => None,
    }
}

/// Reads a whole milestone-array text back.
pub fn milestones_from_text(s: &str) -> (r: Option<Vec<(u8, String)>>)
    ensures
        match r {
            Some(ms) => parse_milestones_text(s@) == Some(ms.deep_view()),
            None => parse_milestones_text(s@) is None,
        },
{
    let v = str_to_chars(s);
    match parse_milestones(&v, 0) {
        Some((ms, j)) => {
            if j == v.len() {
                Some(ms)
            } else {
                None
            }
        },
        None => None,
    }
}

/// The string-array round trip for one column's text.
pub proof fn lemma_tags_text_round_trip(ts: Seq<Seq<char>>)
    ensures
        parse_tags_text(enc_tags(ts)) == Some(ts),
{
    let s = enc_tags(ts);
    assert(s.subrange(0, s.len() as int) =~= s);
    lemma_enc_tags_round_trip(ts, s, 0);
}

/// The milestone-array round trip for one column's text.
pub proof fn lemma_milestones_text_round_trip(ms: Seq<(u8, Seq<char>)>)
    ensures
        parse_milestones_text(enc_milestones(ms)) == Some(ms),
{
    let s = enc_milestones(ms);
    assert(s.subrange(0, s.len() as int) =~= s);
    lemma_enc_milestones_round_trip(ms, s, 0);
}

} // verus!
