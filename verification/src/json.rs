//! The textual building blocks of the manifest format: JSON string tokens
//! with escaping, decimal numbers, and fixed tokens, as written by this
//! library and read back from an archive.
//!
//! Parsers work on a remaining-input suffix: each returns the parsed value
//! and the suffix after it.

use vstd::prelude::*;

use crate::strutil::{push_char, spec_all_digits, spec_digits_value, spec_starts_with, substr};

verus! {

// ---------------------------------------------------------------------------
// Characters
// ---------------------------------------------------------------------------
pub open spec fn spec_is_digit(c: char) -> bool {
    '0' <= c <= '9'
}

/// The decimal digit character for a value below ten.
pub open spec fn spec_digit_char(d: int) -> char {
    if d == 0 { '0' } else if d == 1 { '1' } else if d == 2 { '2' } else if d == 3 { '3' }
    else if d == 4 { '4' } else if d == 5 { '5' } else if d == 6 { '6' } else if d == 7 { '7' }
    else if d == 8 { '8' } else { '9' }
}

fn digit_char(d: u64) -> (r: char)
    requires
        d < 10,
    ensures
        r == spec_digit_char(d as int),
{
    if d == 0 { '0' } else if d == 1 { '1' } else if d == 2 { '2' } else if d == 3 { '3' }
    else if d == 4 { '4' } else if d == 5 { '5' } else if d == 6 { '6' } else if d == 7 { '7' }
    else if d == 8 { '8' } else { '9' }
}

/// The lower-case hex digit character for a value below sixteen.
pub open spec fn spec_hex_char(d: int) -> char {
    if d < 10 {
        spec_digit_char(d)
    } else if d == 10 { 'a' } else if d == 11 { 'b' } else if d == 12 { 'c' }
    else if d == 13 { 'd' } else if d == 14 { 'e' } else { 'f' }
}

fn hex_char(d: u32) -> (r: char)
    requires
        d < 16,
    ensures
        r == spec_hex_char(d as int),
{
    if d < 10 {
        digit_char(d as u64)
    } else if d == 10 { 'a' } else if d == 11 { 'b' } else if d == 12 { 'c' }
    else if d == 13 { 'd' } else if d == 14 { 'e' } else { 'f' }
}

/// The value of a hex digit character, upper or lower case.
pub open spec fn spec_hex_val(c: char) -> Option<int> {
    if spec_is_digit(c) {
        Some(c as int - '0' as int)
    } else if 'a' <= c <= 'f' {
        Some(c as int - 'a' as int + 10)
    } else if 'A' <= c <= 'F' {
        Some(c as int - 'A' as int + 10)
    } else {
        None
    }
}

fn hex_val(c: char) -> (r: Option<u32>)
    ensures
        match r {
            Some(v) => spec_hex_val(c) == Some(v as int) && v < 16,
            None => spec_hex_val(c) is None,
        },
{
    if '0' <= c && c <= '9' {
        Some(c as u32 - '0' as u32)
    } else if 'a' <= c && c <= 'f' {
        Some(c as u32 - 'a' as u32 + 10)
    } else if 'A' <= c && c <= 'F' {
        Some(c as u32 - 'A' as u32 + 10)
    } else {
        None
    }
}

/// Relies on char::from_u32: it succeeds exactly on scalar values, and the
/// returned character has that scalar value.
#[verifier::external_body]
fn char_from_u32(code: u32) -> (r: Option<char>)
    ensures
        r is Some <==> (code < 0xD800 || (0xE000 <= code && code <= 0x10FFFF)),
        match r {
            Some(c) => c as u32 == code,
            None => true,
        },
{
    char::from_u32(code)
}

// ---------------------------------------------------------------------------
// Numbers
// ---------------------------------------------------------------------------
/// The decimal spelling of a number.
pub open spec fn spec_u64_digits(n: nat) -> Seq<char>
    decreases n,
{
    if n < 10 {
        seq![spec_digit_char(n as int)]
    } else {
        spec_u64_digits(n / 10).push(spec_digit_char((n % 10) as int))
    }
}

/// The digit characters carry their value.
proof fn lemma_digit_char_val(d: int)
    requires
        0 <= d < 10,
    ensures
        '0' <= spec_digit_char(d) <= '9',
        spec_digit_char(d) as int - '0' as int == d,
{
}

/// The decimal spelling has only digits and spells the number back.
pub proof fn lemma_u64_digits(n: nat)
    ensures
        spec_all_digits(spec_u64_digits(n)),
        spec_digits_value(spec_u64_digits(n)) == n,
    decreases n,
{
    if n < 10 {
        let d = spec_u64_digits(n);
        lemma_digit_char_val(n as int);
        assert(d[0] == spec_digit_char(n as int));
        assert(d.drop_last() =~= Seq::<char>::empty());
        assert(spec_digits_value(d) == (spec_digits_value(d.drop_last()) * 10 + (d.last() as int
            - '0' as int)) as nat);
    } else {
        lemma_u64_digits(n / 10);
        let d = spec_u64_digits(n);
        let p = spec_u64_digits(n / 10);
        assert(d == p.push(spec_digit_char((n % 10) as int)));
        assert(d.drop_last() =~= p);
        lemma_digit_char_val((n % 10) as int);
        assert(d.last() == spec_digit_char((n % 10) as int));
        assert(d.last() as int - '0' as int == n % 10);
        assert(spec_digits_value(d) == spec_digits_value(p) * 10 + (n % 10));
        assert(spec_digits_value(p) * 10 + n % 10 == n);
        assert forall|i: int| 0 <= i < d.len() implies '0' <= #[trigger] d[i] <= '9' by {
            if i < p.len() {
                assert(d[i] == p[i]);
            }
        }
    }
}

/// Writes the decimal spelling of `n`.
pub fn u64_to_string(n: u64) -> (r: String)
    ensures
        r@ == spec_u64_digits(n as nat),
    decreases n,
{
    if n < 10 {
        let mut out = String::new();
        push_char(&mut out, digit_char(n));
        proof {
            assert(out@ =~= seq![spec_digit_char(n as int)]);
        }
        out
    } else {
        let mut out = u64_to_string(n / 10);
        push_char(&mut out, digit_char(n % 10));
        out
    }
}

/// How many leading digit characters the suffix has.
pub open spec fn spec_digit_run(s: Seq<char>) -> int
    decreases s.len(),
{
    if s.len() > 0 && spec_is_digit(s[0]) {
        1 + spec_digit_run(s.drop_first())
    } else {
        0
    }
}

/// A decimal number token: the value of the maximal leading digit run,
/// which must be non-empty and fit in 64 bits, and the suffix after it.
pub open spec fn spec_parse_number(s: Seq<char>) -> Option<(nat, Seq<char>)> {
    let k = spec_digit_run(s);
    if k == 0 {
        None
    } else if spec_digits_value(s.take(k)) < 0x1_0000_0000_0000_0000 {
        Some((spec_digits_value(s.take(k)), s.skip(k)))
    } else {
        None
    }
}

/// The position of the first non-digit at or after `pos`.
fn digit_run_end(s: &str, pos: usize) -> (end: usize)
    requires
        pos <= s@.len(),
    ensures
        pos <= end <= s@.len(),
        forall|j: int| pos <= j < end ==> spec_is_digit(#[trigger] s@[j]),
        end < s@.len() ==> !spec_is_digit(s@[end as int]),
    decreases s@.len() - pos,
{
    let len = s.unicode_len();
    if pos >= len {
        return pos;
    }
    let c = s.get_char(pos);
    if !('0' <= c && c <= '9') {
        return pos;
    }
    digit_run_end(s, pos + 1)
}

/// Reads a decimal number token at `pos`.
pub fn parse_number(s: &str, pos: usize) -> (r: Option<(u64, usize)>)
    requires
        pos <= s@.len(),
    ensures
        match r {
            Some((v, next)) => pos <= next <= s@.len() && spec_parse_number(s@.skip(pos as int))
                == Some((v as nat, s@.skip(next as int))),
            None => spec_parse_number(s@.skip(pos as int)) is None,
        },
{
    let ghost suffix = s@.skip(pos as int);
    let end = digit_run_end(s, pos);
    proof {
        assert forall|j: int| 0 <= j < end - pos implies spec_is_digit(#[trigger] suffix[j]) by {
            assert(suffix[j] == s@[pos + j]);
        }
        if end < s@.len() {
            assert(suffix[end - pos] == s@[end as int]);
        }
        lemma_digit_run_agrees(suffix, end - pos);
    }
    if end == pos {
        return None;
    }
    let tok = substr(s, pos, end);
    proof {
        assert(tok@ =~= suffix.take(end - pos));
        assert(s@.skip(end as int) =~= suffix.skip(end - pos));
    }
    match crate::strutil::parse_u64(tok.as_str()) {
        Some(v) => Some((v, end)),
        None => None,
    }
}

/// A run that is all digits and ends at a non-digit (or the end) is the
/// maximal run.
proof fn lemma_digit_run_agrees(s: Seq<char>, k: int)
    requires
        0 <= k <= s.len(),
        forall|j: int| 0 <= j < k ==> spec_is_digit(#[trigger] s[j]),
        k < s.len() ==> !spec_is_digit(s[k]),
    ensures
        spec_digit_run(s) == k,
    decreases s.len(),
{
    if k == 0 {
    } else {
        assert(spec_is_digit(s[0]));
        lemma_digit_run_agrees(s.drop_first(), k - 1);
    }
}

/// The spelling of a number followed by anything that does not start with
/// a digit parses back to that number.
pub proof fn lemma_parse_number_roundtrip(n: nat, t: Seq<char>)
    requires
        n < 0x1_0000_0000_0000_0000,
        t.len() == 0 || !spec_is_digit(t[0]),
    ensures
        spec_parse_number(spec_u64_digits(n) + t) == Some((n, t)),
{
    let d = spec_u64_digits(n);
    let s = d + t;
    lemma_u64_digits(n);
    assert forall|j: int| 0 <= j < d.len() implies spec_is_digit(#[trigger] s[j]) by {
        assert(s[j] == d[j]);
    }
    if d.len() < s.len() {
        assert(s[d.len() as int] == t[0]);
    }
    lemma_digit_run_agrees(s, d.len() as int);
    assert(s.take(d.len() as int) =~= d);
    assert(s.skip(d.len() as int) =~= t);
}

// ---------------------------------------------------------------------------
// Strings
// ---------------------------------------------------------------------------
/// How one character is written inside a JSON string: quotes and
/// backslashes are escaped, control characters become `\u00xx`, everything
/// else stands for itself.
pub open spec fn spec_escape_char(c: char) -> Seq<char> {
    if c == '"' {
        seq!['\\', '"']
    } else if c == '\\' {
        seq!['\\', '\\']
    } else if (c as u32) < 32 {
        seq!['\\', 'u', '0', '0', spec_hex_char((c as u32 / 16) as int), spec_hex_char(
            (c as u32 % 16) as int,
        )]
    } else {
        seq![c]
    }
}

/// The escaped body of a JSON string.
pub open spec fn spec_escape(s: Seq<char>) -> Seq<char>
    decreases s.len(),
{
    if s.len() == 0 {
        Seq::empty()
    } else {
        spec_escape_char(s.first()) + spec_escape(s.drop_first())
    }
}

/// A whole JSON string token, quotes included.
pub open spec fn spec_string_token(s: Seq<char>) -> Seq<char> {
    seq!['"'] + spec_escape(s) + seq!['"']
}

proof fn lemma_escape_take_step(s: Seq<char>, i: int)
    requires
        0 <= i < s.len(),
    ensures
        spec_escape(s.take(i + 1)) == spec_escape(s.take(i)) + spec_escape_char(s[i]),
    decreases i,
{
    if i == 0 {
        assert(s.take(1).first() == s[0]);
        assert(s.take(1).drop_first() =~= Seq::<char>::empty());
        assert(s.take(0) =~= Seq::<char>::empty());
        assert(spec_escape(s.take(1)) == spec_escape_char(s.take(1).first()) + spec_escape(
            s.take(1).drop_first(),
        ));
        assert(spec_escape_char(s[0]) + Seq::<char>::empty() =~= spec_escape_char(s[0]));
        assert(Seq::<char>::empty() + spec_escape_char(s[0]) =~= spec_escape_char(s[0]));
    } else {
        lemma_escape_take_step(s.drop_first(), i - 1);
        assert(s.take(i + 1).first() == s[0]);
        assert(s.take(i + 1).drop_first() =~= s.drop_first().take(i));
        assert(s.take(i).first() == s[0]);
        assert(s.take(i).drop_first() =~= s.drop_first().take(i - 1));
        assert(s.drop_first()[i - 1] == s[i]);
        assert(spec_escape_char(s[0]) + (spec_escape(s.drop_first().take(i - 1))
            + spec_escape_char(s[i])) =~= (spec_escape_char(s[0]) + spec_escape(
            s.drop_first().take(i - 1),
        )) + spec_escape_char(s[i]));
    }
}

/// Appends a whole JSON string token for `s` to `out`.
pub fn write_string_token(out: &mut String, s: &str)
    ensures
        final(out)@ == old(out)@ + spec_string_token(s@),
{
    let ghost start = out@;
    push_char(out, '"');
    let len = s.unicode_len();
    let mut i: usize = 0;
    while i < len
        invariant
            0 <= i <= len,
            len == s@.len(),
            out@ =~= start + seq!['"'] + spec_escape(s@.take(i as int)),
        decreases len - i,
    {
        let c = s.get_char(i);
        let ghost before = out@;
        if c == '"' {
            out.append("\\\"");
            proof {
                reveal_strlit("\\\"");
                assert(out@ =~= before + spec_escape_char(c));
            }
        } else if c == '\\' {
            out.append("\\\\");
            proof {
                reveal_strlit("\\\\");
                assert(out@ =~= before + spec_escape_char(c));
            }
        } else if (c as u32) < 32 {
            out.append("\\u00");
            push_char(out, hex_char(c as u32 / 16));
            push_char(out, hex_char(c as u32 % 16));
            proof {
                reveal_strlit("\\u00");
                assert(out@ =~= before + spec_escape_char(c));
            }
        } else {
            push_char(out, c);
            proof {
                assert(out@ =~= before + spec_escape_char(c));
            }
        }
        proof {
            lemma_escape_take_step(s@, i as int);
            assert(out@ =~= start + seq!['"'] + spec_escape(s@.take(i + 1)));
        }
        i += 1;
    }
    push_char(out, '"');
    proof {
        assert(s@.take(len as int) =~= s@);
        assert(out@ =~= start + spec_string_token(s@));
    }
}

/// The body of a JSON string: characters until the closing quote, with the
/// escapes this library reads (`\" \\ \/ \b \f \n \r \t` and `\uXXXX` for
/// scalar values), and the suffix after the closing quote.
pub open spec fn spec_parse_content(s: Seq<char>) -> Option<(Seq<char>, Seq<char>)>
    decreases s.len(), 0int,
{
    if s.len() == 0 {
        None
    } else if s[0] == '"' {
        Some((Seq::empty(), s.drop_first()))
    } else if s[0] == '\\' {
        if s.len() < 2 {
            None
        } else {
            let e = s[1];
            if e == '"' || e == '\\' || e == '/' {
                spec_cons_content(e, s.skip(2))
            } else if e == 'b' {
                spec_cons_content('\u{8}', s.skip(2))
            } else if e == 'f' {
                spec_cons_content('\u{c}', s.skip(2))
            } else if e == 'n' {
                spec_cons_content('\n', s.skip(2))
            } else if e == 'r' {
                spec_cons_content('\r', s.skip(2))
            } else if e == 't' {
                spec_cons_content('\t', s.skip(2))
            } else if e == 'u' {
                if s.len() < 6 {
                    None
                } else {
                    match (spec_hex_val(s[2]), spec_hex_val(s[3]), spec_hex_val(s[4]), spec_hex_val(
                        s[5],
                    )) {
                        (Some(h0), Some(h1), Some(h2), Some(h3)) => {
                            let code = 4096 * h0 + 256 * h1 + 16 * h2 + h3;
                            if code < 0xD800 || code >= 0xE000 {
                                spec_cons_content((code as u32) as char, s.skip(6))
                            } else {
                                None
                            }
                        },
                        _ => None,
                    }
                }
            } else {
                None
            }
        }
    } else if (s[0] as u32) < 32 {
        None
    } else {
        spec_cons_content(s[0], s.drop_first())
    }
}

/// Prepends one decoded character to the rest of the parsed body.
pub open spec fn spec_cons_content(c: char, rest: Seq<char>) -> Option<(Seq<char>, Seq<char>)>
    decreases rest.len(), 1int,
{
    match spec_parse_content(rest) {
        None => None,
        Some((str, rem)) => Some((seq![c] + str, rem)),
    }
}

/// A whole JSON string token: an opening quote, the body, the closing
/// quote.
pub open spec fn spec_parse_string(s: Seq<char>) -> Option<(Seq<char>, Seq<char>)> {
    if s.len() > 0 && s[0] == '"' {
        spec_parse_content(s.drop_first())
    } else {
        None
    }
}

proof fn string_of_content(s: Seq<char>, pos: int)
    requires
        0 <= pos < s.len(),
        s[pos] == '"',
    ensures
        spec_parse_string(s.skip(pos)) == spec_parse_content(s.skip(pos + 1)),
{
    assert(s.skip(pos)[0] == s[pos]);
    assert(s.skip(pos).drop_first() =~= s.skip(pos + 1));
}

/// Reads a JSON string token at `pos`.
#[verifier::rlimit(60)]
pub fn parse_string(s: &str, pos: usize) -> (r: Option<(String, usize)>)
    requires
        pos <= s@.len(),
    ensures
        match r {
            Some((v, next)) => pos <= next <= s@.len() && spec_parse_string(s@.skip(pos as int))
                == Some((v@, s@.skip(next as int))),
            None => spec_parse_string(s@.skip(pos as int)) is None,
        },
{
    let len = s.unicode_len();
    if pos >= len || s.get_char(pos) != '"' {
        proof {
            if pos < s@.len() {
                assert(s@.skip(pos as int)[0] == s@[pos as int]);
            }
        }
        return None;
    }
    proof {
        assert(s@.skip(pos as int)[0] == s@[pos as int]);
        assert(s@.skip(pos as int).drop_first() =~= s@.skip(pos + 1));
    }
    let ghost whole = s@.skip(pos + 1);
    let mut out = String::new();
    let mut i = pos + 1;
    proof {
        content_invariant_init(whole);
    }
    loop
        invariant
            pos + 1 <= i <= len,
            len == s@.len(),
            pos < len,
            s@[pos as int] == '"',
            whole == s@.skip(pos + 1),
            content_invariant(whole, s@.skip(i as int), out@),
        decreases len - i,
    {
        if i >= len {
            proof {
                assert(s@.skip(i as int).len() == 0);
                string_of_content(s@, pos as int);
            }
            return None;
        }
        let c = s.get_char(i);
        let ghost cur = s@.skip(i as int);
        proof {
            assert(cur[0] == s@[i as int]);
        }
        if c == '"' {
            proof {
                assert(cur.drop_first() =~= s@.skip(i + 1));
                assert(out@ + Seq::<char>::empty() =~= out@);
                string_of_content(s@, pos as int);
            }
            return Some((out, i + 1));
        } else if c == '\\' {
            if len - i < 2 {
                proof {
                    assert(cur.len() < 2);
                    string_of_content(s@, pos as int);
                }
                return None;
            }
            let e = s.get_char(i + 1);
            proof {
                assert(cur[1] == s@[i + 1]);
            }
            let decoded: char = if e == '"' || e == '\\' || e == '/' {
                e
            } else if e == 'b' {
                '\u{8}'
            } else if e == 'f' {
                '\u{c}'
            } else if e == 'n' {
                '\n'
            } else if e == 'r' {
                '\r'
            } else if e == 't' {
                '\t'
            } else if e == 'u' {
                if len - i < 6 {
                    proof {
                        assert(cur.len() < 6);
                        string_of_content(s@, pos as int);
                    }
                    return None;
                }
                let h0 = hex_val(s.get_char(i + 2));
                let h1 = hex_val(s.get_char(i + 3));
                let h2 = hex_val(s.get_char(i + 4));
                let h3 = hex_val(s.get_char(i + 5));
                proof {
                    assert(cur[2] == s@[i + 2]);
                    assert(cur[3] == s@[i + 3]);
                    assert(cur[4] == s@[i + 4]);
                    assert(cur[5] == s@[i + 5]);
                }
                match (h0, h1, h2, h3) {
                    (Some(h0), Some(h1), Some(h2), Some(h3)) => {
                        let code: u32 = 4096 * h0 + 256 * h1 + 16 * h2 + h3;
                        match char_from_u32(code) {
                            Some(decoded) => {
                                proof {
                                    vstd::utf8::char_u32_cast(decoded, code);
                                    assert(cur.skip(6) =~= s@.skip(i + 6));
                                    assert(spec_parse_content(cur) == spec_cons_content(
                                        decoded,
                                        s@.skip(i + 6),
                                    ));
                                    lemma_content_step(whole, cur, s@.skip(i + 6), out@, decoded);
                                }
                                push_char(&mut out, decoded);
                                i += 6;
                                continue ;
                            },
                            None => {
                                proof {
                                    string_of_content(s@, pos as int);
                                }
                                return None;
                            },
                        }
                    },
                    _ => {
                        proof {
                            string_of_content(s@, pos as int);
                        }
                        return None;
                    },
                }
            } else {
                proof {
                    string_of_content(s@, pos as int);
                }
                return None;
            };
            proof {
                assert(cur.skip(2) =~= s@.skip(i + 2));
                assert(spec_parse_content(cur) == spec_cons_content(decoded, s@.skip(i + 2)));
                lemma_content_step(whole, cur, s@.skip(i + 2), out@, decoded);
            }
            push_char(&mut out, decoded);
            i += 2;
        } else if (c as u32) < 32 {
            proof {
                string_of_content(s@, pos as int);
            }
            return None;
        } else {
            proof {
                assert(cur.drop_first() =~= s@.skip(i + 1));
                assert(spec_parse_content(cur) == spec_cons_content(c, s@.skip(i + 1)));
                lemma_content_step(whole, cur, s@.skip(i + 1), out@, c);
            }
            push_char(&mut out, c);
            i += 1;
        }
    }
}

/// The loop relation of `parse_string`: what the whole body parses to is
/// what the remaining suffix parses to, prefixed by the characters decoded
/// so far.
pub open spec fn content_invariant(whole: Seq<char>, cur: Seq<char>, out: Seq<char>) -> bool {
    match spec_parse_content(cur) {
        Some((str, rem)) => spec_parse_content(whole) == Some((out + str, rem)),
        None => spec_parse_content(whole) is None,
    }
}

proof fn content_invariant_init(whole: Seq<char>)
    ensures
        content_invariant(whole, whole, Seq::empty()),
{
    match spec_parse_content(whole) {
        Some((str, rem)) => {
            assert(Seq::<char>::empty() + str =~= str);
        },
        None => {},
    }
}

proof fn lemma_content_step(
    whole: Seq<char>,
    cur: Seq<char>,
    nxt: Seq<char>,
    out: Seq<char>,
    c: char,
)
    requires
        spec_parse_content(cur) == spec_cons_content(c, nxt),
        content_invariant(whole, cur, out),
    ensures
        content_invariant(whole, nxt, out.push(c)),
{
    match spec_parse_content(nxt) {
        Some((str, rem)) => {
            assert(out + (seq![c] + str) =~= out.push(c) + str);
        },
        None => {},
    }
}

// ---------------------------------------------------------------------------
// Fixed tokens
// ---------------------------------------------------------------------------
/// Consumes the exact token `tok` at the head of the suffix.
pub open spec fn spec_expect(tok: Seq<char>, s: Seq<char>) -> Option<Seq<char>> {
    if spec_starts_with(s, tok) {
        Some(s.skip(tok.len() as int))
    } else {
        None
    }
}

/// Reads the exact token `tok` at `pos`.
pub fn expect(s: &str, pos: usize, tok: &str) -> (r: Option<usize>)
    requires
        pos <= s@.len(),
    ensures
        match r {
            Some(next) => pos <= next <= s@.len() && next == pos + tok@.len() && spec_expect(
                tok@,
                s@.skip(pos as int),
            ) == Some(s@.skip(next as int)),
            None => spec_expect(tok@, s@.skip(pos as int)) is None,
        },
{
    let len = s.unicode_len();
    let tlen = tok.unicode_len();
    if len - pos < tlen {
        proof {
            assert(!spec_starts_with(s@.skip(pos as int), tok@));
        }
        return None;
    }
    if crate::strutil::match_at(s, tok, pos) {
        proof {
            assert(s@.skip(pos as int).subrange(0, tok@.len() as int) =~= s@.subrange(
                pos as int,
                pos + tok@.len(),
            ));
            assert(s@.skip(pos as int).skip(tok@.len() as int) =~= s@.skip(pos + tok@.len()));
        }
        Some(pos + tlen)
    } else {
        proof {
            assert(s@.skip(pos as int).subrange(0, tok@.len() as int) =~= s@.subrange(
                pos as int,
                pos + tok@.len(),
            ));
        }
        None
    }
}

/// A token at the head of itself plus anything parses and leaves exactly
/// that remainder.
pub proof fn lemma_expect_roundtrip(tok: Seq<char>, t: Seq<char>)
    ensures
        spec_expect(tok, tok + t) == Some(t),
{
    assert((tok + t).subrange(0, tok.len() as int) =~= tok);
    assert((tok + t).skip(tok.len() as int) =~= t);
}

/// The escaped body of `s` followed by a closing quote and `t` parses back
/// to `s` with `t` as the remainder.
proof fn lemma_parse_content_roundtrip(s: Seq<char>, t: Seq<char>)
    ensures
        spec_parse_content(spec_escape(s) + seq!['"'] + t) == Some((s, t)),
    decreases s.len(),
{
    if s.len() == 0 {
        assert(spec_escape(s) + seq!['"'] + t =~= seq!['"'] + t);
        let input = seq!['"'] + t;
        assert(input[0] == '"');
        assert(input.drop_first() =~= t);
    } else {
        lemma_parse_content_roundtrip(s.drop_first(), t);
        let c = s.first();
        let rest = spec_escape(s.drop_first()) + seq!['"'] + t;
        let input = spec_escape(s) + seq!['"'] + t;
        assert(input =~= spec_escape_char(c) + rest);
        if c == '"' {
            assert(input[0] == '\\');
            assert(input[1] == '"');
            assert(input.skip(2) =~= rest);
            assert(seq![c] + s.drop_first() =~= s);
        } else if c == '\\' {
            assert(input[0] == '\\');
            assert(input[1] == '\\');
            assert(input.skip(2) =~= rest);
            assert(seq![c] + s.drop_first() =~= s);
        } else if (c as u32) < 32 {
            assert(input[0] == '\\');
            assert(input[1] == 'u');
            assert(input[2] == '0');
            assert(input[3] == '0');
            assert(input[4] == spec_hex_char((c as u32 / 16) as int));
            assert(input[5] == spec_hex_char((c as u32 % 16) as int));
            let h0 = spec_hex_val(input[2]).unwrap();
            let h1 = spec_hex_val(input[3]).unwrap();
            let h2 = spec_hex_val(input[4]).unwrap();
            let h3 = spec_hex_val(input[5]).unwrap();
            assert(h0 == 0 && h1 == 0);
            lemma_hex_char_val((c as u32 / 16) as int);
            lemma_hex_char_val((c as u32 % 16) as int);
            assert(h2 == c as u32 / 16 && h3 == c as u32 % 16);
            let code = 4096 * h0 + 256 * h1 + 16 * h2 + h3;
            assert(code == c as u32) by {
                assert(16 * (c as u32 / 16) + c as u32 % 16 == c as u32);
            }
            assert(code < 0xD800);
            vstd::utf8::char_u32_cast(c, c as u32);
            assert((code as u32) as char == c);
            assert(input.skip(6) =~= rest);
            assert(seq![c] + s.drop_first() =~= s);
        } else {
            assert(input[0] == c);
            assert(input.drop_first() =~= rest);
            assert(seq![c] + s.drop_first() =~= s);
        }
    }
}

/// Hex digits written by the writer decode to their value.
proof fn lemma_hex_char_val(d: int)
    requires
        0 <= d < 16,
    ensures
        spec_hex_val(spec_hex_char(d)) == Some(d),
{
}

/// A whole string token followed by `t` parses back to the string with `t`
/// as the remainder.
pub proof fn lemma_parse_string_roundtrip(s: Seq<char>, t: Seq<char>)
    ensures
        spec_parse_string(spec_string_token(s) + t) == Some((s, t)),
{
    let input = spec_string_token(s) + t;
    assert(input[0] == '"');
    assert(input.drop_first() =~= spec_escape(s) + seq!['"'] + t);
    lemma_parse_content_roundtrip(s, t);
}

// ---------------------------------------------------------------------------
// Whitespace
// ---------------------------------------------------------------------------
/// The JSON whitespace characters.
pub open spec fn spec_is_ws(c: char) -> bool {
    c == ' ' || c == '\t' || c == '\n' || c == '\r'
}

/// The suffix after any leading JSON whitespace.
pub open spec fn spec_skip_ws(s: Seq<char>) -> Seq<char>
    decreases s.len(),
{
    if s.len() > 0 && spec_is_ws(s[0]) {
        spec_skip_ws(s.drop_first())
    } else {
        s
    }
}

/// Advances `pos` past any JSON whitespace.
pub fn skip_ws(s: &str, pos: usize) -> (r: usize)
    requires
        pos <= s@.len(),
    ensures
        pos <= r <= s@.len(),
        s@.skip(r as int) == spec_skip_ws(s@.skip(pos as int)),
    decreases s@.len() - pos,
{
    let len = s.unicode_len();
    if pos >= len {
        proof {
            assert(s@.skip(pos as int).len() == 0);
        }
        return pos;
    }
    let c = s.get_char(pos);
    proof {
        assert(s@.skip(pos as int)[0] == s@[pos as int]);
        assert(s@.skip(pos as int).drop_first() =~= s@.skip(pos + 1));
    }
    if c == ' ' || c == '\t' || c == '\n' || c == '\r' {
        skip_ws(s, pos + 1)
    } else {
        pos
    }
}

} // verus!
