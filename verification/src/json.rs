//! JSON framing for the service.
//!
//! The service treats JSON as its wire format: request bodies are
//! validated against the JSON grammar, the registry configuration is
//! read out of JSON text, and replies are framed as JSON text. The
//! module works on sequences of characters; the grammar is stated by
//! the `sp_*` specification functions, and each executable function is
//! proved to follow them exactly. Nesting is bounded by `MAX_DEPTH`, so
//! deeply nested input is rejected rather than exhausting the stack.

use vstd::prelude::*;

verus! {

/// Containers may nest this deep before the text is rejected.
pub const MAX_DEPTH: u32 = 128;

// ---------------------------------------------------------------------------
// Character classes
// ---------------------------------------------------------------------------

/// JSON insignificant whitespace.
pub open spec fn sp_is_ws(c: char) -> bool {
    c == ' ' || c == '\t' || c == '\n' || c == '\r'
}

/// An ASCII decimal digit.
pub open spec fn sp_is_digit(c: char) -> bool {
    48 <= c as u32 <= 57
}

/// The numeric value of a hexadecimal digit, if `c` is one.
pub open spec fn sp_hex_val(c: char) -> Option<u32> {
    let u = c as u32;
    if 48 <= u <= 57 {
        Some((u - 48) as u32)
    } else if 97 <= u <= 102 {
        Some((u - 87) as u32)
    } else if 65 <= u <= 70 {
        Some((u - 55) as u32)
    } else {
        None
    }
}

/// Number of whitespace characters at and after `i`.
pub open spec fn sp_ws_len(s: Seq<char>, i: int) -> nat
    decreases s.len() - i,
{
    if 0 <= i < s.len() && sp_is_ws(s[i]) {
        1 + sp_ws_len(s, i + 1)
    } else {
        0
    }
}

/// First index at or after `i` holding a significant character.
pub open spec fn sp_skip_ws(s: Seq<char>, i: int) -> int {
    i + sp_ws_len(s, i)
}

// ---------------------------------------------------------------------------
// Specification of the grammar
// ---------------------------------------------------------------------------

/// The four-digit hexadecimal code of a `\u` escape starting at `i`.
pub open spec fn sp_hex4(s: Seq<char>, i: int) -> Option<u32> {
    if i + 4 <= s.len() {
        match (sp_hex_val(s[i]), sp_hex_val(s[i + 1]), sp_hex_val(s[i + 2]), sp_hex_val(
            s[i + 3],
        )) {
            (Some(a), Some(b), Some(c), Some(d)) => Some(
                (a * 4096 + b * 256 + c * 16 + d) as u32,
            ),
            _ => None,
        }
    } else {
        None
    }
}

/// Decodes the escape whose introducing backslash stands just before
/// `i`: the decoded character and the number of characters consumed
/// from `i` on. A high surrogate must be completed by a following
/// low-surrogate escape, as in RFC 8259.
pub open spec fn sp_escape(s: Seq<char>, i: int) -> Option<(char, nat)> {
    if i >= s.len() || i < 0 {
        None
    } else {
        let c = s[i];
        if c == '"' || c == '\\' || c == '/' {
            Some((c, 1))
        } else if c == 'b' {
            Some(('\u{8}', 1))
        } else if c == 'f' {
            Some(('\u{c}', 1))
        } else if c == 'n' {
            Some(('\n', 1))
        } else if c == 'r' {
            Some(('\r', 1))
        } else if c == 't' {
            Some(('\t', 1))
        } else if c == 'u' {
            match sp_hex4(s, i + 1) {
                None => None,
                Some(v) => if v < 0xD800 || v > 0xDFFF {
                    Some((v as char, 5))
                } else if v < 0xDC00 {
                    if i + 7 <= s.len() && s[i + 5] == '\\' && s[i + 6] == 'u' {
                        match sp_hex4(s, i + 7) {
                            None => None,
                            Some(w) => if 0xDC00 <= w <= 0xDFFF {
                                Some(
                                    (
                                        (0x10000 + (v - 0xD800) * 0x400 + (w - 0xDC00)) as char,
                                        11,
                                    ),
                                )
                            } else {
                                None
                            },
                        }
                    } else {
                        None
                    }
                } else {
                    None
                },
            }
        } else {
            None
        }
    }
}

/// The body of a string literal from `i` (just after the opening
/// quote): the decoded characters and the count consumed, closing
/// quote included.
pub open spec fn sp_string_body(s: Seq<char>, i: int) -> Option<(Seq<char>, nat)>
    decreases s.len() - i,
{
    if i >= s.len() || i < 0 {
        None
    } else if s[i] == '"' {
        Some((Seq::empty(), 1))
    } else if s[i] == '\\' {
        match sp_escape(s, i + 1) {
            None => None,
            Some((c, used)) => match sp_string_body(s, i + 1 + used) {
                None => None,
                Some((rest, used2)) => Some((seq![c] + rest, 1 + used + used2)),
            },
        }
    } else if s[i] as u32 >= 0x20 {
        match sp_string_body(s, i + 1) {
            None => None,
            Some((rest, used2)) => Some((seq![s[i]] + rest, 1 + used2)),
        }
    } else {
        None
    }
}

/// Length of the digit run at `i`.
pub open spec fn sp_digits_len(s: Seq<char>, i: int) -> nat
    decreases s.len() - i,
{
    if 0 <= i < s.len() && sp_is_digit(s[i]) {
        1 + sp_digits_len(s, i + 1)
    } else {
        0
    }
}

/// A JSON number starting at `i` (at its sign or first digit): the
/// count of characters it spans.
pub open spec fn sp_number_len(s: Seq<char>, i: int) -> Option<nat> {
    if i < 0 || i >= s.len() {
        None
    } else {
        let sign: nat = if s[i] == '-' {
            1
        } else {
            0
        };
        let p = i + sign;
        let ilen = sp_digits_len(s, p);
        if ilen == 0 {
            None
        } else if p < s.len() && s[p] == '0' && ilen != 1 {
            None
        } else {
            let q = p + ilen;
            let flen: Option<nat> = if q < s.len() && s[q] == '.' {
                if sp_digits_len(s, q + 1) == 0 {
                    None
                } else {
                    Some(1 + sp_digits_len(s, q + 1))
                }
            } else {
                Some(0)
            };
            match flen {
                None => None,
                Some(fl) => {
                    let r = q + fl;
                    if r < s.len() && (s[r] == 'e' || s[r] == 'E') {
                        let es: nat = if r + 1 < s.len() && (s[r + 1] == '+' || s[r + 1] == '-') {
                            1
                        } else {
                            0
                        };
                        let el = sp_digits_len(s, r + 1 + es);
                        if el == 0 {
                            None
                        } else {
                            Some(sign + ilen + fl + 1 + es + el)
                        }
                    } else {
                        Some(sign + ilen + fl)
                    }
                },
            }
        }
    }
}

/// A JSON value starting at the significant character at `i`:
/// the count of characters it spans. `depth` bounds container nesting.
pub open spec fn sp_value_len(s: Seq<char>, i: int, depth: int) -> Option<nat>
    decreases s.len() - i, 0int,
{
    if i < 0 || i >= s.len() {
        None
    } else {
        let c = s[i];
        if c == '{' {
            if depth <= 0 {
                None
            } else {
                match sp_members_len(s, i + 1, depth - 1) {
                    None => None,
                    Some(u) => Some(1 + u),
                }
            }
        } else if c == '[' {
            if depth <= 0 {
                None
            } else {
                match sp_elements_len(s, i + 1, depth - 1) {
                    None => None,
                    Some(u) => Some(1 + u),
                }
            }
        } else if c == '"' {
            match sp_string_body(s, i + 1) {
                None => None,
                Some((_, u)) => Some(1 + u),
            }
        } else if c == 't' {
            if i + 4 <= s.len() && s[i + 1] == 'r' && s[i + 2] == 'u' && s[i + 3] == 'e' {
                Some(4)
            } else {
                None
            }
        } else if c == 'f' {
            if i + 5 <= s.len() && s[i + 1] == 'a' && s[i + 2] == 'l' && s[i + 3] == 's' && s[i + 4]
                == 'e' {
                Some(5)
            } else {
                None
            }
        } else if c == 'n' {
            if i + 4 <= s.len() && s[i + 1] == 'u' && s[i + 2] == 'l' && s[i + 3] == 'l' {
                Some(4)
            } else {
                None
            }
        } else if c == '-' || sp_is_digit(c) {
            sp_number_len(s, i)
        } else {
            None
        }
    }
}

/// One `"key": value` member whose opening quote stands at `i`:
/// the count of characters it spans.
pub open spec fn sp_member_len(s: Seq<char>, i: int, depth: int) -> Option<nat>
    decreases s.len() - i, 1int,
{
    if 0 <= i < s.len() && s[i] == '"' {
        match sp_string_body(s, i + 1) {
            None => None,
            Some((_, ku)) => {
                let q = i + 1 + ku + sp_ws_len(s, i + 1 + ku);
                if q < s.len() && s[q] == ':' {
                    let r = q + 1 + sp_ws_len(s, q + 1);
                    if r > s.len() {
                        None
                    } else {
                        match sp_value_len(s, r, depth) {
                            None => None,
                            Some(vu) => Some((r - i + vu) as nat),
                        }
                    }
                } else {
                    None
                }
            },
        }
    } else {
        None
    }
}

/// The remainder of an object after a member: the count of characters
/// up to and including the closing brace, starting at `i`.
pub open spec fn sp_members_tail_len(s: Seq<char>, i: int, depth: int) -> Option<nat>
    decreases s.len() - i, 2int,
{
    if i < 0 {
        None
    } else {
        let j = i + sp_ws_len(s, i);
        if j >= s.len() {
            None
        } else if s[j] == '}' {
            Some((j + 1 - i) as nat)
        } else if s[j] == ',' {
            let k = j + 1 + sp_ws_len(s, j + 1);
            if k >= s.len() {
                None
            } else {
                match sp_member_len(s, k, depth) {
                    None => None,
                    Some(mu) => if k + mu > s.len() {
                        None
                    } else {
                        match sp_members_tail_len(s, k + mu, depth) {
                            None => None,
                            Some(tu) => Some((k + mu + tu - i) as nat),
                        }
                    },
                }
            }
        } else {
            None
        }
    }
}

/// An object body starting just after its opening brace at `i`: the
/// count of characters up to and including the closing brace.
pub open spec fn sp_members_len(s: Seq<char>, i: int, depth: int) -> Option<nat>
    decreases s.len() - i, 3int,
{
    if i < 0 {
        None
    } else {
        let j = i + sp_ws_len(s, i);
        if j >= s.len() {
            None
        } else if s[j] == '}' {
            Some((j + 1 - i) as nat)
        } else {
            match sp_member_len(s, j, depth) {
                None => None,
                Some(mu) => if j + mu > s.len() {
                    None
                } else {
                    match sp_members_tail_len(s, j + mu, depth) {
                        None => None,
                        Some(tu) => Some((j + mu + tu - i) as nat),
                    }
                },
            }
        }
    }
}

/// The remainder of an array after an element: the count of characters
/// up to and including the closing bracket, starting at `i`.
pub open spec fn sp_elements_tail_len(s: Seq<char>, i: int, depth: int) -> Option<nat>
    decreases s.len() - i, 2int,
{
    if i < 0 {
        None
    } else {
        let j = i + sp_ws_len(s, i);
        if j >= s.len() {
            None
        } else if s[j] == ']' {
            Some((j + 1 - i) as nat)
        } else if s[j] == ',' {
            let k = j + 1 + sp_ws_len(s, j + 1);
            if k >= s.len() {
                None
            } else {
                match sp_value_len(s, k, depth) {
                    None => None,
                    Some(vu) => if k + vu > s.len() {
                        None
                    } else {
                        match sp_elements_tail_len(s, k + vu, depth) {
                            None => None,
                            Some(tu) => Some((k + vu + tu - i) as nat),
                        }
                    },
                }
            }
        } else {
            None
        }
    }
}

/// An array body starting just after its opening bracket at `i`: the
/// count of characters up to and including the closing bracket.
pub open spec fn sp_elements_len(s: Seq<char>, i: int, depth: int) -> Option<nat>
    decreases s.len() - i, 3int,
{
    if i < 0 {
        None
    } else {
        let j = i + sp_ws_len(s, i);
        if j >= s.len() {
            None
        } else if s[j] == ']' {
            Some((j + 1 - i) as nat)
        } else {
            match sp_value_len(s, j, depth) {
                None => None,
                Some(vu) => if j + vu > s.len() {
                    None
                } else {
                    match sp_elements_tail_len(s, j + vu, depth) {
                        None => None,
                        Some(tu) => Some((j + vu + tu - i) as nat),
                    }
                },
            }
        }
    }
}

/// The span of the single top-level value of a JSON text: its first
/// significant index and its character count, if `s` is well-formed
/// with nothing but whitespace around the value.
pub open spec fn sp_text_span(s: Seq<char>) -> Option<(int, nat)> {
    let j = sp_skip_ws(s, 0);
    match sp_value_len(s, j, MAX_DEPTH as int) {
        None => None,
        Some(u) => if sp_skip_ws(s, j + u) == s.len() {
            Some((j, u))
        } else {
            None
        },
    }
}

/// Whether `s` is a well-formed JSON text.
pub open spec fn sp_is_json(s: Seq<char>) -> bool {
    sp_text_span(s) is Some
}

// ---------------------------------------------------------------------------
// Trusted bridges to the standard library
// ---------------------------------------------------------------------------

/// Relies on char::from_u32: every integer below the surrogate range
/// or between it and 0x10FFFF names a scalar value; for those the
/// function returns the character with that code.
#[verifier::external_body]
pub(crate) fn char_of_scalar(v: u32) -> (c: char)
    requires
        v < 0xD800 || (0xDFFF < v && v <= 0x10FFFF),
    ensures
        c as u32 == v,
{
    char::from_u32(v).unwrap()
}

/// Relies on String::push: it appends the given character.
#[verifier::external_body]
pub(crate) fn push_char(s: &mut String, c: char)
    ensures
        final(s)@ == old(s)@.push(c),
{
    s.push(c)
}

/// Relies on String::from_utf8: it succeeds exactly on valid UTF-8
/// and then returns the decoded text.
#[verifier::external_body]
pub(crate) fn string_from_utf8(b: &Vec<u8>) -> (r: Option<String>)
    ensures
        r matches Some(s) ==> vstd::utf8::valid_utf8(b@) && s@ == vstd::utf8::decode_utf8(b@),
        r is None ==> !vstd::utf8::valid_utf8(b@),
{
    String::from_utf8(b.clone()).ok()
}

// ---------------------------------------------------------------------------
// Character and string helpers
// ---------------------------------------------------------------------------

/// The characters of `s`, as a vector.
pub fn str_chars(s: &str) -> (r: Vec<char>)
    ensures
        r@ == s@,
{
    let n: usize = s.unicode_len();
    let mut r: Vec<char> = Vec::new();
    let mut i: usize = 0;
    while i < n
        invariant
            n == s@.len(),
            i <= n,
            r@ == s@.subrange(0, i as int),
        decreases n - i,
    {
        r.push(s.get_char(i));
        i = i + 1;
        proof {
            assert(r@ =~= s@.subrange(0, i as int));
        }
    }
    proof {
        assert(r@ =~= s@);
    }
    r
}

/// The characters of `v`, as a string.
pub fn chars_to_string(v: &Vec<char>) -> (r: String)
    ensures
        r@ == v@,
{
    let mut r: String = String::new();
    let mut i: usize = 0;
    while i < v.len()
        invariant
            i <= v@.len(),
            r@ == v@.subrange(0, i as int),
        decreases v@.len() - i,
    {
        push_char(&mut r, v[i]);
        i = i + 1;
        proof {
            assert(r@ =~= v@.subrange(0, i as int));
        }
    }
    proof {
        assert(r@ =~= v@);
    }
    r
}

/// A copy of `s[a..b]`.
pub fn copy_range(s: &Vec<char>, a: usize, b: usize) -> (r: Vec<char>)
    requires
        a <= b <= s@.len(),
    ensures
        r@ == s@.subrange(a as int, b as int),
{
    let mut r: Vec<char> = Vec::new();
    let mut i: usize = a;
    while i < b
        invariant
            a <= i <= b <= s@.len(),
            r@ == s@.subrange(a as int, i as int),
        decreases b - i,
    {
        r.push(s[i]);
        i = i + 1;
        proof {
            assert(r@ =~= s@.subrange(a as int, i as int));
        }
    }
    r
}

// ---------------------------------------------------------------------------
// The scanner, proved against the grammar
// ---------------------------------------------------------------------------

pub(crate) fn ws_len(s: &Vec<char>, i: usize) -> (r: usize)
    requires
        i <= s@.len(),
    ensures
        r == sp_ws_len(s@, i as int),
        i + r <= s@.len(),
{
    let mut j: usize = i;
    while j < s.len() && (s[j] == ' ' || s[j] == '\t' || s[j] == '\n' || s[j] == '\r')
        invariant
            i <= j <= s@.len(),
            sp_ws_len(s@, i as int) == (j - i) + sp_ws_len(s@, j as int),
        decreases s@.len() - j,
    {
        j = j + 1;
    }
    j - i
}

pub(crate) fn digits_len(s: &Vec<char>, i: usize) -> (r: usize)
    requires
        i <= s@.len(),
    ensures
        r == sp_digits_len(s@, i as int),
        i + r <= s@.len(),
{
    let mut j: usize = i;
    while j < s.len() && (s[j] as u32) >= 48 && (s[j] as u32) <= 57
        invariant
            i <= j <= s@.len(),
            sp_digits_len(s@, i as int) == (j - i) + sp_digits_len(s@, j as int),
        decreases s@.len() - j,
    {
        j = j + 1;
    }
    j - i
}

fn hex_val(c: char) -> (r: Option<u32>)
    ensures
        r == sp_hex_val(c),
{
    let u: u32 = c as u32;
    if 48 <= u && u <= 57 {
        Some(u - 48)
    } else if 97 <= u && u <= 102 {
        Some(u - 87)
    } else if 65 <= u && u <= 70 {
        Some(u - 55)
    } else {
        None
    }
}

fn hex4(s: &Vec<char>, i: usize) -> (r: Option<u32>)
    requires
        i <= s@.len(),
    ensures
        r == sp_hex4(s@, i as int),
        r matches Some(v) ==> v < 0x10000 && i + 4 <= s@.len(),
{
    if s.len() - i >= 4 {
        match (hex_val(s[i]), hex_val(s[i + 1]), hex_val(s[i + 2]), hex_val(s[i + 3])) {
            (Some(a), Some(b), Some(c), Some(d)) => Some(a * 4096 + b * 256 + c * 16 + d),
            _ => None,
        }
    } else {
        None
    }
}

fn escape_seq(s: &Vec<char>, i: usize) -> (r: Option<(char, usize)>)
    requires
        i <= s@.len(),
    ensures
        match r {
            Some((c, u)) => sp_escape(s@, i as int) == Some((c, u as nat)) && 1 <= u && i + u
                <= s@.len(),
            None => sp_escape(s@, i as int) is None,
        },
{
    broadcast use vstd::utf8::char_u32_cast;

    if i >= s.len() {
        return None;
    }
    let c = s[i];
    if c == '"' || c == '\\' || c == '/' {
        Some((c, 1))
    } else if c == 'b' {
        Some(('\u{8}', 1))
    } else if c == 'f' {
        Some(('\u{c}', 1))
    } else if c == 'n' {
        Some(('\n', 1))
    } else if c == 'r' {
        Some(('\r', 1))
    } else if c == 't' {
        Some(('\t', 1))
    } else if c == 'u' {
        match hex4(s, i + 1) {
            None => None,
            Some(v) => {
                if v < 0xD800 || v > 0xDFFF {
                    Some((char_of_scalar(v), 5))
                } else if v < 0xDC00 {
                    if s.len() - i >= 7 && s[i + 5] == '\\' && s[i + 6] == 'u' {
                        match hex4(s, i + 7) {
                            None => None,
                            Some(w) => {
                                if 0xDC00 <= w && w <= 0xDFFF {
                                    let code: u32 = 0x10000 + (v - 0xD800) * 0x400 + (w - 0xDC00);
                                    Some((char_of_scalar(code), 11))
                                } else {
                                    None
                                }
                            },
                        }
                    } else {
                        None
                    }
                } else {
                    None
                }
            },
        }
    } else {
        None
    }
}

/// Scans and decodes a string body from `i`, just after the opening
/// quote; the consumed count includes the closing quote.
pub(crate) fn string_body(s: &Vec<char>, i: usize) -> (r: Option<(Vec<char>, usize)>)
    requires
        i <= s@.len(),
    ensures
        match r {
            Some((d, u)) => sp_string_body(s@, i as int) == Some((d@, u as nat)) && i + u
                <= s@.len(),
            None => sp_string_body(s@, i as int) is None,
        },
{
    let mut acc: Vec<char> = Vec::new();
    let mut j: usize = i;
    loop
        invariant
            i <= j <= s@.len(),
            match sp_string_body(s@, j as int) {
                Some((d, u)) => sp_string_body(s@, i as int) == Some(
                    (acc@ + d, (j - i + u) as nat),
                ),
                None => sp_string_body(s@, i as int) is None,
            },
        decreases s@.len() - j,
    {
        if j >= s.len() {
            return None;
        }
        let c = s[j];
        if c == '"' {
            proof {
                assert(acc@ + Seq::<char>::empty() =~= acc@);
            }
            return Some((acc, j + 1 - i));
        } else if c == '\\' {
            match escape_seq(s, j + 1) {
                None => {
                    return None;
                },
                Some((ch, used)) => {
                    let ghost old_acc = acc@;
                    acc.push(ch);
                    proof {
                        match sp_string_body(s@, (j + 1 + used) as int) {
                            Some((rest, u2)) => {
                                assert(old_acc + (seq![ch] + rest) =~= acc@ + rest);
                            },
                            None => {},
                        }
                    }
                    j = j + 1 + used;
                },
            }
        } else if (c as u32) >= 0x20 {
            let ghost old_acc = acc@;
            acc.push(c);
            proof {
                match sp_string_body(s@, (j + 1) as int) {
                    Some((rest, u2)) => {
                        assert(old_acc + (seq![c] + rest) =~= acc@ + rest);
                    },
                    None => {},
                }
            }
            j = j + 1;
        } else {
            return None;
        }
    }
}

#[verifier::rlimit(100)]
pub(crate) fn number_len(s: &Vec<char>, i: usize) -> (r: Option<usize>)
    requires
        i <= s@.len(),
    ensures
        match r {
            Some(u) => sp_number_len(s@, i as int) == Some(u as nat) && i + u <= s@.len(),
            None => sp_number_len(s@, i as int) is None,
        },
{
    if i >= s.len() {
        return None;
    }
    let sign: usize = if s[i] == '-' {
        1
    } else {
        0
    };
    let p: usize = i + sign;
    let ilen: usize = digits_len(s, p);
    if ilen == 0 {
        return None;
    }
    if s[p] == '0' && ilen != 1 {
        return None;
    }
    let q: usize = p + ilen;
    let fl: usize = if q < s.len() && s[q] == '.' {
        let fd: usize = digits_len(s, q + 1);
        if fd == 0 {
            return None;
        }
        1 + fd
    } else {
        0
    };
    let r0: usize = q + fl;
    if r0 < s.len() && (s[r0] == 'e' || s[r0] == 'E') {
        let es: usize = if r0 + 1 < s.len() && (s[r0 + 1] == '+' || s[r0 + 1] == '-') {
            1
        } else {
            0
        };
        let el: usize = digits_len(s, r0 + 1 + es);
        if el == 0 {
            return None;
        }
        Some(sign + ilen + fl + 1 + es + el)
    } else {
        Some(sign + ilen + fl)
    }
}

pub(crate) fn value_len(s: &Vec<char>, i: usize, depth: u32) -> (r: Option<usize>)
    requires
        i <= s@.len(),
    ensures
        match r {
            Some(u) => sp_value_len(s@, i as int, depth as int) == Some(u as nat) && i + u
                <= s@.len(),
            None => sp_value_len(s@, i as int, depth as int) is None,
        },
    decreases s@.len() - i, 0int,
{
    if i >= s.len() {
        return None;
    }
    let c = s[i];
    if c == '{' {
        if depth == 0 {
            None
        } else {
            match members_len(s, i + 1, depth - 1) {
                None => None,
                Some(u) => Some(1 + u),
            }
        }
    } else if c == '[' {
        if depth == 0 {
            None
        } else {
            match elements_len(s, i + 1, depth - 1) {
                None => None,
                Some(u) => Some(1 + u),
            }
        }
    } else if c == '"' {
        match string_body(s, i + 1) {
            None => None,
            Some((_d, u)) => Some(1 + u),
        }
    } else if c == 't' {
        if s.len() - i >= 4 && s[i + 1] == 'r' && s[i + 2] == 'u' && s[i + 3] == 'e' {
            Some(4)
        } else {
            None
        }
    } else if c == 'f' {
        if s.len() - i >= 5 && s[i + 1] == 'a' && s[i + 2] == 'l' && s[i + 3] == 's' && s[i + 4]
            == 'e' {
            Some(5)
        } else {
            None
        }
    } else if c == 'n' {
        if s.len() - i >= 4 && s[i + 1] == 'u' && s[i + 2] == 'l' && s[i + 3] == 'l' {
            Some(4)
        } else {
            None
        }
    } else if c == '-' || ((c as u32) >= 48 && (c as u32) <= 57) {
        number_len(s, i)
    } else {
        None
    }
}

fn member_len(s: &Vec<char>, i: usize, depth: u32) -> (r: Option<usize>)
    requires
        i <= s@.len(),
    ensures
        match r {
            Some(u) => sp_member_len(s@, i as int, depth as int) == Some(u as nat) && i + u
                <= s@.len(),
            None => sp_member_len(s@, i as int, depth as int) is None,
        },
    decreases s@.len() - i, 1int,
{
    if i >= s.len() || !(s[i] == '"') {
        return None;
    }
    match string_body(s, i + 1) {
        None => None,
        Some((_k, ku)) => {
            let q: usize = i + 1 + ku + ws_len(s, i + 1 + ku);
            if q < s.len() && s[q] == ':' {
                let r0: usize = q + 1 + ws_len(s, q + 1);
                match value_len(s, r0, depth) {
                    None => None,
                    Some(vu) => Some(r0 - i + vu),
                }
            } else {
                None
            }
        },
    }
}

fn members_tail_len(s: &Vec<char>, i: usize, depth: u32) -> (r: Option<usize>)
    requires
        i <= s@.len(),
    ensures
        match r {
            Some(u) => sp_members_tail_len(s@, i as int, depth as int) == Some(u as nat) && i + u
                <= s@.len(),
            None => sp_members_tail_len(s@, i as int, depth as int) is None,
        },
    decreases s@.len() - i, 2int,
{
    let n: usize = s.len();
    let j: usize = i + ws_len(s, i);
    if j >= n {
        None
    } else if s[j] == '}' {
        Some(j + 1 - i)
    } else if s[j] == ',' {
        let k: usize = j + 1 + ws_len(s, j + 1);
        if k >= s.len() {
            return None;
        }
        match member_len(s, k, depth) {
            None => None,
            Some(mu) => match members_tail_len(s, k + mu, depth) {
                None => None,
                Some(tu) => Some(k + mu + tu - i),
            },
        }
    } else {
        None
    }
}

fn members_len(s: &Vec<char>, i: usize, depth: u32) -> (r: Option<usize>)
    requires
        i <= s@.len(),
    ensures
        match r {
            Some(u) => sp_members_len(s@, i as int, depth as int) == Some(u as nat) && i + u
                <= s@.len(),
            None => sp_members_len(s@, i as int, depth as int) is None,
        },
    decreases s@.len() - i, 3int,
{
    let n: usize = s.len();
    let j: usize = i + ws_len(s, i);
    if j >= n {
        None
    } else if s[j] == '}' {
        Some(j + 1 - i)
    } else {
        match member_len(s, j, depth) {
            None => None,
            Some(mu) => match members_tail_len(s, j + mu, depth) {
                None => None,
                Some(tu) => Some(j + mu + tu - i),
            },
        }
    }
}

fn elements_tail_len(s: &Vec<char>, i: usize, depth: u32) -> (r: Option<usize>)
    requires
        i <= s@.len(),
    ensures
        match r {
            Some(u) => sp_elements_tail_len(s@, i as int, depth as int) == Some(u as nat) && i + u
                <= s@.len(),
            None => sp_elements_tail_len(s@, i as int, depth as int) is None,
        },
    decreases s@.len() - i, 2int,
{
    let n: usize = s.len();
    let j: usize = i + ws_len(s, i);
    if j >= n {
        None
    } else if s[j] == ']' {
        Some(j + 1 - i)
    } else if s[j] == ',' {
        let k: usize = j + 1 + ws_len(s, j + 1);
        if k >= s.len() {
            return None;
        }
        match value_len(s, k, depth) {
            None => None,
            Some(vu) => match elements_tail_len(s, k + vu, depth) {
                None => None,
                Some(tu) => Some(k + vu + tu - i),
            },
        }
    } else {
        None
    }
}

fn elements_len(s: &Vec<char>, i: usize, depth: u32) -> (r: Option<usize>)
    requires
        i <= s@.len(),
    ensures
        match r {
            Some(u) => sp_elements_len(s@, i as int, depth as int) == Some(u as nat) && i + u
                <= s@.len(),
            None => sp_elements_len(s@, i as int, depth as int) is None,
        },
    decreases s@.len() - i, 3int,
{
    let n: usize = s.len();
    let j: usize = i + ws_len(s, i);
    if j >= n {
        None
    } else if s[j] == ']' {
        Some(j + 1 - i)
    } else {
        match value_len(s, j, depth) {
            None => None,
            Some(vu) => match elements_tail_len(s, j + vu, depth) {
                None => None,
                Some(tu) => Some(j + vu + tu - i),
            },
        }
    }
}

/// The span of the single top-level value of a JSON text.
pub fn text_span(s: &Vec<char>) -> (r: Option<(usize, usize)>)
    ensures
        match r {
            Some((a, u)) => sp_text_span(s@) == Some((a as int, u as nat)) && a + u <= s@.len(),
            None => sp_text_span(s@) is None,
        },
{
    let n: usize = s.len();
    let j: usize = ws_len(s, 0);
    match value_len(s, j, MAX_DEPTH) {
        None => None,
        Some(u) => {
            let k: usize = j + u + ws_len(s, j + u);
            if k == n {
                Some((j, u))
            } else {
                None
            }
        },
    }
}

/// Whether `s` is a well-formed JSON text.
pub fn is_json_text(s: &Vec<char>) -> (r: bool)
    ensures
        r == sp_is_json(s@),
{
    text_span(s).is_some()
}

// ---------------------------------------------------------------------------
// Decimal values
// ---------------------------------------------------------------------------

/// Folds the digits of `s[a..b]` into `acc`; `None` on a non-digit or
/// when the value would not fit in a `u64`.
pub open spec fn sp_u64_fold(s: Seq<char>, a: int, b: int, acc: u64) -> Option<u64>
    decreases b - a,
{
    if a >= b {
        Some(acc)
    } else if !sp_is_digit(s[a]) {
        None
    } else {
        let d = (s[a] as u32 - 48) as u64;
        if acc > (0xFFFF_FFFF_FFFF_FFFFu64 - d) / 10 {
            None
        } else {
            sp_u64_fold(s, a + 1, b, (acc * 10 + d) as u64)
        }
    }
}

/// The value of `s[a..b]` read as an unsigned decimal numeral, if it
/// is one and fits in a `u64`.
pub open spec fn sp_u64_of(s: Seq<char>, a: int, b: int) -> Option<u64> {
    if a >= b {
        None
    } else {
        sp_u64_fold(s, a, b, 0)
    }
}

/// Reads `s[a..b]` as an unsigned decimal numeral.
pub fn parse_u64(s: &Vec<char>, a: usize, b: usize) -> (r: Option<u64>)
    requires
        a <= b <= s@.len(),
    ensures
        r == sp_u64_of(s@, a as int, b as int),
{
    if a >= b {
        return None;
    }
    let mut acc: u64 = 0;
    let mut i: usize = a;
    while i < b
        invariant
            a <= i <= b <= s@.len(),
            sp_u64_fold(s@, a as int, b as int, 0) == sp_u64_fold(s@, i as int, b as int, acc),
        decreases b - i,
    {
        let u: u32 = s[i] as u32;
        if u < 48 || u > 57 {
            return None;
        }
        let d: u64 = (u - 48) as u64;
        if acc > (0xFFFF_FFFF_FFFF_FFFFu64 - d) / 10 {
            return None;
        }
        acc = acc * 10 + d;
        i = i + 1;
    }
    Some(acc)
}

// ---------------------------------------------------------------------------
// Framing: writing JSON string literals
// ---------------------------------------------------------------------------

/// The lower-case hexadecimal digit of `n`.
pub open spec fn sp_hex_digit(n: u32) -> char {
    if n == 0 { '0' } else if n == 1 { '1' } else if n == 2 { '2' } else if n == 3 { '3' }
    else if n == 4 { '4' } else if n == 5 { '5' } else if n == 6 { '6' } else if n == 7 { '7' }
    else if n == 8 { '8' } else if n == 9 { '9' } else if n == 10 { 'a' } else if n == 11 { 'b' }
    else if n == 12 { 'c' } else if n == 13 { 'd' } else if n == 14 { 'e' } else { 'f' }
}

fn hex_digit(n: u32) -> (c: char)
    requires
        n < 16,
    ensures
        c == sp_hex_digit(n),
{
    if n == 0 { '0' } else if n == 1 { '1' } else if n == 2 { '2' } else if n == 3 { '3' }
    else if n == 4 { '4' } else if n == 5 { '5' } else if n == 6 { '6' } else if n == 7 { '7' }
    else if n == 8 { '8' } else if n == 9 { '9' } else if n == 10 { 'a' } else if n == 11 { 'b' }
    else if n == 12 { 'c' } else if n == 13 { 'd' } else if n == 14 { 'e' } else { 'f' }
}

/// How one character is written inside a JSON string literal: quote,
/// backslash and control characters are escaped, all else stands as
/// itself.
pub open spec fn sp_escape_char(c: char) -> Seq<char> {
    if c == '"' {
        seq!['\\', '"']
    } else if c == '\\' {
        seq!['\\', '\\']
    } else if c == '\u{8}' {
        seq!['\\', 'b']
    } else if c == '\t' {
        seq!['\\', 't']
    } else if c == '\n' {
        seq!['\\', 'n']
    } else if c == '\u{c}' {
        seq!['\\', 'f']
    } else if c == '\r' {
        seq!['\\', 'r']
    } else if (c as u32) < 0x20 {
        seq!['\\', 'u', '0', '0', sp_hex_digit(c as u32 / 16), sp_hex_digit(c as u32 % 16)]
    } else {
        seq![c]
    }
}

/// The characters of `v[i..]` written inside a JSON string literal.
pub open spec fn sp_escaped_from(v: Seq<char>, i: int) -> Seq<char>
    decreases v.len() - i,
{
    if i < 0 || i >= v.len() {
        Seq::empty()
    } else {
        sp_escape_char(v[i]) + sp_escaped_from(v, i + 1)
    }
}

/// `v` written as a JSON string literal, quotes included.
pub open spec fn sp_quoted(v: Seq<char>) -> Seq<char> {
    seq!['"'] + sp_escaped_from(v, 0) + seq!['"']
}

/// Appends the characters of `lit` to `out`.
pub fn push_str_chars(out: &mut Vec<char>, lit: &str)
    ensures
        final(out)@ == old(out)@ + lit@,
{
    let n: usize = lit.unicode_len();
    let mut i: usize = 0;
    while i < n
        invariant
            n == lit@.len(),
            i <= n,
            out@ == old(out)@ + lit@.subrange(0, i as int),
        decreases n - i,
    {
        out.push(lit.get_char(i));
        i = i + 1;
        proof {
            assert(old(out)@ + lit@.subrange(0, i - 1) + seq![lit@[i - 1]] =~= old(out)@
                + lit@.subrange(0, i as int));
        }
    }
    proof {
        assert(old(out)@ + lit@.subrange(0, n as int) =~= old(out)@ + lit@);
    }
}

/// Appends one character of a JSON string literal to `out`.
fn push_escaped_char(out: &mut Vec<char>, c: char)
    ensures
        final(out)@ == old(out)@ + sp_escape_char(c),
{
    if c == '"' {
        out.push('\\');
        out.push('"');
    } else if c == '\\' {
        out.push('\\');
        out.push('\\');
    } else if c == '\u{8}' {
        out.push('\\');
        out.push('b');
    } else if c == '\t' {
        out.push('\\');
        out.push('t');
    } else if c == '\n' {
        out.push('\\');
        out.push('n');
    } else if c == '\u{c}' {
        out.push('\\');
        out.push('f');
    } else if c == '\r' {
        out.push('\\');
        out.push('r');
    } else if (c as u32) < 0x20 {
        out.push('\\');
        out.push('u');
        out.push('0');
        out.push('0');
        out.push(hex_digit(c as u32 / 16));
        out.push(hex_digit(c as u32 % 16));
    } else {
        out.push(c);
    }
    proof {
        assert(out@ =~= old(out)@ + sp_escape_char(c));
    }
}

/// Appends the characters of `s[a..b]` to `out`.
pub fn push_range(out: &mut Vec<char>, s: &Vec<char>, a: usize, b: usize)
    requires
        a <= b <= s@.len(),
    ensures
        final(out)@ == old(out)@ + s@.subrange(a as int, b as int),
{
    let mut i: usize = a;
    while i < b
        invariant
            a <= i <= b <= s@.len(),
            out@ == old(out)@ + s@.subrange(a as int, i as int),
        decreases b - i,
    {
        out.push(s[i]);
        i = i + 1;
        proof {
            assert(old(out)@ + s@.subrange(a as int, i - 1) + seq![s@[i - 1]] =~= old(out)@
                + s@.subrange(a as int, i as int));
        }
    }
}

/// Appends `v` to `out` as a JSON string literal.
pub fn push_quoted(out: &mut Vec<char>, v: &Vec<char>)
    ensures
        final(out)@ == old(out)@ + sp_quoted(v@),
{
    out.push('"');
    let ghost base = out@;
    let mut i: usize = 0;
    while i < v.len()
        invariant
            i <= v@.len(),
            base == old(out)@ + seq!['"'],
            out@ + sp_escaped_from(v@, i as int) == base + sp_escaped_from(v@, 0),
        decreases v@.len() - i,
    {
        let ghost prev = out@;
        push_escaped_char(out, v[i]);
        proof {
            assert(prev + (sp_escape_char(v@[i as int]) + sp_escaped_from(v@, i + 1)) =~= out@
                + sp_escaped_from(v@, i + 1));
        }
        i = i + 1;
    }
    proof {
        assert(out@ + sp_escaped_from(v@, i as int) =~= out@);
    }
    out.push('"');
    proof {
        assert((old(out)@ + seq!['"'] + sp_escaped_from(v@, 0)).push('"') =~= old(out)@
            + sp_quoted(v@));
    }
}

/// Ten to the `n`th.
pub open spec fn sp_pow10(n: nat) -> nat
    decreases n,
{
    if n == 0 {
        1
    } else {
        10 * sp_pow10((n - 1) as nat)
    }
}

/// Whether `s[a..b]` holds decimal digits only.
pub open spec fn sp_all_digits(s: Seq<char>, a: int, b: int) -> bool {
    forall|k: int| a <= k < b ==> sp_is_digit(#[trigger] s[k])
}

/// The decimal value of the digits `s[a..b]`, without any width
/// bound.
pub open spec fn sp_dec_val(s: Seq<char>, a: int, b: int) -> int
    decreases b - a,
{
    if a >= b {
        0
    } else {
        sp_dec_val(s, a, b - 1) * 10 + (s[b - 1] as u32 - 48)
    }
}

proof fn lemma_pow10_step(n: nat)
    requires
        n >= 1,
    ensures
        sp_pow10(n) == 10 * sp_pow10((n - 1) as nat),
{
}

proof fn lemma_dec_val_head(s: Seq<char>, a: int, b: int)
    requires
        a < b,
    ensures
        sp_dec_val(s, a, b) == (s[a] as u32 - 48) * sp_pow10((b - a - 1) as nat) + sp_dec_val(
            s,
            a + 1,
            b,
        ),
    decreases b - a,
{
    let hd = s[a] as u32 - 48;
    if a + 1 < b {
        lemma_dec_val_head(s, a, b - 1);
        lemma_pow10_step((b - a - 1) as nat);
        let p1 = sp_pow10((b - a - 1) as nat);
        let p2 = sp_pow10((b - a - 2) as nat);
        let x = sp_dec_val(s, a + 1, b - 1);
        assert(hd * p1 == (hd * p2) * 10) by (nonlinear_arith)
            requires
                p1 == 10 * p2,
        ;
        assert((hd * p2 + x) * 10 == (hd * p2) * 10 + x * 10) by (nonlinear_arith);
    } else {
        assert(sp_dec_val(s, a, b) == sp_dec_val(s, a, a) * 10 + (s[b - 1] as u32 - 48));
        assert(hd * sp_pow10((b - a - 1) as nat) == hd) by (nonlinear_arith)
            requires
                sp_pow10((b - a - 1) as nat) == 1,
        ;
    }
}

proof fn lemma_fold_value(s: Seq<char>, a: int, b: int, acc: u64)
    requires
        a <= b,
        sp_u64_fold(s, a, b, acc) is Some,
    ensures
        sp_all_digits(s, a, b),
        sp_u64_fold(s, a, b, acc)->0 == acc * sp_pow10((b - a) as nat) + sp_dec_val(s, a, b),
    decreases b - a,
{
    if a < b {
        let hd = s[a] as u32 - 48;
        let d = (s[a] as u32 - 48) as u64;
        assert(acc * 10 + d <= 0xFFFF_FFFF_FFFF_FFFFu64) by (nonlinear_arith)
            requires
                acc <= (0xFFFF_FFFF_FFFF_FFFFu64 - d) / 10,
        ;
        let acc2 = (acc * 10 + d) as u64;
        lemma_fold_value(s, a + 1, b, acc2);
        lemma_dec_val_head(s, a, b);
        lemma_pow10_step((b - a) as nat);
        let p = sp_pow10((b - a - 1) as nat);
        assert(acc2 * p == (acc * 10) * p + d * p) by (nonlinear_arith)
            requires
                acc2 == acc * 10 + d,
        ;
        assert((acc * 10) * p == acc * sp_pow10((b - a) as nat)) by (nonlinear_arith)
            requires
                sp_pow10((b - a) as nat) == 10 * p,
        ;
        assert(d * p == hd * p) by (nonlinear_arith)
            requires
                d == hd,
        ;
    } else {
        assert(acc * sp_pow10((b - a) as nat) == acc) by (nonlinear_arith)
            requires
                sp_pow10((b - a) as nat) == 1,
        ;
    }
}

/// Law: when the numeral reader succeeds, the span was decimal digits
/// and the result is exactly their value.
pub proof fn lemma_u64_of_value(s: Seq<char>, a: int, b: int)
    requires
        sp_u64_of(s, a, b) is Some,
    ensures
        a < b,
        sp_all_digits(s, a, b),
        sp_u64_of(s, a, b)->0 == sp_dec_val(s, a, b),
{
    lemma_fold_value(s, a, b, 0);
}

} // verus!
