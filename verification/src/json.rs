use vstd::prelude::*;
use crate::user::User;
use crate::user::UserView;

verus! {

// ---------------------------------------------------------------------------
// Encoding
// ---------------------------------------------------------------------------
/// The lowercase hexadecimal digit character for `d` (0 to 15).
pub open spec fn spec_hex_digit_char(d: int) -> char {
    if d == 0 {
        '0'
    } else if d == 1 {
        '1'
    } else if d == 2 {
        '2'
    } else if d == 3 {
        '3'
    } else if d == 4 {
        '4'
    } else if d == 5 {
        '5'
    } else if d == 6 {
        '6'
    } else if d == 7 {
        '7'
    } else if d == 8 {
        '8'
    } else if d == 9 {
        '9'
    } else if d == 10 {
        'a'
    } else if d == 11 {
        'b'
    } else if d == 12 {
        'c'
    } else if d == 13 {
        'd'
    } else if d == 14 {
        'e'
    } else {
        'f'
    }
}

/// How one character appears inside a JSON string literal: the quote, the
/// backslash and five control characters get their two-character short
/// escape, the remaining control characters get a hexadecimal escape, and
/// every other character stands for itself.
pub open spec fn spec_escape_char(c: char) -> Seq<char> {
    if c == '"' {
        seq!['\\', '"']
    } else if c == '\\' {
        seq!['\\', '\\']
    } else if c == '\u{8}' {
        seq!['\\', 'b']
    } else if c == '\u{c}' {
        seq!['\\', 'f']
    } else if c == '\n' {
        seq!['\\', 'n']
    } else if c == '\r' {
        seq!['\\', 'r']
    } else if c == '\t' {
        seq!['\\', 't']
    } else if (c as u32) < 32 {
        seq![
            '\\',
            'u',
            '0',
            '0',
            spec_hex_digit_char((c as u32) as int / 16),
            spec_hex_digit_char((c as u32) as int % 16),
        ]
    } else {
        seq![c]
    }
}

/// The body of a JSON string literal for `s`: each character escaped as
/// needed, in order.
pub open spec fn spec_escape(s: Seq<char>) -> Seq<char>
    decreases s.len(),
{
    if s.len() == 0 {
        Seq::empty()
    } else {
        spec_escape_char(s[0]) + spec_escape(s.skip(1))
    }
}

/// The JSON object for a user: exactly the two members `name` and `email`,
/// in that order, with string values.
pub open spec fn spec_encode_user(u: UserView) -> Seq<char> {
    "{\"name\":\""@ + spec_escape(u.name) + "\",\"email\":\""@ + spec_escape(u.email) + "\"}"@
}

/// The one-character string for the lowercase hexadecimal digit `d`.
fn hex_digit_str(d: u32) -> (s: &'static str)
    requires
        d < 16,
    ensures
        s@ == seq![spec_hex_digit_char(d as int)],
{
    proof {
        reveal_strlit("0");
        reveal_strlit("1");
        reveal_strlit("2");
        reveal_strlit("3");
        reveal_strlit("4");
        reveal_strlit("5");
        reveal_strlit("6");
        reveal_strlit("7");
        reveal_strlit("8");
        reveal_strlit("9");
        reveal_strlit("a");
        reveal_strlit("b");
        reveal_strlit("c");
        reveal_strlit("d");
        reveal_strlit("e");
        reveal_strlit("f");
    }
    let s: &'static str = if d == 0 {
        "0"
    } else if d == 1 {
        "1"
    } else if d == 2 {
        "2"
    } else if d == 3 {
        "3"
    } else if d == 4 {
        "4"
    } else if d == 5 {
        "5"
    } else if d == 6 {
        "6"
    } else if d == 7 {
        "7"
    } else if d == 8 {
        "8"
    } else if d == 9 {
        "9"
    } else if d == 10 {
        "a"
    } else if d == 11 {
        "b"
    } else if d == 12 {
        "c"
    } else if d == 13 {
        "d"
    } else if d == 14 {
        "e"
    } else {
        "f"
    };
    proof {
        assert(s@ =~= seq![spec_hex_digit_char(d as int)]);
    }
    s
}

/// Escapes `s` for use inside a JSON string literal.
fn escape_str(s: &str) -> (out: String)
    ensures
        out@ == spec_escape(s@),
{
    let n = s.unicode_len();
    let mut out = String::new();
    let mut i: usize = 0;
    proof {
        assert(s@.skip(0) =~= s@);
        assert(out@ + s@ =~= s@);
        assert(out@ + spec_escape(s@.skip(0)) =~= spec_escape(s@));
    }
    while i < n
        invariant
            i <= n,
            n == s@.len(),
            spec_escape(s@) == out@ + spec_escape(s@.skip(i as int)),
        decreases n - i,
    {
        let ghost prev = out@;
        let c = s.get_char(i);
        if c == '"' {
            out.append("\\\"");
        } else if c == '\\' {
            out.append("\\\\");
        } else if c == '\u{8}' {
            out.append("\\b");
        } else if c == '\u{c}' {
            out.append("\\f");
        } else if c == '\n' {
            out.append("\\n");
        } else if c == '\r' {
            out.append("\\r");
        } else if c == '\t' {
            out.append("\\t");
        } else if (c as u32) < 32 {
            let cu = c as u32;
            out.append("\\u00");
            out.append(hex_digit_str(cu / 16));
            out.append(hex_digit_str(cu % 16));
        } else {
            let piece = s.substring_char(i, i + 1);
            out.append(piece);
        }
        proof {
            reveal_strlit("\\\"");
            reveal_strlit("\\\\");
            reveal_strlit("\\b");
            reveal_strlit("\\f");
            reveal_strlit("\\n");
            reveal_strlit("\\r");
            reveal_strlit("\\t");
            reveal_strlit("\\u00");
            assert(s@.subrange(i as int, i + 1) =~= seq![s@[i as int]]);
            assert(out@ =~= prev + spec_escape_char(s@[i as int]));
            assert(s@.skip(i as int)[0] == s@[i as int]);
            assert(s@.skip(i as int).skip(1) =~= s@.skip(i + 1));
            assert(spec_escape(s@.skip(i as int)) == spec_escape_char(s@[i as int]) + spec_escape(
                s@.skip(i + 1),
            ));
            assert((prev + spec_escape_char(s@[i as int])) + spec_escape(s@.skip(i + 1)) =~= prev
                + (spec_escape_char(s@[i as int]) + spec_escape(s@.skip(i + 1))));
        }
        i += 1;
    }
    proof {
        assert(s@.skip(n as int) =~= Seq::<char>::empty());
        assert(out@ + spec_escape(s@.skip(n as int)) =~= out@);
    }
    out
}

/// Encodes a user as its JSON object.
pub fn encode_user(u: &User) -> (s: String)
    ensures
        s@ == spec_encode_user(u@),
{
    let mut s = String::from_str("{\"name\":\"");
    let name = escape_str(u.name.as_str());
    s.append(name.as_str());
    s.append("\",\"email\":\"");
    let email = escape_str(u.email.as_str());
    s.append(email.as_str());
    s.append("\"}");
    s
}

// ---------------------------------------------------------------------------
// Decoding
// ---------------------------------------------------------------------------
/// JSON insignificant whitespace.
pub open spec fn spec_is_json_ws(c: char) -> bool {
    c == ' ' || c == '\n' || c == '\r' || c == '\t'
}

/// The first position at or after `i` that does not hold whitespace.
pub open spec fn spec_skip_ws(s: Seq<char>, i: int) -> int
    decreases s.len() - i,
{
    if 0 <= i < s.len() && spec_is_json_ws(s[i]) {
        spec_skip_ws(s, i + 1)
    } else {
        i
    }
}

pub proof fn lemma_skip_ws_bounds(s: Seq<char>, i: int)
    requires
        0 <= i <= s.len(),
    ensures
        i <= spec_skip_ws(s, i) <= s.len(),
    decreases s.len() - i,
{
    if i < s.len() && spec_is_json_ws(s[i]) {
        lemma_skip_ws_bounds(s, i + 1);
    }
}

/// The character a short escape stands for, if the escape is known.
pub open spec fn spec_unescape(c: char) -> Option<char> {
    if c == '"' {
        Some('"')
    } else if c == '\\' {
        Some('\\')
    } else if c == '/' {
        Some('/')
    } else if c == 'b' {
        Some('\u{8}')
    } else if c == 'f' {
        Some('\u{c}')
    } else if c == 'n' {
        Some('\n')
    } else if c == 'r' {
        Some('\r')
    } else if c == 't' {
        Some('\t')
    } else {
        None
    }
}

/// A hexadecimal digit of a `\u` escape, in either letter case.
pub open spec fn spec_is_hex_digit(c: char) -> bool {
    let v = (c as u32) as int;
    (48 <= v <= 57) || (97 <= v <= 102) || (65 <= v <= 70)
}

/// The value of a hexadecimal digit.
pub open spec fn spec_hex_val(c: char) -> int {
    let v = (c as u32) as int;
    if 48 <= v <= 57 {
        v - 48
    } else if 97 <= v <= 102 {
        v - 87
    } else {
        v - 55
    }
}

/// Whether four hexadecimal digits stand at `i`.
pub open spec fn spec_hex4_ok(s: Seq<char>, i: int) -> bool {
    &&& i + 4 <= s.len()
    &&& spec_is_hex_digit(s[i])
    &&& spec_is_hex_digit(s[i + 1])
    &&& spec_is_hex_digit(s[i + 2])
    &&& spec_is_hex_digit(s[i + 3])
}

/// The value of the four hexadecimal digits at `i`.
pub open spec fn spec_hex4(s: Seq<char>, i: int) -> int {
    spec_hex_val(s[i]) * 4096 + spec_hex_val(s[i + 1]) * 256 + spec_hex_val(s[i + 2]) * 16
        + spec_hex_val(s[i + 3])
}

/// The UTF-16 surrogate halves, as JSON's `\u` escapes pair them.
pub open spec fn spec_is_high_surrogate(n: int) -> bool {
    0xD800 <= n <= 0xDBFF
}

pub open spec fn spec_is_low_surrogate(n: int) -> bool {
    0xDC00 <= n <= 0xDFFF
}

/// Parses the body of a JSON string literal starting at `i` (just past the
/// opening quote): the decoded text and the position just past the closing
/// quote. The eight short escapes and hexadecimal `\uXXXX` escapes are
/// read, a surrogate pair as the one character it encodes. Raw control
/// characters, unknown escapes, a lone surrogate and an unterminated
/// literal are rejected.
pub open spec fn spec_parse_str_body(s: Seq<char>, i: int) -> Option<(Seq<char>, int)>
    decreases s.len() - i,
{
    if i < 0 || i >= s.len() {
        None
    } else if s[i] == '"' {
        Some((Seq::empty(), i + 1))
    } else if s[i] == '\\' {
        if i + 1 >= s.len() {
            None
        } else if s[i + 1] == 'u' {
            if !spec_hex4_ok(s, i + 2) {
                None
            } else {
                let n1 = spec_hex4(s, i + 2);
                if spec_is_low_surrogate(n1) {
                    None
                } else if spec_is_high_surrogate(n1) {
                    if i + 12 <= s.len() && s[i + 6] == '\\' && s[i + 7] == 'u' && spec_hex4_ok(
                        s,
                        i + 8,
                    ) && spec_is_low_surrogate(spec_hex4(s, i + 8)) {
                        let code = 0x10000 + (n1 - 0xD800) * 1024 + (spec_hex4(s, i + 8) - 0xDC00);
                        match spec_parse_str_body(s, i + 12) {
                            None => None,
                            Some(p) => Some((seq![((code as u32) as char)] + p.0, p.1)),
                        }
                    } else {
                        None
                    }
                } else {
                    match spec_parse_str_body(s, i + 6) {
                        None => None,
                        Some(p) => Some((seq![((n1 as u32) as char)] + p.0, p.1)),
                    }
                }
            }
        } else {
            match spec_unescape(s[i + 1]) {
                None => None,
                Some(c) => match spec_parse_str_body(s, i + 2) {
                    None => None,
                    Some(p) => Some((seq![c] + p.0, p.1)),
                },
            }
        }
    } else if (s[i] as u32) < 32 {
        None
    } else {
        match spec_parse_str_body(s, i + 1) {
            None => None,
            Some(p) => Some((seq![s[i]] + p.0, p.1)),
        }
    }
}

pub proof fn lemma_parse_str_body_bounds(s: Seq<char>, i: int)
    ensures
        spec_parse_str_body(s, i) matches Some(p) ==> i < p.1 <= s.len(),
    decreases s.len() - i,
{
    if 0 <= i < s.len() {
        if s[i] == '\\' {
            if i + 1 < s.len() {
                if s[i + 1] == 'u' {
                    if spec_hex4_ok(s, i + 2) {
                        lemma_parse_str_body_bounds(s, i + 6);
                        if i + 12 <= s.len() {
                            lemma_parse_str_body_bounds(s, i + 12);
                        }
                    }
                } else {
                    lemma_parse_str_body_bounds(s, i + 2);
                }
            }
        } else {
            lemma_parse_str_body_bounds(s, i + 1);
        }
    }
}

/// Parses a JSON string literal (opening quote included) at `i`.
pub open spec fn spec_parse_string(s: Seq<char>, i: int) -> Option<(Seq<char>, int)> {
    if 0 <= i < s.len() && s[i] == '"' {
        spec_parse_str_body(s, i + 1)
    } else {
        None
    }
}

pub proof fn lemma_parse_string_bounds(s: Seq<char>, i: int)
    ensures
        spec_parse_string(s, i) matches Some(p) ==> i < p.1 <= s.len(),
{
    lemma_parse_str_body_bounds(s, i + 1);
}

/// Parses one object member at `i`: a string key, a colon (whitespace
/// allowed around it) and a string value.
pub open spec fn spec_parse_member(s: Seq<char>, i: int) -> Option<(Seq<char>, Seq<char>, int)> {
    match spec_parse_string(s, i) {
        None => None,
        Some(kp) => {
            let j = spec_skip_ws(s, kp.1);
            if j < s.len() && s[j] == ':' {
                match spec_parse_string(s, spec_skip_ws(s, j + 1)) {
                    None => None,
                    Some(vp) => Some((kp.0, vp.0, vp.1)),
                }
            } else {
                None
            }
        },
    }
}

pub proof fn lemma_parse_member_bounds(s: Seq<char>, i: int)
    ensures
        spec_parse_member(s, i) matches Some(p) ==> i < p.2 <= s.len(),
{
    lemma_parse_string_bounds(s, i);
    if let Some(kp) = spec_parse_string(s, i) {
        lemma_skip_ws_bounds(s, kp.1);
        let j = spec_skip_ws(s, kp.1);
        if j < s.len() && s[j] == ':' {
            lemma_skip_ws_bounds(s, j + 1);
            lemma_parse_string_bounds(s, spec_skip_ws(s, j + 1));
        }
    }
}

/// Decodes the JSON object for a user: exactly the two members `name` and
/// `email`, in either order, each exactly once, nothing else. An object
/// with a missing, duplicated or unknown member is rejected, as is any
/// text before or after the object other than whitespace.
pub open spec fn spec_decode_user(s: Seq<char>) -> Option<UserView> {
    let i = spec_skip_ws(s, 0);
    if i < s.len() && s[i] == '{' {
        match spec_parse_member(s, spec_skip_ws(s, i + 1)) {
            None => None,
            Some(m1) => {
                let c = spec_skip_ws(s, m1.2);
                if c < s.len() && s[c] == ',' {
                    match spec_parse_member(s, spec_skip_ws(s, c + 1)) {
                        None => None,
                        Some(m2) => {
                            let e = spec_skip_ws(s, m2.2);
                            if e < s.len() && s[e] == '}' && spec_skip_ws(s, e + 1) == s.len() {
                                if m1.0 == "name"@ && m2.0 == "email"@ {
                                    Some(UserView { name: m1.1, email: m2.1 })
                                } else if m1.0 == "email"@ && m2.0 == "name"@ {
                                    Some(UserView { name: m2.1, email: m1.1 })
                                } else {
                                    None
                                }
                            } else {
                                None
                            }
                        },
                    }
                } else {
                    None
                }
            },
        }
    } else {
        None
    }
}

/// Skips whitespace from `i`.
fn skip_ws(s: &str, i: usize, n: usize) -> (j: usize)
    requires
        n == s@.len(),
        i <= n,
    ensures
        j == spec_skip_ws(s@, i as int),
        i <= j <= n,
    decreases n - i,
{
    if i < n {
        let c = s.get_char(i);
        if c == ' ' || c == '\n' || c == '\r' || c == '\t' {
            return skip_ws(s, i + 1, n);
        }
    }
    i
}

/// The character a short escape stands for, as a one-character string.
fn unescape_str(c: char) -> (r: Option<&'static str>)
    ensures
        r is Some <==> spec_unescape(c) is Some,
        r matches Some(u) ==> spec_unescape(c) matches Some(d) && u@ == seq![d],
{
    proof {
        reveal_strlit("\"");
        reveal_strlit("\\");
        reveal_strlit("/");
        reveal_strlit("\u{8}");
        reveal_strlit("\u{c}");
        reveal_strlit("\n");
        reveal_strlit("\r");
        reveal_strlit("\t");
    }
    let r: Option<&'static str> = if c == '"' {
        Some("\"")
    } else if c == '\\' {
        Some("\\")
    } else if c == '/' {
        Some("/")
    } else if c == 'b' {
        Some("\u{8}")
    } else if c == 'f' {
        Some("\u{c}")
    } else if c == 'n' {
        Some("\n")
    } else if c == 'r' {
        Some("\r")
    } else if c == 't' {
        Some("\t")
    } else {
        None
    };
    proof {
        if let Some(u) = r {
            assert(u@ =~= seq![spec_unescape(c)->0]);
        }
    }
    r
}

/// Relies on char::from_u32: a Unicode scalar value makes the character
/// with that code, a surrogate or out-of-range value makes nothing.
pub assume_specification[ char::from_u32 ](i: u32) -> (r: Option<char>)
    ensures
        r is Some <==> (i < 0xD800 || (0xE000 <= i && i <= 0x10FFFF)),
        r matches Some(c) ==> c as u32 == i,
;

/// Relies on String::push: appends exactly the one character.
#[verifier::external_body]
fn push_char(s: &mut String, c: char)
    ensures
        final(s)@ == old(s)@ + seq![c],
{
    s.push(c);
}

/// The value of a hexadecimal digit, in either letter case.
fn hex_val(c: char) -> (r: Option<u32>)
    ensures
        r is Some <==> spec_is_hex_digit(c),
        r matches Some(v) ==> v as int == spec_hex_val(c) && v < 16,
{
    let u = c as u32;
    if 48 <= u && u <= 57 {
        Some(u - 48)
    } else if 97 <= u && u <= 102 {
        Some(u - 87)
    } else if 65 <= u && u <= 70 {
        Some(u - 55)
    } else {
        None
    }
}

/// Parses the body of a JSON string literal (see `spec_parse_str_body`).
fn parse_str_body(s: &str, i: usize, n: usize) -> (r: Option<(String, usize)>)
    requires
        n == s@.len(),
        i <= n,
    ensures
        r is Some <==> spec_parse_str_body(s@, i as int) is Some,
        r matches Some(q) ==> spec_parse_str_body(s@, i as int) matches Some(p) && q.0@ == p.0
            && q.1 == p.1,
    decreases n - i,
{
    if i >= n {
        return None;
    }
    let c = s.get_char(i);
    if c == '"' {
        return Some((String::new(), i + 1));
    }
    if c == '\\' {
        if i + 1 >= n {
            return None;
        }
        let e = s.get_char(i + 1);
        if e == 'u' {
            if n - (i + 2) < 4 {
                return None;
            }
            let h0 = match hex_val(s.get_char(i + 2)) {
                None => {
                    return None;
                },
                Some(h) => h,
            };
            let h1 = match hex_val(s.get_char(i + 3)) {
                None => {
                    return None;
                },
                Some(h) => h,
            };
            let h2 = match hex_val(s.get_char(i + 4)) {
                None => {
                    return None;
                },
                Some(h) => h,
            };
            let h3 = match hex_val(s.get_char(i + 5)) {
                None => {
                    return None;
                },
                Some(h) => h,
            };
            let n1: u32 = h0 * 4096 + h1 * 256 + h2 * 16 + h3;
            proof {
                assert(n1 as int == spec_hex4(s@, i + 2));
            }
            if 0xDC00 <= n1 && n1 <= 0xDFFF {
                return None;
            }
            if 0xD800 <= n1 && n1 <= 0xDBFF {
                if n - i < 12 {
                    return None;
                }
                if s.get_char(i + 6) != '\\' {
                    return None;
                }
                if s.get_char(i + 7) != 'u' {
                    return None;
                }
                let g0 = match hex_val(s.get_char(i + 8)) {
                    None => {
                        return None;
                    },
                    Some(h) => h,
                };
                let g1 = match hex_val(s.get_char(i + 9)) {
                    None => {
                        return None;
                    },
                    Some(h) => h,
                };
                let g2 = match hex_val(s.get_char(i + 10)) {
                    None => {
                        return None;
                    },
                    Some(h) => h,
                };
                let g3 = match hex_val(s.get_char(i + 11)) {
                    None => {
                        return None;
                    },
                    Some(h) => h,
                };
                let n2: u32 = g0 * 4096 + g1 * 256 + g2 * 16 + g3;
                proof {
                    assert(n2 as int == spec_hex4(s@, i + 8));
                }
                if !(0xDC00 <= n2 && n2 <= 0xDFFF) {
                    return None;
                }
                let code: u32 = 0x10000 + (n1 - 0xD800) * 1024 + (n2 - 0xDC00);
                let ch = match char::from_u32(code) {
                    None => unreached(),
                    Some(ch) => ch,
                };
                match parse_str_body(s, i + 12, n) {
                    None => None,
                    Some(rest) => {
                        let mut out = String::new();
                        push_char(&mut out, ch);
                        out.append(rest.0.as_str());
                        proof {
                            vstd::utf8::char_u32_cast(ch, code);
                            assert(out@ =~= seq![ch] + rest.0@);
                        }
                        Some((out, rest.1))
                    },
                }
            } else {
                let ch = match char::from_u32(n1) {
                    None => unreached(),
                    Some(ch) => ch,
                };
                match parse_str_body(s, i + 6, n) {
                    None => None,
                    Some(rest) => {
                        let mut out = String::new();
                        push_char(&mut out, ch);
                        out.append(rest.0.as_str());
                        proof {
                            vstd::utf8::char_u32_cast(ch, n1);
                            assert(out@ =~= seq![ch] + rest.0@);
                        }
                        Some((out, rest.1))
                    },
                }
            }
        } else {
            match unescape_str(e) {
                None => None,
                Some(u) => {
                    match parse_str_body(s, i + 2, n) {
                        None => None,
                        Some(rest) => {
                            let mut out = String::from_str(u);
                            out.append(rest.0.as_str());
                            Some((out, rest.1))
                        },
                    }
                },
            }
        }
    } else if (c as u32) < 32 {
        None
    } else {
        match parse_str_body(s, i + 1, n) {
            None => None,
            Some(rest) => {
                let piece = s.substring_char(i, i + 1);
                let mut out = String::from_str(piece);
                out.append(rest.0.as_str());
                proof {
                    assert(s@.subrange(i as int, i + 1) =~= seq![s@[i as int]]);
                }
                Some((out, rest.1))
            },
        }
    }
}

/// Parses a JSON string literal, opening quote included.
fn parse_string(s: &str, i: usize, n: usize) -> (r: Option<(String, usize)>)
    requires
        n == s@.len(),
        i <= n,
    ensures
        r is Some <==> spec_parse_string(s@, i as int) is Some,
        r matches Some(q) ==> spec_parse_string(s@, i as int) matches Some(p) && q.0@ == p.0
            && q.1 == p.1 && i < q.1 <= n,
{
    proof {
        lemma_parse_string_bounds(s@, i as int);
    }
    if i < n {
        let c = s.get_char(i);
        if c == '"' {
            return parse_str_body(s, i + 1, n);
        }
    }
    None
}

/// Parses one object member (see `spec_parse_member`).
fn parse_member(s: &str, i: usize, n: usize) -> (r: Option<(String, String, usize)>)
    requires
        n == s@.len(),
        i <= n,
    ensures
        r is Some <==> spec_parse_member(s@, i as int) is Some,
        r matches Some(q) ==> spec_parse_member(s@, i as int) matches Some(p) && q.0@ == p.0
            && q.1@ == p.1 && q.2 == p.2 && i < q.2 <= n,
{
    proof {
        lemma_parse_member_bounds(s@, i as int);
    }
    match parse_string(s, i, n) {
        None => None,
        Some(kp) => {
            let j = skip_ws(s, kp.1, n);
            if j < n {
                let c = s.get_char(j);
                if c == ':' {
                    let m = skip_ws(s, j + 1, n);
                    match parse_string(s, m, n) {
                        None => None,
                        Some(vp) => Some((kp.0, vp.0, vp.1)),
                    }
                } else {
                    None
                }
            } else {
                None
            }
        },
    }
}

/// Decodes the JSON object for a user (see `spec_decode_user`): `None` is
/// returned exactly on the texts that the grammar rejects.
pub fn decode_user(s: &str) -> (r: Option<User>)
    ensures
        r is Some <==> spec_decode_user(s@) is Some,
        r matches Some(u) ==> spec_decode_user(s@) matches Some(uv) && u@ == uv,
{
    let n = s.unicode_len();
    let i = skip_ws(s, 0, n);
    if i >= n {
        return None;
    }
    if s.get_char(i) != '{' {
        return None;
    }
    let m1 = match parse_member(s, skip_ws(s, i + 1, n), n) {
        None => {
            return None;
        },
        Some(m1) => m1,
    };
    let c = skip_ws(s, m1.2, n);
    if c >= n {
        return None;
    }
    if s.get_char(c) != ',' {
        return None;
    }
    let m2 = match parse_member(s, skip_ws(s, c + 1, n), n) {
        None => {
            return None;
        },
        Some(m2) => m2,
    };
    let e = skip_ws(s, m2.2, n);
    if e >= n {
        return None;
    }
    if s.get_char(e) != '}' {
        return None;
    }
    if skip_ws(s, e + 1, n) != n {
        return None;
    }
    let name_key = String::from_str("name");
    let email_key = String::from_str("email");
    if m1.0 == name_key && m2.0 == email_key {
        Some(User { name: m1.1, email: m2.1 })
    } else if m1.0 == email_key && m2.0 == name_key {
        Some(User { name: m2.1, email: m1.1 })
    } else {
        None
    }
}

// ---------------------------------------------------------------------------
// Round trip
// ---------------------------------------------------------------------------
/// Escaping changes nothing on a text whose characters all stand for
/// themselves.
pub proof fn lemma_escape_plain(v: Seq<char>)
    requires
        forall|k: int| 0 <= k < v.len() ==> spec_escape_char(v[k]) == seq![v[k]],
    ensures
        spec_escape(v) == v,
    decreases v.len(),
{
    if v.len() == 0 {
        assert(spec_escape(v) =~= v);
    } else {
        let v2 = v.skip(1);
        assert forall|k: int| 0 <= k < v2.len() implies spec_escape_char(v2[k]) == seq![v2[k]] by {
            assert(v2[k] == v[k + 1]);
        }
        lemma_escape_plain(v2);
        assert(spec_escape(v) == seq![v[0]] + v2);
        assert(seq![v[0]] + v2 =~= v);
    }
}

/// What the string-literal parser reads back from an escaped text: exactly
/// the text that was escaped, ending just past the closing quote that
/// follows it.
pub proof fn lemma_parse_escaped(s: Seq<char>, i: int, v: Seq<char>)
    requires
        0 <= i,
        i + spec_escape(v).len() + 1 <= s.len(),
        s.subrange(i, i + spec_escape(v).len()) == spec_escape(v),
        s[i + spec_escape(v).len()] == '"',
    ensures
        spec_parse_str_body(s, i) == Some((v, i + spec_escape(v).len() + 1)),
    decreases v.len(),
{
    let ev = spec_escape(v);
    assert forall|k: int| 0 <= k < ev.len() implies s[i + k] == ev[k] by {
        assert(ev[k] == s.subrange(i, i + ev.len())[k]);
    }
    if v.len() == 0 {
        assert(ev =~= Seq::<char>::empty());
        assert(s[i] == '"');
        assert(v =~= Seq::<char>::empty());
    } else {
        let c = v[0];
        let e = spec_escape_char(c);
        let v2 = v.skip(1);
        let e2 = spec_escape(v2);
        assert(ev == e + e2);
        assert(ev.len() == e.len() + e2.len());
        assert(s.subrange(i + e.len(), i + e.len() + e2.len()) =~= e2) by {
            assert forall|k: int| 0 <= k < e2.len() implies s[i + e.len() + k] == e2[k] by {
                assert(ev[e.len() + k] == e2[k]);
                assert(s[i + (e.len() + k)] == ev[e.len() + k]);
            }
        }
        assert(s[i + e.len() + e2.len()] == '"');
        let escaped = c == '"' || c == '\\' || c == '\u{8}' || c == '\u{c}' || c == '\n' || c
            == '\r' || c == '\t';
        if escaped {
            assert(e.len() == 2 && e[0] == '\\' && spec_unescape(e[1]) == Some(c));
            assert(e[1] != 'u');
            assert(s[i] == ev[0] && ev[0] == '\\');
            assert(s[i + 1] == ev[1] && ev[1] == e[1]);
            lemma_parse_escaped(s, i + 2, v2);
            assert(spec_parse_str_body(s, i + 2) == Some((v2, i + 2 + e2.len() + 1)));
            assert(i + 1 < s.len());
            assert(spec_parse_str_body(s, i) == Some((seq![c] + v2, i + 2 + e2.len() + 1)));
            assert(seq![c] + v2 =~= v);
        } else if (c as u32) < 32 {
            let cu = (c as u32) as int;
            let d1 = cu / 16;
            let d2 = cu % 16;
            assert(e == seq![
                '\\',
                'u',
                '0',
                '0',
                spec_hex_digit_char(d1),
                spec_hex_digit_char(d2),
            ]);
            assert(s[i] == ev[0] && ev[0] == '\\');
            assert(s[i + 1] == ev[1] && ev[1] == 'u');
            assert(s[i + 2] == ev[2] && ev[2] == '0');
            assert(s[i + 3] == ev[3] && ev[3] == '0');
            assert(s[i + 4] == ev[4] && ev[4] == spec_hex_digit_char(d1));
            assert(s[i + 5] == ev[5] && ev[5] == spec_hex_digit_char(d2));
            assert(0 <= d1 < 16 && 0 <= d2 < 16);
            assert(spec_is_hex_digit('0') && spec_hex_val('0') == 0);
            assert(spec_is_hex_digit(spec_hex_digit_char(d1)) && spec_hex_val(
                spec_hex_digit_char(d1),
            ) == d1);
            assert(spec_is_hex_digit(spec_hex_digit_char(d2)) && spec_hex_val(
                spec_hex_digit_char(d2),
            ) == d2);
            assert(spec_hex4_ok(s, i + 2));
            assert(spec_hex4(s, i + 2) == d1 * 16 + d2);
            assert(d1 * 16 + d2 == cu);
            assert(!spec_is_low_surrogate(cu) && !spec_is_high_surrogate(cu));
            lemma_parse_escaped(s, i + 6, v2);
            assert(spec_parse_str_body(s, i + 6) == Some((v2, i + 6 + e2.len() + 1)));
            vstd::utf8::char_u32_cast(c, c as u32);
            assert(((cu as u32) as char) == c);
            assert(spec_parse_str_body(s, i) == Some((seq![c] + v2, i + 6 + e2.len() + 1)));
            assert(seq![c] + v2 =~= v);
        } else {
            assert(e == seq![c]);
            assert(ev[0] == c);
            assert(s[i + 0] == ev[0]);
            assert(s[i] == c);
            assert((c as u32) >= 32);
            lemma_parse_escaped(s, i + 1, v2);
            assert(spec_parse_str_body(s, i + 1) == Some((v2, i + 1 + e2.len() + 1)));
            assert(spec_parse_str_body(s, i) == Some((seq![c] + v2, i + 1 + e2.len() + 1)));
            assert(seq![c] + v2 =~= v);
        }
    }
}

/// The codec round trip: decoding what the encoder wrote gives back
/// exactly the fields that went in, for every user.
#[verifier::rlimit(100)]
pub proof fn lemma_encode_decode_roundtrip(u: UserView)
    ensures
        spec_decode_user(spec_encode_user(u)) == Some(u),
{
    reveal_strlit("{\"name\":\"");
    reveal_strlit("\",\"email\":\"");
    reveal_strlit("\"}");
    reveal_strlit("name");
    reveal_strlit("email");
    let lit1 = "{\"name\":\""@;
    let lit2 = "\",\"email\":\""@;
    let lit3 = "\"}"@;
    let en = spec_escape(u.name);
    let ee = spec_escape(u.email);
    let s = spec_encode_user(u);
    let a = en.len() as int;
    let b = ee.len() as int;
    assert(lit1.len() == 9);
    assert(lit2.len() == 11);
    assert(lit3.len() == 2);
    assert(s.len() == 22 + a + b);
    let q = 9 + a;
    let r = q + 11 + b;
    assert forall|k: int| 0 <= k < 9 implies s[k] == lit1[k] by {}
    assert forall|k: int| 0 <= k < a implies s[9 + k] == en[k] by {}
    assert forall|k: int| 0 <= k < 11 implies s[q + k] == lit2[k] by {}
    assert forall|k: int| 0 <= k < b implies s[q + 11 + k] == ee[k] by {}
    assert forall|k: int| 0 <= k < 2 implies s[r + k] == lit3[k] by {}
    // The object opener and the key of the first member.
    assert(s[0] == '{');
    assert(s[1] == '"');
    assert(spec_skip_ws(s, 0) == 0);
    assert(spec_skip_ws(s, 1) == 1);
    // First member: the literal key `name`, then the escaped name text.
    assert forall|k: int| 0 <= k < "name"@.len() implies spec_escape_char("name"@[k]) == seq![
        "name"@[k],
    ] by {}
    lemma_escape_plain("name"@);
    assert(s.subrange(2, 6) =~= "name"@) by {
        assert(s[2] == 'n' && s[3] == 'a' && s[4] == 'm' && s[5] == 'e');
    }
    assert(s[6] == '"');
    lemma_parse_escaped(s, 2, "name"@);
    assert(spec_parse_string(s, 1) == Some(("name"@, 7int)));
    assert(s[7] == ':');
    assert(spec_skip_ws(s, 7) == 7);
    assert(spec_skip_ws(s, 8) == 8);
    assert(s[8] == '"');
    assert(s.subrange(9, 9 + a) =~= en);
    assert(s[9 + a] == lit2[0] && lit2[0] == '"');
    lemma_parse_escaped(s, 9, u.name);
    assert(spec_parse_string(s, 8) == Some((u.name, q + 1)));
    assert(spec_parse_member(s, 1) == Some(("name"@, u.name, q + 1)));
    // The comma, then the second member: the key `email` and the escaped
    // email text.
    assert(s[q + 1] == ',');
    assert(spec_skip_ws(s, q + 1) == q + 1);
    assert(spec_skip_ws(s, q + 2) == q + 2);
    assert(s[q + 2] == '"');
    assert forall|k: int| 0 <= k < "email"@.len() implies spec_escape_char("email"@[k]) == seq![
        "email"@[k],
    ] by {}
    lemma_escape_plain("email"@);
    assert(s.subrange(q + 3, q + 8) =~= "email"@) by {
        assert(s[q + 3] == 'e' && s[q + 4] == 'm' && s[q + 5] == 'a' && s[q + 6] == 'i' && s[q + 7]
            == 'l');
    }
    assert(s[q + 8] == '"');
    lemma_parse_escaped(s, q + 3, "email"@);
    assert(spec_parse_string(s, q + 2) == Some(("email"@, q + 9)));
    assert(s[q + 9] == ':');
    assert(spec_skip_ws(s, q + 9) == q + 9);
    assert(spec_skip_ws(s, q + 10) == q + 10);
    assert(s[q + 10] == '"');
    assert(s.subrange(q + 11, q + 11 + b) =~= ee);
    assert(s[q + 11 + b] == lit3[0] && lit3[0] == '"');
    lemma_parse_escaped(s, q + 11, u.email);
    assert(spec_parse_string(s, q + 10) == Some((u.email, r + 1)));
    assert(spec_parse_member(s, q + 2) == Some(("email"@, u.email, r + 1)));
    // The object closer, and nothing after it.
    assert(s[r + 1] == '}');
    assert(spec_skip_ws(s, r + 1) == r + 1);
    assert(spec_skip_ws(s, r + 2) == r + 2 && r + 2 == s.len());
    assert(spec_decode_user(s) == Some(UserView { name: u.name, email: u.email }));
    assert(UserView { name: u.name, email: u.email } == u);
}

} // verus!
