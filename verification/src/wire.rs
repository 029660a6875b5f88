//! The profile's JSON wire form: the camelCase object
//! `{"userId":...,"displayName":...,"pictureUrl":...,"statusMessage":...}`.
//! Rendering and parsing are defined as spec functions, implemented by
//! verified executable code, and proved to round-trip: parsing a rendered
//! profile reproduces all four fields unchanged.

use vstd::prelude::*;
use vstd::string::StrSliceExecFns;
use vstd::string::StringExecFns;

use crate::models::{Profile, ProfileView, opt_profile_view};

verus! {

/// Appending one character to a string.
pub assume_specification[ String::push ](s: &mut String, c: char)
    ensures
        final(s)@ == old(s)@.push(c),
;

/// The lowercase hex digit of a value below 16.
pub open spec fn hex_digit(n: int) -> char {
    if n == 0 { '0' } else if n == 1 { '1' } else if n == 2 { '2' } else if n == 3 { '3' }
    else if n == 4 { '4' } else if n == 5 { '5' } else if n == 6 { '6' } else if n == 7 { '7' }
    else if n == 8 { '8' } else if n == 9 { '9' } else if n == 10 { 'a' } else if n == 11 { 'b' }
    else if n == 12 { 'c' } else if n == 13 { 'd' } else if n == 14 { 'e' } else { 'f' }
}

/// The value of a hex digit, upper or lower case; 16 marks a non-digit.
pub open spec fn hex_val(c: char) -> int {
    if c == '0' { 0 } else if c == '1' { 1 } else if c == '2' { 2 } else if c == '3' { 3 }
    else if c == '4' { 4 } else if c == '5' { 5 } else if c == '6' { 6 } else if c == '7' { 7 }
    else if c == '8' { 8 } else if c == '9' { 9 } else if c == 'a' || c == 'A' { 10 }
    else if c == 'b' || c == 'B' { 11 } else if c == 'c' || c == 'C' { 12 }
    else if c == 'd' || c == 'D' { 13 } else if c == 'e' || c == 'E' { 14 }
    else if c == 'f' || c == 'F' { 15 } else { 16 }
}

pub open spec fn is_hex(c: char) -> bool {
    hex_val(c) < 16
}

/// The value of four hex digits.
pub open spec fn hex4(a: char, b: char, c: char, d: char) -> int {
    ((hex_val(a) * 16 + hex_val(b)) * 16 + hex_val(c)) * 16 + hex_val(d)
}

/// How one character is written inside a JSON string: quote and
/// backslash get a backslash escape, control characters the uniform
/// `\u00XX` form, and everything else stands as itself.
pub open spec fn escape_char(c: char) -> Seq<char> {
    if c == '"' {
        seq!['\\', '"']
    } else if c == '\\' {
        seq!['\\', '\\']
    } else if (c as int) < 0x20 {
        seq!['\\', 'u', '0', '0', hex_digit((c as int) / 16), hex_digit((c as int) % 16)]
    } else {
        seq![c]
    }
}

/// A whole string escaped, character by character.
pub open spec fn escape_seq(s: Seq<char>) -> Seq<char>
    decreases s.len(),
{
    if s.len() == 0 {
        Seq::empty()
    } else {
        escape_char(s[0]) + escape_seq(s.drop_first())
    }
}

/// The character a short escape stands for.
pub open spec fn unescape_short(e: char) -> char {
    if e == '"' { '"' } else if e == '\\' { '\\' } else if e == '/' { '/' }
    else if e == 'n' { '\n' } else if e == 'r' { '\r' } else if e == 't' { '\t' }
    else if e == 'b' { '\u{8}' } else { '\u{c}' }
}

pub open spec fn is_short_escape(e: char) -> bool {
    e == '"' || e == '\\' || e == '/' || e == 'n' || e == 'r' || e == 't' || e == 'b' || e == 'f'
}

/// Reads a JSON string body up to and including its closing quote:
/// the decoded content and what follows the quote. Accepts the short
/// escapes and `\u00XX` for control characters; a raw control character
/// or a malformed escape fails.
pub open spec fn parse_string(s: Seq<char>) -> Option<(Seq<char>, Seq<char>)>
    decreases s.len(),
{
    if s.len() == 0 {
        None
    } else if s[0] == '"' {
        Some((Seq::empty(), s.drop_first()))
    } else if s[0] == '\\' {
        if s.len() < 2 {
            None
        } else if is_short_escape(s[1]) {
            match parse_string(s.skip(2)) {
                Some(p) => Some((seq![unescape_short(s[1])] + p.0, p.1)),
                None => None,
            }
        } else if s[1] == 'u' {
            if s.len() < 6 {
                None
            } else if !(is_hex(s[2]) && is_hex(s[3]) && is_hex(s[4]) && is_hex(s[5])) {
                None
            } else if hex4(s[2], s[3], s[4], s[5]) < 0xD800 || hex4(s[2], s[3], s[4], s[5])
                > 0xDFFF {
                match parse_string(s.skip(6)) {
                    Some(p) => Some((seq![(hex4(s[2], s[3], s[4], s[5]) as char)] + p.0, p.1)),
                    None => None,
                }
            } else if hex4(s[2], s[3], s[4], s[5]) <= 0xDBFF {
                if s.len() < 12 {
                    None
                } else if s[6] == '\\' && s[7] == 'u' && is_hex(s[8]) && is_hex(s[9]) && is_hex(
                    s[10],
                ) && is_hex(s[11]) && 0xDC00 <= hex4(s[8], s[9], s[10], s[11]) <= 0xDFFF {
                    match parse_string(s.skip(12)) {
                        Some(p) => Some(
                            (
                                seq![
                                    ((0x10000 + (hex4(s[2], s[3], s[4], s[5]) - 0xD800) * 0x400
                                        + (hex4(s[8], s[9], s[10], s[11]) - 0xDC00)) as char),
                                ] + p.0,
                                p.1,
                            ),
                        ),
                        None => None,
                    }
                } else {
                    None
                }
            } else {
                None
            }
        } else {
            None
        }
    } else if (s[0] as int) < 0x20 {
        None
    } else {
        match parse_string(s.drop_first()) {
            Some(p) => Some((seq![s[0]] + p.0, p.1)),
            None => None,
        }
    }
}

/// JSON's insignificant whitespace.
pub open spec fn is_ws(c: char) -> bool {
    c == ' ' || c == '\t' || c == '\n' || c == '\r'
}

/// Drops leading whitespace.
pub open spec fn skip_ws(s: Seq<char>) -> Seq<char>
    decreases s.len(),
{
    if s.len() > 0 && is_ws(s[0]) {
        skip_ws(s.drop_first())
    } else {
        s
    }
}

/// One `"key": "value"` member, read from the key's opening quote:
/// the decoded key, the decoded value, and what follows the value's
/// closing quote.
pub open spec fn parse_member(s: Seq<char>) -> Option<((Seq<char>, Seq<char>), Seq<char>)> {
    if s.len() == 0 || s[0] != '"' {
        None
    } else {
        match parse_string(s.drop_first()) {
            None => None,
            Some(k) => {
                let at_colon = skip_ws(k.1);
                if at_colon.len() == 0 || at_colon[0] != ':' {
                    None
                } else {
                    let at_value = skip_ws(at_colon.drop_first());
                    if at_value.len() == 0 || at_value[0] != '"' {
                        None
                    } else {
                        match parse_string(at_value.drop_first()) {
                            None => None,
                            Some(v) => Some(((k.0, v.0), v.1)),
                        }
                    }
                }
            },
        }
    }
}

/// The four fields while members are read in any order.
pub ghost struct PartialProfile {
    pub user_id: Option<Seq<char>>,
    pub display_name: Option<Seq<char>>,
    pub picture_url: Option<Seq<char>>,
    pub status_message: Option<Seq<char>>,
}

pub open spec fn empty_partial() -> PartialProfile {
    PartialProfile { user_id: None, display_name: None, picture_url: None, status_message: None }
}

/// Records a member under its key: each of the four known keys at most
/// once (a repeat rejects the document); an unknown member is skipped.
pub open spec fn set_member(acc: PartialProfile, key: Seq<char>, value: Seq<char>) -> Option<
    PartialProfile,
> {
    if key == "userId"@ {
        if acc.user_id is Some {
            None
        } else {
            Some(PartialProfile { user_id: Some(value), ..acc })
        }
    } else if key == "displayName"@ {
        if acc.display_name is Some {
            None
        } else {
            Some(PartialProfile { display_name: Some(value), ..acc })
        }
    } else if key == "pictureUrl"@ {
        if acc.picture_url is Some {
            None
        } else {
            Some(PartialProfile { picture_url: Some(value), ..acc })
        }
    } else if key == "statusMessage"@ {
        if acc.status_message is Some {
            None
        } else {
            Some(PartialProfile { status_message: Some(value), ..acc })
        }
    } else {
        Some(acc)
    }
}

/// Reads comma-separated members up to the closing brace, whose
/// follower is returned. `fuel` bounds the rounds; every caller passes
/// the remainder's length, which always suffices since each member
/// consumes characters.
pub open spec fn parse_rounds(s: Seq<char>, acc: PartialProfile, fuel: nat) -> Option<
    (PartialProfile, Seq<char>),
>
    decreases fuel,
{
    match parse_member(s) {
        None => None,
        Some(m) => match set_member(acc, m.0.0, m.0.1) {
            None => None,
            Some(acc2) => {
                let t = skip_ws(m.1);
                if t.len() > 0 && t[0] == ',' {
                    if fuel == 0 {
                        None
                    } else {
                        parse_rounds(skip_ws(t.drop_first()), acc2, (fuel - 1) as nat)
                    }
                } else if t.len() > 0 && t[0] == '}' {
                    Some((acc2, t.drop_first()))
                } else {
                    None
                }
            },
        },
    }
}

/// The rendered wire form of a profile.
pub open spec fn spec_render_profile(p: ProfileView) -> Seq<char> {
    "{\"userId\":\""@ + escape_seq(p.user_id) + "\",\"displayName\":\""@ + escape_seq(
        p.display_name,
    ) + "\",\"pictureUrl\":\""@ + escape_seq(p.picture_url) + "\",\"statusMessage\":\""@
        + escape_seq(p.status_message) + "\"}"@
}

/// The parse of a profile object: braces around the four members in
/// any order, each exactly once, with insignificant whitespace free and
/// unknown string-valued members skipped, as JSON allows.
pub open spec fn spec_parse_profile(s: Seq<char>) -> Option<ProfileView> {
    let at_brace = skip_ws(s);
    if at_brace.len() == 0 || at_brace[0] != '{' {
        None
    } else {
        let body = skip_ws(at_brace.drop_first());
        match parse_rounds(body, empty_partial(), body.len()) {
            None => None,
            Some(r) => if skip_ws(r.1).len() == 0 {
                match (r.0.user_id, r.0.display_name, r.0.picture_url, r.0.status_message) {
                    (Some(u), Some(d), Some(pu), Some(sm)) => Some(
                        ProfileView {
                            user_id: u,
                            display_name: d,
                            picture_url: pu,
                            status_message: sm,
                        },
                    ),
                    _ => None,
                }
            } else {
                None
            },
        }
    }
}

/// Every char's code point is a valid Unicode scalar value.
proof fn lemma_char_bound(c: char)
    ensures
        0 <= c as int <= 0x10FFFF,
{
}

/// Hex digits decode back to their value.
proof fn lemma_hex_roundtrip(n: int)
    requires
        0 <= n < 16,
    ensures
        is_hex(hex_digit(n)),
        hex_val(hex_digit(n)) == n,
{
}

/// Parsing an escaped string followed by its closing quote yields the
/// unescaped content and leaves exactly the tail.
proof fn lemma_parse_escaped(s: Seq<char>, tail: Seq<char>)
    ensures
        parse_string(escape_seq(s) + seq!['"'] + tail) == Some((s, tail)),
    decreases s.len(),
{
    let input = escape_seq(s) + seq!['"'] + tail;
    if s.len() == 0 {
        assert(escape_seq(s) =~= Seq::<char>::empty());
        assert(input[0] == '"');
        assert(input.drop_first() =~= tail);
    } else {
        let c = s[0];
        let s2 = s.drop_first();
        lemma_parse_escaped(s2, tail);
        let rest_input = escape_seq(s2) + seq!['"'] + tail;
        assert(input =~= escape_char(c) + rest_input);
        if c == '"' || c == '\\' {
            assert(input[0] == '\\');
            assert(input[1] == c);
            assert(is_short_escape(c));
            assert(unescape_short(c) == c);
            assert(input.skip(2) =~= rest_input);
            assert(seq![c] + s2 =~= s);
        } else if (c as int) < 0x20 {
            lemma_char_bound(c);
            let hi = (c as int) / 16;
            let lo = (c as int) % 16;
            lemma_hex_roundtrip(hi);
            lemma_hex_roundtrip(lo);
            assert(input[0] == '\\');
            assert(input[1] == 'u');
            assert(input[2] == '0');
            assert(input[3] == '0');
            assert(input[4] == hex_digit(hi));
            assert(input[5] == hex_digit(lo));
            assert(!is_short_escape('u'));
            assert(is_hex('0'));
            assert(hex4(input[2], input[3], input[4], input[5]) == c as int);
            assert(((c as int) as char) == c);
            assert(input.skip(6) =~= rest_input);
            assert(seq![c] + s2 =~= s);
        } else {
            assert(input[0] == c);
            assert(input[0] != '"' && input[0] != '\\');
            assert(input.drop_first() =~= rest_input);
            assert(seq![c] + s2 =~= s);
        }
    }
}

/// A string without quotes, backslashes or control characters escapes
/// to itself.
proof fn lemma_escape_plain(s: Seq<char>)
    requires
        forall|i: int| 0 <= i < s.len() ==> s[i] != '"' && s[i] != '\\' && (s[i] as int) >= 0x20,
    ensures
        escape_seq(s) == s,
    decreases s.len(),
{
    if s.len() == 0 {
        assert(escape_seq(s) =~= s);
    } else {
        let rest = s.drop_first();
        assert forall|i: int|
            0 <= i < rest.len() implies rest[i] != '"' && rest[i] != '\\' && (rest[i] as int)
            >= 0x20 by {
            assert(rest[i] == s[i + 1]);
        }
        lemma_escape_plain(rest);
        assert(escape_char(s[0]) =~= seq![s[0]]);
        assert(escape_seq(s) =~= s);
    }
}

/// Parsing one rendered member from its opening quote yields its key,
/// its decoded value, and exactly the given tail.
proof fn lemma_parse_member(key: Seq<char>, value: Seq<char>, tail: Seq<char>)
    requires
        forall|i: int|
            0 <= i < key.len() ==> key[i] != '"' && key[i] != '\\' && (key[i] as int) >= 0x20,
        key.len() == 0 || !is_ws(key[0]),
    ensures
        parse_member(
            seq!['"'] + (key + (seq!['"'] + (seq![':'] + (seq!['"'] + (escape_seq(value) + (seq![
                '"',
            ] + tail)))))),
        ) == Some(((key, value), tail)),
{
    let b = seq![':'] + (seq!['"'] + (escape_seq(value) + (seq!['"'] + tail)));
    let m = seq!['"'] + (key + (seq!['"'] + b));
    lemma_escape_plain(key);
    assert(m[0] == '"');
    assert(m.drop_first() =~= escape_seq(key) + seq!['"'] + b);
    lemma_parse_escaped(key, b);
    assert(b[0] == ':');
    assert(skip_ws(b) == b);
    let at_value = seq!['"'] + (escape_seq(value) + (seq!['"'] + tail));
    assert(b.drop_first() =~= at_value);
    assert(at_value[0] == '"');
    assert(skip_ws(at_value) == at_value);
    assert(at_value.drop_first() =~= escape_seq(value) + seq!['"'] + tail);
    lemma_parse_escaped(value, tail);
}

/// Parsing a rendered profile reproduces all four fields unchanged: the
/// wire form loses nothing.
#[verifier::rlimit(100)]
pub proof fn lemma_profile_roundtrip(p: ProfileView)
    ensures
        spec_parse_profile(spec_render_profile(p)) == Some(p),
{
    let q = seq!['"'];
    let ku = "userId"@;
    let kd = "displayName"@;
    let kp = "pictureUrl"@;
    let km = "statusMessage"@;
    reveal_strlit("userId");
    reveal_strlit("displayName");
    reveal_strlit("pictureUrl");
    reveal_strlit("statusMessage");
    reveal_strlit("{\"userId\":\"");
    reveal_strlit("\",\"displayName\":\"");
    reveal_strlit("\",\"pictureUrl\":\"");
    reveal_strlit("\",\"statusMessage\":\"");
    reveal_strlit("\"}");
    let t4 = seq!['}'];
    let s4 = q + (km + (q + (seq![':'] + (q + (escape_seq(p.status_message) + (q + t4))))));
    let t3 = seq![','] + s4;
    let s3 = q + (kp + (q + (seq![':'] + (q + (escape_seq(p.picture_url) + (q + t3))))));
    let t2 = seq![','] + s3;
    let s2 = q + (kd + (q + (seq![':'] + (q + (escape_seq(p.display_name) + (q + t2))))));
    let t1 = seq![','] + s2;
    let s1 = q + (ku + (q + (seq![':'] + (q + (escape_seq(p.user_id) + (q + t1))))));
    let render = spec_render_profile(p);
    assert(render =~= seq!['{'] + s1);
    lemma_parse_member(ku, p.user_id, t1);
    lemma_parse_member(kd, p.display_name, t2);
    lemma_parse_member(kp, p.picture_url, t3);
    lemma_parse_member(km, p.status_message, t4);
    assert(render[0] == '{');
    assert(skip_ws(render) == render);
    assert(render.drop_first() =~= s1);
    assert(skip_ws(s1) == s1);
    let f1 = s1.len();
    let a0 = empty_partial();
    let a1 = PartialProfile { user_id: Some(p.user_id), ..a0 };
    let a2 = PartialProfile { display_name: Some(p.display_name), ..a1 };
    let a3 = PartialProfile { picture_url: Some(p.picture_url), ..a2 };
    let a4 = PartialProfile { status_message: Some(p.status_message), ..a3 };
    assert(set_member(a0, ku, p.user_id) == Some(a1));
    assert(set_member(a1, kd, p.display_name) == Some(a2));
    assert(set_member(a2, kp, p.picture_url) == Some(a3));
    assert(set_member(a3, km, p.status_message) == Some(a4));
    assert(skip_ws(t1) == t1 && t1[0] == ',');
    assert(skip_ws(t2) == t2 && t2[0] == ',');
    assert(skip_ws(t3) == t3 && t3[0] == ',');
    assert(skip_ws(t4) == t4 && t4[0] == '}');
    assert(t1.drop_first() =~= s2 && skip_ws(s2) == s2);
    assert(t2.drop_first() =~= s3 && skip_ws(s3) == s3);
    assert(t3.drop_first() =~= s4 && skip_ws(s4) == s4);
    assert(f1 >= 3);
    assert(parse_rounds(s1, a0, f1) == parse_rounds(s2, a1, (f1 - 1) as nat));
    assert(parse_rounds(s2, a1, (f1 - 1) as nat) == parse_rounds(s3, a2, (f1 - 2) as nat));
    assert(parse_rounds(s3, a2, (f1 - 2) as nat) == parse_rounds(s4, a3, (f1 - 3) as nat));
    assert(parse_rounds(s4, a3, (f1 - 3) as nat) == Some((a4, t4.drop_first())));
    assert(t4.drop_first() =~= Seq::<char>::empty());
    assert(skip_ws(t4.drop_first()).len() == 0);
}

/// Turning a code point back into its character; relies on std's
/// char::from_u32: `Some` exactly for Unicode scalar values (not a
/// surrogate, at most 0x10FFFF), the character with that code.
pub assume_specification[ char::from_u32 ](code: u32) -> (r: Option<char>)
    ensures
        (r is Some) == (code < 0xD800 || (0xE000 <= code && code <= 0x10FFFF)),
        (match r {
            Some(c) => c as int == code as int,
            None => true,
        }),
;

/// Escaping distributes over appending one character at the end.
proof fn lemma_escape_snoc(s: Seq<char>, c: char)
    ensures
        escape_seq(s.push(c)) == escape_seq(s) + escape_char(c),
    decreases s.len(),
{
    if s.len() == 0 {
        assert(s =~= Seq::<char>::empty());
        assert(s.push(c)[0] == c);
        assert(s.push(c).drop_first() =~= s);
        assert(escape_seq(s.push(c)) =~= escape_seq(s) + escape_char(c));
    } else {
        assert(s.push(c)[0] == s[0]);
        assert(s.push(c).drop_first() =~= s.drop_first().push(c));
        lemma_escape_snoc(s.drop_first(), c);
        assert(escape_seq(s.push(c)) =~= escape_seq(s) + escape_char(c));
    }
}

fn hex_digit_exec(n: u32) -> (r: char)
    requires
        n < 16,
    ensures
        r == hex_digit(n as int),
{
    if n == 0 { '0' } else if n == 1 { '1' } else if n == 2 { '2' } else if n == 3 { '3' }
    else if n == 4 { '4' } else if n == 5 { '5' } else if n == 6 { '6' } else if n == 7 { '7' }
    else if n == 8 { '8' } else if n == 9 { '9' } else if n == 10 { 'a' } else if n == 11 { 'b' }
    else if n == 12 { 'c' } else if n == 13 { 'd' } else if n == 14 { 'e' } else { 'f' }
}

fn hex_val_exec(c: char) -> (r: u32)
    ensures
        r as int == hex_val(c),
{
    if c == '0' { 0 } else if c == '1' { 1 } else if c == '2' { 2 } else if c == '3' { 3 }
    else if c == '4' { 4 } else if c == '5' { 5 } else if c == '6' { 6 } else if c == '7' { 7 }
    else if c == '8' { 8 } else if c == '9' { 9 } else if c == 'a' || c == 'A' { 10 }
    else if c == 'b' || c == 'B' { 11 } else if c == 'c' || c == 'C' { 12 }
    else if c == 'd' || c == 'D' { 13 } else if c == 'e' || c == 'E' { 14 }
    else if c == 'f' || c == 'F' { 15 } else { 16 }
}

fn unescape_short_exec(e: char) -> (r: char)
    ensures
        r == unescape_short(e),
{
    if e == '"' { '"' } else if e == '\\' { '\\' } else if e == '/' { '/' }
    else if e == 'n' { '\n' } else if e == 'r' { '\r' } else if e == 't' { '\t' }
    else if e == 'b' { '\u{8}' } else { '\u{c}' }
}

/// Appends the escaped form of `field` to `out`.
fn push_escaped(out: &mut String, field: &str)
    ensures
        final(out)@ == old(out)@ + escape_seq(field@),
{
    let ghost base = out@;
    let n = field.unicode_len();
    proof {
        assert(field@.take(0) =~= Seq::<char>::empty());
        assert(base + escape_seq(field@.take(0)) =~= base);
    }
    let mut i: usize = 0;
    while i < n
        invariant
            n == field@.len(),
            i <= n,
            out@ == base + escape_seq(field@.take(i as int)),
        decreases n - i,
    {
        let c = field.get_char(i);
        proof {
            lemma_char_bound(c);
        }
        if c == '"' {
            out.push('\\');
            out.push('"');
        } else if c == '\\' {
            out.push('\\');
            out.push('\\');
        } else if (c as u32) < 0x20 {
            let code = c as u32;
            out.push('\\');
            out.push('u');
            out.push('0');
            out.push('0');
            out.push(hex_digit_exec(code / 16));
            out.push(hex_digit_exec(code % 16));
        } else {
            out.push(c);
        }
        proof {
            let prev = base + escape_seq(field@.take(i as int));
            assert(out@ =~= prev + escape_char(c));
            lemma_escape_snoc(field@.take(i as int), c);
            assert(field@.take(i + 1) =~= field@.take(i as int).push(c));
            assert(out@ =~= base + escape_seq(field@.take(i + 1)));
        }
        i += 1;
    }
    proof {
        assert(field@.take(n as int) =~= field@);
    }
}

/// Renders the profile to its wire form.
pub fn profile_to_json(p: &Profile) -> (r: String)
    ensures
        r@ == spec_render_profile(p@),
{
    let mut out = "{\"userId\":\"".to_owned();
    push_escaped(&mut out, p.user_id().as_str());
    out.append("\",\"displayName\":\"");
    push_escaped(&mut out, p.display_name().as_str());
    out.append("\",\"pictureUrl\":\"");
    push_escaped(&mut out, p.picture_url().as_str());
    out.append("\",\"statusMessage\":\"");
    push_escaped(&mut out, p.status_message().as_str());
    out.append("\"}");
    out
}

fn chars_of(s: &str) -> (r: Vec<char>)
    ensures
        r@ == s@,
{
    let n = s.unicode_len();
    let mut v: Vec<char> = Vec::new();
    proof {
        assert(v@ =~= s@.take(0));
    }
    let mut i: usize = 0;
    while i < n
        invariant
            n == s@.len(),
            i <= n,
            v@ == s@.take(i as int),
        decreases n - i,
    {
        let c = s.get_char(i);
        v.push(c);
        proof {
            assert(s@.take(i + 1) =~= s@.take(i as int).push(s@[i as int]));
        }
        i += 1;
    }
    proof {
        assert(s@.take(n as int) =~= s@);
    }
    v
}

fn string_of(v: &Vec<char>) -> (r: String)
    ensures
        r@ == v@,
{
    let mut out = String::new();
    let mut i: usize = 0;
    proof {
        assert(out@ =~= v@.take(0));
    }
    while i < v.len()
        invariant
            i <= v@.len(),
            out@ == v@.take(i as int),
        decreases v@.len() - i,
    {
        out.push(v[i]);
        proof {
            assert(v@.take(i + 1) =~= v@.take(i as int).push(v@[i as int]));
        }
        i += 1;
    }
    proof {
        assert(v@.take(v@.len() as int) =~= v@);
    }
    out
}

/// Reads a JSON string body starting at `i`, mirroring `parse_string` on
/// the remainder: the decoded content and the index just past the
/// closing quote.
fn parse_string_at(v: &Vec<char>, i: usize) -> (r: Option<(Vec<char>, usize)>)
    requires
        i <= v@.len(),
    ensures
        (match r {
            Some(p) => p.1 <= v@.len() && parse_string(v@.skip(i as int)) == Some(
                (p.0@, v@.skip(p.1 as int)),
            ),
            None => parse_string(v@.skip(i as int)) is None,
        }),
    decreases v@.len() - i,
{
    let ghost s = v@.skip(i as int);
    if v.len() - i < 1 {
        return None;
    }
    let c = v[i];
    proof {
        lemma_char_bound(c);
        assert(s[0] == c);
    }
    if c == '"' {
        proof {
            assert(s.drop_first() =~= v@.skip(i + 1));
        }
        return Some((Vec::new(), i + 1));
    }
    if c == '\\' {
        if v.len() - i < 2 {
            return None;
        }
        let e = v[i + 1];
        proof {
            assert(s[1] == e);
        }
        if e == '"' || e == '\\' || e == '/' || e == 'n' || e == 'r' || e == 't' || e == 'b'
            || e == 'f' {
            let d = unescape_short_exec(e);
            proof {
                assert(v@.skip(i + 2) =~= s.skip(2));
            }
            match parse_string_at(v, i + 2) {
                None => None,
                Some((mut content, j)) => {
                    let ghost before = content@;
                    content.insert(0, d);
                    proof {
                        assert(content@ =~= seq![unescape_short(e)] + before);
                        assert(parse_string(s) == Some((content@, v@.skip(j as int))));
                    }
                    Some((content, j))
                },
            }
        } else if e == 'u' {
            if v.len() - i < 6 {
                return None;
            }
            proof {
                assert(s[2] == v@[i + 2] && s[3] == v@[i + 3]);
                assert(s[4] == v@[i + 4] && s[5] == v@[i + 5]);
            }
            let h2 = hex_val_exec(v[i + 2]);
            let h3 = hex_val_exec(v[i + 3]);
            let h4 = hex_val_exec(v[i + 4]);
            let h5 = hex_val_exec(v[i + 5]);
            if h2 >= 16 || h3 >= 16 || h4 >= 16 || h5 >= 16 {
                return None;
            }
            let code = ((h2 * 16 + h3) * 16 + h4) * 16 + h5;
            proof {
                assert(code as int == hex4(s[2], s[3], s[4], s[5]));
            }
            if code < 0xD800 || code > 0xDFFF {
                let d = match char::from_u32(code) {
                    Some(d) => d,
                    None => {
                        proof {
                            assert(false);
                        }
                        return None;
                    },
                };
                proof {
                    assert(v@.skip(i + 6) =~= s.skip(6));
                    assert(d == (hex4(s[2], s[3], s[4], s[5]) as char));
                }
                match parse_string_at(v, i + 6) {
                    None => None,
                    Some((mut content, j)) => {
                        let ghost before = content@;
                        content.insert(0, d);
                        proof {
                            assert(content@ =~= seq![(hex4(s[2], s[3], s[4], s[5]) as char)]
                                + before);
                            assert(parse_string(s) == Some((content@, v@.skip(j as int))));
                        }
                        Some((content, j))
                    },
                }
            } else if code <= 0xDBFF {
                if v.len() - i < 12 {
                    return None;
                }
                proof {
                    assert(s[6] == v@[i + 6] && s[7] == v@[i + 7]);
                    assert(s[8] == v@[i + 8] && s[9] == v@[i + 9]);
                    assert(s[10] == v@[i + 10] && s[11] == v@[i + 11]);
                }
                if v[i + 6] == '\\' && v[i + 7] == 'u' {
                    let g8 = hex_val_exec(v[i + 8]);
                    let g9 = hex_val_exec(v[i + 9]);
                    let g10 = hex_val_exec(v[i + 10]);
                    let g11 = hex_val_exec(v[i + 11]);
                    if g8 >= 16 || g9 >= 16 || g10 >= 16 || g11 >= 16 {
                        return None;
                    }
                    let low = ((g8 * 16 + g9) * 16 + g10) * 16 + g11;
                    proof {
                        assert(low as int == hex4(s[8], s[9], s[10], s[11]));
                    }
                    if 0xDC00 <= low && low <= 0xDFFF {
                        let scalar = 0x10000 + (code - 0xD800) * 0x400 + (low - 0xDC00);
                        let d = match char::from_u32(scalar) {
                            Some(d) => d,
                            None => {
                                proof {
                                    assert(false);
                                }
                                return None;
                            },
                        };
                        proof {
                            assert(v@.skip(i + 12) =~= s.skip(12));
                            assert(d as int == 0x10000 + (hex4(s[2], s[3], s[4], s[5]) - 0xD800)
                                * 0x400 + (hex4(s[8], s[9], s[10], s[11]) - 0xDC00));
                        }
                        match parse_string_at(v, i + 12) {
                            None => None,
                            Some((mut content, j)) => {
                                let ghost before = content@;
                                content.insert(0, d);
                                proof {
                                    assert(content@ =~= seq![
                                        ((0x10000 + (hex4(s[2], s[3], s[4], s[5]) - 0xD800)
                                            * 0x400 + (hex4(s[8], s[9], s[10], s[11]) - 0xDC00))
                                            as char),
                                    ] + before);
                                    assert(parse_string(s) == Some((content@, v@.skip(j as int))));
                                }
                                Some((content, j))
                            },
                        }
                    } else {
                        None
                    }
                } else {
                    None
                }
            } else {
                None
            }
        } else {
            None
        }
    } else if (c as u32) < 0x20 {
        None
    } else {
        proof {
            assert(v@.skip(i + 1) =~= s.drop_first());
        }
        match parse_string_at(v, i + 1) {
            None => None,
            Some((mut content, j)) => {
                let ghost before = content@;
                content.insert(0, c);
                proof {
                    assert(content@ =~= seq![s[0]] + before);
                    assert(parse_string(s) == Some((content@, v@.skip(j as int))));
                }
                Some((content, j))
            },
        }
    }
}

/// Advances past whitespace, mirroring `skip_ws` on the remainder.
fn skip_ws_at(v: &Vec<char>, i: usize) -> (r: usize)
    requires
        i <= v@.len(),
    ensures
        i <= r <= v@.len(),
        v@.skip(r as int) == skip_ws(v@.skip(i as int)),
{
    let mut cur = i;
    while cur < v.len() && (v[cur] == ' ' || v[cur] == '\t' || v[cur] == '\n' || v[cur] == '\r')
        invariant
            i <= cur <= v@.len(),
            skip_ws(v@.skip(i as int)) == skip_ws(v@.skip(cur as int)),
        decreases v@.len() - cur,
    {
        proof {
            let s = v@.skip(cur as int);
            assert(s[0] == v@[cur as int]);
            assert(s.drop_first() =~= v@.skip(cur + 1));
            assert(skip_ws(s) == skip_ws(v@.skip(cur + 1)));
        }
        cur += 1;
    }
    proof {
        let s = v@.skip(cur as int);
        if s.len() > 0 {
            assert(s[0] == v@[cur as int]);
        }
        assert(skip_ws(s) == s);
    }
    cur
}

/// Reads one member starting at `i`, mirroring `parse_member` on the
/// remainder: decoded key, decoded value, index past the value's quote.
fn parse_member_at(v: &Vec<char>, i: usize) -> (r: Option<(Vec<char>, Vec<char>, usize)>)
    requires
        i <= v@.len(),
    ensures
        (match r {
            Some(t) => t.2 <= v@.len() && parse_member(v@.skip(i as int)) == Some(
                ((t.0@, t.1@), v@.skip(t.2 as int)),
            ),
            None => parse_member(v@.skip(i as int)) is None,
        }),
{
    let ghost s = v@.skip(i as int);
    if i == v.len() || v[i] != '"' {
        return None;
    }
    proof {
        assert(s[0] == v@[i as int]);
        assert(s.drop_first() =~= v@.skip(i + 1));
    }
    let (key, j1) = match parse_string_at(v, i + 1) {
        None => {
            return None;
        },
        Some(p) => p,
    };
    let j2 = skip_ws_at(v, j1);
    if j2 == v.len() || v[j2] != ':' {
        return None;
    }
    proof {
        assert(v@.skip(j2 as int)[0] == v@[j2 as int]);
        assert(v@.skip(j2 as int).drop_first() =~= v@.skip(j2 + 1));
    }
    let j3 = skip_ws_at(v, j2 + 1);
    if j3 == v.len() || v[j3] != '"' {
        return None;
    }
    proof {
        assert(v@.skip(j3 as int)[0] == v@[j3 as int]);
        assert(v@.skip(j3 as int).drop_first() =~= v@.skip(j3 + 1));
    }
    match parse_string_at(v, j3 + 1) {
        None => None,
        Some((value, j4)) => Some((key, value, j4)),
    }
}

/// The four fields while the executable parser reads members.
struct PartialFields {
    user_id: Option<String>,
    display_name: Option<String>,
    picture_url: Option<String>,
    status_message: Option<String>,
}

spec fn opt_string_view(o: Option<String>) -> Option<Seq<char>> {
    match o {
        Some(s) => Some(s@),
        None => None,
    }
}

spec fn partial_view(p: PartialFields) -> PartialProfile {
    PartialProfile {
        user_id: opt_string_view(p.user_id),
        display_name: opt_string_view(p.display_name),
        picture_url: opt_string_view(p.picture_url),
        status_message: opt_string_view(p.status_message),
    }
}

/// Records one member, mirroring `set_member`.
fn set_member_exec(acc: PartialFields, key: &Vec<char>, value: Vec<char>) -> (r: Option<
    PartialFields,
>)
    ensures
        (match r {
            Some(acc2) => set_member(partial_view(acc), key@, value@) == Some(partial_view(acc2)),
            None => set_member(partial_view(acc), key@, value@) is None,
        }),
{
    let key_s = string_of(key);
    let value_s = string_of(&value);
    if key_s == "userId".to_owned() {
        if acc.user_id.is_some() {
            None
        } else {
            Some(PartialFields { user_id: Some(value_s), ..acc })
        }
    } else if key_s == "displayName".to_owned() {
        if acc.display_name.is_some() {
            None
        } else {
            Some(PartialFields { display_name: Some(value_s), ..acc })
        }
    } else if key_s == "pictureUrl".to_owned() {
        if acc.picture_url.is_some() {
            None
        } else {
            Some(PartialFields { picture_url: Some(value_s), ..acc })
        }
    } else if key_s == "statusMessage".to_owned() {
        if acc.status_message.is_some() {
            None
        } else {
            Some(PartialFields { status_message: Some(value_s), ..acc })
        }
    } else {
        Some(acc)
    }
}

/// Reads members up to the closing brace, mirroring `parse_rounds`.
fn parse_rounds_at(v: &Vec<char>, i: usize, acc: PartialFields, fuel: usize) -> (r: Option<
    (PartialFields, usize),
>)
    requires
        i <= v@.len(),
    ensures
        (match r {
            Some(t) => t.1 <= v@.len() && parse_rounds(
                v@.skip(i as int),
                partial_view(acc),
                fuel as nat,
            ) == Some((partial_view(t.0), v@.skip(t.1 as int))),
            None => parse_rounds(v@.skip(i as int), partial_view(acc), fuel as nat) is None,
        }),
    decreases fuel,
{
    let (key, value, j) = match parse_member_at(v, i) {
        None => {
            return None;
        },
        Some(m) => m,
    };
    let acc2 = match set_member_exec(acc, &key, value) {
        None => {
            return None;
        },
        Some(a) => a,
    };
    let t = skip_ws_at(v, j);
    if t < v.len() && v[t] == ',' {
        if fuel == 0 {
            return None;
        }
        proof {
            assert(v@.skip(t as int)[0] == v@[t as int]);
            assert(v@.skip(t as int).drop_first() =~= v@.skip(t + 1));
        }
        let n = skip_ws_at(v, t + 1);
        parse_rounds_at(v, n, acc2, fuel - 1)
    } else if t < v.len() && v[t] == '}' {
        proof {
            assert(v@.skip(t as int)[0] == v@[t as int]);
            assert(v@.skip(t as int).drop_first() =~= v@.skip(t + 1));
        }
        Some((acc2, t + 1))
    } else {
        proof {
            if t < v.len() {
                assert(v@.skip(t as int)[0] == v@[t as int]);
            }
        }
        None
    }
}

/// Parses the wire form back into a profile; `None` exactly where
/// `spec_parse_profile` rejects.
pub fn profile_from_json(s: &str) -> (r: Option<Profile>)
    ensures
        opt_profile_view(r) == spec_parse_profile(s@),
{
    let v = chars_of(s);
    proof {
        assert(v@.skip(0) =~= s@);
    }
    let b = skip_ws_at(&v, 0);
    if b == v.len() || v[b] != '{' {
        proof {
            if b < v.len() {
                assert(v@.skip(b as int)[0] == v@[b as int]);
            }
        }
        return None;
    }
    proof {
        assert(v@.skip(b as int)[0] == v@[b as int]);
        assert(v@.skip(b as int).drop_first() =~= v@.skip(b + 1));
    }
    let start = skip_ws_at(&v, b + 1);
    let acc0 = PartialFields {
        user_id: None,
        display_name: None,
        picture_url: None,
        status_message: None,
    };
    let (filled, end) = match parse_rounds_at(&v, start, acc0, v.len() - start) {
        None => {
            return None;
        },
        Some(t) => t,
    };
    let tail = skip_ws_at(&v, end);
    if tail != v.len() {
        return None;
    }
    match (filled.user_id, filled.display_name, filled.picture_url, filled.status_message) {
        (Some(u), Some(d), Some(pu), Some(sm)) => Some(Profile::new(u, d, pu, sm)),
        _ => None,
    }
}

} // verus!
