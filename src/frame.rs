use vstd::prelude::*;
use vstd::string::StringExecFns;
use crate::types::{Message, rfc3339_of};

verus! {

/// A lowercase hexadecimal digit.
pub open spec fn hex_digit(d: nat) -> char {
    if d < 10 {
        digit_char(d)
    } else if d == 10 { 'a' }
    else if d == 11 { 'b' }
    else if d == 12 { 'c' }
    else if d == 13 { 'd' }
    else if d == 14 { 'e' }
    else { 'f' }
}

/// How one character is written inside a JSON string: quote and backslash
/// are escaped, the control characters with a short escape use it, the
/// other control characters below 0x20 become `\u00XX`, all else is copied.
pub open spec fn escape_char(c: char) -> Seq<char> {
    if c == '"' {
        seq!['\\', '"']
    } else if c == '\\' {
        seq!['\\', '\\']
    } else if c == '\x08' {
        seq!['\\', 'b']
    } else if c == '\t' {
        seq!['\\', 't']
    } else if c == '\n' {
        seq!['\\', 'n']
    } else if c == '\x0c' {
        seq!['\\', 'f']
    } else if c == '\r' {
        seq!['\\', 'r']
    } else if (c as u32) < 0x20 {
        seq!['\\', 'u', '0', '0', hex_digit((c as u32 / 16) as nat), hex_digit((c as u32 % 16) as nat)]
    } else {
        seq![c]
    }
}

/// The characters of `s`, each written as inside a JSON string.
pub open spec fn escaped(s: Seq<char>) -> Seq<char>
    decreases s.len(),
{
    if s.len() == 0 {
        Seq::empty()
    } else {
        escaped(s.drop_last()) + escape_char(s.last())
    }
}

/// The JSON string literal for the text `s`: its escaped characters in quotes.
pub open spec fn json_string_of(s: Seq<char>) -> Seq<char> {
    seq!['"'] + escaped(s) + seq!['"']
}

/// Relies on `serde_json::to_string` on a string slice: the text in quotes,
/// escaped by serde_json's ESCAPE table (quote, backslash, and the bytes
/// below 0x20; every other character is copied). Writing into memory, it
/// cannot fail.
#[verifier::external_body]
fn json_string(s: &str) -> (r: String)
    ensures
        r@ == json_string_of(s@),
{
    serde_json::to_string(s).unwrap_or_default()
}

pub open spec fn digit_char(d: nat) -> char {
    if d == 0 { '0' }
    else if d == 1 { '1' }
    else if d == 2 { '2' }
    else if d == 3 { '3' }
    else if d == 4 { '4' }
    else if d == 5 { '5' }
    else if d == 6 { '6' }
    else if d == 7 { '7' }
    else if d == 8 { '8' }
    else { '9' }
}

/// The decimal digits of `n`, most significant first, without leading zeros.
pub open spec fn digits_of(n: nat) -> Seq<char>
    decreases n,
{
    if n < 10 {
        seq![digit_char(n)]
    } else {
        digits_of(n / 10).push(digit_char(n % 10))
    }
}

/// The decimal text of `n`, with a leading `-` when it is negative.
pub open spec fn decimal_of(n: int) -> Seq<char> {
    if n < 0 {
        seq!['-'] + digits_of((-n) as nat)
    } else {
        digits_of(n as nat)
    }
}

fn digit_str(d: u64) -> (r: &'static str)
    requires
        d < 10,
    ensures
        r@ == seq![digit_char(d as nat)],
{
    proof {
        reveal_strlit("0");
        reveal_strlit("1");
        reveal_strlit("2");
        reveal_strlit("3");
        reveal_strlit("4");
        reveal_strlit("5");
        reveal_strlit("6");
        reveal_strlit("7");
        reveal_strlit("8");
        reveal_strlit("9");
    }
    if d == 0 { "0" }
    else if d == 1 { "1" }
    else if d == 2 { "2" }
    else if d == 3 { "3" }
    else if d == 4 { "4" }
    else if d == 5 { "5" }
    else if d == 6 { "6" }
    else if d == 7 { "7" }
    else if d == 8 { "8" }
    else { "9" }
}

fn append_digits(out: &mut String, n: u64)
    ensures
        final(out)@ == old(out)@ + digits_of(n as nat),
    decreases n,
{
    if n >= 10 {
        append_digits(out, n / 10);
    }
    out.append(digit_str(n % 10));
    proof {
        if n >= 10 {
            assert(old(out)@ + digits_of(n as nat) =~= old(out)@ + digits_of((n / 10) as nat) + seq![digit_char((n % 10) as nat)]);
        } else {
            assert(old(out)@ + digits_of(n as nat) =~= old(out)@ + seq![digit_char(n as nat)]);
        }
    }
}

/// Appends the decimal text of `n` to `out`.
pub fn append_decimal(out: &mut String, n: i32)
    ensures
        final(out)@ == old(out)@ + decimal_of(n as int),
{
    if n < 0 {
        proof {
            reveal_strlit("-");
        }
        out.append("-");
        let magnitude: u64 = (-(n as i64)) as u64;
        append_digits(out, magnitude);
        assert(final(out)@ =~= old(out)@ + decimal_of(n as int));
    } else {
        append_digits(out, n as u64);
    }
}

/// The JSON value of an optional text: its string literal, or `null`.
pub open spec fn nullable_json(s: Option<String>) -> Seq<char> {
    match s {
        Some(t) => json_string_of(t@),
        None => "null"@,
    }
}

/// The outbound wire frame for a stored message: a JSON object with the
/// fields in this fixed order, every recipient getting the same text.
pub open spec fn frame_text(m: Message) -> Seq<char> {
    "{\"content\":"@ + json_string_of(m.content@)
        + ",\"group_id\":"@ + decimal_of(m.group_id as int)
        + ",\"id\":"@ + decimal_of(m.id as int)
        + ",\"profile_picture\":"@ + nullable_json(m.profile_picture)
        + ",\"timestamp\":"@ + json_string_of(rfc3339_of(m.timestamp.spec_secs(), m.timestamp.spec_nanos()))
        + ",\"user_id\":"@ + decimal_of(m.user_id as int)
        + ",\"username\":"@ + json_string_of(m.username@)
        + "}"@
}

/// Serialises a stored message into its outbound wire frame.
pub fn encode_frame(m: &Message) -> (frame: String)
    ensures
        frame@ == frame_text(*m),
{
    let mut out = String::from_str("{\"content\":");
    out.append(json_string(m.content.as_str()).as_str());
    out.append(",\"group_id\":");
    append_decimal(&mut out, m.group_id);
    out.append(",\"id\":");
    append_decimal(&mut out, m.id);
    out.append(",\"profile_picture\":");
    match &m.profile_picture {
        Some(p) => out.append(json_string(p.as_str()).as_str()),
        None => out.append("null"),
    }
    out.append(",\"timestamp\":");
    out.append(json_string(m.timestamp.rfc3339()).as_str());
    out.append(",\"user_id\":");
    append_decimal(&mut out, m.user_id);
    out.append(",\"username\":");
    out.append(json_string(m.username.as_str()).as_str());
    out.append("}");
    out
}

} // verus!
