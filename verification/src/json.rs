//! JSON text, as far as the venues' subscription frames need it.

use vstd::prelude::*;

verus! {

/// The lowercase hexadecimal digit for `n`, which is below sixteen.
pub open spec fn hex_digit(n: u32) -> char {
    if n < 10 {
        (0x30 + n) as char
    } else {
        (0x57 + n) as char
    }
}

/// What stands for the character `c` inside a JSON string. The double quote
/// and the backslash get a backslash in front. The control characters below
/// U+0020 are written `\b`, `\t`, `\n`, `\f` and `\r` where JSON has such a
/// short form, and `\u00` with two hexadecimal digits where it has none.
/// Every other character stands for itself.
pub open spec fn escaped(c: char) -> Seq<char> {
    if c == '"' {
        seq!['\\', '"']
    } else if c == '\\' {
        seq!['\\', '\\']
    } else if c == '\u{08}' {
        seq!['\\', 'b']
    } else if c == '\t' {
        seq!['\\', 't']
    } else if c == '\n' {
        seq!['\\', 'n']
    } else if c == '\u{0c}' {
        seq!['\\', 'f']
    } else if c == '\r' {
        seq!['\\', 'r']
    } else if (c as u32) < 0x20 {
        seq!['\\', 'u', '0', '0', hex_digit(c as u32 / 16), hex_digit(c as u32 % 16)]
    } else {
        seq![c]
    }
}

/// The characters of `s`, each as it stands inside a JSON string.
pub open spec fn escaped_text(s: Seq<char>) -> Seq<char>
    decreases s.len(),
{
    if s.len() == 0 {
        Seq::empty()
    } else {
        escaped_text(s.drop_last()) + escaped(s.last())
    }
}

/// The JSON text that stands for the string `s`: its characters, escaped
/// where JSON asks for it, between two double quotes.
pub open spec fn json_string_text(s: Seq<char>) -> Seq<char> {
    seq!['"'] + escaped_text(s) + seq!['"']
}

/// Whether `c` stands for itself inside a JSON string: every character but
/// the double quote, the backslash and the control characters below U+0020.
pub open spec fn is_plain(c: char) -> bool {
    c != '"' && c != '\\' && c as u32 >= 0x20
}

/// Whether every character of `s` stands for itself inside a JSON string.
pub open spec fn is_plain_text(s: Seq<char>) -> bool {
    forall|i: int| 0 <= i < s.len() ==> is_plain(#[trigger] s[i])
}

/// A string without a double quote, a backslash or a control character is
/// its own JSON text, but for the two double quotes around it.
pub proof fn plain_text_is_unescaped(s: Seq<char>)
    requires
        is_plain_text(s),
    ensures
        escaped_text(s) == s,
        json_string_text(s) == seq!['"'] + s + seq!['"'],
    decreases s.len(),
{
    if s.len() == 0 {
        assert(escaped_text(s) =~= s);
    } else {
        plain_text_is_unescaped(s.drop_last());
        assert(is_plain(s.last()));
        assert(escaped(s.last()) =~= seq![s.last()]);
        assert(escaped_text(s) =~= s);
    }
}

/// The JSON text of the string `s`.
///
/// Wraps `s` in `serde_json::Value::String` and formats it with the `Display`
/// of `serde_json::Value`, which writes compact JSON. Trusted: the writer
/// puts the string between two double quotes and replaces exactly the
/// characters that its escape table marks, which are the double quote, the
/// backslash and the control characters below U+0020, by what [`escaped`]
/// gives for each.
#[verifier::external_body]
pub(crate) fn json_string(s: &str) -> (text: String)
    ensures
        text@ == json_string_text(s@),
{
    serde_json::Value::String(s.to_owned()).to_string()
}

} // verus!
