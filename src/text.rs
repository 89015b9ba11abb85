//! Text rules of the chat: trimming, the user-name pattern and the body length limit.
use regex::Regex;
use vstd::prelude::*;
use vstd::utf8::encode_utf8;

verus! {

#[verifier::external_type_specification]
#[verifier::external_body]
pub struct ExRegex(Regex);

/// The longest accepted message body, in UTF-8 bytes, after trimming.
pub const MAX_MESSAGE_BODY_LENGTH: usize = 256;

/// The shortest accepted user name, in characters, after trimming.
pub const MIN_NAME_LENGTH: usize = 4;

/// The longest accepted user name, in characters, after trimming.
pub const MAX_NAME_LENGTH: usize = 24;

/// Characters with the Unicode `White_Space` property.
pub open spec fn is_white_space(c: char) -> bool {
    let u = c as u32;
    ||| 0x9 <= u <= 0xd
    ||| u == 0x20
    ||| u == 0x85
    ||| u == 0xa0
    ||| u == 0x1680
    ||| 0x2000 <= u <= 0x200a
    ||| u == 0x2028
    ||| u == 0x2029
    ||| u == 0x202f
    ||| u == 0x205f
    ||| u == 0x3000
}

/// `s` without its leading white space.
pub open spec fn trim_start(s: Seq<char>) -> Seq<char>
    decreases s.len(),
{
    if s.len() > 0 && is_white_space(s[0]) {
        trim_start(s.drop_first())
    } else {
        s
    }
}

/// `s` without its trailing white space.
pub open spec fn trim_end(s: Seq<char>) -> Seq<char>
    decreases s.len(),
{
    if s.len() > 0 && is_white_space(s.last()) {
        trim_end(s.drop_last())
    } else {
        s
    }
}

/// `s` without leading and trailing white space.
pub open spec fn trimmed(s: Seq<char>) -> Seq<char> {
    trim_end(trim_start(s))
}

pub open spec fn is_ascii_letter(c: char) -> bool {
    ||| 'a' <= c <= 'z'
    ||| 'A' <= c <= 'Z'
}

/// A user name is 4 to 24 characters, each an ASCII letter or white space.
pub open spec fn valid_name(s: Seq<char>) -> bool {
    &&& MIN_NAME_LENGTH <= s.len() <= MAX_NAME_LENGTH
    &&& forall|i: int| 0 <= i < s.len() ==> #[trigger] is_ascii_letter(s[i]) || is_white_space(s[i])
}

/// A message body is accepted when it is not empty and its UTF-8 encoding has at most
/// 256 bytes.
pub open spec fn valid_body(s: Seq<char>) -> bool {
    s.len() > 0 && encode_utf8(s).len() <= MAX_MESSAGE_BODY_LENGTH
}

/// Relies on `str::trim`: removes leading and trailing characters with the Unicode
/// `White_Space` property.
#[verifier::external_body]
pub(crate) fn trim(s: &str) -> (r: &str)
    ensures
        r@ == trimmed(s@),
{
    s.trim()
}

/// Whether a trimmed message body is accepted.
pub fn is_valid_body(trimmed_body: &str) -> (r: bool)
    ensures
        r == valid_body(trimmed_body@),
{
    let bytes = trimmed_body.as_bytes();
    !trimmed_body.is_empty() && bytes.len() <= MAX_MESSAGE_BODY_LENGTH
}

/// The user-name pattern: the whole name is 4 to 24 characters, each an ASCII letter or
/// white space.
pub const NAME_PATTERN: &'static str = "^[A-Za-z\\s]{4,24}$";

/// The compiled user-name pattern.
pub(crate) struct NameRule {
    regex: Regex,
}

impl NameRule {
    /// Relies on `regex::Regex::new`, which fails only on a pattern that does not parse
    /// or compiles too big; `NAME_PATTERN` is neither, so the unwrap never fails.
    #[verifier::external_body]
    pub(crate) fn new(pattern: &str) -> (r: NameRule)
        requires
            pattern@ == NAME_PATTERN@,
    {
        NameRule { regex: Regex::new(pattern).unwrap() }
    }

    /// Relies on `regex::Regex::is_match` on `NAME_PATTERN`, the one pattern that `new`
    /// compiles: `^` and `$`
    /// anchor the match to the whole text, `[A-Za-z]` is an ASCII letter, `\s` is a
    /// character with the Unicode `White_Space` property, and `{4,24}` counts characters.
    #[verifier::external_body]
    pub(crate) fn is_match(&self, name: &str) -> (r: bool)
        ensures
            r == valid_name(name@),
    {
        self.regex.is_match(name)
    }
}

} // verus!
