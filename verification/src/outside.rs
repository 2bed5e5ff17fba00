//! Calls out of the library whose results are stated or named: case mapping, the debug form of a
//! string, text differences, form encoding and compressed archives.
use vstd::prelude::*;

use crate::text;

verus! {

pub open spec fn is_ascii_text(s: Seq<char>) -> bool {
    forall|i: int| 0 <= i < s.len() ==> (#[trigger] s[i] as u32) < 128
}

/// A letter from `A` to `Z` as its counterpart from `a` to `z`, any other character as it is.
pub open spec fn ascii_lower_char(c: char) -> char {
    if 'A' <= c && c <= 'Z' {
        ((c as u32) + 32) as char
    } else {
        c
    }
}

/// A letter from `a` to `z` as its counterpart from `A` to `Z`, any other character as it is.
pub open spec fn ascii_upper_char(c: char) -> char {
    if 'a' <= c && c <= 'z' {
        ((c as u32) - 32) as char
    } else {
        c
    }
}

/// What `str::to_lowercase` makes of a text that is not all ASCII.
pub uninterp spec fn unicode_lowercase(s: Seq<char>) -> Seq<char>;

/// The lower case of a text.
pub open spec fn lowercase(s: Seq<char>) -> Seq<char> {
    if is_ascii_text(s) {
        Seq::new(s.len(), |i: int| ascii_lower_char(s[i]))
    } else {
        unicode_lowercase(s)
    }
}

/// `str::to_lowercase`: on ASCII it maps `A` to `Z` and keeps the rest.
#[verifier::external_body]
pub(crate) fn to_lowercase(s: &str) -> (r: String)
    ensures
        r@ == lowercase(s@),
        !is_ascii_text(s@) ==> r@ == unicode_lowercase(s@),
{
    s.to_lowercase()
}

/// What `char::to_uppercase` makes of a character outside ASCII.
pub uninterp spec fn unicode_uppercase(c: char) -> Seq<char>;

/// The upper case of a character.
pub open spec fn uppercase(c: char) -> Seq<char> {
    if (c as u32) < 128 {
        seq![ascii_upper_char(c)]
    } else {
        unicode_uppercase(c)
    }
}

/// `char::to_uppercase`: on ASCII it maps `a` to `z` and keeps the rest.
#[verifier::external_body]
pub(crate) fn to_uppercase(c: char) -> (r: String)
    ensures
        r@ == uppercase(c),
        (c as u32) >= 128 ==> r@ == unicode_uppercase(c),
{
    c.to_uppercase().to_string()
}

/// Printable ASCII without quotes and backslashes.
pub open spec fn is_plain(s: Seq<char>) -> bool {
    forall|i: int|
        0 <= i < s.len() ==> 0x20 <= (#[trigger] s[i] as u32) <= 0x7E && s[i] != '"' && s[i] != '\''
            && s[i] != '\\'
}

/// The debug form of a text in which something has to be escaped.
pub uninterp spec fn escaped(s: Seq<char>) -> Seq<char>;

/// The debug form of a text: in double quotes, with what is not plain escaped.
pub open spec fn quoted(s: Seq<char>) -> Seq<char> {
    if is_plain(s) {
        "\""@ + s + "\""@
    } else {
        escaped(s)
    }
}

/// The `Debug` form of a `str`: a plain text is put in double quotes.
#[verifier::external_body]
pub(crate) fn debug_form(s: &str) -> (r: String)
    ensures
        r@ == quoted(s@),
        !is_plain(s@) ==> r@ == escaped(s@),
{
    format!("{:?}", s)
}

/// The unified difference between two texts, line by line, under the names of the two.
pub uninterp spec fn unified_diff(
    before: Seq<char>,
    after: Seq<char>,
    before_name: Seq<char>,
    after_name: Seq<char>,
) -> Seq<char>;

/// `similar::TextDiff::from_lines` with its unified form and header.
#[verifier::external_body]
pub(crate) fn line_diff(before: &str, after: &str, before_name: &str, after_name: &str) -> (r: String)
    ensures
        r@ == unified_diff(before@, after@, before_name@, after_name@),
{
    similar::TextDiff::from_lines(before, after).unified_diff().header(
        before_name,
        after_name,
    ).to_string()
}

pub open spec fn hex_digit(n: int) -> char {
    if n < 10 {
        (('0' as u32) + n) as char
    } else {
        (('A' as u32) + (n - 10)) as char
    }
}

/// One byte in form encoding: letters, digits and `*-._` stand for themselves, a space is a plus
/// sign, and any other byte is a percent sign with two upper-case hexadecimal digits.
pub open spec fn form_byte(b: u8) -> Seq<char> {
    let c = b as char;
    if text::is_ascii_alnum(c) || c == '*' || c == '-' || c == '.' || c == '_' {
        seq![c]
    } else if c == ' ' {
        seq!['+']
    } else {
        seq!['%', hex_digit(b as int / 16), hex_digit(b as int % 16)]
    }
}

pub open spec fn form_encode(bytes: Seq<u8>) -> Seq<char>
    decreases bytes.len(),
{
    if bytes.len() == 0 {
        seq![]
    } else {
        form_encode(bytes.drop_last()) + form_byte(bytes.last())
    }
}

/// `form_urlencoded::byte_serialize`, its pieces put together: each byte in form encoding.
#[verifier::external_body]
pub(crate) fn form_urlencode(bytes: &[u8]) -> (r: String)
    ensures
        r@ == form_encode(bytes@),
{
    form_urlencoded::byte_serialize(bytes).collect()
}

/// The paths and contents of the entries of a gzip-compressed tar archive, in order, or what is
/// said where the bytes are no such archive.
pub uninterp spec fn tar_gz(bytes: Seq<u8>) -> Result<Seq<(Seq<char>, Seq<u8>)>, Seq<char>>;

pub open spec fn entry_models(v: Seq<(String, Vec<u8>)>) -> Seq<(Seq<char>, Seq<u8>)> {
    Seq::new(v.len(), |i: int| (v[i].0@, v[i].1@))
}

/// `tar::Archive::entries` over `flate2::read::GzDecoder`: each entry with its path, in which what
/// is not UTF-8 is replaced, and its contents, or the text of the first error.
#[verifier::external_body]
pub(crate) fn tar_gz_entries(bytes: &[u8]) -> (r: Result<Vec<(String, Vec<u8>)>, String>)
    ensures
        match r {
            Ok(v) => tar_gz(bytes@) == Ok::<Seq<(Seq<char>, Seq<u8>)>, Seq<char>>(
                entry_models(v@),
            ),
            Err(message) => tar_gz(bytes@) == Err::<Seq<(Seq<char>, Seq<u8>)>, Seq<char>>(
                message@,
            ),
        },
{
    let mut archive = tar::Archive::new(flate2::read::GzDecoder::new(bytes));
    let mut out = Vec::new();
    for item in archive.entries().map_err(|e| e.to_string())? {
        let mut entry = item.map_err(|e| e.to_string())?;
        let path = entry.path().map_err(|e| e.to_string())?.to_string_lossy().into_owned();
        let mut data = Vec::new();
        std::io::Read::read_to_end(&mut entry, &mut data).map_err(|e| e.to_string())?;
        out.push((path, data));
    }
    Ok(out)
}

/// `std::str::from_utf8`: the text that the bytes encode, where they are valid UTF-8.
#[verifier::external_body]
pub(crate) fn utf8_text(bytes: &[u8]) -> (r: Option<String>)
    ensures
        match r {
            Some(s) => vstd::utf8::valid_utf8(bytes@) && s@ == vstd::utf8::decode_utf8(bytes@),
            None => !vstd::utf8::valid_utf8(bytes@),
        },
{
    std::str::from_utf8(bytes).ok().map(|s| s.to_owned())
}

} // verus!
