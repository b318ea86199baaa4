//! Calls into other crates, and into the parts of the standard library that
//! have no model here. Each item states what it is trusted to do; nothing
//! checks that but a reader of the callee's source.
use vstd::prelude::*;
use vstd::utf8::*;
use crate::offsets::is_char_offset;

verus! {

// ---------------------------------------------------------------- std

/// `String: FromIterator<&char>` collects the characters, in order, into a
/// string; trusted to give exactly these characters.
#[verifier::external_body]
pub fn string_from_chars(v: &Vec<char>) -> (s: String)
    ensures
        s@ == v@,
{
    v.iter().collect()
}

#[verifier::external_type_specification]
#[verifier::external_body]
pub struct ExFromUtf8Error(std::string::FromUtf8Error);

/// `String::from_utf8` accepts exactly the valid UTF-8 byte sequences and
/// decodes them; trusted to succeed on valid UTF-8 only and to give its
/// decoding.
#[verifier::external_body]
pub fn string_from_utf8(bytes: Vec<u8>) -> (r: Result<String, std::string::FromUtf8Error>)
    ensures
        r is Ok <==> valid_utf8(bytes@),
        r matches Ok(s) ==> s@ == decode_utf8(bytes@),
{
    String::from_utf8(bytes)
}

/// What `String::from_utf8_lossy` makes of a byte sequence: invalid
/// sequences are replaced by U+FFFD.
pub uninterp spec fn utf8_lossy(bytes: Seq<u8>) -> Seq<char>;

/// `String::from_utf8_lossy`, owned; trusted to be a function of the bytes
/// that decodes valid UTF-8 unchanged. How invalid sequences are replaced is
/// left unstated.
#[verifier::external_body]
pub fn string_from_utf8_lossy(bytes: &[u8]) -> (s: String)
    ensures
        s@ == utf8_lossy(bytes@),
        valid_utf8(bytes@) ==> s@ == decode_utf8(bytes@),
{
    String::from_utf8_lossy(bytes).into_owned()
}

/// `char::from_u32` gives the character with that scalar value, and nothing
/// for surrogates and values above U+10FFFF.
#[verifier::external_body]
pub fn char_from_u32(v: u32) -> (r: Option<char>)
    ensures
        r is Some <==> (v <= 0x10FFFF && !(0xD800 <= v <= 0xDFFF)),
        r matches Some(c) ==> c as u32 == v,
{
    char::from_u32(v)
}

// ---------------------------------------------------------------- hex

/// The lower-case hexadecimal digit of a value below sixteen.
pub open spec fn lower_hex_digit(n: int) -> char {
    if n < 10 {
        (48 + n) as char
    } else {
        (87 + n) as char
    }
}

/// Two lower-case hexadecimal digits per byte, high nibble first.
pub open spec fn hex_lower(bytes: Seq<u8>) -> Seq<char>
    decreases bytes.len(),
{
    if bytes.len() == 0 {
        Seq::empty()
    } else {
        hex_lower(bytes.drop_last()) + seq![
            lower_hex_digit(bytes.last() as int / 16),
            lower_hex_digit(bytes.last() as int % 16),
        ]
    }
}

/// `hex::encode` writes each byte as two lower-case hexadecimal digits,
/// high nibble first; trusted to do exactly that.
#[verifier::external_body]
pub fn hex_encode(data: &[u8]) -> (s: String)
    ensures
        s@ == hex_lower(data@),
{
    hex::encode(data)
}

/// The value of a hexadecimal digit byte, either case.
pub open spec fn hex_digit_value(c: u8) -> Option<u8> {
    if 48 <= c <= 57 {
        Some((c - 48) as u8)
    } else if 65 <= c <= 70 {
        Some((c - 55) as u8)
    } else if 97 <= c <= 102 {
        Some((c - 87) as u8)
    } else {
        None
    }
}

/// The bytes written by pairs of hexadecimal digits; nothing when the length
/// is odd or a digit is not hexadecimal.
pub open spec fn hex_pairs(data: Seq<u8>) -> Option<Seq<u8>>
    decreases data.len(),
{
    if data.len() == 0 {
        Some(Seq::empty())
    } else if data.len() == 1 {
        None
    } else {
        match (
            hex_pairs(data.subrange(0, data.len() - 2)),
            hex_digit_value(data[data.len() - 2]),
            hex_digit_value(data[data.len() - 1]),
        ) {
            (Some(p), Some(h), Some(l)) => Some(p.push((h * 16 + l) as u8)),
            _ => None,
        }
    }
}

#[verifier::external_type_specification]
#[verifier::external_body]
pub struct ExFromHexError(hex::FromHexError);

/// `hex::decode` reads pairs of hexadecimal digits of either case into
/// bytes, and fails on an odd length or a byte that is not a digit; trusted
/// to do exactly that.
#[verifier::external_body]
pub fn hex_decode(data: &[u8]) -> (r: Result<Vec<u8>, hex::FromHexError>)
    ensures
        r is Ok <==> hex_pairs(data@) is Some,
        r matches Ok(v) ==> hex_pairs(data@) == Some(v@),
{
    hex::decode(data)
}

// ---------------------------------------------------------------- regex

/// The spans of one vector of capture groups, group 0 first.
pub open spec fn group_views(v: Seq<Vec<Option<(usize, usize)>>>) -> Seq<
    Seq<Option<(usize, usize)>>,
> {
    v.map_values(|g: Vec<Option<(usize, usize)>>| g@)
}

/// What `regex::Regex` makes of a pattern and a haystack: nothing when the
/// pattern does not compile, else, for each successive non-overlapping
/// match, the byte spans of its capture groups (group 0 being the match).
pub uninterp spec fn regex_search(pattern: Seq<char>, text: Seq<char>) -> Option<
    Seq<Seq<Option<(usize, usize)>>>,
>;

/// Facts that `regex` documents of every search over a `&str`: each match
/// has its group 0, every span lies on character boundaries, and successive
/// matches do not overlap.
pub open spec fn well_placed(text: Seq<char>, ms: Seq<Seq<Option<(usize, usize)>>>) -> bool {
    &&& forall|i: int| 0 <= i < ms.len() ==> #[trigger] ms[i].len() >= 1 && ms[i][0] is Some
    &&& forall|i: int, g: int|
        0 <= i < ms.len() && 0 <= g < ms[i].len() && #[trigger] ms[i][g] is Some ==> {
            &&& ms[i][g].unwrap().0 <= ms[i][g].unwrap().1
            &&& is_char_offset(text, ms[i][g].unwrap().0 as int)
            &&& is_char_offset(text, ms[i][g].unwrap().1 as int)
        }
    &&& forall|i: int|
        0 <= i < ms.len() - 1 ==> #[trigger] ms[i][0].unwrap().1 <= ms[i + 1][0].unwrap().0
}

/// `regex::Regex::new` followed by `captures_iter`: trusted to be a function
/// of the pattern and the haystack, to fail only when the pattern does not
/// compile, and to place its spans as `well_placed` says.
#[verifier::external_body]
pub fn regex_captures(pattern: &str, text: &str) -> (r: Option<
    Vec<Vec<Option<(usize, usize)>>>,
>)
    ensures
        r is Some <==> regex_search(pattern@, text@) is Some,
        r matches Some(v) ==> regex_search(pattern@, text@) == Some(group_views(v@)),
        r matches Some(v) ==> well_placed(text@, group_views(v@)),
{
    match regex::Regex::new(pattern) {
        Ok(re) => Some(
            re.captures_iter(text).map(
                |c| c.iter().map(|g| g.map(|m| (m.start(), m.end()))).collect(),
            ).collect(),
        ),
        Err(_) => None,
    }
}

/// What `regex::bytes::Regex` makes of a pattern and a byte haystack, as
/// `regex_search` does for text.
pub uninterp spec fn bytes_regex_search(pattern: Seq<char>, hay: Seq<u8>) -> Option<
    Seq<Seq<Option<(usize, usize)>>>,
>;

/// Facts that `regex` documents of every search over bytes: each match has
/// its group 0, every span lies within the haystack, and successive matches
/// do not overlap.
pub open spec fn well_placed_bytes(len: nat, ms: Seq<Seq<Option<(usize, usize)>>>) -> bool {
    &&& forall|i: int| 0 <= i < ms.len() ==> #[trigger] ms[i].len() >= 1 && ms[i][0] is Some
    &&& forall|i: int, g: int|
        0 <= i < ms.len() && 0 <= g < ms[i].len() && #[trigger] ms[i][g] is Some ==> ms[i][g].unwrap().0
            <= ms[i][g].unwrap().1 <= len
    &&& forall|i: int|
        0 <= i < ms.len() - 1 ==> #[trigger] ms[i][0].unwrap().1 <= ms[i + 1][0].unwrap().0
}

/// `regex::bytes::Regex::new` followed by `captures_iter`: trusted as
/// `regex_captures` is, over bytes.
#[verifier::external_body]
pub fn bytes_regex_captures(pattern: &str, hay: &[u8]) -> (r: Option<
    Vec<Vec<Option<(usize, usize)>>>,
>)
    ensures
        r is Some <==> bytes_regex_search(pattern@, hay@) is Some,
        r matches Some(v) ==> bytes_regex_search(pattern@, hay@) == Some(group_views(v@)),
        r matches Some(v) ==> well_placed_bytes(hay@.len(), group_views(v@)),
{
    match regex::bytes::Regex::new(pattern) {
        Ok(re) => Some(
            re.captures_iter(hay).map(
                |c| c.iter().map(|g| g.map(|m| (m.start(), m.end()))).collect(),
            ).collect(),
        ),
        Err(_) => None,
    }
}

// ---------------------------------------------------------------- csv

/// The text of the fields of a list of rows.
pub open spec fn rows_view(v: Seq<Vec<String>>) -> Seq<Seq<Seq<char>>> {
    v.map_values(|row: Vec<String>| row@.map_values(|f: String| f@))
}

/// What `csv` reads from bytes, with the given delimiter, no header row and
/// rows of any length: the fields of each record, or nothing when a record
/// cannot be read.
pub uninterp spec fn csv_records(content: Seq<u8>, delimiter: u8) -> Option<Seq<Seq<Seq<char>>>>;

/// A `csv::ReaderBuilder` reader over the bytes, collecting its string
/// records; trusted to be a function of the bytes and the delimiter.
#[verifier::external_body]
pub fn csv_read(content: &[u8], delimiter: u8) -> (r: Option<Vec<Vec<String>>>)
    ensures
        r is Some <==> csv_records(content@, delimiter) is Some,
        r matches Some(v) ==> csv_records(content@, delimiter) == Some(rows_view(v@)),
{
    let mut reader = csv::ReaderBuilder::new().delimiter(delimiter).has_headers(false).flexible(
        true,
    ).from_reader(content);
    reader.records().map(|row| row.map(|rec| rec.iter().map(|f| f.to_string()).collect())).collect::<
        Result<Vec<Vec<String>>, csv::Error>,
    >().ok()
}

} // verus!
