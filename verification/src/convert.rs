//! Conversions between text and its hexadecimal byte and code-unit forms.
use vstd::prelude::*;
use vstd::utf8::{encode_utf8, encode_scalar, valid_utf8, decode_utf8};
use crate::offsets::{
    utf8_len, is_char_offset, char_index_of, span_text, span_chars, lemma_utf8_len_take_step, lemma_char_index_of,
};
use crate::outside::{
    hex_encode, hex_lower, hex_decode, hex_pairs, string_from_utf8, string_from_chars, char_from_u32,
    regex_captures, regex_search,
};
use crate::text::{str_chars, push_all, repeat, repeat_chars};
use crate::utils::{put_chunks, put_chunks_chars, strip_repeated_prefix};

verus! {

// ---------------------------------------------------------------- bytes

/// Two lower-case hexadecimal digits for each byte of the text's UTF-8
/// encoding.
pub fn encode_hex(text: &str) -> (r: String)
    ensures
        r@ == hex_lower(encode_utf8(text@)),
{
    hex_encode(text.as_bytes())
}

/// The text whose UTF-8 encoding the hexadecimal digits spell out; empty
/// when they spell nothing or something that is not UTF-8.
pub open spec fn hex_decoded(s: Seq<char>) -> Seq<char> {
    match hex_pairs(encode_utf8(s)) {
        Some(b) => if valid_utf8(b) {
            decode_utf8(b)
        } else {
            Seq::empty()
        },
        None => Seq::empty(),
    }
}

/// Reads text from the hexadecimal digits of its UTF-8 encoding; gives the
/// empty text when the digits are malformed or spell bytes that are not
/// UTF-8.
pub fn decode_hex(hex_string: &str) -> (r: String)
    ensures
        r@ == hex_decoded(hex_string@),
{
    let bytes: Vec<u8> = match hex_decode(hex_string.as_bytes()) {
        Ok(b) => b,
        Err(_) => Vec::new(),
    };
    let ghost b = bytes@;
    match string_from_utf8(bytes) {
        Ok(s) => s,
        Err(_) => {
            proof {
                if hex_pairs(encode_utf8(hex_string@)) is None {
                    assert(b =~= Seq::<u8>::empty());
                    assert(valid_utf8(b));
                }
            }
            string_from_chars(&Vec::new())
        },
    }
}

// ---------------------------------------------------------------- code units

/// The upper-case hexadecimal digit of a value below sixteen.
pub open spec fn upper_hex_digit(n: int) -> char {
    if n < 10 {
        (48 + n) as char
    } else {
        (55 + n) as char
    }
}

/// A number in upper-case hexadecimal, without leading zeros.
pub open spec fn upper_hex(n: nat) -> Seq<char>
    decreases n,
{
    if n < 16 {
        seq![upper_hex_digit(n as int)]
    } else {
        upper_hex(n / 16) + seq![upper_hex_digit((n % 16) as int)]
    }
}

/// A number in upper-case hexadecimal without leading zeros.
fn upper_hex_exec(v: u32) -> (r: Vec<char>)
    ensures
        r@ == upper_hex(v as nat),
{
    let mut rev: Vec<char> = Vec::new();
    let mut n: u32 = v;
    let d = n % 16;
    rev.push(if d < 10 { ((48 + d) as u8) as char } else { ((55 + d) as u8) as char });
    n = n / 16;
    assert(rev@.reverse() =~= seq![upper_hex_digit(v as int % 16)]);
    while n > 0
        invariant
            upper_hex(v as nat) == (if n == 0 {
                Seq::<char>::empty()
            } else {
                upper_hex(n as nat)
            }) + rev@.reverse(),
        decreases n,
    {
        let d = n % 16;
        let ghost before = rev@;
        rev.push(if d < 10 { ((48 + d) as u8) as char } else { ((55 + d) as u8) as char });
        assert(rev@.reverse() =~= seq![upper_hex_digit(n as int % 16)] + before.reverse());
        n = n / 16;
    }
    let mut r: Vec<char> = Vec::new();
    let mut i: usize = rev.len();
    while i > 0
        invariant
            i <= rev@.len(),
            r@ == rev@.subrange(i as int, rev@.len() as int).reverse(),
        decreases i,
    {
        i -= 1;
        r.push(rev[i]);
        assert(r@ =~= rev@.subrange(i as int, rev@.len() as int).reverse());
    }
    assert(rev@.subrange(0, rev@.len() as int) =~= rev@);
    r
}

/// The four upper-case hexadecimal digits of a character's code.
pub open spec fn code_unit(c: char) -> Seq<char> {
    repeat(seq!['0'], (4 - upper_hex(c as nat).len()) as nat) + upper_hex(c as nat)
}

/// Every character written as the four hexadecimal digits of its code.
pub open spec fn unicode_encoded(t: Seq<char>) -> Seq<char>
    decreases t.len(),
{
    if t.len() == 0 {
        Seq::empty()
    } else {
        unicode_encoded(t.drop_last()) + code_unit(t.last())
    }
}

/// Every character's code fits in four hexadecimal digits.
pub open spec fn in_basic_plane(t: Seq<char>) -> bool {
    forall|i: int| 0 <= i < t.len() ==> (#[trigger] t[i]) as u32 <= 0xFFFF
}

/// A code below 0x10000 has at most four hexadecimal digits.
pub proof fn lemma_upper_hex_len(n: nat)
    ensures
        n <= 0xFFFF ==> upper_hex(n).len() <= 4,
        n <= 0xFFF ==> upper_hex(n).len() <= 3,
        n <= 0xFF ==> upper_hex(n).len() <= 2,
        upper_hex(n).len() >= 1,
    decreases n,
{
    if n >= 16 {
        lemma_upper_hex_len(n / 16);
    }
}

/// The four hexadecimal digits of one character's code.
fn code_unit_exec(c: char) -> (r: Vec<char>)
    requires
        c as u32 <= 0xFFFF,
    ensures
        r@ == code_unit(c),
{
    let h = upper_hex_exec(c as u32);
    proof {
        lemma_upper_hex_len(c as nat);
    }
    let mut zero: Vec<char> = Vec::new();
    zero.push('0');
    assert(zero@ =~= seq!['0']);
    let mut r = repeat_chars(&zero, 4 - h.len());
    push_all(&mut r, &h);
    r
}

/// Writes every character as the four upper-case hexadecimal digits of its
/// code.
pub fn encode_unicode(text: &str) -> (r: String)
    requires
        in_basic_plane(text@),
    ensures
        r@ == unicode_encoded(text@),
{
    let t = str_chars(text);
    let mut r: Vec<char> = Vec::new();
    let mut i: usize = 0;
    while i < t.len()
        invariant
            t@ == text@,
            in_basic_plane(t@),
            i <= t@.len(),
            r@ == unicode_encoded(t@.take(i as int)),
        decreases t@.len() - i,
    {
        let u = code_unit_exec(t[i]);
        push_all(&mut r, &u);
        i += 1;
        assert(t@.take(i as int).drop_last() =~= t@.take(i - 1));
    }
    assert(t@.take(i as int) =~= t@);
    string_from_chars(&r)
}

/// The value of an ASCII hexadecimal digit, either case.
pub open spec fn hex_char_value(c: char) -> Option<int> {
    if '0' <= c <= '9' {
        Some(c as int - 48)
    } else if 'A' <= c <= 'F' {
        Some(c as int - 55)
    } else if 'a' <= c <= 'f' {
        Some(c as int - 87)
    } else {
        None
    }
}

/// The number the hexadecimal digits spell, if they all are digits.
pub open spec fn hex_digits_value(d: Seq<char>) -> Option<int>
    decreases d.len(),
{
    if d.len() == 0 {
        Some(0)
    } else {
        match (hex_digits_value(d.drop_last()), hex_char_value(d.last())) {
            (Some(a), Some(b)) => Some(a * 16 + b),
            _ => None,
        }
    }
}

/// What `u32::from_str_radix(s, 16)` reads: an optional `+` and at least one
/// hexadecimal digit, the value fitting in 32 bits.
pub open spec fn radix16(s: Seq<char>) -> Option<u32> {
    if s.len() == 0 {
        None
    } else {
        let d = if s[0] == '+' {
            s.drop_first()
        } else {
            s
        };
        if d.len() == 0 {
            None
        } else {
            match hex_digits_value(d) {
                Some(v) => if v <= u32::MAX {
                    Some(v as u32)
                } else {
                    None
                },
                None => None,
            }
        }
    }
}

/// Values of digit strings never shrink as digits are added.
proof fn lemma_hex_digits_grow(d: Seq<char>, k: int)
    requires
        0 <= k <= d.len(),
        hex_digits_value(d) is Some,
    ensures
        hex_digits_value(d.take(k)) is Some,
        0 <= hex_digits_value(d.take(k)).unwrap() <= hex_digits_value(d).unwrap(),
    decreases d.len() - k,
{
    if k < d.len() {
        assert(d.take(d.len() as int) =~= d);
        lemma_hex_digits_grow(d.drop_last(), k);
        assert(d.drop_last().take(k) =~= d.take(k));
        lemma_hex_digits_nonneg(d.drop_last());
    } else {
        assert(d.take(k) =~= d);
        lemma_hex_digits_nonneg(d);
    }
}

/// Values of digit strings are not negative.
proof fn lemma_hex_digits_nonneg(d: Seq<char>)
    requires
        hex_digits_value(d) is Some,
    ensures
        hex_digits_value(d).unwrap() >= 0,
    decreases d.len(),
{
    if d.len() > 0 {
        lemma_hex_digits_nonneg(d.drop_last());
    }
}

/// The value of a hexadecimal digit.
fn hex_char_value_exec(c: char) -> (r: Option<u32>)
    ensures
        r is Some <==> hex_char_value(c) is Some,
        r matches Some(v) ==> v == hex_char_value(c).unwrap(),
{
    if '0' <= c && c <= '9' {
        Some(c as u32 - 48)
    } else if 'A' <= c && c <= 'F' {
        Some(c as u32 - 55)
    } else if 'a' <= c && c <= 'f' {
        Some(c as u32 - 87)
    } else {
        None
    }
}

/// Reads a number as `u32::from_str_radix(s, 16)` does.
fn radix16_exec(s: &Vec<char>) -> (r: Option<u32>)
    ensures
        r == radix16(s@),
{
    if s.len() == 0 {
        return None;
    }
    let start: usize = if s[0] == '+' {
        1
    } else {
        0
    };
    let ghost d = if s@[0] == '+' {
        s@.drop_first()
    } else {
        s@
    };
    assert(d =~= s@.skip(start as int));
    if start >= s.len() {
        return None;
    }
    let mut acc: u64 = 0;
    let mut i: usize = start;
    while i < s.len()
        invariant
            start <= i <= s@.len(),
            s@.len() > 0,
            start < s@.len(),
            d == (if s@[0] == '+' {
                s@.drop_first()
            } else {
                s@
            }),
            d == s@.skip(start as int),
            hex_digits_value(d.take(i - start)) == Some(acc as int),
            acc <= u32::MAX,
        decreases s@.len() - i,
    {
        assert(d.take(i + 1 - start).drop_last() =~= d.take(i - start));
        assert(d.take(i + 1 - start).last() == s@[i as int]);
        match hex_char_value_exec(s[i]) {
            Some(b) => {
                let next = acc * 16 + b as u64;
                if next > 0xFFFF_FFFF {
                    proof {
                        if hex_digits_value(d) is Some {
                            lemma_hex_digits_grow(d, i + 1 - start);
                        }
                    }
                    return None;
                }
                acc = next;
            },
            None => {
                proof {
                    if hex_digits_value(d) is Some {
                        lemma_hex_digits_grow(d, i + 1 - start);
                    }
                }
                return None;
            },
        }
        i += 1;
    }
    assert(d.take(i - start) =~= d);
    Some(acc as u32)
}

/// The byte offsets of the four-byte chunks lie on character boundaries and
/// each chunk reads as a character code, as `decode_unicode` needs.
pub open spec fn unicode_chunks_ok(t: Seq<char>) -> bool {
    &&& utf8_len(t) % 4 == 0
    &&& forall|k: int| 0 <= k < utf8_len(t) / 4 ==> is_char_offset(t, #[trigger] (4 * k))
    &&& forall|k: int|
        0 <= k < utf8_len(t) / 4 ==> is_scalar_code(unit_value(#[trigger] unicode_chunk(t, k)))
}

/// A value that is the code of a character.
pub open spec fn is_scalar_code(v: u32) -> bool {
    v <= 0x10FFFF && !(0xD800 <= v <= 0xDFFF)
}

/// The characters of the `k`th four-byte chunk.
pub open spec fn unicode_chunk(t: Seq<char>, k: int) -> Seq<char> {
    t.subrange(char_index_of(t, 4 * k), char_index_of(t, 4 * k + 4))
}

/// The code a chunk spells, zero when it spells none.
pub open spec fn unit_value(chunk: Seq<char>) -> u32 {
    match radix16(chunk) {
        Some(v) => v,
        None => 0,
    }
}

/// The characters whose codes the four-byte chunks of the text spell.
pub open spec fn unicode_decoded(t: Seq<char>) -> Seq<char> {
    Seq::new(utf8_len(t) / 4, |k: int| unit_value(unicode_chunk(t, k)) as char)
}

/// The end of the text is a character boundary.
proof fn lemma_end_is_char_offset(t: Seq<char>)
    ensures
        is_char_offset(t, utf8_len(t) as int),
{
    assert(t.take(t.len() as int) =~= t);
    lemma_char_index_of(t, utf8_len(t) as int, t.len() as int);
}

/// Reads each four-byte chunk of the text as the hexadecimal code of a
/// character; a chunk that is not a number reads as U+0000.
pub fn decode_unicode(text: &str) -> (r: String)
    requires
        unicode_chunks_ok(text@),
    ensures
        r@ == unicode_decoded(text@),
{
    let t = str_chars(text);
    let nb = text.as_bytes().len();
    proof {
        lemma_end_is_char_offset(t@);
        reveal(unicode_chunks_ok);
    }
    let mut r: Vec<char> = Vec::new();
    let mut x: usize = 0;
    while x < nb
        invariant
            t@ == text@,
            nb == utf8_len(t@),
            unicode_chunks_ok(t@),
            is_char_offset(t@, nb as int),
            x % 4 == 0,
            x <= nb,
            r@.len() == x / 4,
            forall|k: int| 0 <= k < x / 4 ==> r@[k] == unit_value(unicode_chunk(t@, k)) as char,
        decreases nb - x,
    {
        let ghost k = (x / 4) as int;
        assert(4 * k == x);
        assert(is_char_offset(t@, 4 * k));
        assert(x + 4 <= nb);
        if x + 4 < nb {
            assert(is_char_offset(t@, 4 * (k + 1)));
        }
        let chunk = span_chars(&t, (x, x + 4));
        assert(chunk@ == unicode_chunk(t@, k));
        let v = match radix16_exec(&chunk) {
            Some(v) => v,
            None => 0,
        };
        assert(is_scalar_code(unit_value(unicode_chunk(t@, k))));
        let c = match char_from_u32(v) {
            Some(c) => c,
            None => '\0',
        };
        proof {
            vstd::utf8::char_u32_cast(c, v);
        }
        r.push(c);
        x += 4;
    }
    assert(r@ =~= unicode_decoded(t@));
    string_from_chars(&r)
}

// ---------------------------------------------------------------- forms

/// `s` led by zeros up to `l` characters.
pub open spec fn zero_padded(s: Seq<char>, l: int) -> Seq<char> {
    repeat(seq!['0'], (if l > s.len() { l - s.len() } else { 0 }) as nat) + s
}

/// The byte placeholder of output forms.
pub open spec fn byte_placeholder() -> Seq<char> {
    seq!['<', 'b', 'y', 't', 'e', '>']
}

/// The code placeholder of output forms.
pub open spec fn unicode_placeholder() -> Seq<char> {
    seq!['<', 'u', 'n', 'i', 'c', 'o', 'd', 'e', '>']
}

/// Every character's UTF-8 bytes in hexadecimal, led by zeros up to `l`
/// digits, cut into pieces of `l` digits, each piece put into `form`.
pub open spec fn hex_formed(t: Seq<char>, form: Seq<char>, l: nat) -> Seq<char>
    decreases t.len(),
{
    if t.len() == 0 {
        Seq::empty()
    } else {
        hex_formed(t.drop_last(), form, l) + put_chunks(
            zero_padded(hex_lower(encode_scalar(t.last() as u32)), l as int),
            form,
            byte_placeholder(),
            l,
            0,
        )
    }
}

/// The zero character in a vector.
fn zero_chars() -> (r: Vec<char>)
    ensures
        r@ == seq!['0'],
{
    let mut zero: Vec<char> = Vec::new();
    zero.push('0');
    assert(zero@ =~= seq!['0']);
    zero
}

/// The UTF-8 encoding of a single character.
proof fn lemma_encode_one(c: char)
    ensures
        encode_utf8(seq![c]) == encode_scalar(c as u32),
{
    let one = seq![c];
    assert(one.drop_first() =~= Seq::<char>::empty());
    assert(encode_utf8(one.drop_first()) =~= Seq::<u8>::empty());
    assert(encode_utf8(one) =~= encode_scalar(c as u32));
}

/// Writes every character's UTF-8 bytes in hexadecimal, `bytes` bytes to a
/// piece, each piece put into `outbyte_form` in place of `<byte>`.
pub fn text_to_hex(text: &str, outbyte_form: &str, bytes: usize) -> (r: String)
    requires
        bytes <= usize::MAX / 2,
        text@.len() > 0 ==> 0 < bytes * 2 <= isize::MAX,
    ensures
        r@ == hex_formed(text@, outbyte_form@, (bytes * 2) as nat),
{
    let l: usize = bytes * 2;
    let t = str_chars(text);
    let form = str_chars(outbyte_form);
    let placeholder: Vec<char> = vec!['<', 'b', 'y', 't', 'e', '>'];
    assert(placeholder@ =~= byte_placeholder());
    let zero = zero_chars();
    let mut r: Vec<char> = Vec::new();
    let mut i: usize = 0;
    while i < t.len()
        invariant
            t@ == text@,
            l == bytes * 2,
            t@.len() > 0 ==> 0 < l <= isize::MAX,
            placeholder@ == byte_placeholder(),
            zero@ == seq!['0'],
            i <= t@.len(),
            r@ == hex_formed(t@, form@, l as nat).take(0) + hex_formed(t@.take(i as int), form@, l as nat),
        decreases t@.len() - i,
    {
        let mut one: Vec<char> = Vec::new();
        one.push(t[i]);
        assert(one@ =~= seq![t@[i as int]]);
        let one_s = string_from_chars(&one);
        let y = str_chars(encode_hex(one_s.as_str()).as_str());
        proof {
            lemma_encode_one(t@[i as int]);
        }
        let pad = if l > y.len() {
            l - y.len()
        } else {
            0
        };
        let mut padded = repeat_chars(&zero, pad);
        push_all(&mut padded, &y);
        let piece = put_chunks_chars(&padded, &form, &placeholder, l);
        push_all(&mut r, &piece);
        i += 1;
        assert(t@.take(i as int).drop_last() =~= t@.take(i - 1));
        assert(r@ =~= hex_formed(t@, form@, l as nat).take(0) + hex_formed(t@.take(i as int), form@, l as nat));
    }
    assert(t@.take(i as int) =~= t@);
    assert(r@ =~= hex_formed(t@, form@, l as nat));
    string_from_chars(&r)
}

/// Every character written as the four hexadecimal digits of its code, each
/// put into `form` in place of `<unicode>`.
pub open spec fn unicode_formed(t: Seq<char>, form: Seq<char>) -> Seq<char>
    decreases t.len(),
{
    if t.len() == 0 {
        Seq::empty()
    } else {
        unicode_formed(t.drop_last(), form) + put_chunks(
            code_unit(t.last()),
            form,
            unicode_placeholder(),
            4,
            0,
        )
    }
}

/// Writes every character as the four hexadecimal digits of its code, put
/// into `outunicode_form` in place of `<unicode>`.
pub fn text_to_unicode(text: &str, outunicode_form: &str) -> (r: String)
    requires
        in_basic_plane(text@),
    ensures
        r@ == unicode_formed(text@, outunicode_form@),
{
    let t = str_chars(text);
    let form = str_chars(outunicode_form);
    let placeholder: Vec<char> = vec!['<', 'u', 'n', 'i', 'c', 'o', 'd', 'e', '>'];
    assert(placeholder@ =~= unicode_placeholder());
    let mut r: Vec<char> = Vec::new();
    let mut i: usize = 0;
    while i < t.len()
        invariant
            t@ == text@,
            in_basic_plane(t@),
            placeholder@ == unicode_placeholder(),
            i <= t@.len(),
            r@ == unicode_formed(t@.take(i as int), form@),
        decreases t@.len() - i,
    {
        let y = code_unit_exec(t[i]);
        proof {
            lemma_upper_hex_len(t@[i as int] as nat);
        }
        let piece = put_chunks_chars(&y, &form, &placeholder, 4);
        push_all(&mut r, &piece);
        i += 1;
        assert(t@.take(i as int).drop_last() =~= t@.take(i - 1));
    }
    assert(t@.take(i as int) =~= t@);
    string_from_chars(&r)
}

// ---------------------------------------------------------------- reading forms

/// Every match has its first capture group.
pub open spec fn groups_present(ms: Seq<Seq<Option<(usize, usize)>>>) -> bool {
    forall|i: int| 0 <= i < ms.len() ==> (#[trigger] ms[i]).len() >= 2 && ms[i][1] is Some
}

/// The text of the first capture group of the `i`th match.
pub open spec fn group_text(t: Seq<char>, ms: Seq<Seq<Option<(usize, usize)>>>, i: int) -> Seq<char> {
    span_text(t, ms[i][1].unwrap())
}

/// Two zero digits, the padding of a byte form.
pub open spec fn zero_pair() -> Seq<char> {
    seq!['0', '0']
}

/// The text that the first capture groups spell in hexadecimal bytes,
/// leading pairs of zeros dropped from each, for the first `n` matches.
pub open spec fn hex_groups_text(t: Seq<char>, ms: Seq<Seq<Option<(usize, usize)>>>, n: int) -> Seq<
    char,
>
    decreases n,
{
    if n <= 0 {
        Seq::empty()
    } else {
        hex_groups_text(t, ms, n - 1) + hex_decoded(
            strip_repeated_prefix(group_text(t, ms, n - 1), zero_pair()),
        )
    }
}

/// The pattern compiles and every match has its first capture group, as
/// `hex_to_text` needs.
pub open spec fn hex_pattern_ok(pattern: Seq<char>, t: Seq<char>) -> bool {
    regex_search(pattern, t) matches Some(ms) && groups_present(ms)
}

/// Reads text from the hexadecimal bytes that the first capture group of
/// each match found holds, leading pairs of zeros dropped.
pub fn hex_groups_to_text(text: &str, ms: &Vec<Vec<Option<(usize, usize)>>>) -> (r: String)
    requires
        crate::outside::well_placed(text@, crate::outside::group_views(ms@)),
        groups_present(crate::outside::group_views(ms@)),
    ensures
        r@ == hex_groups_text(text@, crate::outside::group_views(ms@), ms@.len() as int),
{
    let t = str_chars(text);
    let ghost msv = crate::outside::group_views(ms@);
    let zero: Vec<char> = vec!['0', '0'];
    assert(zero@ =~= zero_pair());
    let mut r: Vec<char> = Vec::new();
    let mut i: usize = 0;
    while i < ms.len()
        invariant
            t@ == text@,
            crate::outside::group_views(ms@) == msv,
            crate::outside::well_placed(t@, msv),
            groups_present(msv),
            zero@ == zero_pair(),
            i <= ms@.len(),
            r@ == hex_groups_text(t@, msv, i as int),
        decreases ms@.len() - i,
    {
        assert(msv[i as int] == ms@[i as int]@);
        assert(msv[i as int][1] is Some);
        let sp = match ms[i][1] {
            Some(sp) => sp,
            None => (0, 0),
        };
        assert(msv[i as int][1] == Some(sp));
        let g = span_chars(&t, sp);
        let stripped = crate::utils::strip_repeated_prefix_chars(&g, &zero);
        let part = decode_hex(string_from_chars(&stripped).as_str());
        push_all(&mut r, &str_chars(part.as_str()));
        i += 1;
    }
    string_from_chars(&r)
}

/// Reads text from the hexadecimal bytes that the first capture group of
/// each match of `inbyte_pattern` holds, leading pairs of zeros dropped.
pub fn hex_to_text(text: &str, inbyte_pattern: &str) -> (r: String)
    requires
        hex_pattern_ok(inbyte_pattern@, text@),
    ensures
        r@ == hex_groups_text(
            text@,
            regex_search(inbyte_pattern@, text@).unwrap(),
            regex_search(inbyte_pattern@, text@).unwrap().len() as int,
        ),
{
    match regex_captures(inbyte_pattern, text) {
        Some(ms) => hex_groups_to_text(text, &ms),
        None => String::new(),
    }
}

/// The result of `hex_to_text` when the pattern compiles and every match has
/// its first capture group; nothing otherwise.
pub fn try_hex_to_text(text: &str, inbyte_pattern: &str) -> (r: Option<String>)
    ensures
        r is Some <==> hex_pattern_ok(inbyte_pattern@, text@),
        r matches Some(s) ==> s@ == hex_groups_text(
            text@,
            regex_search(inbyte_pattern@, text@).unwrap(),
            regex_search(inbyte_pattern@, text@).unwrap().len() as int,
        ),
{
    match regex_captures(inbyte_pattern, text) {
        Some(ms) => {
            if all_groups_present(&ms) {
                Some(hex_to_text(text, inbyte_pattern))
            } else {
                None
            }
        },
        None => None,
    }
}

/// Whether every match has its first capture group.
fn all_groups_present(ms: &Vec<Vec<Option<(usize, usize)>>>) -> (b: bool)
    ensures
        b == groups_present(crate::outside::group_views(ms@)),
{
    let ghost v = crate::outside::group_views(ms@);
    let mut i: usize = 0;
    while i < ms.len()
        invariant
            v == crate::outside::group_views(ms@),
            i <= ms@.len(),
            forall|j: int| 0 <= j < i ==> (#[trigger] v[j]).len() >= 2 && v[j][1] is Some,
        decreases ms@.len() - i,
    {
        assert(v[i as int] == ms@[i as int]@);
        if ms[i].len() < 2 || ms[i][1].is_none() {
            assert(!(v[i as int].len() >= 2 && v[i as int][1] is Some));
            return false;
        }
        i += 1;
    }
    true
}

/// The characters that the first capture groups spell as four-byte codes,
/// for the first `n` matches.
pub open spec fn unicode_groups_text(
    t: Seq<char>,
    ms: Seq<Seq<Option<(usize, usize)>>>,
    n: int,
) -> Seq<char>
    decreases n,
{
    if n <= 0 {
        Seq::empty()
    } else {
        unicode_groups_text(t, ms, n - 1) + unicode_decoded(group_text(t, ms, n - 1))
    }
}

/// The pattern compiles, every match has its first capture group, and each
/// group reads as codes, as `unicode_to_text` needs.
pub open spec fn unicode_pattern_ok(pattern: Seq<char>, t: Seq<char>) -> bool {
    &&& regex_search(pattern, t) matches Some(ms)
    &&& groups_present(ms)
    &&& forall|i: int|
        0 <= i < ms.len() ==> unicode_chunks_ok(#[trigger] group_text(t, ms, i))
}

/// Reads characters from the four-digit codes that the first capture group
/// of each match found holds.
pub fn unicode_groups_to_text(text: &str, ms: &Vec<Vec<Option<(usize, usize)>>>) -> (r: String)
    requires
        crate::outside::well_placed(text@, crate::outside::group_views(ms@)),
        groups_present(crate::outside::group_views(ms@)),
        forall|j: int|
            0 <= j < ms@.len() ==> unicode_chunks_ok(
                #[trigger] group_text(text@, crate::outside::group_views(ms@), j),
            ),
    ensures
        r@ == unicode_groups_text(text@, crate::outside::group_views(ms@), ms@.len() as int),
{
    let t = str_chars(text);
    let ghost msv = crate::outside::group_views(ms@);
    let mut r: Vec<char> = Vec::new();
    let mut i: usize = 0;
    while i < ms.len()
        invariant
            t@ == text@,
            crate::outside::group_views(ms@) == msv,
            crate::outside::well_placed(t@, msv),
            groups_present(msv),
            forall|j: int| 0 <= j < msv.len() ==> unicode_chunks_ok(#[trigger] group_text(t@, msv, j)),
            i <= ms@.len(),
            r@ == unicode_groups_text(t@, msv, i as int),
        decreases ms@.len() - i,
    {
        assert(msv[i as int] == ms@[i as int]@);
        assert(msv[i as int][1] is Some);
        let sp = match ms[i][1] {
            Some(sp) => sp,
            None => (0, 0),
        };
        assert(msv[i as int][1] == Some(sp));
        let g = span_chars(&t, sp);
        assert(g@ == group_text(t@, msv, i as int));
        let part = decode_unicode(string_from_chars(&g).as_str());
        push_all(&mut r, &str_chars(part.as_str()));
        i += 1;
    }
    string_from_chars(&r)
}

/// Reads characters from the four-digit codes that the first capture group
/// of each match of `inunicode_pattern` holds.
pub fn unicode_to_text(text: &str, inunicode_pattern: &str) -> (r: String)
    requires
        unicode_pattern_ok(inunicode_pattern@, text@),
    ensures
        r@ == unicode_groups_text(
            text@,
            regex_search(inunicode_pattern@, text@).unwrap(),
            regex_search(inunicode_pattern@, text@).unwrap().len() as int,
        ),
{
    match regex_captures(inunicode_pattern, text) {
        Some(ms) => unicode_groups_to_text(text, &ms),
        None => String::new(),
    }
}

/// Whether every group reads as codes.
fn all_groups_read_as_codes(t: &Vec<char>, ms: &Vec<Vec<Option<(usize, usize)>>>) -> (b: bool)
    requires
        groups_present(crate::outside::group_views(ms@)),
        crate::outside::well_placed(t@, crate::outside::group_views(ms@)),
    ensures
        b == forall|i: int|
            0 <= i < ms@.len() ==> unicode_chunks_ok(
                #[trigger] group_text(t@, crate::outside::group_views(ms@), i),
            ),
{
    let ghost v = crate::outside::group_views(ms@);
    let mut i: usize = 0;
    while i < ms.len()
        invariant
            v == crate::outside::group_views(ms@),
            groups_present(v),
            crate::outside::well_placed(t@, v),
            i <= ms@.len(),
            forall|j: int| 0 <= j < i ==> unicode_chunks_ok(#[trigger] group_text(t@, v, j)),
        decreases ms@.len() - i,
    {
        assert(v[i as int] == ms@[i as int]@);
        let sp = match ms[i][1] {
            Some(sp) => sp,
            None => (0, 0),
        };
        assert(v[i as int][1] == Some(sp));
        let g = span_chars(t, sp);
        assert(g@ == group_text(t@, v, i as int));
        if !unicode_chunks_ok_exec(&g) {
            assert(!unicode_chunks_ok(group_text(t@, v, i as int)));
            return false;
        }
        i += 1;
    }
    true
}

/// Whether the text's four-byte chunks lie on character boundaries and each
/// reads as a character code.
pub fn unicode_chunks_ok_exec(g: &Vec<char>) -> (b: bool)
    ensures
        b == unicode_chunks_ok(g@),
{
    let s = string_from_chars(g);
    let nb = s.as_str().as_bytes().len();
    proof {
        lemma_end_is_char_offset(g@);
        reveal(unicode_chunks_ok);
    }
    if nb % 4 != 0 {
        return false;
    }
    let mut x: usize = 0;
    while x < nb
        invariant
            nb == utf8_len(g@),
            nb % 4 == 0,
            is_char_offset(g@, nb as int),
            x % 4 == 0,
            x <= nb,
            forall|k: int| 0 <= k < x / 4 ==> is_char_offset(g@, #[trigger] (4 * k)),
            forall|k: int|
                0 <= k < x / 4 ==> is_scalar_code(unit_value(#[trigger] unicode_chunk(g@, k))),
        decreases nb - x,
    {
        let ghost k = (x / 4) as int;
        assert(4 * k == x);
        if !is_char_boundary_exec(g, x) {
            return false;
        }
        assert(x + 4 <= nb);
        if x + 4 < nb {
            if !is_char_boundary_exec(g, x + 4) {
                assert(!is_char_offset(g@, 4 * (k + 1)));
                return false;
            }
        }
        let chunk = span_chars(g, (x, x + 4));
        let v = match radix16_exec(&chunk) {
            Some(v) => v,
            None => 0,
        };
        if v > 0x10FFFF || (0xD800 <= v && v <= 0xDFFF) {
            assert(!is_scalar_code(unit_value(unicode_chunk(g@, k))));
            return false;
        }
        x += 4;
    }
    true
}

/// Whether a byte offset falls on a character boundary.
fn is_char_boundary_exec(s: &Vec<char>, b: usize) -> (r: bool)
    ensures
        r == is_char_offset(s@, b as int),
{
    let mut k: usize = 0;
    let mut acc: usize = 0;
    assert(s@.take(0) =~= Seq::<char>::empty());
    while k < s.len() && acc < b
        invariant
            k <= s@.len(),
            acc == utf8_len(s@.take(k as int)),
            acc <= b,
            forall|j: int| 0 <= j < k ==> utf8_len(s@.take(j)) < b,
        decreases s@.len() - k,
    {
        let w = crate::offsets::char_width(s[k]);
        proof {
            lemma_utf8_len_take_step(s@, k as int);
        }
        if w > b - acc {
            proof {
                assert forall|j: int| 0 <= j <= s@.len() implies utf8_len(s@.take(j)) != b by {
                    if j > k + 1 {
                        crate::offsets::lemma_utf8_len_take_strict(s@, k + 1, j);
                    }
                }
            }
            return false;
        }
        acc = acc + w;
        k += 1;
    }
    if acc == b {
        proof {
            lemma_char_index_of(s@, b as int, k as int);
        }
        true
    } else {
        proof {
            assert forall|j: int| 0 <= j <= s@.len() implies utf8_len(s@.take(j)) != b by {
                if j > k {
                    crate::offsets::lemma_utf8_len_take_strict(s@, k as int, j);
                }
            }
        }
        false
    }
}

/// The result of `unicode_to_text` when the pattern compiles, every match
/// has its first capture group and each group reads as codes; nothing
/// otherwise.
pub fn try_unicode_to_text(text: &str, inunicode_pattern: &str) -> (r: Option<String>)
    ensures
        r is Some <==> unicode_pattern_ok(inunicode_pattern@, text@),
        r matches Some(s) ==> s@ == unicode_groups_text(
            text@,
            regex_search(inunicode_pattern@, text@).unwrap(),
            regex_search(inunicode_pattern@, text@).unwrap().len() as int,
        ),
{
    let t = str_chars(text);
    match regex_captures(inunicode_pattern, text) {
        Some(ms) => {
            if all_groups_present(&ms) && all_groups_read_as_codes(&t, &ms) {
                Some(unicode_to_text(text, inunicode_pattern))
            } else {
                None
            }
        },
        None => None,
    }
}

} // verus!
