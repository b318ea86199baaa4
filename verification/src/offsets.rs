//! Byte offsets into UTF-8 text and the character positions they stand for.
use vstd::prelude::*;
use vstd::utf8::*;

verus! {

/// Number of bytes in the UTF-8 encoding of `s`.
pub open spec fn utf8_len(s: Seq<char>) -> nat {
    encode_utf8(s).len()
}

/// The encoding of a concatenation is the concatenation of the encodings.
pub proof fn lemma_encode_utf8_concat(a: Seq<char>, b: Seq<char>)
    ensures
        encode_utf8(a + b) == encode_utf8(a) + encode_utf8(b),
    decreases a.len(),
{
    if a.len() == 0 {
        assert(a + b =~= b);
    } else {
        lemma_encode_utf8_concat(a.drop_first(), b);
        assert((a + b).drop_first() =~= a.drop_first() + b);
        assert((a + b)[0] == a[0]);
        assert(encode_utf8(a + b) =~= encode_scalar(a[0] as u32) + encode_utf8(a.drop_first() + b));
    }
}

/// Every character takes between one and four bytes.
pub proof fn lemma_scalar_width(c: char)
    ensures
        1 <= encode_scalar(c as u32).len() <= 4,
{
    broadcast use char_is_scalar;

}

/// Encoded length of a prefix grows by the width of the next character.
pub proof fn lemma_utf8_len_take_step(s: Seq<char>, k: int)
    requires
        0 <= k < s.len(),
    ensures
        utf8_len(s.take(k + 1)) == utf8_len(s.take(k)) + encode_scalar(s[k] as u32).len(),
{
    assert(s.take(k + 1) =~= s.take(k) + seq![s[k]]);
    lemma_encode_utf8_concat(s.take(k), seq![s[k]]);
    let one = seq![s[k]];
    assert(one.drop_first() =~= Seq::<char>::empty());
    assert(encode_utf8(one.drop_first()) =~= Seq::<u8>::empty());
    assert(encode_utf8(one) =~= encode_scalar(s[k] as u32));
}

/// Encoded lengths of prefixes strictly increase with the prefix.
pub proof fn lemma_utf8_len_take_strict(s: Seq<char>, j: int, k: int)
    requires
        0 <= j < k <= s.len(),
    ensures
        utf8_len(s.take(j)) < utf8_len(s.take(k)),
    decreases k - j,
{
    lemma_utf8_len_take_step(s, k - 1);
    lemma_scalar_width(s[k - 1]);
    if j < k - 1 {
        lemma_utf8_len_take_strict(s, j, k - 1);
    }
}

/// Encoded lengths of prefixes tell prefixes apart.
pub proof fn lemma_utf8_len_take_injective(s: Seq<char>, j: int, k: int)
    requires
        0 <= j <= s.len(),
        0 <= k <= s.len(),
        utf8_len(s.take(j)) == utf8_len(s.take(k)),
    ensures
        j == k,
{
    if j < k {
        lemma_utf8_len_take_strict(s, j, k);
    } else if k < j {
        lemma_utf8_len_take_strict(s, k, j);
    }
}

/// `b` is a byte offset at which a character of `s` starts, or the end of `s`.
pub open spec fn is_char_offset(s: Seq<char>, b: int) -> bool {
    exists|k: int| 0 <= k <= s.len() && #[trigger] utf8_len(s.take(k)) == b
}

/// The number of characters before the byte offset `b`.
pub open spec fn char_index_of(s: Seq<char>, b: int) -> int {
    choose|k: int| 0 <= k <= s.len() && #[trigger] utf8_len(s.take(k)) == b
}

/// The character index of a byte offset is the one prefix that ends there.
pub proof fn lemma_char_index_of(s: Seq<char>, b: int, k: int)
    requires
        0 <= k <= s.len(),
        utf8_len(s.take(k)) == b,
    ensures
        is_char_offset(s, b),
        char_index_of(s, b) == k,
{
    let c = char_index_of(s, b);
    lemma_utf8_len_take_injective(s, c, k);
}

/// Byte offsets and character indices are ordered alike.
pub proof fn lemma_char_index_of_mono(s: Seq<char>, a: int, b: int)
    requires
        is_char_offset(s, a),
        is_char_offset(s, b),
        a <= b,
    ensures
        char_index_of(s, a) <= char_index_of(s, b),
{
    let i = char_index_of(s, a);
    let j = char_index_of(s, b);
    if j < i {
        lemma_utf8_len_take_strict(s, j, i);
    }
}

/// Number of UTF-8 bytes of one character.
pub fn char_width(c: char) -> (w: usize)
    ensures
        w == encode_scalar(c as u32).len(),
{
    let v = c as u32;
    if v <= 0x7F {
        1
    } else if v <= 0x7FF {
        2
    } else if v <= 0xFFFF {
        proof {
            broadcast use char_is_scalar;

        }
        3
    } else {
        proof {
            broadcast use char_is_scalar;

        }
        4
    }
}

/// The character index at which the byte offset `b` falls.
pub fn char_index(s: &Vec<char>, b: usize) -> (k: usize)
    requires
        is_char_offset(s@, b as int),
    ensures
        k == char_index_of(s@, b as int),
        k <= s.len(),
        utf8_len(s@.take(k as int)) == b,
{
    let ghost target = char_index_of(s@, b as int);
    let mut k: usize = 0;
    let mut acc: usize = 0;
    proof {
        assert(s@.take(0) =~= Seq::<char>::empty());
        if target > 0 {
            lemma_utf8_len_take_strict(s@, 0, target);
        }
    }
    while acc < b
        invariant
            0 <= target <= s.len(),
            utf8_len(s@.take(target)) == b,
            k <= target,
            acc == utf8_len(s@.take(k as int)),
        decreases target - k,
    {
        assert(k < target);
        let w = char_width(s[k]);
        proof {
            lemma_utf8_len_take_step(s@, k as int);
            if k + 1 < target {
                lemma_utf8_len_take_strict(s@, k + 1, target);
            }
        }
        acc = acc + w;
        k = k + 1;
    }
    proof {
        if k < target {
            lemma_utf8_len_take_strict(s@, k as int, target);
        }
        lemma_char_index_of(s@, b as int, k as int);
    }
    k
}

/// The characters between two byte offsets.
pub open spec fn span_text(s: Seq<char>, sp: (usize, usize)) -> Seq<char> {
    s.subrange(char_index_of(s, sp.0 as int), char_index_of(s, sp.1 as int))
}

/// The characters between two byte offsets that fall on character
/// boundaries.
pub fn span_chars(s: &Vec<char>, sp: (usize, usize)) -> (r: Vec<char>)
    requires
        sp.0 <= sp.1,
        is_char_offset(s@, sp.0 as int),
        is_char_offset(s@, sp.1 as int),
    ensures
        r@ == span_text(s@, sp),
{
    let a = char_index(s, sp.0);
    let b = char_index(s, sp.1);
    proof {
        lemma_char_index_of_mono(s@, sp.0 as int, sp.1 as int);
    }
    crate::text::slice_chars(s, a, b)
}

} // verus!
