//! General text helpers: substrings, chunking, escaping, sorting and
//! inverting tables.
use vstd::prelude::*;
use crate::maps::{CharMap, insert_entry};
use crate::offsets::utf8_len;
use crate::outside::string_from_chars;
use crate::text::{
    chars_ends_with, chars_match_at, ends_with, push_all, replace, replace_chars, slice_chars,
    str_chars, starts_with, matches_at,
};

verus! {

/// The text of each string of a list.
pub open spec fn string_views(v: Seq<String>) -> Seq<Seq<char>> {
    v.map_values(|x: String| x@)
}

// ---------------------------------------------------------------- substrings

/// The substrings of `len` characters, by starting position.
pub open spec fn windows(s: Seq<char>, len: nat) -> Seq<Seq<char>> {
    if len == 0 || len > s.len() {
        Seq::empty()
    } else {
        Seq::new((s.len() - len + 1) as nat, |i: int| s.subrange(i, i + len))
    }
}

/// The substrings of every length from `len` down to one.
pub open spec fn windows_down_from(s: Seq<char>, len: nat) -> Seq<Seq<char>>
    decreases len,
{
    if len == 0 {
        Seq::empty()
    } else {
        windows(s, len) + windows_down_from(s, (len - 1) as nat)
    }
}

/// What `get_subs` lists: nothing when `sublen` exceeds the text's length in
/// bytes; the substrings of `sublen` characters when it is positive; else
/// the substrings of every length, longest first.
pub open spec fn subs(s: Seq<char>, sublen: nat) -> Seq<Seq<char>> {
    if sublen > utf8_len(s) {
        Seq::empty()
    } else if sublen > 0 {
        windows(s, sublen)
    } else {
        windows_down_from(s, s.len())
    }
}

/// Appends the substrings of `len` characters to `out`.
fn push_windows(out: &mut Vec<String>, s: &Vec<char>, len: usize)
    ensures
        string_views(final(out)@) == string_views(old(out)@) + windows(s@, len as nat),
{
    if len == 0 || len > s.len() {
        assert(string_views(out@) =~= string_views(out@) + windows(s@, len as nat));
        return;
    }
    let ghost start = string_views(out@);
    let mut i: usize = 0;
    while i <= s.len() - len
        invariant
            0 < len <= s.len(),
            i <= s.len() - len + 1,
            string_views(out@) == start + windows(s@, len as nat).take(i as int),
        decreases s.len() + 1 - i,
    {
        let piece = string_from_chars(&slice_chars(s, i, i + len));
        let ghost before = string_views(out@);
        out.push(piece);
        assert(string_views(out@) =~= before.push(piece@));
        i += 1;
        assert(windows(s@, len as nat).take(i as int) =~= windows(s@, len as nat).take(i - 1).push(
            s@.subrange(i - 1, i - 1 + len),
        ));
    }
    assert(windows(s@, len as nat).take(i as int) =~= windows(s@, len as nat));
}

/// The substrings of the text: of `sublen` characters when `sublen` is
/// positive, else of every length, longest first; none when `sublen` is
/// more than the text's length in bytes.
pub fn get_subs(text: &str, sublen: usize) -> (r: Vec<String>)
    ensures
        string_views(r@) == subs(text@, sublen as nat),
{
    let mut r: Vec<String> = Vec::new();
    let nbytes = text.as_bytes().len();
    assert(nbytes == utf8_len(text@));
    if sublen > nbytes {
        assert(string_views(r@) =~= subs(text@, sublen as nat));
        return r;
    }
    let s = str_chars(text);
    assert(sublen as nat <= utf8_len(text@));
    if sublen > 0 {
        push_windows(&mut r, &s, sublen);
        assert(string_views(r@) =~= subs(text@, sublen as nat));
        return r;
    }
    let mut len: usize = s.len();
    assert(string_views(r@) =~= Seq::<Seq<char>>::empty());
    while len > 0
        invariant
            len <= s.len(),
            string_views(r@) + windows_down_from(s@, len as nat) == windows_down_from(
                s@,
                s.len() as nat,
            ),
        decreases len,
    {
        let ghost before = string_views(r@);
        push_windows(&mut r, &s, len);
        assert(before + windows_down_from(s@, len as nat) =~= before + windows(s@, len as nat)
            + windows_down_from(s@, (len - 1) as nat));
        len -= 1;
    }
    assert(string_views(r@) + Seq::<Seq<char>>::empty() =~= string_views(r@));
    r
}

// ---------------------------------------------------------------- chunks

/// Chunks of `every` characters from position `x`, each followed by `add`.
pub open spec fn chunks_with(s: Seq<char>, add: Seq<char>, every: nat, x: nat) -> Seq<char>
    decreases s.len() + every - x,
{
    if every == 0 || x >= s.len() {
        Seq::empty()
    } else {
        s.subrange(x as int, if x + every <= s.len() { (x + every) as int } else { s.len() as int }) + add
            + chunks_with(s, add, every, x + every)
    }
}

/// What `add_every_x` gives: the text itself when `every` is zero or more
/// than its length, else each chunk of `every` characters followed by `add`.
pub open spec fn every_x(s: Seq<char>, add: Seq<char>, every: nat) -> Seq<char> {
    if every == 0 || every > s.len() {
        s
    } else {
        chunks_with(s, add, every, 0)
    }
}

/// Puts `to_add` after every chunk of `every` characters.
pub fn add_every_x(text: &str, to_add: &str, every: usize) -> (r: String)
    ensures
        r@ == every_x(text@, to_add@, every as nat),
{
    let s = str_chars(text);
    if every == 0 || every > s.len() {
        return string_from_chars(&s);
    }
    let add = str_chars(to_add);
    let mut r: Vec<char> = Vec::new();
    let mut x: usize = 0;
    while x < s.len()
        invariant
            0 < every <= s.len(),
            r@ + chunks_with(s@, add@, every as nat, x as nat) == chunks_with(
                s@,
                add@,
                every as nat,
                0,
            ),
        decreases s.len() - x,
    {
        let end = if every <= s.len() - x {
            x + every
        } else {
            s.len()
        };
        let ghost before = r@;
        push_all(&mut r, &slice_chars(&s, x, end));
        push_all(&mut r, &add);
        assert(before + chunks_with(s@, add@, every as nat, x as nat) =~= r@ + chunks_with(
            s@,
            add@,
            every as nat,
            (x + every) as nat,
        ));
        if every > s.len() - x {
            x = s.len();
        } else {
            x = x + every;
        }
    }
    string_from_chars(&r)
}

/// Each chunk of `every` characters from position `x` put into `form` in
/// place of `placeholder`.
pub open spec fn put_chunks(
    s: Seq<char>,
    form: Seq<char>,
    placeholder: Seq<char>,
    every: nat,
    x: nat,
) -> Seq<char>
    decreases s.len() + every - x,
{
    if every == 0 || x >= s.len() {
        Seq::empty()
    } else {
        replace(
            form,
            placeholder,
            s.subrange(x as int, if x + every <= s.len() { (x + every) as int } else { s.len() as int }),
        ) + put_chunks(s, form, placeholder, every, x + every)
    }
}

/// Cuts the text into chunks of `every` characters and puts each, in turn,
/// into `to_add_into` in place of `replace_with`.
pub fn devide_and_put_in(text: &str, to_add_into: &str, replace_with: &str, every: usize) -> (r:
    String)
    requires
        every > 0,
    ensures
        r@ == put_chunks(text@, to_add_into@, replace_with@, every as nat, 0),
{
    let s = str_chars(text);
    let r = put_chunks_chars(&s, &str_chars(to_add_into), &str_chars(replace_with), every);
    string_from_chars(&r)
}

/// Each chunk of `every` characters put into `form` in place of `placeholder`.
pub fn put_chunks_chars(s: &Vec<char>, form: &Vec<char>, placeholder: &Vec<char>, every: usize) -> (r:
    Vec<char>)
    requires
        every > 0,
    ensures
        r@ == put_chunks(s@, form@, placeholder@, every as nat, 0),
{
    let mut r: Vec<char> = Vec::new();
    let mut x: usize = 0;
    while x < s.len()
        invariant
            every > 0,
            r@ + put_chunks(s@, form@, placeholder@, every as nat, x as nat) == put_chunks(
                s@,
                form@,
                placeholder@,
                every as nat,
                0,
            ),
        decreases s.len() - x,
    {
        let end = if every <= s.len() - x {
            x + every
        } else {
            s.len()
        };
        let piece = replace_chars(form, placeholder, &slice_chars(s, x, end));
        let ghost before = r@;
        push_all(&mut r, &piece);
        assert(before + put_chunks(s@, form@, placeholder@, every as nat, x as nat) =~= r@
            + put_chunks(s@, form@, placeholder@, every as nat, (x + every) as nat));
        if every > s.len() - x {
            x = s.len();
        } else {
            x = x + every;
        }
    }
    r
}

// ---------------------------------------------------------------- sorting

/// `x` put after the last element whose key is at least its own.
pub open spec fn insert_desc<T>(s: Seq<T>, x: T, key: spec_fn(T) -> int) -> Seq<T>
    decreases s.len(),
{
    if s.len() == 0 {
        seq![x]
    } else if key(s.last()) >= key(x) {
        s.push(x)
    } else {
        insert_desc(s.drop_last(), x, key).push(s.last())
    }
}

/// Stable sort by decreasing key: elements with equal keys keep their order.
pub open spec fn sort_desc<T>(s: Seq<T>, key: spec_fn(T) -> int) -> Seq<T>
    decreases s.len(),
{
    if s.len() == 0 {
        Seq::empty()
    } else {
        insert_desc(sort_desc(s.drop_last(), key), s.last(), key)
    }
}

/// Inserting at the position found by scanning back over smaller keys.
pub proof fn lemma_insert_desc_at<T>(s: Seq<T>, x: T, key: spec_fn(T) -> int, p: int)
    requires
        0 <= p <= s.len(),
        forall|j: int| p <= j < s.len() ==> key(#[trigger] s[j]) < key(x),
        p == 0 || key(s[p - 1]) >= key(x),
    ensures
        insert_desc(s, x, key) == s.insert(p, x),
    decreases s.len(),
{
    if s.len() == 0 {
        assert(s.insert(p, x) =~= seq![x]);
    } else if key(s.last()) >= key(x) {
        assert(p == s.len());
        assert(s.insert(p, x) =~= s.push(x));
    } else {
        lemma_insert_desc_at(s.drop_last(), x, key, p);
        assert(s.drop_last().insert(p, x).push(s.last()) =~= s.insert(p, x));
    }
}

/// The key of a table entry: the length of its key text.
pub open spec fn key_length(e: (Seq<char>, Seq<char>)) -> int {
    e.0.len() as int
}

/// The text of a list of text pairs.
pub open spec fn pair_string_views(v: Seq<(String, String)>) -> Seq<(Seq<char>, Seq<char>)> {
    v.map_values(|e: (String, String)| (e.0@, e.1@))
}

/// The entries of a table sorted by decreasing key length; entries with keys
/// of equal length keep the table's order.
pub fn get_sorted_iterator(map: &CharMap) -> (r: Vec<(String, String)>)
    ensures
        pair_string_views(r@) == sort_desc(map@, |e: (Seq<char>, Seq<char>)| key_length(e)),
{
    let ghost key = |e: (Seq<char>, Seq<char>)| key_length(e);
    let mut r: Vec<(String, String)> = Vec::new();
    let mut lens: Vec<usize> = Vec::new();
    let mut i: usize = 0;
    while i < map.len()
        invariant
            key == (|e: (Seq<char>, Seq<char>)| key_length(e)),
            i <= map@.len(),
            lens@.len() == r@.len(),
            forall|j: int| 0 <= j < r@.len() ==> lens@[j] == (#[trigger] r@[j]).0@.len(),
            pair_string_views(r@) == sort_desc(map@.take(i as int), key),
        decreases map@.len() - i,
    {
        let (k, v) = map.entry_at(i);
        let klen = k.len();
        let mut p: usize = r.len();
        while p > 0 && lens[p - 1] < klen
            invariant
                p <= r@.len(),
                lens@.len() == r@.len(),
                forall|j: int| 0 <= j < r@.len() ==> lens@[j] == (#[trigger] r@[j]).0@.len(),
                forall|j: int| p <= j < r@.len() ==> lens@[j] < klen,
            decreases p,
        {
            p -= 1;
        }
        let ghost before = pair_string_views(r@);
        let ghost entry = (k@, v@);
        proof {
            assert(key(entry) == k@.len());
            assert forall|j: int| p <= j < before.len() implies key(#[trigger] before[j]) < key(
                entry,
            ) by {
                assert(lens@[j] == r@[j].0@.len());
                assert(before[j].0 == r@[j].0@);
                assert(key(before[j]) == lens@[j]);
            }
            if p > 0 {
                assert(lens@[p - 1] == r@[p - 1].0@.len());
                assert(key(before[p - 1]) >= key(entry));
            }
            lemma_insert_desc_at(before, entry, key, p as int);
            assert(map@.take(i + 1).drop_last() =~= map@.take(i as int));
        }
        r.insert(p, (string_from_chars(k), string_from_chars(v)));
        lens.insert(p, klen);
        assert(pair_string_views(r@) =~= before.insert(p as int, entry));
        i += 1;
    }
    assert(map@.take(i as int) =~= map@);
    r
}

// ---------------------------------------------------------------- inverting

/// Each entry's value made a key for its key, in table order; a later entry
/// wins over an earlier one with the same value.
pub open spec fn swapped(es: Seq<(Seq<char>, Seq<char>)>) -> Seq<(Seq<char>, Seq<char>)>
    decreases es.len(),
{
    if es.len() == 0 {
        Seq::empty()
    } else {
        insert_entry(swapped(es.drop_last()), es.last().1, es.last().0)
    }
}

/// The table with keys and values swapped.
pub fn swap_keys_and_values(map: &CharMap) -> (r: CharMap)
    ensures
        r@ == swapped(map@),
{
    let mut r = CharMap::new();
    let mut i: usize = 0;
    while i < map.len()
        invariant
            i <= map@.len(),
            r@ == swapped(map@.take(i as int)),
        decreases map@.len() - i,
    {
        let (k, v) = map.entry_at(i);
        let kc = crate::text::copy_chars(k);
        let vc = crate::text::copy_chars(v);
        r.insert_chars(vc, kc);
        proof {
            assert(map@.take(i + 1).drop_last() =~= map@.take(i as int));
        }
        i += 1;
    }
    assert(map@.take(i as int) =~= map@);
    r
}

// ---------------------------------------------------------------- escaping

/// A character with a meaning of its own in a regular expression.
pub open spec fn is_regex_meta(c: char) -> bool {
    c == '[' || c == ']' || c == '|' || c == '\\' || c == '{' || c == '}' || c == '(' || c == ')'
        || c == '+' || c == '*' || c == '^' || c == '$' || c == '?' || c == '.'
}

/// The text with a backslash put before each character that has a meaning
/// of its own in a regular expression.
pub open spec fn regex_escaped(s: Seq<char>) -> Seq<char>
    decreases s.len(),
{
    if s.len() == 0 {
        Seq::empty()
    } else {
        regex_escaped(s.drop_last()) + if is_regex_meta(s.last()) {
            seq!['\\', s.last()]
        } else {
            seq![s.last()]
        }
    }
}

/// Escapes the characters that have a meaning of their own in a regular
/// expression.
pub fn fix_for_regex_chars(s: &Vec<char>) -> (r: Vec<char>)
    ensures
        r@ == regex_escaped(s@),
{
    let mut r: Vec<char> = Vec::new();
    let mut i: usize = 0;
    while i < s.len()
        invariant
            i <= s.len(),
            r@ == regex_escaped(s@.take(i as int)),
        decreases s.len() - i,
    {
        let c = s[i];
        if c == '[' || c == ']' || c == '|' || c == '\\' || c == '{' || c == '}' || c == '('
            || c == ')' || c == '+' || c == '*' || c == '^' || c == '$' || c == '?' || c == '.' {
            r.push('\\');
        }
        r.push(c);
        i += 1;
        assert(s@.take(i as int).drop_last() =~= s@.take(i - 1));
        assert(r@ =~= regex_escaped(s@.take(i as int)));
    }
    assert(s@.take(i as int) =~= s@);
    r
}

/// Escapes the characters that have a meaning of their own in a regular
/// expression, so that the text matches itself.
pub fn fix_for_regex(text: &str) -> (r: String)
    ensures
        r@ == regex_escaped(text@),
{
    string_from_chars(&fix_for_regex_chars(&str_chars(text)))
}

/// The text with the escapes `\n`, `\r`, `\t`, `\0` and `\\` read from
/// position `i`; a backslash before any other character is dropped, and
/// that character is then read again on its own; a final backslash stays.
pub open spec fn unescape_from(s: Seq<char>, i: int) -> Seq<char>
    decreases s.len() - i,
{
    if i >= s.len() || i < 0 {
        Seq::empty()
    } else if s[i] == '\\' && i + 1 < s.len() {
        let nc = s[i + 1];
        if nc == 'n' {
            seq!['\n'] + unescape_from(s, i + 2)
        } else if nc == 'r' {
            seq!['\r'] + unescape_from(s, i + 2)
        } else if nc == 't' {
            seq!['\t'] + unescape_from(s, i + 2)
        } else if nc == '0' {
            seq!['\0'] + unescape_from(s, i + 2)
        } else if nc == '\\' {
            seq!['\\'] + unescape_from(s, i + 2)
        } else {
            seq![nc] + unescape_from(s, i + 1)
        }
    } else {
        seq![s[i]] + unescape_from(s, i + 1)
    }
}

/// Reads the escapes `\n`, `\r`, `\t`, `\0` and `\\`.
pub fn fix_escape_chars(string: &str) -> (r: String)
    ensures
        r@ == unescape_from(string@, 0),
{
    let s = str_chars(string);
    let mut r: Vec<char> = Vec::new();
    let mut i: usize = 0;
    while i < s.len()
        invariant
            i <= s.len(),
            r@ + unescape_from(s@, i as int) == unescape_from(s@, 0),
        decreases s.len() - i,
    {
        let c = s[i];
        let ghost before = r@;
        let ghost i0 = i as int;
        if c == '\\' && i + 1 < s.len() {
            let nc = s[i + 1];
            if nc == 'n' {
                r.push('\n');
                i += 1;
            } else if nc == 'r' {
                r.push('\r');
                i += 1;
            } else if nc == 't' {
                r.push('\t');
                i += 1;
            } else if nc == '0' {
                r.push('\0');
                i += 1;
            } else if nc == '\\' {
                r.push('\\');
                i += 1;
            } else {
                r.push(nc);
            }
        } else {
            r.push(c);
        }
        i += 1;
        assert(unescape_from(s@, i0) == seq![r@.last()] + unescape_from(s@, i as int));
        assert(r@ =~= before.push(r@.last()));
        assert(r@ + unescape_from(s@, i as int) =~= before + unescape_from(s@, i0));
    }
    string_from_chars(&r)
}

// ---------------------------------------------------------------- small helpers

/// Whether the text ends with one of the suffixes.
pub fn ends_with_any(string: &str, suffixes: &[&str]) -> (r: bool)
    ensures
        r == exists|i: int| 0 <= i < suffixes@.len() && ends_with(string@, suffixes@[i]@),
{
    let s = str_chars(string);
    let mut i: usize = 0;
    while i < suffixes.len()
        invariant
            i <= suffixes@.len(),
            s@ == string@,
            forall|j: int| 0 <= j < i ==> !ends_with(string@, suffixes@[j]@),
        decreases suffixes@.len() - i,
    {
        if chars_ends_with(&s, &str_chars(suffixes[i])) {
            return true;
        }
        i += 1;
    }
    false
}

/// The text with leading copies of `prefix` taken off, as long as it starts
/// with one; an empty `prefix` takes nothing off.
pub open spec fn strip_repeated_prefix(s: Seq<char>, p: Seq<char>) -> Seq<char>
    decreases s.len(),
{
    if p.len() > 0 && starts_with(s, p) {
        strip_repeated_prefix(s.skip(p.len() as int), p)
    } else {
        s
    }
}

/// Takes leading copies of `p` off `s`, as long as it starts with one.
pub fn strip_repeated_prefix_chars(s: &Vec<char>, p: &Vec<char>) -> (r: Vec<char>)
    ensures
        r@ == strip_repeated_prefix(s@, p@),
{
    let mut i: usize = 0;
    assert(s@.skip(0) =~= s@);
    while p.len() > 0 && chars_match_at(s, p, i)
        invariant
            i <= s.len(),
            strip_repeated_prefix(s@.skip(i as int), p@) == strip_repeated_prefix(s@, p@),
        decreases s.len() - i,
    {
        assert(s@.skip(i as int).skip(p@.len() as int) =~= s@.skip(i + p@.len()));
        assert(starts_with(s@.skip(i as int), p@)) by {
            assert(s@.skip(i as int).subrange(0, p@.len() as int) =~= s@.subrange(
                i as int,
                i + p@.len(),
            ));
        }
        i += p.len();
    }
    proof {
        if p@.len() > 0 {
            if starts_with(s@.skip(i as int), p@) {
                assert(s@.skip(i as int).subrange(0, p@.len() as int) =~= s@.subrange(
                    i as int,
                    i + p@.len(),
                ));
                assert(matches_at(s@, p@, i as int));
            }
        }
    }
    let r = slice_chars(s, i, s.len());
    assert(r@ =~= s@.skip(i as int));
    r
}

/// Takes leading copies of `suffix` off the text, as long as it starts with
/// one.
pub fn while_starts_with_remove(text: &str, suffix: &str) -> (r: String)
    ensures
        r@ == strip_repeated_prefix(text@, suffix@),
{
    string_from_chars(&strip_repeated_prefix_chars(&str_chars(text), &str_chars(suffix)))
}

/// `n` copies of `c`.
pub fn repeat_char(c: char, n: usize) -> (r: String)
    ensures
        r@ == Seq::new(n as nat, |i: int| c),
{
    let mut v: Vec<char> = Vec::new();
    let mut i: usize = 0;
    while i < n
        invariant
            i <= n,
            v@ == Seq::new(i as nat, |j: int| c),
        decreases n - i,
    {
        v.push(c);
        i += 1;
        assert(v@ =~= Seq::new(i as nat, |j: int| c));
    }
    string_from_chars(&v)
}

} // verus!
