//! Ciphering tables: reading them from the `.act`, `.tbl`, `.zts` and `.zta`
//! formats, completing them, writing them back, and ciphering text with
//! them.
use vstd::prelude::*;
use crate::maps::{
    CharMap, has_key, lookup, insert_entry, remove_entry, copy_key, complete_forms, keys_unique,
    lemma_insert_entry,
};
use crate::outside::string_from_chars;
use crate::tables::{spec_presentation_forms, presentation_forms, shaped_letters, shaped_letter_list};
use crate::text::{
    str_chars, copy_chars, chars_eq, replace, replace_chars, split, split_chars, join, join_chars,
    push_all, views, ends_with, chars_ends_with,
};
use crate::utils::{sort_desc, key_length, swapped, swap_keys_and_values, get_sorted_iterator,
    pair_string_views};

verus! {

/// A one-character text.
pub open spec fn one(c: char) -> Seq<char> {
    seq![c]
}

/// A one-character text.
fn one_exec(c: char) -> (r: Vec<char>)
    ensures
        r@ == one(c),
{
    let mut v: Vec<char> = Vec::new();
    v.push(c);
    assert(v@ =~= seq![c]);
    v
}

/// Gives `to` the value that `from` has.
fn copy_entry(m: &mut CharMap, to: &Vec<char>, from: &Vec<char>)
    requires
        has_key(old(m)@, from@),
    ensures
        final(m)@ == copy_key(old(m)@, to@, from@),
        forall|k: Seq<char>| has_key(final(m)@, k) <==> (k == to@ || has_key(old(m)@, k)),
{
    proof {
        use_type_invariant(&*m);
    }
    let v = match m.get_chars(from) {
        Some(v) => copy_chars(v),
        None => Vec::new(),
    };
    proof {
        lemma_insert_entry(m@, to@, v@);
    }
    m.insert_chars(copy_chars(to), v);
}

// ---------------------------------------------------------------- completing

/// Fills in the missing presentation forms of one letter.
fn complete_group(m: &mut CharMap, f: (char, char, char, char))
    ensures
        final(m)@ == complete_forms(old(m)@, one(f.0), one(f.1), one(f.2), one(f.3)),
{
    let k0 = one_exec(f.0);
    let k1 = one_exec(f.1);
    let k2 = one_exec(f.2);
    let k3 = one_exec(f.3);
    let v0 = m.find(&k0).is_some();
    let v1 = m.find(&k1).is_some();
    let v2 = m.find(&k2).is_some();
    let v3 = m.find(&k3).is_some();
    if (v0 && v1 && v2 && v3) || !(v0 || v1 || v2 || v3) {
        return;
    }
    let ghost m0 = m@;
    if !v1 && v0 {
        copy_entry(m, &k1, &k0);
    } else if !v0 && v1 {
        copy_entry(m, &k0, &k1);
    }
    let ghost m1 = m@;
    let v1a = v1 || v0;
    let v0a = v0 || v1;
    assert(v0a ==> has_key(m1, k0@));
    assert(v1a ==> has_key(m1, k1@));
    assert(v2 ==> has_key(m1, k2@));
    assert(v3 ==> has_key(m1, k3@));
    if !v3 && v2 {
        copy_entry(m, &k3, &k2);
    } else if !v2 && v3 {
        copy_entry(m, &k2, &k3);
    }
    let ghost m2 = m@;
    let v3a = v3 || v2;
    let v2a = v2 || v3;
    assert(v0a ==> has_key(m2, k0@));
    assert(v1a ==> has_key(m2, k1@));
    assert(v2a ==> has_key(m2, k2@));
    assert(v3a ==> has_key(m2, k3@));
    if !v1a && v2a {
        copy_entry(m, &k1, &k2);
    } else if !v2a && v1a {
        copy_entry(m, &k2, &k1);
    }
    let ghost m3 = m@;
    assert(v0a ==> has_key(m3, k0@));
    assert(v3a ==> has_key(m3, k3@));
    if !v0a && v3a {
        copy_entry(m, &k0, &k3);
    } else if !v3a && v0a {
        copy_entry(m, &k3, &k0);
    }
}

/// Missing presentation forms filled in, letter by letter in table order,
/// for the first `n` letters.
pub open spec fn completed_upto(m: Seq<(Seq<char>, Seq<char>)>, n: int) -> Seq<
    (Seq<char>, Seq<char>),
>
    decreases n,
{
    if n <= 0 {
        m
    } else {
        let before = completed_upto(m, n - 1);
        match spec_presentation_forms(shaped_letters()[n - 1]) {
            Some(f) => complete_forms(before, one(f.0), one(f.1), one(f.2), one(f.3)),
            None => before,
        }
    }
}

/// Missing presentation forms filled in for every letter.
pub open spec fn completed(m: Seq<(Seq<char>, Seq<char>)>) -> Seq<(Seq<char>, Seq<char>)> {
    completed_upto(m, shaped_letters().len() as int)
}

/// Fills in the presentation forms a table lacks from those of the same
/// letter it has.
pub fn complete_arabic_cipher(charmap: CharMap) -> (r: CharMap)
    ensures
        r@ == completed(charmap@),
{
    let mut m = charmap;
    let letters = shaped_letter_list();
    let mut i: usize = 0;
    while i < letters.len()
        invariant
            letters@ == shaped_letters(),
            i <= letters@.len(),
            m@ == completed_upto(charmap@, i as int),
        decreases letters@.len() - i,
    {
        match presentation_forms(letters[i]) {
            Some(f) => complete_group(&mut m, f),
            None => {},
        }
        i += 1;
    }
    m
}

// ---------------------------------------------------------------- act

/// Entries inserted one after another.
pub open spec fn inserted_all(
    m: Seq<(Seq<char>, Seq<char>)>,
    es: Seq<(Seq<char>, Seq<char>)>,
) -> Seq<(Seq<char>, Seq<char>)>
    decreases es.len(),
{
    if es.len() == 0 {
        m
    } else {
        insert_entry(inserted_all(m, es.drop_last()), es.last().0, es.last().1)
    }
}

/// One step of reading a letter's forms: a form with an empty cell does not
/// overwrite one already read.
pub open spec fn form_step(
    m: Seq<(Seq<char>, Seq<char>)>,
    key: Seq<char>,
    val: Seq<char>,
) -> Seq<(Seq<char>, Seq<char>)> {
    if val.len() == 0 && has_key(m, key) {
        m
    } else {
        insert_entry(m, key, val)
    }
}

/// What `char_to_char` makes of a key and four cells: for a letter with
/// presentation forms, each form mapped to its cell; else the key mapped to
/// the first cell.
pub open spec fn char_table(s: Seq<char>, cells: Seq<Seq<char>>) -> Seq<(Seq<char>, Seq<char>)> {
    if s.len() == 1 && spec_presentation_forms(s[0]) is Some {
        let f = spec_presentation_forms(s[0]).unwrap();
        let e = Seq::<(Seq<char>, Seq<char>)>::empty();
        form_step(
            form_step(form_step(form_step(e, one(f.0), cells[0]), one(f.1), cells[1]), one(f.2), cells[2]),
            one(f.3),
            cells[3],
        )
    } else {
        seq![(s, cells[0])]
    }
}

/// One step of reading a letter's forms.
fn form_step_exec(m: &mut CharMap, key: Vec<char>, val: Vec<char>)
    ensures
        final(m)@ == form_step(old(m)@, key@, val@),
{
    if val.len() == 0 && m.find(&key).is_some() {
        return;
    }
    m.insert_chars(key, val);
}

/// The text of the four cells.
pub open spec fn cell_views(cells: [&str; 4]) -> Seq<Seq<char>> {
    seq![cells[0]@, cells[1]@, cells[2]@, cells[3]@]
}

/// Maps a letter's four presentation forms to the four cells, or any other
/// key to the first cell.
pub fn char_to_char(string: &str, char_stats: [&str; 4]) -> (r: CharMap)
    requires
        string@.len() > 0,
    ensures
        r@ == char_table(string@, cell_views(char_stats)),
{
    let s = str_chars(string);
    char_to_char_chars(
        &s,
        str_chars(char_stats[0]),
        str_chars(char_stats[1]),
        str_chars(char_stats[2]),
        str_chars(char_stats[3]),
    )
}

/// Maps a letter's four presentation forms to the four cells, or any other
/// key to the first cell.
fn char_to_char_chars(s: &Vec<char>, c0: Vec<char>, c1: Vec<char>, c2: Vec<char>, c3: Vec<char>) -> (r:
    CharMap)
    requires
        s@.len() > 0,
    ensures
        r@ == char_table(s@, seq![c0@, c1@, c2@, c3@]),
{
    let mut m = CharMap::new();
    if s.len() == 1 {
        match presentation_forms(s[0]) {
            Some(f) => {
                form_step_exec(&mut m, one_exec(f.0), c0);
                form_step_exec(&mut m, one_exec(f.1), c1);
                form_step_exec(&mut m, one_exec(f.2), c2);
                form_step_exec(&mut m, one_exec(f.3), c3);
                return m;
            },
            None => {},
        }
    }
    let ghost k = s@;
    let ghost v = c0@;
    m.insert_chars(copy_chars(s), c0);
    assert(m@ =~= seq![(k, v)]);
    m
}

/// The separator of `.act` cells.
pub open spec fn act_separator() -> Seq<char> {
    seq!['\u{2588}']
}

/// Lines of a text, a CR LF pair counting as a line break.
pub open spec fn text_lines(t: Seq<char>) -> Seq<Seq<char>> {
    split(replace(t, seq!['\r', '\n'], seq!['\n']), seq!['\n'])
}

/// The lines of a text.
fn text_lines_exec(t: &Vec<char>) -> (r: Vec<Vec<char>>)
    ensures
        views(r@) == text_lines(t@),
{
    let crlf: Vec<char> = vec!['\r', '\n'];
    let lf: Vec<char> = vec!['\n'];
    assert(crlf@ =~= seq!['\r', '\n']);
    assert(lf@ =~= seq!['\n']);
    split_chars(&replace_chars(t, &crlf, &lf), &lf)
}

/// The cell at position `i`, or the empty text.
pub open spec fn cell_or_empty(cols: Seq<Seq<char>>, i: int) -> Seq<char> {
    if 0 <= i < cols.len() {
        cols[i]
    } else {
        Seq::empty()
    }
}

/// What the `.act` lines from the second to the `n`th give: each line whose
/// first cell is not empty adds the table of that key and its next four
/// cells.
pub open spec fn act_upto(lines: Seq<Seq<char>>, n: int) -> Seq<(Seq<char>, Seq<char>)>
    decreases n,
{
    if n <= 1 {
        Seq::empty()
    } else {
        let before = act_upto(lines, n - 1);
        let cols = split(lines[n - 1], act_separator());
        if cols[0].len() >= 1 {
            inserted_all(
                before,
                char_table(
                    cols[0],
                    seq![
                        cell_or_empty(cols, 1),
                        cell_or_empty(cols, 2),
                        cell_or_empty(cols, 3),
                        cell_or_empty(cols, 4),
                    ],
                ),
            )
        } else {
            before
        }
    }
}

/// What `load_act` reads from the text of an `.act` table: the header line
/// skipped, each line a key and up to four cells.
pub open spec fn act_table(t: Seq<char>) -> Seq<(Seq<char>, Seq<char>)> {
    act_upto(text_lines(t), text_lines(t).len() as int)
}

/// Inserts all entries of `src` into `m`, in order.
fn insert_all(m: &mut CharMap, src: &CharMap)
    ensures
        final(m)@ == inserted_all(old(m)@, src@),
{
    let mut i: usize = 0;
    let ghost start = m@;
    while i < src.len()
        invariant
            i <= src@.len(),
            m@ == inserted_all(start, src@.take(i as int)),
        decreases src@.len() - i,
    {
        let (k, v) = src.entry_at(i);
        m.insert_chars(copy_chars(k), copy_chars(v));
        assert(src@.take(i + 1).drop_last() =~= src@.take(i as int));
        i += 1;
    }
    assert(src@.take(i as int) =~= src@);
}

/// The cell at position `i`, or the empty text.
fn cell_exec(cols: &Vec<Vec<char>>, i: usize) -> (r: Vec<char>)
    ensures
        r@ == cell_or_empty(views(cols@), i as int),
{
    if i < cols.len() {
        copy_chars(&cols[i])
    } else {
        Vec::new()
    }
}

/// Reads a ciphering table in the `.act` format: a header line, then lines
/// of a key and up to four cells separated by `█`.
pub fn load_act(content: &str) -> (r: CharMap)
    ensures
        r@ == act_table(content@),
{
    let t = str_chars(content);
    let lines = text_lines_exec(&t);
    let sep: Vec<char> = vec!['\u{2588}'];
    assert(sep@ =~= act_separator());
    let mut m = CharMap::new();
    let mut n: usize = 1;
    if lines.len() == 0 {
        return m;
    }
    while n < lines.len()
        invariant
            1 <= n <= lines@.len(),
            sep@ == act_separator(),
            views(lines@) == text_lines(content@),
            m@ == act_upto(views(lines@), n as int),
        decreases lines@.len() - n,
    {
        let cols = split_chars(&lines[n], &sep);
        assert(views(lines@)[n as int] == lines@[n as int]@);
        proof {
            crate::text::lemma_split_nonempty(lines@[n as int]@, sep@);
        }
        if cols[0].len() >= 1 {
            assert(views(cols@)[0] == cols@[0]@);
            let table = char_to_char_chars(
                &cols[0],
                cell_exec(&cols, 1),
                cell_exec(&cols, 2),
                cell_exec(&cols, 3),
                cell_exec(&cols, 4),
            );
            insert_all(&mut m, &table);
        } else {
            assert(views(cols@)[0] == cols@[0]@);
        }
        n += 1;
    }
    m
}

// ---------------------------------------------------------------- zts and zta

/// The first `n` characters of the second line mapped to the characters of
/// the first line at the same positions.
pub open spec fn zipped(a: Seq<char>, b: Seq<char>, n: int) -> Seq<(Seq<char>, Seq<char>)>
    decreases n,
{
    if n <= 0 {
        Seq::empty()
    } else {
        insert_entry(zipped(a, b, n - 1), one(b[n - 1]), one(a[n - 1]))
    }
}

/// What `load_zts` reads: each character of the second line mapped to the
/// character of the first line at the same position.
pub open spec fn zts_table(t: Seq<char>) -> Seq<(Seq<char>, Seq<char>)> {
    let lines = text_lines(t);
    if lines.len() >= 2 {
        zipped(
            lines[0],
            lines[1],
            if lines[0].len() < lines[1].len() {
                lines[0].len() as int
            } else {
                lines[1].len() as int
            },
        )
    } else {
        Seq::empty()
    }
}

/// Reads a ciphering table in the `.zts` format: the second line's
/// characters stand for the first line's, position by position.
pub fn load_zts(content: &str) -> (r: CharMap)
    ensures
        r@ == zts_table(content@),
{
    load_zts_chars(&str_chars(content))
}

/// Reads a `.zts` table.
fn load_zts_chars(t: &Vec<char>) -> (r: CharMap)
    ensures
        r@ == zts_table(t@),
{
    let lines = text_lines_exec(t);
    let mut m = CharMap::new();
    if lines.len() < 2 {
        return m;
    }
    let a = &lines[0];
    let b = &lines[1];
    assert(views(lines@)[0] == a@ && views(lines@)[1] == b@);
    let n = if a.len() < b.len() {
        a.len()
    } else {
        b.len()
    };
    let mut i: usize = 0;
    while i < n
        invariant
            n <= a@.len(),
            n <= b@.len(),
            i <= n,
            m@ == zipped(a@, b@, i as int),
        decreases n - i,
    {
        m.insert_chars(one_exec(b[i]), one_exec(a[i]));
        i += 1;
    }
    m
}

/// The characters with codes from `x` to `b`, the surrogate codes skipped.
pub open spec fn code_range(x: int, b: int) -> Seq<char>
    decreases b + 1 - x,
{
    if x > b {
        Seq::empty()
    } else {
        (if 0xD800 <= x <= 0xDFFF {
            Seq::empty()
        } else {
            seq![x as char]
        }) + code_range(x + 1, b)
    }
}

/// The characters from `a` to `b`, as a `char` range gives them.
fn char_range_exec(a: char, b: char) -> (r: Vec<char>)
    ensures
        r@ == code_range(a as int, b as int),
{
    let mut r: Vec<char> = Vec::new();
    if a > b {
        return r;
    }
    let mut x: u32 = a as u32;
    let end: u32 = b as u32;
    proof {
        vstd::utf8::char_is_scalar(b);
    }
    while x <= end
        invariant
            a as int <= x as int <= end as int + 1,
            end == b as u32,
            end <= 0x10FFFF,
            r@ + code_range(x as int, end as int) == code_range(a as int, end as int),
        decreases end + 1 - x,
    {
        let ghost before = r@;
        match crate::outside::char_from_u32(x) {
            Some(c) => {
                r.push(c);
                proof {
                    vstd::utf8::char_u32_cast(c, x);
                }
                assert(r@ + code_range(x + 1, end as int) =~= before + code_range(x as int, end as int));
            },
            None => {
                assert(code_range(x as int, end as int) =~= code_range(x + 1, end as int));
            },
        }
        x += 1;
    }
    r
}

/// A range marker `{a:b}` starts at `i`.
pub open spec fn range_at(t: Seq<char>, i: int) -> bool {
    0 <= i && i + 4 < t.len() && t[i] == '{' && t[i + 2] == ':' && t[i + 4] == '}'
}

/// The text from `last` on with each range marker `{a:b}` found from `i` on
/// written out as the characters from `a` to `b`.
pub open spec fn ranges_expanded(t: Seq<char>, i: int, last: int) -> Seq<char>
    decreases t.len() - i,
{
    if i < 0 || i + 4 >= t.len() {
        t.subrange(last, t.len() as int)
    } else if range_at(t, i) {
        t.subrange(last, i) + code_range(t[i + 1] as int, t[i + 3] as int) + ranges_expanded(
            t,
            i + 1,
            i + 5,
        )
    } else {
        ranges_expanded(t, i + 1, last)
    }
}

/// The text of a `.zta` table with its range markers written out.
pub open spec fn zta_text(t: Seq<char>) -> Seq<char> {
    if crate::offsets::utf8_len(t) >= 5 {
        ranges_expanded(t, 0, 0)
    } else {
        t
    }
}

/// The text of a `.zta` table can be read: a text of five bytes or more has
/// at least four characters, and range markers do not overlap.
pub open spec fn zta_ok(t: Seq<char>) -> bool {
    &&& crate::offsets::utf8_len(t) >= 5 ==> t.len() >= 4
    &&& forall|i: int, j: int| #![trigger range_at(t, i), range_at(t, j)]
        i < j && range_at(t, i) && range_at(t, j) ==> j >= i + 5
}

/// What `load_zta` reads: a `.zts` table whose lines may hold range markers.
pub open spec fn zta_table(t: Seq<char>) -> Seq<(Seq<char>, Seq<char>)> {
    zts_table(zta_text(t))
}

/// Reads a ciphering table in the `.zta` format: a `.zts` table whose lines
/// may hold range markers `{a:b}` for the characters from `a` to `b`.
pub fn load_zta(content: &str) -> (r: CharMap)
    requires
        zta_ok(content@),
    ensures
        r@ == zta_table(content@),
{
    let t = str_chars(content);
    let nb = content.as_bytes().len();
    if nb < 5 {
        return load_zts_chars(&t);
    }
    let mut cont: Vec<char> = Vec::new();
    let mut last: usize = 0;
    let mut i: usize = 0;
    assert(nb == crate::offsets::utf8_len(t@));
    while i < t.len() - 4
        invariant
            t@ == content@,
            zta_ok(t@),
            t@.len() >= 4,
            last <= t@.len(),
            last == 0 || (last >= 5 && range_at(t@, last - 5) && last - 5 < i),
            cont@ + ranges_expanded(t@, i as int, last as int) == ranges_expanded(t@, 0, 0),
        decreases t@.len() - i,
    {
        if t[i] == '{' && t[i + 2] == ':' && t[i + 4] == '}' {
            proof {
                if last != 0 {
                    assert(range_at(t@, last - 5) && range_at(t@, i as int));
                }
            }
            assert(last <= i);
            crate::text::push_all(&mut cont, &crate::text::slice_chars(&t, last, i));
            crate::text::push_all(&mut cont, &char_range_exec(t[i + 1], t[i + 3]));
            last = i + 5;
        }
        i += 1;
    }
    crate::text::push_all(&mut cont, &crate::text::slice_chars(&t, last, t.len()));
    load_zts_chars(&cont)
}

/// Whether the text of a `.zta` table can be read.
pub fn zta_readable(content: &str) -> (b: bool)
    ensures
        b == zta_ok(content@),
{
    let t = str_chars(content);
    if content.as_bytes().len() >= 5 && t.len() < 4 {
        return false;
    }
    if t.len() < 5 {
        assert forall|a: int| !range_at(t@, a) by {}
        return true;
    }
    let mut last: Option<usize> = None;
    let mut i: usize = 0;
    while i < t.len()
        invariant
            t@.len() >= 5,
            i <= t@.len(),
            t@ == content@,
            forall|a: int, b: int| #![trigger range_at(t@, a), range_at(t@, b)]
                a < b < i && range_at(t@, a) && range_at(t@, b) ==> b >= a + 5,
            last matches Some(l) ==> l < i && range_at(t@, l as int) && forall|k: int|
                l < k < i ==> !#[trigger] range_at(t@, k),
            last is None ==> forall|k: int| k < i ==> !#[trigger] range_at(t@, k),
        decreases t@.len() - i,
    {
        let here = i < t.len() - 4 && t[i] == '{' && t[i + 2] == ':' && t[i + 4] == '}';
        assert(here == range_at(t@, i as int));
        if here {
            match last {
                Some(l) => {
                    if i < l + 5 {
                        assert(range_at(t@, l as int) && range_at(t@, i as int));
                        return false;
                    }
                    assert forall|a: int| a < i && range_at(t@, a) implies i >= a + 5 by {
                        if a > l {
                            assert(!range_at(t@, a));
                        }
                    }
                },
                None => {},
            }
            last = Some(i);
        }
        i += 1;
    }
    true
}

// ---------------------------------------------------------------- tbl

/// An ASCII letter or digit.
pub open spec fn is_alnum(c: char) -> bool {
    ('a' <= c <= 'z') || ('A' <= c <= 'Z') || ('0' <= c <= '9')
}

/// A white-space character.
pub open spec fn is_space(c: char) -> bool {
    ('\t' <= c <= '\r') || c == ' ' || c == '\u{85}' || c == '\u{A0}' || c == '\u{1680}' || (
    '\u{2000}' <= c <= '\u{200A}') || c == '\u{2028}' || c == '\u{2029}' || c == '\u{202F}'
        || c == '\u{205F}' || c == '\u{3000}'
}

/// Where the run of letters and digits from `s` ends.
pub open spec fn alnum_end(t: Seq<char>, s: int) -> int
    decreases t.len() - s,
{
    if 0 <= s < t.len() && is_alnum(t[s]) {
        alnum_end(t, s + 1)
    } else {
        s
    }
}

/// Where the run of non-space characters from `s` ends.
pub open spec fn word_end(t: Seq<char>, s: int) -> int
    decreases t.len() - s,
{
    if 0 <= s < t.len() && !is_space(t[s]) {
        word_end(t, s + 1)
    } else {
        s
    }
}

/// The entry found at `s`, if one starts there: letters and digits, `=`,
/// and at least one non-space character (start, `=` position, end).
pub open spec fn tbl_at(t: Seq<char>, s: int) -> Option<(int, int, int)> {
    let r = alnum_end(t, s);
    if 0 <= s && r + 1 < t.len() && t[r] == '=' && !is_space(t[r + 1]) {
        Some((s, r, word_end(t, r + 1)))
    } else {
        None
    }
}

/// The first entry found from `p` on.
pub open spec fn tbl_first(t: Seq<char>, p: int) -> Option<(int, int, int)>
    decreases t.len() - p,
{
    if p < 0 || p >= t.len() {
        None
    } else {
        match tbl_at(t, p) {
            Some(m) => Some(m),
            None => tbl_first(t, p + 1),
        }
    }
}

/// Runs end no earlier than they start, and within the text.
pub proof fn lemma_runs_bounded(t: Seq<char>, s: int)
    requires
        0 <= s <= t.len(),
    ensures
        s <= alnum_end(t, s) <= t.len(),
        s <= word_end(t, s) <= t.len(),
    decreases t.len() - s,
{
    if s < t.len() {
        lemma_runs_bounded(t, s + 1);
    }
}

/// An entry found lies after `p`, inside the text, and is not empty.
pub proof fn lemma_tbl_first(t: Seq<char>, p: int)
    requires
        0 <= p <= t.len(),
    ensures
        tbl_first(t, p) matches Some(m) ==> p <= m.0 <= m.1 && m.1 + 2 <= m.2 <= t.len(),
    decreases t.len() - p,
{
    if p < t.len() {
        lemma_runs_bounded(t, p);
        match tbl_at(t, p) {
            Some(m) => {
                lemma_runs_bounded(t, m.1 + 2);
                lemma_word_end_step(t, m.1 + 1);
            },
            None => {
                lemma_tbl_first(t, p + 1);
            },
        }
    }
}

/// A run of non-space characters that starts with one goes past it.
proof fn lemma_word_end_step(t: Seq<char>, s: int)
    requires
        0 <= s < t.len(),
        !is_space(t[s]),
    ensures
        word_end(t, s) == word_end(t, s + 1),
{
}

/// The (digits, key) pairs of the entries found one after another from `p`
/// on.
pub open spec fn tbl_pairs(t: Seq<char>, p: int) -> Seq<(Seq<char>, Seq<char>)>
    decreases t.len() - p,
{
    if p < 0 || p >= t.len() {
        Seq::empty()
    } else {
        match tbl_first(t, p) {
            Some(m) => {
                proof {
                    lemma_tbl_first(t, p);
                }
                seq![(t.subrange(m.0, m.1), t.subrange(m.1 + 1, m.2))] + tbl_pairs(t, m.2)
            },
            None => Seq::empty(),
        }
    }
}

/// Each key mapped to the text that its hexadecimal digits spell, in turn.
pub open spec fn hex_entries(
    pairs: Seq<(Seq<char>, Seq<char>)>,
) -> Seq<(Seq<char>, Seq<char>)>
    decreases pairs.len(),
{
    if pairs.len() == 0 {
        Seq::empty()
    } else {
        insert_entry(
            hex_entries(pairs.drop_last()),
            pairs.last().1,
            crate::convert::hex_decoded(pairs.last().0),
        )
    }
}

/// What `load_tbl` reads: every `digits=key` entry, the key standing for
/// the text its hexadecimal digits spell.
pub open spec fn tbl_table(t: Seq<char>) -> Seq<(Seq<char>, Seq<char>)> {
    hex_entries(tbl_pairs(t, 0))
}

/// Whether `c` is an ASCII letter or digit.
fn is_alnum_exec(c: char) -> (b: bool)
    ensures
        b == is_alnum(c),
{
    ('a' <= c && c <= 'z') || ('A' <= c && c <= 'Z') || ('0' <= c && c <= '9')
}

/// Whether `c` is white space.
fn is_space_exec(c: char) -> (b: bool)
    ensures
        b == is_space(c),
{
    ('\t' <= c && c <= '\r') || c == ' ' || c == '\u{85}' || c == '\u{A0}' || c == '\u{1680}' || (
    '\u{2000}' <= c && c <= '\u{200A}') || c == '\u{2028}' || c == '\u{2029}' || c == '\u{202F}'
        || c == '\u{205F}' || c == '\u{3000}'
}

/// The first entry found from `p` on.
fn tbl_first_exec(t: &Vec<char>, p: usize) -> (r: Option<(usize, usize, usize)>)
    requires
        p <= t@.len(),
    ensures
        r is Some <==> tbl_first(t@, p as int) is Some,
        r matches Some(m) ==> tbl_first(t@, p as int) == Some((m.0 as int, m.1 as int, m.2 as int)),
{
    let n = t.len();
    let mut s: usize = p;
    while s < n
        invariant
            p <= s <= n == t@.len(),
            tbl_first(t@, p as int) == tbl_first(t@, s as int),
        decreases n - s,
    {
        let mut r: usize = s;
        while r < n && is_alnum_exec(t[r])
            invariant
                s <= r <= n == t@.len(),
                alnum_end(t@, s as int) == alnum_end(t@, r as int),
            decreases n - r,
        {
            r += 1;
        }
        if r < n && r + 1 < n && t[r] == '=' && !is_space_exec(t[r + 1]) {
            let mut e: usize = r + 1;
            while e < n && !is_space_exec(t[e])
                invariant
                    r + 1 <= e <= n == t@.len(),
                    word_end(t@, r as int + 1) == word_end(t@, e as int),
                decreases n - e,
            {
                e += 1;
            }
            return Some((s, r, e));
        }
        s += 1;
    }
    None
}

/// Reads a ciphering table in the `.tbl` format: entries `digits=key`, the
/// key standing for the text its hexadecimal digits spell.
pub fn load_tbl(content: &str) -> (r: CharMap)
    ensures
        r@ == tbl_table(content@),
{
    let t = str_chars(content);
    let n = t.len();
    let mut pairs: Vec<(Vec<char>, Vec<char>)> = Vec::new();
    let mut p: usize = 0;
    while p < n
        invariant
            p <= n == t@.len(),
            t@ == content@,
            crate::maps::pair_views(pairs@) + tbl_pairs(t@, p as int) == tbl_pairs(t@, 0),
        ensures
            tbl_pairs(t@, p as int) == Seq::<(Seq<char>, Seq<char>)>::empty(),
        decreases n - p,
    {
        let found = tbl_first_exec(&t, p);
        proof {
            lemma_tbl_first(t@, p as int);
        }
        match found {
            Some(m) => {
                let digits = crate::text::slice_chars(&t, m.0, m.1);
                let key = crate::text::slice_chars(&t, m.1 + 1, m.2);
                let ghost before = crate::maps::pair_views(pairs@);
                let ghost pv = (digits@, key@);
                pairs.push((digits, key));
                assert(crate::maps::pair_views(pairs@) =~= before.push(pv));
                assert(crate::maps::pair_views(pairs@) + tbl_pairs(t@, m.2 as int) =~= before
                    + tbl_pairs(t@, p as int));
                p = m.2;
            },
            None => {
                break;
            },
        }
    }
    assert(crate::maps::pair_views(pairs@) =~= tbl_pairs(t@, 0));
    let mut m = CharMap::new();
    let mut i: usize = 0;
    while i < pairs.len()
        invariant
            i <= pairs@.len(),
            m@ == hex_entries(crate::maps::pair_views(pairs@).take(i as int)),
        decreases pairs@.len() - i,
    {
        let value = crate::convert::decode_hex(string_from_chars(&pairs[i].0).as_str());
        m.insert_chars(copy_chars(&pairs[i].1), str_chars(value.as_str()));
        assert(crate::maps::pair_views(pairs@).take(i + 1).drop_last() =~= crate::maps::pair_views(
            pairs@,
        ).take(i as int));
        i += 1;
    }
    assert(crate::maps::pair_views(pairs@).take(i as int) =~= crate::maps::pair_views(pairs@));
    m
}


// ---------------------------------------------------------------- grouping

/// The text of a list of keys with lists of values.
pub open spec fn list_views(g: Seq<(Vec<char>, Vec<Vec<char>>)>) -> Seq<(Seq<char>, Seq<Seq<char>>)> {
    g.map_values(|e: (Vec<char>, Vec<Vec<char>>)| (e.0@, views(e.1@)))
}

/// The values of a letter's forms gathered from a table, and the table left
/// over: the forms are taken in order; one whose text is already among the
/// gathered values, or that the table lacks, is passed over; one found gives
/// its value and leaves the table.
pub open spec fn gather_forms(
    m: Seq<(Seq<char>, Seq<char>)>,
    forms: Seq<Seq<char>>,
) -> (Seq<Seq<char>>, Seq<(Seq<char>, Seq<char>)>)
    decreases forms.len(),
{
    if forms.len() == 0 {
        (Seq::empty(), m)
    } else {
        let (vals, rest) = gather_forms(m, forms.drop_last());
        let k = forms.last();
        if vals.contains(k) || !has_key(rest, k) {
            (vals, rest)
        } else {
            (vals.push(lookup(rest, k).unwrap()), remove_entry(rest, k))
        }
    }
}

/// Gathering nothing leaves the table as it was.
pub proof fn lemma_gather_nothing(m: Seq<(Seq<char>, Seq<char>)>, forms: Seq<Seq<char>>)
    ensures
        gather_forms(m, forms).0.len() == 0 ==> gather_forms(m, forms).1 == m,
    decreases forms.len(),
{
    if forms.len() > 0 {
        lemma_gather_nothing(m, forms.drop_last());
    }
}

/// The four forms of a letter as texts.
pub open spec fn form_texts(f: (char, char, char, char)) -> Seq<Seq<char>> {
    seq![one(f.0), one(f.1), one(f.2), one(f.3)]
}

/// The first `n` letters each given the values of its forms that the table
/// has, and what the table has left.
pub open spec fn grouped_upto(m: Seq<(Seq<char>, Seq<char>)>, n: int) -> (
    Seq<(Seq<char>, Seq<Seq<char>>)>,
    Seq<(Seq<char>, Seq<char>)>,
)
    decreases n,
{
    if n <= 0 {
        (Seq::empty(), m)
    } else {
        let (g, rest) = grouped_upto(m, n - 1);
        let c = shaped_letters()[n - 1];
        match spec_presentation_forms(c) {
            Some(f) => {
                let (vals, rest2) = gather_forms(rest, form_texts(f));
                if vals.len() == 0 {
                    (g, rest)
                } else {
                    (insert_entry(g, one(c), vals), rest2)
                }
            },
            None => (g, rest),
        }
    }
}

/// Each entry put in as a key with a one-value list, in turn.
pub open spec fn lists_inserted(
    g: Seq<(Seq<char>, Seq<Seq<char>>)>,
    es: Seq<(Seq<char>, Seq<char>)>,
) -> Seq<(Seq<char>, Seq<Seq<char>>)>
    decreases es.len(),
{
    if es.len() == 0 {
        g
    } else {
        insert_entry(lists_inserted(g, es.drop_last()), es.last().0, seq![es.last().1])
    }
}

/// What `one_to_four_charmap` makes of a table: each letter whose forms the
/// table has, with their values; then every other entry with its value
/// alone, replacing a letter of the same text.
pub open spec fn grouped(m: Seq<(Seq<char>, Seq<char>)>) -> Seq<(Seq<char>, Seq<Seq<char>>)> {
    let (g, rest) = grouped_upto(m, shaped_letters().len() as int);
    lists_inserted(g, rest)
}

/// Whether a text is among the values.
fn contains_text(vals: &Vec<Vec<char>>, k: &Vec<char>) -> (b: bool)
    ensures
        b == views(vals@).contains(k@),
{
    let mut i: usize = 0;
    while i < vals.len()
        invariant
            i <= vals@.len(),
            forall|j: int| 0 <= j < i ==> views(vals@)[j] != k@,
        decreases vals@.len() - i,
    {
        if chars_eq(&vals[i], k) {
            assert(views(vals@)[i as int] == k@);
            return true;
        }
        i += 1;
    }
    false
}

/// Sets `key` to `vals`: in place when the key is present, else as a new
/// last entry.
fn insert_group(g: &mut Vec<(Vec<char>, Vec<Vec<char>>)>, key: Vec<char>, vals: Vec<Vec<char>>)
    requires
        keys_unique(list_views(old(g)@)),
    ensures
        list_views(final(g)@) == insert_entry(list_views(old(g)@), key@, views(vals@)),
        keys_unique(list_views(final(g)@)),
{
    let ghost before = list_views(g@);
    let ghost kv = key@;
    let ghost vv = views(vals@);
    proof {
        lemma_insert_entry(before, kv, vv);
    }
    let mut i: usize = 0;
    let mut found = false;
    while i < g.len()
        invariant_except_break
            !found,
        invariant
            i <= g@.len(),
            list_views(g@) == before,
            keys_unique(before),
            kv == key@,
            forall|j: int| 0 <= j < i ==> before[j].0 != kv,
        ensures
            found ==> i < g@.len() && before[i as int].0 == kv,
            !found ==> forall|j: int| 0 <= j < g@.len() ==> before[j].0 != kv,
        decreases g@.len() - i,
    {
        if chars_eq(&g[i].0, &key) {
            found = true;
            break;
        }
        i += 1;
    }
    if found {
        proof {
            crate::maps::lemma_key_index(before, i as int);
        }
        g.set(i, (key, vals));
        assert(list_views(g@) =~= before.update(i as int, (kv, vv)));
    } else {
        assert(!has_key(before, kv));
        g.push((key, vals));
        assert(list_views(g@) =~= before.push((kv, vv)));
    }
}

/// Takes the values of a letter's forms out of the table.
fn gather_exec(rest: &mut CharMap, forms: &Vec<Vec<char>>) -> (vals: Vec<Vec<char>>)
    ensures
        (views(vals@), final(rest)@) == gather_forms(old(rest)@, views(forms@)),
{
    let mut vals: Vec<Vec<char>> = Vec::new();
    let mut i: usize = 0;
    assert(views(forms@).take(0) =~= Seq::<Seq<char>>::empty());
    assert(views(vals@) =~= Seq::<Seq<char>>::empty());
    while i < forms.len()
        invariant
            i <= forms@.len(),
            (views(vals@), rest@) == gather_forms(old(rest)@, views(forms@).take(i as int)),
        decreases forms@.len() - i,
    {
        let k = &forms[i];
        assert(views(forms@).take(i + 1).drop_last() =~= views(forms@).take(i as int));
        assert(views(forms@).take(i + 1).last() == k@);
        if !contains_text(&vals, k) {
            match rest.get_chars(k) {
                Some(v) => {
                    let vc = copy_chars(v);
                    let ghost before = views(vals@);
                    vals.push(vc);
                    assert(views(vals@) =~= before.push(vc@));
                    rest.remove_chars(k);
                },
                None => {},
            }
        }
        i += 1;
    }
    assert(views(forms@).take(i as int) =~= views(forms@));
    vals
}

/// Each letter whose forms the table has, with their values, then every
/// other entry with its value alone.
fn grouped_chars(charmap: &CharMap) -> (g: Vec<(Vec<char>, Vec<Vec<char>>)>)
    ensures
        list_views(g@) == grouped(charmap@),
        keys_unique(list_views(g@)),
{
    let mut rest = charmap.copy();
    let mut g: Vec<(Vec<char>, Vec<Vec<char>>)> = Vec::new();
    let letters = shaped_letter_list();
    let mut i: usize = 0;
    assert(list_views(g@) =~= Seq::<(Seq<char>, Seq<Seq<char>>)>::empty());
    while i < letters.len()
        invariant
            letters@ == shaped_letters(),
            i <= letters@.len(),
            (list_views(g@), rest@) == grouped_upto(charmap@, i as int),
            keys_unique(list_views(g@)),
        decreases letters@.len() - i,
    {
        let c = letters[i];
        match presentation_forms(c) {
            Some(f) => {
                let forms: Vec<Vec<char>> = vec![one_exec(f.0), one_exec(f.1), one_exec(f.2), one_exec(f.3)];
                assert(views(forms@) =~= form_texts(f));
                proof {
                    lemma_gather_nothing(rest@, form_texts(f));
                }
                let vals = gather_exec(&mut rest, &forms);
                if vals.len() > 0 {
                    insert_group(&mut g, one_exec(c), vals);
                }
            },
            None => {},
        }
        i += 1;
    }
    let ghost g0 = list_views(g@);
    let mut j: usize = 0;
    while j < rest.len()
        invariant
            j <= rest@.len(),
            (g0, rest@) == grouped_upto(charmap@, shaped_letters().len() as int),
            list_views(g@) == lists_inserted(g0, rest@.take(j as int)),
            keys_unique(list_views(g@)),
        decreases rest@.len() - j,
    {
        let (k, v) = rest.entry_at(j);
        let vals: Vec<Vec<char>> = vec![copy_chars(v)];
        assert(views(vals@) =~= seq![rest@[j as int].1]);
        assert(rest@.take(j + 1).drop_last() =~= rest@.take(j as int));
        insert_group(&mut g, copy_chars(k), vals);
        j += 1;
    }
    assert(rest@.take(j as int) =~= rest@);
    g
}

/// The text of a list of keys with lists of values.
pub open spec fn string_list_views(v: Seq<(String, Vec<String>)>) -> Seq<(Seq<char>, Seq<Seq<char>>)> {
    v.map_values(|e: (String, Vec<String>)| (e.0@, crate::utils::string_views(e.1@)))
}

/// Groups a table by letter: each letter whose presentation forms the table
/// has is listed with their values, and every other entry with its value
/// alone.
pub fn one_to_four_charmap(charmap: &CharMap) -> (r: Vec<(String, Vec<String>)>)
    ensures
        string_list_views(r@) == grouped(charmap@),
        keys_unique(string_list_views(r@)),
{
    let g = grouped_chars(charmap);
    let mut r: Vec<(String, Vec<String>)> = Vec::new();
    let mut i: usize = 0;
    while i < g.len()
        invariant
            i <= g@.len(),
            string_list_views(r@) == list_views(g@).take(i as int),
        decreases g@.len() - i,
    {
        let mut vs: Vec<String> = Vec::new();
        let mut j: usize = 0;
        while j < g[i].1.len()
            invariant
                i < g@.len(),
                j <= g@[i as int].1@.len(),
                crate::utils::string_views(vs@) == views(g@[i as int].1@).take(j as int),
            decreases g@[i as int].1@.len() - j,
        {
            let ghost before = crate::utils::string_views(vs@);
            vs.push(string_from_chars(&g[i].1[j]));
            assert(crate::utils::string_views(vs@) =~= before.push(g@[i as int].1@[j as int]@));
            assert(views(g@[i as int].1@).take(j + 1) =~= views(g@[i as int].1@).take(j as int).push(
                g@[i as int].1@[j as int]@,
            ));
            j += 1;
        }
        assert(views(g@[i as int].1@).take(j as int) =~= views(g@[i as int].1@));
        let ghost before = string_list_views(r@);
        let k = string_from_chars(&g[i].0);
        let ghost e = (k@, crate::utils::string_views(vs@));
        r.push((k, vs));
        assert(string_list_views(r@) =~= before.push(e));
        assert(list_views(g@).take(i + 1) =~= list_views(g@).take(i as int).push(list_views(g@)[i as int]));
        i += 1;
    }
    assert(list_views(g@).take(i as int) =~= list_views(g@));
    r
}

// ---------------------------------------------------------------- ciphering

/// The text with each pair's key replaced by its value, pair after pair.
pub open spec fn replaced_all(t: Seq<char>, ps: Seq<(Seq<char>, Seq<char>)>) -> Seq<char>
    decreases ps.len(),
{
    if ps.len() == 0 {
        t
    } else {
        replace(replaced_all(t, ps.drop_last()), ps.last().0, ps.last().1)
    }
}

/// The table a text is ciphered with: as given, or, to decipher, with keys
/// and values swapped and the entry under the empty text dropped.
pub open spec fn cipher_table(m: Seq<(Seq<char>, Seq<char>)>, flip: bool) -> Seq<(Seq<char>, Seq<char>)> {
    if flip {
        remove_entry(swapped(m), Seq::<char>::empty())
    } else {
        m
    }
}

/// What `cipher` makes of a text: every key of the table replaced by its
/// value, longer keys first and keys of equal length in table order; an
/// empty text or table leaves the text as it is.
pub open spec fn ciphered(t: Seq<char>, m: Seq<(Seq<char>, Seq<char>)>, flip: bool) -> Seq<char> {
    if m.len() == 0 || t.len() == 0 {
        t
    } else {
        replaced_all(t, sort_desc(cipher_table(m, flip), |e: (Seq<char>, Seq<char>)| key_length(e)))
    }
}

/// Ciphers a text with a table, or deciphers it when `flip` is set.
pub fn cipher(text: &str, charmap: &CharMap, flip: bool) -> (r: String)
    ensures
        r@ == ciphered(text@, charmap@, flip),
{
    let t = str_chars(text);
    if charmap.is_empty() || t.len() == 0 {
        return string_from_chars(&t);
    }
    let sorted = if flip {
        let mut m = swap_keys_and_values(charmap);
        let empty: Vec<char> = Vec::new();
        assert(empty@ =~= Seq::<char>::empty());
        m.remove_chars(&empty);
        get_sorted_iterator(&m)
    } else {
        get_sorted_iterator(charmap)
    };
    let ghost ps = pair_string_views(sorted@);
    let mut cur = t;
    let mut i: usize = 0;
    while i < sorted.len()
        invariant
            i <= sorted@.len(),
            ps == pair_string_views(sorted@),
            cur@ == replaced_all(text@, ps.take(i as int)),
        decreases sorted@.len() - i,
    {
        let from = str_chars(sorted[i].0.as_str());
        let to = str_chars(sorted[i].1.as_str());
        cur = replace_chars(&cur, &from, &to);
        assert(ps.take(i + 1).drop_last() =~= ps.take(i as int));
        i += 1;
    }
    assert(ps.take(i as int) =~= ps);
    string_from_chars(&cur)
}

// ---------------------------------------------------------------- writing tables

/// The header line of an `.act` table.
pub open spec fn act_header() -> Seq<char> {
    "الحرف█منفصل█متصل بما قبله█متصل بما بعده█متصل من الجهتين"@
}

/// One `.act` line per key: the key, then its values, separated by `█`.
pub open spec fn act_lines(g: Seq<(Seq<char>, Seq<Seq<char>>)>) -> Seq<Seq<char>> {
    g.map_values(|e: (Seq<char>, Seq<Seq<char>>)| e.0 + act_separator() + join(e.1, act_separator()))
}

/// The text of a table in the `.act` format: the header, then one line per
/// letter or other key.
pub open spec fn act_text(m: Seq<(Seq<char>, Seq<char>)>) -> Seq<char> {
    act_header() + seq!['\n'] + join(act_lines(grouped(m)), seq!['\n'])
}

/// Writes a table in the `.act` format.
pub fn save_act(charmap: &CharMap) -> (r: String)
    ensures
        r@ == act_text(charmap@),
{
    let g = grouped_chars(charmap);
    let sep: Vec<char> = vec!['\u{2588}'];
    assert(sep@ =~= act_separator());
    let mut lines: Vec<Vec<char>> = Vec::new();
    let mut i: usize = 0;
    while i < g.len()
        invariant
            i <= g@.len(),
            sep@ == act_separator(),
            views(lines@) == act_lines(list_views(g@)).take(i as int),
        decreases g@.len() - i,
    {
        let mut line = copy_chars(&g[i].0);
        push_all(&mut line, &sep);
        push_all(&mut line, &join_chars(&g[i].1, &sep));
        let ghost before = views(lines@);
        let ghost lv = line@;
        lines.push(line);
        assert(views(lines@) =~= before.push(lv));
        assert(act_lines(list_views(g@)).take(i + 1) =~= act_lines(list_views(g@)).take(i as int).push(
            lv,
        ));
        i += 1;
    }
    assert(act_lines(list_views(g@)).take(i as int) =~= act_lines(list_views(g@)));
    let mut r = str_chars("الحرف█منفصل█متصل بما قبله█متصل بما بعده█متصل من الجهتين");
    r.push('\n');
    let nl: Vec<char> = vec!['\n'];
    assert(nl@ =~= seq!['\n']);
    push_all(&mut r, &join_chars(&lines, &nl));
    string_from_chars(&r)
}

/// One `.tbl` line per entry: the hexadecimal digits of the value's UTF-8
/// encoding, `=`, and the key.
pub open spec fn tbl_lines(m: Seq<(Seq<char>, Seq<char>)>) -> Seq<Seq<char>> {
    m.map_values(
        |e: (Seq<char>, Seq<char>)|
            crate::outside::hex_lower(vstd::utf8::encode_utf8(e.1)) + seq!['='] + e.0,
    )
}

/// Writes a table in the `.tbl` format, one entry per line.
pub fn save_tbl(charmap: &CharMap) -> (r: String)
    ensures
        r@ == join(tbl_lines(charmap@), seq!['\n']),
{
    let es = charmap.entries();
    let mut lines: Vec<Vec<char>> = Vec::new();
    let mut i: usize = 0;
    while i < es.len()
        invariant
            i <= es@.len(),
            es@.len() == charmap@.len(),
            forall|j: int|
                0 <= j < es@.len() ==> (#[trigger] es@[j]).0@ == charmap@[j].0 && es@[j].1@
                    == charmap@[j].1,
            views(lines@) == tbl_lines(charmap@).take(i as int),
        decreases es@.len() - i,
    {
        assert(es@[i as int].0@ == charmap@[i as int].0 && es@[i as int].1@ == charmap@[i as int].1);
        let mut line = str_chars(crate::convert::encode_hex(es[i].1.as_str()).as_str());
        line.push('=');
        push_all(&mut line, &str_chars(es[i].0.as_str()));
        let ghost before = views(lines@);
        let ghost lv = line@;
        lines.push(line);
        assert(views(lines@) =~= before.push(lv));
        assert(tbl_lines(charmap@)[i as int] =~= lv);
        assert(tbl_lines(charmap@).take(i + 1) =~= tbl_lines(charmap@).take(i as int).push(lv));
        i += 1;
    }
    assert(tbl_lines(charmap@).take(i as int) =~= tbl_lines(charmap@));
    let nl: Vec<char> = vec!['\n'];
    assert(nl@ =~= seq!['\n']);
    string_from_chars(&join_chars(&lines, &nl))
}

// ---------------------------------------------------------------- table files

/// The kind of ciphering table a file name's extension names: 1 for
/// `.act`, 2 for `.tbl`, 3 for `.zts`, 4 for `.zta`, 0 for none of them.
pub open spec fn table_kind(path: Seq<char>) -> int {
    if ends_with(path, seq!['.', 'a', 'c', 't']) {
        1
    } else if ends_with(path, seq!['.', 't', 'b', 'l']) {
        2
    } else if ends_with(path, seq!['.', 'z', 't', 's']) {
        3
    } else if ends_with(path, seq!['.', 'z', 't', 'a']) {
        4
    } else {
        0
    }
}

/// The kind of ciphering table a file name names.
fn table_kind_exec(path: &Vec<char>) -> (k: u8)
    ensures
        k == table_kind(path@),
{
    let act: Vec<char> = vec!['.', 'a', 'c', 't'];
    let tbl: Vec<char> = vec!['.', 't', 'b', 'l'];
    let zts: Vec<char> = vec!['.', 'z', 't', 's'];
    let zta: Vec<char> = vec!['.', 'z', 't', 'a'];
    assert(act@ =~= seq!['.', 'a', 'c', 't']);
    assert(tbl@ =~= seq!['.', 't', 'b', 'l']);
    assert(zts@ =~= seq!['.', 'z', 't', 's']);
    assert(zta@ =~= seq!['.', 'z', 't', 'a']);
    if chars_ends_with(path, &act) {
        1
    } else if chars_ends_with(path, &tbl) {
        2
    } else if chars_ends_with(path, &zts) {
        3
    } else if chars_ends_with(path, &zta) {
        4
    } else {
        0
    }
}

/// The kind of ciphering table a file name's extension names (1 `.act`,
/// 2 `.tbl`, 3 `.zts`, 4 `.zta`, 0 none).
pub fn table_kind_of(path: &str) -> (k: u8)
    ensures
        k == table_kind(path@),
{
    table_kind_exec(&str_chars(path))
}

/// What a table file holds, read by its extension and completed when asked:
/// empty for an empty file or an extension of no table format.
pub open spec fn table_from(path: Seq<char>, content: Seq<char>, complete_ar: bool) -> Seq<
    (Seq<char>, Seq<char>),
> {
    let k = table_kind(path);
    if content.len() == 0 || k == 0 {
        Seq::empty()
    } else {
        let m = if k == 1 {
            act_table(content)
        } else if k == 2 {
            tbl_table(content)
        } else if k == 3 {
            zts_table(content)
        } else {
            zta_table(content)
        };
        if complete_ar {
            completed(m)
        } else {
            m
        }
    }
}

/// Reads the ciphering table that a file of the given name holds, the
/// missing presentation forms filled in when `complete_ar` is set.
pub fn ciphering_table(path: &str, content: &str, complete_ar: bool) -> (r: CharMap)
    requires
        table_kind(path@) == 4 ==> zta_ok(content@),
    ensures
        r@ == table_from(path@, content@, complete_ar),
{
    let k = table_kind_exec(&str_chars(path));
    if str_chars(content).len() == 0 || k == 0 {
        return CharMap::new();
    }
    let m = if k == 1 {
        load_act(content)
    } else if k == 2 {
        load_tbl(content)
    } else if k == 3 {
        load_zts(content)
    } else {
        load_zta(content)
    };
    if complete_ar {
        complete_arabic_cipher(m)
    } else {
        m
    }
}

/// The text to write for a table under a file name: the `.act` or `.tbl`
/// format by its extension, nothing for any other.
pub fn table_text(path: &str, charmap: &CharMap) -> (r: Option<String>)
    ensures
        table_kind(path@) == 1 ==> (r matches Some(t) && t@ == act_text(charmap@)),
        table_kind(path@) == 2 ==> (r matches Some(t) && t@ == join(tbl_lines(charmap@), seq!['\n'])),
        table_kind(path@) != 1 && table_kind(path@) != 2 ==> r is None,
{
    let k = table_kind_exec(&str_chars(path));
    if k == 1 {
        Some(save_act(charmap))
    } else if k == 2 {
        Some(save_tbl(charmap))
    } else {
        None
    }
}

} // verus!
