//! Laying text out in a bitmap font: measuring a line, padding it to a
//! width with spaces, and wrapping text into boxes of lines and pages.
use vstd::prelude::*;
use crate::maps::{FontMap, has_key, lookup, glyph_room};
use crate::numbers::{parsed_isize, parse_isize};
use crate::offsets::{span_text, span_chars, char_index_of, char_index, is_char_offset};
use crate::outside::{regex_captures, regex_search, group_views, well_placed, string_from_chars};
use crate::text::{str_chars, push_all, replace, replace_chars, slice_chars};
use crate::utils::{regex_escaped, fix_for_regex_chars};
use crate::tables::{spec_binds_to_next, binds_to_next};

verus! {

// ---------------------------------------------------------------- commands

/// The placeholder for the number in an offset command.
pub open spec fn offset_marker() -> Seq<char> {
    seq!['<', 'o', 'f', 'f', 's', 'e', 't', '>']
}

/// A capture group for a signed decimal number.
pub open spec fn number_group() -> Seq<char> {
    seq!['(', '-', '?', '\\', 'd', '+', ')']
}

/// The pattern that finds offset commands: the command with its special
/// characters escaped and `<offset>` standing for a signed number.
pub open spec fn offset_pattern(offset_com: Seq<char>) -> Seq<char> {
    replace(regex_escaped(offset_com), offset_marker(), number_group())
}

/// The pattern that finds offset commands.
fn offset_pattern_exec(offset_com: &str) -> (r: String)
    ensures
        r@ == offset_pattern(offset_com@),
{
    let marker: Vec<char> = vec!['<', 'o', 'f', 'f', 's', 'e', 't', '>'];
    let group: Vec<char> = vec!['(', '-', '?', '\\', 'd', '+', ')'];
    assert(marker@ =~= offset_marker());
    assert(group@ =~= number_group());
    string_from_chars(&replace_chars(&fix_for_regex_chars(&str_chars(offset_com)), &marker, &group))
}

/// The sum of the numbers that the first groups of the first `n` matches
/// hold; nothing when a match lacks the group, the group does not read as
/// an `isize`, or a partial sum leaves the `isize` range.
pub open spec fn offsets_sum(t: Seq<char>, ms: Seq<Seq<Option<(usize, usize)>>>, n: int) -> Option<int>
    decreases n,
{
    if n <= 0 {
        Some(0)
    } else {
        match offsets_sum(t, ms, n - 1) {
            Some(s) => {
                let m = ms[n - 1];
                if m.len() >= 2 && m[1] is Some {
                    match parsed_isize(span_text(t, m[1].unwrap())) {
                        Some(v) => if isize::MIN <= s + v <= isize::MAX {
                            Some(s + v)
                        } else {
                            None
                        },
                        None => None,
                    }
                } else {
                    None
                }
            },
            None => None,
        }
    }
}

/// Adds up the numbers that the first capture groups of the matches hold;
/// nothing when a match lacks the group, a group does not read as an
/// `isize`, or the sum leaves the `isize` range.
pub fn offsets_total(text: &str, ms: &Vec<Vec<Option<(usize, usize)>>>) -> (r: Option<isize>)
    requires
        well_placed(text@, group_views(ms@)),
    ensures
        r is Some <==> offsets_sum(text@, group_views(ms@), ms@.len() as int) is Some,
        r matches Some(v) ==> offsets_sum(text@, group_views(ms@), ms@.len() as int) == Some(v as int),
{
    let t = str_chars(text);
    let ghost msv = group_views(ms@);
    let mut total: isize = 0;
    let mut i: usize = 0;
    while i < ms.len()
        invariant
            t@ == text@,
            msv == group_views(ms@),
            well_placed(t@, msv),
            i <= ms@.len(),
            offsets_sum(t@, msv, i as int) == Some(total as int),
        decreases ms@.len() - i,
    {
        let row = &ms[i];
        assert(msv[i as int] == row@);
        if row.len() < 2 || row[1].is_none() {
            proof {
                lemma_offsets_stay_unread(t@, msv, i + 1, msv.len() as int);
            }
            return None;
        }
        let sp = match row[1] {
            Some(sp) => sp,
            None => (0, 0),
        };
        assert(msv[i as int][1] == Some(sp));
        let v = match parse_isize(&span_chars(&t, sp)) {
            Some(v) => v,
            None => {
                proof {
                    lemma_offsets_stay_unread(t@, msv, i + 1, msv.len() as int);
                }
                return None;
            },
        };
        match total.checked_add(v) {
            Some(s) => {
                total = s;
            },
            None => {
                proof {
                    lemma_offsets_stay_unread(t@, msv, i + 1, msv.len() as int);
                }
                return None;
            },
        }
        i += 1;
    }
    Some(total)
}

/// Once a sum fails, no longer one succeeds.
pub proof fn lemma_offsets_stay_unread(
    t: Seq<char>,
    ms: Seq<Seq<Option<(usize, usize)>>>,
    n: int,
    k: int,
)
    requires
        n <= k,
        offsets_sum(t, ms, n) is None,
    ensures
        offsets_sum(t, ms, k) is None,
    decreases k - n,
{
    if n < k {
        lemma_offsets_stay_unread(t, ms, n, k - 1);
    }
}

/// Where match `i` ends, as a character index; 0 before the first match.
pub open spec fn match_end(t: Seq<char>, ms: Seq<Seq<Option<(usize, usize)>>>, i: int) -> int {
    if i < 0 {
        0
    } else {
        char_index_of(t, ms[i][0].unwrap().1 as int)
    }
}

/// Where match `i` starts, as a character index.
pub open spec fn match_start(t: Seq<char>, ms: Seq<Seq<Option<(usize, usize)>>>, i: int) -> int {
    char_index_of(t, ms[i][0].unwrap().0 as int)
}

/// The text before each of the first `n` matches, after the one before it.
pub open spec fn kept_upto(t: Seq<char>, ms: Seq<Seq<Option<(usize, usize)>>>, n: int) -> Seq<char>
    decreases n,
{
    if n <= 0 {
        Seq::empty()
    } else {
        kept_upto(t, ms, n - 1) + t.subrange(match_end(t, ms, n - 2), match_start(t, ms, n - 1))
    }
}

/// The text with every match taken out, as replacing the matches by
/// nothing gives it.
pub open spec fn matches_removed(t: Seq<char>, ms: Seq<Seq<Option<(usize, usize)>>>) -> Seq<char> {
    kept_upto(t, ms, ms.len() as int) + t.subrange(match_end(t, ms, ms.len() - 1), t.len() as int)
}

/// Takes the matches out of the text.
pub fn remove_matches(text: &str, ms: &Vec<Vec<Option<(usize, usize)>>>) -> (r: String)
    requires
        well_placed(text@, group_views(ms@)),
    ensures
        r@ == matches_removed(text@, group_views(ms@)),
{
    let t = str_chars(text);
    let ghost msv = group_views(ms@);
    let mut r: Vec<char> = Vec::new();
    let mut last: usize = 0;
    let mut i: usize = 0;
    proof {
        assert(t@.take(0) =~= Seq::<char>::empty());
        crate::offsets::lemma_char_index_of(t@, 0, 0);
    }
    while i < ms.len()
        invariant
            t@ == text@,
            msv == group_views(ms@),
            well_placed(t@, msv),
            i <= ms@.len(),
            is_char_offset(t@, last as int),
            char_index_of(t@, last as int) == match_end(t@, msv, i - 1),
            i > 0 ==> last == msv[i - 1][0].unwrap().1,
            r@ == kept_upto(t@, msv, i as int),
        decreases ms@.len() - i,
    {
        let row = &ms[i];
        assert(msv[i as int] == row@);
        assert(msv[i as int][0] is Some);
        let sp = match row[0] {
            Some(sp) => sp,
            None => (0, 0),
        };
        assert(msv[i as int][0] == Some(sp));
        if i > 0 {
            assert(msv[i - 1][0].unwrap().1 <= msv[i as int][0].unwrap().0);
        } else {
            assert(last == 0);
        }
        let piece = span_chars(&t, (last, sp.0));
        push_all(&mut r, &piece);
        last = sp.1;
        i += 1;
    }
    let k = char_index(&t, last);
    push_all(&mut r, &slice_chars(&t, k, t.len()));
    string_from_chars(&r)
}

/// Horizontal room a character takes in a font: its glyph's width plus
/// advance, or nothing for a character the font lacks.
pub open spec fn room_of(fm: Seq<(char, Seq<isize>)>, c: char) -> int {
    match lookup(fm, c) {
        Some(m) => glyph_room(m),
        None => 0,
    }
}

/// The room of each character the font has, within the `isize` range.
pub open spec fn room_fits(fm: Seq<(char, Seq<isize>)>, c: char) -> bool {
    isize::MIN <= room_of(fm, c) <= isize::MAX
}

/// The total room of the first `n` characters; nothing when a glyph's room
/// or a partial sum leaves the `isize` range.
pub open spec fn rooms_sum(t: Seq<char>, fm: Seq<(char, Seq<isize>)>, n: int) -> Option<int>
    decreases n,
{
    if n <= 0 {
        Some(0)
    } else {
        match rooms_sum(t, fm, n - 1) {
            Some(s) => if room_fits(fm, t[n - 1]) && isize::MIN <= s + room_of(fm, t[n - 1])
                <= isize::MAX {
                Some(s + room_of(fm, t[n - 1]))
            } else {
                None
            },
            None => None,
        }
    }
}

/// Once a sum fails, no longer one succeeds.
pub proof fn lemma_rooms_stay_unread(t: Seq<char>, fm: Seq<(char, Seq<isize>)>, n: int, k: int)
    requires
        n <= k,
        rooms_sum(t, fm, n) is None,
    ensures
        rooms_sum(t, fm, k) is None,
    decreases k - n,
{
    if n < k {
        lemma_rooms_stay_unread(t, fm, n, k - 1);
    }
}

/// The room a character takes in the font, if it fits an `isize`.
fn room_exec(fontmap: &FontMap, c: char) -> (r: Option<isize>)
    ensures
        r is Some <==> room_fits(fontmap@, c),
        r matches Some(v) ==> v == room_of(fontmap@, c),
{
    match fontmap.get(c) {
        Some(m) => m[2].checked_add(m[6]),
        None => Some(0),
    }
}

/// The total room the characters of a text take in a font, characters it
/// lacks taking none; nothing when the sum leaves the `isize` range.
pub fn glyphs_width(text: &Vec<char>, fontmap: &FontMap) -> (r: Option<isize>)
    ensures
        r is Some <==> rooms_sum(text@, fontmap@, text@.len() as int) is Some,
        r matches Some(v) ==> rooms_sum(text@, fontmap@, text@.len() as int) == Some(v as int),
{
    let mut total: isize = 0;
    let mut i: usize = 0;
    while i < text.len()
        invariant
            i <= text@.len(),
            rooms_sum(text@, fontmap@, i as int) == Some(total as int),
        decreases text@.len() - i,
    {
        let w = match room_exec(fontmap, text[i]) {
            Some(w) => w,
            None => {
                proof {
                    lemma_rooms_stay_unread(text@, fontmap@, i + 1, text@.len() as int);
                }
                return None;
            },
        };
        match total.checked_add(w) {
            Some(s) => {
                total = s;
            },
            None => {
                proof {
                    lemma_rooms_stay_unread(text@, fontmap@, i + 1, text@.len() as int);
                }
                return None;
            },
        }
        i += 1;
    }
    Some(total)
}

/// The width of a line in a font: the numbers of its offset commands, plus
/// the room of its characters once the offset commands, then the matches of
/// `coms_pattern`, are taken out (a pattern that does not compile takes
/// nothing out and, for offsets, adds nothing); nothing when an offset
/// command does not read or a sum leaves the `isize` range.
pub open spec fn line_width(
    t: Seq<char>,
    fm: Seq<(char, Seq<isize>)>,
    coms_pattern: Seq<char>,
    offset_com: Seq<char>,
) -> Option<int> {
    let (w, t1) = match regex_search(offset_pattern(offset_com), t) {
        Some(ms) => (offsets_sum(t, ms, ms.len() as int), matches_removed(t, ms)),
        None => (Some(0), t),
    };
    let t2 = match regex_search(coms_pattern, t1) {
        Some(ms) => matches_removed(t1, ms),
        None => t1,
    };
    match (w, rooms_sum(t2, fm, t2.len() as int)) {
        (Some(a), Some(b)) => if isize::MIN <= a + b <= isize::MAX {
            Some(a + b)
        } else {
            None
        },
        _ => None,
    }
}

/// The width of a line, if it can be measured.
fn line_width_exec(text: &str, fontmap: &FontMap, coms_pattern: &str, offset_com: &str) -> (r: Option<
    isize,
>)
    ensures
        r is Some <==> line_width(text@, fontmap@, coms_pattern@, offset_com@) is Some,
        r matches Some(v) ==> line_width(text@, fontmap@, coms_pattern@, offset_com@) == Some(
            v as int,
        ),
{
    let pattern = offset_pattern_exec(offset_com);
    let (w, t1) = match regex_captures(pattern.as_str(), text) {
        Some(ms) => (offsets_total(text, &ms), remove_matches(text, &ms)),
        None => (Some(0), string_from_chars(&str_chars(text))),
    };
    let t2 = match regex_captures(coms_pattern, t1.as_str()) {
        Some(ms) => remove_matches(t1.as_str(), &ms),
        None => t1,
    };
    let g = glyphs_width(&str_chars(t2.as_str()), fontmap);
    match (w, g) {
        (Some(a), Some(b)) => a.checked_add(b),
        _ => None,
    }
}

/// Whether a line can be measured: its offset commands read and no sum
/// leaves the `isize` range.
pub open spec fn measurable(
    t: Seq<char>,
    fm: Seq<(char, Seq<isize>)>,
    coms_pattern: Seq<char>,
    offset_com: Seq<char>,
) -> bool {
    line_width(t, fm, coms_pattern, offset_com) is Some
}

/// The width of a line in a font: the numbers of its offset commands
/// (`offset_com` with `<offset>` standing for the number), plus the width
/// and advance of each of its characters the font has, commands and
/// matches of `coms_pattern` not counted.
pub fn get_line_width(text: &str, fontmap: &FontMap, coms_pattern: &str, offset_com: &str) -> (r:
    isize)
    requires
        measurable(text@, fontmap@, coms_pattern@, offset_com@),
    ensures
        line_width(text@, fontmap@, coms_pattern@, offset_com@) == Some(r as int),
{
    match line_width_exec(text, fontmap, coms_pattern, offset_com) {
        Some(w) => w,
        None => 0,
    }
}

/// The width of a line, or nothing when it cannot be measured.
pub fn try_get_line_width(text: &str, fontmap: &FontMap, coms_pattern: &str, offset_com: &str) -> (r:
    Option<isize>)
    ensures
        r is Some <==> measurable(text@, fontmap@, coms_pattern@, offset_com@),
        r matches Some(v) ==> line_width(text@, fontmap@, coms_pattern@, offset_com@) == Some(
            v as int,
        ),
{
    match line_width_exec(text, fontmap, coms_pattern, offset_com) {
        Some(_) => Some(get_line_width(text, fontmap, coms_pattern, offset_com)),
        None => None,
    }
}

// ---------------------------------------------------------------- padding

/// A character that justifying may repeat: the space and the tatweel.
pub open spec fn stretchable(c: char) -> bool {
    c == ' ' || c == '\u{0640}'
}

/// How many characters of the text justifying may repeat.
pub open spec fn stretch_count(t: Seq<char>) -> nat
    decreases t.len(),
{
    if t.len() == 0 {
        0
    } else {
        stretch_count(t.drop_last()) + if stretchable(t.last()) {
            1nat
        } else {
            0nat
        }
    }
}

/// The first `i` characters justified, working from the right: each
/// stretchable character `c` is written `n / room(c) + left + 1` times,
/// where `left` is what the stretchable character to its right left over
/// (`n % room` of that one; `left` at the right end).
pub open spec fn stretched(t: Seq<char>, i: int, n: nat, left: nat, fm: Seq<(char, Seq<isize>)>) -> Seq<
    char,
>
    decreases i,
{
    if i <= 0 {
        Seq::empty()
    } else if stretchable(t[i - 1]) {
        let r = room_of(fm, t[i - 1]) as nat;
        stretched(t, i - 1, n, n % r, fm) + crate::text::repeat(seq![t[i - 1]], n / r + left + 1)
    } else {
        stretched(t, i - 1, n, left, fm) + seq![t[i - 1]]
    }
}

/// `k` spaces.
pub open spec fn spaces(k: int) -> Seq<char> {
    crate::text::repeat(seq![' '], k as nat)
}

/// A line given `s` spaces' worth of room in the alignment asked: 0 left
/// (spaces after), 1 right (spaces before), 2 centred from the left, 3
/// centred from the right, 4 centred on both sides, 5 justified by
/// repeating spaces and tatweels; any other alignment leaves the line.
pub open spec fn aligned(t: Seq<char>, s: int, align: u8, fm: Seq<(char, Seq<isize>)>) -> Seq<char> {
    if align == 0 {
        t + spaces(s)
    } else if align == 1 {
        spaces(s) + t
    } else if align == 2 {
        spaces(s - s / 2) + t
    } else if align == 3 {
        t + spaces(s / 2)
    } else if align == 4 {
        spaces(s - s / 2) + t + spaces(s / 2)
    } else if align == 5 {
        if stretch_count(t) == 0 {
            t
        } else {
            stretched(t, t.len() as int, (s / stretch_count(t) as int) as nat, (s % stretch_count(
                t,
            ) as int) as nat, fm)
        }
    } else {
        t
    }
}

/// What `offset_line_with_spaces` makes of a line, given the box width in
/// font units: the line as it is when the font lacks U+0000 or the space,
/// the space takes no room, or (to justify) the font lacks the tatweel or it
/// takes no room; else padded with as many spaces as fit in the room left,
/// in the alignment asked. Nothing when the line cannot be measured or a
/// room or difference leaves the `isize` range.
pub open spec fn spaced_line(
    t: Seq<char>,
    fm: Seq<(char, Seq<isize>)>,
    width: int,
    align: u8,
    coms_pattern: Seq<char>,
    offset_com: Seq<char>,
) -> Option<Seq<char>> {
    if !has_key(fm, '\0') || !has_key(fm, ' ') {
        Some(t)
    } else if !room_fits(fm, ' ') {
        None
    } else if room_of(fm, ' ') <= 0 {
        Some(t)
    } else if align == 5 && !has_key(fm, '\u{0640}') {
        Some(t)
    } else if align == 5 && !room_fits(fm, '\u{0640}') {
        None
    } else if align == 5 && room_of(fm, '\u{0640}') <= 0 {
        Some(t)
    } else {
        match line_width(t, fm, coms_pattern, offset_com) {
            Some(w) => if !(isize::MIN <= width - w <= isize::MAX) {
                None
            } else if width - w <= 0 || (width - w) / room_of(fm, ' ') <= 0 {
                Some(t)
            } else {
                Some(aligned(t, (width - w) / room_of(fm, ' '), align, fm))
            },
            None => None,
        }
    }
}

/// `k` spaces.
fn spaces_exec(k: usize) -> (r: Vec<char>)
    ensures
        r@ == spaces(k as int),
{
    let sp: Vec<char> = vec![' '];
    assert(sp@ =~= seq![' ']);
    crate::text::repeat_chars(&sp, k)
}

/// How many characters of the text justifying may repeat.
fn stretch_count_exec(t: &Vec<char>) -> (n: usize)
    ensures
        n == stretch_count(t@),
{
    let mut n: usize = 0;
    let mut i: usize = 0;
    while i < t.len()
        invariant
            i <= t@.len(),
            n == stretch_count(t@.take(i as int)),
            n <= i,
        decreases t@.len() - i,
    {
        assert(t@.take(i + 1).drop_last() =~= t@.take(i as int));
        if t[i] == ' ' || t[i] == '\u{0640}' {
            n += 1;
        }
        i += 1;
    }
    assert(t@.take(i as int) =~= t@);
    n
}

/// Justifies a line by repeating its spaces and tatweels.
fn stretch_exec(t: &Vec<char>, n: usize, left: usize, fontmap: &FontMap, room_space: isize, room_tatweel: isize) -> (r:
    Vec<char>)
    requires
        room_space > 0,
        room_tatweel > 0,
        room_of(fontmap@, ' ') == room_space,
        room_of(fontmap@, '\u{0640}') == room_tatweel,
        n <= isize::MAX,
        left <= isize::MAX,
    ensures
        r@ == stretched(t@, t@.len() as int, n as nat, left as nat, fontmap@),
{
    let mut suffix: Vec<char> = Vec::new();
    let mut i: usize = t.len();
    let mut cur_left: usize = left;
    while i > 0
        invariant
            i <= t@.len(),
            room_of(fontmap@, ' ') == room_space,
            room_of(fontmap@, '\u{0640}') == room_tatweel,
            room_space > 0,
            room_tatweel > 0,
            n <= isize::MAX,
            cur_left <= isize::MAX,
            stretched(t@, t@.len() as int, n as nat, left as nat, fontmap@) == stretched(
                t@,
                i as int,
                n as nat,
                cur_left as nat,
                fontmap@,
            ) + suffix@,
        decreases i,
    {
        let c = t[i - 1];
        let mut piece: Vec<char> = Vec::new();
        if c == ' ' || c == '\u{0640}' {
            let r: usize = if c == ' ' {
                room_space as usize
            } else {
                room_tatweel as usize
            };
            let m: usize = n / r + cur_left;
            let one: Vec<char> = vec![c];
            assert(one@ =~= seq![c]);
            piece = crate::text::repeat_chars(&one, m + 1);
            cur_left = n % r;
        } else {
            piece.push(c);
            assert(piece@ =~= seq![c]);
        }
        let ghost old_suffix = suffix@;
        push_all(&mut piece, &suffix);
        suffix = piece;
        assert(stretched(t@, t@.len() as int, n as nat, left as nat, fontmap@) =~= stretched(
            t@,
            i - 1,
            n as nat,
            cur_left as nat,
            fontmap@,
        ) + suffix@);
        i -= 1;
    }
    assert(stretched(t@, 0, n as nat, cur_left as nat, fontmap@) =~= Seq::<char>::empty());
    assert(suffix@ =~= stretched(t@, t@.len() as int, n as nat, left as nat, fontmap@));
    suffix
}

/// The padded line, if the line can be measured.
fn spaced_line_exec(
    line_text: &str,
    fontmap: &FontMap,
    line_width: isize,
    text_align: u8,
    coms_pattern: &str,
    offset_com: &str,
) -> (r: Option<String>)
    ensures
        r is Some <==> spaced_line(line_text@, fontmap@, line_width as int, text_align, coms_pattern@, offset_com@) is Some,
        r matches Some(s) ==> spaced_line(line_text@, fontmap@, line_width as int, text_align, coms_pattern@, offset_com@)
            == Some(s@),
{
    let t = str_chars(line_text);
    if !fontmap.contains_key('\0') || !fontmap.contains_key(' ') {
        return Some(string_from_chars(&t));
    }
    let room_space = match room_exec(fontmap, ' ') {
        Some(r) => r,
        None => {
            return None;
        },
    };
    if room_space <= 0 {
        return Some(string_from_chars(&t));
    }
    let mut room_tatweel: isize = 1;
    if text_align == 5 {
        if !fontmap.contains_key('\u{0640}') {
            return Some(string_from_chars(&t));
        }
        room_tatweel = match room_exec(fontmap, '\u{0640}') {
            Some(r) => r,
            None => {
                return None;
            },
        };
        if room_tatweel <= 0 {
            return Some(string_from_chars(&t));
        }
    }
    let w = match line_width_exec(line_text, fontmap, coms_pattern, offset_com) {
        Some(w) => w,
        None => {
            return None;
        },
    };
    let diff = match line_width.checked_sub(w) {
        Some(d) => d,
        None => {
            return None;
        },
    };
    if diff <= 0 {
        return Some(string_from_chars(&t));
    }
    let s: usize = (diff as usize) / (room_space as usize);
    assert(s as int == (line_width - w) / room_of(fontmap@, ' '));
    if s == 0 {
        return Some(string_from_chars(&t));
    }
    let r = if text_align == 0 {
        let mut r = copy_line(&t);
        push_all(&mut r, &spaces_exec(s));
        r
    } else if text_align == 1 {
        let mut r = spaces_exec(s);
        push_all(&mut r, &t);
        r
    } else if text_align == 2 {
        let mut r = spaces_exec(s - s / 2);
        push_all(&mut r, &t);
        r
    } else if text_align == 3 {
        let mut r = copy_line(&t);
        push_all(&mut r, &spaces_exec(s / 2));
        r
    } else if text_align == 4 {
        let mut r = spaces_exec(s - s / 2);
        push_all(&mut r, &t);
        push_all(&mut r, &spaces_exec(s / 2));
        r
    } else if text_align == 5 {
        let cnt = stretch_count_exec(&t);
        if cnt == 0 {
            copy_line(&t)
        } else {
            assert(s <= diff) by (nonlinear_arith)
                requires
                    s == (diff as usize) / (room_space as usize),
                    room_space > 0,
                    diff > 0,
            ;
            assert(s % cnt <= s) by (nonlinear_arith)
                requires
                    cnt > 0,
            ;
            stretch_exec(&t, s / cnt, s % cnt, fontmap, room_space, room_tatweel)
        }
    } else {
        copy_line(&t)
    };
    Some(string_from_chars(&r))
}

/// A copy of a line.
fn copy_line(t: &Vec<char>) -> (r: Vec<char>)
    ensures
        r@ == t@,
{
    crate::text::copy_chars(t)
}

/// Whether a line can be padded: it can be measured, and no room or
/// difference leaves the `isize` range.
pub open spec fn paddable(
    t: Seq<char>,
    fm: Seq<(char, Seq<isize>)>,
    width: int,
    align: u8,
    coms_pattern: Seq<char>,
    offset_com: Seq<char>,
) -> bool {
    spaced_line(t, fm, width, align, coms_pattern, offset_com) is Some
}

/// Pads a line with spaces to fill `line_width` font units (the box width
/// already scaled to the font), in the alignment `text_align`.
pub fn offset_line_with_spaces(
    line_text: &str,
    fontmap: &FontMap,
    line_width: isize,
    text_align: u8,
    coms_pattern: &str,
    offset_com: &str,
) -> (r: String)
    requires
        paddable(line_text@, fontmap@, line_width as int, text_align, coms_pattern@, offset_com@),
    ensures
        spaced_line(line_text@, fontmap@, line_width as int, text_align, coms_pattern@, offset_com@)
            == Some(r@),
{
    match spaced_line_exec(line_text, fontmap, line_width, text_align, coms_pattern, offset_com) {
        Some(s) => s,
        None => String::new(),
    }
}

/// The padded line, or nothing when it cannot be padded.
pub fn try_offset_line_with_spaces(
    line_text: &str,
    fontmap: &FontMap,
    line_width: isize,
    text_align: u8,
    coms_pattern: &str,
    offset_com: &str,
) -> (r: Option<String>)
    ensures
        r is Some <==> paddable(line_text@, fontmap@, line_width as int, text_align, coms_pattern@, offset_com@),
        r matches Some(s) ==> spaced_line(line_text@, fontmap@, line_width as int, text_align, coms_pattern@, offset_com@)
            == Some(s@),
{
    match spaced_line_exec(line_text, fontmap, line_width, text_align, coms_pattern, offset_com) {
        Some(_) => Some(offset_line_with_spaces(line_text, fontmap, line_width, text_align, coms_pattern, offset_com)),
        None => None,
    }
}

// ---------------------------------------------------------------- words

/// The words of a line, a word that should not end a line kept together
/// with the word after it (joined by a space).
pub open spec fn line_words(ps: Seq<Seq<char>>) -> Seq<Seq<char>>
    decreases ps.len(),
{
    if ps.len() == 0 {
        Seq::empty()
    } else if ps.len() >= 2 && spec_binds_to_next(ps[ps.len() - 2]) {
        let r = line_words(ps.drop_last());
        r.update(r.len() - 1, r.last() + seq![' '] + ps.last())
    } else {
        line_words(ps.drop_last()).push(ps.last())
    }
}

/// The words a line breaks into: its pieces between spaces, each binding
/// word kept with the word after it.
pub open spec fn split_words(t: Seq<char>) -> Seq<Seq<char>> {
    line_words(crate::text::split(t, seq![' ']))
}

/// Grouping keeps at least one word for at least one piece.
pub proof fn lemma_line_words_len(ps: Seq<Seq<char>>)
    ensures
        ps.len() >= 1 ==> line_words(ps).len() >= 1,
        line_words(ps).len() <= ps.len(),
    decreases ps.len(),
{
    if ps.len() >= 1 {
        lemma_line_words_len(ps.drop_last());
    }
}

/// Grouping words changes nothing once they are joined with spaces again.
pub proof fn lemma_line_words_join(ps: Seq<Seq<char>>)
    ensures
        crate::text::join(line_words(ps), seq![' ']) == crate::text::join(ps, seq![' ']),
    decreases ps.len(),
{
    let sp = seq![' '];
    if ps.len() == 0 {
    } else if ps.len() >= 2 && spec_binds_to_next(ps[ps.len() - 2]) {
        let r = line_words(ps.drop_last());
        lemma_line_words_len(ps.drop_last());
        lemma_line_words_join(ps.drop_last());
        let r2 = r.update(r.len() - 1, r.last() + sp + ps.last());
        if r.len() == 1 {
            assert(r2 =~= seq![r.last() + sp + ps.last()]);
            assert(crate::text::join(r, sp) == r[0]);
        } else {
            assert(r2.drop_last() =~= r.drop_last());
        }
        assert(crate::text::join(r2, sp) =~= crate::text::join(r, sp) + sp + ps.last());
    } else {
        let r = line_words(ps.drop_last());
        lemma_line_words_len(ps.drop_last());
        lemma_line_words_join(ps.drop_last());
        let r2 = r.push(ps.last());
        assert(r2.drop_last() =~= r);
        if ps.len() == 1 {
            assert(r =~= Seq::<Seq<char>>::empty());
            assert(r2 =~= seq![ps.last()]);
        }
    }
}

/// Splitting a line into words and joining them with spaces gives the line
/// back.
pub proof fn lemma_split_line_join(t: Seq<char>)
    ensures
        crate::text::join(split_words(t), seq![' ']) == t,
{
    lemma_line_words_join(crate::text::split(t, seq![' ']));
    crate::text::lemma_join_split(t, seq![' ']);
}

/// The words a line breaks into.
fn split_words_exec(t: &Vec<char>) -> (r: Vec<Vec<char>>)
    ensures
        crate::text::views(r@) == split_words(t@),
{
    let sp: Vec<char> = vec![' '];
    assert(sp@ =~= seq![' ']);
    let ps = crate::text::split_chars(t, &sp);
    let ghost pv = crate::text::views(ps@);
    let mut out: Vec<Vec<char>> = Vec::new();
    let mut i: usize = 0;
    assert(pv.take(0) =~= Seq::<Seq<char>>::empty());
    assert(crate::text::views(out@) =~= Seq::<Seq<char>>::empty());
    while i < ps.len()
        invariant
            i <= ps@.len(),
            pv == crate::text::views(ps@),
            crate::text::views(out@) == line_words(pv.take(i as int)),
        decreases ps@.len() - i,
    {
        assert(pv.take(i + 1).drop_last() =~= pv.take(i as int));
        assert(pv.take(i + 1).last() == ps@[i as int]@);
        proof {
            lemma_line_words_len(pv.take(i as int));
        }
        if i >= 1 && binds_to_next(&ps[i - 1]) {
            assert(pv.take(i + 1)[i - 1] == ps@[i - 1]@);
            let ghost before = crate::text::views(out@);
            let k = out.len() - 1;
            let mut last: Vec<char> = Vec::new();
            std::mem::swap(&mut last, &mut out[k]);
            assert(last@ == before[k as int]);
            last.push(' ');
            push_all(&mut last, &ps[i]);
            let ghost lv = last@;
            assert(lv =~= before.last() + seq![' '] + pv.take(i + 1).last());
            out.set(k, last);
            assert(crate::text::views(out@) =~= before.update(k as int, lv));
            assert(line_words(pv.take(i + 1)) == before.update(k as int, lv));
        } else {
            proof {
                if i >= 1 {
                    assert(pv.take(i + 1)[i - 1] == ps@[i - 1]@);
                }
            }
            let ghost before = crate::text::views(out@);
            let piece = crate::text::copy_chars(&ps[i]);
            let ghost w = piece@;
            out.push(piece);
            assert(crate::text::views(out@) =~= before.push(w));
            assert(line_words(pv.take(i + 1)) == before.push(w));
        }
        i += 1;
    }
    assert(pv.take(i as int) =~= pv);
    out
}

/// Splits a line into words at its spaces, keeping each word that should
/// not end a line (such as a preposition) with the word after it.
pub fn split_line(line_text: &str) -> (r: Vec<String>)
    ensures
        crate::utils::string_views(r@) == split_words(line_text@),
{
    let ws = split_words_exec(&str_chars(line_text));
    let mut r: Vec<String> = Vec::new();
    let mut i: usize = 0;
    while i < ws.len()
        invariant
            i <= ws@.len(),
            crate::utils::string_views(r@) == crate::text::views(ws@).take(i as int),
        decreases ws@.len() - i,
    {
        let ghost before = crate::utils::string_views(r@);
        let s = string_from_chars(&ws[i]);
        let ghost sv = s@;
        r.push(s);
        assert(crate::utils::string_views(r@) =~= before.push(sv));
        assert(crate::text::views(ws@).take(i + 1) =~= crate::text::views(ws@).take(i as int).push(
            ws@[i as int]@,
        ));
        i += 1;
    }
    assert(crate::text::views(ws@).take(i as int) =~= crate::text::views(ws@));
    r
}

// ---------------------------------------------------------------- wrapping

/// The value fits an `isize`.
pub open spec fn fits(v: int) -> bool {
    isize::MIN <= v <= isize::MAX
}

/// One word laid out on the current line, at `x` across and `y` down (the
/// layout `g` being line height, gap between lines, box width and box
/// height; `cm` the page and line break commands): a word that overflows a
/// line that has something on it starts a new line, or a new page when the
/// new line would leave the box. Gives where the next word starts, how far
/// down the line is, and the word's text with its space and any break
/// before it; nothing when a width cannot be measured or a sum leaves the
/// `isize` range.
pub open spec fn word_step(
    fm: Seq<(char, Seq<isize>)>,
    coms: Seq<char>,
    oc: Seq<char>,
    cm: (Seq<char>, Seq<char>),
    g: (int, int, int, int),
    word: Seq<char>,
    x: int,
    y: int,
) -> Option<(int, int, Seq<char>)> {
    let ws = word + seq![' '];
    match (line_width(word, fm, coms, oc), line_width(ws, fm, coms, oc)) {
        (Some(a), Some(b)) => if !fits(a + x) {
            None
        } else if a + x > g.2 {
            if x == 0 {
                Some((b, y, ws))
            } else if !fits(g.0 + g.1) || !fits(y + (g.0 + g.1)) {
                None
            } else if y + (g.0 + g.1) > g.3 {
                Some((b, g.0, cm.0 + ws))
            } else {
                Some((b, y + (g.0 + g.1), cm.1 + ws))
            }
        } else if !fits(x + b) {
            None
        } else {
            Some((x + b, y, ws))
        },
        _ => None,
    }
}

/// The first `n` words of a line laid out from the line's start at depth
/// `y`.
pub open spec fn words_upto(
    fm: Seq<(char, Seq<isize>)>,
    coms: Seq<char>,
    oc: Seq<char>,
    cm: (Seq<char>, Seq<char>),
    g: (int, int, int, int),
    ws: Seq<Seq<char>>,
    n: int,
    y: int,
) -> Option<(int, int, Seq<char>)>
    decreases n,
{
    if n <= 0 {
        Some((0, y, Seq::empty()))
    } else {
        match words_upto(fm, coms, oc, cm, g, ws, n - 1, y) {
            Some((x, y1, out)) => match word_step(fm, coms, oc, cm, g, ws[n - 1], x, y1) {
                Some((x2, y2, piece)) => Some((x2, y2, out + piece)),
                None => None,
            },
            None => None,
        }
    }
}

/// The text without its last character, if it has one.
pub open spec fn popped(s: Seq<char>) -> Seq<char> {
    if s.len() == 0 {
        s
    } else {
        s.drop_last()
    }
}

/// One line of a page laid out from depth `y`: its words, then a line
/// break, or a page break when the next line would leave the box; the last
/// line of a page instead loses its final character (the space after its
/// last word).
pub open spec fn line_step(
    fm: Seq<(char, Seq<isize>)>,
    coms: Seq<char>,
    oc: Seq<char>,
    cm: (Seq<char>, Seq<char>),
    g: (int, int, int, int),
    l: Seq<char>,
    y: int,
    last: bool,
) -> Option<(int, Seq<char>)> {
    let ws = split_words(l);
    match words_upto(fm, coms, oc, cm, g, ws, ws.len() as int, y) {
        Some((_, y1, out)) => if last {
            Some((y1, popped(out)))
        } else if !fits(g.0 + g.1) || !fits(y1 + (g.0 + g.1)) {
            None
        } else if y1 + (g.0 + g.1) > g.3 {
            Some((g.0, out + cm.0))
        } else {
            Some((y1 + (g.0 + g.1), out + cm.1))
        },
        None => None,
    }
}

/// The first `n` lines of a page laid out, the first at the depth of one
/// line height.
pub open spec fn lines_upto(
    fm: Seq<(char, Seq<isize>)>,
    coms: Seq<char>,
    oc: Seq<char>,
    cm: (Seq<char>, Seq<char>),
    g: (int, int, int, int),
    ls: Seq<Seq<char>>,
    n: int,
) -> Option<(int, Seq<char>)>
    decreases n,
{
    if n <= 0 {
        Some((g.0, Seq::empty()))
    } else {
        match lines_upto(fm, coms, oc, cm, g, ls, n - 1) {
            Some((y, out)) => match line_step(fm, coms, oc, cm, g, ls[n - 1], y, n == ls.len()) {
                Some((y2, piece)) => Some((y2, out + piece)),
                None => None,
            },
            None => None,
        }
    }
}

/// The first `n` pages laid out, each on its own.
pub open spec fn pages_upto(
    fm: Seq<(char, Seq<isize>)>,
    coms: Seq<char>,
    oc: Seq<char>,
    cm: (Seq<char>, Seq<char>),
    g: (int, int, int, int),
    ps: Seq<Seq<char>>,
    n: int,
) -> Option<Seq<Seq<char>>>
    decreases n,
{
    if n <= 0 {
        Some(Seq::empty())
    } else {
        match pages_upto(fm, coms, oc, cm, g, ps, n - 1) {
            Some(done) => {
                let ls = crate::text::split(ps[n - 1], cm.1);
                match lines_upto(fm, coms, oc, cm, g, ls, ls.len() as int) {
                    Some((_, page)) => Some(done.push(page)),
                    None => None,
                }
            },
            None => None,
        }
    }
}

/// What `word_warp` makes of a text, given the box size and the gap between
/// lines in font units: the text as it is for an empty font; else each
/// page laid out, the pages joined by the page command, and spaces before
/// page and line commands dropped. Nothing when the font lacks U+0000, a
/// width cannot be measured, or a sum leaves the `isize` range.
pub open spec fn warped(
    t: Seq<char>,
    fm: Seq<(char, Seq<isize>)>,
    box_w: int,
    box_h: int,
    px_per_line: int,
    page_com: Seq<char>,
    line_com: Seq<char>,
    coms: Seq<char>,
    oc: Seq<char>,
) -> Option<Seq<char>> {
    if fm.len() == 0 {
        Some(t)
    } else if !has_key(fm, '\0') {
        None
    } else {
        let g = (lookup(fm, '\0').unwrap()[0] as int, px_per_line, box_w, box_h);
        let ps = crate::text::split(t, page_com);
        match pages_upto(fm, coms, oc, (page_com, line_com), g, ps, ps.len() as int) {
            Some(texts) => Some(
                replace(
                    replace(crate::text::join(texts, page_com), seq![' '] + page_com, page_com),
                    seq![' '] + line_com,
                    line_com,
                ),
            ),
            None => None,
        }
    }
}

/// The width of a text given as characters, if it can be measured.
fn width_of(t: &Vec<char>, fontmap: &FontMap, coms: &str, oc: &str) -> (r: Option<isize>)
    ensures
        r is Some <==> line_width(t@, fontmap@, coms@, oc@) is Some,
        r matches Some(v) ==> line_width(t@, fontmap@, coms@, oc@) == Some(v as int),
{
    let s = string_from_chars(t);
    line_width_exec(s.as_str(), fontmap, coms, oc)
}

/// One word laid out.
fn word_step_exec(
    fontmap: &FontMap,
    coms: &str,
    oc: &str,
    page_com: &Vec<char>,
    line_com: &Vec<char>,
    g: (isize, isize, isize, isize),
    word: &Vec<char>,
    x: isize,
    y: isize,
) -> (r: Option<(isize, isize, Vec<char>)>)
    ensures
        r is Some <==> word_step(
            fontmap@,
            coms@,
            oc@,
            (page_com@, line_com@),
            (g.0 as int, g.1 as int, g.2 as int, g.3 as int),
            word@,
            x as int,
            y as int,
        ) is Some,
        r matches Some(v) ==> word_step(
            fontmap@,
            coms@,
            oc@,
            (page_com@, line_com@),
            (g.0 as int, g.1 as int, g.2 as int, g.3 as int),
            word@,
            x as int,
            y as int,
        ) == Some((v.0 as int, v.1 as int, v.2@)),
{
    let mut ws = crate::text::copy_chars(word);
    ws.push(' ');
    assert(ws@ =~= word@ + seq![' ']);
    let a = match width_of(word, fontmap, coms, oc) {
        Some(a) => a,
        None => {
            return None;
        },
    };
    let b = match width_of(&ws, fontmap, coms, oc) {
        Some(b) => b,
        None => {
            return None;
        },
    };
    let ax = match a.checked_add(x) {
        Some(v) => v,
        None => {
            return None;
        },
    };
    if ax > g.2 {
        if x == 0 {
            return Some((b, y, ws));
        }
        let step = match g.0.checked_add(g.1) {
            Some(v) => v,
            None => {
                return None;
            },
        };
        let y2 = match y.checked_add(step) {
            Some(v) => v,
            None => {
                return None;
            },
        };
        if y2 > g.3 {
            let mut out = crate::text::copy_chars(page_com);
            push_all(&mut out, &ws);
            Some((b, g.0, out))
        } else {
            let mut out = crate::text::copy_chars(line_com);
            push_all(&mut out, &ws);
            Some((b, y2, out))
        }
    } else {
        match x.checked_add(b) {
            Some(x2) => Some((x2, y, ws)),
            None => None,
        }
    }
}

/// Once a layout fails, it fails for every longer run.
pub proof fn lemma_words_stay_failed(
    fm: Seq<(char, Seq<isize>)>,
    coms: Seq<char>,
    oc: Seq<char>,
    cm: (Seq<char>, Seq<char>),
    g: (int, int, int, int),
    ws: Seq<Seq<char>>,
    n: int,
    k: int,
    y: int,
)
    requires
        n <= k,
        words_upto(fm, coms, oc, cm, g, ws, n, y) is None,
    ensures
        words_upto(fm, coms, oc, cm, g, ws, k, y) is None,
    decreases k - n,
{
    if n < k {
        lemma_words_stay_failed(fm, coms, oc, cm, g, ws, n, k - 1, y);
    }
}

/// One line laid out.
fn line_step_exec(
    fontmap: &FontMap,
    coms: &str,
    oc: &str,
    page_com: &Vec<char>,
    line_com: &Vec<char>,
    g: (isize, isize, isize, isize),
    l: &Vec<char>,
    y: isize,
    last: bool,
) -> (r: Option<(isize, Vec<char>)>)
    ensures
        r is Some <==> line_step(
            fontmap@,
            coms@,
            oc@,
            (page_com@, line_com@),
            (g.0 as int, g.1 as int, g.2 as int, g.3 as int),
            l@,
            y as int,
            last,
        ) is Some,
        r matches Some(v) ==> line_step(
            fontmap@,
            coms@,
            oc@,
            (page_com@, line_com@),
            (g.0 as int, g.1 as int, g.2 as int, g.3 as int),
            l@,
            y as int,
            last,
        ) == Some((v.0 as int, v.1@)),
{
    let ghost cm = (page_com@, line_com@);
    let ghost gi = (g.0 as int, g.1 as int, g.2 as int, g.3 as int);
    let ws = split_words_exec(l);
    let ghost wv = crate::text::views(ws@);
    let mut x: isize = 0;
    let mut cy: isize = y;
    let mut out: Vec<char> = Vec::new();
    let mut i: usize = 0;
    while i < ws.len()
        invariant
            i <= ws@.len(),
            wv == crate::text::views(ws@),
            wv == split_words(l@),
            cm == (page_com@, line_com@),
            gi == (g.0 as int, g.1 as int, g.2 as int, g.3 as int),
            words_upto(fontmap@, coms@, oc@, cm, gi, wv, i as int, y as int) == Some(
                (x as int, cy as int, out@),
            ),
        decreases ws@.len() - i,
    {
        assert(wv[i as int] == ws@[i as int]@);
        match word_step_exec(fontmap, coms, oc, page_com, line_com, g, &ws[i], x, cy) {
            Some((x2, y2, piece)) => {
                x = x2;
                cy = y2;
                push_all(&mut out, &piece);
            },
            None => {
                proof {
                    lemma_words_stay_failed(fontmap@, coms@, oc@, cm, gi, wv, i + 1, wv.len() as int, y as int);
                }
                return None;
            },
        }
        i += 1;
    }
    if last {
        if out.len() > 0 {
            out.pop();
        }
        return Some((cy, out));
    }
    let step = match g.0.checked_add(g.1) {
        Some(v) => v,
        None => {
            return None;
        },
    };
    let y2 = match cy.checked_add(step) {
        Some(v) => v,
        None => {
            return None;
        },
    };
    if y2 > g.3 {
        push_all(&mut out, page_com);
        Some((g.0, out))
    } else {
        push_all(&mut out, line_com);
        Some((y2, out))
    }
}

/// Once a layout fails, it fails for every longer run.
pub proof fn lemma_lines_stay_failed(
    fm: Seq<(char, Seq<isize>)>,
    coms: Seq<char>,
    oc: Seq<char>,
    cm: (Seq<char>, Seq<char>),
    g: (int, int, int, int),
    ls: Seq<Seq<char>>,
    n: int,
    k: int,
)
    requires
        n <= k,
        lines_upto(fm, coms, oc, cm, g, ls, n) is None,
    ensures
        lines_upto(fm, coms, oc, cm, g, ls, k) is None,
    decreases k - n,
{
    if n < k {
        lemma_lines_stay_failed(fm, coms, oc, cm, g, ls, n, k - 1);
    }
}

/// One page laid out.
fn page_exec(
    fontmap: &FontMap,
    coms: &str,
    oc: &str,
    page_com: &Vec<char>,
    line_com: &Vec<char>,
    g: (isize, isize, isize, isize),
    p: &Vec<char>,
) -> (r: Option<Vec<char>>)
    ensures
        ({
            let ls = crate::text::split(p@, line_com@);
            let res = lines_upto(
                fontmap@,
                coms@,
                oc@,
                (page_com@, line_com@),
                (g.0 as int, g.1 as int, g.2 as int, g.3 as int),
                ls,
                ls.len() as int,
            );
            &&& r is Some <==> res is Some
            &&& r matches Some(v) ==> res.unwrap().1 == v@
        }),
{
    let ghost cm = (page_com@, line_com@);
    let ghost gi = (g.0 as int, g.1 as int, g.2 as int, g.3 as int);
    let ls = crate::text::split_chars(p, line_com);
    let ghost lv = crate::text::views(ls@);
    let mut y: isize = g.0;
    let mut out: Vec<char> = Vec::new();
    let mut j: usize = 0;
    while j < ls.len()
        invariant
            j <= ls@.len(),
            lv == crate::text::views(ls@),
            lv == crate::text::split(p@, line_com@),
            cm == (page_com@, line_com@),
            gi == (g.0 as int, g.1 as int, g.2 as int, g.3 as int),
            lines_upto(fontmap@, coms@, oc@, cm, gi, lv, j as int) == Some((y as int, out@)),
        decreases ls@.len() - j,
    {
        assert(lv[j as int] == ls@[j as int]@);
        match line_step_exec(fontmap, coms, oc, page_com, line_com, g, &ls[j], y, j + 1 == ls.len()) {
            Some((y2, piece)) => {
                y = y2;
                push_all(&mut out, &piece);
            },
            None => {
                proof {
                    lemma_lines_stay_failed(fontmap@, coms@, oc@, cm, gi, lv, j + 1, lv.len() as int);
                }
                return None;
            },
        }
        j += 1;
    }
    Some(out)
}

/// Once a layout fails, it fails for every longer run.
pub proof fn lemma_pages_stay_failed(
    fm: Seq<(char, Seq<isize>)>,
    coms: Seq<char>,
    oc: Seq<char>,
    cm: (Seq<char>, Seq<char>),
    g: (int, int, int, int),
    ps: Seq<Seq<char>>,
    n: int,
    k: int,
)
    requires
        n <= k,
        pages_upto(fm, coms, oc, cm, g, ps, n) is None,
    ensures
        pages_upto(fm, coms, oc, cm, g, ps, k) is None,
    decreases k - n,
{
    if n < k {
        lemma_pages_stay_failed(fm, coms, oc, cm, g, ps, n, k - 1);
    }
}

/// The text wrapped, if it can be.
fn warped_exec(
    text: &str,
    fontmap: &FontMap,
    box_size: [isize; 2],
    px_per_line: isize,
    page_com: &str,
    line_com: &str,
    coms_pattern: &str,
    offset_com: &str,
) -> (r: Option<String>)
    ensures
        r is Some <==> warped(text@, fontmap@, box_size[0] as int, box_size[1] as int, px_per_line as int, page_com@, line_com@, coms_pattern@, offset_com@) is Some,
        r matches Some(s) ==> warped(text@, fontmap@, box_size[0] as int, box_size[1] as int, px_per_line as int, page_com@, line_com@, coms_pattern@, offset_com@) == Some(s@),
{
    let t = str_chars(text);
    if fontmap.is_empty() {
        return Some(string_from_chars(&t));
    }
    let h = match fontmap.get('\0') {
        Some(m) => m[0],
        None => {
            return None;
        },
    };
    let g: (isize, isize, isize, isize) = (h, px_per_line, box_size[0], box_size[1]);
    let ghost gi = (g.0 as int, g.1 as int, g.2 as int, g.3 as int);
    let pc = str_chars(page_com);
    let lc = str_chars(line_com);
    let ghost cm = (pc@, lc@);
    let ps = crate::text::split_chars(&t, &pc);
    let ghost pv = crate::text::views(ps@);
    let mut texts: Vec<Vec<char>> = Vec::new();
    let mut i: usize = 0;
    assert(crate::text::views(texts@) =~= Seq::<Seq<char>>::empty());
    while i < ps.len()
        invariant
            i <= ps@.len(),
            pv == crate::text::views(ps@),
            pv == crate::text::split(text@, page_com@),
            pc@ == page_com@,
            lc@ == line_com@,
            fontmap@.len() > 0,
            has_key(fontmap@, '\0'),
            g.0 == lookup(fontmap@, '\0').unwrap()[0],
            g.1 == px_per_line,
            g.2 == box_size[0],
            g.3 == box_size[1],
            cm == (pc@, lc@),
            gi == (g.0 as int, g.1 as int, g.2 as int, g.3 as int),
            pages_upto(fontmap@, coms_pattern@, offset_com@, cm, gi, pv, i as int) == Some(
                crate::text::views(texts@),
            ),
        decreases ps@.len() - i,
    {
        assert(pv[i as int] == ps@[i as int]@);
        match page_exec(fontmap, coms_pattern, offset_com, &pc, &lc, g, &ps[i]) {
            Some(page) => {
                let ghost before = crate::text::views(texts@);
                let ghost pg = page@;
                texts.push(page);
                assert(crate::text::views(texts@) =~= before.push(pg));
            },
            None => {
                proof {
                    lemma_pages_stay_failed(fontmap@, coms_pattern@, offset_com@, cm, gi, pv, i + 1, pv.len() as int);
                }
                return None;
            },
        }
        i += 1;
    }
    let joined = crate::text::join_chars(&texts, &pc);
    let mut sp_page: Vec<char> = vec![' '];
    push_all(&mut sp_page, &pc);
    let mut sp_line: Vec<char> = vec![' '];
    push_all(&mut sp_line, &lc);
    assert(sp_page@ =~= seq![' '] + pc@);
    assert(sp_line@ =~= seq![' '] + lc@);
    let r1 = replace_chars(&joined, &sp_page, &pc);
    let r2 = replace_chars(&r1, &sp_line, &lc);
    Some(string_from_chars(&r2))
}

/// Whether a text can be wrapped: the font is empty or has U+0000, every
/// width can be measured, and no sum leaves the `isize` range.
pub open spec fn wrappable(
    t: Seq<char>,
    fm: Seq<(char, Seq<isize>)>,
    box_w: int,
    box_h: int,
    px_per_line: int,
    page_com: Seq<char>,
    line_com: Seq<char>,
    coms: Seq<char>,
    oc: Seq<char>,
) -> bool {
    warped(t, fm, box_w, box_h, px_per_line, page_com, line_com, coms, oc) is Some
}

/// Wraps text into a box (`box_size` and the gap between lines
/// `px_per_line` already scaled to the font): words go on a line while they
/// fit, a word that does not starts a new line, and a line that would leave
/// the box starts a new page; lines and pages are marked with `line_com`
/// and `page_com`.
pub fn word_warp(
    text: &str,
    fontmap: &FontMap,
    box_size: [isize; 2],
    px_per_line: isize,
    page_com: &str,
    line_com: &str,
    coms_pattern: &str,
    offset_com: &str,
) -> (r: String)
    requires
        wrappable(text@, fontmap@, box_size[0] as int, box_size[1] as int, px_per_line as int, page_com@, line_com@, coms_pattern@, offset_com@),
    ensures
        warped(text@, fontmap@, box_size[0] as int, box_size[1] as int, px_per_line as int, page_com@, line_com@, coms_pattern@, offset_com@) == Some(r@),
{
    match warped_exec(text, fontmap, box_size, px_per_line, page_com, line_com, coms_pattern, offset_com) {
        Some(s) => s,
        None => String::new(),
    }
}

/// The wrapped text, or nothing when it cannot be wrapped.
pub fn try_word_warp(
    text: &str,
    fontmap: &FontMap,
    box_size: [isize; 2],
    px_per_line: isize,
    page_com: &str,
    line_com: &str,
    coms_pattern: &str,
    offset_com: &str,
) -> (r: Option<String>)
    ensures
        r is Some <==> wrappable(text@, fontmap@, box_size[0] as int, box_size[1] as int, px_per_line as int, page_com@, line_com@, coms_pattern@, offset_com@),
        r matches Some(s) ==> warped(text@, fontmap@, box_size[0] as int, box_size[1] as int, px_per_line as int, page_com@, line_com@, coms_pattern@, offset_com@) == Some(s@),
{
    match warped_exec(text, fontmap, box_size, px_per_line, page_com, line_com, coms_pattern, offset_com) {
        Some(_) => Some(word_warp(text, fontmap, box_size, px_per_line, page_com, line_com, coms_pattern, offset_com)),
        None => None,
    }
}

} // verus!
