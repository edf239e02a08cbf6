//! The file-name grammar: from a path to a cleaned title, and the show and
//! year markers that a cleaned title may carry.
use vstd::prelude::*;

use crate::text::{
    ascii_lower, digit_value, is_digit, is_space, skip_back, skip_front, slice_chars,
    trim_chars, trimmed,
};

verus! {

/// Index of the last `c` in `s`, or -1.
pub open spec fn last_index_of(s: Seq<char>, c: char) -> int
    decreases s.len(),
{
    if s.len() == 0 {
        -1
    } else if s.last() == c {
        s.len() - 1
    } else {
        last_index_of(s.drop_last(), c)
    }
}

/// Index of the first `c` in `s` at or after `i`, or -1.
pub open spec fn first_index_from(s: Seq<char>, c: char, i: int) -> int
    decreases s.len() - i,
{
    if i >= s.len() {
        -1
    } else if s[i] == c {
        i
    } else {
        first_index_from(s, c, i + 1)
    }
}

/// A path without trailing `/` and trailing `.` segments (`a/b/./` is `a/b`);
/// a lone `/` stays.
pub open spec fn strip_tail(p: Seq<char>) -> Seq<char>
    decreases p.len(),
{
    if p.len() > 1 && p.last() == '/' {
        strip_tail(p.drop_last())
    } else if p.len() > 1 && p.last() == '.' && p[p.len() - 2] == '/' {
        strip_tail(p.drop_last())
    } else {
        p
    }
}

/// The last segment of a `/`-separated path.
pub open spec fn file_name(p: Seq<char>) -> Seq<char> {
    let q = strip_tail(p);
    q.subrange(last_index_of(q, '/') + 1, q.len() as int)
}

/// A file name without its extension (a leading dot starts no extension).
pub open spec fn stem(n: Seq<char>) -> Seq<char> {
    let d = last_index_of(n, '.');
    if d > 0 {
        n.subrange(0, d)
    } else {
        n
    }
}

/// The extension of a file name, if it has one.
pub open spec fn extension(n: Seq<char>) -> Option<Seq<char>> {
    let d = last_index_of(n, '.');
    if d > 0 {
        Some(n.subrange(d + 1, n.len() as int))
    } else {
        None
    }
}

/// One character of a title after lower-casing and turning `.`, `-`, `_` into spaces.
pub open spec fn clean_char(c: char) -> char {
    let l = ascii_lower(c);
    if l == '.' || l == '-' || l == '_' {
        ' '
    } else {
        l
    }
}

pub open spec fn cleaned(s: Seq<char>) -> Seq<char> {
    s.map_values(|c: char| clean_char(c))
}

/// `w` occurs in `s` at index `i`.
pub open spec fn word_at(s: Seq<char>, i: int, w: Seq<char>) -> bool {
    0 <= i && i + w.len() <= s.len() && s.subrange(i, i + w.len()) == w
}

/// A release tag (resolution, codec or source marker) starts at index `i`.
pub open spec fn tag_at(s: Seq<char>, i: int) -> bool {
    word_at(s, i, seq!['7', '2', '0', 'p']) || word_at(s, i, seq!['1', '0', '8', '0', 'p'])
        || word_at(s, i, seq!['1', '4', '4', '0', 'p']) || word_at(s, i, seq!['2', '1', '6', '0', 'p'])
        || word_at(s, i, seq!['h', 'd', 't', 'v']) || word_at(s, i, seq!['x', '2', '6', '4'])
        || word_at(s, i, seq!['d', 't', 's']) || word_at(s, i, seq!['b', 'l', 'u', 'r', 'a', 'y'])
        || word_at(s, i, seq!['a', 'a', 'c']) || word_at(s, i, seq!['a', 't', 'm', 'o', 's'])
        || word_at(s, i, seq!['x', '2', '6', '5']) || word_at(s, i, seq!['h', 'e', 'v', 'c'])
        || word_at(s, i, seq!['h', '2', '6', '4']) || word_at(s, i, seq!['h', '2', '6', '5'])
        || word_at(s, i, seq!['w', 'e', 'b']) || word_at(s, i, seq!['w', 'e', 'b', 'r', 'i', 'p'])
        || word_at(s, i, seq!['i', 'm', 'a', 'x'])
}

/// Index of the first release tag at or after `i`, or the length of `s`.
pub open spec fn first_tag_from(s: Seq<char>, i: int) -> int
    decreases s.len() - i,
{
    if i >= s.len() {
        s.len() as int
    } else if tag_at(s, i) {
        i
    } else {
        first_tag_from(s, i + 1)
    }
}

/// `s` cut before its first release tag.
pub open spec fn cut_tags(s: Seq<char>) -> Seq<char> {
    s.subrange(0, first_tag_from(s, 0))
}

/// `s` without the span from its first `(` to its last `)`, when that span exists.
pub open spec fn drop_parens(s: Seq<char>) -> Seq<char> {
    let f = first_index_from(s, '(', 0);
    let l = last_index_of(s, ')');
    if f >= 0 && l > f {
        s.subrange(0, f) + s.subrange(l + 1, s.len() as int)
    } else {
        s
    }
}

/// The cleaned title of a path.
pub open spec fn normalized(p: Seq<char>) -> Seq<char> {
    trimmed(drop_parens(cut_tags(cleaned(stem(file_name(p))))))
}

pub open spec fn is_s(c: char) -> bool {
    c == 's' || c == 'S'
}

pub open spec fn is_e(c: char) -> bool {
    c == 'e' || c == 'E'
}

/// Number of season digits after an `S` at `p` (two when two digits follow).
pub open spec fn season_len(s: Seq<char>, p: int) -> int {
    if p + 2 < s.len() && is_digit(s[p + 2]) {
        2
    } else {
        1
    }
}

/// Index of the first episode digit of a marker at `p`.
pub open spec fn episode_start(s: Seq<char>, p: int) -> int {
    p + 2 + season_len(s, p)
}

pub open spec fn episode_len(s: Seq<char>, p: int) -> int {
    let q = episode_start(s, p);
    if q + 1 < s.len() && is_digit(s[q + 1]) {
        2
    } else {
        1
    }
}

/// A marker `S<1-2 digits>E<1-2 digits>` starts at `p`; its season is at least 1.
pub open spec fn mark_at(s: Seq<char>, p: int) -> bool {
    &&& 0 <= p
    &&& p + 1 < s.len()
    &&& is_s(s[p])
    &&& is_digit(s[p + 1])
    &&& num_at(s, p + 1, season_len(s, p)) >= 1
    &&& p + 1 + season_len(s, p) < s.len()
    &&& is_e(s[p + 1 + season_len(s, p)])
    &&& episode_start(s, p) < s.len()
    &&& is_digit(s[episode_start(s, p)])
}

/// Start of the last marker below `n`, or -1.
pub open spec fn last_mark_below(s: Seq<char>, n: int) -> int
    decreases n,
{
    if n <= 0 {
        -1
    } else if mark_at(s, n - 1) {
        n - 1
    } else {
        last_mark_below(s, n - 1)
    }
}

/// Start of the last season/episode marker of a title, or -1.
pub open spec fn last_mark(s: Seq<char>) -> int {
    last_mark_below(s, s.len() as int)
}

pub open spec fn has_show(s: Seq<char>) -> bool {
    last_mark(s) >= 0
}

/// Value of the one or two digits at `i`.
pub open spec fn num_at(s: Seq<char>, i: int, len: int) -> int {
    if len == 2 {
        10 * digit_value(s[i]) + digit_value(s[i + 1])
    } else {
        digit_value(s[i])
    }
}

/// First index at or after `i` that holds no space.
pub open spec fn skip_spaces(s: Seq<char>, i: int) -> int
    decreases s.len() - i,
{
    if i < s.len() && s[i] == ' ' {
        skip_spaces(s, i + 1)
    } else {
        i
    }
}

/// The show name before the marker, trimmed.
pub open spec fn show_name(s: Seq<char>) -> Seq<char> {
    trimmed(s.subrange(0, last_mark(s)))
}

pub open spec fn season_value(s: Seq<char>) -> int {
    let p = last_mark(s);
    num_at(s, p + 1, season_len(s, p))
}

pub open spec fn episode_value(s: Seq<char>) -> int {
    let p = last_mark(s);
    num_at(s, episode_start(s, p), episode_len(s, p))
}

/// What follows the episode number and the spaces after it.
pub open spec fn episode_title(s: Seq<char>) -> Seq<char> {
    let p = last_mark(s);
    s.subrange(skip_spaces(s, episode_start(s, p) + episode_len(s, p)), s.len() as int)
}

/// The title ends with a space and four digits.
pub open spec fn year_mark(w: Seq<char>) -> bool {
    let l = w.len() as int;
    &&& l >= 5
    &&& w[l - 5] == ' '
    &&& is_digit(w[l - 4])
    &&& is_digit(w[l - 3])
    &&& is_digit(w[l - 2])
    &&& is_digit(w[l - 1])
}

pub open spec fn year_value(w: Seq<char>) -> int {
    let l = w.len() as int;
    1000 * digit_value(w[l - 4]) + 100 * digit_value(w[l - 3]) + 10 * digit_value(w[l - 2])
        + digit_value(w[l - 1])
}

/// First year of film: earlier four-digit numbers are part of the title.
pub const FIRST_FILM_YEAR: i32 = 1878;

/// The trailing number is taken as a year: it is a year and lies between the
/// first year of film and the current year.
pub open spec fn year_accepted(w: Seq<char>, current_year: int) -> bool {
    year_mark(w) && FIRST_FILM_YEAR <= year_value(w) <= current_year
}

pub open spec fn year_stripped(w: Seq<char>, current_year: int) -> Seq<char> {
    if year_accepted(w, current_year) {
        w.subrange(0, w.len() - 5)
    } else {
        w
    }
}

/// Index of the last `c` in `v`.
pub fn last_index(v: &Vec<char>, c: char) -> (r: Option<usize>)
    ensures
        match r {
            Some(i) => i == last_index_of(v@, c) && i < v.len(),
            None => last_index_of(v@, c) == -1,
        },
{
    let mut j: usize = v.len();
    assert(v@.subrange(0, j as int) =~= v@);
    while j > 0
        invariant
            j <= v.len(),
            last_index_of(v@, c) == last_index_of(v@.subrange(0, j as int), c),
        decreases j,
    {
        assert(v@.subrange(0, j as int).drop_last() =~= v@.subrange(0, j - 1));
        if v[j - 1] == c {
            return Some(j - 1);
        }
        j = j - 1;
    }
    None
}

/// Index of the first `c` in `v`.
pub fn first_index(v: &Vec<char>, c: char) -> (r: Option<usize>)
    ensures
        match r {
            Some(i) => i == first_index_from(v@, c, 0) && i < v.len(),
            None => first_index_from(v@, c, 0) == -1,
        },
{
    let mut i: usize = 0;
    while i < v.len()
        invariant
            i <= v.len(),
            first_index_from(v@, c, 0) == first_index_from(v@, c, i as int),
        decreases v.len() - i,
    {
        if v[i] == c {
            return Some(i);
        }
        i = i + 1;
    }
    None
}

/// `p` without trailing `/` and `.` segments.
fn strip_tail_chars(p: &Vec<char>) -> (r: Vec<char>)
    ensures
        r@ == strip_tail(p@),
{
    let mut n: usize = p.len();
    assert(p@.subrange(0, n as int) =~= p@);
    while n > 1 && (p[n - 1] == '/' || (p[n - 1] == '.' && p[n - 2] == '/'))
        invariant
            n <= p.len(),
            strip_tail(p@) == strip_tail(p@.subrange(0, n as int)),
        decreases n,
    {
        assert(p@.subrange(0, n as int).drop_last() =~= p@.subrange(0, n - 1));
        n = n - 1;
    }
    slice_chars(p, 0, n)
}

/// The last segment of `p`.
fn last_segment(p: &Vec<char>) -> (r: Vec<char>)
    ensures
        r@ == file_name(p@),
{
    let q = strip_tail_chars(p);
    let start: usize = match last_index(&q, '/') {
        Some(i) => i + 1,
        None => 0,
    };
    slice_chars(&q, start, q.len())
}

/// The last segment of `p`, without its extension.
pub fn stem_chars(p: &Vec<char>) -> (r: Vec<char>)
    ensures
        r@ == stem(file_name(p@)),
{
    let name = last_segment(p);
    match last_index(&name, '.') {
        Some(d) => {
            if d > 0 {
                slice_chars(&name, 0, d)
            } else {
                name
            }
        },
        None => name,
    }
}

/// The extension of the last segment of `p`.
pub fn extension_chars(p: &Vec<char>) -> (r: Option<Vec<char>>)
    ensures
        match r {
            Some(e) => extension(file_name(p@)) == Some(e@),
            None => extension(file_name(p@)) is None,
        },
{
    let name = last_segment(p);
    match last_index(&name, '.') {
        Some(d) => {
            if d > 0 {
                Some(slice_chars(&name, d + 1, name.len()))
            } else {
                None
            }
        },
        None => None,
    }
}

fn clean_one(c: char) -> (r: char)
    ensures
        r == clean_char(c),
{
    let l = if 'A' <= c && c <= 'Z' {
        ((c as u8) + 32) as char
    } else {
        c
    };
    if l == '.' || l == '-' || l == '_' {
        ' '
    } else {
        l
    }
}

pub fn clean_chars(v: &Vec<char>) -> (r: Vec<char>)
    ensures
        r@ == cleaned(v@),
{
    let mut r: Vec<char> = Vec::new();
    let mut i: usize = 0;
    while i < v.len()
        invariant
            i <= v.len(),
            r@ == cleaned(v@.subrange(0, i as int)),
        decreases v.len() - i,
    {
        let c = clean_one(v[i]);
        r.push(c);
        i = i + 1;
        assert(r@ =~= cleaned(v@.subrange(0, i as int)));
    }
    assert(v@.subrange(0, v.len() as int) =~= v@);
    r
}

fn word_at_exec(s: &Vec<char>, i: usize, w: &Vec<char>) -> (r: bool)
    ensures
        r == word_at(s@, i as int, w@),
{
    if i > s.len() || w.len() > s.len() - i {
        return false;
    }
    let mut k: usize = 0;
    while k < w.len()
        invariant
            k <= w.len(),
            i + w.len() <= s.len(),
            forall|m: int| 0 <= m < k ==> s@[i + m] == w@[m],
        decreases w.len() - k,
    {
        if s[i + k] != w[k] {
            assert(s@.subrange(i as int, i + w.len())[k as int] != w@[k as int]);
            return false;
        }
        k = k + 1;
    }
    assert(s@.subrange(i as int, i + w.len()) =~= w@);
    true
}

fn tag_at_exec(s: &Vec<char>, i: usize) -> (r: bool)
    ensures
        r == tag_at(s@, i as int),
{
    word_at_exec(s, i, &vec!['7', '2', '0', 'p']) || word_at_exec(s, i, &vec!['1', '0', '8', '0', 'p'])
        || word_at_exec(s, i, &vec!['1', '4', '4', '0', 'p']) || word_at_exec(
        s,
        i,
        &vec!['2', '1', '6', '0', 'p'],
    ) || word_at_exec(s, i, &vec!['h', 'd', 't', 'v']) || word_at_exec(s, i, &vec!['x', '2', '6', '4'])
        || word_at_exec(s, i, &vec!['d', 't', 's']) || word_at_exec(
        s,
        i,
        &vec!['b', 'l', 'u', 'r', 'a', 'y'],
    ) || word_at_exec(s, i, &vec!['a', 'a', 'c']) || word_at_exec(s, i, &vec!['a', 't', 'm', 'o', 's'])
        || word_at_exec(s, i, &vec!['x', '2', '6', '5']) || word_at_exec(s, i, &vec!['h', 'e', 'v', 'c'])
        || word_at_exec(s, i, &vec!['h', '2', '6', '4']) || word_at_exec(s, i, &vec!['h', '2', '6', '5'])
        || word_at_exec(s, i, &vec!['w', 'e', 'b']) || word_at_exec(
        s,
        i,
        &vec!['w', 'e', 'b', 'r', 'i', 'p'],
    ) || word_at_exec(s, i, &vec!['i', 'm', 'a', 'x'])
}

pub fn cut_tags_chars(v: &Vec<char>) -> (r: Vec<char>)
    ensures
        r@ == cut_tags(v@),
{
    let mut i: usize = 0;
    while i < v.len() && !tag_at_exec(v, i)
        invariant
            i <= v.len(),
            first_tag_from(v@, 0) == first_tag_from(v@, i as int),
        decreases v.len() - i,
    {
        i = i + 1;
    }
    slice_chars(v, 0, i)
}

pub fn drop_parens_chars(v: &Vec<char>) -> (r: Vec<char>)
    ensures
        r@ == drop_parens(v@),
{
    match (first_index(v, '('), last_index(v, ')')) {
        (Some(f), Some(l)) => {
            if l > f {
                let mut r = slice_chars(v, 0, f);
                let tail = slice_chars(v, l + 1, v.len());
                crate::text::push_all(&mut r, &tail);
                r
            } else {
                slice_chars(v, 0, v.len())
            }
        },
        _ => slice_chars(v, 0, v.len()),
    }
}

/// The cleaned title of the path `p`.
pub fn normalize_chars(p: &Vec<char>) -> (r: Vec<char>)
    ensures
        r@ == normalized(p@),
{
    let s = stem_chars(p);
    let c = clean_chars(&s);
    let t = cut_tags_chars(&c);
    let d = drop_parens_chars(&t);
    trim_chars(&d)
}

fn is_digit_exec(c: char) -> (r: bool)
    ensures
        r == is_digit(c),
{
    '0' <= c && c <= '9'
}

fn digit_exec(c: char) -> (r: u8)
    requires
        is_digit(c),
    ensures
        r as int == digit_value(c),
{
    ((c as u32) - ('0' as u32)) as u8
}

fn mark_at_exec(s: &Vec<char>, p: usize) -> (r: bool)
    requires
        p < s.len(),
    ensures
        r == mark_at(s@, p as int),
{
    let n = s.len();
    let rest = n - p;
    if rest < 2 || !(s[p] == 's' || s[p] == 'S') || !is_digit_exec(s[p + 1]) {
        return false;
    }
    let sl: usize = if rest > 2 && is_digit_exec(s[p + 2]) {
        2
    } else {
        1
    };
    if num_exec(s, p + 1, sl) == 0 {
        return false;
    }
    if rest <= 1 + sl || !(s[p + 1 + sl] == 'e' || s[p + 1 + sl] == 'E') {
        return false;
    }
    rest > 2 + sl && is_digit_exec(s[p + 2 + sl])
}

/// Start of the last season/episode marker of `s`.
pub fn find_last_mark(s: &Vec<char>) -> (r: Option<usize>)
    ensures
        match r {
            Some(p) => p == last_mark(s@) && mark_at(s@, p as int),
            None => last_mark(s@) == -1,
        },
{
    let mut j: usize = s.len();
    while j > 0
        invariant
            j <= s.len(),
            last_mark(s@) == last_mark_below(s@, j as int),
        decreases j,
    {
        if mark_at_exec(s, j - 1) {
            return Some(j - 1);
        }
        j = j - 1;
    }
    None
}

fn num_exec(s: &Vec<char>, i: usize, len: usize) -> (r: u8)
    requires
        len == 1 || len == 2,
        i + len <= s.len(),
        forall|k: int| i <= k < i + len ==> is_digit(#[trigger] s@[k]),
    ensures
        r as int == num_at(s@, i as int, len as int),
        r <= 99,
{
    if len == 2 {
        10 * digit_exec(s[i]) + digit_exec(s[i + 1])
    } else {
        digit_exec(s[i])
    }
}

/// The parts of a title around its last season/episode marker.
pub struct ShowParts {
    pub name: Vec<char>,
    pub season: u8,
    pub episode: u8,
    pub title: Vec<char>,
}

/// Splits a title at its last season/episode marker.
pub fn split_show(s: &Vec<char>) -> (r: Option<ShowParts>)
    ensures
        r is Some <==> has_show(s@),
        r matches Some(parts) ==> {
            &&& parts.name@ == show_name(s@)
            &&& parts.season as int == season_value(s@)
            &&& 1 <= parts.season <= 99
            &&& parts.episode as int == episode_value(s@)
            &&& parts.title@ == episode_title(s@)
        },
{
    let p = match find_last_mark(s) {
        None => return None,
        Some(p) => p,
    };
    let n = s.len();
    let sl: usize = if n - p > 2 && is_digit_exec(s[p + 2]) {
        2
    } else {
        1
    };
    let q = p + 2 + sl;
    let el: usize = if n - q > 1 && is_digit_exec(s[q + 1]) {
        2
    } else {
        1
    };
    let season = num_exec(s, p + 1, sl);
    let episode = num_exec(s, q, el);
    let mut t = q + el;
    while t < n && s[t] == ' '
        invariant
            q + el <= t <= n == s.len(),
            skip_spaces(s@, (q + el) as int) == skip_spaces(s@, t as int),
        decreases n - t,
    {
        t = t + 1;
    }
    let before = slice_chars(s, 0, p);
    Some(ShowParts { name: trim_chars(&before), season, episode, title: slice_chars(s, t, n) })
}

/// The title without a trailing year, and the year, when the year is accepted.
pub fn split_year(w: &Vec<char>, current_year: i32) -> (r: Option<(Vec<char>, i32)>)
    ensures
        r is Some <==> year_accepted(w@, current_year as int),
        r matches Some(parts) ==> parts.0@ == year_stripped(w@, current_year as int)
            && parts.1 as int == year_value(w@),
{
    let l = w.len();
    if l < 5 || w[l - 5] != ' ' || !is_digit_exec(w[l - 4]) || !is_digit_exec(w[l - 3])
        || !is_digit_exec(w[l - 2]) || !is_digit_exec(w[l - 1]) {
        return None;
    }
    let y: i32 = 1000 * (digit_exec(w[l - 4]) as i32) + 100 * (digit_exec(w[l - 3]) as i32) + 10 * (
    digit_exec(w[l - 2]) as i32) + digit_exec(w[l - 1]) as i32;
    if FIRST_FILM_YEAR <= y && y <= current_year {
        Some((slice_chars(w, 0, l - 5), y))
    } else {
        None
    }
}


pub proof fn lemma_last_index_bounds(s: Seq<char>, c: char)
    ensures
        -1 <= last_index_of(s, c) < s.len(),
        last_index_of(s, c) >= 0 ==> s[last_index_of(s, c)] == c,
    decreases s.len(),
{
    if s.len() > 0 && s.last() != c {
        lemma_last_index_bounds(s.drop_last(), c);
    }
}

pub proof fn lemma_last_index_absent(s: Seq<char>, c: char)
    requires
        forall|i: int| 0 <= i < s.len() ==> s[i] != c,
    ensures
        last_index_of(s, c) == -1,
    decreases s.len(),
{
    if s.len() > 0 {
        lemma_last_index_absent(s.drop_last(), c);
    }
}

pub proof fn lemma_first_index_bounds(s: Seq<char>, c: char, i: int)
    requires
        0 <= i,
    ensures
        first_index_from(s, c, i) == -1 || (i <= first_index_from(s, c, i) < s.len() && s[first_index_from(s, c, i)] == c),
    decreases s.len() - i,
{
    if i < s.len() && s[i] != c {
        lemma_first_index_bounds(s, c, i + 1);
    }
}

proof fn lemma_no_tag_from(s: Seq<char>, i: int)
    requires
        0 <= i <= s.len(),
        forall|k: int| 0 <= k < s.len() ==> !tag_at(s, k),
    ensures
        first_tag_from(s, i) == s.len(),
    decreases s.len() - i,
{
    if i < s.len() {
        lemma_no_tag_from(s, i + 1);
    }
}

/// A title that is already clean is its own normalization: with no `/` and
/// no `.`, `-`, `_`, no upper-case ASCII letter, no release tag, no `(`
/// before a `)`, and no whitespace at either end.
pub proof fn lemma_normalize_fixed_point(t: Seq<char>)
    requires
        forall|i: int|
            0 <= i < t.len() ==> t[i] != '/' && t[i] != '.' && t[i] != '-' && t[i] != '_' && !(
            'A' <= #[trigger] t[i] <= 'Z'),
        forall|k: int| 0 <= k < t.len() ==> !tag_at(t, k),
        forall|i: int, j: int| 0 <= i < j < t.len() ==> !(t[i] == '(' && t[j] == ')'),
        t.len() > 0 ==> !is_space(t[0]) && !is_space(t.last()),
    ensures
        normalized(t) == t,
{
    assert(strip_tail(t) == t);
    lemma_last_index_absent(t, '/');
    assert(file_name(t) =~= t);
    lemma_last_index_absent(t, '.');
    assert(stem(t) == t);
    assert(cleaned(t) =~= t);
    lemma_no_tag_from(t, 0);
    assert(cut_tags(t) =~= t);
    lemma_first_index_bounds(t, '(', 0);
    lemma_last_index_bounds(t, ')');
    assert(drop_parens(t) == t);
    assert(skip_front(t) == t);
    assert(skip_back(t) == t);
}

} // verus!
