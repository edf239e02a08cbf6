//! What a media file is: a movie or an episode of a show, with its name and year.
use vstd::prelude::*;

use chrono::Datelike;

use crate::error::{MediaKind, SortError};
use crate::text::{chars_of, digit_value, is_digit, pad2_text, push_all, push_pad2, string_of};
use crate::title::{
    episode_title, episode_value, extension, extension_chars, file_name, has_show, normalize_chars,
    normalized, season_value, show_name, split_show, split_year, year_accepted, year_mark,
    year_stripped, year_value, FIRST_FILM_YEAR,
};

verus! {

/// The upper-case mapping of a character, as `char::to_uppercase` gives it.
pub uninterp spec fn upper_of(c: char) -> Seq<char>;

/// Relies on `char::to_uppercase`: the upper-case mapping of one character,
/// which depends on that character alone.
#[verifier::external_body]
fn char_upper(c: char) -> (r: String)
    ensures
        r@ == upper_of(c),
{
    c.to_uppercase().to_string()
}

/// The calendar year, in UTC, of a Unix timestamp, as chrono reckons it.
pub uninterp spec fn utc_year_of(secs: i64) -> i32;

/// Relies on std's `SystemTime::now().duration_since(UNIX_EPOCH)`: whole
/// seconds since the Unix epoch, or `None` when the clock reads earlier.
/// Nothing more is known of the value.
#[verifier::external_body]
fn seconds_since_epoch() -> (r: Option<u64>) {
    match std::time::SystemTime::now().duration_since(std::time::UNIX_EPOCH) {
        Ok(d) => Some(d.as_secs()),
        Err(_) => None,
    }
}

/// Relies on chrono's `DateTime::<Utc>::from_timestamp` and `Datelike::year`:
/// the calendar year of a timestamp in UTC, or `None` when chrono cannot
/// represent the timestamp. A timestamp at or after the epoch lies in 1970
/// or later.
#[verifier::external_body]
fn year_of_timestamp(secs: i64) -> (r: Option<i32>)
    ensures
        r matches Some(y) ==> y == utc_year_of(secs),
        secs >= 0 ==> (r matches Some(y) ==> y >= 1970),
{
    match chrono::DateTime::<chrono::Utc>::from_timestamp(secs, 0) {
        Some(d) => Some(d.year()),
        None => None,
    }
}

/// The current calendar year in UTC, when the clock can be read.
fn current_year() -> (r: Option<i32>)
    ensures
        r matches Some(y) ==> y >= 1970,
{
    match seconds_since_epoch() {
        None => None,
        Some(s) => {
            if s > 0x7fff_ffff_ffff_ffffu64 {
                None
            } else {
                year_of_timestamp(s as i64)
            }
        },
    }
}

/// A character begins a word: it is no space and follows a space or nothing.
pub open spec fn word_start(s: Seq<char>, i: int) -> bool {
    s[i] != ' ' && (i == 0 || s[i - 1] == ' ')
}

/// The first `n` characters of `s` with each word's first character upper-cased.
pub open spec fn capitalized_prefix(s: Seq<char>, n: int) -> Seq<char>
    decreases n,
{
    if n <= 0 {
        Seq::empty()
    } else if word_start(s, n - 1) {
        capitalized_prefix(s, n - 1) + upper_of(s[n - 1])
    } else {
        capitalized_prefix(s, n - 1).push(s[n - 1])
    }
}

/// `s` with the first character of each space-separated word upper-cased.
pub open spec fn capitalized(s: Seq<char>) -> Seq<char> {
    capitalized_prefix(s, s.len() as int)
}

/// The extensions of the files that are sorted.
pub open spec fn media_ext(e: Seq<char>) -> bool {
    e == seq!['m', 'k', 'v'] || e == seq!['a', 'v', 'i'] || e == seq!['m', 'p', '4'] || e == seq![
        's',
        'r',
        't',
    ]
}

/// The path names a media file.
pub open spec fn is_media_path(p: Seq<char>) -> bool {
    match extension(file_name(p)) {
        Some(e) => media_ext(e),
        None => false,
    }
}

/// An episode: its number, or for a special (numbered 0) its title.
#[derive(Debug, PartialEq, Eq)]
pub enum Episode {
    Numbered(u8),
    Special(String),
}

/// How an episode is written in a file name: `03`, or `00 - <title>` for a special.
pub open spec fn episode_text(e: Episode) -> Seq<char> {
    match e {
        Episode::Numbered(n) => pad2_text(n as nat),
        Episode::Special(t) => seq!['0', '0', ' ', '-', ' '] + t@,
    }
}

impl Episode {
    /// The episode as it stands in a file name.
    pub fn render(&self) -> (r: String)
        ensures
            r@ == episode_text(*self),
    {
        let mut out: Vec<char> = Vec::new();
        match self {
            Episode::Numbered(n) => {
                push_pad2(&mut out, *n);
            },
            Episode::Special(t) => {
                out.push('0');
                out.push('0');
                out.push(' ');
                out.push('-');
                out.push(' ');
                let tc = chars_of(t.as_str());
                push_all(&mut out, &tc);
            },
        }
        assert(out@ =~= episode_text(*self));
        string_of(&out)
    }
}

/// Season and episode of a show's file.
#[derive(Debug, PartialEq, Eq)]
pub struct TVShowInfo {
    pub season: u8,
    pub episode: Episode,
}

/// What a file holds: a name, maybe a year, and for an episode its season and number.
#[derive(Debug, PartialEq, Eq)]
pub struct MediaInfo {
    pub name: String,
    pub year: Option<i32>,
    pub show_info: Option<TVShowInfo>,
}

/// Title of a special whose file name gives none.
pub open spec fn unknown_special() -> Seq<char> {
    seq!['U', 'n', 'k', 'n', 'o', 'w', 'n', ' ', 'S', 'p', 'e', 'c', 'i', 'a', 'l']
}

/// The episode that the marker of the title `t` gives.
pub open spec fn episode_matches(e: Episode, t: Seq<char>) -> bool {
    match e {
        Episode::Numbered(n) => episode_value(t) != 0 && n as int == episode_value(t),
        Episode::Special(x) => episode_value(t) == 0 && x@ == (if episode_title(t).len() == 0 {
            unknown_special()
        } else {
            capitalized(episode_title(t))
        }),
    }
}

/// The season (between 1 and 99) and episode that the marker of the title `t` gives.
pub open spec fn show_matches(si: TVShowInfo, t: Seq<char>) -> bool {
    &&& 1 <= si.season <= 99
    &&& si.season as int == season_value(t)
    &&& episode_matches(si.episode, t)
}

/// The title that the year is looked for in: the show name when there is a marker.
pub open spec fn working_title(t: Seq<char>) -> Seq<char> {
    if has_show(t) {
        show_name(t)
    } else {
        t
    }
}

/// The year taken from the end of `w`, if any.
pub open spec fn year_found(w: Seq<char>, current_year: int) -> Option<i32> {
    if year_accepted(w, current_year) {
        Some(year_value(w) as i32)
    } else {
        None
    }
}

/// `info` is what the path `p` gives when the current year is `current_year`.
pub open spec fn info_matches(info: MediaInfo, p: Seq<char>, current_year: int) -> bool {
    let t = normalized(p);
    let w = working_title(t);
    &&& info.name@ == year_stripped(w, current_year)
    &&& info.year == year_found(w, current_year)
    &&& (info.show_info is Some <==> has_show(t))
    &&& (info.show_info matches Some(si) ==> show_matches(si, t))
}

/// The extension of `path` when it is one of the media extensions.
pub fn media_extension(path: &str) -> (r: Option<String>)
    ensures
        r is Some <==> is_media_path(path@),
        r matches Some(e) ==> extension(file_name(path@)) == Some(e@),
{
    let p = chars_of(path);
    match extension_chars(&p) {
        None => None,
        Some(e) => {
            let known = e.len() == 3 && ((e[0] == 'm' && e[1] == 'k' && e[2] == 'v') || (e[0] == 'a'
                && e[1] == 'v' && e[2] == 'i') || (e[0] == 'm' && e[1] == 'p' && e[2] == '4') || (e[0]
                == 's' && e[1] == 'r' && e[2] == 't'));
            if known {
                proof {
                    if e@[0] == 'm' && e@[1] == 'k' {
                        assert(e@ =~= seq!['m', 'k', 'v']);
                    } else if e@[0] == 'a' {
                        assert(e@ =~= seq!['a', 'v', 'i']);
                    } else if e@[0] == 'm' {
                        assert(e@ =~= seq!['m', 'p', '4']);
                    } else {
                        assert(e@ =~= seq!['s', 'r', 't']);
                    }
                }
                Some(string_of(&e))
            } else {
                assert(!media_ext(e@));
                None
            }
        },
    }
}

impl MediaInfo {
    pub fn is_show(&self) -> (r: bool)
        ensures
            r == self.show_info is Some,
    {
        self.show_info.is_some()
    }

    /// The catalog to look the title up in.
    pub fn kind(&self) -> (r: MediaKind)
        ensures
            r == (if self.show_info is Some {
                MediaKind::Show
            } else {
                MediaKind::Movie
            }),
    {
        if self.is_show() {
            MediaKind::Show
        } else {
            MediaKind::Movie
        }
    }

    /// `value` with the first character of each space-separated word upper-cased.
    pub fn capitalize_words(value: &str) -> (r: String)
        ensures
            r@ == capitalized(value@),
    {
        let v = chars_of(value);
        let mut out: Vec<char> = Vec::new();
        let mut i: usize = 0;
        while i < v.len()
            invariant
                i <= v.len(),
                out@ == capitalized_prefix(v@, i as int),
            decreases v.len() - i,
        {
            if v[i] != ' ' && (i == 0 || v[i - 1] == ' ') {
                let u = char_upper(v[i]);
                let uc = chars_of(u.as_str());
                push_all(&mut out, &uc);
            } else {
                out.push(v[i]);
            }
            i = i + 1;
        }
        string_of(&out)
    }

    /// The cleaned title of a path: its last segment without extension,
    /// lower-cased, `.`, `-`, `_` as spaces, cut before the first release tag,
    /// without the span between parentheses, trimmed.
    pub fn path_normalize(path: &str) -> (r: String)
        ensures
            r@ == normalized(path@),
    {
        let p = chars_of(path);
        let n = normalize_chars(&p);
        string_of(&n)
    }

    /// Takes a season/episode marker off the name, when there is one.
    pub fn extract_show_season_episode(&mut self)
        ensures
            final(self).year == old(self).year,
            has_show(old(self).name@) ==> final(self).name@ == show_name(old(self).name@),
            has_show(old(self).name@) ==> (final(self).show_info matches Some(si) && show_matches(
                si,
                old(self).name@,
            )),
            !has_show(old(self).name@) ==> final(self).name@ == old(self).name@
                && final(self).show_info == old(self).show_info,
    {
        let v = chars_of(self.name.as_str());
        match split_show(&v) {
            None => {},
            Some(parts) => {
                let episode = if parts.episode != 0 {
                    Episode::Numbered(parts.episode)
                } else if parts.title.len() == 0 {
                    let u = vec!['U', 'n', 'k', 'n', 'o', 'w', 'n', ' ', 'S', 'p', 'e', 'c', 'i', 'a', 'l'];
                    Episode::Special(string_of(&u))
                } else {
                    let t = string_of(&parts.title);
                    Episode::Special(Self::capitalize_words(t.as_str()))
                };
                self.name = string_of(&parts.name);
                self.show_info = Some(TVShowInfo { season: parts.season, episode });
            },
        }
    }

    /// Takes a trailing year off the name, when it is accepted as one.
    pub fn extract_year(&mut self, current_year: i32)
        ensures
            final(self).show_info == old(self).show_info,
            final(self).name@ == year_stripped(old(self).name@, current_year as int),
            final(self).year == (if year_accepted(old(self).name@, current_year as int) {
                Some(year_value(old(self).name@) as i32)
            } else {
                old(self).year
            }),
    {
        let v = chars_of(self.name.as_str());
        match split_year(&v, current_year) {
            None => {},
            Some((name, y)) => {
                self.name = string_of(&name);
                self.year = Some(y);
            },
        }
    }

    /// What the path gives, before any catalog lookup, in the given current year.
    pub fn extract_media_info(path: &str, current_year: i32) -> (r: MediaInfo)
        ensures
            info_matches(r, path@, current_year as int),
    {
        let mut media_info = MediaInfo {
            name: Self::path_normalize(path),
            year: None,
            show_info: None,
        };
        media_info.extract_show_season_episode();
        media_info.extract_year(current_year);
        media_info
    }

    /// What the path of a media file gives, before any catalog lookup; years
    /// are accepted up to the current year. When the clock cannot be read, no
    /// trailing number is taken as a year.
    pub fn from_path(path: &str) -> (r: Result<MediaInfo, SortError>)
        ensures
            r is Ok <==> is_media_path(path@),
            r matches Ok(info) ==> (exists|y: i32| y >= 1970 && info_matches(info, path@, y as int))
                || info_matches(info, path@, FIRST_FILM_YEAR - 1),
            r matches Err(e) ==> e matches SortError::NotMediaFile(p) && p@ == path@,
    {
        if media_extension(path).is_none() {
            let p = chars_of(path);
            return Err(SortError::NotMediaFile(string_of(&p)));
        }
        match current_year() {
            Some(y) => {
                let info = Self::extract_media_info(path, y);
                assert(info_matches(info, path@, y as int));
                Ok(info)
            },
            None => Ok(Self::extract_media_info(path, FIRST_FILM_YEAR - 1)),
        }
    }

    /// The info once the catalog has answered: the canonical name when it
    /// found the title, `NotFound` when it did not.
    pub fn resolve(self, canonical: Option<String>) -> (r: Result<MediaInfo, SortError>)
        ensures
            match canonical {
                Some(n) => r matches Ok(info) && info.name@ == n@ && info.year == self.year
                    && info.show_info == self.show_info,
                None => r matches Err(e) && e matches SortError::NotFound(k, t, y) && k == (
                if self.show_info is Some {
                    MediaKind::Show
                } else {
                    MediaKind::Movie
                }) && t@ == self.name@ && y == self.year,
            },
    {
        let kind = self.kind();
        match canonical {
            Some(name) => Ok(MediaInfo { name, year: self.year, show_info: self.show_info }),
            None => Err(SortError::NotFound(kind, self.name, self.year)),
        }
    }
}

/// Value of four decimal digits.
pub open spec fn four_digit_value(d: Seq<char>) -> int {
    1000 * digit_value(d[0]) + 100 * digit_value(d[1]) + 10 * digit_value(d[2]) + digit_value(d[3])
}

/// For a title `<name> <four digits>`, year extraction gives back the name
/// and the year exactly when the year lies between the first year of film and
/// the current year; otherwise the title is left whole and no year is found.
pub proof fn lemma_year_extraction(name: Seq<char>, digits: Seq<char>, current_year: int)
    requires
        digits.len() == 4,
        forall|i: int| 0 <= i < 4 ==> is_digit(#[trigger] digits[i]),
    ensures
        ({
            let w = name + seq![' '] + digits;
            let v = four_digit_value(digits);
            &&& (year_stripped(w, current_year) == name && year_found(w, current_year) == Some(
                v as i32,
            )) <==> (FIRST_FILM_YEAR <= v <= current_year)
            &&& !(FIRST_FILM_YEAR <= v <= current_year) ==> year_stripped(w, current_year) == w
                && year_found(w, current_year) is None
        }),
{
    let w = name + seq![' '] + digits;
    let l = w.len() as int;
    assert(w[l - 5] == ' ');
    assert(w[l - 4] == digits[0]);
    assert(w[l - 3] == digits[1]);
    assert(w[l - 2] == digits[2]);
    assert(w[l - 1] == digits[3]);
    assert(year_mark(w));
    assert(year_value(w) == four_digit_value(digits));
    assert(w.subrange(0, l - 5) =~= name);
}

} // verus!
