//! Where a file goes in the library, whether it may go there, and which
//! nodes get their permissions fixed afterwards.
use vstd::prelude::*;

use crate::config::Config;
use crate::error::SortError;
use crate::mediainfo::{episode_text, Episode, MediaInfo};
use crate::text::{chars_of, int_text, pad2_text, push_all, push_int, push_pad2, string_of};
use crate::title::{last_index, last_index_of, lemma_last_index_bounds};

verus! {

/// `b` placed under the directory `a`.
pub open spec fn join(a: Seq<char>, b: Seq<char>) -> Seq<char> {
    if a.len() == 0 {
        b
    } else if a.last() == '/' {
        a + b
    } else {
        a + seq!['/'] + b
    }
}

/// `name (year)` when the year is known, else `name`.
pub open spec fn with_year(name: Seq<char>, year: Option<i32>) -> Seq<char> {
    match year {
        Some(y) => name + seq![' ', '('] + int_text(y as int) + seq![')'],
        None => name,
    }
}

/// The directory of a show. A directory named without year is kept when it
/// already exists.
pub open spec fn show_base(
    name: Seq<char>,
    year: Option<i32>,
    show_root: Seq<char>,
    bare_exists: bool,
) -> Seq<char> {
    if bare_exists {
        join(show_root, name)
    } else {
        join(show_root, with_year(name, year))
    }
}

pub open spec fn season_dir(season: u8) -> Seq<char> {
    seq!['S', 'e', 'a', 's', 'o', 'n', ' '] + pad2_text(season as nat)
}

/// `<name> - S<season>E<episode>`.
pub open spec fn episode_file(name: Seq<char>, season: u8, episode: Episode) -> Seq<char> {
    name + seq![' ', '-', ' ', 'S'] + pad2_text(season as nat) + seq!['E'] + episode_text(episode)
}

/// The path a file with this info and extension is placed at.
pub open spec fn destination(
    info: MediaInfo,
    ext: Seq<char>,
    show_root: Seq<char>,
    movie_root: Seq<char>,
    bare_exists: bool,
) -> Seq<char> {
    match info.show_info {
        Some(si) => join(
            join(show_base(info.name@, info.year, show_root, bare_exists), season_dir(si.season)),
            episode_file(info.name@, si.season, si.episode),
        ) + seq!['.'] + ext,
        None => join(movie_root, with_year(info.name@, info.year)) + seq!['.'] + ext,
    }
}

fn join_chars(a: &Vec<char>, b: &Vec<char>) -> (r: Vec<char>)
    ensures
        r@ == join(a@, b@),
{
    let mut r: Vec<char> = Vec::new();
    push_all(&mut r, a);
    if a.len() > 0 && a[a.len() - 1] != '/' {
        r.push('/');
    }
    push_all(&mut r, b);
    assert(r@ =~= join(a@, b@));
    r
}

fn with_year_chars(name: &Vec<char>, year: Option<i32>) -> (r: Vec<char>)
    ensures
        r@ == with_year(name@, year),
{
    let mut r: Vec<char> = Vec::new();
    push_all(&mut r, name);
    match year {
        Some(y) => {
            r.push(' ');
            r.push('(');
            push_int(&mut r, y);
            r.push(')');
        },
        None => {},
    }
    assert(r@ =~= with_year(name@, year));
    r
}

/// The show directory named without year, whose existence decides
/// whether a new show directory carries the year.
pub fn bare_show_dir(info: &MediaInfo, config: &Config) -> (r: String)
    ensures
        r@ == join(config.show_path@, info.name@),
{
    let root = chars_of(config.show_path.as_str());
    let name = chars_of(info.name.as_str());
    string_of(&join_chars(&root, &name))
}

/// The destination of a file: under the show root for an episode, under the
/// movie root otherwise, with the file's extension. `bare_dir_exists` tells
/// whether the show directory named without year exists.
pub fn build_destination(info: &MediaInfo, ext: &str, config: &Config, bare_dir_exists: bool) -> (r:
    String)
    ensures
        r@ == destination(
            *info,
            ext@,
            config.show_path@,
            config.movie_path@,
            bare_dir_exists,
        ),
{
    let name = chars_of(info.name.as_str());
    let mut path = match &info.show_info {
        Some(si) => {
            let root = chars_of(config.show_path.as_str());
            let base = if bare_dir_exists {
                join_chars(&root, &name)
            } else {
                join_chars(&root, &with_year_chars(&name, info.year))
            };
            let mut season: Vec<char> = vec!['S', 'e', 'a', 's', 'o', 'n', ' '];
            push_pad2(&mut season, si.season);
            assert(season@ =~= season_dir(si.season));
            let dir = join_chars(&base, &season);
            let mut file: Vec<char> = Vec::new();
            push_all(&mut file, &name);
            file.push(' ');
            file.push('-');
            file.push(' ');
            file.push('S');
            push_pad2(&mut file, si.season);
            file.push('E');
            let ep = si.episode.render();
            push_all(&mut file, &chars_of(ep.as_str()));
            assert(file@ =~= episode_file(info.name@, si.season, si.episode));
            join_chars(&dir, &file)
        },
        None => {
            let root = chars_of(config.movie_path.as_str());
            join_chars(&root, &with_year_chars(&name, info.year))
        },
    };
    path.push('.');
    push_all(&mut path, &chars_of(ext));
    assert(path@ =~= destination(
        *info,
        ext@,
        config.show_path@,
        config.movie_path@,
        bare_dir_exists,
    ));
    string_of(&path)
}

/// What a placement does, or did.
#[derive(Clone, Copy, Debug, PartialEq, Eq, Structural)]
pub enum Action {
    /// The file is moved to its destination.
    Moved,
    /// Nothing is changed; the file would be moved.
    WouldMove,
}

/// A placement of one file.
#[derive(Debug, PartialEq, Eq)]
pub struct PlacementResult {
    pub source: String,
    pub destination: String,
    pub action: Action,
}

/// The action taken on a file whose destination is known, or `None` when an
/// existing destination may not be replaced.
pub open spec fn placement_action(dst_exists: bool, overwrite: bool, dry_run: bool) -> Option<
    Action,
> {
    if dst_exists && !overwrite {
        None
    } else if dry_run {
        Some(Action::WouldMove)
    } else {
        Some(Action::Moved)
    }
}

/// Decides the placement of `source` at `destination`. An existing
/// destination is reported as `AlreadyExists` unless overwriting is on,
/// also in a dry run.
pub fn plan_placement(
    source: &str,
    destination: &str,
    dst_exists: bool,
    overwrite: bool,
    dry_run: bool,
) -> (r: Result<PlacementResult, SortError>)
    ensures
        r is Err <==> placement_action(dst_exists, overwrite, dry_run) is None,
        r matches Err(e) ==> (e matches SortError::AlreadyExists(d) && d@ == destination@),
        r matches Ok(p) ==> p.source@ == source@ && p.destination@ == destination@ && Some(p.action)
            == placement_action(dst_exists, overwrite, dry_run),
{
    let d = string_of(&chars_of(destination));
    if dst_exists && !overwrite {
        return Err(SortError::AlreadyExists(d));
    }
    let action = if dry_run {
        Action::WouldMove
    } else {
        Action::Moved
    };
    Ok(PlacementResult { source: string_of(&chars_of(source)), destination: d, action })
}

/// A dry run reports an error exactly when a real placement would, and
/// otherwise changes nothing; the destination is computed without regard to
/// the run's kind.
pub proof fn lemma_dry_run_agrees(dst_exists: bool, overwrite: bool)
    ensures
        placement_action(dst_exists, overwrite, true) is None <==> placement_action(
            dst_exists,
            overwrite,
            false,
        ) is None,
        placement_action(dst_exists, overwrite, true) is Some ==> placement_action(
            dst_exists,
            overwrite,
            true,
        ) == Some(Action::WouldMove),
{
}

/// Bits that make a directory traversable by everyone.
pub const EXEC_BITS: u32 = 0o111;

/// Mode given to one node of the cascade: directories are also made traversable.
pub fn cascade_mode(base: u32, is_dir: bool) -> (r: u32)
    ensures
        r == if is_dir {
            base | EXEC_BITS
        } else {
            base
        },
{
    if is_dir {
        base | EXEC_BITS
    } else {
        base
    }
}

/// The directory above a path: what precedes its last `/`, without trailing
/// `/` (`/` itself for a node right under the root), or nothing.
pub open spec fn parent(p: Seq<char>) -> Option<Seq<char>> {
    let i = last_index_of(p, '/');
    if i < 0 || (i == 0 && p.len() <= 1) {
        None
    } else if i == 0 {
        Some(seq!['/'])
    } else {
        Some(strip_slash(p.subrange(0, i)))
    }
}

/// A root path without trailing `/` (but `/` itself).
pub open spec fn strip_slash(r: Seq<char>) -> Seq<char>
    decreases r.len(),
{
    if r.len() > 1 && r.last() == '/' {
        strip_slash(r.drop_last())
    } else {
        r
    }
}

/// The nodes whose permissions are fixed after a placement at `p`: `p` and
/// each directory above it, up to but without the first that is `a` or `b`.
pub open spec fn cascade(p: Seq<char>, a: Seq<char>, b: Seq<char>) -> Seq<Seq<char>>
    decreases p.len(),
{
    if p == a || p == b {
        Seq::empty()
    } else {
        match parent(p) {
            Some(q) => if q.len() < p.len() {
                seq![p] + cascade(q, a, b)
            } else {
                seq![p]
            },
            None => seq![p],
        }
    }
}

proof fn lemma_strip_slash_len(r: Seq<char>)
    ensures
        strip_slash(r).len() <= r.len(),
    decreases r.len(),
{
    if r.len() > 1 && r.last() == '/' {
        lemma_strip_slash_len(r.drop_last());
    }
}

/// A parent is shorter than its child.
pub proof fn lemma_parent_shorter(p: Seq<char>)
    ensures
        parent(p) matches Some(q) ==> q.len() < p.len(),
{
    lemma_last_index_bounds(p, '/');
    let i = last_index_of(p, '/');
    if i > 0 {
        lemma_strip_slash_len(p.subrange(0, i));
    }
}

fn same_chars(a: &Vec<char>, b: &Vec<char>) -> (r: bool)
    ensures
        r == (a@ == b@),
{
    if a.len() != b.len() {
        return false;
    }
    let mut i: usize = 0;
    while i < a.len()
        invariant
            i <= a.len() == b.len(),
            forall|k: int| 0 <= k < i ==> a@[k] == b@[k],
        decreases a.len() - i,
    {
        if a[i] != b[i] {
            return false;
        }
        i = i + 1;
    }
    assert(a@ =~= b@);
    true
}

fn strip_slash_chars(r: &Vec<char>) -> (s: Vec<char>)
    ensures
        s@ == strip_slash(r@),
{
    let mut n: usize = r.len();
    assert(r@.subrange(0, n as int) =~= r@);
    while n > 1 && r[n - 1] == '/'
        invariant
            n <= r.len(),
            strip_slash(r@) == strip_slash(r@.subrange(0, n as int)),
        decreases n,
    {
        assert(r@.subrange(0, n as int).drop_last() =~= r@.subrange(0, n - 1));
        n = n - 1;
    }
    crate::text::slice_chars(r, 0, n)
}

pub open spec fn views(v: Seq<String>) -> Seq<Seq<char>> {
    v.map_values(|s: String| s@)
}

/// The nodes whose mode and owner are set after placing a file at
/// `destination`: the destination and each directory above it, stopping
/// before the show root or the movie root.
pub fn cascade_targets(destination: &str, config: &Config) -> (r: Vec<String>)
    ensures
        views(r@) == cascade(
            destination@,
            strip_slash(config.show_path@),
            strip_slash(config.movie_path@),
        ),
{
    let a = strip_slash_chars(&chars_of(config.show_path.as_str()));
    let b = strip_slash_chars(&chars_of(config.movie_path.as_str()));
    let mut cur = chars_of(destination);
    let mut out: Vec<String> = Vec::new();
    loop
        invariant
            a@ == strip_slash(config.show_path@),
            b@ == strip_slash(config.movie_path@),
            views(out@) + cascade(cur@, a@, b@) == cascade(destination@, a@, b@),
        decreases cur@.len(),
    {
        if same_chars(&cur, &a) || same_chars(&cur, &b) {
            assert(views(out@) =~= views(out@) + cascade(cur@, a@, b@));
            return out;
        }
        let ghost before = views(out@);
        out.push(string_of(&cur));
        assert(views(out@) =~= before.push(cur@));
        proof {
            lemma_parent_shorter(cur@);
            lemma_last_index_bounds(cur@, '/');
        }
        let next = match last_index(&cur, '/') {
            None => None,
            Some(i) => {
                if i == 0 && cur.len() <= 1 {
                    None
                } else if i == 0 {
                    Some(vec!['/'])
                } else {
                    Some(strip_slash_chars(&crate::text::slice_chars(&cur, 0, i)))
                }
            },
        };
        match next {
            None => {
                assert(views(out@) =~= before + cascade(cur@, a@, b@));
                return out;
            },
            Some(q) => {
                assert(parent(cur@) == Some(q@));
                assert(views(out@) + cascade(q@, a@, b@) =~= before + cascade(cur@, a@, b@));
                cur = q;
            },
        }
    }
}

/// The destination depends on the info, the extension, the roots and whether
/// the bare show directory exists, and on nothing else: equal inputs give
/// equal paths, however often it is computed.
pub proof fn lemma_destination_deterministic(
    a: MediaInfo,
    b: MediaInfo,
    ext: Seq<char>,
    show_root: Seq<char>,
    movie_root: Seq<char>,
    bare_exists: bool,
)
    requires
        a.name@ == b.name@,
        a.year == b.year,
        a.show_info == b.show_info,
    ensures
        destination(a, ext, show_root, movie_root, bare_exists) == destination(
            b,
            ext,
            show_root,
            movie_root,
            bare_exists,
        ),
{
}

/// The cascade from `p` holds `p` first (unless `p` is a root), then each
/// directory above the one before it; it holds neither root, and it ends
/// just below a root or at a node without parent.
pub proof fn lemma_cascade_shape(p: Seq<char>, a: Seq<char>, b: Seq<char>)
    ensures
        ({
            let c = cascade(p, a, b);
            &&& forall|k: int| 0 <= k < c.len() ==> #[trigger] c[k] != a && c[k] != b
            &&& (p != a && p != b) ==> c.len() > 0 && c[0] == p
            &&& forall|k: int| 0 <= k < c.len() - 1 ==> parent(#[trigger] c[k]) == Some(c[k + 1])
            &&& c.len() > 0 ==> (parent(c.last()) matches Some(q) ==> q == a || q == b)
        }),
    decreases p.len(),
{
    lemma_parent_shorter(p);
    if p != a && p != b {
        if let Some(q) = parent(p) {
            lemma_cascade_shape(q, a, b);
            let c = cascade(p, a, b);
            let t = cascade(q, a, b);
            assert(c == seq![p] + t);
            assert forall|k: int| 0 <= k < c.len() - 1 implies parent(#[trigger] c[k]) == Some(
                c[k + 1],
            ) by {
                if k > 0 {
                    assert(c[k] == t[k - 1]);
                    assert(c[k + 1] == t[k]);
                }
            }
            assert forall|k: int| 0 <= k < c.len() implies #[trigger] c[k] != a && c[k] != b by {
                if k > 0 {
                    assert(c[k] == t[k - 1]);
                }
            }
            if t.len() > 0 {
                assert(c.last() == t.last());
            }
        }
    }
}

proof fn lemma_last_index_concat(s: Seq<char>, t: Seq<char>, c: char)
    requires
        forall|i: int| 0 <= i < t.len() ==> t[i] != c,
    ensures
        last_index_of(s + t, c) == last_index_of(s, c),
    decreases t.len(),
{
    if t.len() > 0 {
        assert((s + t).drop_last() =~= s + t.drop_last());
        lemma_last_index_concat(s, t.drop_last(), c);
    } else {
        assert(s + t =~= s);
    }
}

/// A node placed right under a root (a last segment without `/`) is the
/// whole cascade: its parent is the root, however many `/` end the root, so
/// the root itself is never touched.
pub proof fn lemma_cascade_under_root(root: Seq<char>, rel: Seq<char>, other: Seq<char>)
    requires
        root.len() > 0,
        rel.len() > 0,
        forall|i: int| 0 <= i < rel.len() ==> rel[i] != '/',
        join(root, rel) != other,
    ensures
        parent(join(root, rel)) == Some(strip_slash(root)),
        cascade(join(root, rel), strip_slash(root), other) == seq![join(root, rel)],
{
    let p = join(root, rel);
    lemma_strip_slash_len(root);
    if root.last() == '/' {
        assert(p == root + rel);
        lemma_last_index_concat(root, rel, '/');
        assert(last_index_of(root, '/') == root.len() - 1);
        if root.len() > 1 {
            assert(p.subrange(0, root.len() - 1) =~= root.drop_last());
        } else {
            assert(root =~= seq!['/']);
        }
    } else {
        let r1 = root + seq!['/'];
        assert(p == r1 + rel);
        lemma_last_index_concat(r1, rel, '/');
        assert(r1.drop_last() =~= root);
        assert(last_index_of(r1, '/') == root.len());
        assert(p.subrange(0, root.len() as int) =~= root);
    }
    lemma_parent_shorter(p);
    assert(p.len() > strip_slash(root).len());
    assert(cascade(strip_slash(root), strip_slash(root), other) == Seq::<Seq<char>>::empty());
    assert(seq![p] + Seq::<Seq<char>>::empty() =~= seq![p]);
}

} // verus!
