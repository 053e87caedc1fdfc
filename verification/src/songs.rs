//! The song list file and difficulty levels.
//!
//! A song list is text with one song per line, `subdir|name|author`;
//! surrounding whitespace is ignored, and lines that are empty or have fewer
//! than three fields are skipped (the author keeps any further `|`).
//! Difficulty levels are the keys of the song's level table, read as
//! integers (0 when a key is not one) and ordered by level, keys of equal
//! level keeping their order.
use vstd::prelude::*;
use vstd::string::StringExecFns;
use vstd::string::StrSliceExecFns;

use crate::document::{as_string, get, get_spec, keys_spec, parse_toml, str_spec, table_keys, toml_doc, TomlView};

verus! {

/// Whether `c` is whitespace (the Unicode `White_Space` property).
pub open spec fn is_space(c: char) -> bool {
    ||| ('\u{9}' <= c <= '\u{d}')
    ||| c == ' '
    ||| c == '\u{85}'
    ||| c == '\u{a0}'
    ||| c == '\u{1680}'
    ||| ('\u{2000}' <= c <= '\u{200a}')
    ||| c == '\u{2028}'
    ||| c == '\u{2029}'
    ||| c == '\u{202f}'
    ||| c == '\u{205f}'
    ||| c == '\u{3000}'
}

/// Index of the first `c` at or after `i` in `s`, or `s.len()`.
pub open spec fn find_from(s: Seq<char>, i: int, c: char) -> int
    decreases s.len() - i,
{
    if i >= s.len() {
        s.len() as int
    } else if s[i] == c {
        i
    } else {
        find_from(s, i + 1, c)
    }
}

/// First index at or after `i` (up to `end`) that is not whitespace.
pub open spec fn skip_space(s: Seq<char>, i: int, end: int) -> int
    decreases end - i,
{
    if i >= end {
        end
    } else if is_space(s[i]) {
        skip_space(s, i + 1, end)
    } else {
        i
    }
}

/// One past the last index before `end` (down to `start`) that is not whitespace.
pub open spec fn trim_end(s: Seq<char>, start: int, end: int) -> int
    decreases end - start,
{
    if end <= start {
        start
    } else if is_space(s[end - 1]) {
        trim_end(s, start, end - 1)
    } else {
        end
    }
}

/// A song: its folder, name and author.
pub struct SongView {
    pub subdir: Seq<char>,
    pub name: Seq<char>,
    pub author: Seq<char>,
}

/// The song a trimmed line describes, if it has three fields.
pub open spec fn parse_line(t: Seq<char>) -> Option<SongView> {
    let p1 = find_from(t, 0, '|');
    let p2 = find_from(t, p1 + 1, '|');
    if t.len() == 0 || p1 >= t.len() || p2 >= t.len() {
        None
    } else {
        Some(
            SongView {
                subdir: t.subrange(0, p1),
                name: t.subrange(p1 + 1, p2),
                author: t.subrange(p2 + 1, t.len() as int),
            },
        )
    }
}

/// The line of `s` that starts at `i`, trimmed.
pub open spec fn trimmed_line(s: Seq<char>, i: int) -> Seq<char> {
    let e = find_from(s, i, '\n');
    let a = skip_space(s, i, e);
    let b = trim_end(s, a, e);
    s.subrange(a, b)
}

/// The songs of the lines of `s` from index `i` on.
pub open spec fn songs_from(s: Seq<char>, i: int) -> Seq<SongView>
    decreases s.len() - i,
{
    if i < 0 || i > s.len() {
        seq![]
    } else {
        let e = find_from(s, i, '\n');
        proof {
            lemma_find_from_bounds(s, i, '\n');
        }
        let rest = if e < s.len() {
            songs_from(s, e + 1)
        } else {
            seq![]
        };
        match parse_line(trimmed_line(s, i)) {
            Some(x) => seq![x] + rest,
            None => rest,
        }
    }
}

/// The songs listed in the text `s`.
pub open spec fn songs_of(s: Seq<char>) -> Seq<SongView> {
    songs_from(s, 0)
}

/// A song of the list, with the id it is known by (`<list folder>/<subdir>`).
#[derive(Debug)]
pub struct Song {
    pub subdir: String,
    pub name: String,
    pub author: String,
    pub item_id: String,
}

pub proof fn lemma_find_from_bounds(s: Seq<char>, i: int, c: char)
    requires
        0 <= i,
    ensures
        i <= find_from(s, i, c) <= s.len() || (i > s.len() && find_from(s, i, c) == s.len()),
        find_from(s, i, c) < s.len() ==> s[find_from(s, i, c)] == c,
    decreases s.len() - i,
{
    if i < s.len() && s[i] != c {
        lemma_find_from_bounds(s, i + 1, c);
    }
}

proof fn lemma_skip_space_bounds(s: Seq<char>, i: int, end: int)
    requires
        i <= end,
    ensures
        i <= skip_space(s, i, end) <= end,
    decreases end - i,
{
    if i < end && is_space(s[i]) {
        lemma_skip_space_bounds(s, i + 1, end);
    }
}

proof fn lemma_trim_end_bounds(s: Seq<char>, start: int, end: int)
    requires
        start <= end,
    ensures
        start <= trim_end(s, start, end) <= end,
    decreases end - start,
{
    if end > start && is_space(s[end - 1]) {
        lemma_trim_end_bounds(s, start, end - 1);
    }
}

fn is_space_char(c: char) -> (r: bool)
    ensures
        r == is_space(c),
{
    ('\u{9}' <= c && c <= '\u{d}') || c == ' ' || c == '\u{85}' || c == '\u{a0}' || c == '\u{1680}'
        || ('\u{2000}' <= c && c <= '\u{200a}') || c == '\u{2028}' || c == '\u{2029}' || c == '\u{202f}'
        || c == '\u{205f}' || c == '\u{3000}'
}

fn find_char(s: &str, n: usize, i: usize, c: char) -> (r: usize)
    requires
        n == s@.len(),
        i <= n,
    ensures
        r == find_from(s@, i as int, c),
{
    let mut k = i;
    while k < n
        invariant
            i <= k <= n == s@.len(),
            find_from(s@, i as int, c) == find_from(s@, k as int, c),
        decreases n - k,
    {
        if s.get_char(k) == c {
            return k;
        }
        k = k + 1;
    }
    k
}

/// Reads the songs of a song list; `folder` is the list's folder, which prefixes every id.
pub fn parse_song_list(text: &str, folder: &str) -> (songs: Vec<Song>)
    ensures
        songs@.len() == songs_of(text@).len(),
        forall|k: int|
            0 <= k < songs@.len() ==> {
                let v = songs_of(text@)[k];
                &&& (#[trigger] songs@[k]).subdir@ == v.subdir
                &&& songs@[k].name@ == v.name
                &&& songs@[k].author@ == v.author
                &&& songs@[k].item_id@ == folder@ + "/"@ + v.subdir
            },
{
    let ghost s = text@;
    let n = text.unicode_len();
    let mut out: Vec<Song> = Vec::new();
    let mut i: usize = 0;
    let mut more = true;
    let ghost mut done: Seq<SongView> = Seq::empty();
    proof {
        reveal_strlit("/");
    }
    while more
        invariant
            n == s.len(),
            s == text@,
            i <= n,
            out@.len() == done.len(),
            more ==> songs_of(s) == done + songs_from(s, i as int),
            !more ==> songs_of(s) == done,
            forall|k: int|
                0 <= k < out@.len() ==> {
                    let v = done[k];
                    &&& (#[trigger] out@[k]).subdir@ == v.subdir
                    &&& out@[k].name@ == v.name
                    &&& out@[k].author@ == v.author
                    &&& out@[k].item_id@ == folder@ + "/"@ + v.subdir
                },
        decreases (n - i) + (if more {
            1int
        } else {
            0int
        }),
    {
        let e = find_char(text, n, i, '\n');
        proof {
            lemma_find_from_bounds(s, i as int, '\n');
        }
        let mut a = i;
        while a < e && is_space_char(text.get_char(a))
            invariant
                i <= a <= e <= n == s.len(),
                s == text@,
                skip_space(s, i as int, e as int) == skip_space(s, a as int, e as int),
            decreases e - a,
        {
            a = a + 1;
        }
        let mut b = e;
        while b > a && is_space_char(text.get_char(b - 1))
            invariant
                i <= a <= b <= e <= n == s.len(),
                s == text@,
                a == skip_space(s, i as int, e as int),
                trim_end(s, a as int, e as int) == trim_end(s, a as int, b as int),
            decreases b - a,
        {
            b = b - 1;
        }
        let line = text.substring_char(a, b);
        let ghost t = line@;
        assert(t == trimmed_line(s, i as int));
        let m = b - a;
        let p1 = find_char(line, m, 0, '|');
        proof {
            lemma_find_from_bounds(t, 0, '|');
        }
        let p2 = if p1 < m { find_char(line, m, p1 + 1, '|') } else { m };
        proof {
            if p1 < m {
                lemma_find_from_bounds(t, p1 + 1, '|');
            } else {
                assert(find_from(t, p1 + 1, '|') == t.len());
            }
        }
        let ghost rest = if e < n {
            songs_from(s, e + 1)
        } else {
            Seq::<SongView>::empty()
        };
        if m > 0 && p1 < m && p2 < m {
            let subdir = line.substring_char(0, p1).to_owned();
            let name = line.substring_char(p1 + 1, p2).to_owned();
            let author = line.substring_char(p2 + 1, m).to_owned();
            let item_id = String::from_str(folder).concat("/").concat(subdir.as_str());
            let ghost x = SongView { subdir: subdir@, name: name@, author: author@ };
            assert(parse_line(t) == Some(x));
            out.push(Song { subdir, name, author, item_id });
            proof {
                assert(done.push(x) + rest =~= done + (seq![x] + rest));
                done = done.push(x);
            }
        } else {
            assert(parse_line(t) is None);
        }
        if e < n {
            i = e + 1;
        } else {
            proof {
                assert(done + Seq::<SongView>::empty() =~= done);
            }
            more = false;
        }
    }
    out
}

// ---------------------------------------------------------------------------
// levels

pub open spec fn is_digit(c: char) -> bool {
    '0' <= c <= '9'
}

pub open spec fn digits_value(d: Seq<char>) -> int
    decreases d.len(),
{
    if d.len() == 0 {
        0
    } else {
        digits_value(d.drop_last()) * 10 + (d.last() as int - '0' as int)
    }
}

/// The string without its leading sign, if it has one.
pub open spec fn unsigned_part(s: Seq<char>) -> Seq<char> {
    if s.len() > 0 && (s[0] == '-' || s[0] == '+') {
        s.skip(1)
    } else {
        s
    }
}

pub open spec fn all_digits(d: Seq<char>) -> bool {
    forall|i: int| 0 <= i < d.len() ==> is_digit(#[trigger] d[i])
}

/// The `i32` a string spells: an optional sign and at least one decimal
/// digit, within the range of `i32`.
pub open spec fn parse_i32(s: Seq<char>) -> Option<i32> {
    let d = unsigned_part(s);
    let v = if s.len() > 0 && s[0] == '-' {
        -digits_value(d)
    } else {
        digits_value(d)
    };
    if d.len() == 0 || !all_digits(d) {
        None
    } else if i32::MIN <= v <= i32::MAX {
        Some(v as i32)
    } else {
        None
    }
}

/// The level a key names: its integer value, or 0 when it is not one.
pub open spec fn level_of(s: Seq<char>) -> i32 {
    match parse_i32(s) {
        Some(v) => v,
        None => 0,
    }
}

proof fn lemma_digits_grow(d: Seq<char>, i: int, j: int)
    requires
        0 <= i <= j <= d.len(),
        forall|k: int| 0 <= k < d.len() ==> is_digit(#[trigger] d[k]),
    ensures
        0 <= digits_value(d.take(i)) <= digits_value(d.take(j)),
    decreases j - i,
{
    if i < j {
        lemma_digits_grow(d, i, j - 1);
        assert(d.take(j).drop_last() =~= d.take(j - 1));
        assert(d.take(j).last() == d[j - 1]);
        assert(is_digit(d[j - 1]));
    } else {
        lemma_digits_nonneg(d.take(i));
    }
}

proof fn lemma_digits_nonneg(d: Seq<char>)
    requires
        forall|k: int| 0 <= k < d.len() ==> is_digit(#[trigger] d[k]),
    ensures
        digits_value(d) >= 0,
    decreases d.len(),
{
    if d.len() > 0 {
        assert(forall|k: int| 0 <= k < d.drop_last().len() ==> d.drop_last()[k] == d[k]);
        lemma_digits_nonneg(d.drop_last());
        assert(is_digit(d[d.len() - 1]));
    }
}

/// Reads a key as an integer, as `str::parse::<i32>` does; `None` when it is not one.
pub fn parse_level(key: &str) -> (r: Option<i32>)
    ensures
        r == parse_i32(key@),
{
    let ghost s = key@;
    let n = key.unicode_len();
    if n == 0 {
        return None;
    }
    let c0 = key.get_char(0);
    let neg = c0 == '-';
    let signed = c0 == '-' || c0 == '+';
    let start: usize = if signed { 1 } else { 0 };
    let ghost d = if signed {
        s.skip(1)
    } else {
        s
    };
    assert(s.skip(0) =~= s);
    if start == n {
        assert(d.len() == 0);
        return None;
    }
    let mut acc: i64 = 0;
    let mut big = false;
    let mut i: usize = start;
    while i < n
        invariant
            start <= i <= n == s.len(),
            s == key@,
            d == s.skip(start as int),
            start == (if s.len() > 0 && (s[0] == '-' || s[0] == '+') {
                1usize
            } else {
                0usize
            }),
            neg == (s.len() > 0 && s[0] == '-'),
            d == unsigned_part(s),
            forall|k: int| 0 <= k < i - start ==> is_digit(#[trigger] d[k]),
            !big ==> acc == digits_value(d.take(i - start)) && 0 <= acc <= 2147483648,
            big ==> digits_value(d.take(i - start)) > 2147483648,
        decreases n - i,
    {
        let c = key.get_char(i);
        if !('0' <= c && c <= '9') {
            assert(!is_digit(d[i - start]));
            assert(!all_digits(d));
            return None;
        }
        proof {
            assert(d.take(i - start + 1).drop_last() =~= d.take(i - start));
            assert(d.take(i - start + 1).last() == c);
        }
        if !big {
            let next: i64 = acc * 10 + (c as u32 - '0' as u32) as i64;
            if next > 2147483648 {
                big = true;
            } else {
                acc = next;
            }
        } else {
            proof {
                let dd = d.take(i - start + 1);
                assert forall|k: int| 0 <= k < dd.len() implies is_digit(#[trigger] dd[k]) by {
                    assert(dd[k] == d[k]);
                }
                lemma_digits_grow(dd, i - start, i - start + 1);
                assert(dd.take(i - start) =~= d.take(i - start));
                assert(dd.take(i - start + 1) =~= dd);
            }
        }
        i = i + 1;
    }
    assert(d.take(n - start) =~= d);
    if big {
        return None;
    }
    if neg {
        Some((-acc) as i32)
    } else if acc <= 2147483647 {
        Some(acc as i32)
    } else {
        None
    }
}

/// Position at which a level `lv` is put into the already ordered
/// `r[..k]`: after every entry of a level not above it.
pub open spec fn slot(r: Seq<i32>, lv: i32, k: int) -> int
    decreases k,
{
    if k <= 0 {
        0
    } else if r[k - 1] <= lv {
        k
    } else {
        slot(r, lv, k - 1)
    }
}

/// Entries ordered by level by insertion, equal levels keeping their order.
pub open spec fn by_level(s: Seq<(Seq<char>, i32)>) -> Seq<(Seq<char>, i32)>
    decreases s.len(),
{
    if s.len() == 0 {
        s
    } else {
        let r = by_level(s.drop_last());
        let x = s.last();
        let p = slot(r.map_values(|e: (Seq<char>, i32)| e.1), x.1, r.len() as int);
        r.insert(p, x)
    }
}

/// Ordering by level keeps the number of entries.
pub proof fn lemma_by_level_len(s: Seq<(Seq<char>, i32)>)
    ensures
        by_level(s).len() == s.len(),
    decreases s.len(),
{
    if s.len() > 0 {
        lemma_by_level_len(s.drop_last());
        let r = by_level(s.drop_last());
        lemma_slot_range(r.map_values(|e: (Seq<char>, i32)| e.1), s.last().1, r.len() as int);
    }
}

proof fn lemma_slot_range(r: Seq<i32>, lv: i32, k: int)
    requires
        0 <= k,
    ensures
        0 <= slot(r, lv, k) <= k,
    decreases k,
{
    if k > 0 && r[k - 1] > lv {
        lemma_slot_range(r, lv, k - 1);
    }
}

proof fn lemma_slot_split(r: Seq<i32>, lv: i32, k: int)
    requires
        0 <= k <= r.len(),
        forall|a: int, b: int| 0 <= a <= b < k ==> r[a] <= r[b],
    ensures
        forall|j: int| 0 <= j < slot(r, lv, k) ==> r[j] <= lv,
        forall|j: int| slot(r, lv, k) <= j < k ==> r[j] > lv,
    decreases k,
{
    if k > 0 && r[k - 1] > lv {
        lemma_slot_split(r, lv, k - 1);
    }
}

/// Ordering by level yields entries whose levels never decrease, and
/// holds exactly the entries it was given.
pub proof fn law_levels_ordered(s: Seq<(Seq<char>, i32)>)
    ensures
        forall|a: int, b: int|
            0 <= a <= b < by_level(s).len() ==> #[trigger] by_level(s)[a].1 <= #[trigger] by_level(s)[b].1,
        by_level(s).to_multiset() == s.to_multiset(),
    decreases s.len(),
{
    broadcast use vstd::seq_lib::group_to_multiset_ensures;
    if s.len() > 0 {
        law_levels_ordered(s.drop_last());
        lemma_by_level_len(s.drop_last());
        let r = by_level(s.drop_last());
        let x = s.last();
        let lr = r.map_values(|e: (Seq<char>, i32)| e.1);
        let p = slot(lr, x.1, r.len() as int);
        lemma_slot_range(lr, x.1, r.len() as int);
        assert forall|a: int, b: int| 0 <= a <= b < r.len() implies lr[a] <= lr[b] by {
            assert(lr[a] == r[a].1 && lr[b] == r[b].1);
        }
        lemma_slot_split(lr, x.1, r.len() as int);
        let t = r.insert(p, x);
        assert(by_level(s) == t);
        assert forall|a: int, b: int| 0 <= a <= b < t.len() implies #[trigger] t[a].1 <= #[trigger] t[b].1 by {
            if a < p {
                assert(t[a] == r[a] && lr[a] == r[a].1);
            }
            if b > p {
                assert(t[b] == r[b - 1] && lr[b - 1] == r[b - 1].1);
            }
            if a > p {
                assert(t[a] == r[a - 1]);
            }
            if b < p {
                assert(t[b] == r[b]);
            }
        }
        assert(s == s.drop_last().push(x));
        vstd::seq_lib::to_multiset_insert(r, p, x);
        vstd::seq_lib::to_multiset_build(s.drop_last(), x);
    }
}

/// Each key with its level, ordered by level.
pub open spec fn levels_of(keys: Seq<Seq<char>>) -> Seq<(Seq<char>, i32)> {
    by_level(keys.map_values(|k: Seq<char>| (k, level_of(k))))
}

pub open spec fn entry_view(e: (String, i32)) -> (Seq<char>, i32) {
    (e.0@, e.1)
}

/// The keys of a level table with their levels, ordered by level.
pub fn level_entries(keys: &Vec<String>) -> (r: Vec<(String, i32)>)
    ensures
        r@.map_values(|e: (String, i32)| entry_view(e)) == levels_of(keys@.map_values(|k: String| k@)),
{
    let ghost ks = keys@.map_values(|k: String| k@);
    let ghost es = ks.map_values(|k: Seq<char>| (k, level_of(k)));
    let mut r: Vec<(String, i32)> = Vec::new();
    let n = keys.len();
    let mut i: usize = 0;
    while i < n
        invariant
            i <= n == keys@.len() == es.len(),
            ks == keys@.map_values(|k: String| k@),
            es == ks.map_values(|k: Seq<char>| (k, level_of(k))),
            r@.map_values(|e: (String, i32)| entry_view(e)) == by_level(es.take(i as int)),
        decreases n - i,
    {
        let lv = match parse_level(keys[i].as_str()) {
            Some(v) => v,
            None => 0,
        };
        let ghost rv = r@.map_values(|e: (String, i32)| entry_view(e));
        let ghost lvs = rv.map_values(|e: (Seq<char>, i32)| e.1);
        let mut k = r.len();
        while k > 0 && r[k - 1].1 > lv
            invariant
                k <= r@.len() == rv.len() == lvs.len(),
                rv == r@.map_values(|e: (String, i32)| entry_view(e)),
                lvs == rv.map_values(|e: (Seq<char>, i32)| e.1),
                slot(lvs, lv, r@.len() as int) == slot(lvs, lv, k as int),
            decreases k,
        {
            assert(lvs[k - 1] == r@[k - 1].1);
            k = k - 1;
        }
        proof {
            if k > 0 {
                assert(lvs[k - 1] == r@[k - 1].1);
            }
        }
        r.insert(k, (keys[i].clone(), lv));
        proof {
            let x = es[i as int];
            assert(es.take(i + 1).drop_last() =~= es.take(i as int));
            assert(es.take(i + 1).last() == x);
            assert(x == (keys@[i as int]@, level_of(keys@[i as int]@)));
            assert(r@.map_values(|e: (String, i32)| entry_view(e)) =~= rv.insert(k as int, x));
        }
        i = i + 1;
    }
    assert(es.take(n as int) =~= es);
    r
}

/// What a song's metadata document gives: the keys of its `music.levels`
/// table, in order (none when it is missing or not a table), and its
/// `music.cover` (empty when it is missing or not a string); `None` when
/// there is no document.
pub open spec fn meta_of(doc: Option<TomlView>) -> Option<(Seq<Seq<char>>, Seq<char>)> {
    match doc {
        None => None,
        Some(_) => {
            let m = get_spec(doc, "music"@);
            Some((
                keys_spec(get_spec(m, "levels"@)),
                match str_spec(get_spec(m, "cover"@)) {
                    Some(c) => c,
                    None => Seq::empty(),
                },
            ))
        },
    }
}

/// A song's difficulties, each key with its level and ordered by level,
/// and its cover file name, read from the text of its `meta.toml`; `None`
/// when the text is not TOML.
pub fn song_meta(text: &str) -> (r: Option<(Vec<(String, i32)>, String)>)
    ensures
        match meta_of(toml_doc(text@)) {
            None => r is None,
            Some(m) => r matches Some(p) && p.0@.map_values(|e: (String, i32)| entry_view(e)) == levels_of(m.0)
                && p.1@ == m.1,
        },
{
    match parse_toml(text) {
        None => None,
        Some(d) => {
            let m = get(Some(&d), "music");
            let keys = table_keys(get(m, "levels"));
            let cover = match as_string(get(m, "cover")) {
                Some(c) => c,
                None => String::new(),
            };
            let levels = level_entries(&keys);
            Some((levels, cover))
        },
    }
}

proof fn lemma_find_from_first(s: Seq<char>, i: int, c: char)
    requires
        0 <= i,
    ensures
        forall|k: int| i <= k < find_from(s, i, c) && k < s.len() ==> s[k] != c,
    decreases s.len() - i,
{
    if i < s.len() && s[i] != c {
        lemma_find_from_first(s, i + 1, c);
    }
}

/// A line with at least two `|` gives a song, and a song's fields are the
/// line cut at its first two `|`: the folder and the name hold no `|`, and
/// folder, `|`, name, `|` and author put back together give the line, so the
/// author is all the rest of it (spaces and further `|` included).
pub proof fn law_song_fields_rebuild_the_line(t: Seq<char>)
    ensures
        parse_line(t) matches Some(x) ==> {
            &&& t == x.subdir + seq!['|'] + x.name + seq!['|'] + x.author
            &&& !x.subdir.contains('|')
            &&& !x.name.contains('|')
        },
        (exists|i: int, j: int| 0 <= i < j < t.len() && t[i] == '|' && t[j] == '|') ==> parse_line(t) is Some,
{
    let p1 = find_from(t, 0, '|');
    lemma_find_from_bounds(t, 0, '|');
    lemma_find_from_first(t, 0, '|');
    if p1 < t.len() {
        lemma_find_from_bounds(t, p1 + 1, '|');
        lemma_find_from_first(t, p1 + 1, '|');
    }
    let p2 = find_from(t, p1 + 1, '|');
    if let Some(x) = parse_line(t) {
        assert(t =~= x.subdir + seq!['|'] + x.name + seq!['|'] + x.author);
        assert(!x.subdir.contains('|')) by {
            if x.subdir.contains('|') {
                let k = choose|k: int| 0 <= k < x.subdir.len() && x.subdir[k] == '|';
                assert(t[k] == '|');
            }
        }
        assert(!x.name.contains('|')) by {
            if x.name.contains('|') {
                let k = choose|k: int| 0 <= k < x.name.len() && x.name[k] == '|';
                assert(t[p1 + 1 + k] == '|');
            }
        }
    }
    if exists|i: int, j: int| 0 <= i < j < t.len() && t[i] == '|' && t[j] == '|' {
        let (i, j) = choose|i: int, j: int| 0 <= i < j < t.len() && t[i] == '|' && t[j] == '|';
        assert(p1 <= i);
        assert(p2 <= j);
    }
}

} // verus!
