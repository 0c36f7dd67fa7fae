//! Desktop entry files: extracting the key/value pairs of the
//! `[Desktop Entry]` group from a file's text.
//!
//! The parser is a two-state line scanner: it seeks the `[Desktop Entry]`
//! header, then collects `key=value` lines until the next group header or the
//! end of the text. Later occurrences of a key overwrite earlier ones.

use vstd::prelude::*;
use vstd::map::*;
use crate::text::{spec_trim, spec_lines, trim_str, split_lines, str_eq};

verus! {

/// Index of the first occurrence of `c` in `s`, or `s.len()` if absent.
pub open spec fn find_char_in(s: Seq<char>, c: char) -> int
    decreases s.len(),
{
    if s.len() == 0 {
        0
    } else if s.first() == c {
        0
    } else {
        1 + find_char_in(s.drop_first(), c)
    }
}

/// `find_char_in` is pinned by the facts a left-to-right scan gathers.
pub proof fn lemma_find_char_in_at(s: Seq<char>, c: char, i: int)
    requires
        0 <= i <= s.len(),
        forall|k: int| 0 <= k < i ==> s[k] != c,
        i < s.len() ==> s[i] == c,
    ensures
        find_char_in(s, c) == i,
    decreases i,
{
    if i > 0 {
        lemma_find_char_in_at(s.drop_first(), c, i - 1);
    }
}

/// The key/value pair a line contributes: the line split at its first `=`,
/// both sides trimmed. A line without `=` contributes nothing.
pub open spec fn line_kv(line: Seq<char>) -> Option<(Seq<char>, Seq<char>)> {
    let p = find_char_in(line, '=');
    if p == line.len() {
        None
    } else {
        Some((spec_trim(line.take(p)), spec_trim(line.skip(p + 1))))
    }
}

/// The key of a `key=value` line, if the line has one.
pub open spec fn line_key(line: Seq<char>) -> Option<Seq<char>> {
    match line_kv(line) {
        Some(kv) => Some(kv.0),
        None => None,
    }
}

/// A line whose trimmed text is exactly the `[Desktop Entry]` header.
pub open spec fn is_header_line(line: Seq<char>) -> bool {
    spec_trim(line) == "[Desktop Entry]"@
}

/// A line that opens a group: its trimmed text begins with `[`.
pub open spec fn starts_group(line: Seq<char>) -> bool {
    spec_trim(line).len() > 0 && spec_trim(line).first() == '['
}

/// The scanner's state over the lines of a desktop file.
#[derive(Clone, Copy, Debug, PartialEq, Eq, Structural)]
pub enum ScanState {
    /// Before the `[Desktop Entry]` header.
    Seeking,
    /// Inside the `[Desktop Entry]` group.
    InEntry,
    /// After the group: a later group header was seen.
    Stopped,
}

/// The state after the scanner consumes one line.
pub open spec fn scan_step(st: ScanState, line: Seq<char>) -> ScanState {
    match st {
        ScanState::Seeking => if is_header_line(line) {
            ScanState::InEntry
        } else {
            ScanState::Seeking
        },
        ScanState::InEntry => if starts_group(line) {
            ScanState::Stopped
        } else {
            ScanState::InEntry
        },
        ScanState::Stopped => ScanState::Stopped,
    }
}

/// The pair one line adds to the map: only lines of the entry group that are
/// not group headers contribute.
pub open spec fn line_contrib(st: ScanState, line: Seq<char>) -> Option<(Seq<char>, Seq<char>)> {
    if st == ScanState::InEntry && !starts_group(line) {
        line_kv(line)
    } else {
        None
    }
}

/// The map the scanner accumulates over `lines`, started in state `st`.
/// A pair is kept only if no later line overwrites its key.
pub open spec fn scan_from(st: ScanState, lines: Seq<Seq<char>>) -> Map<Seq<char>, Seq<char>>
    decreases lines.len(),
{
    if lines.len() == 0 {
        Map::empty()
    } else {
        let rest = scan_from(scan_step(st, lines.first()), lines.drop_first());
        match line_contrib(st, lines.first()) {
            Some(kv) => if rest.contains_key(kv.0) {
                rest
            } else {
                rest.insert(kv.0, kv.1)
            },
            None => rest,
        }
    }
}

/// The key/value pairs of the `[Desktop Entry]` group of these lines.
pub open spec fn spec_parse_lines(lines: Seq<Seq<char>>) -> Map<Seq<char>, Seq<char>> {
    scan_from(ScanState::Seeking, lines)
}

/// The key/value pairs of the `[Desktop Entry]` group of this text.
pub open spec fn spec_parse(content: Seq<char>) -> Map<Seq<char>, Seq<char>> {
    spec_parse_lines(spec_lines(content))
}

/// Index of the first `[Desktop Entry]` header line, or `lines.len()` if
/// there is none.
pub open spec fn first_header(lines: Seq<Seq<char>>) -> int
    decreases lines.len(),
{
    if lines.len() == 0 {
        0
    } else if is_header_line(lines.first()) {
        0
    } else {
        1 + first_header(lines.drop_first())
    }
}

/// Index of the first group-opening line, or `lines.len()` if there is none.
pub open spec fn first_group_start(lines: Seq<Seq<char>>) -> int
    decreases lines.len(),
{
    if lines.len() == 0 {
        0
    } else if starts_group(lines.first()) {
        0
    } else {
        1 + first_group_start(lines.drop_first())
    }
}

pub proof fn lemma_first_header_props(lines: Seq<Seq<char>>)
    ensures
        0 <= first_header(lines) <= lines.len(),
        first_header(lines) < lines.len() ==> is_header_line(lines[first_header(lines)]),
        forall|k: int| 0 <= k < first_header(lines) ==> !is_header_line(lines[k]),
    decreases lines.len(),
{
    if lines.len() != 0 && !is_header_line(lines.first()) {
        lemma_first_header_props(lines.drop_first());
        assert forall|k: int| 0 <= k < first_header(lines) implies !is_header_line(lines[k]) by {
            if k > 0 {
                assert(lines.drop_first()[k - 1] == lines[k]);
            }
        }
    }
}

pub proof fn lemma_first_group_start_props(lines: Seq<Seq<char>>)
    ensures
        0 <= first_group_start(lines) <= lines.len(),
        first_group_start(lines) < lines.len() ==> starts_group(lines[first_group_start(lines)]),
        forall|k: int| 0 <= k < first_group_start(lines) ==> !starts_group(lines[k]),
    decreases lines.len(),
{
    if lines.len() != 0 && !starts_group(lines.first()) {
        lemma_first_group_start_props(lines.drop_first());
        assert forall|k: int| 0 <= k < first_group_start(lines) implies !starts_group(lines[k]) by {
            if k > 0 {
                assert(lines.drop_first()[k - 1] == lines[k]);
            }
        }
    }
}

/// The lines strictly between the `[Desktop Entry]` header and the next
/// group-opening line (or the end of the text).
pub open spec fn entry_span(lines: Seq<Seq<char>>) -> Seq<Seq<char>> {
    if first_header(lines) == lines.len() {
        Seq::empty()
    } else {
        let rest = lines.skip(first_header(lines) + 1);
        rest.take(first_group_start(rest))
    }
}

/// Plain key/value accumulation over lines, with no notion of groups; a
/// later binding of a key overrides an earlier one.
pub open spec fn collect_pairs(lines: Seq<Seq<char>>) -> Map<Seq<char>, Seq<char>>
    decreases lines.len(),
{
    if lines.len() == 0 {
        Map::empty()
    } else {
        let rest = collect_pairs(lines.drop_first());
        match line_kv(lines.first()) {
            Some(kv) => if rest.contains_key(kv.0) {
                rest
            } else {
                rest.insert(kv.0, kv.1)
            },
            None => rest,
        }
    }
}

proof fn lemma_scan_stopped(lines: Seq<Seq<char>>)
    ensures
        scan_from(ScanState::Stopped, lines) == Map::<Seq<char>, Seq<char>>::empty(),
    decreases lines.len(),
{
    if lines.len() != 0 {
        lemma_scan_stopped(lines.drop_first());
    }
}

proof fn lemma_scan_in_entry(lines: Seq<Seq<char>>)
    ensures
        scan_from(ScanState::InEntry, lines) == collect_pairs(
            lines.take(first_group_start(lines)),
        ),
    decreases lines.len(),
{
    lemma_first_group_start_props(lines);
    if lines.len() == 0 {
        assert(lines.take(0) =~= Seq::<Seq<char>>::empty());
    } else if starts_group(lines.first()) {
        lemma_scan_stopped(lines.drop_first());
        assert(lines.take(0) =~= Seq::<Seq<char>>::empty());
    } else {
        lemma_scan_in_entry(lines.drop_first());
        let fg = first_group_start(lines);
        let pre = lines.take(fg);
        assert(pre.first() == lines.first());
        assert(pre.drop_first() =~= lines.drop_first().take(fg - 1));
    }
}

proof fn lemma_scan_seeking(lines: Seq<Seq<char>>)
    ensures
        scan_from(ScanState::Seeking, lines) == (if first_header(lines) == lines.len() {
            Map::<Seq<char>, Seq<char>>::empty()
        } else {
            scan_from(ScanState::InEntry, lines.skip(first_header(lines) + 1))
        }),
    decreases lines.len(),
{
    lemma_first_header_props(lines);
    if lines.len() == 0 {
    } else if is_header_line(lines.first()) {
        assert(lines.skip(1) =~= lines.drop_first());
    } else {
        lemma_scan_seeking(lines.drop_first());
        lemma_first_header_props(lines.drop_first());
        if first_header(lines) < lines.len() {
            assert(lines.drop_first().skip(first_header(lines.drop_first()) + 1) =~= lines.skip(
                first_header(lines) + 1,
            ));
        }
    }
}

/// The parser reads only the entry span: its result over any text is
/// exactly the key/value accumulation of the lines strictly between the
/// `[Desktop Entry]` header and the next group header (or the end of the
/// text). Lines outside that span never contribute.
pub proof fn lemma_parse_reads_entry_span_only(lines: Seq<Seq<char>>)
    ensures
        spec_parse_lines(lines) == collect_pairs(entry_span(lines)),
{
    lemma_scan_seeking(lines);
    lemma_first_header_props(lines);
    if first_header(lines) != lines.len() {
        lemma_scan_in_entry(lines.skip(first_header(lines) + 1));
    }
}

proof fn lemma_collect_keys(lines: Seq<Seq<char>>, k: Seq<char>)
    requires
        collect_pairs(lines).contains_key(k),
    ensures
        exists|i: int| 0 <= i < lines.len() && line_key(lines[i]) == Some(k),
    decreases lines.len(),
{
    let rest = collect_pairs(lines.drop_first());
    if rest.contains_key(k) {
        lemma_collect_keys(lines.drop_first(), k);
        let j = choose|j: int|
            0 <= j < lines.drop_first().len() && line_key(lines.drop_first()[j]) == Some(k);
        assert(lines.drop_first()[j] == lines[j + 1]);
        assert(0 <= j + 1 < lines.len() && line_key(lines[j + 1]) == Some(k));
    } else {
        assert(line_key(lines.first()) == Some(k));
        assert(lines[0] == lines.first());
    }
}

/// Every key the parser returns is the key of some `key=value` line inside
/// the entry span; a textually identical line outside the span yields none.
pub proof fn lemma_parse_keys_have_source(lines: Seq<Seq<char>>, k: Seq<char>)
    requires
        spec_parse_lines(lines).contains_key(k),
    ensures
        exists|i: int|
            0 <= i < entry_span(lines).len() && line_key(entry_span(lines)[i]) == Some(k),
{
    lemma_parse_reads_entry_span_only(lines);
    lemma_collect_keys(entry_span(lines), k);
}

/// The key/value pairs of one desktop entry group, viewed as a map from key
/// to value.
pub struct DesktopMap {
    pairs: Vec<(String, String)>,
}

/// The map described by an association list; a later pair with the same key
/// overrides an earlier one.
pub closed spec fn map_of_pairs(ps: Seq<(String, String)>) -> Map<Seq<char>, Seq<char>>
    decreases ps.len(),
{
    if ps.len() == 0 {
        Map::empty()
    } else {
        map_of_pairs(ps.drop_last()).insert(ps.last().0@, ps.last().1@)
    }
}

impl View for DesktopMap {
    type V = Map<Seq<char>, Seq<char>>;

    closed spec fn view(&self) -> Map<Seq<char>, Seq<char>> {
        map_of_pairs(self.pairs@)
    }
}

proof fn lemma_map_of_pairs_skip_misses(ps: Seq<(String, String)>, k: Seq<char>, j: int)
    requires
        0 <= j <= ps.len(),
        forall|t: int| j <= t < ps.len() ==> ps[t].0@ != k,
    ensures
        map_of_pairs(ps).contains_key(k) == map_of_pairs(ps.take(j)).contains_key(k),
        map_of_pairs(ps).contains_key(k) ==> map_of_pairs(ps)[k] == map_of_pairs(ps.take(j))[k],
    decreases ps.len(),
{
    if j == ps.len() {
        assert(ps.take(j) =~= ps);
    } else {
        assert(ps.last().0@ != k);
        lemma_map_of_pairs_skip_misses(ps.drop_last(), k, j);
        assert(ps.drop_last().take(j) =~= ps.take(j));
    }
}

impl DesktopMap {
    /// An empty map.
    pub fn new() -> (m: DesktopMap)
        ensures
            m@ == Map::<Seq<char>, Seq<char>>::empty(),
    {
        DesktopMap { pairs: Vec::new() }
    }

    /// Bind `k` to `v`, overriding any earlier binding of `k`.
    pub fn insert(&mut self, k: String, v: String)
        ensures
            final(self)@ == old(self)@.insert(k@, v@),
    {
        let ghost before = self.pairs@;
        self.pairs.push((k, v));
        proof {
            assert(self.pairs@.drop_last() =~= before);
        }
    }

    /// Look a key up.
    pub fn get<'a>(&'a self, k: &str) -> (r: Option<&'a String>)
        ensures
            match r {
                Some(v) => self@.contains_key(k@) && v@ == self@[k@],
                None => !self@.contains_key(k@),
            },
    {
        let n = self.pairs.len();
        let mut j = n;
        while j > 0
            invariant
                j <= n,
                n == self.pairs.len(),
                forall|t: int| j <= t < n ==> self.pairs@[t].0@ != k@,
            decreases j,
        {
            j -= 1;
            if str_eq(self.pairs[j].0.as_str(), k) {
                proof {
                    lemma_map_of_pairs_skip_misses(self.pairs@, k@, j + 1);
                    assert(self.pairs@.take(j + 1).drop_last() =~= self.pairs@.take(j as int));
                    assert(self.pairs@.take(j + 1).last() == self.pairs@[j as int]);
                }
                return Some(&self.pairs[j].1);
            }
        }
        proof {
            lemma_map_of_pairs_skip_misses(self.pairs@, k@, 0);
            assert(self.pairs@.take(0) =~= Seq::<(String, String)>::empty());
        }
        None
    }
}

proof fn lemma_combine_insert(
    a: Map<Seq<char>, Seq<char>>,
    rest: Map<Seq<char>, Seq<char>>,
    k: Seq<char>,
    v: Seq<char>,
)
    ensures
        a.union_prefer_right(
            if rest.contains_key(k) {
                rest
            } else {
                rest.insert(k, v)
            },
        ) == a.insert(k, v).union_prefer_right(rest),
{
    if rest.contains_key(k) {
        assert_maps_equal!(
            a.union_prefer_right(rest),
            a.insert(k, v).union_prefer_right(rest)
        );
    } else {
        assert_maps_equal!(
            a.union_prefer_right(rest.insert(k, v)),
            a.insert(k, v).union_prefer_right(rest)
        );
    }
}

/// Extract the key/value pairs of the `[Desktop Entry]` group of `content`.
/// The parse is total: text without the header yields an empty map.
pub fn parse_desktop_file(content: &str) -> (m: DesktopMap)
    ensures
        m@ == spec_parse(content@),
{
    let lines = split_lines(content);
    let ghost ls = lines.deep_view();
    let mut st = ScanState::Seeking;
    let mut m = DesktopMap::new();
    let mut i: usize = 0;
    proof {
        assert(ls.skip(0) =~= ls);
        assert_maps_equal!(
            Map::<Seq<char>, Seq<char>>::empty().union_prefer_right(scan_from(ScanState::Seeking, ls)),
            scan_from(ScanState::Seeking, ls)
        );
    }
    while i < lines.len()
        invariant
            i <= lines.len(),
            ls == lines.deep_view(),
            spec_parse_lines(ls) == m@.union_prefer_right(scan_from(st, ls.skip(i as int))),
        decreases lines.len() - i,
    {
        let line = lines[i];
        let ghost lv = ls.skip(i as int);
        proof {
            assert(lv.first() == line@);
            assert(lv.drop_first() =~= ls.skip(i as int + 1));
        }
        let t = trim_str(line);
        match st {
            ScanState::Seeking => {
                if str_eq(t, "[Desktop Entry]") {
                    st = ScanState::InEntry;
                }
            },
            ScanState::InEntry => {
                if t.unicode_len() > 0 && t.get_char(0) == '[' {
                    st = ScanState::Stopped;
                } else {
                    // split the raw line at its first `=`, if any
                    let n = line.unicode_len();
                    let mut p: usize = 0;
                    while p < n && !(line.get_char(p) == '=')
                        invariant
                            n == line@.len(),
                            p <= n,
                            forall|k: int| 0 <= k < p ==> line@[k] != '=',
                        decreases n - p,
                    {
                        p += 1;
                    }
                    proof {
                        lemma_find_char_in_at(line@, '=', p as int);
                    }
                    if p < n {
                        let k = trim_str(line.substring_char(0, p));
                        let v = trim_str(line.substring_char(p + 1, n));
                        proof {
                            assert(line@.subrange(0, p as int) =~= line@.take(p as int));
                            assert(line@.subrange(p as int + 1, n as int) =~= line@.skip(
                                p as int + 1,
                            ));
                            lemma_combine_insert(
                                m@,
                                scan_from(scan_step(st, lv.first()), lv.drop_first()),
                                k@,
                                v@,
                            );
                        }
                        m.insert(k.to_owned(), v.to_owned());
                    }
                }
            },
            ScanState::Stopped => {},
        }
        i += 1;
    }
    proof {
        assert(ls.skip(lines.len() as int).len() == 0);
        assert_maps_equal!(
            m@.union_prefer_right(Map::<Seq<char>, Seq<char>>::empty()),
            m@
        );
    }
    m
}

} // verus!
