//! The summary that a preview run prints with statistics switched on:
//! `label: value` lines, of which `Number of files` is broken down further,
//! and the closing `total size is ... speedup is ... (...)` line.
use vstd::prelude::*;
use vstd::string::StrSliceExecFns;
use crate::text::{
    find_char, find_from, grouped_number, grouped_u64, is_space, number_end, scan_number,
    skip_spaces, skip_ws, text_at, text_at_exec, trim_end_at, trim_end_from,
};

verus! {

pub type Entry = (Seq<char>, Seq<char>);

pub open spec fn key_files() -> Seq<char> {
    "Number of files"@
}

pub open spec fn key_total() -> Seq<char> {
    "Number of files (total)"@
}

pub open spec fn key_regular() -> Seq<char> {
    "Number of files (regular)"@
}

pub open spec fn key_directories() -> Seq<char> {
    "Number of files (directories)"@
}

pub open spec fn key_links() -> Seq<char> {
    "Number of files (links)"@
}

pub open spec fn key_total_size() -> Seq<char> {
    "Total size (summary)"@
}

pub open spec fn key_speedup() -> Seq<char> {
    "Speedup"@
}

pub open spec fn key_run_type() -> Seq<char> {
    "Run type"@
}

/// The breakdown `TOTAL (reg: REG, dir: DIR[, link: LINK])` of the
/// `Number of files` value; nothing where the value has another shape.
pub open spec fn files_entries(v: Seq<char>) -> Seq<Entry> {
    let e1 = number_end(v, 0);
    let p1 = skip_ws(v, e1);
    let p2 = skip_ws(v, p1 + 5);
    let e2 = number_end(v, p2);
    let p3 = skip_ws(v, e2 + 1);
    let p4 = skip_ws(v, p3 + 4);
    let e4 = number_end(v, p4);
    let has_link = text_at(v, e4, ","@);
    let p5 = skip_ws(v, e4 + 1);
    let p6 = skip_ws(v, p5 + 5);
    let e6 = number_end(v, p6);
    let close = if has_link {
        skip_ws(v, e6)
    } else {
        skip_ws(v, e4)
    };
    let head_ok = e1 > 0 && p1 > e1 && text_at(v, p1, "(reg:"@) && e2 > p2 && text_at(v, e2, ","@)
        && text_at(v, p3, "dir:"@) && e4 > p4;
    let link_ok = !has_link || (text_at(v, p5, "link:"@) && e6 > p6);
    if head_ok && link_ok && close + 1 == v.len() && text_at(v, close, ")"@) {
        let base = seq![
            (key_total(), v.subrange(0, e1)),
            (key_regular(), v.subrange(p2, e2)),
            (key_directories(), v.subrange(p4, e4)),
        ];
        if has_link {
            base.push((key_links(), v.subrange(p6, e6)))
        } else {
            base
        }
    } else {
        seq![]
    }
}

/// The closing line `total size is SIZE  speedup is SPEEDUP  (TYPE)`,
/// already trimmed; nothing where the line has another shape.
pub open spec fn total_entries(t: Seq<char>) -> Seq<Entry> {
    let e1 = number_end(t, 14);
    let p1 = skip_ws(t, e1);
    let p2 = p1 + 11;
    let e2 = number_end(t, p2);
    let p3 = skip_ws(t, e2);
    if text_at(t, 0, "total size is "@) && e1 > 14 && p1 > e1 && text_at(t, p1, "speedup is "@)
        && e2 > p2 && p3 > e2 && text_at(t, p3, "("@) && p3 + 2 <= t.len() && t.last() == ')' {
        seq![
            (key_total_size(), t.subrange(14, e1)),
            (key_speedup(), t.subrange(p2, e2)),
            (key_run_type(), t.subrange(p3 + 1, t.len() - 1)),
        ]
    } else {
        seq![]
    }
}

/// What one line contributes: a trimmed `label: value` pair (split at the
/// first colon after the label's first character), the breakdown of
/// `Number of files`, or the closing totals line.
pub open spec fn line_entries(l: Seq<char>) -> Seq<Entry> {
    let a = skip_ws(l, 0);
    let z = trim_end_at(l, l.len() as int);
    if a >= z {
        seq![]
    } else {
        let colon = find_from(l, ':', a + 1, z);
        if colon < z {
            let key = l.subrange(a, trim_end_at(l, colon));
            let vs = skip_ws(l, colon + 1);
            let value = if vs < z {
                l.subrange(vs, z)
            } else {
                seq![]
            };
            if key == key_files() {
                files_entries(value)
            } else {
                seq![(key, value)]
            }
        } else {
            total_entries(l.subrange(a, z))
        }
    }
}

/// Entries of the lines from position `i` on, in order.
pub open spec fn entries_from(s: Seq<char>, i: int) -> Seq<Entry>
    decreases s.len() - i,
{
    let e = find_from(s, '\n', i, s.len() as int);
    if 0 <= i <= e < s.len() {
        line_entries(s.subrange(i, e)) + entries_from(s, e + 1)
    } else if 0 <= i < s.len() {
        line_entries(s.subrange(i, s.len() as int))
    } else {
        seq![]
    }
}

/// What a summary text yields, entry by entry; a later entry for a label
/// replaces an earlier one.
pub open spec fn summary_entries(s: Seq<char>) -> Seq<Entry> {
    entries_from(s, 0)
}

/// The mapping that a list of entries describes.
pub open spec fn entries_map(log: Seq<Entry>) -> Map<Seq<char>, Seq<char>>
    decreases log.len(),
{
    if log.len() == 0 {
        Map::empty()
    } else {
        entries_map(log.drop_last()).insert(log.last().0, log.last().1)
    }
}

pub open spec fn entries_view(v: Seq<(String, String)>) -> Seq<Entry> {
    v.map_values(|p: (String, String)| (p.0@, p.1@))
}

/// Statistics of a preview run, label to value.
pub struct RsyncStats {
    entries: Vec<(String, String)>,
}

impl View for RsyncStats {
    type V = Seq<Entry>;

    closed spec fn view(&self) -> Seq<Entry> {
        entries_view(self.entries@)
    }
}

proof fn lemma_trim_end_above(s: Seq<char>, j: int, a: int)
    requires
        0 <= a < j <= s.len(),
        !is_space(s[a]),
    ensures
        a < trim_end_at(s, j) <= j,
    decreases j,
{
    if is_space(s[j - 1]) {
        lemma_trim_end_above(s, j - 1, a);
    }
}

proof fn lemma_skip_ws_lands(s: Seq<char>, i: int)
    requires
        0 <= i <= s.len(),
        skip_ws(s, i) < s.len(),
    ensures
        !is_space(s[skip_ws(s, i)]),
    decreases s.len() - i,
{
    if i < s.len() && is_space(s[i]) {
        lemma_skip_ws_lands(s, i + 1);
    }
}

fn pair(k: &str, v: &str) -> (r: (String, String))
    ensures
        r.0@ == k@,
        r.1@ == v@,
{
    (k.to_owned(), v.to_owned())
}

fn files_entries_exec(v: &str) -> (r: Vec<(String, String)>)
    ensures
        entries_view(r@) == files_entries(v@),
{
    proof {
        reveal_strlit("(reg:");
        reveal_strlit(",");
        reveal_strlit("dir:");
        reveal_strlit("link:");
        reveal_strlit(")");
    }
    let len = v.unicode_len();
    let e1 = scan_number(v, len, 0);
    let p1 = skip_spaces(v, len, e1);
    let mut r: Vec<(String, String)> = Vec::new();
    if !(e1 > 0 && p1 > e1 && text_at_exec(v, len, p1, "(reg:")) {
        assert(entries_view(r@) =~= files_entries(v@));
        return r;
    }
    let p2 = skip_spaces(v, len, p1 + 5);
    let e2 = scan_number(v, len, p2);
    if !(e2 > p2 && text_at_exec(v, len, e2, ",")) {
        assert(entries_view(r@) =~= files_entries(v@));
        return r;
    }
    let p3 = skip_spaces(v, len, e2 + 1);
    if !text_at_exec(v, len, p3, "dir:") {
        assert(entries_view(r@) =~= files_entries(v@));
        return r;
    }
    let p4 = skip_spaces(v, len, p3 + 4);
    let e4 = scan_number(v, len, p4);
    if e4 <= p4 {
        assert(entries_view(r@) =~= files_entries(v@));
        return r;
    }
    let has_link = text_at_exec(v, len, e4, ",");
    let mut close = skip_spaces(v, len, e4);
    let mut p6: usize = 0;
    let mut e6: usize = 0;
    if has_link {
        let p5 = skip_spaces(v, len, e4 + 1);
        if !text_at_exec(v, len, p5, "link:") {
            assert(entries_view(r@) =~= files_entries(v@));
            return r;
        }
        p6 = skip_spaces(v, len, p5 + 5);
        e6 = scan_number(v, len, p6);
        if e6 <= p6 {
            assert(entries_view(r@) =~= files_entries(v@));
            return r;
        }
        close = skip_spaces(v, len, e6);
    }
    if !(close < len && close + 1 == len && text_at_exec(v, len, close, ")")) {
        assert(entries_view(r@) =~= files_entries(v@));
        return r;
    }
    r.push(pair("Number of files (total)", v.substring_char(0, e1)));
    r.push(pair("Number of files (regular)", v.substring_char(p2, e2)));
    r.push(pair("Number of files (directories)", v.substring_char(p4, e4)));
    if has_link {
        r.push(pair("Number of files (links)", v.substring_char(p6, e6)));
    }
    assert(entries_view(r@) =~= files_entries(v@));
    r
}

fn total_entries_exec(t: &str) -> (r: Vec<(String, String)>)
    ensures
        entries_view(r@) == total_entries(t@),
{
    proof {
        reveal_strlit("total size is ");
        reveal_strlit("speedup is ");
        reveal_strlit("(");
    }
    let len = t.unicode_len();
    let mut r: Vec<(String, String)> = Vec::new();
    if !text_at_exec(t, len, 0, "total size is ") {
        assert(entries_view(r@) =~= total_entries(t@));
        return r;
    }
    let e1 = scan_number(t, len, 14);
    let p1 = skip_spaces(t, len, e1);
    if !(e1 > 14 && p1 > e1 && text_at_exec(t, len, p1, "speedup is ")) {
        assert(entries_view(r@) =~= total_entries(t@));
        return r;
    }
    let p2 = p1 + 11;
    let e2 = scan_number(t, len, p2);
    let p3 = skip_spaces(t, len, e2);
    if !(e2 > p2 && p3 > e2 && text_at_exec(t, len, p3, "(") && p3 < len && len - p3 >= 2 && t.get_char(len - 1)
        == ')') {
        assert(entries_view(r@) =~= total_entries(t@));
        return r;
    }
    r.push(pair("Total size (summary)", t.substring_char(14, e1)));
    r.push(pair("Speedup", t.substring_char(p2, e2)));
    r.push(pair("Run type", t.substring_char(p3 + 1, len - 1)));
    assert(entries_view(r@) =~= total_entries(t@));
    r
}

fn same_text(a: &str, b: &str) -> (r: bool)
    ensures
        r == (a@ == b@),
{
    let n = a.unicode_len();
    if n != b.unicode_len() {
        return false;
    }
    let r = text_at_exec(a, n, 0, b);
    assert(a@.subrange(0, n as int) =~= a@);
    r
}

/// The entries that one line of a summary contributes.
pub fn line_entries_exec(l: &str) -> (r: Vec<(String, String)>)
    ensures
        entries_view(r@) == line_entries(l@),
{
    let len = l.unicode_len();
    let a = skip_spaces(l, len, 0);
    let z = trim_end_from(l, len, len);
    if a >= z {
        let r: Vec<(String, String)> = Vec::new();
        assert(entries_view(r@) =~= line_entries(l@));
        return r;
    }
    proof {
        lemma_skip_ws_lands(l@, 0);
    }
    let colon = find_char(l, len, ':', a + 1, z);
    if colon < z {
        proof {
            lemma_trim_end_above(l@, colon as int, a as int);
        }
        let ke = trim_end_from(l, len, colon);
        let key = l.substring_char(a, ke);
        let vs = skip_spaces(l, len, colon + 1);
        let value = if vs < z {
            l.substring_char(vs, z)
        } else {
            ""
        };
        proof {
            reveal_strlit("");
            assert(vs >= z ==> value@ =~= Seq::<char>::empty());
        }
        if same_text(key, "Number of files") {
            files_entries_exec(value)
        } else {
            let mut r: Vec<(String, String)> = Vec::new();
            r.push(pair(key, value));
            assert(entries_view(r@) =~= line_entries(l@));
            r
        }
    } else {
        total_entries_exec(l.substring_char(a, z))
    }
}

/// Reads the statistics out of a preview run's output. Lines of other
/// shapes are passed over.
pub fn parse_rsync_stats(text: &str) -> (r: RsyncStats)
    ensures
        r@ == summary_entries(text@),
{
    let len = text.unicode_len();
    let mut entries: Vec<(String, String)> = Vec::new();
    let mut i: usize = 0;
    while i < len
        invariant
            len == text@.len(),
            i <= len,
            entries_view(entries@) + entries_from(text@, i as int) == summary_entries(text@),
        decreases len - i,
    {
        let e = find_char(text, len, '\n', i, len);
        let mut got = line_entries_exec(text.substring_char(i, e));
        let ghost before = entries@;
        let ghost added = got@;
        entries.append(&mut got);
        assert(entries_view(entries@) =~= entries_view(before) + entries_view(added));
        if e < len {
            assert(entries_from(text@, i as int) == entries_view(added) + entries_from(
                text@,
                e + 1,
            ));
            i = e + 1;
        } else {
            assert(entries_from(text@, len as int) =~= Seq::<Entry>::empty());
            i = len;
        }
    }
    assert(entries_from(text@, i as int) =~= Seq::<Entry>::empty());
    RsyncStats { entries }
}

impl RsyncStats {
    /// The value stored for `key`, if any.
    pub fn get(&self, key: &str) -> (r: Option<String>)
        ensures
            r is Some <==> entries_map(self@).contains_key(key@),
            r is Some ==> r->0@ == entries_map(self@)[key@],
    {
        let ghost log = self@;
        let mut j = self.entries.len();
        assert(log.subrange(0, j as int) =~= log);
        while j > 0
            invariant
                j <= self.entries@.len(),
                log == entries_view(self.entries@),
                entries_map(log).contains_key(key@) == entries_map(log.subrange(0, j as int)).contains_key(key@),
                entries_map(log).contains_key(key@) ==> entries_map(log)[key@] == entries_map(
                    log.subrange(0, j as int),
                )[key@],
            decreases j,
        {
            let ghost pre = log.subrange(0, j as int);
            assert(pre.drop_last() =~= log.subrange(0, j - 1));
            if same_text(self.entries[j - 1].0.as_str(), key) {
                return Some(self.entries[j - 1].1.clone());
            }
            j = j - 1;
        }
        assert(log.subrange(0, 0) =~= Seq::<Entry>::empty());
        None
    }

    /// The count of regular files, the number of units a transfer has to
    /// work through.
    pub fn regular_file_count(&self) -> (r: Option<u64>)
        ensures
            r == (if entries_map(self@).contains_key(key_regular()) {
                grouped_u64(entries_map(self@)[key_regular()])
            } else {
                None
            }),
    {
        match self.get("Number of files (regular)") {
            Some(v) => grouped_number(v.as_str()),
            None => None,
        }
    }

    /// Number of entries held, a later one for a label counting too.
    pub fn len(&self) -> (r: usize)
        ensures
            r == self@.len(),
    {
        self.entries.len()
    }
}

} // verus!
