//! Unified-diff parsing: a single left-to-right scan over the lines of a
//! patch turns raw diff text into one record per `diff --git` header, with
//! added/removed line counts and the raw text of each hunk.

use vstd::prelude::*;

verus! {

use vstd::string::*;
use crate::text::{
    has_prefix, starts_with, spec_lines, split_lines, is_first_occurrence, has_occurrence,
    first_occurrence, lemma_first_occurrence, find_sub, push_char,
};

/// One file's section of a unified diff: the path named by the header, the
/// number of added and removed lines, and the raw text of each hunk.
#[derive(Debug, Clone)]
pub struct DiffFile {
    pub path: String,
    pub added_lines: usize,
    pub removed_lines: usize,
    pub hunks: Vec<String>,
}

/// Mathematical model of a `DiffFile`.
#[verifier::ext_equal]
pub struct FileModel {
    pub path: Seq<char>,
    pub added_lines: int,
    pub removed_lines: int,
    pub hunks: Seq<Seq<char>>,
}

impl View for DiffFile {
    type V = FileModel;

    open spec fn view(&self) -> FileModel {
        FileModel {
            path: self.path@,
            added_lines: self.added_lines as int,
            removed_lines: self.removed_lines as int,
            hunks: self.hunks.deep_view(),
        }
    }
}

impl DeepView for DiffFile {
    type V = FileModel;

    open spec fn deep_view(&self) -> FileModel {
        self@
    }
}

/// Old-file and new-file marker lines carry no count information and are
/// skipped outright.
pub open spec fn is_skip_line(l: Seq<char>) -> bool {
    has_prefix(l, "--- "@) || has_prefix(l, "+++ "@)
}

/// A `diff --git` header starts a new file section.
pub open spec fn is_header_line(l: Seq<char>) -> bool {
    has_prefix(l, "diff --git "@)
}

/// An `@@` range marker closes the current hunk and opens the next one.
pub open spec fn is_hunk_marker(l: Seq<char>) -> bool {
    has_prefix(l, "@@"@)
}

/// A line counted as an addition: starts with `+` but is not a new-file
/// marker.
pub open spec fn is_add_line(l: Seq<char>) -> bool {
    l.len() > 0 && l[0] == '+' && !has_prefix(l, "+++"@)
}

/// A line counted as a removal: starts with `-` but is not an old-file
/// marker.
pub open spec fn is_remove_line(l: Seq<char>) -> bool {
    l.len() > 0 && l[0] == '-' && !has_prefix(l, "---"@)
}

/// The path taken from a header line: the text between the first ` b/`
/// separator and the next one (or the end of the line), or `unknown` when no
/// separator is present.
pub open spec fn header_path(l: Seq<char>) -> Seq<char> {
    let pat = " b/"@;
    if !has_occurrence(l, pat) {
        "unknown"@
    } else {
        let i = first_occurrence(l, pat);
        let rest = l.subrange(i + pat.len(), l.len() as int);
        if !has_occurrence(rest, pat) {
            rest
        } else {
            rest.subrange(0, first_occurrence(rest, pat))
        }
    }
}

/// The scanner's intermediate state: completed records, the record in
/// progress, and the text of the hunk in progress.
#[verifier::ext_equal]
pub struct ScanState {
    pub files: Seq<FileModel>,
    pub cur: Option<FileModel>,
    pub hunk: Seq<char>,
}

pub open spec fn init_state() -> ScanState {
    ScanState { files: Seq::empty(), cur: None, hunk: Seq::empty() }
}

/// Closes the record in progress: a non-empty hunk in progress joins its
/// hunk list, and the record joins the completed ones.
pub open spec fn flush_file(st: ScanState) -> Seq<FileModel> {
    match st.cur {
        None => st.files,
        Some(f) => st.files.push(
            FileModel {
                path: f.path,
                added_lines: f.added_lines,
                removed_lines: f.removed_lines,
                hunks: if st.hunk.len() > 0 {
                    f.hunks.push(st.hunk)
                } else {
                    f.hunks
                },
            },
        ),
    }
}

/// How one line of the diff advances the scanner.
pub open spec fn step(st: ScanState, l: Seq<char>) -> ScanState {
    if is_skip_line(l) {
        st
    } else if is_header_line(l) {
        ScanState {
            files: flush_file(st),
            cur: Some(
                FileModel { path: header_path(l), added_lines: 0, removed_lines: 0, hunks: Seq::empty() },
            ),
            hunk: Seq::empty(),
        }
    } else {
        match st.cur {
            None => st,
            Some(f) => {
                if is_hunk_marker(l) {
                    ScanState {
                        files: st.files,
                        cur: Some(
                            FileModel {
                                path: f.path,
                                added_lines: f.added_lines,
                                removed_lines: f.removed_lines,
                                hunks: if st.hunk.len() > 0 {
                                    f.hunks.push(st.hunk)
                                } else {
                                    f.hunks
                                },
                            },
                        ),
                        hunk: l + seq!['\n'],
                    }
                } else {
                    ScanState {
                        files: st.files,
                        cur: Some(
                            FileModel {
                                path: f.path,
                                added_lines: f.added_lines + (if is_add_line(l) {
                                    1int
                                } else {
                                    0int
                                }),
                                removed_lines: f.removed_lines + (if is_remove_line(l) {
                                    1int
                                } else {
                                    0int
                                }),
                                hunks: f.hunks,
                            },
                        ),
                        hunk: st.hunk + l + seq!['\n'],
                    }
                }
            },
        }
    }
}

/// The scanner folded over a sequence of lines.
pub open spec fn scan(lines: Seq<Seq<char>>) -> ScanState
    decreases lines.len(),
{
    if lines.len() == 0 {
        init_state()
    } else {
        step(scan(lines.drop_last()), lines.last())
    }
}

/// What `parse_diff` returns: the scanner run over the lines of the input,
/// with the final record flushed.
pub open spec fn spec_parse_diff(s: Seq<char>) -> Seq<FileModel> {
    flush_file(scan(spec_lines(s)))
}

/// Extracts the path from a header line, proved against `header_path`.
fn header_path_of(line: &str) -> (r: String)
    ensures
        r@ == header_path(line@),
{
    let pat = " b/";
    proof {
        reveal_strlit(" b/");
    }
    match find_sub(line, pat) {
        None => {
            let r = String::from_str("unknown");
            proof {
                assert(r@ == header_path(line@));
            }
            r
        },
        Some(i) => {
            proof {
                lemma_first_occurrence(line@, pat@, i as int);
            }
            let n = line.unicode_len();
            let rest = line.substring_char(i + 3, n);
            match find_sub(rest, pat) {
                None => String::from_str(rest),
                Some(k) => {
                    proof {
                        lemma_first_occurrence(rest@, pat@, k as int);
                    }
                    String::from_str(rest.substring_char(0, k))
                },
            }
        },
    }
}

/// Parses unified diff text into one record per `diff --git` header, in
/// first-seen order. Never fails: malformed input degrades to partial or
/// empty output.
pub fn parse_diff(raw: &str) -> (files: Vec<DiffFile>)
    ensures
        files.deep_view() == spec_parse_diff(raw@),
{
    let lines = split_lines(raw);
    let ghost lv = lines.deep_view();
    let mut files: Vec<DiffFile> = Vec::new();
    let mut current: Option<DiffFile> = None;
    let mut current_hunk = String::new();
    let n = lines.len();
    let mut j: usize = 0;
    proof {
        assert(lv.take(0) =~= Seq::<Seq<char>>::empty());
    }
    while j < n
        invariant
            0 <= j <= n,
            n == lines.len(),
            lines.deep_view() == lv,
            lv == spec_lines(raw@),
            files.deep_view() == scan(lv.take(j as int)).files,
            current.deep_view() == scan(lv.take(j as int)).cur,
            current_hunk@ == scan(lv.take(j as int)).hunk,
            current matches Some(f) ==> f.added_lines <= j && f.removed_lines <= j,
        decreases n - j,
    {
        let ghost st = scan(lv.take(j as int));
        proof {
            assert(lv.take(j + 1).drop_last() =~= lv.take(j as int));
            assert(lv.take(j + 1).last() == lv[j as int]);
            assert(scan(lv.take(j + 1)) == step(st, lv[j as int]));
        }
        let line = &lines[j];
        let ls = line.as_str();
        proof {
            assert(lv[j as int] == lines@[j as int].deep_view());
            assert(ls@ == lv[j as int]);
        }
        if starts_with(ls, "--- ") || starts_with(ls, "+++ ") {
            // marker lines carry nothing the scan uses
        } else if starts_with(ls, "diff --git ") {
            let prev = current;
            if let Some(mut f) = prev {
                if !current_hunk.as_str().is_empty() {
                    let h = current_hunk;
                    current_hunk = String::new();
                    f.hunks.push(h);
                    proof {
                        assert(f.hunks.deep_view() =~= scan(lv.take(j + 1)).files.last().hunks);
                    }
                }
                files.push(f);
            }
            current_hunk = String::new();
            let path = header_path_of(ls);
            current = Some(DiffFile { path, added_lines: 0, removed_lines: 0, hunks: Vec::new() });
            proof {
                assert(files.deep_view() =~= scan(lv.take(j + 1)).files);
                assert(current.deep_view() == scan(lv.take(j + 1)).cur);
            }
        } else {
            let cur0 = current;
            current = None;
            match cur0 {
                None => {
                    proof {
                        assert(scan(lv.take(j + 1)) == st);
                    }
                },
                Some(mut f) => {
                    if starts_with(ls, "@@") {
                        if !current_hunk.as_str().is_empty() {
                            let h = current_hunk;
                            current_hunk = String::new();
                            f.hunks.push(h);
                        }
                    } else if starts_with_plus(ls) && !starts_with(ls, "+++") {
                        f.added_lines += 1;
                    } else if starts_with_minus(ls) && !starts_with(ls, "---") {
                        f.removed_lines += 1;
                    }
                    current_hunk.append(ls);
                    push_char(&mut current_hunk, '\n');
                    proof {
                        if is_hunk_marker(ls@) {
                            assert(current_hunk@ =~= scan(lv.take(j + 1)).hunk);
                            assert(f.hunks.deep_view() =~= scan(lv.take(j + 1)).cur->0.hunks);
                        } else {
                            assert(current_hunk@ =~= scan(lv.take(j + 1)).hunk);
                        }
                    }
                    current = Some(f);
                    proof {
                        assert(current.deep_view() == scan(lv.take(j + 1)).cur);
                    }
                },
            }
        }
        j += 1;
    }
    proof {
        assert(lv.take(n as int) =~= lv);
    }
    if let Some(mut f) = current {
        if !current_hunk.as_str().is_empty() {
            f.hunks.push(current_hunk);
            proof {
                assert(f.hunks.deep_view() =~= spec_parse_diff(raw@).last().hunks);
            }
        }
        files.push(f);
    }
    proof {
        assert(files.deep_view() =~= spec_parse_diff(raw@));
    }
    files
}

/// The number of `diff --git` header lines in `lines`.
pub open spec fn count_headers(lines: Seq<Seq<char>>) -> int
    decreases lines.len(),
{
    if lines.len() == 0 {
        0
    } else {
        count_headers(lines.drop_last()) + if is_header_line(lines.last()) {
            1int
        } else {
            0int
        }
    }
}

/// The number of lines counted as additions.
pub open spec fn count_adds(lines: Seq<Seq<char>>) -> int
    decreases lines.len(),
{
    if lines.len() == 0 {
        0
    } else {
        count_adds(lines.drop_last()) + if is_add_line(lines.last()) {
            1int
        } else {
            0int
        }
    }
}

/// The number of lines counted as removals.
pub open spec fn count_removes(lines: Seq<Seq<char>>) -> int
    decreases lines.len(),
{
    if lines.len() == 0 {
        0
    } else {
        count_removes(lines.drop_last()) + if is_remove_line(lines.last()) {
            1int
        } else {
            0int
        }
    }
}

/// The number of `@@` range-marker lines.
pub open spec fn count_markers(lines: Seq<Seq<char>>) -> int
    decreases lines.len(),
{
    if lines.len() == 0 {
        0
    } else {
        count_markers(lines.drop_last()) + if is_hunk_marker(lines.last()) {
            1int
        } else {
            0int
        }
    }
}

/// The scanner folded over `lines`, starting from the state `st`.
pub open spec fn scan_from(st: ScanState, lines: Seq<Seq<char>>) -> ScanState
    decreases lines.len(),
{
    if lines.len() == 0 {
        st
    } else {
        step(scan_from(st, lines.drop_last()), lines.last())
    }
}

proof fn lemma_scan_is_scan_from(lines: Seq<Seq<char>>)
    ensures
        scan(lines) == scan_from(init_state(), lines),
    decreases lines.len(),
{
    if lines.len() > 0 {
        lemma_scan_is_scan_from(lines.drop_last());
    }
}

proof fn lemma_scan_from_append(st: ScanState, a: Seq<Seq<char>>, b: Seq<Seq<char>>)
    ensures
        scan_from(st, a + b) == scan_from(scan_from(st, a), b),
    decreases b.len(),
{
    if b.len() == 0 {
        assert(a + b =~= a);
    } else {
        assert((a + b).drop_last() =~= a + b.drop_last());
        assert((a + b).last() == b.last());
        lemma_scan_from_append(st, a, b.drop_last());
    }
}

proof fn lemma_scan_append(a: Seq<Seq<char>>, b: Seq<Seq<char>>)
    ensures
        scan(a + b) == scan_from(scan(a), b),
{
    lemma_scan_is_scan_from(a + b);
    lemma_scan_is_scan_from(a);
    lemma_scan_from_append(init_state(), a, b);
}

/// The number of records the scanner holds, completed or in progress.
pub open spec fn record_count(st: ScanState) -> int {
    st.files.len() + if st.cur is Some {
        1int
    } else {
        0int
    }
}

proof fn lemma_scan_header_count(lines: Seq<Seq<char>>)
    ensures
        record_count(scan(lines)) == count_headers(lines),
    decreases lines.len(),
{
    if lines.len() > 0 {
        lemma_scan_header_count(lines.drop_last());
        let l = lines.last();
        if is_skip_line(l) {
            assert(!is_header_line(l)) by {
                reveal_strlit("--- ");
                reveal_strlit("+++ ");
                reveal_strlit("diff --git ");
                if has_prefix(l, "--- "@) {
                    assert(l.subrange(0, 4)[0] == l[0]);
                    if has_prefix(l, "diff --git "@) {
                        assert(l.subrange(0, 11)[0] == l[0]);
                    }
                }
                if has_prefix(l, "+++ "@) {
                    assert(l.subrange(0, 4)[0] == l[0]);
                    if has_prefix(l, "diff --git "@) {
                        assert(l.subrange(0, 11)[0] == l[0]);
                    }
                }
            }
        }
    }
}

/// A diff with N `diff --git` header lines parses to exactly N records —
/// zero headers, zero records, whatever else the text holds.
pub proof fn lemma_parse_count_matches_headers(s: Seq<char>)
    ensures
        spec_parse_diff(s).len() == count_headers(spec_lines(s)),
{
    lemma_scan_header_count(spec_lines(s));
}

/// A skipped marker line is never counted as an addition or a removal.
proof fn lemma_skip_not_counted(l: Seq<char>)
    requires
        is_skip_line(l),
    ensures
        !is_add_line(l),
        !is_remove_line(l),
{
    reveal_strlit("--- ");
    reveal_strlit("+++ ");
    reveal_strlit("---");
    reveal_strlit("+++");
    if has_prefix(l, "--- "@) {
        assert(l.subrange(0, 4)[0] == l[0]);
        assert(l[0] == '-');
        assert(l.subrange(0, 3) =~= "---"@);
    } else {
        assert(l.subrange(0, 4)[0] == l[0]);
        assert(l[0] == '+');
        assert(l.subrange(0, 3) =~= "+++"@);
    }
}

/// An `@@` marker line is never counted as an addition or a removal.
proof fn lemma_marker_not_counted(l: Seq<char>)
    requires
        is_hunk_marker(l),
    ensures
        !is_add_line(l),
        !is_remove_line(l),
{
    reveal_strlit("@@");
    assert(l.subrange(0, 2)[0] == l[0]);
    assert(l[0] == '@');
}

/// Context lines (leading space) and `@@` markers never change a record's
/// `added_lines` or `removed_lines`.
pub proof fn lemma_neutral_line_leaves_counts(st: ScanState, l: Seq<char>)
    requires
        (l.len() > 0 && l[0] == ' ') || is_hunk_marker(l),
    ensures
        step(st, l).files == st.files,
        step(st, l).cur is Some <==> st.cur is Some,
        st.cur matches Some(f) ==> step(st, l).cur->0.added_lines == f.added_lines
            && step(st, l).cur->0.removed_lines == f.removed_lines,
{
    reveal_strlit("--- ");
    reveal_strlit("+++ ");
    reveal_strlit("diff --git ");
    reveal_strlit("@@");
    if l.len() > 0 && l[0] == ' ' {
        assert(!is_skip_line(l)) by {
            if has_prefix(l, "--- "@) {
                assert(l.subrange(0, 4)[0] == l[0]);
            }
            if has_prefix(l, "+++ "@) {
                assert(l.subrange(0, 4)[0] == l[0]);
            }
        }
        assert(!is_header_line(l)) by {
            if has_prefix(l, "diff --git "@) {
                assert(l.subrange(0, 11)[0] == l[0]);
            }
        }
        assert(!is_hunk_marker(l) ==> !is_add_line(l) && !is_remove_line(l));
        if is_hunk_marker(l) {
            assert(l.subrange(0, 2)[0] == l[0]);
        }
    } else {
        assert(l.subrange(0, 2)[0] == l[0]);
        assert(!is_skip_line(l)) by {
            if has_prefix(l, "--- "@) {
                assert(l.subrange(0, 4)[0] == l[0]);
            }
            if has_prefix(l, "+++ "@) {
                assert(l.subrange(0, 4)[0] == l[0]);
            }
        }
        assert(!is_header_line(l)) by {
            if has_prefix(l, "diff --git "@) {
                assert(l.subrange(0, 11)[0] == l[0]);
            }
        }
    }
}

proof fn lemma_scan_from_section(st: ScanState, t: Seq<Seq<char>>)
    requires
        st.cur is Some,
        forall|j: int| 0 <= j < t.len() ==> !is_header_line(#[trigger] t[j]),
    ensures
        scan_from(st, t).files == st.files,
        scan_from(st, t).cur is Some,
        scan_from(st, t).cur->0.path == st.cur->0.path,
        scan_from(st, t).cur->0.added_lines == st.cur->0.added_lines + count_adds(t),
        scan_from(st, t).cur->0.removed_lines == st.cur->0.removed_lines + count_removes(t),
    decreases t.len(),
{
    if t.len() > 0 {
        lemma_scan_from_section(st, t.drop_last());
        let l = t.last();
        if is_skip_line(l) {
            lemma_skip_not_counted(l);
        } else if is_hunk_marker(l) {
            lemma_marker_not_counted(l);
        }
    }
}

proof fn lemma_scan_from_files_stable(st: ScanState, t: Seq<Seq<char>>)
    ensures
        st.files.len() <= scan_from(st, t).files.len(),
        forall|i: int|
            0 <= i < st.files.len() ==> #[trigger] scan_from(st, t).files[i] == st.files[i],
    decreases t.len(),
{
    if t.len() > 0 {
        lemma_scan_from_files_stable(st, t.drop_last());
    }
}

/// The record a header line opens is closed with exactly the add- and
/// remove-marked line counts of its own section: for a diff whose lines are
/// `p`, then the header `h`, then a header-free section `t`, then either
/// nothing or a remainder `r` that opens with the next header, the record at
/// the position the earlier lines determine has path `header_path(h)`,
/// `count_adds(t)` added lines and `count_removes(t)` removed lines.
pub proof fn lemma_parse_section_counts(p: Seq<Seq<char>>, h: Seq<char>, t: Seq<Seq<char>>, r: Seq<Seq<char>>)
    requires
        is_header_line(h),
        forall|j: int| 0 <= j < t.len() ==> !is_header_line(#[trigger] t[j]),
        r.len() > 0 ==> is_header_line(r[0]),
    ensures
        ({
            let res = flush_file(scan(p.push(h) + t + r));
            let k = record_count(scan(p));
            &&& k < res.len()
            &&& res[k].path == header_path(h)
            &&& res[k].added_lines == count_adds(t)
            &&& res[k].removed_lines == count_removes(t)
        }),
{
    let st0 = scan(p);
    assert(p.push(h).drop_last() =~= p);
    let st1 = scan(p.push(h));
    assert(st1 == step(st0, h));
    assert(!is_skip_line(h)) by {
        reveal_strlit("--- ");
        reveal_strlit("+++ ");
        reveal_strlit("diff --git ");
        if has_prefix(h, "--- "@) {
            assert(h.subrange(0, 4)[0] == h[0]);
            assert(h.subrange(0, 11)[0] == h[0]);
        }
        if has_prefix(h, "+++ "@) {
            assert(h.subrange(0, 4)[0] == h[0]);
            assert(h.subrange(0, 11)[0] == h[0]);
        }
    }
    let k = record_count(st0);
    assert(st1.files.len() == k);
    lemma_scan_append(p.push(h), t);
    let st2 = scan(p.push(h) + t);
    lemma_scan_from_section(st1, t);
    assert(st2.files.len() == k);
    assert(st2.cur->0.added_lines == count_adds(t));
    assert(st2.cur->0.removed_lines == count_removes(t));
    assert(st2.cur->0.path == header_path(h));
    if r.len() == 0 {
        assert(p.push(h) + t + r =~= p.push(h) + t);
        let res = flush_file(st2);
        assert(res[k].added_lines == count_adds(t));
    } else {
        assert(p.push(h) + t + r =~= (p.push(h) + t) + r);
        lemma_scan_append(p.push(h) + t, r);
        assert(r =~= seq![r[0]] + r.subrange(1, r.len() as int));
        lemma_scan_from_append(st2, seq![r[0]], r.subrange(1, r.len() as int));
        let st3 = scan_from(st2, seq![r[0]]);
        assert(seq![r[0]].drop_last() =~= Seq::<Seq<char>>::empty());
        assert(seq![r[0]].last() == r[0]);
        assert(scan_from(st2, Seq::<Seq<char>>::empty()) == st2);
        assert(st3 == step(st2, r[0]));
        assert(!is_skip_line(r[0])) by {
            reveal_strlit("--- ");
            reveal_strlit("+++ ");
            reveal_strlit("diff --git ");
            if has_prefix(r[0], "--- "@) {
                assert(r[0].subrange(0, 4)[0] == r[0][0]);
                assert(r[0].subrange(0, 11)[0] == r[0][0]);
            }
            if has_prefix(r[0], "+++ "@) {
                assert(r[0].subrange(0, 4)[0] == r[0][0]);
                assert(r[0].subrange(0, 11)[0] == r[0][0]);
            }
        }
        assert(st3.files == flush_file(st2));
        assert(st3.files[k as int].added_lines == count_adds(t));
        let st4 = scan_from(st3, r.subrange(1, r.len() as int));
        lemma_scan_from_files_stable(st3, r.subrange(1, r.len() as int));
        assert(st4.files[k as int] == st3.files[k as int]);
        let res = flush_file(st4);
        assert(res[k as int] == st4.files[k as int]);
    }
}

/// How a line's first character separates the classes of lines the scanner
/// distinguishes: no line belongs to two of them.
proof fn lemma_line_class(l: Seq<char>)
    ensures
        is_skip_line(l) ==> !is_header_line(l) && !is_hunk_marker(l) && !is_add_line(l)
            && !is_remove_line(l),
        is_hunk_marker(l) ==> !is_header_line(l) && !is_add_line(l) && !is_remove_line(l)
            && !is_skip_line(l),
        is_header_line(l) ==> !is_add_line(l) && !is_remove_line(l) && !is_skip_line(l)
            && !is_hunk_marker(l),
{
    reveal_strlit("--- ");
    reveal_strlit("+++ ");
    reveal_strlit("---");
    reveal_strlit("+++");
    reveal_strlit("diff --git ");
    reveal_strlit("@@");
    if has_prefix(l, "--- "@) {
        assert(l.subrange(0, 4)[0] == l[0]);
        assert(l.subrange(0, 3) =~= "---"@);
    }
    if has_prefix(l, "+++ "@) {
        assert(l.subrange(0, 4)[0] == l[0]);
        assert(l.subrange(0, 3) =~= "+++"@);
    }
    if has_prefix(l, "diff --git "@) {
        assert(l.subrange(0, 11)[0] == l[0]);
    }
    if has_prefix(l, "@@"@) {
        assert(l.subrange(0, 2)[0] == l[0]);
    }
}

proof fn lemma_count_markers_nonneg(t: Seq<Seq<char>>)
    ensures
        count_markers(t) >= 0,
    decreases t.len(),
{
    if t.len() > 0 {
        lemma_count_markers_nonneg(t.drop_last());
    }
}

proof fn lemma_count_markers_pos(t: Seq<Seq<char>>, i: int)
    requires
        0 <= i < t.len(),
        is_hunk_marker(t[i]),
    ensures
        count_markers(t) > 0,
    decreases t.len(),
{
    lemma_count_markers_nonneg(t.drop_last());
    if i < t.len() - 1 {
        lemma_count_markers_pos(t.drop_last(), i);
    }
}

/// No `@@` marker stands before position `j` of the section.
pub open spec fn no_marker_before(t: Seq<Seq<char>>, j: int) -> bool {
    forall|i: int| 0 <= i < j ==> !is_hunk_marker(#[trigger] t[i])
}

/// A section is plain when every line of it before the first `@@` marker is
/// a skipped `---`/`+++` marker line — the shape `git diff` emits, with the
/// extended header lines left aside.
pub open spec fn plain_section(t: Seq<Seq<char>>) -> bool {
    forall|j: int|
        0 <= j < t.len() && no_marker_before(t, j) && !is_hunk_marker(#[trigger] t[j])
            ==> is_skip_line(t[j])
}

proof fn lemma_scan_from_hunks(st: ScanState, t: Seq<Seq<char>>)
    requires
        st.cur is Some,
        st.hunk.len() == 0,
        forall|j: int| 0 <= j < t.len() ==> !is_header_line(#[trigger] t[j]),
        plain_section(t),
    ensures
        scan_from(st, t).files == st.files,
        scan_from(st, t).cur is Some,
        count_markers(t) == 0 ==> scan_from(st, t).cur->0.hunks == st.cur->0.hunks
            && scan_from(st, t).hunk.len() == 0,
        count_markers(t) > 0 ==> scan_from(st, t).cur->0.hunks.len() == st.cur->0.hunks.len()
            + count_markers(t) - 1 && scan_from(st, t).hunk.len() > 0,
    decreases t.len(),
{
    if t.len() > 0 {
        let t2 = t.drop_last();
        let l = t.last();
        assert(forall|i: int| 0 <= i < t2.len() ==> t2[i] == t[i]);
        assert forall|j: int|
            0 <= j < t2.len() && no_marker_before(t2, j) && !is_hunk_marker(#[trigger] t2[j])
                implies is_skip_line(t2[j]) by {
            assert(no_marker_before(t, j)) by {
                assert(forall|i: int| 0 <= i < j ==> t[i] == t2[i]);
            }
            assert(t[j] == t2[j]);
            assert(is_skip_line(t[j]));
        }
        lemma_scan_from_hunks(st, t2);
        lemma_count_markers_nonneg(t2);
        lemma_line_class(l);
        let stm = scan_from(st, t2);
        if is_skip_line(l) {
            // the scanner ignores it, and it is not a marker
        } else if is_hunk_marker(l) {
            // closes the open hunk (if any) and opens one holding the marker
            assert((l + seq!['\n']).len() > 0);
        } else {
            // a content line: some marker stands before it
            assert(!no_marker_before(t, t.len() - 1));
            let i = choose|i: int| 0 <= i < t.len() - 1 && is_hunk_marker(t[i]);
            assert(t2[i] == t[i]);
            lemma_count_markers_pos(t2, i);
            assert((stm.hunk + l + seq!['\n']).len() > 0);
        }
    }
}

/// Each `@@` marker of a plain section yields exactly one hunk entry in the
/// record the section's header opened: for a diff whose lines are `p`, then
/// the header `h`, then a header-free plain section `t`, then either nothing
/// or a remainder `r` opening with the next header, the record at the
/// position the earlier lines determine holds `count_markers(t)` hunks.
pub proof fn lemma_parse_section_hunks(p: Seq<Seq<char>>, h: Seq<char>, t: Seq<Seq<char>>, r: Seq<Seq<char>>)
    requires
        is_header_line(h),
        forall|j: int| 0 <= j < t.len() ==> !is_header_line(#[trigger] t[j]),
        r.len() > 0 ==> is_header_line(r[0]),
        plain_section(t),
    ensures
        ({
            let res = flush_file(scan(p.push(h) + t + r));
            let k = record_count(scan(p));
            &&& k < res.len()
            &&& res[k].hunks.len() == count_markers(t)
        }),
{
    let st0 = scan(p);
    assert(p.push(h).drop_last() =~= p);
    let st1 = scan(p.push(h));
    assert(st1 == step(st0, h));
    lemma_line_class(h);
    let k = record_count(st0);
    assert(st1.files.len() == k);
    lemma_scan_append(p.push(h), t);
    let st2 = scan(p.push(h) + t);
    lemma_scan_from_hunks(st1, t);
    lemma_count_markers_nonneg(t);
    let m = count_markers(t);
    assert(st2.files.len() == k);
    if r.len() == 0 {
        assert(p.push(h) + t + r =~= p.push(h) + t);
        let res = flush_file(st2);
        assert(res[k].hunks.len() == m);
    } else {
        assert(p.push(h) + t + r =~= (p.push(h) + t) + r);
        lemma_scan_append(p.push(h) + t, r);
        assert(r =~= seq![r[0]] + r.subrange(1, r.len() as int));
        lemma_scan_from_append(st2, seq![r[0]], r.subrange(1, r.len() as int));
        let st3 = scan_from(st2, seq![r[0]]);
        assert(seq![r[0]].drop_last() =~= Seq::<Seq<char>>::empty());
        assert(seq![r[0]].last() == r[0]);
        assert(scan_from(st2, Seq::<Seq<char>>::empty()) == st2);
        assert(st3 == step(st2, r[0]));
        lemma_line_class(r[0]);
        assert(st3.files == flush_file(st2));
        assert(st3.files[k as int].hunks.len() == m);
        let st4 = scan_from(st3, r.subrange(1, r.len() as int));
        lemma_scan_from_files_stable(st3, r.subrange(1, r.len() as int));
        assert(st4.files[k as int] == st3.files[k as int]);
        let res = flush_file(st4);
        assert(res[k as int] == st4.files[k as int]);
    }
}

/// Whether the line starts with `+` (the one-character test the scan uses
/// beside the three-character marker tests).
fn starts_with_plus(s: &str) -> (r: bool)
    ensures
        r == (s@.len() > 0 && s@[0] == '+'),
{
    if s.unicode_len() == 0 {
        false
    } else {
        s.get_char(0) == '+'
    }
}

/// Whether the line starts with `-`.
fn starts_with_minus(s: &str) -> (r: bool)
    ensures
        r == (s@.len() > 0 && s@[0] == '-'),
{
    if s.unicode_len() == 0 {
        false
    } else {
        s.get_char(0) == '-'
    }
}

} // verus!
