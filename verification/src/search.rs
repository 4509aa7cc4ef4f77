//! Text search and replace.
//!
//! Scans the buffer for a query, line by line and left to right
//! without overlap, optionally folding case; keeps an ordered match
//! list with a current-match cursor that wraps circularly; and drives
//! replace-one and replace-all through the command history.

use crate::buffer::TextBuffer;
use crate::buffer::spec_replace_range;
use crate::command::CompositeCommand;
use crate::command::EditCommand;
use crate::command::EditState;
use crate::command::ReplaceTextCommand;
use crate::command::SimpleCommand;
use crate::command::cursor_view;
use crate::command::seq_apply;
use crate::command::state_of;
use crate::history::CommandHistory;
use crate::history::spec_push_rel;
use vstd::prelude::*;

verus! {

/// The lowercase form of a character.
pub uninterp spec fn lower_of(c: char) -> char;

/// Lowercases one character.
///
/// Relies on `char::to_lowercase`: the mapping depends on the
/// character alone. Only the first character of its expansion is kept,
/// so a character whose lowercase form is longer stands for itself by
/// that first character.
#[verifier::external_body]
fn lower_char(c: char) -> (r: char)
    ensures
        r == lower_of(c),
{
    c.to_lowercase().next().unwrap_or(c)
}

/// A text folded for matching: unchanged when case-sensitive, else
/// lowercased character by character, which keeps every column.
pub open spec fn fold_case(s: Seq<char>, case_sensitive: bool) -> Seq<char> {
    if case_sensitive {
        s
    } else {
        s.map_values(|c: char| lower_of(c))
    }
}

/// The match columns within one folded line from `col` on: the
/// leftmost positions where the folded query occurs, scanned without
/// overlap.
pub open spec fn scan_cols(line: Seq<char>, q: Seq<char>, col: int) -> Seq<int>
    decreases line.len() - col,
{
    if q.len() == 0 || col < 0 || col + q.len() > line.len() {
        Seq::empty()
    } else if line.subrange(col, col + q.len()) == q {
        seq![col] + scan_cols(line, q, col + q.len())
    } else {
        scan_cols(line, q, col + 1)
    }
}

/// The match positions a line's match columns yield.
pub open spec fn cols_to_matches(l: int, cols: Seq<int>) -> Seq<(int, int)> {
    cols.map_values(|c: int| (l, c))
}

/// All matches from line `l` on, line by line, leftmost first.
pub open spec fn matches_from(b: Seq<Seq<char>>, q: Seq<char>, cs: bool, l: int) -> Seq<(int, int)>
    decreases b.len() - l,
{
    if l < 0 || l >= b.len() {
        Seq::empty()
    } else {
        cols_to_matches(l, scan_cols(fold_case(b[l], cs), fold_case(q, cs), 0)) + matches_from(
            b,
            q,
            cs,
            l + 1,
        )
    }
}

/// All matches of a query in a buffer: an empty query yields none, no
/// match spans a line break, case-insensitive search folds both sides,
/// and columns are reported in the original text's character
/// coordinates.
pub open spec fn spec_find_matches(b: Seq<Seq<char>>, q: Seq<char>, cs: bool) -> Seq<(int, int)> {
    matches_from(b, q, cs, 0)
}

/// Represents a search match position in the buffer.
#[derive(Debug, Clone, Copy, PartialEq, Eq, Structural)]
pub struct SearchMatch {
    /// Line index.
    pub line: usize,
    /// Column index, counted in characters.
    pub col: usize,
}

impl View for SearchMatch {
    type V = (int, int);

    open spec fn view(&self) -> (int, int) {
        (self.line as int, self.col as int)
    }
}

/// The positions a vector of matches denotes.
pub open spec fn match_views(v: Seq<SearchMatch>) -> Seq<(int, int)> {
    v.map_values(|m: SearchMatch| m@)
}

/// An empty query yields no matches from any line on.
proof fn lemma_matches_empty_query(b: Seq<Seq<char>>, q: Seq<char>, cs: bool, l: int)
    requires
        q.len() == 0,
    ensures
        matches_from(b, q, cs, l).len() == 0,
    decreases b.len() - l,
{
    if 0 <= l < b.len() {
        assert(fold_case(q, cs).len() == 0);
        assert(cols_to_matches(
            l,
            scan_cols(fold_case(b[l], cs), fold_case(q, cs), 0),
        ).len() == 0);
        lemma_matches_empty_query(b, q, cs, l + 1);
        assert(matches_from(b, q, cs, l) == cols_to_matches(
            l,
            scan_cols(fold_case(b[l], cs), fold_case(q, cs), 0),
        ) + matches_from(b, q, cs, l + 1));
    }
}

/// Every match column lies within its line, with the whole query span
/// inside it.
proof fn lemma_scan_cols_in_range(line: Seq<char>, q: Seq<char>, col: int)
    ensures
        forall|i: int|
            0 <= i < scan_cols(line, q, col).len() ==> col <= #[trigger] scan_cols(line, q, col)[i]
                && scan_cols(line, q, col)[i] + q.len() <= line.len(),
    decreases line.len() - col,
{
    if q.len() == 0 || col < 0 || col + q.len() > line.len() {
    } else if line.subrange(col, col + q.len()) == q {
        lemma_scan_cols_in_range(line, q, col + q.len());
        let s = scan_cols(line, q, col);
        assert(s == seq![col] + scan_cols(line, q, col + q.len()));
        assert forall|i: int|
            0 <= i < s.len() implies col <= #[trigger] s[i] && s[i] + q.len() <= line.len() by {
            if i > 0 {
                assert(s[i] == scan_cols(line, q, col + q.len())[i - 1]);
            }
        }
    } else {
        lemma_scan_cols_in_range(line, q, col + 1);
        let s = scan_cols(line, q, col);
        assert(s == scan_cols(line, q, col + 1));
        assert forall|i: int|
            0 <= i < s.len() implies col <= #[trigger] s[i] && s[i] + q.len() <= line.len() by {
            assert(s[i] == scan_cols(line, q, col + 1)[i]);
        }
    }
}

/// Every match lies within the buffer, with the whole query span
/// inside its line.
pub proof fn lemma_matches_in_range(b: Seq<Seq<char>>, q: Seq<char>, cs: bool, l: int)
    ensures
        forall|i: int|
            0 <= i < matches_from(b, q, cs, l).len() ==> {
                let m = #[trigger] matches_from(b, q, cs, l)[i];
                &&& l <= m.0 < b.len()
                &&& 0 <= m.1
                &&& m.1 + q.len() <= b[m.0].len()
            },
    decreases b.len() - l,
{
    if 0 <= l < b.len() {
        let fl = fold_case(b[l], cs);
        let fq = fold_case(q, cs);
        assert(fl.len() == b[l].len());
        assert(fq.len() == q.len());
        lemma_scan_cols_in_range(fl, fq, 0);
        lemma_matches_in_range(b, q, cs, l + 1);
        let here = cols_to_matches(l, scan_cols(fl, fq, 0));
        let rest = matches_from(b, q, cs, l + 1);
        assert(matches_from(b, q, cs, l) == here + rest);
        assert forall|i: int| 0 <= i < matches_from(b, q, cs, l).len() implies {
            let m = #[trigger] matches_from(b, q, cs, l)[i];
            &&& l <= m.0 < b.len()
            &&& 0 <= m.1
            &&& m.1 + q.len() <= b[m.0].len()
        } by {
            if i < here.len() {
                assert(matches_from(b, q, cs, l)[i] == here[i]);
                assert(here[i] == (l, scan_cols(fl, fq, 0)[i]));
                assert(scan_cols(fl, fq, 0)[i] + q.len() <= b[l].len());
            } else {
                assert(matches_from(b, q, cs, l)[i] == rest[i - here.len()]);
            }
        }
    }
}

/// Whether one match position comes strictly before another without
/// overlapping it: on an earlier line, or on the same line with the
/// whole query span ending at or before the other's start.
pub open spec fn match_precedes(a: (int, int), b: (int, int), qlen: int) -> bool {
    a.0 < b.0 || (a.0 == b.0 && a.1 + qlen <= b.1)
}

/// Consecutive match columns of one line leave at least a whole query
/// span between their starts: the scan does not overlap.
proof fn lemma_scan_cols_sorted(line: Seq<char>, q: Seq<char>, col: int)
    ensures
        forall|i: int|
            0 <= i < scan_cols(line, q, col).len() - 1 ==> #[trigger] scan_cols(line, q, col)[i]
                + q.len() <= scan_cols(line, q, col)[i + 1],
    decreases line.len() - col,
{
    if q.len() == 0 || col < 0 || col + q.len() > line.len() {
    } else if line.subrange(col, col + q.len()) == q {
        lemma_scan_cols_sorted(line, q, col + q.len());
        lemma_scan_cols_in_range(line, q, col + q.len());
        let s = scan_cols(line, q, col);
        let rest = scan_cols(line, q, col + q.len());
        assert(s == seq![col] + rest);
        assert forall|i: int| 0 <= i < s.len() - 1 implies #[trigger] s[i] + q.len() <= s[i + 1] by {
            if i == 0 {
                assert(s[1] == rest[0]);
            } else {
                assert(s[i] == rest[i - 1]);
                assert(s[i + 1] == rest[i]);
            }
        }
    } else {
        lemma_scan_cols_sorted(line, q, col + 1);
        let s = scan_cols(line, q, col);
        assert(s == scan_cols(line, q, col + 1));
        assert forall|i: int| 0 <= i < s.len() - 1 implies #[trigger] s[i] + q.len() <= s[i + 1] by {
            assert(s[i] == scan_cols(line, q, col + 1)[i]);
            assert(s[i + 1] == scan_cols(line, q, col + 1)[i + 1]);
        }
    }
}

/// The match list is ordered and non-overlapping: each match comes
/// strictly before the next, in document order, with no two query
/// spans sharing a character.
pub proof fn lemma_matches_ordered(b: Seq<Seq<char>>, q: Seq<char>, cs: bool, l: int)
    ensures
        forall|i: int|
            0 <= i < matches_from(b, q, cs, l).len() - 1 ==> match_precedes(
                #[trigger] matches_from(b, q, cs, l)[i],
                matches_from(b, q, cs, l)[i + 1],
                q.len() as int,
            ),
        forall|i: int|
            0 <= i < matches_from(b, q, cs, l).len() ==> l <= #[trigger] matches_from(
                b,
                q,
                cs,
                l,
            )[i].0,
    decreases b.len() - l,
{
    if 0 <= l < b.len() {
        let fl = fold_case(b[l], cs);
        let fq = fold_case(q, cs);
        assert(fq.len() == q.len());
        lemma_scan_cols_sorted(fl, fq, 0);
        lemma_matches_ordered(b, q, cs, l + 1);
        let cols = scan_cols(fl, fq, 0);
        let here = cols_to_matches(l, cols);
        let rest = matches_from(b, q, cs, l + 1);
        let whole = matches_from(b, q, cs, l);
        assert(whole == here + rest);
        assert forall|i: int|
            0 <= i < whole.len() - 1 implies match_precedes(
            #[trigger] whole[i],
            whole[i + 1],
            q.len() as int,
        ) by {
            if i + 1 < here.len() {
                assert(whole[i] == here[i]);
                assert(whole[i + 1] == here[i + 1]);
                assert(here[i] == (l, cols[i]));
                assert(here[i + 1] == (l, cols[i + 1]));
                assert(cols[i] + fq.len() <= cols[i + 1]);
            } else if i < here.len() {
                assert(whole[i] == here[i]);
                assert(whole[i].0 == l);
                assert(whole[i + 1] == rest[i + 1 - here.len()]);
                assert(l + 1 <= whole[i + 1].0);
            } else {
                assert(whole[i] == rest[i - here.len()]);
                assert(whole[i + 1] == rest[i + 1 - here.len()]);
            }
        }
        assert forall|i: int| 0 <= i < whole.len() implies l <= #[trigger] whole[i].0 by {
            if i < here.len() {
                assert(whole[i] == here[i]);
            } else {
                assert(whole[i] == rest[i - here.len()]);
                assert(l + 1 <= whole[i].0);
            }
        }
    }
}

/// Folds a string for matching.
fn fold_str(s: &str, case_sensitive: bool) -> (r: Vec<char>)
    ensures
        r@ == fold_case(s@, case_sensitive),
{
    let n = s.unicode_len();
    let mut r: Vec<char> = Vec::new();
    let mut i: usize = 0;
    while i < n
        invariant
            n == s@.len(),
            0 <= i <= n,
            r@ == fold_case(s@, case_sensitive).take(i as int),
        decreases n - i,
    {
        let c = s.get_char(i);
        if case_sensitive {
            r.push(c);
        } else {
            r.push(lower_char(c));
        }
        proof {
            assert(fold_case(s@, case_sensitive).take(i + 1) =~= fold_case(
                s@,
                case_sensitive,
            ).take(i as int).push(fold_case(s@, case_sensitive)[i as int]));
        }
        i = i + 1;
    }
    proof {
        assert(fold_case(s@, case_sensitive).take(n as int) =~= fold_case(s@, case_sensitive));
    }
    r
}

/// Folds a line for matching.
fn fold_vec(s: &Vec<char>, case_sensitive: bool) -> (r: Vec<char>)
    ensures
        r@ == fold_case(s@, case_sensitive),
{
    let n = s.len();
    let mut r: Vec<char> = Vec::new();
    let mut i: usize = 0;
    while i < n
        invariant
            n == s@.len(),
            0 <= i <= n,
            r@ == fold_case(s@, case_sensitive).take(i as int),
        decreases n - i,
    {
        let c = s[i];
        if case_sensitive {
            r.push(c);
        } else {
            r.push(lower_char(c));
        }
        proof {
            assert(fold_case(s@, case_sensitive).take(i + 1) =~= fold_case(
                s@,
                case_sensitive,
            ).take(i as int).push(fold_case(s@, case_sensitive)[i as int]));
        }
        i = i + 1;
    }
    proof {
        assert(fold_case(s@, case_sensitive).take(n as int) =~= fold_case(s@, case_sensitive));
    }
    r
}

/// Compares the query against one window of a line.
fn window_eq(line: &Vec<char>, q: &Vec<char>, col: usize) -> (r: bool)
    requires
        col + q@.len() <= line@.len(),
    ensures
        r == (line@.subrange(col as int, col + q@.len()) == q@),
{
    let n = q.len();
    let ln = line.len();
    let mut j: usize = 0;
    while j < n
        invariant
            n == q@.len(),
            ln == line@.len(),
            col + n <= ln,
            0 <= j <= n,
            forall|k: int| 0 <= k < j ==> line@[col + k] == q@[k],
        decreases n - j,
    {
        if line[col + j] != q[j] {
            proof {
                assert(line@.subrange(col as int, col + q@.len())[j as int] != q@[j as int]);
            }
            return false;
        }
        j = j + 1;
    }
    proof {
        assert(line@.subrange(col as int, col + q@.len()) =~= q@);
    }
    true
}

/// Finds all matches of a query in the text buffer: none for an empty
/// query, scanned per line from left to right without overlap, folding
/// case unless the search is case-sensitive.
pub fn find_matches(buffer: &TextBuffer, query: &str, case_sensitive: bool) -> (r: Vec<SearchMatch>)
    requires
        buffer.wf(),
    ensures
        match_views(r@) == spec_find_matches(buffer@, query@, case_sensitive),
    {
    let ghost b = buffer@;
    let ghost q = query@;
    let mut out: Vec<SearchMatch> = Vec::new();
    let fq = fold_str(query, case_sensitive);
    if fq.len() == 0 {
        proof {
            lemma_matches_empty_query(b, q, case_sensitive, 0);
            assert(match_views(out@) =~= spec_find_matches(b, q, case_sensitive));
        }
        return out;
    }
    let qn = fq.len();
    let nlines = buffer.line_count();
    let mut l: usize = 0;
    proof {
        assert(match_views(out@) + matches_from(b, q, case_sensitive, 0) =~= spec_find_matches(
            b,
            q,
            case_sensitive,
        ));
    }
    while l < nlines
        invariant
            buffer.wf(),
            b == buffer@,
            q == query@,
            nlines == b.len(),
            0 <= l <= nlines,
            qn == fq@.len(),
            qn > 0,
            fq@ == fold_case(q, case_sensitive),
            spec_find_matches(b, q, case_sensitive) == match_views(out@) + matches_from(
                b,
                q,
                case_sensitive,
                l as int,
            ),
        decreases nlines - l,
    {
        let line = buffer.line_chars(l);
        let fl = fold_vec(&line, case_sensitive);
        let ghost flv = fl@;
        let m = fl.len();
        let mut col: usize = 0;
        let scan_limit = if m >= qn {
            m - qn
        } else {
            0
        };
        proof {
            assert(flv == fold_case(b[l as int], case_sensitive));
            assert(matches_from(b, q, case_sensitive, l as int) == cols_to_matches(
                l as int,
                scan_cols(flv, fq@, 0),
            ) + matches_from(b, q, case_sensitive, l + 1));
        }
        while m >= qn && col <= m - qn
            invariant
                scan_limit == if m >= qn { m - qn } else { 0 },
                col <= m + 1,
                b == buffer@,
                q == query@,
                l < b.len(),
                qn == fq@.len(),
                qn > 0,
                fq@ == fold_case(q, case_sensitive),
                flv == fl@,
                flv == fold_case(b[l as int], case_sensitive),
                m == flv.len(),
                0 <= col,
                spec_find_matches(b, q, case_sensitive) == match_views(out@) + cols_to_matches(
                    l as int,
                    scan_cols(flv, fq@, col as int),
                ) + matches_from(b, q, case_sensitive, l + 1),
            decreases m - col,
        {
            let ghost out0 = out@;
            if window_eq(&fl, &fq, col) {
                out.push(SearchMatch { line: l, col });
                proof {
                    assert(scan_cols(flv, fq@, col as int) == seq![col as int] + scan_cols(
                        flv,
                        fq@,
                        col + qn,
                    ));
                    assert(cols_to_matches(l as int, scan_cols(flv, fq@, col as int)) =~= seq![
                        (l as int, col as int),
                    ] + cols_to_matches(l as int, scan_cols(flv, fq@, col + qn)));
                    assert(match_views(out@) =~= match_views(out0).push((l as int, col as int)));
                    assert(match_views(out0) + (seq![(l as int, col as int)] + cols_to_matches(
                        l as int,
                        scan_cols(flv, fq@, col + qn),
                    )) =~= match_views(out@) + cols_to_matches(
                        l as int,
                        scan_cols(flv, fq@, col + qn),
                    ));
                }
                col = col + qn;
            } else {
                proof {
                    assert(scan_cols(flv, fq@, col as int) == scan_cols(flv, fq@, col + 1));
                }
                col = col + 1;
            }
        }
        proof {
            assert(scan_cols(flv, fq@, col as int).len() == 0);
            assert(cols_to_matches(l as int, scan_cols(flv, fq@, col as int)).len() == 0);
            assert(match_views(out@) + cols_to_matches(l as int, scan_cols(flv, fq@, col as int))
                =~= match_views(out@));
        }
        l = l + 1;
    }
    proof {
        assert(matches_from(b, q, case_sensitive, nlines as int).len() == 0);
        assert(match_views(out@) + matches_from(b, q, case_sensitive, nlines as int)
            =~= match_views(out@));
    }
    out
}

/// Which field in the search dialog currently has focus.
#[derive(Debug, Clone, Copy, PartialEq, Eq, Structural)]
pub enum SearchFocusedField {
    /// The search input field has focus.
    Search,
    /// The replace input field has focus.
    Replace,
}

/// The current-match index kept when the match list is rebuilt: none
/// without matches, the first match when none was current, and the
/// old index clamped into range otherwise.
pub open spec fn index_after_update(old_idx: Option<usize>, len: int) -> Option<usize> {
    if len == 0 {
        None
    } else {
        match old_idx {
            None => Some(0usize),
            Some(i) => if i >= len {
                Some((len - 1) as usize)
            } else {
                Some(i)
            },
        }
    }
}

/// The line-weighted distance from a match to the cursor: lines weigh
/// a thousand times more than columns.
pub open spec fn weighted_dist(m: (int, int), cl: int, cc: int) -> int {
    let dl = if m.0 >= cl {
        m.0 - cl
    } else {
        cl - m.0
    };
    let dc = if m.1 >= cc {
        m.1 - cc
    } else {
        cc - m.1
    };
    dl * 1000 + dc
}

/// The buffer after replacing every listed match, processed from the
/// last match to the first so that no replacement moves the positions
/// of those still to come; a match whose replacement end would not fit
/// the machine's address range is left as it is.
pub open spec fn apply_replacements(
    b: Seq<Seq<char>>,
    ms: Seq<(int, int)>,
    n: int,
    rw: Seq<char>,
) -> Seq<Seq<char>>
    decreases ms.len(),
{
    if ms.len() == 0 {
        b
    } else {
        let m = ms.last();
        let b1 = if m.1 + rw.len() <= usize::MAX {
            spec_replace_range(b, m.0, m.1, n, rw)
        } else {
            b
        };
        apply_replacements(b1, ms.drop_last(), n, rw)
    }
}

/// The cursor after replacing every listed match: after the new text
/// of the first replaced match, or unchanged when none was replaced.
pub open spec fn replace_all_cursor(ms: Seq<(int, int)>, rwlen: int, c0: (nat, nat)) -> (nat, nat)
    decreases ms.len(),
{
    if ms.len() == 0 {
        c0
    } else if ms.first().1 + rwlen <= usize::MAX {
        (ms.first().0 as nat, (ms.first().1 + rwlen) as nat)
    } else {
        replace_all_cursor(ms.drop_first(), rwlen, c0)
    }
}

/// Replacing the matches of a list extended at its front first handles
/// the rest of the list, then the front match; this restates the
/// definition from the other end.
proof fn lemma_apply_replacements_cons(
    b: Seq<Seq<char>>,
    x: (int, int),
    ms: Seq<(int, int)>,
    n: int,
    rw: Seq<char>,
)
    ensures
        apply_replacements(b, seq![x] + ms, n, rw) == if x.1 + rw.len() <= usize::MAX {
            spec_replace_range(apply_replacements(b, ms, n, rw), x.0, x.1, n, rw)
        } else {
            apply_replacements(b, ms, n, rw)
        },
    decreases ms.len(),
{
    let whole = seq![x] + ms;
    let bx = if x.1 + rw.len() <= usize::MAX {
        spec_replace_range(b, x.0, x.1, n, rw)
    } else {
        b
    };
    if ms.len() == 0 {
        assert(whole.last() == x);
        assert(whole.drop_last() =~= Seq::<(int, int)>::empty());
        assert(apply_replacements(b, whole, n, rw) == apply_replacements(
            bx,
            whole.drop_last(),
            n,
            rw,
        ));
        assert(apply_replacements(bx, whole.drop_last(), n, rw) == bx);
        assert(apply_replacements(b, ms, n, rw) == b);
    } else {
        assert(whole.last() == ms.last());
        assert(whole.drop_last() =~= seq![x] + ms.drop_last());
        let m = ms.last();
        let b1 = if m.1 + rw.len() <= usize::MAX {
            spec_replace_range(b, m.0, m.1, n, rw)
        } else {
            b
        };
        assert(apply_replacements(b, whole, n, rw) == apply_replacements(
            b1,
            seq![x] + ms.drop_last(),
            n,
            rw,
        ));
        assert(apply_replacements(b, ms, n, rw) == apply_replacements(b1, ms.drop_last(), n, rw));
        lemma_apply_replacements_cons(b1, x, ms.drop_last(), n, rw);
    }
}

/// Search state management: the query, its options, the ordered match
/// list, and the current-match cursor.
#[derive(Debug)]
pub struct SearchState {
    /// Current search query.
    pub query: String,
    /// Text to replace with.
    pub replace_with: String,
    /// Case-sensitive search flag.
    pub case_sensitive: bool,
    /// Whether the search dialog is visible.
    pub is_open: bool,
    /// Whether replace mode is active.
    pub is_replace_mode: bool,
    /// List of all matches found.
    pub matches: Vec<SearchMatch>,
    /// Index of the currently selected match.
    pub current_match_index: Option<usize>,
    /// Which field currently has focus.
    pub focused_field: SearchFocusedField,
}

impl Default for SearchState {
    /// A closed search dialog with an empty, case-insensitive query
    /// and no matches.
    fn default() -> (r: SearchState)
        ensures
            r.query@.len() == 0,
            r.replace_with@.len() == 0,
            !r.case_sensitive,
            !r.is_open,
            !r.is_replace_mode,
            r.matches@.len() == 0,
            r.current_match_index is None,
            r.focused_field == SearchFocusedField::Search,
    {
        SearchState {
            query: String::new(),
            replace_with: String::new(),
            case_sensitive: false,
            is_open: false,
            is_replace_mode: false,
            matches: Vec::new(),
            current_match_index: None,
            focused_field: SearchFocusedField::Search,
        }
    }
}

impl SearchState {
    /// Creates a new search state.
    pub fn new() -> (r: SearchState)
        ensures
            r.query@.len() == 0,
            r.replace_with@.len() == 0,
            !r.case_sensitive,
            !r.is_open,
            !r.is_replace_mode,
            r.matches@.len() == 0,
            r.current_match_index is None,
            r.focused_field == SearchFocusedField::Search,
    {
        SearchState {
            query: String::new(),
            replace_with: String::new(),
            case_sensitive: false,
            is_open: false,
            is_replace_mode: false,
            matches: Vec::new(),
            current_match_index: None,
            focused_field: SearchFocusedField::Search,
        }
    }

    /// Opens the search dialog in search-only mode.
    pub fn open_search(&mut self)
        ensures
            *final(self) == (SearchState {
                is_open: true,
                is_replace_mode: false,
                focused_field: SearchFocusedField::Search,
                ..*old(self)
            }),
    {
        self.is_open = true;
        self.is_replace_mode = false;
        self.focused_field = SearchFocusedField::Search;
    }

    /// Opens the search dialog in search-and-replace mode.
    pub fn open_replace(&mut self)
        ensures
            *final(self) == (SearchState {
                is_open: true,
                is_replace_mode: true,
                focused_field: SearchFocusedField::Search,
                ..*old(self)
            }),
    {
        self.is_open = true;
        self.is_replace_mode = true;
        self.focused_field = SearchFocusedField::Search;
    }

    /// Closes the search dialog.
    pub fn close(&mut self)
        ensures
            *final(self) == (SearchState { is_open: false, ..*old(self) }),
    {
        self.is_open = false;
    }

    /// Cycles focus to the next field; in search-only mode the focus
    /// stays where it is.
    pub fn focus_next_field(&mut self)
        ensures
            *final(self) == (SearchState {
                focused_field: if old(self).is_replace_mode {
                    match old(self).focused_field {
                        SearchFocusedField::Search => SearchFocusedField::Replace,
                        SearchFocusedField::Replace => SearchFocusedField::Search,
                    }
                } else {
                    old(self).focused_field
                },
                ..*old(self)
            }),
    {
        if self.is_replace_mode {
            self.focused_field = match self.focused_field {
                SearchFocusedField::Search => SearchFocusedField::Replace,
                SearchFocusedField::Replace => SearchFocusedField::Search,
            };
        }
    }

    /// Cycles focus to the previous field; with two fields this is the
    /// same exchange as cycling forward.
    pub fn focus_previous_field(&mut self)
        ensures
            *final(self) == (SearchState {
                focused_field: if old(self).is_replace_mode {
                    match old(self).focused_field {
                        SearchFocusedField::Search => SearchFocusedField::Replace,
                        SearchFocusedField::Replace => SearchFocusedField::Search,
                    }
                } else {
                    old(self).focused_field
                },
                ..*old(self)
            }),
    {
        if self.is_replace_mode {
            self.focused_field = match self.focused_field {
                SearchFocusedField::Search => SearchFocusedField::Replace,
                SearchFocusedField::Replace => SearchFocusedField::Search,
            };
        }
    }

    /// Updates the search query and rebuilds the match list.
    pub fn set_query(&mut self, query: String, buffer: &TextBuffer)
        requires
            buffer.wf(),
        ensures
            final(self).query == query,
            final(self).replace_with == old(self).replace_with,
            final(self).case_sensitive == old(self).case_sensitive,
            final(self).is_open == old(self).is_open,
            final(self).is_replace_mode == old(self).is_replace_mode,
            final(self).focused_field == old(self).focused_field,
            match_views(final(self).matches@) == spec_find_matches(
                buffer@,
                query@,
                old(self).case_sensitive,
            ),
            final(self).current_match_index == index_after_update(
                old(self).current_match_index,
                spec_find_matches(buffer@, query@, old(self).case_sensitive).len() as int,
            ),
    {
        self.query = query;
        self.update_matches(buffer);
    }

    /// Updates the replace text.
    pub fn set_replace_with(&mut self, replace_with: String)
        ensures
            *final(self) == (SearchState { replace_with, ..*old(self) }),
    {
        self.replace_with = replace_with;
    }

    /// Toggles case sensitivity and rebuilds the match list.
    pub fn toggle_case_sensitive(&mut self, buffer: &TextBuffer)
        requires
            buffer.wf(),
        ensures
            final(self).query == old(self).query,
            final(self).replace_with == old(self).replace_with,
            final(self).case_sensitive == !old(self).case_sensitive,
            final(self).is_open == old(self).is_open,
            final(self).is_replace_mode == old(self).is_replace_mode,
            final(self).focused_field == old(self).focused_field,
            match_views(final(self).matches@) == spec_find_matches(
                buffer@,
                old(self).query@,
                !old(self).case_sensitive,
            ),
            final(self).current_match_index == index_after_update(
                old(self).current_match_index,
                spec_find_matches(buffer@, old(self).query@, !old(self).case_sensitive).len() as int,
            ),
    {
        self.case_sensitive = !self.case_sensitive;
        self.update_matches(buffer);
    }

    /// Rebuilds the match list for the current query and options, and
    /// keeps the current-match index meaningful: none without matches,
    /// the first match when none was current, the old index clamped
    /// into range otherwise.
    pub fn update_matches(&mut self, buffer: &TextBuffer)
        requires
            buffer.wf(),
        ensures
            final(self).query == old(self).query,
            final(self).replace_with == old(self).replace_with,
            final(self).case_sensitive == old(self).case_sensitive,
            final(self).is_open == old(self).is_open,
            final(self).is_replace_mode == old(self).is_replace_mode,
            final(self).focused_field == old(self).focused_field,
            match_views(final(self).matches@) == spec_find_matches(
                buffer@,
                old(self).query@,
                old(self).case_sensitive,
            ),
            final(self).current_match_index == index_after_update(
                old(self).current_match_index,
                spec_find_matches(buffer@, old(self).query@, old(self).case_sensitive).len() as int,
            ),
    {
        self.matches = find_matches(buffer, self.query.as_str(), self.case_sensitive);
        proof {
            assert(self.matches@.len() == match_views(self.matches@).len());
        }
        if self.matches.len() == 0 {
            self.current_match_index = None;
        } else {
            match self.current_match_index {
                None => {
                    self.current_match_index = Some(0);
                },
                Some(idx) => {
                    if idx >= self.matches.len() {
                        self.current_match_index = Some(self.matches.len() - 1);
                    }
                },
            }
        }
    }

    /// Moves to the next match, wrapping from the last to the first;
    /// without matches nothing changes.
    pub fn next_match(&mut self)
        ensures
            *final(self) == (SearchState {
                current_match_index: if old(self).matches@.len() == 0 {
                    old(self).current_match_index
                } else {
                    match old(self).current_match_index {
                        Some(i) => if i + 1 >= old(self).matches@.len() {
                            Some(0usize)
                        } else {
                            Some((i + 1) as usize)
                        },
                        None => Some(0usize),
                    }
                },
                ..*old(self)
            }),
    {
        if self.matches.len() == 0 {
            return ;
        }
        self.current_match_index = Some(
            match self.current_match_index {
                Some(idx) => {
                    if idx >= self.matches.len() - 1 {
                        0
                    } else {
                        idx + 1
                    }
                },
                None => 0,
            },
        );
    }

    /// Moves to the previous match, wrapping from the first to the
    /// last; without matches nothing changes.
    pub fn previous_match(&mut self)
        ensures
            *final(self) == (SearchState {
                current_match_index: if old(self).matches@.len() == 0 {
                    old(self).current_match_index
                } else {
                    match old(self).current_match_index {
                        Some(i) => if i == 0 {
                            Some((old(self).matches@.len() - 1) as usize)
                        } else {
                            Some((i - 1) as usize)
                        },
                        None => Some((old(self).matches@.len() - 1) as usize),
                    }
                },
                ..*old(self)
            }),
    {
        if self.matches.len() == 0 {
            return ;
        }
        self.current_match_index = Some(
            match self.current_match_index {
                Some(idx) => {
                    if idx == 0 {
                        self.matches.len() - 1
                    } else {
                        idx - 1
                    }
                },
                None => self.matches.len() - 1,
            },
        );
    }

    /// Returns the current match position, if one is selected and in
    /// range.
    pub fn current_match(&self) -> (r: Option<SearchMatch>)
        ensures
            r == match self.current_match_index {
                Some(i) => if i < self.matches@.len() {
                    Some(self.matches@[i as int])
                } else {
                    None::<SearchMatch>
                },
                None => None::<SearchMatch>,
            },
    {
        match self.current_match_index {
            Some(idx) => {
                if idx < self.matches.len() {
                    Some(self.matches[idx])
                } else {
                    None
                }
            },
            None => None,
        }
    }

    /// Returns the number of matches found.
    pub fn match_count(&self) -> (r: usize)
        ensures
            r == self.matches@.len(),
    {
        self.matches.len()
    }

    /// Selects the match closest to the cursor by line-weighted
    /// distance, the earliest of equally close matches; used to keep
    /// the search context stable after the buffer changed under it.
    pub fn select_match_near_cursor(&mut self, cursor: (usize, usize))
        ensures
            final(self).query == old(self).query,
            final(self).replace_with == old(self).replace_with,
            final(self).case_sensitive == old(self).case_sensitive,
            final(self).is_open == old(self).is_open,
            final(self).is_replace_mode == old(self).is_replace_mode,
            final(self).focused_field == old(self).focused_field,
            final(self).matches == old(self).matches,
            old(self).matches@.len() == 0 ==> final(self).current_match_index is None,
            old(self).matches@.len() > 0 ==> {
                let mv = match_views(old(self).matches@);
                &&& final(self).current_match_index matches Some(j)
                &&& final(self).current_match_index->Some_0 < mv.len()
                &&& forall|i: int|
                    0 <= i < mv.len() ==> weighted_dist(
                        mv[final(self).current_match_index->Some_0 as int],
                        cursor.0 as int,
                        cursor.1 as int,
                    ) <= weighted_dist(#[trigger] mv[i], cursor.0 as int, cursor.1 as int)
                &&& forall|i: int|
                    0 <= i < final(self).current_match_index->Some_0 ==> weighted_dist(
                        #[trigger] mv[i],
                        cursor.0 as int,
                        cursor.1 as int,
                    ) > weighted_dist(
                        mv[final(self).current_match_index->Some_0 as int],
                        cursor.0 as int,
                        cursor.1 as int,
                    )
            },
    {
        let n = self.matches.len();
        if n == 0 {
            self.current_match_index = None;
            return ;
        }
        let (cl, cc) = cursor;
        let mut best_j: usize = 0;
        let mut best_d: u128 = dist_of(self.matches[0], cl, cc);
        let mut i: usize = 1;
        while i < n
            invariant
                n == self.matches@.len(),
                0 < n,
                0 <= best_j < i <= n,
                best_d == weighted_dist(
                    match_views(self.matches@)[best_j as int],
                    cl as int,
                    cc as int,
                ),
                forall|k: int|
                    0 <= k < i ==> best_d <= weighted_dist(
                        #[trigger] match_views(self.matches@)[k],
                        cl as int,
                        cc as int,
                    ),
                forall|k: int|
                    0 <= k < best_j ==> weighted_dist(
                        #[trigger] match_views(self.matches@)[k],
                        cl as int,
                        cc as int,
                    ) > best_d,
            decreases n - i,
        {
            let d = dist_of(self.matches[i], cl, cc);
            if d < best_d {
                best_j = i;
                best_d = d;
            }
            i = i + 1;
        }
        self.current_match_index = Some(best_j);
    }
}

impl SearchState {
    /// Replaces the text at the current match with the replace text,
    /// records the edit in the history, and rebuilds the match list
    /// against the mutated buffer. The match list is refreshed first,
    /// so the replaced span is a genuine occurrence of the query; a
    /// match whose replacement end would not fit the machine's address
    /// range is left as it is.
    pub fn replace_current(
        &mut self,
        buffer: &mut TextBuffer,
        cursor: &mut (usize, usize),
        history: &mut CommandHistory,
    )
        requires
            old(buffer).wf(),
            old(history).wf(),
        ensures
            final(buffer).wf(),
            final(history).wf(),
            final(self).query == old(self).query,
            final(self).replace_with == old(self).replace_with,
            final(self).case_sensitive == old(self).case_sensitive,
            final(self).is_open == old(self).is_open,
            final(self).is_replace_mode == old(self).is_replace_mode,
            final(self).focused_field == old(self).focused_field,
            match_views(final(self).matches@) == spec_find_matches(
                final(buffer)@,
                old(self).query@,
                old(self).case_sensitive,
            ),
            ({
                let b0 = old(buffer)@;
                let q = old(self).query@;
                let cs = old(self).case_sensitive;
                let rw = old(self).replace_with@;
                let ms = spec_find_matches(b0, q, cs);
                let idx = index_after_update(old(self).current_match_index, ms.len() as int);
                if ms.len() == 0 {
                    &&& final(buffer)@ == b0
                    &&& *final(cursor) == *old(cursor)
                    &&& *final(history) == *old(history)
                    &&& final(self).current_match_index is None
                } else {
                    let m = ms[idx->Some_0 as int];
                    if m.1 + rw.len() <= usize::MAX {
                        &&& final(buffer)@ == spec_replace_range(b0, m.0, m.1, q.len() as int, rw)
                        &&& cursor_view(*final(cursor)) == (m.0 as nat, (m.1 + rw.len()) as nat)
                        &&& exists|rc: ReplaceTextCommand|
                            {
                                &&& #[trigger] spec_push_rel(
                                    *old(history),
                                    *final(history),
                                    EditCommand::Simple(SimpleCommand::ReplaceText(rc)),
                                )
                                &&& rc.position.0 as int == m.0
                                &&& rc.position.1 as int == m.1
                                &&& rc.old_text@ == b0[m.0].subrange(m.1, m.1 + q.len())
                                &&& rc.new_text@ == rw
                            }
                        &&& final(self).current_match_index == index_after_update(
                            idx,
                            spec_find_matches(final(buffer)@, q, cs).len() as int,
                        )
                    } else {
                        &&& final(buffer)@ == b0
                        &&& *final(cursor) == *old(cursor)
                        &&& *final(history) == *old(history)
                        &&& final(self).current_match_index == index_after_update(
                            idx,
                            ms.len() as int,
                        )
                    }
                }
            }),
    {
        let ghost b0 = buffer@;
        let ghost q = self.query@;
        let ghost cs = self.case_sensitive;
        let ghost rw = self.replace_with@;
        self.update_matches(buffer);
        let mcur = self.current_match();
        if let Some(m) = mcur {
            proof {
                lemma_matches_in_range(b0, q, cs, 0);
                let ms = spec_find_matches(b0, q, cs);
                let j = index_after_update(old(self).current_match_index, ms.len() as int);
                assert(m@ == ms[j->Some_0 as int]);
            }
            let qn = self.query.as_str().unicode_len();
            let rwlen = self.replace_with.as_str().unicode_len();
            if m.col <= usize::MAX - rwlen {
                let cmd = ReplaceTextCommand::new(
                    buffer,
                    (m.line, m.col),
                    qn,
                    self.replace_with.clone(),
                    *cursor,
                );
                proof {
                    assert(cmd.old_text@ == b0[m.line as int].subrange(
                        m.col as int,
                        m.col + qn,
                    ));
                    assert(cmd.old_text@.len() == qn);
                }
                cmd.execute(buffer, cursor);
                let ghost grc = cmd;
                history.push(EditCommand::Simple(SimpleCommand::ReplaceText(cmd)));
                proof {
                    assert(spec_push_rel(
                        *old(history),
                        *history,
                        EditCommand::Simple(SimpleCommand::ReplaceText(grc)),
                    ));
                }
                self.update_matches(buffer);
            }
        }
    }

    /// Replaces every match of the query with the replace text as one
    /// grouped edit: the matches are re-scanned in full, replaced from
    /// the last to the first so that no replacement moves the
    /// positions of those still to come, executed once, recorded once
    /// in the history, and the match list rebuilt against the mutated
    /// buffer. A match whose replacement end would not fit the
    /// machine's address range is left as it is.
    pub fn replace_all(
        &mut self,
        buffer: &mut TextBuffer,
        cursor: &mut (usize, usize),
        history: &mut CommandHistory,
    )
        requires
            old(buffer).wf(),
            old(history).wf(),
        ensures
            final(buffer).wf(),
            final(history).wf(),
            final(self).query == old(self).query,
            final(self).replace_with == old(self).replace_with,
            final(self).case_sensitive == old(self).case_sensitive,
            final(self).is_open == old(self).is_open,
            final(self).is_replace_mode == old(self).is_replace_mode,
            final(self).focused_field == old(self).focused_field,
            match_views(final(self).matches@) == spec_find_matches(
                final(buffer)@,
                old(self).query@,
                old(self).case_sensitive,
            ),
            final(self).current_match_index == index_after_update(
                old(self).current_match_index,
                spec_find_matches(
                    final(buffer)@,
                    old(self).query@,
                    old(self).case_sensitive,
                ).len() as int,
            ),
            ({
                let b0 = old(buffer)@;
                let q = old(self).query@;
                let cs = old(self).case_sensitive;
                let rw = old(self).replace_with@;
                let ms = spec_find_matches(b0, q, cs);
                &&& final(buffer)@ == apply_replacements(b0, ms, q.len() as int, rw)
                &&& cursor_view(*final(cursor)) == replace_all_cursor(
                    ms,
                    rw.len() as int,
                    cursor_view(*old(cursor)),
                )
                &&& if ms.len() == 0 {
                    *final(history) == *old(history)
                } else {
                    exists|cc: CompositeCommand|
                        {
                            &&& #[trigger] spec_push_rel(
                                *old(history),
                                *final(history),
                                EditCommand::Composite(cc),
                            )
                            &&& seq_apply(cc.commands@, state_of(b0, *old(cursor))) == (EditState {
                                lines: apply_replacements(b0, ms, q.len() as int, rw),
                                cursor: replace_all_cursor(
                                    ms,
                                    rw.len() as int,
                                    cursor_view(*old(cursor)),
                                ),
                            })
                        }
                }
            }),
    {
        let ghost b0 = buffer@;
        let ghost q = self.query@;
        let ghost cs = self.case_sensitive;
        let ghost rw = self.replace_with@;
        let ghost c0 = cursor_view(*cursor);
        let found = find_matches(buffer, self.query.as_str(), self.case_sensitive);
        let ghost msv = match_views(found@);
        if found.len() == 0 {
            self.update_matches(buffer);
            proof {
                assert(apply_replacements(b0, msv, q.len() as int, rw) == b0);
            }
            return ;
        }
        let qn = self.query.as_str().unicode_len();
        let rwlen = self.replace_with.as_str().unicode_len();
        let mut composite = CompositeCommand::new(String::new());
        let ghost st0 = state_of(buffer@, *cursor);
        let n = found.len();
        let mut k: usize = n;
        proof {
            assert(msv.skip(n as int) =~= Seq::<(int, int)>::empty());
            assert(seq_apply(composite.commands@, st0) == st0);
            assert(apply_replacements(b0, msv.skip(n as int), qn as int, rw) == b0);
            assert(replace_all_cursor(msv.skip(n as int), rwlen as int, st0.cursor) == st0.cursor);
        }
        while k > 0
            invariant
                buffer.wf(),
                b0 == buffer@,
                q == self.query@,
                rw == self.replace_with@,
                msv == spec_find_matches(b0, q, cs),
                match_views(found@) == msv,
                found@.len() == msv.len(),
                qn == q.len(),
                rwlen == rw.len(),
                n == msv.len(),
                0 <= k <= n,
                st0 == state_of(buffer@, *cursor),
                composite.wf(),
                seq_apply(composite.commands@, st0) == (EditState {
                    lines: apply_replacements(b0, msv.skip(k as int), qn as int, rw),
                    cursor: replace_all_cursor(msv.skip(k as int), rwlen as int, st0.cursor),
                }),
            decreases k,
        {
            k = k - 1;
            let m = found[k];
            proof {
                assert(m@ == msv[k as int]);
                lemma_matches_in_range(b0, q, cs, 0);
                assert(msv[k as int].1 + q.len() <= b0[msv[k as int].0].len());
                assert(msv.skip(k as int).first() == msv[k as int]);
                assert(msv.skip(k as int).drop_first() =~= msv.skip(k + 1));
                assert(seq![msv[k as int]] + msv.skip(k + 1) =~= msv.skip(k as int));
            }
            if m.col <= usize::MAX - rwlen {
                let cmd = ReplaceTextCommand::new(
                    buffer,
                    (m.line, m.col),
                    qn,
                    self.replace_with.clone(),
                    *cursor,
                );
                proof {
                    assert(cmd.old_text@ == b0[m.line as int].subrange(
                        m.col as int,
                        m.col + qn,
                    ));
                    assert(cmd.old_text@.len() == qn);
                }
                let ghost cmds0 = composite.commands@;
                composite.add(SimpleCommand::ReplaceText(cmd));
                proof {
                    let prev = EditState {
                        lines: apply_replacements(b0, msv.skip(k + 1), qn as int, rw),
                        cursor: replace_all_cursor(msv.skip(k + 1), rwlen as int, st0.cursor),
                    };
                    assert(seq_apply(composite.commands@, st0)
                        == composite.commands@.last().apply(
                        seq_apply(composite.commands@.drop_last(), st0),
                    ));
                    assert(composite.commands@.drop_last() =~= cmds0);
                    lemma_apply_replacements_cons(b0, msv[k as int], msv.skip(k + 1), qn as int, rw);
                    assert(seq_apply(composite.commands@, st0) == (EditState {
                        lines: apply_replacements(b0, msv.skip(k as int), qn as int, rw),
                        cursor: replace_all_cursor(msv.skip(k as int), rwlen as int, st0.cursor),
                    }));
                }
            } else {
                proof {
                    lemma_apply_replacements_cons(b0, msv[k as int], msv.skip(k + 1), qn as int, rw);
                    assert(apply_replacements(b0, msv.skip(k as int), qn as int, rw)
                        == apply_replacements(b0, msv.skip(k + 1), qn as int, rw));
                    assert(replace_all_cursor(msv.skip(k as int), rwlen as int, st0.cursor)
                        == replace_all_cursor(msv.skip(k + 1), rwlen as int, st0.cursor));
                }
            }
        }
        proof {
            assert(msv.skip(0) =~= msv);
        }
        composite.execute(buffer, cursor);
        let ghost gcc = composite;
        history.push(EditCommand::Composite(composite));
        proof {
            assert(spec_push_rel(*old(history), *history, EditCommand::Composite(gcc)));
        }
        self.update_matches(buffer);
    }
}

/// The line-weighted distance from a match to the cursor.
fn dist_of(m: SearchMatch, cl: usize, cc: usize) -> (r: u128)
    ensures
        r == weighted_dist(m@, cl as int, cc as int),
{
    let dl: u128 = if m.line >= cl {
        (m.line - cl) as u128
    } else {
        (cl - m.line) as u128
    };
    let dc: u128 = if m.col >= cc {
        (m.col - cc) as u128
    } else {
        (cc - m.col) as u128
    };
    dl * 1000 + dc
}

} // verus!
