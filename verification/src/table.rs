//! Column-aligned text tables, read the way the `wslc` listings are laid out:
//! the text is split into lines, column starts are byte offsets found in the
//! header line, and each cell is the trimmed text between two offsets.
use crate::text::{trim, trim_to_string};
use vstd::prelude::*;
use vstd::string::StringSliceAdditionalSpecFns;
use vstd::utf8::*;

verus! {

broadcast use vstd::utf8::group_utf8_lib;

pub open spec fn newline() -> u8 {
    10u8
}

pub open spec fn carriage_return() -> u8 {
    13u8
}

/// End of a line that runs from `start` and is terminated by the newline at
/// `nl`: a carriage return just before the newline belongs to the terminator.
pub open spec fn line_stop(t: Seq<u8>, start: int, nl: int) -> int {
    if nl > start && t[nl - 1] == carriage_return() {
        nl - 1
    } else {
        nl
    }
}

/// The byte spans of the lines of `t` that start at or after `start`, where
/// `i` is the scan position (`start <= i`). Lines end at `\n` or `\r\n`; the
/// terminator is not part of the line and a final terminator is optional.
pub open spec fn spans_from(t: Seq<u8>, start: int, i: int) -> Seq<(int, int)>
    decreases t.len() - i,
{
    if i >= t.len() {
        if start < t.len() {
            seq![(start, t.len() as int)]
        } else {
            seq![]
        }
    } else if t[i] == newline() {
        seq![(start, line_stop(t, start, i))] + spans_from(t, i + 1, i + 1)
    } else {
        spans_from(t, start, i + 1)
    }
}

/// The byte spans of the lines of `t`, as `str::lines` yields them.
pub open spec fn line_spans(t: Seq<u8>) -> Seq<(int, int)> {
    spans_from(t, 0, 0)
}

/// Whether `p` occurs in `h` at byte offset `i`.
pub open spec fn bytes_at(h: Seq<u8>, p: Seq<u8>, i: int) -> bool {
    0 <= i && i + p.len() <= h.len() && h.subrange(i, i + p.len()) == p
}

/// The first offset at or after `i` where `p` occurs in `h`.
pub open spec fn find_from(h: Seq<u8>, p: Seq<u8>, i: int) -> Option<int>
    decreases h.len() + 1 - i,
{
    if i < 0 || i + p.len() > h.len() {
        None
    } else if bytes_at(h, p, i) {
        Some(i)
    } else {
        find_from(h, p, i + 1)
    }
}

/// The byte offset of the first occurrence of `p` in `h` (`str::find`).
pub open spec fn find(h: Seq<u8>, p: Seq<u8>) -> Option<int> {
    find_from(h, p, 0)
}

/// The offset of `p` in `h`, or `d` where it does not occur.
pub open spec fn find_or(h: Seq<u8>, p: Seq<u8>, d: int) -> int {
    match find(h, p) {
        Some(i) => i,
        None => d,
    }
}

/// Whether byte offset `a` of `r` starts a character or is the end of `r`.
pub open spec fn at_boundary(r: Seq<u8>, a: int) -> bool {
    a == r.len() || (0 <= a < r.len() && !is_continuation_byte(r[a]))
}

/// The cell of `r` between byte offsets `a` and `b`, trimmed; `None` where
/// slicing `r[a..b]` is out of range or splits a character, which is where
/// string slicing panics.
pub open spec fn cut(r: Seq<u8>, a: int, b: int) -> Option<Seq<char>> {
    if 0 <= a <= b <= r.len() && at_boundary(r, a) && at_boundary(r, b) {
        Some(trim(decode_utf8(r.subrange(a, b))))
    } else {
        None
    }
}

/// Whether `r` starts with the bytes `p`.
pub open spec fn starts_with_bytes(r: Seq<u8>, p: Seq<u8>) -> bool {
    bytes_at(r, p, 0)
}

/// Whether the line `r`, trimmed, is empty (`line.trim().is_empty()`).
pub open spec fn blank_line(r: Seq<u8>) -> bool {
    trim(decode_utf8(r)).len() == 0
}

/// The bytes of line `k` of `t`.
pub open spec fn line_bytes(t: Seq<u8>, k: int) -> Seq<u8> {
    t.subrange(line_spans(t)[k].0, line_spans(t)[k].1)
}

/// What reading one body line of a table gives.
pub enum Row<T> {
    /// The line is not a record and is passed over.
    Skip,
    /// The line is a record.
    Take(T),
    /// Reading the line slices out of range or inside a character.
    Fault,
}

/// The records of `rows` in order, or `None` where any row faults.
pub open spec fn collect_rows<T>(rows: Seq<Row<T>>) -> Option<Seq<T>>
    decreases rows.len(),
{
    if rows.len() == 0 {
        Some(seq![])
    } else {
        match collect_rows(rows.drop_last()) {
            None => None,
            Some(acc) => match rows.last() {
                Row::Skip => Some(acc),
                Row::Take(x) => Some(acc.push(x)),
                Row::Fault => None,
            },
        }
    }
}

// ---------------------------------------------------------------------------
// Facts about the specifications above.

/// The ends of the line spans produced from scan position `i`.
pub open spec fn span_ok(t: Seq<u8>, start: int, sp: (int, int)) -> bool {
    &&& start <= sp.0 <= sp.1 <= t.len()
    &&& sp.0 == 0 || t[sp.0 - 1] == newline()
    &&& sp.1 == t.len() || t[sp.1] == newline() || t[sp.1] == carriage_return()
}

proof fn lemma_spans_from_bounds(t: Seq<u8>, start: int, i: int)
    requires
        0 <= start <= i <= t.len(),
        start == 0 || t[start - 1] == newline(),
    ensures
        forall|k: int|
            0 <= k < spans_from(t, start, i).len() ==> span_ok(
                t,
                start,
                #[trigger] spans_from(t, start, i)[k],
            ),
    decreases t.len() - i,
{
    let all = spans_from(t, start, i);
    if i >= t.len() {
        if start < t.len() {
            assert(all == seq![(start, t.len() as int)]);
            assert(span_ok(t, start, all[0]));
        } else {
            assert(all.len() == 0);
        }
    } else if t[i] == newline() {
        lemma_spans_from_bounds(t, i + 1, i + 1);
        let rest = spans_from(t, i + 1, i + 1);
        assert(all == seq![(start, line_stop(t, start, i))] + rest);
        assert forall|k: int| 0 <= k < all.len() implies span_ok(t, start, #[trigger] all[k]) by {
            if k > 0 {
                assert(all[k] == rest[k - 1]);
                assert(span_ok(t, i + 1, rest[k - 1]));
            } else {
                assert(all[0] == (start, line_stop(t, start, i)));
            }
        }
    } else {
        lemma_spans_from_bounds(t, start, i + 1);
        assert(all == spans_from(t, start, i + 1));
    }
}

/// Every line span lies inside the text, and its end is followed by a line
/// terminator or by the end of the text.
pub proof fn lemma_line_spans_bounds(t: Seq<u8>)
    ensures
        forall|k: int|
            0 <= k < line_spans(t).len() ==> span_ok(t, 0, #[trigger] line_spans(t)[k]),
{
    lemma_spans_from_bounds(t, 0, 0);
}

/// In valid UTF-8, a byte offset is a character boundary of a sub-span that
/// starts and ends on boundaries exactly when it is one of the whole text.
proof fn lemma_boundary_sub(t: Seq<u8>, s: int, e: int, a: int)
    requires
        valid_utf8(t),
        0 <= s <= e <= t.len(),
        is_char_boundary(t, s),
        is_char_boundary(t, e),
        0 <= a <= e - s,
    ensures
        at_boundary(t.subrange(s, e), a) <==> is_char_boundary(t, s + a),
{
    let r = t.subrange(s, e);
    if a < e - s {
        assert(r[a] == t[s + a]);
        is_char_boundary_iff_not_is_continuation_byte(t, s + a);
    }
}

proof fn lemma_find_from_bound(h: Seq<u8>, p: Seq<u8>, i: int)
    ensures
        find_from(h, p, i) matches Some(j) ==> i <= j && j + p.len() <= h.len(),
    decreases h.len() + 1 - i,
{
    if i < 0 || i + p.len() > h.len() {
    } else if bytes_at(h, p, i) {
    } else {
        lemma_find_from_bound(h, p, i + 1);
    }
}

/// A match that `find` reports lies inside the text searched.
pub proof fn lemma_find_bound(h: Seq<u8>, p: Seq<u8>)
    ensures
        find(h, p) matches Some(j) ==> 0 <= j && j + p.len() <= h.len(),
{
    lemma_find_from_bound(h, p, 0);
}

/// In valid UTF-8 the byte after an ASCII byte starts a character.
proof fn lemma_after_ascii(t: Seq<u8>, i: int)
    requires
        valid_utf8(t),
        0 <= i < t.len(),
        t[i] < 0x80,
    ensures
        is_char_boundary(t, i + 1),
{
    is_char_boundary_iff_not_is_continuation_byte(t, i);
    valid_utf8_split(t, i);
    let u = t.subrange(i, t.len() as int);
    assert(u[0] == t[i]);
    assert(valid_first_scalar(u) && valid_utf8(pop_first_scalar(u)));
    assert(length_of_first_scalar(u) == 1);
    let w = pop_first_scalar(u);
    assert(w =~= t.subrange(i + 1, t.len() as int));
    if i + 1 < t.len() {
        is_char_boundary_iff_not_is_continuation_byte(w, 0);
        assert(w[0] == t[i + 1]);
        is_char_boundary_iff_not_is_continuation_byte(t, i + 1);
    } else {
        is_char_boundary_start_end_of_seq(t);
    }
}

/// In valid UTF-8 every line starts and ends on character boundaries.
pub proof fn lemma_line_boundaries(t: Seq<u8>)
    requires
        valid_utf8(t),
    ensures
        forall|k: int|
            0 <= k < line_spans(t).len() ==> 0 <= #[trigger] line_spans(t)[k].0 <= line_spans(
                t,
            )[k].1 <= t.len() && is_char_boundary(t, line_spans(t)[k].0) && is_char_boundary(
                t,
                line_spans(t)[k].1,
            ),
{
    lemma_line_spans_bounds(t);
    is_char_boundary_start_end_of_seq(t);
    assert forall|k: int| 0 <= k < line_spans(t).len() implies 0 <= #[trigger] line_spans(
        t,
    )[k].0 <= line_spans(t)[k].1 <= t.len() && is_char_boundary(t, line_spans(t)[k].0)
        && is_char_boundary(t, line_spans(t)[k].1) by {
        let sp = line_spans(t)[k];
        assert(span_ok(t, 0, sp));
        if sp.0 > 0 {
            lemma_after_ascii(t, sp.0 - 1);
        }
        if sp.1 < t.len() {
            is_char_boundary_iff_not_is_continuation_byte(t, sp.1);
        }
    }
}

/// The cell `r[a..b]` where the line reaches `b`, else `r[a..]`.
pub open spec fn cut_to(r: Seq<u8>, a: int, b: int) -> Option<Seq<char>> {
    if r.len() >= b {
        cut(r, a, b)
    } else {
        cut(r, a, r.len() as int)
    }
}

/// The cell `r[a..b]` where the line reaches `b`, else `d`.
pub open spec fn cut_or(r: Seq<u8>, a: int, b: int, d: Seq<char>) -> Option<Seq<char>> {
    if r.len() >= b {
        cut(r, a, b)
    } else {
        Some(d)
    }
}

/// The cell `r[a..]` where the line is longer than `a`, else `d`.
pub open spec fn tail_or(r: Seq<u8>, a: int, d: Seq<char>) -> Option<Seq<char>> {
    if r.len() > a {
        cut(r, a, r.len() as int)
    } else {
        Some(d)
    }
}

/// What reading each body line (every line after the header) gives.
pub open spec fn body_rows<T>(t: Seq<u8>, f: spec_fn(Seq<u8>) -> Row<T>) -> Seq<Row<T>> {
    Seq::new((line_spans(t).len() - 1) as nat, |k: int| f(line_bytes(t, k + 1)))
}

/// The records of a table whose body lines read as `f` says; no lines, no records.
pub open spec fn read_table<T>(t: Seq<u8>, f: spec_fn(Seq<u8>) -> Row<T>) -> Option<Seq<T>> {
    if line_spans(t).len() == 0 {
        Some(seq![])
    } else {
        collect_rows(body_rows(t, f))
    }
}

/// A row of records mapped to their views.
pub open spec fn row_view<T: View>(r: Row<T>) -> Row<T::V> {
    match r {
        Row::Skip => Row::Skip,
        Row::Take(x) => Row::Take(x@),
        Row::Fault => Row::Fault,
    }
}

/// Reading one more row extends the records read so far.
pub proof fn lemma_collect_step<T>(rows: Seq<Row<T>>, k: int)
    requires
        0 <= k < rows.len(),
    ensures
        collect_rows(rows.take(k + 1)) == match collect_rows(rows.take(k)) {
            None => None,
            Some(acc) => match rows[k] {
                Row::Skip => Some(acc),
                Row::Take(x) => Some(acc.push(x)),
                Row::Fault => None,
            },
        },
{
    assert(rows.take(k + 1).drop_last() =~= rows.take(k));
    assert(rows.take(k + 1).last() == rows[k]);
}

/// Once a prefix of the rows faults, the whole table does.
pub proof fn lemma_collect_fault<T>(rows: Seq<Row<T>>, k: int)
    requires
        0 <= k <= rows.len(),
        collect_rows(rows.take(k)) is None,
    ensures
        collect_rows(rows) is None,
    decreases rows.len() - k,
{
    if k == rows.len() {
        assert(rows.take(k) =~= rows);
    } else {
        lemma_collect_step(rows, k);
        lemma_collect_fault(rows, k + 1);
    }
}

// ---------------------------------------------------------------------------
// Executable counterparts.

/// The byte spans of the lines of `t`.
pub fn lines_of(t: &[u8]) -> (res: Vec<(usize, usize)>)
    ensures
        res@.len() == line_spans(t@).len(),
        forall|k: int|
            0 <= k < res@.len() ==> (#[trigger] res@[k]).0 == line_spans(t@)[k].0 && res@[k].1
                == line_spans(t@)[k].1,
{
    let n = t.len();
    let mut res: Vec<(usize, usize)> = Vec::new();
    let mut start: usize = 0;
    let mut i: usize = 0;
    while i < n
        invariant
            n == t@.len(),
            start <= i <= n,
            res@.len() + spans_from(t@, start as int, i as int).len() == line_spans(t@).len(),
            forall|k: int|
                0 <= k < res@.len() ==> (#[trigger] res@[k]).0 == line_spans(t@)[k].0 && res@[k].1
                    == line_spans(t@)[k].1,
            forall|k: int|
                0 <= k < spans_from(t@, start as int, i as int).len() ==> #[trigger] spans_from(
                    t@,
                    start as int,
                    i as int,
                )[k] == line_spans(t@)[res@.len() + k],
        decreases n - i,
    {
        if t[i] == 10u8 {
            let stop: usize = if i > start && t[i - 1] == 13u8 {
                i - 1
            } else {
                i
            };
            let ghost before = spans_from(t@, start as int, i as int);
            let ghost after = spans_from(t@, (i + 1) as int, (i + 1) as int);
            assert(before == seq![(start as int, stop as int)] + after);
            assert(before[0] == line_spans(t@)[res@.len() as int]);
            assert forall|k: int| 0 <= k < after.len() implies #[trigger] after[k] == line_spans(
                t@,
            )[res@.len() + 1 + k] by {
                assert(after[k] == before[k + 1]);
            }
            res.push((start, stop));
            start = i + 1;
        }
        i = i + 1;
    }
    if start < n {
        assert(spans_from(t@, start as int, n as int) == seq![(start as int, n as int)]);
        assert(spans_from(t@, start as int, n as int)[0] == line_spans(t@)[res@.len() as int]);
        res.push((start, n));
    }
    res
}

/// Whether `p` occurs in `t` at offset `off`.
pub fn bytes_match(t: &[u8], off: usize, p: &[u8]) -> (res: bool)
    requires
        off + p@.len() <= t@.len(),
    ensures
        res == (t@.subrange(off as int, off + p@.len()) == p@),
{
    let tl = t.len();
    let mut k: usize = 0;
    while k < p.len()
        invariant
            tl == t@.len(),
            off + p@.len() <= t@.len(),
            k <= p@.len(),
            forall|m: int| 0 <= m < k ==> t@[off + m] == p@[m],
        decreases p@.len() - k,
    {
        if t[off + k] != p[k] {
            assert(t@.subrange(off as int, off + p@.len())[k as int] != p@[k as int]);
            return false;
        }
        k = k + 1;
    }
    assert(t@.subrange(off as int, off + p@.len()) =~= p@);
    true
}

/// The offset of the first occurrence of `p` in the span `t[s..e]`,
/// relative to `s`.
pub fn find_in(t: &[u8], s: usize, e: usize, p: &[u8]) -> (res: Option<usize>)
    requires
        s <= e <= t@.len(),
    ensures
        res matches Some(i) ==> find(t@.subrange(s as int, e as int), p@) == Some(i as int),
        res is None ==> find(t@.subrange(s as int, e as int), p@) is None,
{
    let ghost h = t@.subrange(s as int, e as int);
    if p.len() == 0 {
        assert(h.subrange(0, 0) =~= p@);
        return Some(0);
    }
    let mut i: usize = 0;
    let len = e - s;
    while p.len() <= len && i <= len - p.len()
        invariant
            p@.len() > 0,
            s <= e <= t@.len(),
            len == e - s,
            h == t@.subrange(s as int, e as int),
            find(h, p@) == find_from(h, p@, i as int),
        decreases len - i,
    {
        if bytes_match(t, s + i, p) {
            assert(h.subrange(i as int, i + p@.len()) =~= t@.subrange(s + i, s + i + p@.len()));
            return Some(i);
        }
        assert(h.subrange(i as int, i + p@.len()) =~= t@.subrange(s + i, s + i + p@.len()));
        i = i + 1;
    }
    None
}

/// The trimmed cell `r[a..b]` of the line `r = text[s..e]`, or `None` where
/// that slice is out of range or splits a character.
pub fn cut_cell(text: &str, s: usize, e: usize, a: usize, b: usize) -> (res: Option<String>)
    requires
        s <= e <= text.spec_bytes().len(),
        is_char_boundary(text.spec_bytes(), s as int),
        is_char_boundary(text.spec_bytes(), e as int),
    ensures
        res matches Some(c) ==> cut(text.spec_bytes().subrange(s as int, e as int), a as int, b as int)
            == Some(c@),
        res is None ==> cut(text.spec_bytes().subrange(s as int, e as int), a as int, b as int) is None,
{
    let ghost t = text.spec_bytes();
    let ghost r = t.subrange(s as int, e as int);
    if a > b || b > e - s {
        return None;
    }
    let start = s + a;
    let stop = s + b;
    proof {
        lemma_boundary_sub(t, s as int, e as int, a as int);
        lemma_boundary_sub(t, s as int, e as int, b as int);
    }
    if !(text.is_char_boundary(start) && text.is_char_boundary(stop)) {
        return None;
    }
    let (_, rest) = text.split_at(start);
    proof {
        valid_utf8_split(t, start as int);
        let rb = rest.spec_bytes();
        assert(rb =~= t.subrange(start as int, t.len() as int));
        if stop < t.len() {
            assert(rb[(b - a) as int] == t[stop as int]);
            is_char_boundary_iff_not_is_continuation_byte(rb, (b - a) as int);
            is_char_boundary_iff_not_is_continuation_byte(t, stop as int);
        } else {
            is_char_boundary_start_end_of_seq(rb);
        }
    }
    let (mid, _) = rest.split_at(b - a);
    proof {
        assert(mid.spec_bytes() =~= r.subrange(a as int, b as int));
        encode_utf8_decode_utf8(mid@);
    }
    Some(trim_to_string(mid))
}

/// The whole line `text[s..e]`, trimmed.
pub fn line_trimmed(text: &str, s: usize, e: usize) -> (res: String)
    requires
        s <= e <= text.spec_bytes().len(),
        is_char_boundary(text.spec_bytes(), s as int),
        is_char_boundary(text.spec_bytes(), e as int),
    ensures
        res@ == trim(decode_utf8(text.spec_bytes().subrange(s as int, e as int))),
{
    let ghost t = text.spec_bytes();
    let ghost r = t.subrange(s as int, e as int);
    proof {
        if e > s {
            lemma_boundary_sub(t, s as int, e as int, 0);
        }
        assert(r.subrange(0, r.len() as int) =~= r);
    }
    match cut_cell(text, s, e, 0, e - s) {
        Some(x) => x,
        None => {
            assert(false);
            String::new()
        },
    }
}

/// Whether the line `text[s..e]` starts with the bytes `p`.
pub fn line_starts_with(t: &[u8], s: usize, e: usize, p: &[u8]) -> (res: bool)
    requires
        s <= e <= t@.len(),
    ensures
        res == starts_with_bytes(t@.subrange(s as int, e as int), p@),
{
    if p.len() > e - s {
        return false;
    }
    let r = bytes_match(t, s, p);
    assert(t@.subrange(s as int, e as int).subrange(0, p@.len() as int) =~= t@.subrange(
        s as int,
        s + p@.len(),
    ));
    r
}

/// Executable `cut_to`.
pub fn cut_to_cell(text: &str, s: usize, e: usize, a: usize, b: usize) -> (res: Option<String>)
    requires
        s <= e <= text.spec_bytes().len(),
        is_char_boundary(text.spec_bytes(), s as int),
        is_char_boundary(text.spec_bytes(), e as int),
    ensures
        res matches Some(c) ==> cut_to(text.spec_bytes().subrange(s as int, e as int), a as int, b as int)
            == Some(c@),
        res is None ==> cut_to(text.spec_bytes().subrange(s as int, e as int), a as int, b as int) is None,
{
    if e - s >= b {
        cut_cell(text, s, e, a, b)
    } else {
        cut_cell(text, s, e, a, e - s)
    }
}

/// Executable `cut_or`.
pub fn cut_or_cell(text: &str, s: usize, e: usize, a: usize, b: usize, d: &str) -> (res: Option<String>)
    requires
        s <= e <= text.spec_bytes().len(),
        is_char_boundary(text.spec_bytes(), s as int),
        is_char_boundary(text.spec_bytes(), e as int),
    ensures
        res matches Some(c) ==> cut_or(text.spec_bytes().subrange(s as int, e as int), a as int, b as int, d@)
            == Some(c@),
        res is None ==> cut_or(text.spec_bytes().subrange(s as int, e as int), a as int, b as int, d@) is None,
{
    if e - s >= b {
        cut_cell(text, s, e, a, b)
    } else {
        Some(d.to_string())
    }
}

/// Executable `tail_or`.
pub fn tail_or_cell(text: &str, s: usize, e: usize, a: usize, d: &str) -> (res: Option<String>)
    requires
        s <= e <= text.spec_bytes().len(),
        is_char_boundary(text.spec_bytes(), s as int),
        is_char_boundary(text.spec_bytes(), e as int),
    ensures
        res matches Some(c) ==> tail_or(text.spec_bytes().subrange(s as int, e as int), a as int, d@)
            == Some(c@),
        res is None ==> tail_or(text.spec_bytes().subrange(s as int, e as int), a as int, d@) is None,
{
    if e - s > a {
        cut_cell(text, s, e, a, e - s)
    } else {
        Some(d.to_string())
    }
}

} // verus!
