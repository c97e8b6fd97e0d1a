use vstd::prelude::*;

use crate::range::{Movement, Range};
use crate::view::TextView;

verus! {

/// Both ends of `r` lie within the buffer of `v`.
pub open spec fn range_in(v: TextView, r: Range) -> bool {
    r.anchor <= v.len_spec() && r.head <= v.len_spec()
}

/// The position of the block cursor: the grapheme before `head` when the
/// range points forward, else `head` itself.
pub open spec fn cursor_of(v: TextView, r: Range) -> int {
    if r.head > r.anchor {
        v.prev_boundary(r.head as int)
    } else {
        r.head as int
    }
}

/// The range after placing the cursor at `c` and extending to it: the anchor
/// stays, but moves over one grapheme where the head crosses it.
pub open spec fn put_cursor_extend(v: TextView, r: Range, c: int) -> Range {
    let anchor = if r.head >= r.anchor && c < r.anchor {
        v.next_boundary(r.anchor as int)
    } else if r.head < r.anchor && c >= r.anchor {
        v.prev_boundary(r.anchor as int)
    } else {
        r.anchor as int
    };
    if anchor <= c {
        Range { anchor: anchor as usize, head: v.next_boundary(c) as usize }
    } else {
        Range { anchor: anchor as usize, head: c as usize }
    }
}

impl Range {
    pub fn cursor(&self, v: &TextView) -> (c: usize)
        requires
            v.wf(),
            range_in(*v, *self),
        ensures
            c == cursor_of(*v, *self),
            c <= v.len_spec(),
    {
        if self.head > self.anchor {
            v.prev_grapheme_boundary(self.head)
        } else {
            self.head
        }
    }

    pub fn put_cursor(&self, v: &TextView, c: usize) -> (r: Range)
        requires
            v.wf(),
            range_in(*v, *self),
            c <= v.len_spec(),
        ensures
            r == put_cursor_extend(*v, *self, c as int),
            range_in(*v, r),
    {
        let anchor = if self.head >= self.anchor && c < self.anchor {
            v.next_grapheme_boundary(self.anchor)
        } else if self.head < self.anchor && c >= self.anchor {
            v.prev_grapheme_boundary(self.anchor)
        } else {
            self.anchor
        };
        if anchor <= c {
            Range { anchor, head: v.next_grapheme_boundary(c) }
        } else {
            Range { anchor, head: c }
        }
    }
}

/// From line `l` on, the first line that is not blank (or the line count).
pub open spec fn skip_blank_fwd(v: TextView, l: int) -> int
    decreases v.n_lines() - l,
{
    if 0 <= l < v.n_lines() && v.is_blank_spec(l) {
        skip_blank_fwd(v, l + 1)
    } else {
        l
    }
}

/// From line `l` on, the first line that is blank (or the line count).
pub open spec fn skip_text_fwd(v: TextView, l: int) -> int
    decreases v.n_lines() - l,
{
    if 0 <= l < v.n_lines() && !v.is_blank_spec(l) {
        skip_text_fwd(v, l + 1)
    } else {
        l
    }
}

/// The line on which up to `count` forward paragraph steps from line `l`
/// come to rest: the blank line after each paragraph, or the line count (the
/// end of the buffer) where a step passes lines and meets no blank one;
/// `found` where the last step passes no line at all.
pub open spec fn forward_target(v: TextView, l: int, count: nat, found: Option<int>) -> Option<int>
    decreases count,
{
    if count == 0 {
        found
    } else {
        let b = skip_text_fwd(v, skip_blank_fwd(v, l));
        if b < v.n_lines() {
            forward_target(v, b + 1, (count - 1) as nat, Some(b))
        } else if b != l {
            Some(v.n_lines())
        } else {
            found
        }
    }
}

/// The cursor sits on the tail of a blank line that a non-blank line follows.
pub open spec fn forward_adjusts(v: TextView, r: Range) -> bool {
    let c = cursor_of(v, r);
    let cl = v.line_of(c);
    &&& cl + 1 < v.n_lines()
    &&& v.is_blank_spec(cl)
    &&& !v.is_blank_spec(cl + 1)
    &&& v.prev_boundary(v.line_start(cl + 1)) == c
}

/// No line from `lo` up to `hi` (excluded) is blank.
pub open spec fn no_blank_in(v: TextView, lo: int, hi: int) -> bool {
    forall|i: int| lo <= i < hi ==> !(#[trigger] v.is_blank_spec(i))
}

/// Line `cl` lies in the last paragraph: neither it nor a line after it is
/// blank.
pub open spec fn in_last_paragraph(v: TextView, cl: int) -> bool {
    no_blank_in(v, cl, v.n_lines())
}

/// Line `cl` lies in the first paragraph: neither it nor a line before it is
/// blank.
pub open spec fn in_first_paragraph(v: TextView, cl: int) -> bool {
    no_blank_in(v, 0, cl + 1)
}

/// The range that `count` forward paragraph motions give from `r`. In a
/// single-line buffer, or with the cursor in the last paragraph, the range
/// stays as it is.
pub open spec fn paragraph_forward(v: TextView, r: Range, count: nat, mode: Movement) -> Range {
    let adj = forward_adjusts(v, r);
    let cl = v.line_of(cursor_of(v, r));
    let start = if adj { cl + 1 } else { cl };
    if v.n_lines() <= 1 || in_last_paragraph(v, cl) {
        r
    } else {
    match forward_target(v, start, count, None) {
        None => r,
        Some(t) => {
            let head = v.line_start(t) as usize;
            let anchor = match mode {
                Movement::Move => if adj { r.head } else { head },
                Movement::Extend => put_cursor_extend(v, r, head as int).anchor,
            };
            Range { anchor, head }
        },
    }
    }
}

pub open spec fn found_line(landed: bool, t: usize) -> Option<int> {
    if landed { Some(t as int) } else { None }
}

/// Moves `range` forward over `count` paragraphs. Each step skips blank
/// lines, then the paragraph, and rests at the start of the blank line that
/// follows it, or at the end of the buffer where no blank line follows; a
/// step that passes no line ends the motion. In a single-line buffer, or with
/// the cursor in the last paragraph, the range comes back unchanged.
pub fn evil_movement_paragraph_forward(
    slice: &TextView,
    range: Range,
    count: usize,
    behaviour: Movement,
) -> (r: Range)
    requires
        slice.wf(),
        range_in(*slice, range),
    ensures
        r == paragraph_forward(*slice, range, count as nat, behaviour),
        range_in(*slice, r),
{
    let n = slice.len_lines();
    let c = range.cursor(slice);
    let cl = slice.char_to_line(c);
    if n <= 1 || no_blank_between(slice, cl, n) {
        return range;
    }
    let adj = cl + 1 < n && slice.is_blank(cl) && !slice.is_blank(cl + 1)
        && slice.prev_grapheme_boundary(slice.line_to_char(cl + 1)) == c;
    let mut line: usize = if adj { cl + 1 } else { cl };
    let ghost start = line as int;
    let mut landed: bool = false;
    let mut target: usize = 0;
    let mut done: bool = false;
    let mut k: usize = 0;
    while k < count && !done
        invariant
            slice.wf(),
            n == slice.n_lines(),
            k <= count,
            line <= n,
            landed ==> target <= n,
            done ==> forward_target(*slice, start, count as nat, None) == found_line(landed, target),
            !done ==> forward_target(*slice, start, count as nat, None) == forward_target(
                *slice,
                line as int,
                (count - k) as nat,
                found_line(landed, target),
            ),
        decreases count - k,
    {
        let l0: usize = line;
        while line < n && slice.is_blank(line)
            invariant
                slice.wf(),
                n == slice.n_lines(),
                l0 <= line <= n,
                skip_blank_fwd(*slice, line as int) == skip_blank_fwd(*slice, l0 as int),
            decreases n - line,
        {
            line += 1;
        }
        let ghost l1 = line as int;
        while line < n && !slice.is_blank(line)
            invariant
                slice.wf(),
                n == slice.n_lines(),
                l1 <= line <= n,
                skip_text_fwd(*slice, line as int) == skip_text_fwd(*slice, l1),
            decreases n - line,
        {
            line += 1;
        }
        if line < n {
            landed = true;
            target = line;
            line += 1;
        } else {
            if line != l0 {
                landed = true;
                target = n;
            }
            done = true;
        }
        k += 1;
    }
    if !landed {
        return range;
    }
    let head = slice.line_to_char(target);
    let anchor = match behaviour {
        Movement::Move => if adj {
            range.head
        } else {
            head
        },
        Movement::Extend => range.put_cursor(slice, head).anchor,
    };
    Range::new(anchor, head)
}

/// Below line `t` (lines `0..t`, scanning down), the count of lines left once
/// the blank lines right below `t` are passed.
pub open spec fn skip_blank_bwd(v: TextView, t: int) -> int
    decreases t,
{
    if 0 < t <= v.n_lines() && v.is_blank_spec(t - 1) {
        skip_blank_bwd(v, t - 1)
    } else {
        t
    }
}

/// Below line `t`, the count of lines left once the non-blank lines right
/// below `t` are passed.
pub open spec fn skip_text_bwd(v: TextView, t: int) -> int
    decreases t,
{
    if 0 < t <= v.n_lines() && !v.is_blank_spec(t - 1) {
        skip_text_bwd(v, t - 1)
    } else {
        t
    }
}

/// The line on which up to `count` backward paragraph steps over the lines
/// below `t` come to rest: the blank line before each paragraph, or line 0
/// (the start of the buffer) where a step passes lines and meets no blank
/// one; `found` where the last step passes no line at all.
pub open spec fn backward_target(v: TextView, t: int, count: nat, found: Option<int>) -> Option<
    int,
>
    decreases count,
{
    if count == 0 {
        found
    } else {
        let b = skip_text_bwd(v, skip_blank_bwd(v, t));
        if b > 0 {
            backward_target(v, b - 1, (count - 1) as nat, Some(b - 1))
        } else if b != t {
            Some(0)
        } else {
            found
        }
    }
}

/// The cursor sits on the first grapheme of a non-blank line that follows a
/// blank line.
pub open spec fn backward_adjusts(v: TextView, r: Range) -> bool {
    let c = cursor_of(v, r);
    let cl = v.line_of(c);
    &&& cl > 0
    &&& v.is_blank_spec(cl - 1)
    &&& !v.is_blank_spec(cl)
    &&& c == v.line_start(cl)
}

/// The range that `count` backward paragraph motions give from `r`. In a
/// single-line buffer, or with the cursor in the first paragraph, the range
/// stays as it is.
pub open spec fn paragraph_backward(v: TextView, r: Range, count: nat, mode: Movement) -> Range {
    let adj = backward_adjusts(v, r);
    let cl = v.line_of(cursor_of(v, r));
    let start = if adj { cl } else { cl + 1 };
    if v.n_lines() <= 1 || in_first_paragraph(v, cl) {
        r
    } else {
    match backward_target(v, start, count, None) {
        None => r,
        Some(t) => {
            let head = v.line_start(t) as usize;
            let anchor = match mode {
                Movement::Move => if adj { r.head } else { head },
                Movement::Extend => put_cursor_extend(v, r, head as int).anchor,
            };
            Range { anchor, head }
        },
    }
    }
}

/// Moves `range` backward over `count` paragraphs, mirroring the forward
/// motion: each step passes blank lines, then the paragraph above them, and
/// rests at the start of the blank line that leads it, or at the start of the
/// buffer where no blank line leads it. In a single-line buffer, or with the
/// cursor in the first paragraph, the range comes back unchanged.
pub fn evil_movement_paragraph_backward(
    slice: &TextView,
    range: Range,
    count: usize,
    movement: Movement,
) -> (r: Range)
    requires
        slice.wf(),
        range_in(*slice, range),
    ensures
        r == paragraph_backward(*slice, range, count as nat, movement),
        range_in(*slice, r),
{
    let n = slice.len_lines();
    let c = range.cursor(slice);
    let cl = slice.char_to_line(c);
    if n <= 1 || no_blank_between(slice, 0, cl + 1) {
        return range;
    }
    let adj = cl > 0 && slice.is_blank(cl - 1) && !slice.is_blank(cl) && c == slice.line_to_char(
        cl,
    );
    let mut top: usize = if adj { cl } else { cl + 1 };
    let ghost start = top as int;
    let mut landed: bool = false;
    let mut target: usize = 0;
    let mut done: bool = false;
    let mut k: usize = 0;
    while k < count && !done
        invariant
            slice.wf(),
            n == slice.n_lines(),
            k <= count,
            top <= n,
            landed ==> target < n,
            done ==> backward_target(*slice, start, count as nat, None) == found_line(landed, target),
            !done ==> backward_target(*slice, start, count as nat, None) == backward_target(
                *slice,
                top as int,
                (count - k) as nat,
                found_line(landed, target),
            ),
        decreases count - k,
    {
        let t0: usize = top;
        while top > 0 && slice.is_blank(top - 1)
            invariant
                slice.wf(),
                n == slice.n_lines(),
                top <= t0 <= n,
                skip_blank_bwd(*slice, top as int) == skip_blank_bwd(*slice, t0 as int),
            decreases top,
        {
            top -= 1;
        }
        let ghost t1 = top as int;
        while top > 0 && !slice.is_blank(top - 1)
            invariant
                slice.wf(),
                n == slice.n_lines(),
                top <= t1 <= n,
                skip_text_bwd(*slice, top as int) == skip_text_bwd(*slice, t1),
            decreases top,
        {
            top -= 1;
        }
        if top > 0 {
            landed = true;
            target = top - 1;
            top -= 1;
        } else {
            if top != t0 {
                landed = true;
                target = 0;
            }
            done = true;
        }
        k += 1;
    }
    if !landed {
        return range;
    }
    let head = slice.line_to_char(target);
    let anchor = match movement {
        Movement::Move => if adj {
            range.head
        } else {
            head
        },
        Movement::Extend => range.put_cursor(slice, head).anchor,
    };
    Range::new(anchor, head)
}

/// Whether no line from `lo` up to `hi` (excluded) is blank.
fn no_blank_between(v: &TextView, lo: usize, hi: usize) -> (r: bool)
    requires
        v.wf(),
        hi <= v.n_lines(),
    ensures
        r == no_blank_in(*v, lo as int, hi as int),
{
    let mut i: usize = lo;
    while i < hi
        invariant
            v.wf(),
            hi <= v.n_lines(),
            lo <= i,
            no_blank_in(*v, lo as int, i as int),
        decreases hi - i,
    {
        if v.is_blank(i) {
            return false;
        }
        i += 1;
    }
    true
}

/// Passing the non-blank lines from `l` stops at `m`, where `m` is blank or
/// the line count.
proof fn lemma_skip_text_to(v: TextView, l: int, m: int)
    requires
        0 <= l <= m <= v.n_lines(),
        no_blank_in(v, l, m),
        m < v.n_lines() ==> v.is_blank_spec(m),
    ensures
        skip_text_fwd(v, l) == m,
    decreases m - l,
{
    if l < m {
        assert(!v.is_blank_spec(l));
        lemma_skip_text_to(v, l + 1, m);
    }
}

/// Where the cursor stands in the last paragraph of a buffer, followed at
/// most by the empty line after a final line break, the forward paragraph
/// motion is idempotent: applying it again gives the same range.
pub proof fn lemma_forward_final_paragraph(v: TextView, r: Range, count: nat, mode: Movement)
    requires
        v.wf(),
        range_in(v, r),
        !v.is_blank_spec(v.line_of(cursor_of(v, r))),
        no_blank_in(v, v.line_of(cursor_of(v, r)) + 1, v.n_lines() - 1),
        v.is_blank_spec(v.n_lines() - 1) ==> v.line_start(v.n_lines() - 1) == v.len_spec(),
    ensures
        paragraph_forward(v, paragraph_forward(v, r, count, mode), count, mode)
            == paragraph_forward(v, r, count, mode),
{
    let n = v.n_lines();
    let c = cursor_of(v, r);
    let cl = v.line_of(c);
    lemma_cursor_in(v, r);
    lemma_line_of_in(v, c, n - 1);
    if !v.is_blank_spec(n - 1) || count == 0 {
        if !v.is_blank_spec(n - 1) {
            assert(in_last_paragraph(v, cl));
        }
        return;
    }
    let len = v.len_spec() as int;
    assert(cl < n - 1);
    assert(!in_last_paragraph(v, cl));
    assert(!forward_adjusts(v, r));
    lemma_skip_text_to(v, cl, n - 1);
    assert(skip_blank_fwd(v, cl) == cl);
    assert(skip_text_fwd(v, n) == n);
    assert(skip_blank_fwd(v, n) == n);
    assert(forward_target(v, n, (count - 1) as nat, Some(n - 1)) == Some(n - 1));
    assert(forward_target(v, cl, count, None) == Some(n - 1));
    let r1 = paragraph_forward(v, r, count, mode);
    assert(r1.head == len);
    lemma_put_cursor_in(v, r, len);
    assert(r1.anchor <= len);
    let c1 = cursor_of(v, r1);
    let cl1 = v.line_of(c1);
    lemma_cursor_in(v, r1);
    lemma_line_of_in(v, c1, n - 1);
    // the cursor of `r1` lies at or after the start of the cursor line of `r`
    assert(v.starts()[cl] < v.starts()[n - 1]);
    if r1.head > r1.anchor {
        let m = choose|m: int| 0 <= m < v.bounds().len() && v.bounds()[m] == v.starts()[cl];
        lemma_prev_bound_at_least(v, len, v.bounds().len() as int, m);
    }
    lemma_line_of_at_least(v, c1, n - 1, cl);
    assert(cl <= cl1 <= n - 1);
    assert(!in_last_paragraph(v, cl1));
    if cl1 == n - 1 {
        assert(!forward_adjusts(v, r1));
        assert(skip_blank_fwd(v, n - 1) == n);
        assert(forward_target(v, n - 1, count, None) == Some(n));
    } else {
        assert(!forward_adjusts(v, r1));
        lemma_skip_text_to(v, cl1, n - 1);
        assert(skip_blank_fwd(v, cl1) == cl1);
        assert(forward_target(v, n, (count - 1) as nat, Some(n - 1)) == Some(n - 1));
        assert(forward_target(v, cl1, count, None) == Some(n - 1));
    }
}

/// The cursor of a range within the buffer lies within the buffer.
proof fn lemma_cursor_in(v: TextView, r: Range)
    requires
        v.wf(),
        range_in(v, r),
    ensures
        0 <= cursor_of(v, r) <= v.len_spec(),
{
    lemma_prev_bound_le(v, r.head as int, v.bounds().len() as int);
}

/// The anchor that extending to `c` keeps lies within the buffer.
proof fn lemma_put_cursor_in(v: TextView, r: Range, c: int)
    requires
        v.wf(),
        range_in(v, r),
        0 <= c <= v.len_spec(),
    ensures
        put_cursor_extend(v, r, c).anchor <= v.len_spec(),
{
    lemma_prev_bound_le(v, r.anchor as int, v.bounds().len() as int);
    lemma_next_bound_le(v, r.anchor as int, 0);
}

proof fn lemma_prev_bound_le(v: TextView, p: int, j: int)
    requires
        v.wf(),
        j <= v.bounds().len(),
    ensures
        0 <= v.prev_bound_upto(p, j) <= v.len_spec(),
    decreases j,
{
    if j > 0 {
        assert(v.bounds()[j - 1] <= v.bounds().last());
        lemma_prev_bound_le(v, p, j - 1);
    }
}

proof fn lemma_next_bound_le(v: TextView, p: int, j: int)
    requires
        v.wf(),
        0 <= j,
    ensures
        0 <= v.next_bound_from(p, j) <= v.len_spec(),
    decreases v.bounds().len() - j,
{
    if j < v.bounds().len() {
        assert(v.bounds()[j] <= v.bounds().last());
        lemma_next_bound_le(v, p, j + 1);
    }
}

/// The boundary before `p` is at least any boundary `bounds[m]` below `p`.
proof fn lemma_prev_bound_at_least(v: TextView, p: int, j: int, m: int)
    requires
        v.wf(),
        0 <= m < j <= v.bounds().len(),
        v.bounds()[m] < p,
    ensures
        v.prev_bound_upto(p, j) >= v.bounds()[m],
    decreases j,
{
    if v.bounds()[j - 1] < p {
        if m < j - 1 {
            assert(v.bounds()[m] < v.bounds()[j - 1]);
        }
    } else {
        lemma_prev_bound_at_least(v, p, j - 1, m);
    }
}

/// A position at or after the start of line `k` lies on line `k` or later.
proof fn lemma_line_of_at_least(v: TextView, p: int, i: int, k: int)
    requires
        v.wf(),
        0 <= k <= i < v.n_lines(),
        v.starts()[k] <= p,
    ensures
        v.line_of_upto(p, i) >= k,
    decreases i,
{
    if i > 0 && v.starts()[i] > p {
        if k == i {
        } else {
            lemma_line_of_at_least(v, p, i - 1, k);
        }
    }
}

/// `line_of_upto` picks a line among `0..=i`.
proof fn lemma_line_of_in(v: TextView, p: int, i: int)
    ensures
        0 <= v.line_of_upto(p, i),
        i >= 0 ==> v.line_of_upto(p, i) <= i,
    decreases i,
{
    if i > 0 {
        lemma_line_of_in(v, p, i - 1);
    }
}

/// Which way a paragraph motion goes.
#[derive(Clone, Copy, Debug, PartialEq, Eq, Structural)]
pub enum Direction {
    Forward,
    Backward,
}

/// A paragraph motion in either direction.
pub fn paragraph_motion(
    direction: Direction,
    view: &TextView,
    range: Range,
    count: usize,
    mode: Movement,
) -> (r: Range)
    requires
        view.wf(),
        range_in(*view, range),
    ensures
        r == match direction {
            Direction::Forward => paragraph_forward(*view, range, count as nat, mode),
            Direction::Backward => paragraph_backward(*view, range, count as nat, mode),
        },
        range_in(*view, r),
{
    match direction {
        Direction::Forward => evil_movement_paragraph_forward(view, range, count, mode),
        Direction::Backward => evil_movement_paragraph_backward(view, range, count, mode),
    }
}

} // verus!
