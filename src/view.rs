use vstd::prelude::*;

verus! {

/// A read-only view of a buffer, as the motions see it: where each line
/// starts, which lines are blank (hold nothing but a line ending), and where
/// the grapheme boundaries lie. Positions count characters.
pub struct TextView {
    len: usize,
    line_starts: Vec<usize>,
    blank: Vec<bool>,
    boundaries: Vec<usize>,
}

pub open spec fn strictly_increasing(s: Seq<usize>) -> bool {
    forall|i: int, j: int| 0 <= i < j < s.len() ==> s[i] < s[j]
}

impl TextView {
    pub closed spec fn len_spec(self) -> nat {
        self.len as nat
    }

    pub closed spec fn starts(self) -> Seq<usize> {
        self.line_starts@
    }

    pub closed spec fn blanks(self) -> Seq<bool> {
        self.blank@
    }

    pub closed spec fn bounds(self) -> Seq<usize> {
        self.boundaries@
    }

    /// Lines start at 0 and strictly increase, one blank flag per line, the
    /// grapheme boundaries strictly increase from 0 to the length, and every
    /// line starts on a grapheme boundary.
    pub open spec fn wf(self) -> bool {
        &&& self.starts().len() >= 1
        &&& self.blanks().len() == self.starts().len()
        &&& self.starts()[0] == 0
        &&& strictly_increasing(self.starts())
        &&& forall|i: int| 0 <= i < self.starts().len() ==> #[trigger] self.starts()[i] <= self.len_spec()
        &&& self.bounds().len() >= 1
        &&& self.bounds()[0] == 0
        &&& self.bounds().last() == self.len_spec()
        &&& strictly_increasing(self.bounds())
        &&& forall|i: int|
            0 <= i < self.starts().len() ==> self.bounds().contains(#[trigger] self.starts()[i])
    }

    pub open spec fn n_lines(self) -> int {
        self.starts().len() as int
    }

    pub open spec fn is_blank_spec(self, i: int) -> bool {
        self.blanks()[i]
    }

    /// Start of line `i`; one past the last line, the end of the buffer.
    pub open spec fn line_start(self, i: int) -> int {
        if i < self.n_lines() {
            self.starts()[i] as int
        } else {
            self.len_spec() as int
        }
    }

    /// The last line among `0..=i` that starts at or before `p`.
    pub open spec fn line_of_upto(self, p: int, i: int) -> int
        decreases i,
    {
        if i <= 0 {
            0
        } else if self.starts()[i] <= p {
            i
        } else {
            self.line_of_upto(p, i - 1)
        }
    }

    /// The line that holds position `p`.
    pub open spec fn line_of(self, p: int) -> int {
        self.line_of_upto(p, self.n_lines() - 1)
    }

    /// The last boundary among the first `j` that lies before `p`, else 0.
    pub open spec fn prev_bound_upto(self, p: int, j: int) -> int
        decreases j,
    {
        if j <= 0 {
            0
        } else if self.bounds()[j - 1] < p {
            self.bounds()[j - 1] as int
        } else {
            self.prev_bound_upto(p, j - 1)
        }
    }

    /// The grapheme boundary before `p` (0 at the start of the buffer).
    pub open spec fn prev_boundary(self, p: int) -> int {
        self.prev_bound_upto(p, self.bounds().len() as int)
    }

    /// The first boundary from index `j` on that lies after `p`, else the
    /// length.
    pub open spec fn next_bound_from(self, p: int, j: int) -> int
        decreases self.bounds().len() - j,
    {
        if j >= self.bounds().len() {
            self.len_spec() as int
        } else if self.bounds()[j] > p {
            self.bounds()[j] as int
        } else {
            self.next_bound_from(p, j + 1)
        }
    }

    /// The grapheme boundary after `p` (the length at the end of the buffer).
    pub open spec fn next_boundary(self, p: int) -> int {
        self.next_bound_from(p, 0)
    }

    /// Builds a view from its tables, or `None` where they are not
    /// well formed.
    pub fn new(len: usize, line_starts: Vec<usize>, blank: Vec<bool>, boundaries: Vec<usize>) -> (r:
        Option<TextView>)
        ensures
            r.is_some() <==> ({
                &&& line_starts@.len() >= 1
                &&& blank@.len() == line_starts@.len()
                &&& line_starts@[0] == 0
                &&& strictly_increasing(line_starts@)
                &&& forall|i: int| 0 <= i < line_starts@.len() ==> #[trigger] line_starts@[i] <= len
                &&& boundaries@.len() >= 1
                &&& boundaries@[0] == 0
                &&& boundaries@.last() == len
                &&& strictly_increasing(boundaries@)
                &&& forall|i: int|
                    0 <= i < line_starts@.len() ==> boundaries@.contains(#[trigger] line_starts@[i])
            }),
            r matches Some(v) ==> v.wf() && v.len_spec() == len && v.starts() == line_starts@
                && v.blanks() == blank@ && v.bounds() == boundaries@,
    {
        if line_starts.len() == 0 || blank.len() != line_starts.len() || line_starts[0] != 0 {
            return None;
        }
        if boundaries.len() == 0 || boundaries[0] != 0 || boundaries[boundaries.len() - 1] != len {
            return None;
        }
        if !increasing_upto(&line_starts, len) || !increasing_upto(&boundaries, len) {
            return None;
        }
        if !all_contained(&line_starts, &boundaries) {
            return None;
        }
        Some(TextView { len, line_starts, blank, boundaries })
    }

    pub fn len_chars(&self) -> (r: usize)
        ensures
            r == self.len_spec(),
    {
        self.len
    }

    pub fn len_lines(&self) -> (r: usize)
        ensures
            r == self.n_lines(),
    {
        self.line_starts.len()
    }

    pub fn is_blank(&self, i: usize) -> (r: bool)
        requires
            self.wf(),
            i < self.n_lines(),
        ensures
            r == self.is_blank_spec(i as int),
    {
        self.blank[i]
    }

    pub fn line_to_char(&self, i: usize) -> (r: usize)
        requires
            self.wf(),
            i <= self.n_lines(),
        ensures
            r == self.line_start(i as int),
            r <= self.len_spec(),
    {
        if i < self.line_starts.len() {
            self.line_starts[i]
        } else {
            self.len
        }
    }

    pub fn char_to_line(&self, p: usize) -> (r: usize)
        requires
            self.wf(),
        ensures
            r == self.line_of(p as int),
            r < self.n_lines(),
    {
        let mut i: usize = self.line_starts.len() - 1;
        while i > 0 && self.line_starts[i] > p
            invariant
                self.wf(),
                i < self.n_lines(),
                self.line_of_upto(p as int, i as int) == self.line_of(p as int),
            decreases i,
        {
            i -= 1;
        }
        i
    }

    pub fn prev_grapheme_boundary(&self, p: usize) -> (r: usize)
        requires
            self.wf(),
        ensures
            r == self.prev_boundary(p as int),
            r <= self.len_spec(),
    {
        let mut j: usize = self.boundaries.len();
        while j > 0 && self.boundaries[j - 1] >= p
            invariant
                self.wf(),
                j <= self.bounds().len(),
                self.prev_bound_upto(p as int, j as int) == self.prev_boundary(p as int),
            decreases j,
        {
            j -= 1;
        }
        if j == 0 {
            0
        } else {
            assert(self.bounds()[j - 1] <= self.bounds().last());
            self.boundaries[j - 1]
        }
    }

    pub fn next_grapheme_boundary(&self, p: usize) -> (r: usize)
        requires
            self.wf(),
        ensures
            r == self.next_boundary(p as int),
            r <= self.len_spec(),
    {
        let mut j: usize = 0;
        while j < self.boundaries.len() && self.boundaries[j] <= p
            invariant
                self.wf(),
                j <= self.bounds().len(),
                self.next_bound_from(p as int, j as int) == self.next_boundary(p as int),
            decreases self.bounds().len() - j,
        {
            j += 1;
        }
        if j == self.boundaries.len() {
            self.len
        } else {
            assert(self.bounds()[j as int] <= self.bounds().last());
            self.boundaries[j]
        }
    }
}

/// Whether `x` occurs in `s`.
fn contains_pos(s: &Vec<usize>, x: usize) -> (r: bool)
    ensures
        r == s@.contains(x),
{
    let mut j: usize = 0;
    while j < s.len()
        invariant
            j <= s@.len(),
            forall|k: int| 0 <= k < j ==> s@[k] != x,
        decreases s@.len() - j,
    {
        if s[j] == x {
            assert(s@[j as int] == x);
            return true;
        }
        j += 1;
    }
    false
}

/// Whether every element of `a` occurs in `b`.
fn all_contained(a: &Vec<usize>, b: &Vec<usize>) -> (r: bool)
    ensures
        r == forall|i: int| 0 <= i < a@.len() ==> b@.contains(#[trigger] a@[i]),
{
    let mut i: usize = 0;
    while i < a.len()
        invariant
            i <= a@.len(),
            forall|k: int| 0 <= k < i ==> b@.contains(#[trigger] a@[k]),
        decreases a@.len() - i,
    {
        if !contains_pos(b, a[i]) {
            return false;
        }
        i += 1;
    }
    true
}

/// Whether `s` strictly increases and stays at or below `bound`.
fn increasing_upto(s: &Vec<usize>, bound: usize) -> (r: bool)
    ensures
        r == (strictly_increasing(s@) && forall|i: int| 0 <= i < s@.len() ==> #[trigger] s@[i] <= bound),
{
    let mut i: usize = 0;
    while i < s.len()
        invariant
            i <= s@.len(),
            forall|k: int| 0 <= k < i ==> #[trigger] s@[k] <= bound,
            forall|a: int, b: int| 0 <= a < b < i ==> s@[a] < s@[b],
        decreases s@.len() - i,
    {
        if s[i] > bound {
            return false;
        }
        if i > 0 && s[i - 1] >= s[i] {
            return false;
        }
        proof {
            assert forall|a: int, b: int| 0 <= a < b < i + 1 implies s@[a] < s@[b] by {
                if b == i as int && a < i - 1 {
                    assert(s@[a] < s@[i - 1]);
                }
            }
        }
        i += 1;
    }
    true
}

} // verus!
