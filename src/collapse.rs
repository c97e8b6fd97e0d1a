use vstd::prelude::*;

use crate::range::Range;

verus! {

/// Where a selection is collapsed to.
#[derive(Clone, Copy, Debug, PartialEq, Eq, Structural)]
pub enum CollapseMode {
    Forward,
    Backward,
    ToAnchor,
    ToHead,
}

pub open spec fn sat_sub1(x: usize) -> usize {
    if x == 0 { 0 } else { (x - 1) as usize }
}

pub open spec fn sat_add1(x: usize) -> usize {
    if x == usize::MAX { usize::MAX } else { (x + 1) as usize }
}

/// The unit-width range that `mode` collapses `r` to.
pub open spec fn collapsed(mode: CollapseMode, r: Range) -> Range {
    match mode {
        CollapseMode::Forward => {
            let end = if r.anchor >= r.head { r.anchor } else { r.head };
            Range { anchor: sat_sub1(end), head: end }
        },
        CollapseMode::Backward => {
            let start = if r.anchor <= r.head { r.anchor } else { r.head };
            Range { anchor: start, head: sat_add1(start) }
        },
        CollapseMode::ToAnchor => {
            if r.head > r.anchor {
                Range { anchor: r.anchor, head: sat_add1(r.anchor) }
            } else {
                Range { anchor: r.anchor, head: sat_sub1(r.anchor) }
            }
        },
        CollapseMode::ToHead => Range { anchor: sat_add1(r.head), head: r.head },
    }
}

/// Collapses one range.
pub fn collapse_range(mode: CollapseMode, r: Range) -> (res: Range)
    ensures
        res == collapsed(mode, r),
{
    match mode {
        CollapseMode::Forward => {
            let end = if r.anchor >= r.head { r.anchor } else { r.head };
            Range { anchor: end.saturating_sub(1), head: end }
        },
        CollapseMode::Backward => {
            let start = if r.anchor <= r.head { r.anchor } else { r.head };
            Range { anchor: start, head: start.saturating_add(1) }
        },
        CollapseMode::ToAnchor => {
            if r.head > r.anchor {
                Range { anchor: r.anchor, head: r.anchor.saturating_add(1) }
            } else {
                Range { anchor: r.anchor, head: r.anchor.saturating_sub(1) }
            }
        },
        CollapseMode::ToHead => Range { anchor: r.head.saturating_add(1), head: r.head },
    }
}

/// Every collapsed range is one character wide, except at position 0, where
/// it may be empty. Positions at the very top of `usize` are left out: there
/// the saturating step cannot move.
pub proof fn lemma_collapse_width(mode: CollapseMode, r: Range)
    requires
        r.anchor < usize::MAX,
        r.head < usize::MAX,
    ensures
        collapsed(mode, r).width() == 1 || (collapsed(mode, r).anchor == 0
            && collapsed(mode, r).head == 0),
{
}

pub struct EvilCommands;

impl EvilCommands {
    /// This command layer is always available.
    pub fn is_enabled() -> (r: bool)
        ensures
            r,
    {
        true
    }

    /// Collapses every range of `selection` independently, keeping order and
    /// count.
    pub fn collapse_selections(selection: &Vec<Range>, collapse_mode: CollapseMode) -> (res: Vec<
        Range,
    >)
        ensures
            res@.len() == selection@.len(),
            forall|i: int|
                0 <= i < selection@.len() ==> #[trigger] res@[i] == collapsed(
                    collapse_mode,
                    selection@[i],
                ),
    {
        let mut res: Vec<Range> = Vec::new();
        let mut i: usize = 0;
        while i < selection.len()
            invariant
                i <= selection@.len(),
                res@.len() == i,
                forall|j: int| 0 <= j < i ==> #[trigger] res@[j] == collapsed(collapse_mode, selection@[j]),
            decreases selection@.len() - i,
        {
            res.push(collapse_range(collapse_mode, selection[i]));
            i += 1;
        }
        res
    }
}

} // verus!
