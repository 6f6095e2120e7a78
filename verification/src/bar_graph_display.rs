//! The bar graph of recent tempos: which bars are shown at a given width,
//! and how tall the vertical axis is. Drawing them is left to the caller.

use vstd::prelude::*;

verus! {

/// The width of one bar, in columns.
pub const BAR_WIDTH: u16 = 3;

/// The gap between two bars, in columns.
pub const BAR_GAP: u16 = 1;

/// The least height of the vertical axis, so that slow tempos still show
/// their small changes.
pub const MIN_SCALE: u64 = 120;

/// How many bars fit side by side into `width` columns: after the first,
/// each bar takes its own width and one gap.
pub open spec fn max_bars(width: u16) -> nat {
    ((width + BAR_GAP) / (BAR_WIDTH + BAR_GAP)) as nat
}

/// The bars shown at `width` columns: the latest tempos of `history`, as
/// many as fit, in the order they were added.
pub open spec fn visible(history: Seq<u64>, width: u16) -> Seq<u64> {
    if history.len() > max_bars(width) {
        history.skip(history.len() - max_bars(width))
    } else {
        history
    }
}

/// Whether `scale` is the height of the axis for `bars`: the tallest bar,
/// but no less than `MIN_SCALE`.
pub open spec fn is_scale_of(scale: u64, bars: Seq<u64>) -> bool {
    &&& scale >= MIN_SCALE
    &&& forall|i: int| 0 <= i < bars.len() ==> bars[i] <= scale
    &&& (scale == MIN_SCALE || exists|i: int| 0 <= i < bars.len() && bars[i] == scale)
}

/// Only one height is the scale of given bars.
pub proof fn lemma_scale_is_unique(first: u64, second: u64, bars: Seq<u64>)
    requires
        is_scale_of(first, bars),
        is_scale_of(second, bars),
    ensures
        first == second,
{
}

/// One frame of the bar graph: the bars to draw, oldest first, and the
/// height of the vertical axis.
#[derive(Debug)]
pub struct BarGraph {
    /// The tempo of each bar, in whole beats per minute.
    pub bars: Vec<u64>,
    /// The height of the vertical axis, in beats per minute.
    pub max: u64,
}

/// The tempos measured so far, in whole beats per minute, kept for display.
pub struct BarGraphDisplay {
    bpm_history: Vec<u64>,
}

impl View for BarGraphDisplay {
    type V = Seq<u64>;

    closed spec fn view(&self) -> Seq<u64> {
        self.bpm_history@
    }
}

impl BarGraphDisplay {
    /// A display with no tempo in it.
    pub fn new() -> (display: Self)
        ensures
            display@ == Seq::<u64>::empty(),
    {
        BarGraphDisplay { bpm_history: Vec::new() }
    }

    /// Adds `bpm` as the latest tempo.
    pub fn add_bpm(&mut self, bpm: u64)
        ensures
            final(self)@ == old(self)@.push(bpm),
    {
        self.bpm_history.push(bpm);
    }

    /// The frame to draw into `width` columns: the latest tempos that fit,
    /// and an axis as tall as the tallest of them, but at least
    /// `MIN_SCALE`.
    pub fn display(&self, width: u16) -> (graph: BarGraph)
        ensures
            graph.bars@ == visible(self@, width),
            is_scale_of(graph.max, graph.bars@),
    {
        let fitting: usize = (width as usize + BAR_GAP as usize) / (BAR_WIDTH as usize
            + BAR_GAP as usize);
        let count: usize = self.bpm_history.len();
        let start: usize = if count > fitting {
            count - fitting
        } else {
            0
        };
        let mut bars: Vec<u64> = Vec::new();
        let mut max: u64 = MIN_SCALE;
        let mut next: usize = start;
        while next < count
            invariant
                start <= next <= count,
                count == self.bpm_history.len(),
                bars@ == self.bpm_history@.subrange(start as int, next as int),
                is_scale_of(max, bars@),
            decreases count - next,
        {
            let bpm: u64 = self.bpm_history[next];
            let ghost shown: Seq<u64> = bars@;
            bars.push(bpm);
            if bpm > max {
                max = bpm;
            }
            next += 1;
            proof {
                assert(bars@ =~= self.bpm_history@.subrange(start as int, next as int));
                assert(bars@[shown.len() as int] == bpm);
                assert forall|i: int| 0 <= i < bars@.len() implies bars@[i] <= max by {
                    if i < shown.len() {
                        assert(bars@[i] == shown[i]);
                    }
                }
                if max != MIN_SCALE && max != bpm {
                    let tallest: int = choose|i: int| 0 <= i < shown.len() && shown[i] == max;
                    assert(bars@[tallest] == max);
                }
            }
        }
        assert(bars@ =~= visible(self@, width));
        BarGraph { bars, max }
    }
}

} // verus!
