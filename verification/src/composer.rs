//! An editable tree of processing steps and the page buffer it renders to.
//!
//! A [`ProcessorComposer`] keeps its steps in one vector; each step names
//! its parent by index and the root at index 0 is always present and can
//! never be removed. A [`ProcessorPage`] is a flat byte buffer tagged with
//! what one cell holds: three bytes for a colour page, one for a luminance
//! or character page.

use vstd::prelude::*;

verus! {

/// What one cell of a page holds.
#[derive(Debug, PartialEq, Eq, Clone, Copy, Structural)]
pub enum ProcessorPageSignal {
    RGB,
    Luminance,
    Char,
}

/// Bytes per cell of a page with the given signal.
pub open spec fn signal_channels(signal: ProcessorPageSignal) -> int {
    match signal {
        ProcessorPageSignal::RGB => 3,
        ProcessorPageSignal::Luminance => 1,
        ProcessorPageSignal::Char => 1,
    }
}

/// A flat page of cells, row-major.
#[derive(Debug)]
pub struct ProcessorPage {
    pub signal: ProcessorPageSignal,
    pub width: usize,
    pub height: usize,
    pub data: Vec<u8>,
}

impl ProcessorPage {
    /// The buffer holds exactly one cell's bytes for each position.
    pub open spec fn wf(&self) -> bool {
        self.data@.len() == self.width * self.height * signal_channels(self.signal)
    }

    /// Mirror every row: the cell at column `x` moves to column
    /// `width - 1 - x`, keeping its bytes in order.
    pub fn flip_y(&self) -> (r: ProcessorPage)
        requires
            self.wf(),
        ensures
            r.signal == self.signal,
            r.width == self.width,
            r.height == self.height,
            r.wf(),
            forall|y: int, x: int, c: int|
                0 <= y < self.height && 0 <= x < self.width && 0 <= c < signal_channels(
                    self.signal,
                ) ==> #[trigger] r.data@[(y * self.width + x) * signal_channels(self.signal) + c]
                    == self.data@[(y * self.width + (self.width - 1 - x)) * signal_channels(
                    self.signal,
                ) + c],
    {
        let ch: usize = match self.signal {
            ProcessorPageSignal::RGB => 3,
            ProcessorPageSignal::Luminance => 1,
            ProcessorPageSignal::Char => 1,
        };
        let total = self.data.len();
        let ghost chi = signal_channels(self.signal);
        let ghost w = self.width as int;
        let ghost h = self.height as int;
        let ghost t = w * chi;
        proof {
            assert(h * t == w * h * chi) by (nonlinear_arith)
                requires
                    t == w * chi,
            ;
            assert(t >= 0) by (nonlinear_arith)
                requires
                    t == w * chi,
                    w >= 0,
                    chi >= 0,
            ;
        }
        let mut out: Vec<u8> = Vec::new();
        let mut y: usize = 0;
        let mut row_start: usize = 0;
        while y < self.height
            invariant
                self.wf(),
                ch as int == chi,
                chi == signal_channels(self.signal),
                1 <= chi <= 3,
                w == self.width as int,
                h == self.height as int,
                t == w * chi,
                t >= 0,
                h * t == w * h * chi,
                total == self.data@.len(),
                y <= self.height,
                row_start == y * t,
                out@.len() == row_start,
                forall|y2: int, x2: int, c2: int|
                    0 <= y2 < y && 0 <= x2 < w && 0 <= c2 < chi ==> #[trigger] out@[(y2 * w + x2)
                        * chi + c2] == self.data@[(y2 * w + (w - 1 - x2)) * chi + c2],
            decreases self.height - y,
        {
            proof {
                assert(y * t + t == (y + 1) * t) by (nonlinear_arith);
                assert((y + 1) * t <= h * t) by (nonlinear_arith)
                    requires
                        y + 1 <= h,
                        t >= 0,
                ;
                assert(0 <= y * t) by (nonlinear_arith)
                    requires
                        y >= 0,
                        t >= 0,
                ;
            }
            let stride: usize = self.width * ch;
            let mut x: usize = 0;
            while x < self.width
                invariant
                    self.wf(),
                    ch as int == chi,
                    chi == signal_channels(self.signal),
                    1 <= chi <= 3,
                    w == self.width as int,
                    h == self.height as int,
                    t == w * chi,
                    t >= 0,
                    h * t == w * h * chi,
                    total == self.data@.len(),
                    y < self.height,
                    stride == t,
                    row_start == y * t,
                    row_start + t <= h * t,
                    x <= self.width,
                    out@.len() == row_start + x * chi,
                    forall|y2: int, x2: int, c2: int|
                        0 <= y2 < y && 0 <= x2 < w && 0 <= c2 < chi ==> #[trigger] out@[(y2 * w
                            + x2) * chi + c2] == self.data@[(y2 * w + (w - 1 - x2)) * chi + c2],
                    forall|x2: int, c2: int|
                        0 <= x2 < x && 0 <= c2 < chi ==> #[trigger] out@[(y * w + x2) * chi + c2]
                            == self.data@[(y * w + (w - 1 - x2)) * chi + c2],
                decreases self.width - x,
            {
                proof {
                    assert((w - 1 - x) * chi + chi <= t) by (nonlinear_arith)
                        requires
                            0 <= x < w,
                            chi >= 1,
                            t == w * chi,
                    ;
                    assert(x * chi + chi <= t) by (nonlinear_arith)
                        requires
                            0 <= x < w,
                            chi >= 1,
                            t == w * chi,
                    ;
                    assert(0 <= x * chi) by (nonlinear_arith)
                        requires
                            x >= 0,
                            chi >= 0,
                    ;
                    assert(0 <= (w - 1 - x) * chi) by (nonlinear_arith)
                        requires
                            x < w,
                            chi >= 0,
                    ;
                }
                let src_base: usize = row_start + (self.width - 1 - x) * ch;
                let ghost pre = out@;
                let mut c: usize = 0;
                while c < ch
                    invariant
                        self.wf(),
                        ch as int == chi,
                        chi == signal_channels(self.signal),
                        1 <= chi <= 3,
                        w == self.width as int,
                        h == self.height as int,
                        t == w * chi,
                        t >= 0,
                        h * t == w * h * chi,
                        total == self.data@.len(),
                        y < self.height,
                        x < self.width,
                        row_start == y * t,
                        row_start + t <= h * t,
                        (w - 1 - x) * chi + chi <= t,
                        x * chi + chi <= t,
                        src_base == row_start + (w - 1 - x) * chi,
                        c <= ch,
                        out@.len() == row_start + x * chi + c,
                        pre == out@.subrange(0, row_start + x * chi),
                        forall|c2: int|
                            0 <= c2 < c ==> #[trigger] out@[row_start + x * chi + c2]
                                == self.data@[src_base + c2],
                    decreases ch - c,
                {
                    out.push(self.data[src_base + c]);
                    c = c + 1;
                }
                proof {
                    assert((y * w + x) * chi == y * t + x * chi) by (nonlinear_arith)
                        requires
                            t == w * chi,
                    ;
                    assert((y * w + (w - 1 - x)) * chi == y * t + (w - 1 - x) * chi) by (
                    nonlinear_arith)
                        requires
                            t == w * chi,
                    ;
                    assert forall|c2: int| 0 <= c2 < chi implies #[trigger] out@[(y * w + x) * chi
                        + c2] == self.data@[(y * w + (w - 1 - x)) * chi + c2] by {
                        assert(out@[row_start + x * chi + c2] == self.data@[src_base + c2]);
                    }
                    assert forall|y2: int, x2: int, c2: int|
                        0 <= y2 < y && 0 <= x2 < w && 0 <= c2 < chi implies #[trigger] out@[(y2 * w
                        + x2) * chi + c2] == self.data@[(y2 * w + (w - 1 - x2)) * chi + c2] by {
                        assert(0 <= (y2 * w + x2) * chi + c2 < y2 * t + t) by (nonlinear_arith)
                            requires
                                0 <= y2,
                                0 <= x2 < w,
                                0 <= c2 < chi,
                                chi >= 1,
                                w >= 1,
                                t == w * chi,
                        ;
                        assert(y2 * t + t <= y * t) by (nonlinear_arith)
                            requires
                                y2 < y,
                                t >= 0,
                        ;
                        assert(out@[(y2 * w + x2) * chi + c2] == pre[(y2 * w + x2) * chi + c2]);
                    }
                    assert forall|x2: int, c2: int|
                        0 <= x2 < x && 0 <= c2 < chi implies #[trigger] out@[(y * w + x2) * chi
                        + c2] == self.data@[(y * w + (w - 1 - x2)) * chi + c2] by {
                        assert((y * w + x2) * chi == y * t + x2 * chi) by (nonlinear_arith)
                            requires
                                t == w * chi,
                        ;
                        assert(0 <= x2 * chi && x2 * chi + c2 < x * chi) by (nonlinear_arith)
                            requires
                                0 <= x2 < x,
                                0 <= c2 < chi,
                                chi >= 1,
                        ;
                        assert(out@[y * t + x2 * chi + c2] == pre[y * t + x2 * chi + c2]);
                    }
                    assert((x + 1) * chi == x * chi + chi) by (nonlinear_arith);
                }
                x = x + 1;
            }
            proof {
                assert(x as int * chi == t) by (nonlinear_arith)
                    requires
                        x as int == w,
                        t == w * chi,
                ;
                assert(y * t + t == (y + 1) * t) by (nonlinear_arith);
            }
            row_start = row_start + stride;
            y = y + 1;
        }
        proof {
            assert(out@.len() == h * t);
        }
        ProcessorPage { signal: self.signal, width: self.width, height: self.height, data: out }
    }
}

/// One node of the step tree: its parent, its live children, its render
/// order, and whether it is still active.
#[derive(Debug, Clone)]
pub struct ComposerStep {
    pub parent: usize,
    pub children: Vec<usize>,
    pub render: usize,
    pub is_active: bool,
}

/// An editable tree of steps, held in one vector with the root at index 0.
#[derive(Debug)]
pub struct ProcessorComposer {
    pub steps: Vec<ComposerStep>,
}

impl ProcessorComposer {
    /// A composer holding only the root step.
    pub fn create() -> (r: ProcessorComposer)
        ensures
            r.steps@.len() == 1,
            r.steps@[0].parent == 0,
            r.steps@[0].children@.len() == 0,
            r.steps@[0].render == 0,
            r.steps@[0].is_active,
    {
        let root = ComposerStep { parent: 0, children: Vec::new(), render: 0, is_active: true };
        let mut steps: Vec<ComposerStep> = Vec::new();
        steps.push(root);
        ProcessorComposer { steps }
    }

    /// Append a new active step under `parent` and record it among the
    /// parent's children.
    pub fn add_step(&mut self, parent: usize)
        requires
            parent < old(self).steps@.len(),
        ensures
            final(self).steps@.len() == old(self).steps@.len() + 1,
            final(self).steps@[parent as int].parent == old(self).steps@[parent as int].parent,
            final(self).steps@[parent as int].render == old(self).steps@[parent as int].render,
            final(self).steps@[parent as int].is_active == old(self).steps@[
                parent as int].is_active,
            final(self).steps@[parent as int].children@ == old(self).steps@[
                parent as int].children@.push((old(self).steps@.len()) as usize),
            forall|i: int|
                0 <= i < old(self).steps@.len() && i != parent ==> final(self).steps@[i] == old(
                    self,
                ).steps@[i],
            final(self).steps@.last().parent == parent,
            final(self).steps@.last().children@.len() == 0,
            final(self).steps@.last().render == 0,
            final(self).steps@.last().is_active,
    {
        let new_idx = self.steps.len();
        let mut parent_item = self.steps[parent].clone_step();
        parent_item.children.push(new_idx);
        self.steps.set(parent, parent_item);
        self.steps.push(
            ComposerStep { parent, children: Vec::new(), render: 0, is_active: true },
        );
    }

    /// Deactivate the step at `item_idx` and, unless its parent is the
    /// root, unlink it from its parent's children. The root itself can
    /// never be removed.
    pub fn remove_step(&mut self, item_idx: usize)
        requires
            item_idx != 0,
            item_idx < old(self).steps@.len(),
            old(self).steps@[item_idx as int].parent != item_idx,
            old(self).steps@[item_idx as int].parent != 0 ==> old(self).steps@[
                item_idx as int].parent < old(self).steps@.len(),
        ensures
            final(self).steps@.len() == old(self).steps@.len(),
            final(self).steps@[item_idx as int].parent == old(self).steps@[item_idx as int].parent,
            final(self).steps@[item_idx as int].render == old(self).steps@[item_idx as int].render,
            final(self).steps@[item_idx as int].children@ == old(self).steps@[
                item_idx as int].children@,
            !final(self).steps@[item_idx as int].is_active,
            old(self).steps@[item_idx as int].parent == 0 ==> forall|i: int|
                0 <= i < final(self).steps@.len() && i != item_idx ==> final(self).steps@[i]
                    == old(self).steps@[i],
            old(self).steps@[item_idx as int].parent != 0 ==> {
                let p = old(self).steps@[item_idx as int].parent as int;
                &&& final(self).steps@[p].parent == old(self).steps@[p].parent
                &&& final(self).steps@[p].render == old(self).steps@[p].render
                &&& final(self).steps@[p].is_active == old(self).steps@[p].is_active
                &&& final(self).steps@[p].children@ == old(self).steps@[p].children@.filter(
                    |c: usize| c != item_idx,
                )
                &&& forall|i: int|
                    0 <= i < final(self).steps@.len() && i != item_idx && i != p
                        ==> final(self).steps@[i] == old(self).steps@[i]
            },
    {
        let mut item = self.steps[item_idx].clone_step();
        item.is_active = false;
        let parent_idx = item.parent;
        self.steps.set(item_idx, item);
        if parent_idx != 0 {
            let parent = self.steps[parent_idx].clone_step();
            let mut kept: Vec<usize> = Vec::new();
            proof {
                reveal_with_fuel(Seq::<usize>::filter, 2);
                assert(parent.children@.subrange(0, 0) =~= Seq::<usize>::empty());
            }
            let mut i: usize = 0;
            while i < parent.children.len()
                invariant
                    i <= parent.children@.len(),
                    kept@ == parent.children@.subrange(0, i as int).filter(
                        |c: usize| c != item_idx,
                    ),
                decreases parent.children@.len() - i,
            {
                proof {
                    reveal_with_fuel(Seq::<usize>::filter, 2);
                    assert(parent.children@.subrange(0, i + 1).drop_last() =~= parent.children@
                        .subrange(0, i as int));
                    assert(parent.children@.subrange(0, i + 1).last() == parent.children@[
                        i as int]);
                }
                let child = parent.children[i];
                if child != item_idx {
                    kept.push(child);
                }
                i = i + 1;
            }
            proof {
                assert(parent.children@.subrange(0, parent.children@.len() as int) =~= parent
                    .children@);
            }
            let updated = ComposerStep {
                parent: parent.parent,
                children: kept,
                render: parent.render,
                is_active: parent.is_active,
            };
            self.steps.set(parent_idx, updated);
        }
    }
}

impl ComposerStep {
    /// A field-for-field copy.
    fn clone_step(&self) -> (r: ComposerStep)
        ensures
            r.parent == self.parent,
            r.children@ == self.children@,
            r.render == self.render,
            r.is_active == self.is_active,
    {
        let mut children: Vec<usize> = Vec::new();
        let mut i: usize = 0;
        while i < self.children.len()
            invariant
                i <= self.children@.len(),
                children@ == self.children@.subrange(0, i as int),
            decreases self.children@.len() - i,
        {
            children.push(self.children[i]);
            i = i + 1;
        }
        proof {
            assert(children@ =~= self.children@);
        }
        ComposerStep {
            parent: self.parent,
            children,
            render: self.render,
            is_active: self.is_active,
        }
    }
}

} // verus!
