//! The generation state machine: a grid of noise samples filled row by row
//! by one background worker per cycle, and read by the render path only once
//! the cycle has completed.
//!
//! A cycle runs Gen -> Working -> Render. An update tick in Gen starts it
//! (the caller spawns the worker exactly when the tick says so); the worker
//! writes rows 0, 1, ... in turn and then finishes the cycle; a regenerate
//! request in Render (or Gen) sends the machine back to Gen. Callers keep the
//! generator behind one lock, so each step is atomic.
use vstd::prelude::*;

use crate::color::{cell_color, map_cell, Rgba, Sample};

verus! {

#[derive(Clone, Copy, Debug, PartialEq, Eq, Structural)]
pub enum GenState {
    Gen,
    Working,
    Render,
}

/// The sample cache with its generation state.
pub struct Generator {
    state: GenState,
    width: usize,
    height: usize,
    /// `height` rows of `width` cells; `None` is a cell never written.
    cells: Vec<Vec<Option<Sample>>>,
    /// Rows written in the current cycle.
    rows_done: usize,
}

/// The mathematical value of a [`Generator`].
pub struct GenView {
    pub state: GenState,
    pub width: nat,
    pub height: nat,
    pub cells: Seq<Seq<Option<Sample>>>,
    pub rows_done: nat,
}

impl View for Generator {
    type V = GenView;

    closed spec fn view(&self) -> GenView {
        GenView {
            state: self.state,
            width: self.width as nat,
            height: self.height as nat,
            cells: self.cells@.map_values(|r: Vec<Option<Sample>>| r@),
            rows_done: self.rows_done as nat,
        }
    }
}

/// Every cell of row `i` holds a sample.
pub open spec fn row_full(cells: Seq<Seq<Option<Sample>>>, i: int) -> bool {
    forall|j: int| 0 <= j < cells[i].len() ==> (#[trigger] cells[i][j]).is_some()
}

/// Every cell of the grid holds a sample.
pub open spec fn all_full(cells: Seq<Seq<Option<Sample>>>) -> bool {
    forall|i: int| 0 <= i < cells.len() ==> #[trigger] row_full(cells, i)
}

impl GenView {
    /// The grid has its shape; the rows of the running or completed cycle
    /// hold samples; a completed cycle has written every row.
    pub open spec fn wf(self) -> bool {
        &&& self.cells.len() == self.height
        &&& forall|i: int| 0 <= i < self.height ==> (#[trigger] self.cells[i]).len() == self.width
        &&& self.rows_done <= self.height
        &&& self.state != GenState::Gen ==> forall|i: int|
            0 <= i < self.rows_done ==> #[trigger] row_full(self.cells, i)
        &&& self.state == GenState::Render ==> self.rows_done == self.height
    }

    /// An update tick: in Gen the cycle starts with no row written.
    pub open spec fn tick(self) -> GenView {
        if self.state == GenState::Gen {
            GenView { state: GenState::Working, rows_done: 0, ..self }
        } else {
            self
        }
    }

    /// Whether the worker may write a row now: a cycle runs and has rows left.
    pub open spec fn accepts_row(self, row: Seq<Sample>) -> bool {
        self.state == GenState::Working && self.rows_done < self.height && row.len()
            == self.width
    }

    /// The worker writes the next row of the cycle.
    pub open spec fn write(self, row: Seq<Sample>) -> GenView {
        if self.accepts_row(row) {
            GenView {
                cells: self.cells.update(
                    self.rows_done as int,
                    row.map_values(|s: Sample| Some(s)),
                ),
                rows_done: self.rows_done + 1,
                ..self
            }
        } else {
            self
        }
    }

    /// Whether the running cycle has written every row.
    pub open spec fn can_finish(self) -> bool {
        self.state == GenState::Working && self.rows_done == self.height
    }

    /// The worker ends a cycle whose rows are all written.
    pub open spec fn finish(self) -> GenView {
        if self.can_finish() {
            GenView { state: GenState::Render, ..self }
        } else {
            self
        }
    }

    /// A regenerate request: honoured unless a cycle is running.
    pub open spec fn restart(self) -> GenView {
        if self.state != GenState::Working {
            GenView { state: GenState::Gen, rows_done: 0, ..self }
        } else {
            self
        }
    }
}

impl Generator {
    /// The generator's value is well formed.
    pub open spec fn inv(&self) -> bool {
        self@.wf()
    }

    /// A grid of `height` rows of `width` empty cells, in state Gen.
    pub fn new(width: usize, height: usize) -> (g: Generator)
        ensures
            g.inv(),
            g@.state == GenState::Gen,
            g@.width == width,
            g@.height == height,
            g@.rows_done == 0,
            g@.cells == Seq::new(
                height as nat,
                |i: int| Seq::new(width as nat, |j: int| None::<Sample>),
            ),
    {
        let mut cells: Vec<Vec<Option<Sample>>> = Vec::new();
        let mut i: usize = 0;
        while i < height
            invariant
                i <= height,
                cells@.len() == i,
                forall|k: int|
                    0 <= k < i ==> (#[trigger] cells@[k])@ == Seq::new(
                        width as nat,
                        |j: int| None::<Sample>,
                    ),
            decreases height - i,
        {
            let mut row: Vec<Option<Sample>> = Vec::new();
            let mut j: usize = 0;
            while j < width
                invariant
                    j <= width,
                    row@ == Seq::new(j as nat, |k: int| None::<Sample>),
                decreases width - j,
            {
                row.push(None);
                j = j + 1;
                assert(row@ =~= Seq::new(j as nat, |k: int| None::<Sample>));
            }
            cells.push(row);
            i = i + 1;
        }
        let g = Generator { state: GenState::Gen, width, height, cells, rows_done: 0 };
        assert(g@.cells =~= Seq::new(
            height as nat,
            |i: int| Seq::new(width as nat, |j: int| None::<Sample>),
        ));
        g
    }

    pub fn state(&self) -> (s: GenState)
        ensures
            s == self@.state,
    {
        self.state
    }

    /// Cells per row.
    pub fn width(&self) -> (w: usize)
        ensures
            w == self@.width,
    {
        self.width
    }

    /// Rows of the grid.
    pub fn height(&self) -> (h: usize)
        ensures
            h == self@.height,
    {
        self.height
    }

    /// Handles an update tick. Returns whether a worker must be started:
    /// exactly when the state was Gen, which the same step sets to Working.
    pub fn on_update(&mut self) -> (spawn: bool)
        requires
            old(self).inv(),
        ensures
            final(self).inv(),
            final(self)@ == old(self)@.tick(),
            spawn == (old(self)@.state == GenState::Gen),
    {
        if self.state == GenState::Gen {
            self.state = GenState::Working;
            self.rows_done = 0;
            true
        } else {
            false
        }
    }

    /// The worker hands over the samples of the next row. They are stored,
    /// and `true` returned, exactly when a cycle runs with rows left and the
    /// row has the grid's width; otherwise nothing changes.
    pub fn write_row(&mut self, row: Vec<Sample>) -> (stored: bool)
        requires
            old(self).inv(),
        ensures
            final(self).inv(),
            stored == old(self)@.accepts_row(row@),
            final(self)@ == old(self)@.write(row@),
    {
        if self.state != GenState::Working || self.rows_done >= self.height || row.len()
            != self.width {
            return false;
        }
        let ghost before = self@;
        let mut cells_row: Vec<Option<Sample>> = Vec::new();
        let mut j: usize = 0;
        while j < row.len()
            invariant
                j <= row@.len(),
                cells_row@ == row@.take(j as int).map_values(|s: Sample| Some(s)),
            decreases row@.len() - j,
        {
            cells_row.push(Some(row[j]));
            j = j + 1;
            assert(cells_row@ =~= row@.take(j as int).map_values(|s: Sample| Some(s)));
        }
        assert(row@.take(j as int) =~= row@);
        let r = self.rows_done;
        self.cells[r] = cells_row;
        self.rows_done = r + 1;
        assert(self@.cells =~= before.write(row@).cells);
        assert(row_full(self@.cells, r as int));
        assert forall|i: int| 0 <= i < self@.rows_done implies #[trigger] row_full(
            self@.cells,
            i,
        ) by {
            if i < r {
                assert(self@.cells[i] == before.cells[i]);
                assert(row_full(before.cells, i));
            }
        }
        assert forall|i: int| 0 <= i < self@.height implies (#[trigger] self@.cells[i]).len()
            == self@.width by {
            if i != r {
                assert(self@.cells[i] == before.cells[i]);
            }
        }
        true
    }

    /// Progress of the running cycle in hundredths of a percent: rows written
    /// out of all rows, rounded down; a grid without rows counts as complete.
    pub fn progress(&self) -> (p: u64)
        requires
            self.inv(),
        ensures
            self@.height == 0 ==> p == 10000,
            self@.height > 0 ==> p == self@.rows_done * 10000 / self@.height,
    {
        if self.height == 0 {
            return 10000;
        }
        let done = self.rows_done as u128;
        let all = self.height as u128;
        proof {
            let (d, a) = (done as int, all as int);
            assert(d * 10000 <= a * 10000) by (nonlinear_arith)
                requires
                    d <= a,
            ;
            assert(d * 10000 / a <= 10000) by (nonlinear_arith)
                requires
                    d <= a,
                    a > 0,
            ;
        }
        (done * 10000 / all) as u64
    }

    /// The worker ends the cycle: in Working with every row written the state
    /// becomes Render and `true` is returned; otherwise nothing changes.
    pub fn finish(&mut self) -> (done: bool)
        requires
            old(self).inv(),
        ensures
            final(self).inv(),
            done == old(self)@.can_finish(),
            final(self)@ == old(self)@.finish(),
    {
        if self.state == GenState::Working && self.rows_done == self.height {
            self.state = GenState::Render;
            true
        } else {
            false
        }
    }

    /// A regenerate request. Refused while a cycle runs (the worker owns the
    /// noise field then); otherwise the state goes back to Gen and `true` is
    /// returned, upon which the caller reseeds the noise field.
    pub fn restart(&mut self) -> (accepted: bool)
        requires
            old(self).inv(),
        ensures
            final(self).inv(),
            accepted == (old(self)@.state != GenState::Working),
            final(self)@ == old(self)@.restart(),
    {
        if self.state != GenState::Working {
            self.state = GenState::Gen;
            self.rows_done = 0;
            true
        } else {
            false
        }
    }

    /// The tile colors to draw: in Render the color of every cell, row by
    /// row; in any other state nothing.
    pub fn colors(&self) -> (c: Option<Vec<Vec<Rgba>>>)
        requires
            self.inv(),
        ensures
            match c {
                Some(rows) => {
                    &&& self@.state == GenState::Render
                    &&& rows@.len() == self@.height
                    &&& forall|i: int|
                        0 <= i < self@.height ==> (#[trigger] rows@[i])@ == self@.cells[i].map_values(
                            |x: Option<Sample>| cell_color(x),
                        )
                },
                None => self@.state != GenState::Render,
            },
    {
        if self.state != GenState::Render {
            return None;
        }
        let mut rows: Vec<Vec<Rgba>> = Vec::new();
        let mut i: usize = 0;
        while i < self.cells.len()
            invariant
                self.inv(),
                i <= self.cells@.len(),
                rows@.len() == i,
                forall|k: int|
                    0 <= k < i ==> (#[trigger] rows@[k])@ == self@.cells[k].map_values(
                        |x: Option<Sample>| cell_color(x),
                    ),
            decreases self.cells@.len() - i,
        {
            let src = &self.cells[i];
            let mut out: Vec<Rgba> = Vec::new();
            let mut j: usize = 0;
            while j < src.len()
                invariant
                    j <= src@.len(),
                    out@ == src@.take(j as int).map_values(|x: Option<Sample>| cell_color(x)),
                decreases src@.len() - j,
            {
                out.push(map_cell(&src[j]));
                j = j + 1;
                assert(out@ =~= src@.take(j as int).map_values(|x: Option<Sample>| cell_color(x)));
            }
            assert(src@.take(j as int) =~= src@);
            rows.push(out);
            i = i + 1;
        }
        Some(rows)
    }
}

} // verus!

verus! {

/// One step taken on the generator: an update tick, a row from the worker,
/// the worker's end of cycle, or a regenerate request.
pub enum Step {
    Tick,
    Row(Seq<Sample>),
    Finish,
    Restart,
}

impl GenView {
    pub open spec fn step(self, s: Step) -> GenView {
        match s {
            Step::Tick => self.tick(),
            Step::Row(row) => self.write(row),
            Step::Finish => self.finish(),
            Step::Restart => self.restart(),
        }
    }

    /// Whether step `s` starts a cycle, so that the caller spawns a worker.
    pub open spec fn spawns(self, s: Step) -> bool {
        s is Tick && self.state == GenState::Gen
    }

    /// The generator after a run of steps.
    pub open spec fn run(self, steps: Seq<Step>) -> GenView
        decreases steps.len(),
    {
        if steps.len() == 0 {
            self
        } else {
            self.run(steps.drop_last()).step(steps.last())
        }
    }

    /// How many workers a run of steps spawns.
    pub open spec fn spawn_count(self, steps: Seq<Step>) -> nat
        decreases steps.len(),
    {
        if steps.len() == 0 {
            0
        } else {
            self.spawn_count(steps.drop_last()) + if self.run(steps.drop_last()).spawns(
                steps.last(),
            ) {
                1nat
            } else {
                0nat
            }
        }
    }

    /// The generator after the worker hands over `rows` in turn.
    pub open spec fn write_all(self, rows: Seq<Seq<Sample>>) -> GenView
        decreases rows.len(),
    {
        if rows.len() == 0 {
            self
        } else {
            self.write_all(rows.drop_last()).write(rows.last())
        }
    }
}

/// From Gen, a run that opens with an update tick and has not reached Render
/// starts exactly one cycle and is still in it, whatever ticks, rows and
/// regenerate requests follow the first tick.
pub proof fn lemma_one_cycle_per_tick(g: GenView, steps: Seq<Step>)
    requires
        g.state == GenState::Gen,
        steps.len() >= 1,
        steps[0] is Tick,
        forall|k: int| 0 <= k <= steps.len() ==> (#[trigger] g.run(steps.take(k))).state != GenState::Render,
    ensures
        g.spawn_count(steps) == 1,
        g.run(steps).state == GenState::Working,
    decreases steps.len(),
{
    let p = steps.drop_last();
    if steps.len() == 1 {
        assert(p.len() == 0);
        assert(steps.last() is Tick);
        assert(g.run(p) == g);
        assert(g.spawn_count(p) == 0);
        assert(g.run(p).spawns(steps.last()));
    } else {
        assert forall|k: int| 0 <= k <= p.len() implies (#[trigger] g.run(p.take(k))).state
            != GenState::Render by {
            assert(p.take(k) =~= steps.take(k));
        }
        assert(p[0] == steps[0]);
        lemma_one_cycle_per_tick(g, p);
        assert(!g.run(p).spawns(steps.last()));
        assert(steps.take(steps.len() as int) =~= steps);
        assert(g.run(steps.take(steps.len() as int)).state != GenState::Render);
    }
}

/// In Render every cell of the grid holds a sample.
pub proof fn lemma_render_grid_full(g: GenView)
    requires
        g.wf(),
        g.state == GenState::Render,
    ensures
        all_full(g.cells),
{
}

proof fn lemma_write_all(g: GenView, rows: Seq<Seq<Sample>>)
    requires
        g.wf(),
        g.state == GenState::Working,
        g.rows_done + rows.len() <= g.height,
        forall|k: int| 0 <= k < rows.len() ==> (#[trigger] rows[k]).len() == g.width,
    ensures
        ({
            let h = g.write_all(rows);
            &&& h.wf()
            &&& h.state == GenState::Working
            &&& h.width == g.width
            &&& h.height == g.height
            &&& h.rows_done == g.rows_done + rows.len()
            &&& h.cells.len() == g.cells.len()
            &&& forall|k: int|
                0 <= k < rows.len() ==> h.cells[g.rows_done + k] == rows[k].map_values(
                    |s: Sample| Some(s),
                )
            &&& forall|i: int|
                0 <= i < g.rows_done || g.rows_done + rows.len() <= i < g.height ==> h.cells[i]
                    == g.cells[i]
        }),
    decreases rows.len(),
{
    if rows.len() > 0 {
        let p = rows.drop_last();
        lemma_write_all(g, p);
        let h0 = g.write_all(p);
        let row = rows.last();
        let h = h0.write(row);
        assert(h0.accepts_row(row));
        assert(h.cells == h0.cells.update(h0.rows_done as int, row.map_values(|s: Sample| Some(s))));
        assert forall|i: int| 0 <= i < h.rows_done implies #[trigger] row_full(h.cells, i) by {
            if i < h0.rows_done {
                assert(row_full(h0.cells, i));
            }
        }
        assert forall|i: int| 0 <= i < h.height implies (#[trigger] h.cells[i]).len() == h.width by {
            if i != h0.rows_done {
                assert(h0.cells[i].len() == h0.width);
            }
        }
        assert forall|k: int| 0 <= k < rows.len() implies h.cells[g.rows_done + k] == rows[k].map_values(
            |s: Sample| Some(s),
        ) by {
            if k < p.len() {
                assert(p[k] == rows[k]);
            }
        }
    }
}

/// A regenerate request in Render, followed by an update tick, by the worker
/// handing over every row and by its end of cycle, runs exactly one cycle:
/// one tick starts it, the state stays Working until the last row, and the
/// grid is then rewritten in full with the new rows and back in Render.
pub proof fn lemma_regenerate_round_trip(g: GenView, rows: Seq<Seq<Sample>>)
    requires
        g.wf(),
        g.state == GenState::Render,
        rows.len() == g.height,
        forall|k: int| 0 <= k < rows.len() ==> (#[trigger] rows[k]).len() == g.width,
    ensures
        g.restart().state == GenState::Gen,
        g.restart().spawns(Step::Tick),
        forall|k: int|
            0 <= k <= rows.len() ==> (#[trigger] g.restart().tick().write_all(rows.take(k))).state
                == GenState::Working,
        g.restart().tick().write_all(rows).can_finish(),
        g.restart().tick().write_all(rows).finish().state == GenState::Render,
        g.restart().tick().write_all(rows).finish().cells == rows.map_values(
            |r: Seq<Sample>| r.map_values(|s: Sample| Some(s)),
        ),
{
    let w = g.restart().tick();
    assert(w.wf());
    assert forall|k: int| 0 <= k <= rows.len() implies (#[trigger] w.write_all(rows.take(k))).state
        == GenState::Working by {
        lemma_write_all(w, rows.take(k));
    }
    lemma_write_all(w, rows);
    let h = w.write_all(rows);
    assert(h.cells =~= rows.map_values(|r: Seq<Sample>| r.map_values(|s: Sample| Some(s))));
}

} // verus!
