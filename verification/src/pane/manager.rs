use crate::pane::layout::{
    clamp_ratio, is_first_at, lemma_position_is, position, rect_ids, Layout, LayoutNode,
    LayoutView, Rect, SplitDirection, RATIO_HALF, RATIO_MAX, RATIO_MIN, RATIO_SCALE,
};
use crate::pane::pane::{Pane, PaneView};
use crate::pane::PaneId;
use std::collections::HashMap;
use vstd::prelude::*;

verus! {

broadcast use vstd::std_specs::hash::group_hash_axioms;

/// Cell sizes are given in thousandths of a pixel.
pub const CELL_UNITS: u32 = 1000;

/// The most columns or rows a pane gets: what a pseudoterminal's window
/// size can express.
pub const MAX_GRID_SIDE: usize = 65535;

/// A direction in which focus moves.
#[derive(Debug, Clone, Copy, PartialEq, Eq, Structural)]
pub enum Direction {
    Left,
    Right,
    Up,
    Down,
}

/// What the reading of one pane's pseudoterminal found in a frame.
#[derive(Debug, Clone, Copy, PartialEq, Eq, Structural)]
pub struct PaneReport {
    pub pane_id: PaneId,
    /// Whether the pane took in any output.
    pub has_output: bool,
    /// Whether the pane's child process is still running.
    pub alive: bool,
}

/// How many cells of `cell` thousandths of a pixel fit into `pixels` pixels:
/// the quotient rounded down, at least 1 and at most 65535.
pub open spec fn cells_across(pixels: u32, cell: u32) -> nat {
    let fit = (pixels * CELL_UNITS) / (cell as int);
    if fit < 1 {
        1
    } else if fit > MAX_GRID_SIDE {
        MAX_GRID_SIDE as nat
    } else {
        fit as nat
    }
}

/// The place of a pointer along an extent of the window, as a ratio held to
/// its range. `offset` is the pointer's distance from the window's near
/// edge.
pub open spec fn pointer_ratio(offset: u32, total: u32) -> u32 {
    if total == 0 {
        RATIO_MIN
    } else if (offset * RATIO_SCALE) / (total as int) > RATIO_MAX {
        RATIO_MAX
    } else {
        clamp_ratio(((offset * RATIO_SCALE) / (total as int)) as u32)
    }
}

/// The rectangle that `rects` gives the pane `id` first.
pub open spec fn rect_of(rects: Seq<(PaneId, Rect)>, id: PaneId) -> Rect {
    rects[position(rect_ids(rects), id)].1
}

/// The centre of a rectangle along x.
pub open spec fn center_x(rect: Rect) -> int {
    rect.x + rect.width / 2
}

/// The centre of a rectangle along y.
pub open spec fn center_y(rect: Rect) -> int {
    rect.y + rect.height / 2
}

/// Whether the centre of `to` lies strictly in `direction` of the centre of
/// `from`.
pub open spec fn in_direction(direction: Direction, from: Rect, to: Rect) -> bool {
    match direction {
        Direction::Left => center_x(to) < center_x(from),
        Direction::Right => center_x(to) > center_x(from),
        Direction::Up => center_y(to) < center_y(from),
        Direction::Down => center_y(to) > center_y(from),
    }
}

pub open spec fn gap(a: int, b: int) -> int {
    if a < b {
        b - a
    } else {
        a - b
    }
}

/// The Manhattan distance between the centres of two rectangles.
pub open spec fn distance(a: Rect, b: Rect) -> int {
    gap(center_x(a), center_x(b)) + gap(center_y(a), center_y(b))
}

/// Whether `pane` may take the focus from `active`, whose rectangle is
/// `from`.
pub open spec fn is_candidate(
    pane: (PaneId, Rect),
    active: PaneId,
    from: Rect,
    direction: Direction,
) -> bool {
    pane.0 != active && in_direction(direction, from, pane.1)
}

/// Whether `pane` is the better choice than `other`: nearer, or as near and
/// of the smaller id.
pub open spec fn beats(pane: (PaneId, Rect), other: (PaneId, Rect), from: Rect) -> bool {
    distance(from, pane.1) < distance(from, other.1) || (distance(from, pane.1) == distance(
        from,
        other.1,
    ) && pane.0 < other.0)
}

/// The best candidate among the first `n` of `rects`.
pub open spec fn nearest(
    rects: Seq<(PaneId, Rect)>,
    active: PaneId,
    from: Rect,
    direction: Direction,
    n: int,
) -> Option<(PaneId, Rect)>
    decreases n,
{
    if n <= 0 {
        None
    } else {
        let before = nearest(rects, active, from, direction, n - 1);
        let pane = rects[n - 1];
        if is_candidate(pane, active, from, direction) && (match before {
            Some(best) => beats(pane, best, from),
            None => true,
        }) {
            Some(pane)
        } else {
            before
        }
    }
}

/// The pane that takes the focus when it moves in `direction`: among the
/// panes whose centre lies strictly in that direction of the active pane's
/// centre, the one at the smallest Manhattan distance, and of several the one
/// with the smallest id.
pub open spec fn focus_target(
    rects: Seq<(PaneId, Rect)>,
    active: PaneId,
    direction: Direction,
) -> Option<PaneId> {
    if rect_ids(rects).contains(active) {
        match nearest(rects, active, rect_of(rects, active), direction, rects.len() as int) {
            Some(best) => Some(best.0),
            None => None,
        }
    } else {
        None
    }
}

/// The best candidate is a candidate that no other candidate beats; there is
/// none only where there is no candidate.
pub proof fn lemma_nearest_is_best(
    rects: Seq<(PaneId, Rect)>,
    active: PaneId,
    from: Rect,
    direction: Direction,
    n: int,
)
    requires
        0 <= n <= rects.len(),
    ensures
        match nearest(rects, active, from, direction, n) {
            Some(best) => {
                &&& is_candidate(best, active, from, direction)
                &&& exists|i: int| 0 <= i < n && rects[i] == best
                &&& forall|i: int|
                    0 <= i < n && is_candidate(#[trigger] rects[i], active, from, direction)
                        ==> !beats(rects[i], best, from)
            },
            None => forall|i: int|
                0 <= i < n ==> !is_candidate(#[trigger] rects[i], active, from, direction),
        },
    decreases n,
{
    if n > 0 {
        lemma_nearest_is_best(rects, active, from, direction, n - 1);
        let before = nearest(rects, active, from, direction, n - 1);
        let pane = rects[n - 1];
        match nearest(rects, active, from, direction, n) {
            Some(best) => {
                if best == pane && is_candidate(pane, active, from, direction) {
                    assert(rects[n - 1] == best);
                } else {
                    let i = choose|i: int| 0 <= i < n - 1 && rects[i] == best;
                    assert(rects[i] == best);
                }
            },
            None => {},
        }
    }
}

/// The pane after `active` in the cycle of `ids`; `active` itself where the
/// cycle has one pane or does not hold it.
pub open spec fn next_in_cycle(ids: Seq<PaneId>, active: PaneId) -> PaneId {
    if ids.len() > 1 && ids.contains(active) {
        ids[(position(ids, active) + 1) % (ids.len() as int)]
    } else {
        active
    }
}

/// The pane before `active` in the cycle of `ids`.
pub open spec fn prev_in_cycle(ids: Seq<PaneId>, active: PaneId) -> PaneId {
    if ids.len() > 1 && ids.contains(active) {
        if position(ids, active) == 0 {
            ids[ids.len() - 1]
        } else {
            ids[position(ids, active) - 1]
        }
    } else {
        active
    }
}

/// The pane reached from `active` by `steps` moves to the next pane.
pub open spec fn next_times(ids: Seq<PaneId>, active: PaneId, steps: nat) -> PaneId
    decreases steps,
{
    if steps == 0 {
        active
    } else {
        next_in_cycle(ids, next_times(ids, active, (steps - 1) as nat))
    }
}

proof fn lemma_position_unique(ids: Seq<PaneId>, k: int)
    requires
        ids.no_duplicates(),
        0 <= k < ids.len(),
    ensures
        position(ids, ids[k]) == k,
        ids.contains(ids[k]),
{
    assert(is_first_at(ids, ids[k], k));
    lemma_position_is(ids, ids[k], k);
}

proof fn lemma_next_times_index(ids: Seq<PaneId>, start: int, steps: nat)
    requires
        ids.no_duplicates(),
        0 <= start < ids.len(),
    ensures
        next_times(ids, ids[start], steps) == ids[(start + steps) % (ids.len() as int)],
    decreases steps,
{
    let n = ids.len() as int;
    if steps == 0 {
        assert(start % n == start) by (nonlinear_arith)
            requires
                0 <= start < n,
        ;
    } else {
        lemma_next_times_index(ids, start, (steps - 1) as nat);
        let at = (start + steps - 1) % n;
        assert(0 <= at < n) by (nonlinear_arith)
            requires
                at == (start + steps - 1) % n,
                n > 0,
        ;
        lemma_position_unique(ids, at);
        if n > 1 {
            assert((at + 1) % n == (start + steps) % n) by (nonlinear_arith)
                requires
                    at == (start + steps - 1) % n,
                    n > 0,
            ;
        } else {
            assert((start + steps) % n == 0 && at == 0) by (nonlinear_arith)
                requires
                    n == 1,
                    at == (start + steps - 1) % n,
            ;
        }
    }
}

/// Moving to the next pane as many times as there are panes leads back to
/// the pane where it started.
pub proof fn lemma_focus_cycle_returns(ids: Seq<PaneId>, active: PaneId)
    requires
        ids.no_duplicates(),
        ids.contains(active),
    ensures
        next_times(ids, active, ids.len()) == active,
{
    let start = choose|i: int| 0 <= i < ids.len() && ids[i] == active;
    lemma_next_times_index(ids, start, ids.len());
    let n = ids.len() as int;
    assert((start + n) % n == start) by (nonlinear_arith)
        requires
            0 <= start < n,
    ;
}

/// The mathematical model of a pane manager.
pub struct ManagerView {
    pub panes: Map<PaneId, PaneView>,
    pub layout: LayoutView,
    pub active: PaneId,
    pub broadcast: bool,
    /// The scrollback that new panes get.
    pub scrollback: nat,
    /// The command that each pane's pseudoterminal runs.
    pub shell: Seq<char>,
}

impl ManagerView {
    /// Whether two managers differ in their panes at most.
    pub open spec fn same_frame(self, other: ManagerView) -> bool {
        &&& self.layout == other.layout
        &&& self.active == other.active
        &&& self.broadcast == other.broadcast
        &&& self.scrollback == other.scrollback
        &&& self.shell == other.shell
    }

    /// The panes in the order of the layout.
    pub open spec fn ids(self) -> Seq<PaneId> {
        self.layout.root.ids()
    }

    /// The invariant of a manager: the layout is well formed, the panes held
    /// are those of the layout, each under its own id and well formed, and the
    /// active pane is one of them.
    pub open spec fn wf(self) -> bool {
        &&& self.layout.wf()
        &&& forall|id: PaneId| #[trigger] self.panes.contains_key(id) <==> self.ids().contains(id)
        &&& forall|id: PaneId| #[trigger]
            self.panes.contains_key(id) ==> self.panes[id].id == id && self.panes[id].wf()
        &&& self.panes.contains_key(self.active)
    }

    /// Making `id` the active pane: the pane that was active loses its mark
    /// and `id` gets it. Nothing happens where no pane has that id.
    pub open spec fn activate(self, id: PaneId) -> ManagerView {
        if self.panes.contains_key(id) {
            let cleared = if self.panes.contains_key(self.active) {
                self.panes.insert(
                    self.active,
                    PaneView { is_active: false, ..self.panes[self.active] },
                )
            } else {
                self.panes
            };
            ManagerView {
                panes: cleared.insert(id, PaneView { is_active: true, ..cleared[id] }),
                active: id,
                ..self
            }
        } else {
            self
        }
    }

    /// The panes after the first `n` of `rects` gave their panes a size; each
    /// pane also takes the cell size, by which it sizes images.
    pub open spec fn resize_panes(
        panes: Map<PaneId, PaneView>,
        rects: Seq<(PaneId, Rect)>,
        n: int,
        cell_width: u32,
        cell_height: u32,
    ) -> Map<PaneId, PaneView>
        decreases n,
    {
        if n <= 0 {
            panes
        } else {
            let before = Self::resize_panes(panes, rects, n - 1, cell_width, cell_height);
            let (id, rect) = rects[n - 1];
            if before.contains_key(id) {
                before.insert(
                    id,
                    before[id].resize(
                        cells_across(rect.width, cell_width),
                        cells_across(rect.height, cell_height),
                    ).with_cell_size(cell_width, cell_height),
                )
            } else {
                before
            }
        }
    }

    /// Every pane of the layout resized to what its rectangle holds, and
    /// told the cell size.
    pub open spec fn resize_all(self, window_rect: Rect, cell_width: u32, cell_height: u32)
        -> ManagerView {
        let rects = self.layout.root.rects(window_rect);
        ManagerView {
            panes: Self::resize_panes(
                self.panes,
                rects,
                rects.len() as int,
                cell_width,
                cell_height,
            ),
            ..self
        }
    }

    /// Splitting the active pane. The layout is split at it; the new pane is
    /// made with the size of its rectangle and the manager's scrollback; then
    /// every pane is resized. No id left means no split.
    pub open spec fn split_active(
        self,
        direction: SplitDirection,
        window_rect: Rect,
        cell_width: u32,
        cell_height: u32,
        ratio: u32,
    ) -> (ManagerView, Option<PaneId>) {
        let (layout, new_id) = Layout::split_result(self.layout, self.active, direction, ratio);
        match new_id {
            Some(id) => {
                let rect = rect_of(layout.root.rects(window_rect), id);
                let fresh = PaneView::fresh(
                    id,
                    cells_across(rect.width, cell_width),
                    cells_across(rect.height, cell_height),
                    self.scrollback,
                );
                (
                    ManagerView { layout, panes: self.panes.insert(id, fresh), ..self }.resize_all(
                        window_rect,
                        cell_width,
                        cell_height,
                    ),
                    Some(id),
                )
            },
            None => (ManagerView { layout, ..self }, None),
        }
    }

    /// Whether `pane_id` can be closed: it is a pane, and not the last.
    pub open spec fn can_close(self, pane_id: PaneId) -> bool {
        self.layout.root is Branch && self.ids().contains(pane_id)
    }

    /// Closing a pane: it leaves the layout and the panes; if it was active,
    /// the first pane of the layout becomes active; then every pane is
    /// resized.
    pub open spec fn close(
        self,
        pane_id: PaneId,
        window_rect: Rect,
        cell_width: u32,
        cell_height: u32,
    ) -> ManagerView {
        if self.can_close(pane_id) {
            let layout = LayoutView { root: self.layout.root.remove(pane_id), ..self.layout };
            let rest = ManagerView { layout, panes: self.panes.remove(pane_id), ..self };
            let elected = if self.active == pane_id {
                rest.activate(layout.root.ids()[0])
            } else {
                rest
            };
            elected.resize_all(window_rect, cell_width, cell_height)
        } else {
            self
        }
    }

    /// The manager after the first `n` reports were looked at, and whether
    /// the application is to exit. A pane whose child has ended is closed,
    /// unless it is the last pane: then nothing more is closed and the
    /// application is to exit.
    pub open spec fn reap(
        self,
        reports: Seq<PaneReport>,
        n: int,
        window_rect: Rect,
        cell_width: u32,
        cell_height: u32,
    ) -> (ManagerView, bool)
        decreases n,
    {
        if n <= 0 {
            (self, false)
        } else {
            let (before, exit) = self.reap(reports, n - 1, window_rect, cell_width, cell_height);
            let report = reports[n - 1];
            if exit {
                (before, true)
            } else if !report.alive && before.panes.contains_key(report.pane_id) {
                if before.layout.root is Leaf {
                    (before, true)
                } else {
                    (before.close(report.pane_id, window_rect, cell_width, cell_height), false)
                }
            } else {
                (before, false)
            }
        }
    }

    /// The panes that input goes to: all of them in broadcast mode, in the
    /// order of the layout; the active pane otherwise.
    pub open spec fn input_targets(self) -> Seq<PaneId> {
        if self.broadcast {
            self.ids()
        } else if self.panes.contains_key(self.active) {
            seq![self.active]
        } else {
            Seq::empty()
        }
    }

    /// Moving the border under the pointer to the pointer: the ratio is the
    /// pointer's place in the window along the split axis.
    pub open spec fn update_border(
        self,
        x: u32,
        y: u32,
        window_rect: Rect,
        cell_width: u32,
        cell_height: u32,
    ) -> ManagerView {
        match self.layout.root.find_border(x, y, window_rect) {
            Some((direction, ratio)) => {
                let new_ratio = match direction {
                    SplitDirection::Horizontal => pointer_ratio(
                        if y >= window_rect.y {
                            (y - window_rect.y) as u32
                        } else {
                            0
                        },
                        window_rect.height,
                    ),
                    SplitDirection::Vertical => pointer_ratio(
                        if x >= window_rect.x {
                            (x - window_rect.x) as u32
                        } else {
                            0
                        },
                        window_rect.width,
                    ),
                };
                ManagerView {
                    layout: LayoutView {
                        root: self.layout.root.update_ratio(x, y, window_rect, new_ratio),
                        ..self.layout
                    },
                    ..self
                }.resize_all(window_rect, cell_width, cell_height)
            },
            None => self,
        }
    }
}

/// Whether any of the reports tells of output.
pub open spec fn any_output(reports: Seq<PaneReport>) -> bool {
    exists|i: int| 0 <= i < reports.len() && (#[trigger] reports[i]).has_output
}

/// Calls `HashMap::get_mut`: a mutable reference to the value under `id`,
/// or `None` where the map has no such key. What the caller stores through
/// the reference is the value under `id` afterwards; no other entry changes.
#[verifier::external_body]
fn entry_mut(panes: &mut HashMap<PaneId, Pane>, id: PaneId) -> (pane: Option<&mut Pane>)
    ensures
        match pane {
            Some(found) => {
                &&& old(panes)@.contains_key(id)
                &&& *found == old(panes)@[id]
                &&& final(panes)@ == old(panes)@.insert(id, *final(found))
            },
            None => !old(panes)@.contains_key(id) && final(panes)@ == old(panes)@,
        },
{
    panes.get_mut(&id)
}

/// How many cells fit into `pixels` pixels.
fn cells_in(pixels: u32, cell: u32) -> (cells: usize)
    requires
        cell > 0,
    ensures
        cells == cells_across(pixels, cell),
        1 <= cells <= MAX_GRID_SIDE,
{
    let fit: u64 = ((pixels as u64) * (CELL_UNITS as u64)) / (cell as u64);
    if fit < 1 {
        1
    } else if fit > MAX_GRID_SIDE as u64 {
        MAX_GRID_SIDE
    } else {
        fit as usize
    }
}

fn ratio_at(offset: u32, total: u32) -> (ratio: u32)
    ensures
        ratio == pointer_ratio(offset, total),
{
    if total == 0 {
        RATIO_MIN
    } else {
        assert(offset * RATIO_SCALE <= 0xffff_ffff * 1000000) by (nonlinear_arith)
            requires
                0 <= offset <= 0xffff_ffff,
                RATIO_SCALE == 1000000,
        ;
        let place: u64 = ((offset as u64) * (RATIO_SCALE as u64)) / (total as u64);
        if place > RATIO_MAX as u64 {
            RATIO_MAX
        } else if place < RATIO_MIN as u64 {
            RATIO_MIN
        } else {
            place as u32
        }
    }
}

/// The rectangle that `rects` gives the pane `id` first.
fn find_rect(rects: &Vec<(PaneId, Rect)>, id: PaneId) -> (found: Option<Rect>)
    ensures
        match found {
            Some(rect) => rect_ids(rects@).contains(id) && rect == rect_of(rects@, id),
            None => !rect_ids(rects@).contains(id),
        },
{
    let mut i: usize = 0;
    while i < rects.len()
        invariant
            i <= rects@.len(),
            forall|j: int| 0 <= j < i ==> rects@[j].0 != id,
        decreases rects@.len() - i,
    {
        if rects[i].0 == id {
            proof {
                let ids = rect_ids(rects@);
                assert(ids[i as int] == id);
                assert(is_first_at(ids, id, i as int));
                lemma_position_is(ids, id, i as int);
            }
            return Some(rects[i].1);
        }
        i += 1;
    }
    proof {
        let ids = rect_ids(rects@);
        if ids.contains(id) {
            let j = choose|j: int| 0 <= j < ids.len() && ids[j] == id;
            assert(rects@[j].0 == id);
        }
    }
    None
}

/// The place of `id` in `ids`.
fn find_position(ids: &Vec<PaneId>, id: PaneId) -> (found: Option<usize>)
    ensures
        match found {
            Some(at) => ids@.contains(id) && at == position(ids@, id) && at < ids@.len(),
            None => !ids@.contains(id),
        },
{
    let mut i: usize = 0;
    while i < ids.len()
        invariant
            i <= ids@.len(),
            forall|j: int| 0 <= j < i ==> ids@[j] != id,
        decreases ids@.len() - i,
    {
        if ids[i] == id {
            proof {
                assert(is_first_at(ids@, id, i as int));
                lemma_position_is(ids@, id, i as int);
            }
            return Some(i);
        }
        i += 1;
    }
    None
}

fn center_of(rect: &Rect) -> (center: (u32, u32))
    requires
        rect.fits(),
    ensures
        center.0 == center_x(*rect),
        center.1 == center_y(*rect),
{
    (rect.x + rect.width / 2, rect.y + rect.height / 2)
}

fn distance_between(a: &Rect, b: &Rect) -> (d: u64)
    requires
        a.fits(),
        b.fits(),
    ensures
        d == distance(*a, *b),
{
    let (ax, ay) = center_of(a);
    let (bx, by) = center_of(b);
    let dx: u32 = if ax < bx {
        bx - ax
    } else {
        ax - bx
    };
    let dy: u32 = if ay < by {
        by - ay
    } else {
        ay - by
    };
    (dx as u64) + (dy as u64)
}

fn lies_in_direction(direction: Direction, from: &Rect, to: &Rect) -> (lies: bool)
    requires
        from.fits(),
        to.fits(),
    ensures
        lies == in_direction(direction, *from, *to),
{
    let (fx, fy) = center_of(from);
    let (tx, ty) = center_of(to);
    match direction {
        Direction::Left => tx < fx,
        Direction::Right => tx > fx,
        Direction::Up => ty < fy,
        Direction::Down => ty > fy,
    }
}

/// The pane that takes the focus when it moves in `direction`.
pub fn choose_focus(rects: &Vec<(PaneId, Rect)>, active: PaneId, direction: Direction) -> (target:
    Option<PaneId>)
    requires
        forall|i: int| 0 <= i < rects@.len() ==> (#[trigger] rects@[i]).1.fits(),
    ensures
        target == focus_target(rects@, active, direction),
{
    let from = match find_rect(rects, active) {
        Some(rect) => rect,
        None => {
            return None;
        },
    };
    proof {
        let ids = rect_ids(rects@);
        crate::pane::layout::lemma_position_found(ids, active);
        assert(rects@[position(ids, active)].1.fits());
    }
    let mut best: Option<(PaneId, Rect)> = None;
    let mut i: usize = 0;
    while i < rects.len()
        invariant
            i <= rects@.len(),
            from.fits(),
            forall|k: int| 0 <= k < rects@.len() ==> (#[trigger] rects@[k]).1.fits(),
            best == nearest(rects@, active, from, direction, i as int),
            match best {
                Some(found) => found.1.fits(),
                None => true,
            },
        decreases rects@.len() - i,
    {
        let pane = rects[i];
        if pane.0 != active && lies_in_direction(direction, &from, &pane.1) {
            let better = match best {
                Some(found) => {
                    let d = distance_between(&from, &pane.1);
                    let e = distance_between(&from, &found.1);
                    d < e || (d == e && pane.0 < found.0)
                },
                None => true,
            };
            if better {
                best = Some(pane);
            }
        }
        i += 1;
    }
    match best {
        Some(found) => Some(found.0),
        None => None,
    }
}

/// What a manager asks of the panes it holds: they are the panes `ids` of
/// the layout, each under its own id and well formed, and `active` is one of
/// them.
pub closed spec fn panes_ok(panes: Map<PaneId, Pane>, ids: Seq<PaneId>, active: PaneId) -> bool {
    &&& forall|id: PaneId| #[trigger] panes.contains_key(id) <==> ids.contains(id)
    &&& forall|id: PaneId| #[trigger]
        panes.contains_key(id) ==> panes[id].wf() && panes[id]@.wf() && panes[id]@.id == id
    &&& panes.contains_key(active)
}

/// The panes stay in order when one of them gives way to a well-formed pane
/// of the same id.
broadcast proof fn lemma_replace_pane(
    panes: Map<PaneId, Pane>,
    ids: Seq<PaneId>,
    active: PaneId,
    id: PaneId,
    pane: Pane,
)
    requires
        panes_ok(panes, ids, active),
        panes.contains_key(id),
        pane.wf(),
        pane@.wf(),
        pane@.id == id,
    ensures
        #[trigger] panes_ok(panes.insert(id, pane), ids, active),
{
    let after = panes.insert(id, pane);
    assert forall|k: PaneId| #[trigger] after.contains_key(k) <==> ids.contains(k) by {
        assert(panes.contains_key(k) <==> ids.contains(k));
    }
    assert forall|k: PaneId| #[trigger] after.contains_key(k) implies after[k].wf()
        && after[k]@.wf() && after[k]@.id == k by {
        if k != id {
            assert(panes.contains_key(k));
        }
    }
}

/// Owns the panes, knows which one is active, and keeps their sizes in step
/// with the layout.
pub struct PaneManager {
    panes: HashMap<PaneId, Pane>,
    layout: Layout,
    active_pane_id: PaneId,
    broadcast_enabled: bool,
    shell: String,
    scrollback: usize,
}

impl View for PaneManager {
    type V = ManagerView;

    closed spec fn view(&self) -> ManagerView {
        ManagerView {
            panes: Map::new(
                |id: PaneId| self.panes@.contains_key(id),
                |id: PaneId| self.panes@[id]@,
            ),
            layout: self.layout@,
            active: self.active_pane_id,
            broadcast: self.broadcast_enabled,
            scrollback: self.scrollback as nat,
            shell: self.shell@,
        }
    }
}

impl PaneManager {
    /// The invariant that `new` establishes and every method keeps.
    pub closed spec fn wf(&self) -> bool {
        &&& self.layout.wf()
        &&& panes_ok(self.panes@, self.layout@.root.ids(), self.active_pane_id)
    }

    /// A well-formed manager has a well-formed model.
    pub proof fn lemma_wf_view(&self)
        requires
            self.wf(),
        ensures
            self@.wf(),
    {
    }

    /// A manager of one pane, pane 0, which is the active pane; broadcast is
    /// off.
    pub fn new(cols: usize, rows: usize, scrollback: usize, shell: String) -> (manager:
        PaneManager)
        requires
            cols >= 1,
            rows >= 1,
            cols * rows <= usize::MAX,
        ensures
            manager.wf(),
            manager@.panes == Map::<PaneId, PaneView>::empty().insert(
                0,
                PaneView::fresh(0, cols as nat, rows as nat, scrollback as nat),
            ),
            manager@.layout.root == (LayoutNode::Leaf { pane_id: 0 }),
            manager@.layout.next_id == 1,
            manager@.active == 0,
            !manager@.broadcast,
            manager@.scrollback == scrollback,
            manager@.shell == shell@,
    {
        let mut panes: HashMap<PaneId, Pane> = HashMap::new();
        let initial = Pane::new(0, cols, rows, scrollback);
        proof {
            initial.lemma_wf_view();
        }
        panes.insert(0, initial);
        let manager = PaneManager {
            panes,
            layout: Layout::new(),
            active_pane_id: 0,
            broadcast_enabled: false,
            shell,
            scrollback,
        };
        proof {
            assert(manager@.panes =~= Map::<PaneId, PaneView>::empty().insert(
                0,
                PaneView::fresh(0, cols as nat, rows as nat, scrollback as nat),
            ));
            let ids = manager@.ids();
            assert(ids =~= seq![0usize]);
            assert(ids[0] == 0);
            assert forall|id: PaneId| #[trigger]
                manager@.panes.contains_key(id) <==> ids.contains(id) by {
                if ids.contains(id) {
                    let i = choose|i: int| 0 <= i < ids.len() && ids[i] == id;
                }
            }
        }
        manager
    }

    pub fn active_pane_id(&self) -> (id: PaneId)
        ensures
            id == self@.active,
    {
        self.active_pane_id
    }

    /// The active pane.
    pub fn active_pane(&self) -> (pane: Option<&Pane>)
        requires
            self.wf(),
        ensures
            match pane {
                Some(found) => self@.panes.contains_key(self@.active) && found@
                    == self@.panes[self@.active] && found.wf(),
                None => !self@.panes.contains_key(self@.active),
            },
    {
        self.panes.get(&self.active_pane_id)
    }

    /// The active pane, to be changed in place.
    pub fn active_pane_mut(&mut self) -> (pane: Option<&mut Pane>)
        requires
            old(self).wf(),
        ensures
            pane is Some <==> old(self)@.panes.contains_key(old(self)@.active),
            match pane {
                Some(found) => found@ == old(self)@.panes[old(self)@.active] && found.wf(),
                None => true,
            },
            match pane {
                Some(found) => final(self)@.panes =~= old(self)@.panes.insert(
                    old(self)@.active,
                    final(found)@,
                ),
                None => final(self)@.panes =~= old(self)@.panes,
            },
            final(self)@.same_frame(old(self)@),
            match pane {
                Some(found) => final(found).wf() && final(found)@.wf() && final(found)@.id
                    == found@.id ==> final(self).wf(),
                None => final(self).wf(),
            },
    {
        let id = self.active_pane_id;
        self.pane_mut(id)
    }

    /// The pane with the given id.
    pub fn pane(&self, pane_id: PaneId) -> (pane: Option<&Pane>)
        requires
            self.wf(),
        ensures
            match pane {
                Some(found) => self@.panes.contains_key(pane_id) && found@ == self@.panes[pane_id]
                    && found.wf(),
                None => !self@.panes.contains_key(pane_id),
            },
    {
        self.panes.get(&pane_id)
    }

    /// The pane with the given id, to be changed in place. The manager stays
    /// well formed as long as the pane does.
    pub fn pane_mut(&mut self, pane_id: PaneId) -> (pane: Option<&mut Pane>)
        requires
            old(self).wf(),
        ensures
            pane is Some <==> old(self)@.panes.contains_key(pane_id),
            match pane {
                Some(found) => found@ == old(self)@.panes[pane_id] && found.wf(),
                None => true,
            },
            match pane {
                Some(found) => final(self)@.panes =~= old(self)@.panes.insert(
                    pane_id,
                    final(found)@,
                ),
                None => final(self)@.panes =~= old(self)@.panes,
            },
            final(self)@.same_frame(old(self)@),
            match pane {
                Some(found) => final(found).wf() && final(found)@.wf() && final(found)@.id
                    == found@.id ==> final(self).wf(),
                None => final(self).wf(),
            },
    {
        broadcast use lemma_replace_pane;

        entry_mut(&mut self.panes, pane_id)
    }

    /// The panes, in the order of the layout.
    pub fn panes(&self) -> (panes: Vec<&Pane>)
        requires
            self.wf(),
        ensures
            panes@.len() == self@.ids().len(),
            forall|i: int|
                0 <= i < panes@.len() ==> (#[trigger] panes@[i])@ == self@.panes[self@.ids()[i]]
                    && panes@[i].wf(),
    {
        let ids = self.layout.all_pane_ids();
        let mut out: Vec<&Pane> = Vec::new();
        let mut i: usize = 0;
        while i < ids.len()
            invariant
                self.wf(),
                ids@ == self@.ids(),
                i <= ids@.len(),
                out@.len() == i,
                forall|k: int|
                    0 <= k < i ==> (#[trigger] out@[k])@ == self@.panes[ids@[k]] && out@[k].wf(),
            decreases ids@.len() - i,
        {
            assert(self@.ids().contains(ids@[i as int]));
            assert(self@.panes.contains_key(ids@[i as int]));
            match self.panes.get(&ids[i]) {
                Some(pane) => {
                    out.push(pane);
                },
                None => {
                    assert(false);
                },
            }
            i += 1;
        }
        out
    }

    pub fn layout(&self) -> (layout: &Layout)
        requires
            self.wf(),
        ensures
            layout.wf(),
            layout@ == self@.layout,
    {
        &self.layout
    }

    /// The command that each pane's pseudoterminal runs.
    pub fn shell(&self) -> (shell: &String)
        ensures
            shell@ == self@.shell,
    {
        &self.shell
    }

    /// The scrollback that new panes get.
    pub fn scrollback(&self) -> (scrollback: usize)
        ensures
            scrollback == self@.scrollback,
    {
        self.scrollback
    }

    /// The rectangle of the active pane.
    pub fn active_pane_rect(&self, window_rect: Rect) -> (rect: Option<Rect>)
        requires
            self.wf(),
            window_rect.fits(),
        ensures
            rect == Some(rect_of(self@.layout.root.rects(window_rect), self@.active)),
    {
        let rects = self.layout.calculate_rects(window_rect);
        find_rect(&rects, self.active_pane_id)
    }

    pub fn is_broadcast_enabled(&self) -> (enabled: bool)
        ensures
            enabled == self@.broadcast,
    {
        self.broadcast_enabled
    }

    /// Switches broadcast mode on or off.
    pub fn toggle_broadcast(&mut self)
        ensures
            final(self)@ == (ManagerView { broadcast: !old(self)@.broadcast, ..old(self)@ }),
            old(self).wf() ==> final(self).wf(),
    {
        self.broadcast_enabled = !self.broadcast_enabled;
    }

    /// Makes the pane with the given id the active pane; `false` where there
    /// is no such pane.
    pub fn set_active_pane(&mut self, pane_id: PaneId) -> (changed: bool)
        requires
            old(self).wf(),
        ensures
            final(self).wf(),
            changed == old(self)@.panes.contains_key(pane_id),
            final(self)@ == old(self)@.activate(pane_id),
    {
        if self.panes.contains_key(&pane_id) {
            let old_id = self.active_pane_id;
            match entry_mut(&mut self.panes, old_id) {
                Some(pane) => {
                    pane.set_active(false);
                },
                None => {},
            }
            self.active_pane_id = pane_id;
            match entry_mut(&mut self.panes, pane_id) {
                Some(pane) => {
                    pane.set_active(true);
                },
                None => {},
            }
            proof {
                assert(self@.panes =~= old(self)@.activate(pane_id).panes);
                assert forall|id: PaneId| #[trigger] self.panes@.contains_key(id) implies self.panes@[id].wf()
                    && self@.panes[id].id == id && self@.panes[id].wf() by {
                    self.panes@[id].lemma_wf_view();
                    assert(old(self)@.panes.contains_key(id));
                }
            }
            true
        } else {
            false
        }
    }

    /// Splits the active pane in two equal parts.
    pub fn split_active_pane(
        &mut self,
        direction: SplitDirection,
        window_rect: Rect,
        cell_width: u32,
        cell_height: u32,
    ) -> (new_id: Option<PaneId>)
        requires
            old(self).wf(),
            window_rect.fits(),
            cell_width > 0,
            cell_height > 0,
        ensures
            final(self).wf(),
            (final(self)@, new_id) == old(self)@.split_active(
                direction,
                window_rect,
                cell_width,
                cell_height,
                RATIO_HALF,
            ),
    {
        self.split_active_pane_with_ratio(
            direction,
            window_rect,
            cell_width,
            cell_height,
            RATIO_HALF,
        )
    }

    /// Splits the active pane; the new pane gets the second part, and every
    /// pane the size of its new rectangle. Returns the id of the new pane,
    /// or `None` where no id is left.
    pub fn split_active_pane_with_ratio(
        &mut self,
        direction: SplitDirection,
        window_rect: Rect,
        cell_width: u32,
        cell_height: u32,
        ratio: u32,
    ) -> (new_id: Option<PaneId>)
        requires
            old(self).wf(),
            window_rect.fits(),
            cell_width > 0,
            cell_height > 0,
        ensures
            final(self).wf(),
            (final(self)@, new_id) == old(self)@.split_active(
                direction,
                window_rect,
                cell_width,
                cell_height,
                ratio,
            ),
    {
        let active_id = self.active_pane_id;
        let ghost before = self@;
        assert(before.ids().contains(active_id));
        let new_id = match self.layout.split_pane_with_ratio(active_id, direction, ratio) {
            Some(id) => id,
            None => {
                assert(self@.panes =~= before.panes);
                return None;
            },
        };
        proof {
            crate::pane::layout::lemma_split_ids(
                before.layout.root,
                active_id,
                direction,
                new_id,
                clamp_ratio(ratio),
            );
        }
        let ghost ids = self.layout@.root.ids();
        let ghost at = position(before.ids(), active_id) + 1;
        assert(ids == before.ids().insert(at, new_id));
        assert(ids[at] == new_id);
        assert(!before.ids().contains(new_id)) by {
            if before.ids().contains(new_id) {
                let i = choose|i: int| 0 <= i < before.ids().len() && before.ids()[i] == new_id;
                assert(before.ids()[i] < before.layout.next_id);
            }
        }
        let rects = self.layout.calculate_rects(window_rect);
        let rect = match find_rect(&rects, new_id) {
            Some(rect) => rect,
            None => {
                assert(false);
                return None;
            },
        };
        let cols = cells_in(rect.width, cell_width);
        let rows = cells_in(rect.height, cell_height);
        assert(cols * rows <= usize::MAX) by (nonlinear_arith)
            requires
                1 <= cols <= 65535,
                1 <= rows <= 65535,
                usize::MAX >= 0xffff_ffff,
        ;
        let pane = Pane::new(new_id, cols, rows, self.scrollback);
        proof {
            pane.lemma_wf_view();
        }
        let ghost held = self.panes@;
        self.panes.insert(new_id, pane);
        proof {
            assert(self@.panes =~= before.panes.insert(
                new_id,
                PaneView::fresh(new_id, cols as nat, rows as nat, before.scrollback),
            ));
            assert forall|id: PaneId| #[trigger] self.panes@.contains_key(id) <==> ids.contains(
                id,
            ) by {
                assert(held.contains_key(id) <==> before.ids().contains(id));
                if id == new_id {
                } else {
                    if before.ids().contains(id) {
                        let i = choose|i: int| 0 <= i < before.ids().len() && before.ids()[i]
                            == id;
                        if i < at {
                            assert(ids[i] == id);
                        } else {
                            assert(ids[i + 1] == id);
                        }
                    }
                    if ids.contains(id) {
                        let i = choose|i: int| 0 <= i < ids.len() && ids[i] == id;
                        if i < at {
                            assert(before.ids()[i] == id);
                        } else {
                            assert(before.ids()[i - 1] == id);
                        }
                    }
                }
            }
            assert forall|id: PaneId| #[trigger] self.panes@.contains_key(id) implies self.panes@[id].wf()
                && self.panes@[id]@.wf() && self.panes@[id]@.id == id by {
                if id != new_id {
                    assert(held.contains_key(id));
                }
            }
            assert(held.contains_key(active_id));
            assert(panes_ok(self.panes@, ids, self.active_pane_id));
        }
        self.resize_all_panes(window_rect, cell_width, cell_height);
        Some(new_id)
    }

    /// Closes a pane and gives the others their new sizes; `false` where it
    /// is the last pane or no pane at all.
    pub fn close_pane(
        &mut self,
        pane_id: PaneId,
        window_rect: Rect,
        cell_width: u32,
        cell_height: u32,
    ) -> (closed: bool)
        requires
            old(self).wf(),
            window_rect.fits(),
            cell_width > 0,
            cell_height > 0,
        ensures
            final(self).wf(),
            closed == old(self)@.can_close(pane_id),
            final(self)@ == old(self)@.close(pane_id, window_rect, cell_width, cell_height),
    {
        let ghost before = self@;
        let ghost held = self.panes@;
        if !self.layout.remove_pane(pane_id) {
            assert(self@.panes =~= before.panes);
            return false;
        }
        self.panes.remove(&pane_id);
        let ghost ids = self.layout@.root.ids();
        let ghost at = position(before.ids(), pane_id);
        proof {
            crate::pane::layout::lemma_position_found(before.ids(), pane_id);
            assert(ids == before.ids().remove(at));
            assert(before.ids().len() >= 2) by {
                match before.layout.root {
                    LayoutNode::Leaf { pane_id } => {},
                    LayoutNode::Branch { direction, ratio, first, second } => {
                        lemma_ids_nonempty(*first);
                        lemma_ids_nonempty(*second);
                    },
                }
            }
            assert(self@.panes =~= before.panes.remove(pane_id));
            assert forall|id: PaneId| #[trigger] self.panes@.contains_key(id) <==> ids.contains(
                id,
            ) by {
                assert(held.contains_key(id) <==> before.ids().contains(id));
                if before.ids().contains(id) && id != pane_id {
                    let i = choose|i: int| 0 <= i < before.ids().len() && before.ids()[i] == id;
                    if i < at {
                        assert(ids[i] == id);
                    } else {
                        assert(ids[i - 1] == id);
                    }
                }
                if ids.contains(id) {
                    let i = choose|i: int| 0 <= i < ids.len() && ids[i] == id;
                    if i < at {
                        assert(before.ids()[i] == id);
                    } else {
                        assert(before.ids()[i + 1] == id);
                        assert(before.ids()[at] == pane_id);
                    }
                }
            }
            assert forall|id: PaneId| #[trigger] self.panes@.contains_key(id) implies self.panes@[id].wf()
                && self.panes@[id]@.wf() && self.panes@[id]@.id == id by {
                assert(held.contains_key(id));
            }
        }
        if self.active_pane_id == pane_id {
            let remaining = self.layout.all_pane_ids();
            let next_id = remaining[0];
            assert(ids.contains(next_id));
            assert(self.panes@.contains_key(next_id));
            assert(panes_ok(self.panes@, ids, next_id));
            let ghost rest = self@;
            match entry_mut(&mut self.panes, next_id) {
                Some(pane) => {
                    proof {
                        pane.lemma_wf_view();
                    }
                    pane.set_active(true);
                    proof {
                        pane.lemma_wf_view();
                    }
                },
                None => {},
            }
            self.active_pane_id = next_id;
            proof {
                broadcast use lemma_replace_pane;

                assert(self@.panes =~= rest.activate(next_id).panes);
                assert(panes_ok(self.panes@, ids, next_id));
            }
        } else {
            assert(held.contains_key(self.active_pane_id));
            assert(self.panes@.contains_key(self.active_pane_id));
            assert(panes_ok(self.panes@, ids, self.active_pane_id));
        }
        self.resize_all_panes(window_rect, cell_width, cell_height);
        true
    }

    /// Closes the active pane.
    pub fn close_active_pane(&mut self, window_rect: Rect, cell_width: u32, cell_height: u32) -> (
        closed: bool
    )
        requires
            old(self).wf(),
            window_rect.fits(),
            cell_width > 0,
            cell_height > 0,
        ensures
            final(self).wf(),
            closed == old(self)@.can_close(old(self)@.active),
            final(self)@ == old(self)@.close(
                old(self)@.active,
                window_rect,
                cell_width,
                cell_height,
            ),
    {
        let active_id = self.active_pane_id;
        self.close_pane(active_id, window_rect, cell_width, cell_height)
    }

    /// Looks at what the reading of the panes found in this frame: closes the
    /// panes whose child has ended, and says whether any pane took in output
    /// and whether the application is to exit because the child of the last
    /// pane has ended.
    pub fn process_all_pty_output(
        &mut self,
        reports: &Vec<PaneReport>,
        window_rect: Rect,
        cell_width: u32,
        cell_height: u32,
    ) -> (outcome: (bool, bool))
        requires
            old(self).wf(),
            window_rect.fits(),
            cell_width > 0,
            cell_height > 0,
        ensures
            final(self).wf(),
            outcome.0 == any_output(reports@),
            (final(self)@, outcome.1) == old(self)@.reap(
                reports@,
                reports@.len() as int,
                window_rect,
                cell_width,
                cell_height,
            ),
    {
        let mut has_any_output = false;
        let mut k: usize = 0;
        while k < reports.len()
            invariant
                k <= reports@.len(),
                has_any_output == (exists|i: int|
                    0 <= i < k && (#[trigger] reports@[i]).has_output),
            decreases reports@.len() - k,
        {
            if reports[k].has_output {
                has_any_output = true;
            }
            k += 1;
        }
        let mut should_exit = false;
        let mut i: usize = 0;
        while i < reports.len()
            invariant
                i <= reports@.len(),
                self.wf(),
                window_rect.fits(),
                cell_width > 0,
                cell_height > 0,
                (self@, should_exit) == old(self)@.reap(
                    reports@,
                    i as int,
                    window_rect,
                    cell_width,
                    cell_height,
                ),
            decreases reports@.len() - i,
        {
            let report = reports[i];
            if !should_exit && !report.alive && self.panes.contains_key(&report.pane_id) {
                let last = match self.layout.root() {
                    LayoutNode::Leaf { .. } => true,
                    LayoutNode::Branch { .. } => false,
                };
                if last {
                    should_exit = true;
                } else {
                    self.close_pane(report.pane_id, window_rect, cell_width, cell_height);
                }
            }
            i += 1;
        }
        (has_any_output, should_exit)
    }

    /// The writes that input asks for: the bytes for every pane in broadcast
    /// mode, for the active pane otherwise.
    pub fn write_input(&self, data: &[u8]) -> (writes: Vec<(PaneId, Vec<u8>)>)
        requires
            self.wf(),
        ensures
            writes@.len() == self@.input_targets().len(),
            forall|i: int|
                0 <= i < writes@.len() ==> (#[trigger] writes@[i]).0 == self@.input_targets()[i]
                    && writes@[i].1@ == data@,
    {
        let mut writes: Vec<(PaneId, Vec<u8>)> = Vec::new();
        if self.broadcast_enabled {
            let ids = self.layout.all_pane_ids();
            let mut i: usize = 0;
            while i < ids.len()
                invariant
                    i <= ids@.len(),
                    ids@ == self@.ids(),
                    writes@.len() == i,
                    forall|k: int|
                        0 <= k < i ==> (#[trigger] writes@[k]).0 == ids@[k] && writes@[k].1@
                            == data@,
                decreases ids@.len() - i,
            {
                writes.push((ids[i], vstd::slice::slice_to_vec(data)));
                i += 1;
            }
        } else if self.panes.contains_key(&self.active_pane_id) {
            writes.push((self.active_pane_id, vstd::slice::slice_to_vec(data)));
        }
        writes
    }

    /// Gives every pane the size that its rectangle holds, and the cell
    /// size to size images by.
    pub fn resize_all_panes(&mut self, window_rect: Rect, cell_width: u32, cell_height: u32)
        requires
            old(self).wf(),
            window_rect.fits(),
            cell_width > 0,
            cell_height > 0,
        ensures
            final(self).wf(),
            final(self)@ == old(self)@.resize_all(window_rect, cell_width, cell_height),
    {
        let rects = self.layout.calculate_rects(window_rect);
        let ghost before = self@;
        let mut i: usize = 0;
        assert(self@.panes =~= before.panes);
        while i < rects.len()
            invariant
                i <= rects@.len(),
                self.wf(),
                cell_width > 0,
                cell_height > 0,
                rects@ == before.layout.root.rects(window_rect),
                self@ == (ManagerView {
                    panes: ManagerView::resize_panes(
                        before.panes,
                        rects@,
                        i as int,
                        cell_width,
                        cell_height,
                    ),
                    ..before
                }),
            decreases rects@.len() - i,
        {
            let (pane_id, rect) = rects[i];
            let ghost prev = self@;
            match entry_mut(&mut self.panes, pane_id) {
                Some(pane) => {
                    let cols = cells_in(rect.width, cell_width);
                    let rows = cells_in(rect.height, cell_height);
                    assert(cols * rows <= usize::MAX) by (nonlinear_arith)
                        requires
                            1 <= cols <= 65535,
                            1 <= rows <= 65535,
                            usize::MAX >= 0xffff_ffff,
                    ;
                    pane.resize(cols, rows);
                    pane.set_cell_size(cell_width, cell_height);
                },
                None => {},
            }
            proof {
                let want = ManagerView::resize_panes(
                    before.panes,
                    rects@,
                    i + 1,
                    cell_width,
                    cell_height,
                );
                assert(self@.panes =~= want);
                assert forall|id: PaneId| #[trigger] self.panes@.contains_key(id) implies self.panes@[id].wf()
                    && self@.panes[id].id == id && self@.panes[id].wf() by {
                    self.panes@[id].lemma_wf_view();
                    assert(prev.panes.contains_key(id));
                }
                assert forall|id: PaneId| #[trigger]
                    self@.panes.contains_key(id) <==> self@.ids().contains(id) by {
                    assert(prev.panes.contains_key(id) <==> prev.ids().contains(id));
                }
            }
            i += 1;
        }
    }

    /// Moves the focus to the next pane in the order of the layout, from the
    /// last pane to the first; `false` where there is one pane only.
    pub fn focus_next(&mut self) -> (moved: bool)
        requires
            old(self).wf(),
        ensures
            final(self).wf(),
            moved == (old(self)@.ids().len() > 1),
            final(self)@ == if moved {
                old(self)@.activate(next_in_cycle(old(self)@.ids(), old(self)@.active))
            } else {
                old(self)@
            },
    {
        let all_ids = self.layout.all_pane_ids();
        assert(self@.ids().contains(self@.active));
        if all_ids.len() <= 1 {
            return false;
        }
        match find_position(&all_ids, self.active_pane_id) {
            Some(current) => {
                let next = (current + 1) % all_ids.len();
                assert(self@.ids().contains(all_ids@[next as int]));
                self.set_active_pane(all_ids[next]);
                true
            },
            None => false,
        }
    }

    /// Moves the focus to the pane before the active one, from the first
    /// pane to the last; `false` where there is one pane only.
    pub fn focus_prev(&mut self) -> (moved: bool)
        requires
            old(self).wf(),
        ensures
            final(self).wf(),
            moved == (old(self)@.ids().len() > 1),
            final(self)@ == if moved {
                old(self)@.activate(prev_in_cycle(old(self)@.ids(), old(self)@.active))
            } else {
                old(self)@
            },
    {
        let all_ids = self.layout.all_pane_ids();
        assert(self@.ids().contains(self@.active));
        if all_ids.len() <= 1 {
            return false;
        }
        match find_position(&all_ids, self.active_pane_id) {
            Some(current) => {
                let prev = if current == 0 {
                    all_ids.len() - 1
                } else {
                    current - 1
                };
                assert(self@.ids().contains(all_ids@[prev as int]));
                self.set_active_pane(all_ids[prev]);
                true
            },
            None => false,
        }
    }

    /// Moves the focus to the nearest pane on the left.
    pub fn focus_left(&mut self, window_rect: Rect) -> (moved: bool)
        requires
            old(self).wf(),
            window_rect.fits(),
        ensures
            final(self).wf(),
            (final(self)@, moved) == old(self)@.focus(window_rect, Direction::Left),
    {
        self.focus_direction(window_rect, Direction::Left)
    }

    /// Moves the focus to the nearest pane on the right.
    pub fn focus_right(&mut self, window_rect: Rect) -> (moved: bool)
        requires
            old(self).wf(),
            window_rect.fits(),
        ensures
            final(self).wf(),
            (final(self)@, moved) == old(self)@.focus(window_rect, Direction::Right),
    {
        self.focus_direction(window_rect, Direction::Right)
    }

    /// Moves the focus to the nearest pane above.
    pub fn focus_up(&mut self, window_rect: Rect) -> (moved: bool)
        requires
            old(self).wf(),
            window_rect.fits(),
        ensures
            final(self).wf(),
            (final(self)@, moved) == old(self)@.focus(window_rect, Direction::Up),
    {
        self.focus_direction(window_rect, Direction::Up)
    }

    /// Moves the focus to the nearest pane below.
    pub fn focus_down(&mut self, window_rect: Rect) -> (moved: bool)
        requires
            old(self).wf(),
            window_rect.fits(),
        ensures
            final(self).wf(),
            (final(self)@, moved) == old(self)@.focus(window_rect, Direction::Down),
    {
        self.focus_direction(window_rect, Direction::Down)
    }

    /// Moves the focus to the nearest pane in a direction; `false` where no
    /// pane lies there.
    pub fn focus_direction(&mut self, window_rect: Rect, direction: Direction) -> (moved: bool)
        requires
            old(self).wf(),
            window_rect.fits(),
        ensures
            final(self).wf(),
            (final(self)@, moved) == old(self)@.focus(window_rect, direction),
    {
        let rects = self.layout.calculate_rects(window_rect);
        match choose_focus(&rects, self.active_pane_id, direction) {
            Some(pane_id) => {
                proof {
                    lemma_nearest_is_best(
                        rects@,
                        self@.active,
                        rect_of(rects@, self@.active),
                        direction,
                        rects@.len() as int,
                    );
                    let best = nearest(
                        rects@,
                        self@.active,
                        rect_of(rects@, self@.active),
                        direction,
                        rects@.len() as int,
                    )->0;
                    let i = choose|i: int| 0 <= i < rects@.len() && rects@[i] == best;
                    assert(rect_ids(rects@)[i] == pane_id);
                    assert(self@.ids().contains(pane_id));
                }
                self.set_active_pane(pane_id);
                true
            },
            None => false,
        }
    }

    /// Moves the border under the pointer to the pointer and gives every
    /// pane its new size; `false` where no border is within reach.
    pub fn update_border_at(
        &mut self,
        x: u32,
        y: u32,
        window_rect: Rect,
        cell_width: u32,
        cell_height: u32,
    ) -> (updated: bool)
        requires
            old(self).wf(),
            window_rect.fits(),
            cell_width > 0,
            cell_height > 0,
        ensures
            final(self).wf(),
            updated == old(self)@.layout.root.find_border(x, y, window_rect).is_some(),
            final(self)@ == old(self)@.update_border(x, y, window_rect, cell_width, cell_height),
    {
        let ghost before = self@;
        match self.layout.find_border_at(x, y, window_rect) {
            Some((direction, _current)) => {
                let new_ratio = match direction {
                    SplitDirection::Horizontal => ratio_at(
                        if y >= window_rect.y {
                            y - window_rect.y
                        } else {
                            0
                        },
                        window_rect.height,
                    ),
                    SplitDirection::Vertical => ratio_at(
                        if x >= window_rect.x {
                            x - window_rect.x
                        } else {
                            0
                        },
                        window_rect.width,
                    ),
                };
                self.layout.update_split_ratio_at(x, y, window_rect, new_ratio);
                proof {
                    assert(self@.panes =~= before.panes);
                }
                self.resize_all_panes(window_rect, cell_width, cell_height);
                true
            },
            None => false,
        }
    }

    /// Whether the pointer is within reach of a border.
    pub fn is_near_border(&self, x: u32, y: u32, window_rect: Rect) -> (near: bool)
        requires
            self.wf(),
            window_rect.fits(),
        ensures
            near == self@.layout.root.find_border(x, y, window_rect).is_some(),
    {
        self.layout.find_border_at(x, y, window_rect).is_some()
    }
}

impl ManagerView {
    /// Moving the focus in a direction, and whether it moved.
    pub open spec fn focus(self, window_rect: Rect, direction: Direction) -> (ManagerView, bool) {
        match focus_target(self.layout.root.rects(window_rect), self.active, direction) {
            Some(id) => (self.activate(id), true),
            None => (self, false),
        }
    }
}

/// A tree has at least one pane.
pub proof fn lemma_ids_nonempty(node: LayoutNode)
    ensures
        node.ids().len() >= 1,
    decreases node,
{
    match node {
        LayoutNode::Leaf { pane_id } => {},
        LayoutNode::Branch { direction, ratio, first, second } => {
            lemma_ids_nonempty(*first);
            lemma_ids_nonempty(*second);
        },
    }
}

} // verus!
