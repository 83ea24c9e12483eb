use crate::pane::PaneId;
use vstd::prelude::*;

verus! {

/// How a branch parts its rectangle: `Horizontal` into top and bottom,
/// `Vertical` into left and right.
#[derive(Debug, Clone, Copy, PartialEq, Eq, Structural)]
pub enum SplitDirection {
    Horizontal,
    Vertical,
}

/// The rectangle of a pane, in pixels.
#[derive(Debug, Clone, Copy, PartialEq, Eq, Structural)]
pub struct Rect {
    pub x: u32,
    pub y: u32,
    pub width: u32,
    pub height: u32,
}

/// A split ratio is a whole number of millionths: the share of a branch's
/// rectangle that its first child takes.
pub const RATIO_SCALE: u32 = 1000000;

/// The smallest ratio a branch may have: one tenth.
pub const RATIO_MIN: u32 = 100000;

/// The largest ratio a branch may have: nine tenths.
pub const RATIO_MAX: u32 = 900000;

/// One half.
pub const RATIO_HALF: u32 = 500000;

/// A pointer is near a border when it is no more than this many pixels from
/// the split line.
pub const BORDER_REACH: u32 = 10;

impl Rect {
    pub fn new(x: u32, y: u32, width: u32, height: u32) -> (rect: Rect)
        ensures
            rect == (Rect { x, y, width, height }),
    {
        Rect { x, y, width, height }
    }

    /// Whether the far edges of the rectangle are coordinates too.
    pub open spec fn fits(self) -> bool {
        self.x + self.width <= u32::MAX && self.y + self.height <= u32::MAX
    }

    /// Whether the pixel `(px, py)` lies in the rectangle.
    pub open spec fn covers(self, px: int, py: int) -> bool {
        self.x <= px < self.x + self.width && self.y <= py < self.y + self.height
    }

    /// The same as `fits`, computed.
    pub fn check_fits(&self) -> (fits: bool)
        ensures
            fits == self.fits(),
    {
        (self.x as u64) + (self.width as u64) <= (u32::MAX as u64) && (self.y as u64) + (
        self.height as u64) <= (u32::MAX as u64)
    }
}

/// `ratio` held to the range from one tenth to nine tenths.
pub open spec fn clamp_ratio(ratio: u32) -> u32 {
    if ratio < RATIO_MIN {
        RATIO_MIN
    } else if ratio > RATIO_MAX {
        RATIO_MAX
    } else {
        ratio
    }
}

/// The extent of the first child along the split axis: `ratio` millionths of
/// `total`, rounded down.
pub open spec fn first_part(total: u32, ratio: u32) -> int {
    (total * ratio) / (RATIO_SCALE as int)
}

/// The rectangle of the first child.
pub open spec fn first_rect(rect: Rect, direction: SplitDirection, ratio: u32) -> Rect {
    match direction {
        SplitDirection::Horizontal => Rect {
            height: first_part(rect.height, ratio) as u32,
            ..rect
        },
        SplitDirection::Vertical => Rect { width: first_part(rect.width, ratio) as u32, ..rect },
    }
}

/// The rectangle of the second child: what the first leaves.
pub open spec fn second_rect(rect: Rect, direction: SplitDirection, ratio: u32) -> Rect {
    match direction {
        SplitDirection::Horizontal => Rect {
            y: (rect.y + first_part(rect.height, ratio)) as u32,
            height: (rect.height - first_part(rect.height, ratio)) as u32,
            ..rect
        },
        SplitDirection::Vertical => Rect {
            x: (rect.x + first_part(rect.width, ratio)) as u32,
            width: (rect.width - first_part(rect.width, ratio)) as u32,
            ..rect
        },
    }
}

/// Where the border of a branch runs: the `y` of a horizontal split, the `x`
/// of a vertical one.
pub open spec fn split_line(rect: Rect, direction: SplitDirection, ratio: u32) -> int {
    match direction {
        SplitDirection::Horizontal => rect.y + first_part(rect.height, ratio),
        SplitDirection::Vertical => rect.x + first_part(rect.width, ratio),
    }
}

/// Whether the pointer `(x, y)` is within reach of the border of a branch;
/// only the coordinate across the border counts.
pub open spec fn near_border(
    rect: Rect,
    direction: SplitDirection,
    ratio: u32,
    x: u32,
    y: u32,
) -> bool {
    let line = split_line(rect, direction, ratio);
    let pointer = match direction {
        SplitDirection::Horizontal => y,
        SplitDirection::Vertical => x,
    };
    line - BORDER_REACH <= pointer <= line + BORDER_REACH
}

/// A node of the layout tree.
#[derive(Debug)]
pub enum LayoutNode {
    Leaf { pane_id: PaneId },
    Branch {
        direction: SplitDirection,
        /// The share of the first child, in millionths.
        ratio: u32,
        first: Box<LayoutNode>,
        second: Box<LayoutNode>,
    },
}

impl LayoutNode {
    /// The panes of the tree, first child before second: the order in which
    /// focus cycles.
    pub open spec fn ids(self) -> Seq<PaneId>
        decreases self,
    {
        match self {
            LayoutNode::Leaf { pane_id } => seq![pane_id],
            LayoutNode::Branch { direction, ratio, first, second } => first.ids() + second.ids(),
        }
    }

    /// Every ratio of the tree lies between one tenth and nine tenths.
    pub open spec fn ratios_ok(self) -> bool
        decreases self,
    {
        match self {
            LayoutNode::Leaf { pane_id } => true,
            LayoutNode::Branch { direction, ratio, first, second } => {
                &&& RATIO_MIN <= ratio <= RATIO_MAX
                &&& first.ratios_ok()
                &&& second.ratios_ok()
            },
        }
    }

    /// The invariant of a tree: ratios in range and no pane twice.
    pub open spec fn wf(self) -> bool {
        self.ratios_ok() && self.ids().no_duplicates()
    }

    pub open spec fn is_leaf_of(self, id: PaneId) -> bool {
        self == (LayoutNode::Leaf { pane_id: id })
    }

    /// The tree with the first leaf of `target` replaced by a branch of that
    /// leaf and a new leaf `new_id`; the same tree where it has no such leaf.
    pub open spec fn split(
        self,
        target: PaneId,
        direction: SplitDirection,
        new_id: PaneId,
        ratio: u32,
    ) -> LayoutNode
        decreases self,
    {
        match self {
            LayoutNode::Leaf { pane_id } => if pane_id == target {
                LayoutNode::Branch {
                    direction,
                    ratio,
                    first: Box::new(LayoutNode::Leaf { pane_id }),
                    second: Box::new(LayoutNode::Leaf { pane_id: new_id }),
                }
            } else {
                self
            },
            LayoutNode::Branch { direction: d, ratio: r, first, second } => if first.ids().contains(
                target,
            ) {
                LayoutNode::Branch {
                    direction: d,
                    ratio: r,
                    first: Box::new(first.split(target, direction, new_id, ratio)),
                    second,
                }
            } else {
                LayoutNode::Branch {
                    direction: d,
                    ratio: r,
                    first,
                    second: Box::new(second.split(target, direction, new_id, ratio)),
                }
            },
        }
    }

    /// Whether a branch of the tree has the leaf `target` as a child.
    pub open spec fn removes(self, target: PaneId) -> bool
        decreases self,
    {
        match self {
            LayoutNode::Leaf { pane_id } => false,
            LayoutNode::Branch { direction, ratio, first, second } => {
                ||| first.is_leaf_of(target)
                ||| second.is_leaf_of(target)
                ||| first.removes(target)
                ||| second.removes(target)
            },
        }
    }

    /// The tree without the leaf `target`: the first branch that has it as a
    /// child gives way to its other child. A branch is asked before its
    /// children, the first child before the second.
    pub open spec fn remove(self, target: PaneId) -> LayoutNode
        decreases self,
    {
        match self {
            LayoutNode::Leaf { pane_id } => self,
            LayoutNode::Branch { direction, ratio, first, second } => if first.is_leaf_of(target) {
                *second
            } else if second.is_leaf_of(target) {
                *first
            } else if first.removes(target) {
                LayoutNode::Branch {
                    direction,
                    ratio,
                    first: Box::new(first.remove(target)),
                    second,
                }
            } else {
                LayoutNode::Branch {
                    direction,
                    ratio,
                    first,
                    second: Box::new(second.remove(target)),
                }
            },
        }
    }

    /// The rectangle of every pane, in the order of `ids`, when the tree
    /// fills `rect`.
    pub open spec fn rects(self, rect: Rect) -> Seq<(PaneId, Rect)>
        decreases self,
    {
        match self {
            LayoutNode::Leaf { pane_id } => seq![(pane_id, rect)],
            LayoutNode::Branch { direction, ratio, first, second } => first.rects(
                first_rect(rect, direction, ratio),
            ) + second.rects(second_rect(rect, direction, ratio)),
        }
    }

    /// The border under the pointer `(x, y)`: the first branch whose border
    /// is within reach, a branch before its children and the first child
    /// before the second, with its direction and ratio.
    pub open spec fn find_border(self, x: u32, y: u32, rect: Rect) -> Option<
        (SplitDirection, u32),
    >
        decreases self,
    {
        match self {
            LayoutNode::Leaf { pane_id } => None,
            LayoutNode::Branch { direction, ratio, first, second } => if near_border(
                rect,
                direction,
                ratio,
                x,
                y,
            ) {
                Some((direction, ratio))
            } else {
                match first.find_border(x, y, first_rect(rect, direction, ratio)) {
                    Some(found) => Some(found),
                    None => second.find_border(x, y, second_rect(rect, direction, ratio)),
                }
            },
        }
    }

    /// The tree with the ratio of the border under the pointer replaced by
    /// `new_ratio`, held to its range; the same tree where no border is
    /// within reach.
    pub open spec fn update_ratio(self, x: u32, y: u32, rect: Rect, new_ratio: u32) -> LayoutNode
        decreases self,
    {
        match self {
            LayoutNode::Leaf { pane_id } => self,
            LayoutNode::Branch { direction, ratio, first, second } => if near_border(
                rect,
                direction,
                ratio,
                x,
                y,
            ) {
                LayoutNode::Branch { direction, ratio: clamp_ratio(new_ratio), first, second }
            } else if first.find_border(x, y, first_rect(rect, direction, ratio)).is_some() {
                LayoutNode::Branch {
                    direction,
                    ratio,
                    first: Box::new(
                        first.update_ratio(x, y, first_rect(rect, direction, ratio), new_ratio),
                    ),
                    second,
                }
            } else {
                LayoutNode::Branch {
                    direction,
                    ratio,
                    first,
                    second: Box::new(
                        second.update_ratio(x, y, second_rect(rect, direction, ratio), new_ratio),
                    ),
                }
            },
        }
    }
}

/// Whether `k` is the first place where `ids` holds `id`.
pub open spec fn is_first_at(ids: Seq<PaneId>, id: PaneId, k: int) -> bool {
    &&& 0 <= k < ids.len()
    &&& ids[k] == id
    &&& forall|j: int| 0 <= j < k ==> ids[j] != id
}

/// The first place where `ids` holds `id`; arbitrary where it holds none.
pub open spec fn position(ids: Seq<PaneId>, id: PaneId) -> int {
    choose|k: int| is_first_at(ids, id, k)
}

/// The first place is the position.
pub proof fn lemma_position_is(ids: Seq<PaneId>, id: PaneId, k: int)
    requires
        is_first_at(ids, id, k),
    ensures
        position(ids, id) == k,
{
    let c = position(ids, id);
    assert(is_first_at(ids, id, c));
    if c < k {
        assert(ids[c] == id);
    } else if k < c {
        assert(ids[k] == id);
    }
}

proof fn lemma_first_before(ids: Seq<PaneId>, id: PaneId, i: int)
    requires
        0 <= i < ids.len(),
        ids[i] == id,
    ensures
        exists|k: int| is_first_at(ids, id, k),
    decreases i,
{
    if forall|j: int| 0 <= j < i ==> ids[j] != id {
        assert(is_first_at(ids, id, i));
    } else {
        let j = choose|j: int| 0 <= j < i && ids[j] == id;
        lemma_first_before(ids, id, j);
    }
}

/// A sequence that holds `id` holds it first at its position.
pub proof fn lemma_position_found(ids: Seq<PaneId>, id: PaneId)
    requires
        ids.contains(id),
    ensures
        is_first_at(ids, id, position(ids, id)),
{
    let i = choose|i: int| 0 <= i < ids.len() && ids[i] == id;
    lemma_first_before(ids, id, i);
}

/// The first place of `id` in a concatenation whose first part holds it.
pub proof fn lemma_position_in_first(a: Seq<PaneId>, b: Seq<PaneId>, id: PaneId)
    requires
        a.contains(id),
    ensures
        is_first_at(a, id, position(a, id)),
        is_first_at(a + b, id, position(a, id)),
        position(a + b, id) == position(a, id),
{
    lemma_position_found(a, id);
    let k = position(a, id);
    assert(is_first_at(a + b, id, k)) by {
        assert((a + b)[k] == a[k]);
        assert forall|j: int| 0 <= j < k implies (a + b)[j] != id by {
            assert((a + b)[j] == a[j]);
        }
    }
    lemma_position_is(a + b, id, k);
}

/// The first place of `id` in a concatenation whose second part alone holds
/// it.
pub proof fn lemma_position_in_second(a: Seq<PaneId>, b: Seq<PaneId>, id: PaneId)
    requires
        !a.contains(id),
        b.contains(id),
    ensures
        is_first_at(b, id, position(b, id)),
        is_first_at(a + b, id, a.len() + position(b, id)),
        position(a + b, id) == a.len() + position(b, id),
{
    lemma_position_found(b, id);
    let k = position(b, id);
    assert(is_first_at(a + b, id, a.len() + k)) by {
        assert((a + b)[a.len() + k] == b[k]);
        assert forall|j: int| 0 <= j < a.len() + k implies (a + b)[j] != id by {
            if j < a.len() {
                assert((a + b)[j] == a[j]);
            } else {
                assert((a + b)[j] == b[j - a.len()]);
            }
        }
    }
    lemma_position_is(a + b, id, a.len() + k);
}

/// A concatenation holds what one of its parts holds.
pub proof fn lemma_contains_concat(a: Seq<PaneId>, b: Seq<PaneId>, id: PaneId)
    ensures
        (a + b).contains(id) <==> a.contains(id) || b.contains(id),
{
    if a.contains(id) {
        let i = choose|i: int| 0 <= i < a.len() && a[i] == id;
        assert((a + b)[i] == id);
    }
    if b.contains(id) {
        let i = choose|i: int| 0 <= i < b.len() && b[i] == id;
        assert((a + b)[i + a.len()] == id);
    }
    if (a + b).contains(id) {
        let i = choose|i: int| 0 <= i < (a + b).len() && (a + b)[i] == id;
        if i < a.len() {
            assert(a[i] == id);
        } else {
            assert(b[i - a.len()] == id);
        }
    }
}

proof fn lemma_insert_concat(a: Seq<PaneId>, b: Seq<PaneId>, i: int, id: PaneId)
    ensures
        0 <= i <= a.len() ==> a.insert(i, id) + b == (a + b).insert(i, id),
        0 <= i <= b.len() ==> a + b.insert(i, id) == (a + b).insert(a.len() + i, id),
{
    if 0 <= i <= a.len() {
        assert(a.insert(i, id) + b =~= (a + b).insert(i, id));
    }
    if 0 <= i <= b.len() {
        assert(a + b.insert(i, id) =~= (a + b).insert(a.len() + i, id));
    }
}

proof fn lemma_remove_concat(a: Seq<PaneId>, b: Seq<PaneId>, i: int)
    ensures
        0 <= i < a.len() ==> a.remove(i) + b == (a + b).remove(i),
        0 <= i < b.len() ==> a + b.remove(i) == (a + b).remove(a.len() + i),
{
    if 0 <= i < a.len() {
        assert(a.remove(i) + b =~= (a + b).remove(i));
    }
    if 0 <= i < b.len() {
        assert(a + b.remove(i) =~= (a + b).remove(a.len() + i));
    }
}

proof fn lemma_no_duplicates_parts(a: Seq<PaneId>, b: Seq<PaneId>)
    requires
        (a + b).no_duplicates(),
    ensures
        a.no_duplicates(),
        b.no_duplicates(),
        forall|id: PaneId| !(a.contains(id) && b.contains(id)),
{
    assert forall|i: int, j: int| 0 <= i < a.len() && 0 <= j < a.len() && i != j implies a[i]
        != a[j] by {
        assert((a + b)[i] == a[i] && (a + b)[j] == a[j]);
    }
    assert forall|i: int, j: int| 0 <= i < b.len() && 0 <= j < b.len() && i != j implies b[i]
        != b[j] by {
        assert((a + b)[i + a.len()] == b[i] && (a + b)[j + a.len()] == b[j]);
    }
    assert forall|id: PaneId| !(a.contains(id) && b.contains(id)) by {
        if a.contains(id) && b.contains(id) {
            let i = choose|i: int| 0 <= i < a.len() && a[i] == id;
            let j = choose|j: int| 0 <= j < b.len() && b[j] == id;
            assert((a + b)[i] == id && (a + b)[j + a.len()] == id);
        }
    }
}

/// The pane ids of a list of rectangles.
pub open spec fn rect_ids(rects: Seq<(PaneId, Rect)>) -> Seq<PaneId> {
    Seq::new(rects.len(), |i: int| rects[i].0)
}

/// The first part of a length is no more than the length, for a ratio of at
/// most one.
pub proof fn lemma_first_part_bounds(total: u32, ratio: u32)
    requires
        ratio <= RATIO_SCALE,
    ensures
        0 <= first_part(total, ratio) <= total,
{
    assert(0 <= total * ratio <= total * 1000000) by (nonlinear_arith)
        requires
            0 <= ratio <= 1000000,
            0 <= total,
    ;
}

/// Both parts of a rectangle that fits fit, and a pixel of the rectangle
/// lies in exactly one of them.
pub proof fn lemma_split_rect(rect: Rect, direction: SplitDirection, ratio: u32)
    requires
        rect.fits(),
        ratio <= RATIO_SCALE,
    ensures
        first_rect(rect, direction, ratio).fits(),
        second_rect(rect, direction, ratio).fits(),
        forall|px: int, py: int|
            rect.covers(px, py) <==> (#[trigger] first_rect(rect, direction, ratio).covers(px, py)
                || second_rect(rect, direction, ratio).covers(px, py)),
        forall|px: int, py: int|
            !(#[trigger] first_rect(rect, direction, ratio).covers(px, py) && second_rect(
                rect,
                direction,
                ratio,
            ).covers(px, py)),
{
    lemma_first_part_bounds(rect.height, ratio);
    lemma_first_part_bounds(rect.width, ratio);
}

/// The rectangles of a tree come in the order of its panes.
pub proof fn lemma_rects_follow_ids(node: LayoutNode, rect: Rect)
    ensures
        node.rects(rect).len() == node.ids().len(),
        rect_ids(node.rects(rect)) == node.ids(),
    decreases node,
{
    match node {
        LayoutNode::Leaf { pane_id } => {
            assert(rect_ids(node.rects(rect)) =~= node.ids());
        },
        LayoutNode::Branch { direction, ratio, first, second } => {
            lemma_rects_follow_ids(*first, first_rect(rect, direction, ratio));
            lemma_rects_follow_ids(*second, second_rect(rect, direction, ratio));
            let a = first.rects(first_rect(rect, direction, ratio));
            let b = second.rects(second_rect(rect, direction, ratio));
            assert forall|i: int| 0 <= i < (a + b).len() implies rect_ids(a + b)[i] == (first.ids()
                + second.ids())[i] by {
                if i < a.len() {
                    assert(rect_ids(a)[i] == first.ids()[i]);
                } else {
                    assert(rect_ids(b)[i - a.len()] == second.ids()[i - a.len()]);
                }
            }
            assert(rect_ids(node.rects(rect)) =~= node.ids());
        },
    }
}

/// The rectangles of a tree part the window exactly: a pixel of the window
/// lies in one rectangle and only one, and a pixel outside it in none.
pub proof fn lemma_rects_partition(node: LayoutNode, rect: Rect, px: int, py: int)
    requires
        node.ratios_ok(),
        rect.fits(),
    ensures
        rect.covers(px, py) ==> exists|i: int|
            0 <= i < node.rects(rect).len() && (#[trigger] node.rects(rect)[i]).1.covers(px, py),
        !rect.covers(px, py) ==> forall|i: int|
            0 <= i < node.rects(rect).len() ==> !(#[trigger] node.rects(rect)[i]).1.covers(px, py),
        forall|i: int, j: int|
            0 <= i < node.rects(rect).len() && 0 <= j < node.rects(rect).len() && (
            #[trigger] node.rects(rect)[i]).1.covers(px, py) && (#[trigger] node.rects(
                rect,
            )[j]).1.covers(px, py) ==> i == j,
        forall|i: int|
            0 <= i < node.rects(rect).len() ==> (#[trigger] node.rects(rect)[i]).1.fits(),
    decreases node,
{
    match node {
        LayoutNode::Leaf { pane_id } => {
            if rect.covers(px, py) {
                assert(node.rects(rect)[0].1.covers(px, py));
            }
        },
        LayoutNode::Branch { direction, ratio, first, second } => {
            let ra = first_rect(rect, direction, ratio);
            let rb = second_rect(rect, direction, ratio);
            lemma_split_rect(rect, direction, ratio);
            lemma_rects_partition(*first, ra, px, py);
            lemma_rects_partition(*second, rb, px, py);
            let a = first.rects(ra);
            let b = second.rects(rb);
            let all = node.rects(rect);
            assert(all == a + b);
            assert forall|i: int| 0 <= i < all.len() implies all[i] == (if i < a.len() {
                a[i]
            } else {
                b[i - a.len()]
            }) by {}
            assert(ra.covers(px, py) || rb.covers(px, py) <==> rect.covers(px, py));
            assert(!(ra.covers(px, py) && rb.covers(px, py)));
            if ra.covers(px, py) {
                let i = choose|i: int| 0 <= i < a.len() && (#[trigger] a[i]).1.covers(px, py);
                assert(all[i].1.covers(px, py));
            } else if rb.covers(px, py) {
                let i = choose|i: int| 0 <= i < b.len() && (#[trigger] b[i]).1.covers(px, py);
                assert(all[i + a.len()].1.covers(px, py));
            }
            assert forall|i: int, j: int|
                0 <= i < all.len() && 0 <= j < all.len() && (#[trigger] all[i]).1.covers(px, py)
                    && (#[trigger] all[j]).1.covers(px, py) implies i == j by {
                if i < a.len() {
                    assert(a[i].1.covers(px, py));
                } else {
                    assert(b[i - a.len()].1.covers(px, py));
                }
                if j < a.len() {
                    assert(a[j].1.covers(px, py));
                } else {
                    assert(b[j - a.len()].1.covers(px, py));
                }
            }
            assert forall|i: int| 0 <= i < all.len() implies (#[trigger] all[i]).1.fits() by {
                if i < a.len() {
                    assert(a[i].1.fits());
                } else {
                    assert(b[i - a.len()].1.fits());
                }
            }
            assert forall|i: int| 0 <= i < all.len() && !rect.covers(px, py) implies !(
            #[trigger] all[i]).1.covers(px, py) by {
                if i < a.len() {
                    assert(!a[i].1.covers(px, py));
                } else {
                    assert(!b[i - a.len()].1.covers(px, py));
                }
            }
        },
    }
}

/// Only a tree that holds `target` has a branch with the leaf `target` as a
/// child.
pub proof fn lemma_removes_implies_contains(node: LayoutNode, target: PaneId)
    ensures
        node.removes(target) ==> node.ids().contains(target),
    decreases node,
{
    match node {
        LayoutNode::Leaf { pane_id } => {},
        LayoutNode::Branch { direction, ratio, first, second } => {
            lemma_removes_implies_contains(*first, target);
            lemma_removes_implies_contains(*second, target);
            let a = first.ids();
            let b = second.ids();
            if first.is_leaf_of(target) {
                assert(a[0] == target);
                assert((a + b)[0] == target);
            } else if second.is_leaf_of(target) {
                assert(b[0] == target);
                assert((a + b)[a.len() as int] == target);
            } else if first.removes(target) {
                let i = choose|i: int| 0 <= i < a.len() && a[i] == target;
                assert((a + b)[i] == target);
            } else if second.removes(target) {
                let i = choose|i: int| 0 <= i < b.len() && b[i] == target;
                assert((a + b)[i + a.len()] == target);
            }
        },
    }
}

/// A branch that holds `target` has a branch with the leaf `target` as a
/// child.
pub proof fn lemma_contains_implies_removes(node: LayoutNode, target: PaneId)
    requires
        node is Branch,
        node.ids().contains(target),
    ensures
        node.removes(target),
    decreases node,
{
    match node {
        LayoutNode::Leaf { pane_id } => {},
        LayoutNode::Branch { direction, ratio, first, second } => {
            let a = first.ids();
            let b = second.ids();
            let i = choose|i: int| 0 <= i < (a + b).len() && (a + b)[i] == target;
            if i < a.len() {
                assert(a[i] == target);
                match *first {
                    LayoutNode::Leaf { pane_id } => {
                        assert(a[0] == pane_id);
                    },
                    LayoutNode::Branch { .. } => {
                        lemma_contains_implies_removes(*first, target);
                    },
                }
            } else {
                assert(b[i - a.len()] == target);
                match *second {
                    LayoutNode::Leaf { pane_id } => {
                        assert(b[0] == pane_id);
                    },
                    LayoutNode::Branch { .. } => {
                        lemma_contains_implies_removes(*second, target);
                    },
                }
            }
        },
    }
}

/// Splitting at a pane of the tree puts the new pane right behind it in the
/// order of panes, and keeps the ratios in range where the new one is.
pub proof fn lemma_split_ids(
    node: LayoutNode,
    target: PaneId,
    direction: SplitDirection,
    new_id: PaneId,
    ratio: u32,
)
    requires
        node.ids().contains(target),
    ensures
        is_first_at(node.ids(), target, position(node.ids(), target)),
        node.split(target, direction, new_id, ratio).ids() == node.ids().insert(
            position(node.ids(), target) + 1,
            new_id,
        ),
        node.ratios_ok() && RATIO_MIN <= ratio <= RATIO_MAX ==> node.split(
            target,
            direction,
            new_id,
            ratio,
        ).ratios_ok(),
    decreases node,
{
    let ids = node.ids();
    lemma_position_found(ids, target);
    match node {
        LayoutNode::Leaf { pane_id } => {
            assert(ids[0] == pane_id);
            let grown = node.split(target, direction, new_id, ratio);
            assert(grown.ids() =~= ids.insert(1, new_id)) by {
                reveal_with_fuel(LayoutNode::ids, 2);
            }
            assert(grown.ratios_ok() == (RATIO_MIN <= ratio <= RATIO_MAX)) by {
                reveal_with_fuel(LayoutNode::ratios_ok, 2);
            }
        },
        LayoutNode::Branch { direction: d, ratio: r, first, second } => {
            let a = first.ids();
            let b = second.ids();
            lemma_contains_concat(a, b, target);
            if a.contains(target) {
                lemma_split_ids(*first, target, direction, new_id, ratio);
                lemma_position_in_first(a, b, target);
                lemma_insert_concat(a, b, position(a, target) + 1, new_id);
            } else {
                lemma_split_ids(*second, target, direction, new_id, ratio);
                lemma_position_in_second(a, b, target);
                lemma_insert_concat(a, b, position(b, target) + 1, new_id);
            }
        },
    }
}

/// Splitting a pane and then removing the new pane gives the tree back as
/// it was.
pub proof fn lemma_split_then_remove(
    node: LayoutNode,
    target: PaneId,
    direction: SplitDirection,
    new_id: PaneId,
    ratio: u32,
)
    requires
        node.ids().contains(target),
        !node.ids().contains(new_id),
    ensures
        node.split(target, direction, new_id, ratio).removes(new_id),
        node.split(target, direction, new_id, ratio).remove(new_id) == node,
    decreases node,
{
    match node {
        LayoutNode::Leaf { pane_id } => {
            assert(node.ids()[0] == pane_id);
        },
        LayoutNode::Branch { direction: d, ratio: r, first, second } => {
            let a = first.ids();
            let b = second.ids();
            assert forall|i: int| 0 <= i < a.len() implies a[i] != new_id by {
                assert((a + b)[i] == a[i]);
            }
            assert forall|i: int| 0 <= i < b.len() implies b[i] != new_id by {
                assert((a + b)[i + a.len()] == b[i]);
            }
            lemma_removes_implies_contains(*first, new_id);
            lemma_removes_implies_contains(*second, new_id);
            if a.contains(target) {
                lemma_split_then_remove(*first, target, direction, new_id, ratio);
                let grown = first.split(target, direction, new_id, ratio);
                assert(!second.is_leaf_of(new_id)) by {
                    if second.is_leaf_of(new_id) {
                        assert(b[0] == new_id);
                    }
                }
                assert(!grown.is_leaf_of(new_id)) by {
                    if grown.is_leaf_of(new_id) {
                        assert(!grown.removes(new_id));
                    }
                }
            } else {
                let i = choose|i: int| 0 <= i < (a + b).len() && (a + b)[i] == target;
                assert(b[i - a.len()] == target) by {
                    if i < a.len() {
                        assert(a[i] == target);
                    }
                }
                lemma_split_then_remove(*second, target, direction, new_id, ratio);
                let grown = second.split(target, direction, new_id, ratio);
                assert(!first.is_leaf_of(new_id)) by {
                    if first.is_leaf_of(new_id) {
                        assert(a[0] == new_id);
                    }
                }
                assert(!grown.is_leaf_of(new_id)) by {
                    if grown.is_leaf_of(new_id) {
                        assert(!grown.removes(new_id));
                    }
                }
            }
        },
    }
}

/// Removing a pane takes it out of the order of panes and leaves the others
/// in place; ratios stay in range.
pub proof fn lemma_remove_ids(node: LayoutNode, target: PaneId)
    requires
        node.removes(target),
        node.ids().no_duplicates(),
    ensures
        is_first_at(node.ids(), target, position(node.ids(), target)),
        node.remove(target).ids() == node.ids().remove(position(node.ids(), target)),
        node.ratios_ok() ==> node.remove(target).ratios_ok(),
    decreases node,
{
    lemma_removes_implies_contains(node, target);
    let ids = node.ids();
    lemma_position_found(ids, target);
    match node {
        LayoutNode::Leaf { pane_id } => {},
        LayoutNode::Branch { direction, ratio, first, second } => {
            let a = first.ids();
            let b = second.ids();
            lemma_no_duplicates_parts(a, b);
            lemma_contains_concat(a, b, target);
            lemma_removes_implies_contains(*first, target);
            lemma_removes_implies_contains(*second, target);
            if first.is_leaf_of(target) {
                assert(a =~= seq![target]);
                assert(a[0] == target);
                lemma_position_in_first(a, b, target);
                assert(position(a, target) == 0);
                assert(b =~= ids.remove(0));
            } else if second.is_leaf_of(target) {
                assert(b =~= seq![target]);
                assert(b[0] == target);
                lemma_position_in_second(a, b, target);
                assert(position(b, target) == 0);
                assert(a =~= ids.remove(a.len() as int));
            } else if first.removes(target) {
                lemma_remove_ids(*first, target);
                lemma_position_in_first(a, b, target);
                lemma_remove_concat(a, b, position(a, target));
            } else {
                lemma_remove_ids(*second, target);
                lemma_position_in_second(a, b, target);
                lemma_remove_concat(a, b, position(b, target));
            }
        },
    }
}

/// Moving a border changes no pane and keeps the ratios in range.
pub proof fn lemma_update_ratio_keeps_ids(
    node: LayoutNode,
    x: u32,
    y: u32,
    rect: Rect,
    new_ratio: u32,
)
    ensures
        node.update_ratio(x, y, rect, new_ratio).ids() == node.ids(),
        node.ratios_ok() ==> node.update_ratio(x, y, rect, new_ratio).ratios_ok(),
        node.find_border(x, y, rect).is_none() ==> node.update_ratio(x, y, rect, new_ratio)
            == node,
    decreases node,
{
    match node {
        LayoutNode::Leaf { pane_id } => {},
        LayoutNode::Branch { direction, ratio, first, second } => {
            lemma_update_ratio_keeps_ids(
                *first,
                x,
                y,
                first_rect(rect, direction, ratio),
                new_ratio,
            );
            lemma_update_ratio_keeps_ids(
                *second,
                x,
                y,
                second_rect(rect, direction, ratio),
                new_ratio,
            );
        },
    }
}

/// The extent of the first child along the split axis.
fn first_extent(total: u32, ratio: u32) -> (part: u32)
    requires
        ratio <= RATIO_SCALE,
    ensures
        part == first_part(total, ratio),
        part <= total,
{
    proof {
        lemma_first_part_bounds(total, ratio);
        assert(total * ratio <= 0xffff_ffff * 1000000) by (nonlinear_arith)
            requires
                0 <= total <= 0xffff_ffff,
                0 <= ratio <= 1000000,
        ;
    }
    (((total as u64) * (ratio as u64)) / (RATIO_SCALE as u64)) as u32
}

/// The rectangles of the two children of a branch.
fn split_rect(rect: Rect, direction: SplitDirection, ratio: u32) -> (parts: (Rect, Rect))
    requires
        rect.fits(),
        ratio <= RATIO_SCALE,
    ensures
        parts.0 == first_rect(rect, direction, ratio),
        parts.1 == second_rect(rect, direction, ratio),
        parts.0.fits(),
        parts.1.fits(),
{
    proof {
        lemma_split_rect(rect, direction, ratio);
    }
    match direction {
        SplitDirection::Horizontal => {
            let first_height = first_extent(rect.height, ratio);
            (
                Rect { x: rect.x, y: rect.y, width: rect.width, height: first_height },
                Rect {
                    x: rect.x,
                    y: rect.y + first_height,
                    width: rect.width,
                    height: rect.height - first_height,
                },
            )
        },
        SplitDirection::Vertical => {
            let first_width = first_extent(rect.width, ratio);
            (
                Rect { x: rect.x, y: rect.y, width: first_width, height: rect.height },
                Rect {
                    x: rect.x + first_width,
                    y: rect.y,
                    width: rect.width - first_width,
                    height: rect.height,
                },
            )
        },
    }
}

/// Whether the pointer is within reach of the border of a branch.
fn is_near_border(rect: Rect, direction: SplitDirection, ratio: u32, x: u32, y: u32) -> (near:
    bool)
    requires
        rect.fits(),
        ratio <= RATIO_SCALE,
    ensures
        near == near_border(rect, direction, ratio, x, y),
{
    let (line, pointer): (u32, u32) = match direction {
        SplitDirection::Horizontal => (rect.y + first_extent(rect.height, ratio), y),
        SplitDirection::Vertical => (rect.x + first_extent(rect.width, ratio), x),
    };
    (pointer as u64) + (BORDER_REACH as u64) >= (line as u64) && (pointer as u64) <= (line as u64)
        + (BORDER_REACH as u64)
}

fn clamped(ratio: u32) -> (out: u32)
    ensures
        out == clamp_ratio(ratio),
{
    if ratio < RATIO_MIN {
        RATIO_MIN
    } else if ratio > RATIO_MAX {
        RATIO_MAX
    } else {
        ratio
    }
}

/// The layout of the panes: a binary tree of splits, and the id that the
/// next pane gets.
pub struct Layout {
    root: LayoutNode,
    next_id: PaneId,
}

/// The mathematical model of a layout.
pub struct LayoutView {
    pub root: LayoutNode,
    pub next_id: nat,
}

impl LayoutView {
    /// The invariant of a layout: a well-formed tree whose panes all have
    /// ids below the next one.
    pub open spec fn wf(self) -> bool {
        &&& self.root.wf()
        &&& forall|i: int| 0 <= i < self.root.ids().len() ==> #[trigger] self.root.ids()[i]
            < self.next_id
    }
}

impl View for Layout {
    type V = LayoutView;

    closed spec fn view(&self) -> LayoutView {
        LayoutView { root: self.root, next_id: self.next_id as nat }
    }
}

fn is_leaf_with(node: &LayoutNode, id: PaneId) -> (is: bool)
    ensures
        is == node.is_leaf_of(id),
{
    match node {
        LayoutNode::Leaf { pane_id } => *pane_id == id,
        LayoutNode::Branch { .. } => false,
    }
}

fn node_contains(node: &LayoutNode, id: PaneId) -> (found: bool)
    ensures
        found == node.ids().contains(id),
    decreases node,
{
    match node {
        LayoutNode::Leaf { pane_id } => {
            proof {
                assert(node.ids()[0] == *pane_id);
            }
            *pane_id == id
        },
        LayoutNode::Branch { direction, ratio, first, second } => {
            let in_first = node_contains(first, id);
            let in_second = node_contains(second, id);
            proof {
                let a = first.ids();
                let b = second.ids();
                if in_first {
                    let i = choose|i: int| 0 <= i < a.len() && a[i] == id;
                    assert((a + b)[i] == id);
                }
                if in_second {
                    let i = choose|i: int| 0 <= i < b.len() && b[i] == id;
                    assert((a + b)[i + a.len()] == id);
                }
                if (a + b).contains(id) {
                    let i = choose|i: int| 0 <= i < (a + b).len() && (a + b)[i] == id;
                    if i < a.len() {
                        assert(a[i] == id);
                    } else {
                        assert(b[i - a.len()] == id);
                    }
                }
            }
            in_first || in_second
        },
    }
}

fn split_node(
    node: LayoutNode,
    target_id: PaneId,
    direction: SplitDirection,
    new_id: PaneId,
    ratio: u32,
) -> (out: LayoutNode)
    ensures
        out == node.split(target_id, direction, new_id, ratio),
    decreases node,
{
    match node {
        LayoutNode::Leaf { pane_id } => {
            if pane_id == target_id {
                LayoutNode::Branch {
                    direction,
                    ratio,
                    first: Box::new(LayoutNode::Leaf { pane_id }),
                    second: Box::new(LayoutNode::Leaf { pane_id: new_id }),
                }
            } else {
                LayoutNode::Leaf { pane_id }
            }
        },
        LayoutNode::Branch { direction: d, ratio: r, first, second } => {
            if node_contains(&first, target_id) {
                let grown = split_node(*first, target_id, direction, new_id, ratio);
                LayoutNode::Branch { direction: d, ratio: r, first: Box::new(grown), second }
            } else {
                let grown = split_node(*second, target_id, direction, new_id, ratio);
                LayoutNode::Branch { direction: d, ratio: r, first, second: Box::new(grown) }
            }
        },
    }
}

fn node_removes(node: &LayoutNode, target_id: PaneId) -> (found: bool)
    ensures
        found == node.removes(target_id),
    decreases node,
{
    match node {
        LayoutNode::Leaf { pane_id } => false,
        LayoutNode::Branch { direction, ratio, first, second } => {
            is_leaf_with(first, target_id) || is_leaf_with(second, target_id) || node_removes(
                first,
                target_id,
            ) || node_removes(second, target_id)
        },
    }
}

fn remove_node(node: LayoutNode, target_id: PaneId) -> (out: LayoutNode)
    ensures
        out == node.remove(target_id),
    decreases node,
{
    match node {
        LayoutNode::Leaf { pane_id } => LayoutNode::Leaf { pane_id },
        LayoutNode::Branch { direction, ratio, first, second } => {
            if is_leaf_with(&first, target_id) {
                *second
            } else if is_leaf_with(&second, target_id) {
                *first
            } else if node_removes(&first, target_id) {
                let rest = remove_node(*first, target_id);
                LayoutNode::Branch { direction, ratio, first: Box::new(rest), second }
            } else {
                let rest = remove_node(*second, target_id);
                LayoutNode::Branch { direction, ratio, first, second: Box::new(rest) }
            }
        },
    }
}

fn calculate_node_rects(node: &LayoutNode, rect: Rect, rects: &mut Vec<(PaneId, Rect)>)
    requires
        node.ratios_ok(),
        rect.fits(),
    ensures
        final(rects)@ == old(rects)@ + node.rects(rect),
    decreases node,
{
    match node {
        LayoutNode::Leaf { pane_id } => {
            rects.push((*pane_id, rect));
            assert(rects@ =~= old(rects)@ + node.rects(rect));
        },
        LayoutNode::Branch { direction, ratio, first, second } => {
            let (a, b) = split_rect(rect, *direction, *ratio);
            calculate_node_rects(first, a, rects);
            calculate_node_rects(second, b, rects);
            assert(rects@ =~= old(rects)@ + node.rects(rect));
        },
    }
}

fn collect_pane_ids(node: &LayoutNode, ids: &mut Vec<PaneId>)
    ensures
        final(ids)@ == old(ids)@ + node.ids(),
    decreases node,
{
    match node {
        LayoutNode::Leaf { pane_id } => {
            ids.push(*pane_id);
            assert(ids@ =~= old(ids)@ + node.ids());
        },
        LayoutNode::Branch { direction, ratio, first, second } => {
            collect_pane_ids(first, ids);
            collect_pane_ids(second, ids);
            assert(ids@ =~= old(ids)@ + node.ids());
        },
    }
}

fn find_border_in_node(node: &LayoutNode, x: u32, y: u32, rect: Rect) -> (found: Option<
    (SplitDirection, u32),
>)
    requires
        node.ratios_ok(),
        rect.fits(),
    ensures
        found == node.find_border(x, y, rect),
    decreases node,
{
    match node {
        LayoutNode::Leaf { pane_id } => None,
        LayoutNode::Branch { direction, ratio, first, second } => {
            if is_near_border(rect, *direction, *ratio, x, y) {
                return Some((*direction, *ratio));
            }
            let (a, b) = split_rect(rect, *direction, *ratio);
            match find_border_in_node(first, x, y, a) {
                Some(found) => Some(found),
                None => find_border_in_node(second, x, y, b),
            }
        },
    }
}

fn update_ratio_in_node(node: LayoutNode, x: u32, y: u32, rect: Rect, new_ratio: u32) -> (out:
    LayoutNode)
    requires
        node.ratios_ok(),
        rect.fits(),
    ensures
        out == node.update_ratio(x, y, rect, new_ratio),
    decreases node,
{
    match node {
        LayoutNode::Leaf { pane_id } => LayoutNode::Leaf { pane_id },
        LayoutNode::Branch { direction, ratio, first, second } => {
            if is_near_border(rect, direction, ratio, x, y) {
                return LayoutNode::Branch { direction, ratio: clamped(new_ratio), first, second };
            }
            let (a, b) = split_rect(rect, direction, ratio);
            if find_border_in_node(&first, x, y, a).is_some() {
                let moved = update_ratio_in_node(*first, x, y, a, new_ratio);
                LayoutNode::Branch { direction, ratio, first: Box::new(moved), second }
            } else {
                let moved = update_ratio_in_node(*second, x, y, b, new_ratio);
                LayoutNode::Branch { direction, ratio, first, second: Box::new(moved) }
            }
        },
    }
}

impl Layout {
    /// The invariant that `new` establishes and every method keeps.
    pub open spec fn wf(&self) -> bool {
        self@.wf()
    }

    /// A layout of one pane, pane 0.
    pub fn new() -> (layout: Layout)
        ensures
            layout.wf(),
            layout@.root == (LayoutNode::Leaf { pane_id: 0 }),
            layout@.next_id == 1,
    {
        let layout = Layout { root: LayoutNode::Leaf { pane_id: 0 }, next_id: 1 };
        proof {
            assert(layout@.root.ids() =~= seq![0usize]);
        }
        layout
    }

    /// The root of the tree.
    pub fn root(&self) -> (root: &LayoutNode)
        ensures
            *root == self@.root,
    {
        &self.root
    }

    /// Hands out the next pane id; ids are given once and in rising order.
    pub fn next_id(&mut self) -> (id: PaneId)
        requires
            old(self)@.next_id < usize::MAX,
        ensures
            id == old(self)@.next_id,
            final(self)@.next_id == old(self)@.next_id + 1,
            final(self)@.root == old(self)@.root,
            old(self).wf() ==> final(self).wf(),
    {
        let id = self.next_id;
        self.next_id += 1;
        id
    }

    /// The id that the next pane will get.
    pub fn peek_next_id(&self) -> (id: PaneId)
        ensures
            id == self@.next_id,
    {
        self.next_id
    }

    /// Splits a pane in two equal parts.
    pub fn split_pane(&mut self, pane_id: PaneId, direction: SplitDirection) -> (new_id: Option<
        PaneId,
    >)
        requires
            old(self).wf(),
        ensures
            final(self).wf(),
            Self::split_result(old(self)@, pane_id, direction, RATIO_HALF) == (final(self)@, new_id),
    {
        self.split_pane_with_ratio(pane_id, direction, RATIO_HALF)
    }

    /// What a split does to a layout and what it returns. An id is used up
    /// whether or not the pane is there; where the pane is there, its leaf
    /// becomes a branch of itself and a new leaf with that id, at `ratio`
    /// held to its range. Where no id is left nothing happens.
    pub open spec fn split_result(
        before: LayoutView,
        pane_id: PaneId,
        direction: SplitDirection,
        ratio: u32,
    ) -> (LayoutView, Option<PaneId>) {
        if before.next_id >= usize::MAX {
            (before, None)
        } else if before.root.ids().contains(pane_id) {
            (
                LayoutView {
                    root: before.root.split(
                        pane_id,
                        direction,
                        before.next_id as usize,
                        clamp_ratio(ratio),
                    ),
                    next_id: before.next_id + 1,
                },
                Some(before.next_id as usize),
            )
        } else {
            (LayoutView { next_id: before.next_id + 1, ..before }, None)
        }
    }

    /// Splits a pane: the first child keeps the pane and gets `ratio`
    /// millionths of its rectangle, the second child is the new pane, whose
    /// id is returned. `None` where the layout has no such pane.
    pub fn split_pane_with_ratio(
        &mut self,
        pane_id: PaneId,
        direction: SplitDirection,
        ratio: u32,
    ) -> (new_id: Option<PaneId>)
        requires
            old(self).wf(),
        ensures
            final(self).wf(),
            Self::split_result(old(self)@, pane_id, direction, ratio) == (final(self)@, new_id),
    {
        if self.next_id == usize::MAX {
            return None;
        }
        let new_id = self.next_id();
        if node_contains(&self.root, pane_id) {
            let mut root = LayoutNode::Leaf { pane_id: 0 };
            std::mem::swap(&mut root, &mut self.root);
            proof {
                lemma_split_ids(root, pane_id, direction, new_id, clamp_ratio(ratio));
                let ids = root.ids();
                let at = position(ids, pane_id) + 1;
                let grown = ids.insert(at, new_id);
                assert forall|i: int, j: int| 0 <= i < j < grown.len() implies grown[i]
                    != grown[j] by {
                    let oi = if i < at {
                        i
                    } else {
                        i - 1
                    };
                    let oj = if j < at {
                        j
                    } else {
                        j - 1
                    };
                    if i != at && j != at {
                        assert(grown[i] == ids[oi] && grown[j] == ids[oj]);
                    } else if i == at {
                        assert(grown[j] == ids[oj]);
                    } else {
                        assert(grown[i] == ids[oi]);
                    }
                }
                assert forall|i: int| 0 <= i < grown.len() implies #[trigger] grown[i] < new_id
                    + 1 by {
                    if i < at {
                        assert(grown[i] == ids[i]);
                    } else if i > at {
                        assert(grown[i] == ids[i - 1]);
                    }
                }
            }
            self.root = split_node(root, pane_id, direction, new_id, clamped(ratio));
            Some(new_id)
        } else {
            None
        }
    }

    /// Takes a pane out of the layout: its sibling takes the place of their
    /// parent. The last pane stays, and so does the layout where it has no
    /// such pane.
    pub fn remove_pane(&mut self, pane_id: PaneId) -> (removed: bool)
        requires
            old(self).wf(),
        ensures
            final(self).wf(),
            removed == (old(self)@.root is Branch && old(self)@.root.ids().contains(pane_id)),
            final(self)@.root == old(self)@.root.remove(pane_id),
            final(self)@.next_id == old(self)@.next_id,
            removed ==> final(self)@.root.ids() == old(self)@.root.ids().remove(
                position(old(self)@.root.ids(), pane_id),
            ),
            !removed ==> final(self)@ == old(self)@,
    {
        proof {
            lemma_removes_implies_contains(self.root, pane_id);
            if self.root is Branch && self.root.ids().contains(pane_id) {
                lemma_contains_implies_removes(self.root, pane_id);
            }
        }
        if node_removes(&self.root, pane_id) {
            let mut root = LayoutNode::Leaf { pane_id: 0 };
            std::mem::swap(&mut root, &mut self.root);
            proof {
                lemma_remove_ids(root, pane_id);
                let ids = root.ids();
                let at = position(ids, pane_id);
                let rest = ids.remove(at);
                assert forall|i: int, j: int| 0 <= i < j < rest.len() implies rest[i]
                    != rest[j] by {
                    let oi = if i < at {
                        i
                    } else {
                        i + 1
                    };
                    let oj = if j < at {
                        j
                    } else {
                        j + 1
                    };
                    assert(rest[i] == ids[oi] && rest[j] == ids[oj]);
                }
                assert forall|i: int| 0 <= i < rest.len() implies #[trigger] rest[i]
                    < self.next_id by {
                    let oi = if i < at {
                        i
                    } else {
                        i + 1
                    };
                    assert(rest[i] == ids[oi]);
                }
            }
            self.root = remove_node(root, pane_id);
            true
        } else {
            proof {
                lemma_remove_absent(self.root, pane_id);
            }
            false
        }
    }

    /// The rectangle of every pane when the layout fills `window_rect`, in
    /// the order of `all_pane_ids`.
    pub fn calculate_rects(&self, window_rect: Rect) -> (rects: Vec<(PaneId, Rect)>)
        requires
            self.wf(),
            window_rect.fits(),
        ensures
            rects@ == self@.root.rects(window_rect),
            rect_ids(rects@) == self@.root.ids(),
            forall|i: int| 0 <= i < rects@.len() ==> (#[trigger] rects@[i]).1.fits(),
    {
        let mut rects: Vec<(PaneId, Rect)> = Vec::new();
        calculate_node_rects(&self.root, window_rect, &mut rects);
        proof {
            lemma_rects_follow_ids(self.root, window_rect);
            lemma_rects_partition(self.root, window_rect, 0, 0);
            assert(rects@ =~= self@.root.rects(window_rect));
        }
        rects
    }

    /// The panes of the layout, first child before second.
    pub fn all_pane_ids(&self) -> (ids: Vec<PaneId>)
        ensures
            ids@ == self@.root.ids(),
    {
        let mut ids: Vec<PaneId> = Vec::new();
        collect_pane_ids(&self.root, &mut ids);
        assert(ids@ =~= self@.root.ids());
        ids
    }

    /// Gives the border under the pointer `(x, y)` the ratio `new_ratio`,
    /// held to its range; `false` where no border is within reach.
    pub fn update_split_ratio_at(&mut self, x: u32, y: u32, window_rect: Rect, new_ratio: u32) -> (
        updated: bool
    )
        requires
            old(self).wf(),
            window_rect.fits(),
        ensures
            final(self).wf(),
            updated == old(self)@.root.find_border(x, y, window_rect).is_some(),
            final(self)@.root == old(self)@.root.update_ratio(x, y, window_rect, new_ratio),
            final(self)@.root.ids() == old(self)@.root.ids(),
            final(self)@.next_id == old(self)@.next_id,
    {
        proof {
            lemma_update_ratio_keeps_ids(self.root, x, y, window_rect, new_ratio);
        }
        if find_border_in_node(&self.root, x, y, window_rect).is_some() {
            let mut root = LayoutNode::Leaf { pane_id: 0 };
            std::mem::swap(&mut root, &mut self.root);
            self.root = update_ratio_in_node(root, x, y, window_rect, new_ratio);
            true
        } else {
            false
        }
    }

    /// The border within reach of the pointer `(x, y)`, as the direction and
    /// the ratio of its branch; of several, the outermost.
    pub fn find_border_at(&self, x: u32, y: u32, window_rect: Rect) -> (border: Option<
        (SplitDirection, u32),
    >)
        requires
            self.wf(),
            window_rect.fits(),
        ensures
            border == self@.root.find_border(x, y, window_rect),
    {
        find_border_in_node(&self.root, x, y, window_rect)
    }
}

/// A tree without a branch that has the leaf `target` as a child is its own
/// remainder.
pub proof fn lemma_remove_absent(node: LayoutNode, target: PaneId)
    requires
        !node.removes(target),
    ensures
        node.remove(target) == node,
    decreases node,
{
    match node {
        LayoutNode::Leaf { pane_id } => {},
        LayoutNode::Branch { direction, ratio, first, second } => {
            lemma_remove_absent(*second, target);
        },
    }
}

impl Default for Layout {
    fn default() -> (layout: Self)
        ensures
            layout.wf(),
            layout@.root == (LayoutNode::Leaf { pane_id: 0 }),
            layout@.next_id == 1,
    {
        Layout::new()
    }
}

} // verus!
