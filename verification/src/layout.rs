//! The mathematics of layout: docking, and the flow that places components one after
//! the other in lines.
use vstd::prelude::*;
use crate::geometry::clamp;

verus! {

/// How a component is anchored along one axis of its parent.
#[derive(Copy, Clone, Debug, PartialEq, Eq, Structural)]
pub enum Docking {
    Start,
    Middle,
    End,
}

/// The position along one axis of a component of extent `own` with the explicit offset
/// `offset` inside a parent of extent `parent`: the offset itself at the start, the offset
/// and half of the space that is left over in the middle, and the offset and all of that
/// space at the end.
pub open spec fn docked(docking: Docking, offset: int, parent: int, own: int) -> int {
    match docking {
        Docking::Start => offset,
        Docking::Middle => clamp(offset + clamp(parent - own) / 2),
        Docking::End => clamp(clamp(offset + parent) - own),
    }
}

/// The state of a flow: the size of the parent, the point behind the component that was
/// placed last, the margin of that component, and where the next line starts.
pub struct FlowView {
    pub limits_x: int,
    pub limits_y: int,
    pub pointer_x: int,
    pub pointer_y: int,
    pub pointer_margin: int,
    pub next_line: int,
}

/// The state of a flow in which nothing was placed yet.
pub open spec fn flow_start(limits_x: int, limits_y: int) -> FlowView {
    FlowView { limits_x, limits_y, pointer_x: 0, pointer_y: 0, pointer_margin: 0, next_line: 0 }
}

/// The larger of two numbers.
pub open spec fn larger_of(a: int, b: int) -> int {
    if a >= b {
        a
    } else {
        b
    }
}

/// Where the next component would start on the current line: behind the last one, with the
/// larger of the two margins between them.
pub open spec fn next_x(flow: FlowView, margin: int) -> int {
    clamp(flow.pointer_x + larger_of(flow.pointer_margin, margin))
}

/// Whether a component of the given width and margin still fits on the current line.
pub open spec fn fits(flow: FlowView, width: int, margin: int) -> bool {
    clamp(next_x(flow, margin) + width) <= flow.limits_x
}

/// The horizontal position that the flow gives to a component.
pub open spec fn placed_x(flow: FlowView, width: int, margin: int) -> int {
    if fits(flow, width, margin) {
        next_x(flow, margin)
    } else {
        margin
    }
}

/// The vertical position that the flow gives to a component.
pub open spec fn placed_y(flow: FlowView, width: int, margin: int) -> int {
    if fits(flow, width, margin) {
        clamp(flow.pointer_y + margin)
    } else {
        clamp(flow.next_line + margin)
    }
}

/// The state of the flow after it has placed a component.
pub open spec fn advanced(flow: FlowView, width: int, height: int, margin: int) -> FlowView {
    let x = placed_x(flow, width, margin);
    let y = placed_y(flow, width, margin);
    FlowView {
        limits_x: flow.limits_x,
        limits_y: flow.limits_y,
        pointer_x: clamp(x + width),
        pointer_y: clamp(y - margin),
        pointer_margin: margin,
        next_line: larger_of(clamp(y + height), flow.next_line),
    }
}

/// Whether `v` can be held by a length.
pub open spec fn representable(v: int) -> bool {
    i64::MIN <= v <= i64::MAX
}

/// Docked at the end of an axis, a component's position is its explicit offset plus the
/// extent of the parent minus its own extent, wherever these sums are representable.
pub proof fn lemma_end_docking(offset: int, parent: int, own: int)
    requires
        representable(offset + parent),
        representable(offset + parent - own),
    ensures
        docked(Docking::End, offset, parent, own) == offset + parent - own,
{
}

/// Docked in the middle of an axis, a component's position is its explicit offset plus half
/// of the space that is left over, rounded down, wherever these are representable.
pub proof fn lemma_middle_docking(offset: int, parent: int, own: int)
    requires
        representable(parent - own),
        representable(offset + (parent - own) / 2),
    ensures
        docked(Docking::Middle, offset, parent, own) == offset + (parent - own) / 2,
{
}

/// The flow places a component on the current line, behind the last one and apart from it
/// by the larger of the two margins, exactly if it ends within the width of the parent
/// there. Else the component starts a new line, at its margin from the left edge and from
/// the line before. This holds wherever the sums are representable.
pub proof fn lemma_flow_wraps(flow: FlowView, width: int, height: int, margin: int)
    requires
        representable(flow.pointer_x + larger_of(flow.pointer_margin, margin)),
        representable(flow.pointer_x + larger_of(flow.pointer_margin, margin) + width),
        representable(flow.pointer_y + margin),
        representable(flow.next_line + margin),
    ensures
        flow.pointer_x + larger_of(flow.pointer_margin, margin) + width <= flow.limits_x ==> {
            &&& placed_x(flow, width, margin) == flow.pointer_x + larger_of(
                flow.pointer_margin,
                margin,
            )
            &&& placed_y(flow, width, margin) == flow.pointer_y + margin
        },
        flow.pointer_x + larger_of(flow.pointer_margin, margin) + width > flow.limits_x ==> {
            &&& placed_x(flow, width, margin) == margin
            &&& placed_y(flow, width, margin) == flow.next_line + margin
        },
{
}

/// A component to be placed by a flow: its width, its height and its margin.
pub struct Placed {
    pub width: int,
    pub height: int,
    pub margin: int,
}

/// The state of a flow after it has placed the first `n` of the given components.
pub open spec fn flow_after(start: FlowView, components: Seq<Placed>, n: nat) -> FlowView
    decreases n,
{
    if n == 0 || n > components.len() {
        start
    } else {
        let before = flow_after(start, components, (n - 1) as nat);
        let c = components[n - 1];
        advanced(before, c.width, c.height, c.margin)
    }
}

/// The positions that a flow gives to the given components, placed in their order.
pub open spec fn flow_positions(start: FlowView, components: Seq<Placed>) -> Seq<(int, int)> {
    Seq::new(
        components.len(),
        |i: int|
            {
                let before = flow_after(start, components, i as nat);
                let c = components[i];
                (placed_x(before, c.width, c.margin), placed_y(before, c.width, c.margin))
            },
    )
}

/// The positions that a flow gives only depend on the size of the parent and on the sizes
/// and margins of the components in their order: two flows that start for the same parent
/// and place the same components give the same positions.
pub proof fn lemma_flow_deterministic(
    limits_x: int,
    limits_y: int,
    first: Seq<Placed>,
    second: Seq<Placed>,
)
    requires
        first =~= second,
    ensures
        flow_positions(flow_start(limits_x, limits_y), first) == flow_positions(
            flow_start(limits_x, limits_y),
            second,
        ),
{
}

/// In a flow that starts for a parent, components follow each other from left to right on
/// a line: a component that fits on the line of the one before it starts to the right of
/// where that one starts, as long as widths and margins are not negative.
pub proof fn lemma_flow_left_to_right(flow: FlowView, first: Placed, second: Placed)
    requires
        first.width >= 0,
        first.margin >= 0,
        second.margin >= 0,
        representable(placed_x(flow, first.width, first.margin) + first.width),
        fits(advanced(flow, first.width, first.height, first.margin), second.width, second.margin),
    ensures
        placed_x(
            advanced(flow, first.width, first.height, first.margin),
            second.width,
            second.margin,
        ) >= placed_x(flow, first.width, first.margin) + first.width,
        placed_y(
            advanced(flow, first.width, first.height, first.margin),
            second.width,
            second.margin,
        ) == clamp(
            clamp(placed_y(flow, first.width, first.margin) - first.margin) + second.margin,
        ),
{
}

} // verus!
