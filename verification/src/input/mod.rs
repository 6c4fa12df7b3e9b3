//! Systems for handling user input.
use vstd::prelude::*;
use crate::component::ComponentFlow;
use crate::geometry::{clamp, plus, Point2, Vector2};
use crate::layout::{flow_start, FlowView};
use crate::ui::{ComponentId, Told, Ui};

verus! {

/// Handles user input, raising events on components and storing current input information.
pub struct Input {
    hovering_over: Option<ComponentId>,
}

/// Whether the point lies within the area at `position` of the given size, its edges
/// included.
pub open spec fn inside(point: Point2, position: (int, int), size: (int, int)) -> bool {
    &&& position.0 <= point.x <= clamp(position.0 + size.0)
    &&& position.1 <= point.y <= clamp(position.1 + size.1)
}

/// Where the component with the given ID lies on the target, inside a parent that lies at
/// `origin`, has the size `parent` and whose flow is in the state `flow`.
pub open spec fn placed_at(
    ui: &Ui,
    id: int,
    origin: (int, int),
    parent: (int, int),
    flow: FlowView,
) -> (int, int) {
    let relative = ui.component(id).attributes.position_in(parent.0, parent.1, flow);
    (clamp(origin.0 + relative.0), clamp(origin.1 + relative.1))
}

/// The component that a point hits among the component with the given ID and those below
/// it. A point outside of the component hits nothing. Else it hits what it hits among the
/// children, and where it hits none of them the component itself, if that captures the
/// cursor.
pub open spec fn hit(
    ui: &Ui,
    point: Point2,
    id: int,
    origin: (int, int),
    parent: (int, int),
    flow: FlowView,
) -> Option<ComponentId>
    decreases ui.next() - id, ui.component(id).children.len() + 1,
{
    let position = placed_at(ui, id, origin, parent, flow);
    let size = ui.component(id).attributes.size_in(parent.0, parent.1);
    if !inside(point, position, size) {
        None
    } else {
        match hit_children(ui, point, id, ui.component(id).children.len(), position, size) {
            Some(found) => Some(found),
            None => if ui.component(id).capturing {
                Some(ComponentId(id as i32))
            } else {
                None
            },
        }
    }
}

/// What a point hits in the child at position `k` of the component with the given ID,
/// position and size.
pub open spec fn hit_child(
    ui: &Ui,
    point: Point2,
    id: int,
    k: int,
    position: (int, int),
    size: (int, int),
) -> Option<ComponentId>
    decreases ui.next() - id, k, 1nat,
{
    let child = ui.child(id, k);
    if 0 <= k && id < child < ui.next() {
        hit(ui, point, child, position, size, ui.flow_before(id, k as nat, size.0, size.1))
    } else {
        None
    }
}

/// What a point hits among the first `n` children of the component with the given ID,
/// position and size: what it hits in the last of them in which it hits something.
pub open spec fn hit_children(
    ui: &Ui,
    point: Point2,
    id: int,
    n: nat,
    position: (int, int),
    size: (int, int),
) -> Option<ComponentId>
    decreases ui.next() - id, n, 0nat,
{
    if n == 0 || n > ui.component(id).children.len() {
        None
    } else {
        match hit_child(ui, point, id, n - 1, position, size) {
            Some(found) => Some(found),
            None => hit_children(ui, point, id, (n - 1) as nat, position, size),
        }
    }
}

/// What a point hits in the whole UI.
pub open spec fn hit_in(ui: &Ui, point: Point2) -> Option<ComponentId> {
    hit(
        ui,
        point,
        ui.root(),
        (0, 0),
        (ui.size().x as int, ui.size().y as int),
        flow_start(ui.size().x as int, ui.size().y as int),
    )
}

/// The later sibling wins: a point hits among the children of a component what it hits in
/// the child at position `k`, where it hits something there and nothing in the children
/// behind it.
pub proof fn lemma_last_hit_wins(
    ui: &Ui,
    point: Point2,
    id: int,
    n: nat,
    k: int,
    position: (int, int),
    size: (int, int),
)
    requires
        0 <= k < n <= ui.component(id).children.len(),
        hit_child(ui, point, id, k, position, size) is Some,
        forall|j: int| k < j < n ==> hit_child(ui, point, id, j, position, size) is None,
    ensures
        hit_children(ui, point, id, n, position, size) == hit_child(
            ui,
            point,
            id,
            k,
            position,
            size,
        ),
    decreases n,
{
    assert(hit_children(ui, point, id, n, position, size) == match hit_child(
        ui,
        point,
        id,
        n - 1,
        position,
        size,
    ) {
        Some(found) => Some(found),
        None => hit_children(ui, point, id, (n - 1) as nat, position, size),
    });
    if n > k + 1 {
        assert(hit_child(ui, point, id, n - 1, position, size) is None);
        lemma_last_hit_wins(ui, point, id, (n - 1) as nat, k, position, size);
    }
}

/// A point inside of a component that captures the cursor hits that component or one
/// below it.
pub proof fn lemma_capturing_is_hit(
    ui: &Ui,
    point: Point2,
    id: int,
    origin: (int, int),
    parent: (int, int),
    flow: FlowView,
)
    requires
        ui.component(id).capturing,
        inside(
            point,
            placed_at(ui, id, origin, parent, flow),
            ui.component(id).attributes.size_in(parent.0, parent.1),
        ),
    ensures
        hit(ui, point, id, origin, parent, flow) is Some,
{
}

/// Of two siblings that overlap and capture the cursor, the one that is declared later is
/// on top: a point inside of both hits the later one, or what lies below the later one,
/// where no sibling behind it is hit. It does not hit the earlier one unless that is also
/// what was hit in the later one.
pub proof fn lemma_topmost_wins(
    ui: &Ui,
    point: Point2,
    id: int,
    earlier: int,
    later: int,
    position: (int, int),
    size: (int, int),
)
    requires
        ui.wf_store(),
        ui.contains(id),
        0 <= earlier < later < ui.component(id).children.len(),
        ui.component(ui.child(id, earlier)).capturing,
        ui.component(ui.child(id, later)).capturing,
        inside(
            point,
            placed_at(
                ui,
                ui.child(id, earlier),
                position,
                size,
                ui.flow_before(id, earlier as nat, size.0, size.1),
            ),
            ui.component(ui.child(id, earlier)).attributes.size_in(size.0, size.1),
        ),
        inside(
            point,
            placed_at(
                ui,
                ui.child(id, later),
                position,
                size,
                ui.flow_before(id, later as nat, size.0, size.1),
            ),
            ui.component(ui.child(id, later)).attributes.size_in(size.0, size.1),
        ),
        forall|j: int|
            later < j < ui.component(id).children.len() ==> hit_child(
                ui,
                point,
                id,
                j,
                position,
                size,
            ) is None,
    ensures
        hit_child(ui, point, id, later, position, size) is Some,
        hit_children(ui, point, id, ui.component(id).children.len(), position, size) == hit_child(
            ui,
            point,
            id,
            later,
            position,
            size,
        ),
{
    ui.lemma_wf(id);
    let child = ui.child(id, later);
    assert(id < child < ui.next());
    lemma_capturing_is_hit(
        ui,
        point,
        child,
        position,
        size,
        ui.flow_before(id, later as nat, size.0, size.1),
    );
    lemma_last_hit_wins(ui, point, id, ui.component(id).children.len(), later, position, size);
}

/// Whether a component is told when the given target is: the target is a component of the
/// UI.
pub open spec fn tells(ui: &Ui, target: Option<ComponentId>) -> bool {
    target matches Some(component) && ui.contains(component.0 as int)
}

/// What the components are told when the cursor moves from one to another: first the one
/// that it has left that the hover has ended, then the one that it has entered that a hover
/// starts. Each has to be rendered again after that where it had to before or where its
/// class has answered so.
pub open spec fn hover_told(
    before: &Ui,
    after: &Ui,
    left: Option<ComponentId>,
    entered: Option<ComponentId>,
) -> bool {
    let told = after.told();
    let at = before.told().len() as int;
    let ends = tells(before, left);
    let starts = tells(before, entered);
    &&& told.len() == at + (if ends {
        1int
    } else {
        0int
    }) + (if starts {
        1int
    } else {
        0int
    })
    &&& told.subrange(0, at) == before.told()
    &&& ends ==> {
        &&& told[at] == (Told::HoverEnd { id: left.unwrap(), redraw: told[at].redraw() })
        &&& after.component(left.unwrap().0 as int).needs_rendering == (before.component(
            left.unwrap().0 as int,
        ).needs_rendering || told[at].redraw())
    }
    &&& starts ==> {
        &&& told.last() == (Told::HoverStart { id: entered.unwrap(), redraw: told.last().redraw() })
        &&& after.component(entered.unwrap().0 as int).needs_rendering == (before.component(
            entered.unwrap().0 as int,
        ).needs_rendering || told.last().redraw())
    }
}

impl Input {
    /// Creates a new UI input handler.
    pub fn new() -> (input: Self)
        ensures
            input.hovering() is None,
    {
        Input { hovering_over: None }
    }

    /// The component that the cursor hovers over.
    pub closed spec fn hovering(&self) -> Option<ComponentId> {
        self.hovering_over
    }

    /// Returns true if the cursor is currently over a UI element that captures cursor
    /// movement.
    pub fn is_cursor_over_ui(&self) -> (over: bool)
        ensures
            over == self.hovering() is Some,
    {
        self.hovering_over.is_some()
    }

    /// Handles cursor movement.
    ///
    /// The cursor then hovers over what its position hits. Where that has changed, the
    /// component that it hovered over before is told that the hover has ended, and after
    /// that the component that it hovers over now that a hover starts. Either may have to be
    /// rendered again after that.
    pub fn handle_cursor_moved(&mut self, position: Point2, ui: &mut Ui)
        requires
            old(ui).wf(),
        ensures
            final(ui).wf(),
            final(ui).same_shape(old(ui)),
            final(self).hovering() == hit_in(old(ui), position),
            forall|id: int|
                old(ui).contains(id) && old(self).hovering() != Some(ComponentId(id as i32))
                    && hit_in(old(ui), position) != Some(ComponentId(id as i32)) ==> #[trigger] final(ui).component(id) == old(ui).component(id),
            hit_in(old(ui), position) == old(self).hovering() ==> forall|id: int|
                old(ui).contains(id) ==> #[trigger] final(ui).component(id) == old(ui).component(
                    id,
                ),
            hit_in(old(ui), position) == old(self).hovering() ==> forall|sink: int|
                0 <= sink < old(ui).sink_count() ==> #[trigger] final(ui).events(sink) == old(ui).events(sink),
            tells(old(ui), hit_in(old(ui), position)) == hit_in(old(ui), position) is Some,
            hit_in(old(ui), position) == old(self).hovering() ==> final(ui).told() == old(ui).told(),
            hit_in(old(ui), position) != old(self).hovering() ==> hover_told(
                old(ui),
                final(ui),
                old(self).hovering(),
                hit_in(old(ui), position),
            ),
    {
        let ghost before = *ui;
        proof {
            ui.lemma_root();
            ui.lemma_reflexive();
        }
        let mut flow = ComponentFlow::new(ui.target_size());
        let new_hovering = find_at_position(
            position,
            ui,
            ui.root_id(),
            Point2::new(0, 0),
            ui.target_size(),
            &mut flow,
        );
        if let Some(hovering_over) = self.hovering_over {
            // If the thing we're hovering over is a new thing, we need to notify the old one
            let changed = match new_hovering {
                Some(new_hovering) => new_hovering.0 != hovering_over.0,
                None => true,
            };
            if changed {
                ui.raise_hover_end(hovering_over);
            }
        }
        let ghost middle = *ui;
        if let Some(new_hovering) = new_hovering {
            // If the thing we're hovering over is a new thing, we need to notify it
            let changed = match self.hovering_over {
                Some(hovering_over) => new_hovering.0 != hovering_over.0,
                None => true,
            };
            if changed {
                ui.raise_hover_start(new_hovering);
            }
        }
        proof {
            ui.lemma_reflexive();
            middle.lemma_reflexive();
            if !(ui.same_shape(&middle)) {
                assert(*ui == middle);
            }
            ui.lemma_transitive(&middle, &before);
            if new_hovering != old(self).hovering() {
                let left = old(self).hovering();
                if left is Some {
                    middle.lemma_same_shape(&before, left.unwrap().0 as int);
                }
                if new_hovering is Some {
                    let entered = new_hovering.unwrap().0 as int;
                    middle.lemma_same_shape(&before, entered);
                    if left is Some {
                        if middle != before {
                            middle.lemma_changed_only(&before, left.unwrap().0 as int, entered);
                        }
                        if before.contains(left.unwrap().0 as int) {
                            ui.lemma_changed_only(&middle, entered, left.unwrap().0 as int);
                        }
                    }
                }
                assert(ui.told().subrange(0, before.told().len() as int) =~= before.told());
                assert(hover_told(&before, ui, left, new_hovering));
            }
            assert forall|id: int|
                before.contains(id) && old(self).hovering() != Some(ComponentId(id as i32))
                    && new_hovering != Some(
                    ComponentId(id as i32),
                ) implies #[trigger] ui.component(id) == before.component(id) by {
                middle.lemma_same_shape(&before, id);
                if middle != before {
                    middle.lemma_changed_only(&before, old(self).hovering().unwrap().0 as int, id);
                }
                if *ui != middle {
                    ui.lemma_changed_only(&middle, new_hovering.unwrap().0 as int, id);
                }
            }
        }
        self.hovering_over = new_hovering;
    }

    /// Handles the start of a cursor or touch drag.
    pub fn handle_drag_started(&mut self, _position: Point2, _ui: &mut Ui)
        ensures
            *final(self) == *old(self),
            *final(_ui) == *old(_ui),
    {
    }

    /// Handles the end of a cursor or touch drag: the component that the position hits is
    /// told that it was pressed.
    pub fn handle_drag_ended(&mut self, position: Point2, ui: &mut Ui)
        requires
            old(ui).wf(),
        ensures
            final(ui).wf(),
            final(ui).same_shape(old(ui)),
            final(self).hovering() == old(self).hovering(),
            match hit_in(old(ui), position) {
                Some(pressed) => old(ui).contains(pressed.0 as int) && final(ui).changed_only(
                    old(ui),
                    pressed.0 as int,
                ) && final(ui).told() == old(ui).told().push(Told::Pressed { id: pressed }),
                None => *final(ui) == *old(ui),
            },
            forall|id: int|
                old(ui).contains(id) ==> #[trigger] final(ui).component(id).needs_rendering
                    == old(ui).component(id).needs_rendering,
    {
        proof {
            ui.lemma_root();
            ui.lemma_reflexive();
        }
        let mut flow = ComponentFlow::new(ui.target_size());
        if let Some(component_id) = find_at_position(
            position,
            ui,
            ui.root_id(),
            Point2::new(0, 0),
            ui.target_size(),
            &mut flow,
        ) {
            ui.raise_pressed(component_id);
        }
    }
}

/// The component that a point hits among the component with the given ID and those below
/// it, inside a parent at the given position and of the given size, whose flow places the
/// component where it has no explicit position.
#[verifier::rlimit(60)]
pub fn find_at_position(
    position: Point2,
    ui: &Ui,
    id: ComponentId,
    computed_parent_position: Point2,
    parent_size: Vector2,
    parent_flow: &mut ComponentFlow,
) -> (found: Option<ComponentId>)
    requires
        ui.wf_store(),
        ui.contains(id.0 as int),
    ensures
        found == hit(
            ui,
            position,
            id.0 as int,
            (computed_parent_position.x as int, computed_parent_position.y as int),
            (parent_size.x as int, parent_size.y as int),
            old(parent_flow)@,
        ),
        final(parent_flow)@ == ui.component(id.0 as int).attributes.flow_behind(
            parent_size.x as int,
            parent_size.y as int,
            old(parent_flow)@,
        ),
        found matches Some(component) ==> ui.contains(component.0 as int),
    decreases ui.next() - id.0,
{
    let ghost key = id.0 as int;
    let component = match ui.get(id) {
        Some(component) => component,
        None => {
            return None;
        },
    };
    let relative = component.attributes().compute_position(parent_size, parent_flow);
    let computed_position = Point2::new(
        plus(computed_parent_position.x, relative.x),
        plus(computed_parent_position.y, relative.y),
    );
    let computed_size = component.attributes().compute_size(parent_size);
    // If the position isn't over us, it also won't be over any children, so just return none
    if position.x < computed_position.x || position.y < computed_position.y || position.x > plus(
        computed_position.x,
        computed_size.x,
    ) || position.y > plus(computed_position.y, computed_size.y) {
        return None;
    }
    // If this component doesn't capture input, we still need to check children, but we can't
    // return this one.
    let own = if component.is_capturing_cursor() {
        Some(id)
    } else {
        None
    };
    let mut found_id = own;
    let ghost place = (computed_position.x as int, computed_position.y as int);
    let ghost size = (computed_size.x as int, computed_size.y as int);
    // Go through all children, if any of them find a hit, replace the ID we found, we want to
    // find the last one that matches because it's the one rendered on top. The function will
    // recursively find the deepest matching child like this.
    let mut flow = ComponentFlow::new(computed_size);
    let children = component.children();
    let mut k: usize = 0;
    while k < children.len()
        invariant
            k <= children@.len(),
            children@ == ui.component(key).children,
            key == id.0,
            ui.wf_store(),
            ui.contains(key),
            place == (computed_position.x as int, computed_position.y as int),
            size == (computed_size.x as int, computed_size.y as int),
            flow@ == ui.flow_before(key, k as nat, size.0, size.1),
            found_id == match hit_children(ui, position, key, k as nat, place, size) {
                Some(found) => Some(found),
                None => own,
            },
            found_id matches Some(component) ==> ui.contains(component.0 as int),
        decreases children@.len() - k,
    {
        proof {
            ui.lemma_wf(key);
            assert(ui.contains(ui.child(key, k as int)));
        }
        let below = find_at_position(
            position,
            ui,
            children[k],
            computed_position,
            computed_size,
            &mut flow,
        );
        proof {
            assert(below == hit_child(ui, position, key, k as int, place, size));
            assert(hit_children(ui, position, key, (k + 1) as nat, place, size) == match hit_child(
                ui,
                position,
                key,
                k as int,
                place,
                size,
            ) {
                Some(found) => Some(found),
                None => hit_children(ui, position, key, k as nat, place, size),
            });
        }
        if let Some(id) = below {
            found_id = Some(id);
        }
        k += 1;
    }
    proof {
        assert(ComponentId(key as i32) == id);
    }
    found_id
}

} // verus!
