//! The tree of the components of one user interface.
use metrohash::{MetroHashMap, MetroHashSet};
use vstd::prelude::*;
use vstd::string::StringExecFns;
use crate::class::classes::not_registered_text;
use crate::class::ComponentClasses;
use crate::component::{
    kept, with_children, with_rendering, Component, ComponentFlow, ComponentView,
};
use crate::error::{Error, ErrorView};
use crate::events::EventSink;
use crate::geometry::{Point2, Vector2};
use crate::layout::{flow_start, FlowView};
use crate::scripting::{ScriptRuntime, ScriptTable};
use crate::store::{
    components_get, components_get_mut, components_insert, components_new, roots_contains,
    roots_insert, roots_new,
};
use crate::template::attributes::{cascade, unconditional};
use crate::template::component::{template_views, ComponentTemplate, TemplateView};
use crate::template::style::Style;
use crate::template::template::Template;
use crate::text::same_text;

verus! {

/// The context UIs should be processed and rendered in, this defines the overall UI system's
/// configuration, such as what component classes are available and how the scripting
/// runtime is configured.
pub struct Context {
    pub classes: ComponentClasses,
    pub runtime: ScriptRuntime,
}

/// An ID pointing to a component in a UI.
#[derive(Debug, Clone, Copy, PartialEq, Eq, Hash, Structural)]
pub struct ComponentId(pub i32);

/// An handle for a tree of components in a UI.
#[derive(Debug, Clone, Copy, PartialEq, Eq)]
pub struct Tree {
    root: ComponentId,
    sink: usize,
}

/// A self-contained UI, to be rendered to a single target, be that full screen, in-world, or
/// used in some other way.
pub struct Ui {
    style: Style,
    target_size: Vector2,
    root_id: ComponentId,
    components: MetroHashMap<i32, Component>,
    next_id: ComponentId,
    tree_roots: MetroHashSet<i32>,
    sinks: Vec<EventSink>,
    told: Ghost<Seq<Told>>,
}

/// What a component was told about the cursor, and for a hover what its class answered:
/// whether the component has to be rendered again.
pub enum Told {
    HoverStart { id: ComponentId, redraw: bool },
    HoverEnd { id: ComponentId, redraw: bool },
    Pressed { id: ComponentId },
}

impl Told {
    /// What the class answered: whether the component has to be rendered again.
    pub open spec fn redraw(self) -> bool {
        match self {
            Told::HoverStart { redraw, .. } => redraw,
            Told::HoverEnd { redraw, .. } => redraw,
            Told::Pressed { .. } => false,
        }
    }
}

/// How many components a template makes: one for itself and one for each below it.
pub open spec fn nodes(template: TemplateView) -> nat
    decreases template, template.children.len() + 1,
{
    offset(template, template.children.len())
}

/// How far behind the ID of a component the ID of its child at position `k` lies, where
/// IDs are given out depth-first: by one and by the components of the children before it.
pub open spec fn offset(template: TemplateView, k: nat) -> nat
    decreases template, k,
{
    if k == 0 || k > template.children.len() {
        1
    } else {
        offset(template, (k - 1) as nat) + nodes(template.children[k - 1])
    }
}

/// Whether the classes of a template and of all below it are among the given classes.
pub open spec fn uses_only(template: TemplateView, classes: Set<Seq<char>>) -> bool
    decreases template,
{
    &&& classes.contains(template.class)
    &&& forall|k: int|
        0 <= k < template.children.len() ==> uses_only(#[trigger] template.children[k], classes)
}

/// The message that says that no component has the style class `style_class`.
pub open spec fn no_parent_text(style_class: Seq<char>) -> Seq<char> {
    "Unable to find component with style class "@ + style_class
}

/// The children of a component with the given ID are components of the store with larger
/// IDs below `next`.
spec fn children_ok(
    component: ComponentView,
    id: i32,
    store: Map<i32, Component>,
    next: int,
) -> bool {
    forall|k: int|
        0 <= k < component.children.len() ==> id < (#[trigger] component.children[k]).0 < next
            && store.contains_key(component.children[k].0)
}

/// The components of a store form a forest with IDs below `next`, and raise their events
/// to one of `sinks` sinks.
spec fn store_ok(store: Map<i32, Component>, next: int, sinks: nat) -> bool {
    &&& 0 <= next <= i32::MAX
    &&& forall|id: i32| #[trigger]
        store.contains_key(id) ==> 0 <= id < next && store[id]@.sink < sinks && children_ok(
            store[id]@,
            id,
            store,
            next,
        )
}

/// Every component of `before` is a component of `store`, and `store` has no other
/// component with an ID below `next`.
spec fn store_extends(store: Map<i32, Component>, before: Map<i32, Component>, next: int)
    -> bool {
    &&& forall|id: i32| #[trigger]
        before.contains_key(id) ==> store.contains_key(id) && store[id] == before[id]
    &&& forall|id: i32| #[trigger] store.contains_key(id) && id < next ==> before.contains_key(id)
}

/// The two stores hold components with the same IDs, and each component has kept its
/// children, attributes, template, style class and event sink, and has to be rendered
/// again where it had to before.
spec fn store_refreshed(store: Map<i32, Component>, before: Map<i32, Component>) -> bool {
    &&& forall|id: i32| #[trigger] store.contains_key(id) == before.contains_key(id)
    &&& forall|id: i32| #[trigger]
        before.contains_key(id) ==> kept(before[id]@, store[id]@) && (before[id]@.needs_rendering
            ==> store[id]@.needs_rendering)
}

/// Whether the component with the given ID and the components below it are what the
/// template makes, with IDs given out depth-first.
spec fn tree_at(store: Map<i32, Component>, id: int, template: TemplateView) -> bool
    decreases template,
{
    &&& i32::MIN <= id <= i32::MAX
    &&& store.contains_key(id as i32)
    &&& store[id as i32]@.template == template
    &&& store[id as i32]@.children.len() == template.children.len()
    &&& forall|k: int|
        0 <= k < template.children.len() ==> {
            &&& (#[trigger] store[id as i32]@.children[k]).0 == id + offset(template, k as nat)
            &&& tree_at(store, id + offset(template, k as nat), template.children[k])
        }
}

/// A component whose children are what the children of a template make, with IDs given
/// out depth-first, is what the template makes.
proof fn lemma_tree_here(store: Map<i32, Component>, id: i32, template: TemplateView)
    requires
        store.contains_key(id),
        store[id]@.template == template,
        store[id]@.children.len() == template.children.len(),
        forall|k: int|
            0 <= k < template.children.len() ==> (#[trigger] store[id]@.children[k]).0 == id
                + offset(template, k as nat) && tree_at(
                store,
                id + offset(template, k as nat),
                template.children[k],
            ),
    ensures
        tree_at(store, id as int, template),
{
    let key = id as int;
    assert(key as i32 == id);
    assert forall|k: int| 0 <= k < template.children.len() implies {
        &&& (#[trigger] store[key as i32]@.children[k]).0 == key + offset(template, k as nat)
        &&& tree_at(store, key + offset(template, k as nat), template.children[k])
    } by {
        assert(store[id]@.children[k].0 == id + offset(template, k as nat));
    }
}

/// What a template makes stays what it is while the components with its IDs stay as they
/// are.
proof fn lemma_tree_frame(
    store: Map<i32, Component>,
    before: Map<i32, Component>,
    id: int,
    template: TemplateView,
)
    requires
        tree_at(before, id, template),
        forall|j: i32|
            id <= j < id + nodes(template) && #[trigger] before.contains_key(j)
                ==> store.contains_key(j) && store[j]@ == before[j]@,
    ensures
        tree_at(store, id, template),
    decreases template,
{
    lemma_offsets(template, 0, template.children.len());
    assert forall|k: int| 0 <= k < template.children.len() implies {
        &&& (#[trigger] store[id as i32]@.children[k]).0 == id + offset(template, k as nat)
        &&& tree_at(store, id + offset(template, k as nat), template.children[k])
    } by {
        assert(before[id as i32]@.children[k].0 == id + offset(template, k as nat));
        lemma_offsets(template, k as nat, template.children.len());
        lemma_offsets(template, (k + 1) as nat, template.children.len());
        lemma_tree_frame(store, before, id + offset(template, k as nat), template.children[k]);
    }
}

impl Tree {
    /// The root component of the tree.
    pub fn root(&self) -> (root: ComponentId)
        ensures
            root == self.root_view(),
    {
        self.root
    }

    /// The root component of the tree.
    pub closed spec fn root_view(&self) -> ComponentId {
        self.root
    }

    /// Which of the event sinks of its UI the components of the tree raise their events to.
    pub closed spec fn sink_view(&self) -> nat {
        self.sink as nat
    }

    /// The events that the components of the tree have raised and that were not taken yet,
    /// or nothing where the tree is not of this UI.
    pub fn event_sink<'a>(&self, ui: &'a Ui) -> (sink: Option<&'a EventSink>)
        ensures
            match sink {
                Some(sink) => self.sink_view() < ui.sink_count() && sink@ == ui.events(
                    self.sink_view() as int,
                ),
                None => self.sink_view() >= ui.sink_count(),
            },
    {
        if self.sink < ui.sinks.len() {
            Some(&ui.sinks[self.sink])
        } else {
            None
        }
    }
}

impl Ui {
    /// The ID that the next component gets.
    pub closed spec fn next(&self) -> int {
        self.next_id.0 as int
    }

    /// Whether the UI has a component with the given ID.
    pub closed spec fn contains(&self, id: int) -> bool {
        i32::MIN <= id <= i32::MAX && self.components@.contains_key(id as i32)
    }

    /// The component with the given ID.
    pub closed spec fn component(&self, id: int) -> ComponentView {
        self.components@[id as i32]@
    }

    /// The ID of the root component.
    pub closed spec fn root(&self) -> int {
        self.root_id.0 as int
    }

    /// Whether the component with the given ID is the root of a tree that was inserted, so
    /// that updates of the tree above it stop there.
    pub closed spec fn boundary(&self, id: int) -> bool {
        i32::MIN <= id <= i32::MAX && self.tree_roots@.contains(id as i32)
    }

    /// The size of the target of the UI.
    pub closed spec fn size(&self) -> Vector2 {
        self.target_size
    }

    /// The rules of the style of the UI.
    pub closed spec fn rules(&self) -> Seq<TemplateView> {
        template_views(self.style.components@)
    }

    /// What the components of the UI were told about the cursor so far, in the order in
    /// which they were.
    pub closed spec fn told(&self) -> Seq<Told> {
        self.told@
    }

    /// The event sinks of the UI.
    pub closed spec fn queues(&self) -> Seq<EventSink> {
        self.sinks@
    }

    /// How many event sinks the UI has.
    pub open spec fn sink_count(&self) -> nat {
        self.queues().len()
    }

    /// The events that wait in the given sink.
    pub open spec fn events(&self, sink: int) -> Seq<Seq<char>> {
        self.queues()[sink]@
    }

    /// The ID of the child at position `k` of the component with the given ID.
    pub open spec fn child(&self, id: int, k: int) -> int {
        self.component(id).children[k].0 as int
    }

    /// The components form a forest: the ID of every component is below the next ID, its
    /// children are components with larger IDs, and its event sink exists.
    pub closed spec fn wf_store(&self) -> bool {
        store_ok(self.components@, self.next(), self.sink_count())
    }

    /// The UI is well formed: its components form a forest that holds the root component.
    pub open spec fn wf(&self) -> bool {
        self.wf_store() && self.contains(self.root())
    }

    /// What well-formedness says about a component and its children.
    pub proof fn lemma_wf(&self, id: int)
        requires
            self.wf_store(),
            self.contains(id),
        ensures
            0 <= id < self.next() <= i32::MAX,
            self.component(id).sink < self.sink_count(),
            forall|k: int|
                0 <= k < self.component(id).children.len() ==> {
                    &&& id < #[trigger] self.child(id, k) < self.next()
                    &&& self.contains(self.child(id, k))
                },
    {
        assert(self.components@.contains_key(id as i32));
        assert forall|k: int| 0 <= k < self.component(id).children.len() implies {
            &&& id < #[trigger] self.child(id, k) < self.next()
            &&& self.contains(self.child(id, k))
        } by {
            assert(id < self.component(id).children[k].0 < self.next());
        }
    }

    /// Whether the component with the given ID and the components below it are what the
    /// template makes, with IDs given out depth-first.
    pub open spec fn mirrors(&self, id: int, template: TemplateView) -> bool
        decreases template,
    {
        &&& self.contains(id)
        &&& self.component(id).template == template
        &&& self.component(id).children.len() == template.children.len()
        &&& forall|k: int|
            0 <= k < template.children.len() ==> {
                &&& #[trigger] self.child(id, k) == id + offset(template, k as nat)
                &&& self.mirrors(id + offset(template, k as nat), template.children[k])
            }
    }

    /// What a template makes in the store of the UI is what it makes in the UI.
    proof fn lemma_tree_mirrors(&self, id: int, template: TemplateView)
        requires
            tree_at(self.components@, id, template),
        ensures
            self.mirrors(id, template),
        decreases template,
    {
        assert forall|k: int| 0 <= k < template.children.len() implies {
            &&& #[trigger] self.child(id, k) == id + offset(template, k as nat)
            &&& self.mirrors(id + offset(template, k as nat), template.children[k])
        } by {
            assert(self.components@[id as i32]@.children[k].0 == id + offset(template, k as nat));
            self.lemma_tree_mirrors(id + offset(template, k as nat), template.children[k]);
        }
    }

    /// Whether every component of `before` is a component of `self`, with the same content,
    /// and nothing else of `before` has changed.
    closed spec fn extends(&self, before: &Ui) -> bool {
        &&& before.next() <= self.next()
        &&& self.told@ == before.told@
        &&& self.sinks@ == before.sinks@
        &&& self.root() == before.root()
        &&& self.size() == before.size()
        &&& self.style == before.style
        &&& self.tree_roots@ == before.tree_roots@
        &&& store_extends(self.components@, before.components@, before.next())
    }

    /// Whether `self` has the same components as `before`, each with the same children,
    /// attributes, template, style class and event sink, and each to be rendered again where
    /// it had to before.
    pub closed spec fn same_shape(&self, before: &Ui) -> bool {
        &&& self.next() == before.next()
        &&& self.root() == before.root()
        &&& self.size() == before.size()
        &&& self.style == before.style
        &&& self.sink_count() == before.sink_count()
        &&& self.tree_roots@ == before.tree_roots@
        &&& store_refreshed(self.components@, before.components@)
    }

    /// What it means that a UI has the same shape as another.
    pub proof fn lemma_same_shape(&self, before: &Ui, id: int)
        requires
            self.same_shape(before),
        ensures
            self.next() == before.next(),
            self.root() == before.root(),
            self.size() == before.size(),
            self.rules() == before.rules(),
            self.sink_count() == before.sink_count(),
            self.contains(id) == before.contains(id),
            self.boundary(id) == before.boundary(id),
            before.contains(id) ==> kept(before.component(id), self.component(id)) && (
            before.component(id).needs_rendering ==> self.component(id).needs_rendering),
            before.wf_store() ==> self.wf_store(),
            before.wf() ==> self.wf(),
    {
        if i32::MIN <= id <= i32::MAX {
            assert(self.components@.contains_key(id as i32) == before.components@.contains_key(
                id as i32,
            ));
        }
        if before.wf_store() {
            lemma_refreshed_ok(
                self.components@,
                before.components@,
                self.next(),
                self.sink_count(),
            );
        }
        if before.wf() {
            assert(before.components@.contains_key(before.root() as i32));
        }
    }

    /// Whether the component with the ID `id` is updated when the component with the ID
    /// `key` is: it is that component, or a component below it that can be reached without
    /// passing the root of a tree that was inserted.
    pub open spec fn in_scope(&self, key: int, id: int) -> bool
        decreases self.next() - key, self.component(key).children.len() + 1,
    {
        self.contains(key) && (id == key || self.in_scope_of(
            key,
            self.component(key).children.len(),
            id,
        ))
    }

    /// Whether the component with the ID `id` is updated through one of the first `n`
    /// children of the component with the ID `key`.
    pub open spec fn in_scope_of(&self, key: int, n: nat, id: int) -> bool
        decreases self.next() - key, n,
    {
        if n == 0 || n > self.component(key).children.len() {
            false
        } else {
            let child = self.child(key, n - 1);
            self.in_scope_of(key, (n - 1) as nat, id) || (!self.boundary(child) && key < child
                < self.next() && self.in_scope(child, id))
        }
    }

    /// Which components are updated with a component only depends on the shape of the UI.
    pub proof fn lemma_scope(&self, before: &Ui, key: int, id: int)
        requires
            self.same_shape(before),
        ensures
            self.in_scope(key, id) == before.in_scope(key, id),
        decreases self.next() - key, self.component(key).children.len() + 1,
    {
        self.lemma_same_shape(before, key);
        if self.contains(key) {
            self.lemma_scope_of(before, key, self.component(key).children.len(), id);
        }
    }

    proof fn lemma_scope_of(&self, before: &Ui, key: int, n: nat, id: int)
        requires
            self.same_shape(before),
            self.contains(key),
        ensures
            self.in_scope_of(key, n, id) == before.in_scope_of(key, n, id),
        decreases self.next() - key, n,
    {
        self.lemma_same_shape(before, key);
        if n == 0 || n > self.component(key).children.len() {
        } else {
            let child = self.child(key, n - 1);
            self.lemma_same_shape(before, child);
            self.lemma_scope_of(before, key, (n - 1) as nat, id);
            if key < child < self.next() {
                self.lemma_scope(before, child, id);
            }
        }
    }

    /// Whether the UI has a component with the given ID and that component has the given
    /// style class.
    pub open spec fn styled(&self, id: int, style_class: Seq<char>) -> bool {
        self.contains(id) && self.component(id).style_class == Some(style_class)
    }

    /// Creates a new UI from a root template.
    ///
    /// The components of the template get the IDs from 0 on, depth-first, and raise their
    /// events to the tree that is handed back with the UI. Fails where a component cannot be
    /// made.
    pub fn new(
        template: &Template,
        model: Option<&ScriptTable>,
        style: Style,
        target_size: Vector2,
        context: &Context,
    ) -> (r: Result<(Self, Tree), Error>)
        ensures
            !uses_only(template.root@, context.classes@) ==> r is Err,
            nodes(template.root@) > i32::MAX ==> r is Err,
            !context.classes@.contains(template.root@.class) && unconditional(
                cascade(template.root@, template_views(style.components@)),
            ) ==> (r matches Err(e) && (e@ is Script || e@ == (ErrorView::Other {
                error: not_registered_text(template.root@.class),
            }))),
            r matches Ok((ui, tree)) ==> {
                &&& ui.wf()
                &&& ui.root() == 0
                &&& tree.root_view() == ComponentId(0)
                &&& tree.sink_view() == 0
                &&& ui.sink_count() == 1
                &&& ui.events(0) == Seq::<Seq<char>>::empty()
                &&& ui.told() == Seq::<Told>::empty()
                &&& ui.size() == target_size
                &&& ui.rules() == template_views(style.components@)
                &&& ui.next() == nodes(template.root@)
                &&& ui.mirrors(0, template.root@)
                &&& forall|id: int|
                    0 <= id < ui.next() ==> #[trigger] ui.contains(id) && ui.component(id).sink == 0
                        && ui.component(id).needs_rendering
                &&& forall|id: int| !ui.boundary(id)
            },
    {
        let mut sinks: Vec<EventSink> = Vec::new();
        sinks.push(EventSink::new());
        let mut ui = Ui {
            style,
            target_size,
            root_id: ComponentId(0),
            components: components_new(),
            next_id: ComponentId(0),
            tree_roots: roots_new(),
            sinks,
            told: Ghost(Seq::empty()),
        };
        // Prepare the scripting engine with the model data
        let default_table = ScriptTable::new();
        let model = match model {
            Some(model) => model,
            None => &default_table,
        };
        match context.runtime.set_model(model) {
            Ok(()) => {},
            Err(e) => {
                return Err(e);
            },
        }
        // Create the root component from the template
        let root = match ui.load_component(&template.root, 0, context) {
            Ok(root) => root,
            Err(e) => {
                return Err(e);
            },
        };
        ui.root_id = root;
        Ok((ui, Tree { root, sink: 0 }))
    }

    /// The size of the target of the UI.
    pub fn target_size(&self) -> (size: Vector2)
        ensures
            size == self.size(),
    {
        self.target_size
    }

    /// Gets a component from its ID.
    pub fn get(&self, id: ComponentId) -> (found: Option<&Component>)
        ensures
            match found {
                Some(component) => self.contains(id.0 as int) && component@ == self.component(
                    id.0 as int,
                ),
                None => !self.contains(id.0 as int),
            },
    {
        components_get(&self.components, id.0)
    }

    /// Gets a component as mutable from its ID.
    ///
    /// Nothing but this component changes. The UI stays well formed where the component
    /// keeps its children and its event sink.
    pub fn get_mut(&mut self, id: ComponentId) -> (found: Option<&mut Component>)
        requires
            old(self).wf(),
        ensures
            found is Some == old(self).contains(id.0 as int),
            found is Some ==> found.unwrap()@ == old(self).component(id.0 as int),
            final(self).changed_only(old(self), id.0 as int),
            final(self).told() == old(self).told(),
            final(self).queues() == old(self).queues(),
            final(self).next() == old(self).next(),
            final(self).root() == old(self).root(),
            final(self).size() == old(self).size(),
            final(self).rules() == old(self).rules(),
            forall|other: int| final(self).contains(other) == old(self).contains(other),
            forall|other: int| final(self).boundary(other) == old(self).boundary(other),
            found is Some ==> final(self).component(id.0 as int) == final(found.unwrap())@,
            found is Some && kept(found.unwrap()@, final(found.unwrap())@) ==> final(self).wf(),
            found is None ==> final(self).wf(),
    {
        let ghost before = *self;
        let found = components_get_mut(&mut self.components, id.0);
        proof {
            if found is Some {
                lemma_kept_ok(
                    after_borrow(self).components@,
                    before.components@,
                    id.0,
                    before.next(),
                    before.sink_count(),
                );
            }
        }
        found
    }

    /// Gets the root component's ID.
    pub fn root_id(&self) -> (id: ComponentId)
        ensures
            id.0 == self.root(),
    {
        self.root_id
    }

    /// The ID that the next component gets.
    pub fn next_id(&self) -> (id: ComponentId)
        ensures
            id.0 == self.next(),
    {
        self.next_id
    }

    /// Whether the component with the given ID is the root of a tree that was inserted.
    pub fn is_tree_root(&self, id: ComponentId) -> (boundary: bool)
        ensures
            boundary == self.boundary(id.0 as int),
    {
        roots_contains(&self.tree_roots, id.0)
    }

    /// Takes the event that waits longest in the sink of the tree, if there is one.
    pub fn next_event(&mut self, tree: &Tree) -> (event: Option<String>)
        requires
            old(self).wf(),
        ensures
            final(self).wf(),
            final(self).same_shape(old(self)),
            final(self).told() == old(self).told(),
            match event {
                Some(name) => tree.sink_view() < old(self).sink_count() && old(self).events(
                    tree.sink_view() as int,
                ).len() > 0 && name@ == old(self).events(tree.sink_view() as int)[0] && final(self).events(tree.sink_view() as int) == old(self).events(
                    tree.sink_view() as int,
                ).drop_first(),
                None => tree.sink_view() >= old(self).sink_count() || old(self).events(
                    tree.sink_view() as int,
                ).len() == 0,
            },
    {
        if tree.sink < self.sinks.len() {
            let sink = &mut self.sinks[tree.sink];
            let event = sink.next();
            event
        } else {
            None
        }
    }

    /// The state of the flow inside the component with the given ID and size after its
    /// first `n` children were positioned.
    pub open spec fn flow_before(&self, id: int, n: nat, width: int, height: int) -> FlowView
        decreases n,
    {
        if n == 0 || n > self.component(id).children.len() {
            flow_start(width, height)
        } else {
            self.component(self.child(id, n - 1)).attributes.flow_behind(
                width,
                height,
                self.flow_before(id, (n - 1) as nat, width, height),
            )
        }
    }

    /// The position of the child at position `k` of the component with the given ID and
    /// size, relative to the component.
    pub open spec fn child_position(&self, id: int, k: int, width: int, height: int) -> (int, int) {
        self.component(self.child(id, k)).attributes.position_in(
            width,
            height,
            self.flow_before(id, k as nat, width, height),
        )
    }

    /// The positions of the children of a component of the given size, relative to the
    /// component: each child is docked where it has an explicit position, and the others
    /// are placed by a flow in their order.
    pub fn child_positions(&self, id: ComponentId, size: Vector2) -> (positions: Vec<Point2>)
        requires
            self.wf_store(),
            self.contains(id.0 as int),
        ensures
            positions@.len() == self.component(id.0 as int).children.len(),
            forall|k: int|
                0 <= k < positions@.len() ==> ((#[trigger] positions@[k]).x as int, positions@[k].y
                    as int) == self.child_position(id.0 as int, k, size.x as int, size.y as int),
    {
        let mut positions: Vec<Point2> = Vec::new();
        let mut flow = ComponentFlow::new(size);
        let component = match components_get(&self.components, id.0) {
            Some(component) => component,
            None => {
                return positions;
            },
        };
        let children = component.children();
        proof {
            self.lemma_wf(id.0 as int);
        }
        let mut k: usize = 0;
        while k < children.len()
            invariant
                k <= children@.len(),
                children@ == self.component(id.0 as int).children,
                self.wf_store(),
                self.contains(id.0 as int),
                positions@.len() == k,
                flow@ == self.flow_before(id.0 as int, k as nat, size.x as int, size.y as int),
                forall|j: int|
                    0 <= j < k ==> ((#[trigger] positions@[j]).x as int, positions@[j].y as int)
                        == self.child_position(id.0 as int, j, size.x as int, size.y as int),
            decreases children@.len() - k,
        {
            proof {
                self.lemma_wf(id.0 as int);
                assert(self.contains(self.child(id.0 as int, k as int)));
            }
            let position = match components_get(&self.components, children[k].0) {
                Some(child) => child.attributes().compute_position(size, &mut flow),
                None => Point2::new(0, 0),
            };
            positions.push(position);
            k += 1;
        }
        positions
    }

    /// Inserts a template into the UI as a child of the component with the lowest ID that
    /// has the given style class.
    ///
    /// The components of the template raise their events to the tree that is handed back,
    /// and updates of the tree above them stop at the root of the template. Fails where no
    /// component has the style class and where a component cannot be made. The components
    /// that were there stay as they are either way, except for the parent's new child.
    #[verifier::rlimit(60)]
    pub fn insert_template(
        &mut self,
        template: &Template,
        model: Option<&ScriptTable>,
        style_class: &str,
        context: &Context,
    ) -> (r: Result<Tree, Error>)
        requires
            old(self).wf(),
        ensures
            final(self).wf(),
            final(self).root() == old(self).root(),
            final(self).size() == old(self).size(),
            final(self).rules() == old(self).rules(),
            final(self).next() >= old(self).next(),
            final(self).told() == old(self).told(),
            forall|sink: int|
                0 <= sink < old(self).sink_count() ==> #[trigger] final(self).events(sink) == old(self).events(sink),
            (forall|id: int| !old(self).styled(id, style_class@)) ==> (r matches Err(e) && e@ == (
            ErrorView::Other { error: no_parent_text(style_class@) }) && final(self).next() == old(self).next()),
            !uses_only(template.root@, context.classes@) ==> r is Err,
            match r {
                Ok(tree) => exists|parent: int|
                    {
                        &&& #[trigger] old(self).styled(parent, style_class@)
                        &&& forall|id: int| 0 <= id < parent ==> !old(self).styled(id, style_class@)
                        &&& tree.root_view().0 == old(self).next()
                        &&& tree.sink_view() == old(self).sink_count()
                        &&& final(self).sink_count() == old(self).sink_count() + 1
                        &&& final(self).events(tree.sink_view() as int) == Seq::<Seq<char>>::empty()
                        &&& final(self).next() == old(self).next() + nodes(template.root@)
                        &&& final(self).mirrors(old(self).next(), template.root@)
                        &&& forall|id: int|
                            old(self).next() <= id < final(self).next() ==> #[trigger] final(self).contains(id) && final(self).component(id).sink == tree.sink_view()
                                && final(self).component(id).needs_rendering
                        &&& final(self).component(parent) == with_children(
                            old(self).component(parent),
                            old(self).component(parent).children.push(tree.root_view()),
                        )
                        &&& forall|id: int|
                            final(self).boundary(id) == (old(self).boundary(id) || id == old(self).next())
                        &&& forall|id: int|
                            id != parent && #[trigger] old(self).contains(id) ==> final(self).contains(id) && final(self).component(id) == old(self).component(id)
                    },
                Err(_) => forall|id: int| #[trigger]
                    old(self).contains(id) ==> final(self).contains(id) && final(self).component(
                        id,
                    ) == old(self).component(id),
            },
    {
        let ghost before = *self;
        // Find the first component that has a style class matching what we were asked for
        let mut found_parent_id: Option<ComponentId> = None;
        let mut candidate: i32 = 0;
        while candidate < self.next_id.0 && found_parent_id.is_none()
            invariant
                *self == before,
                0 <= candidate <= self.next(),
                found_parent_id is None ==> forall|id: int|
                    0 <= id < candidate ==> !self.styled(id, style_class@),
                found_parent_id matches Some(parent) ==> self.styled(parent.0 as int, style_class@)
                    && forall|id: int| 0 <= id < parent.0 ==> !self.styled(id, style_class@),
            decreases self.next() - candidate + if found_parent_id is None { 1int } else { 0int },
        {
            let matches = match components_get(&self.components, candidate) {
                Some(component) => match component.style_class() {
                    Some(component_style_class) => same_text(component_style_class, style_class),
                    None => false,
                },
                None => false,
            };
            if matches {
                found_parent_id = Some(ComponentId(candidate));
            } else {
                candidate += 1;
            }
        }
        // Make sure we found something
        let parent_id = match found_parent_id {
            Some(parent_id) => parent_id,
            None => {
                proof {
                    assert forall|id: int| !self.styled(id, style_class@) by {
                        if self.styled(id, style_class@) {
                            self.lemma_wf(id);
                        }
                    }
                }
                let mut text = "Unable to find component with style class ".to_owned();
                text.append(style_class);
                return Err(Error::Other { error: text });
            },
        };
        // Prepare the scripting engine with the model data
        let default_table = ScriptTable::new();
        let model = match model {
            Some(model) => model,
            None => &default_table,
        };
        match context.runtime.set_model(model) {
            Ok(()) => {},
            Err(e) => {
                return Err(e);
            },
        }
        // Recursively add the template
        let sink = self.sinks.len();
        self.sinks.push(EventSink::new());
        let ghost prepared = *self;
        proof {
            assert(store_ok(self.components@, self.next(), self.sink_count()));
        }
        let id = match self.load_component(&template.root, sink, context) {
            Ok(id) => id,
            Err(e) => {
                proof {
                    assert(self.components@.contains_key(self.root() as i32));
                    assert forall|id: int| #[trigger] before.contains(id) implies self.contains(id)
                        && self.component(id) == before.component(id) by {
                        assert(prepared.components@.contains_key(id as i32));
                    }
                }
                return Err(e);
            },
        };
        let ghost loaded = *self;
        proof {
            assert(self.components@.contains_key(parent_id.0));
            assert(prepared.components@.contains_key(parent_id.0));
            before.lemma_wf(parent_id.0 as int);
        }
        // Add the component tree we just added to the children of the component we had found
        match components_get_mut(&mut self.components, parent_id.0) {
            Some(parent) => {
                parent.add_child(id);
            },
            None => {},
        }
        roots_insert(&mut self.tree_roots, id.0);
        proof {
            let parent = parent_id.0 as int;
            let grown = self.components@[parent_id.0]@;
            assert(grown == with_children(
                before.component(parent),
                before.component(parent).children.push(id),
            ));
            assert(store_ok(loaded.components@, self.next(), self.sink_count()));
            assert forall|j: i32| #[trigger] self.components@.contains_key(j) implies 0 <= j
                < self.next() && self.components@[j]@.sink < self.sink_count() && children_ok(
                self.components@[j]@,
                j,
                self.components@,
                self.next(),
            ) by {
                assert(loaded.components@.contains_key(j));
                assert(children_ok(loaded.components@[j]@, j, loaded.components@, self.next()));
                if j == parent_id.0 {
                    assert forall|k: int| 0 <= k < grown.children.len() implies j < (
                    #[trigger] grown.children[k]).0 < self.next() && self.components@.contains_key(
                        grown.children[k].0,
                    ) by {
                        if k < grown.children.len() - 1 {
                            assert(grown.children[k] == loaded.components@[j]@.children[k]);
                        } else {
                            assert(loaded.contains(id.0 as int));
                        }
                    }
                }
            }
            assert(self.components@.contains_key(self.root() as i32)) by {
                assert(prepared.components@.contains_key(self.root() as i32));
            }
            lemma_positive(template.root@);
            lemma_tree_frame(self.components@, loaded.components@, id.0 as int, template.root@);
            self.lemma_tree_mirrors(id.0 as int, template.root@);
            assert forall|j: int| j != parent && #[trigger] before.contains(j) implies self.contains(
                j,
            ) && self.component(j) == before.component(j) by {
                assert(prepared.components@.contains_key(j as i32));
                assert(loaded.components@.contains_key(j as i32));
            }
            assert forall|j: int|
                self.boundary(j) == (before.boundary(j) || j == before.next()) by {
                if i32::MIN <= j <= i32::MAX {
                    assert(self.tree_roots@.contains(j as i32) == (before.tree_roots@.contains(
                        j as i32,
                    ) || j as i32 == id.0));
                }
            }
            assert forall|j: int| before.next() <= j < self.next() implies #[trigger]
                self.contains(j) && self.component(j).sink == sink && self.component(
                j,
            ).needs_rendering by {
                assert(loaded.contains(j));
                assert(loaded.component(j).sink == sink);
                assert(self.components@.contains_key(j as i32));
            }
            assert(before.styled(parent, style_class@));
        }
        Ok(Tree { root: id, sink })
    }

    /// Hands a new model to the scripting engine and resolves the attributes of the
    /// components of a tree again, from its root down and up to the roots of the trees that
    /// were inserted below it. A component whose attributes were resolved has to be rendered
    /// again.
    ///
    /// Fails where the tree is not of this UI, where the engine refuses the model, where a
    /// conditional cannot be evaluated and where a class refuses its attributes.
    pub fn update_model(&mut self, tree: &Tree, model: &ScriptTable, context: &Context) -> (r:
        Result<(), Error>)
        requires
            old(self).wf(),
        ensures
            final(self).wf(),
            final(self).same_shape(old(self)),
            final(self).told() == old(self).told(),
            forall|sink: int|
                0 <= sink < old(self).sink_count() ==> #[trigger] final(self).events(sink) == old(self).events(sink),
            !old(self).contains(tree.root_view().0 as int) ==> (r matches Err(e) && e@ == (
            ErrorView::Other { error: "The tree is not of this UI"@ })),
            r is Ok ==> forall|id: int|
                old(self).in_scope(tree.root_view().0 as int, id) ==> #[trigger] final(self).component(id).needs_rendering,
            forall|id: int|
                old(self).contains(id) && !old(self).in_scope(tree.root_view().0 as int, id)
                    ==> #[trigger] final(self).component(id) == old(self).component(id),
    {
        let ghost before = *self;
        proof {
            self.lemma_reflexive();
        }
        if components_get(&self.components, tree.root.0).is_none() {
            return Err(Error::other("The tree is not of this UI"));
        }
        // Reloading everything isn't very efficient, it should be changed to
        // detect which model values components have been bound to and only update the
        // relevant ones
        match context.runtime.set_model(model) {
            Ok(()) => {},
            Err(e) => {
                return Err(e);
            },
        }
        let r = self.update_component_recursive(tree.root, context);
        proof {
            self.lemma_same_shape(&before, self.root());
        }
        r
    }

    /// Whether nothing but the component with the given ID and the events in its sink
    /// differs between `self` and `before`.
    pub closed spec fn changed_only(&self, before: &Ui, id: int) -> bool {
        &&& forall|j: i32|
            j != id && #[trigger] before.components@.contains_key(j) ==> self.components@[j]
                == before.components@[j]
        &&& forall|sink: int|
            0 <= sink < before.sink_count() && !(before.contains(id) && sink == before.component(
                id,
            ).sink) ==> #[trigger] self.sinks@[sink] == before.sinks@[sink]
    }

    /// What it means that only one component has changed.
    pub proof fn lemma_changed_only(&self, before: &Ui, id: int, other: int)
        requires
            self.changed_only(before, id),
            other != id,
            before.contains(other),
        ensures
            self.component(other) == before.component(other),
    {
    }

    /// Where only a component has changed that does not exist, nothing has changed.
    pub proof fn lemma_changed_nothing(&self, before: &Ui, id: int, sink: int)
        requires
            self.changed_only(before, id),
            !before.contains(id),
            0 <= sink < before.sink_count(),
        ensures
            self.events(sink) == before.events(sink),
    {
    }

    /// The events in the sinks that the component with the given ID does not raise its
    /// events to are as before where only that component has changed.
    pub proof fn lemma_changed_events(&self, before: &Ui, id: int, sink: int)
        requires
            self.changed_only(before, id),
            before.contains(id),
            0 <= sink < before.sink_count(),
            sink != before.component(id).sink,
        ensures
            self.events(sink) == before.events(sink),
    {
    }

    /// A well-formed UI is a forest that holds its root.
    pub proof fn lemma_root(&self)
        requires
            self.wf(),
        ensures
            self.wf_store(),
            self.contains(self.root()),
    {
    }

    /// A UI has the same shape as itself.
    pub proof fn lemma_reflexive(&self)
        ensures
            self.same_shape(self),
    {
    }

    /// Having the same shape carries over.
    pub proof fn lemma_transitive(&self, middle: &Ui, before: &Ui)
        requires
            self.same_shape(middle),
            middle.same_shape(before),
        ensures
            self.same_shape(before),
    {
        assert forall|id: i32| #[trigger]
            before.components@.contains_key(id) implies kept(
            before.components@[id]@,
            self.components@[id]@,
        ) && (before.components@[id]@.needs_rendering ==> self.components@[id]@.needs_rendering) by {
            assert(middle.components@.contains_key(id));
        }
        assert forall|id: i32| #[trigger]
            self.components@.contains_key(id) == before.components@.contains_key(id) by {
            assert(middle.components@.contains_key(id) == before.components@.contains_key(id));
        }
    }

    /// Marks every component as rendered.
    pub(crate) fn mark_all_rendered(&mut self)
        requires
            old(self).wf(),
        ensures
            final(self).wf(),
            final(self).next() == old(self).next(),
            final(self).root() == old(self).root(),
            final(self).size() == old(self).size(),
            final(self).rules() == old(self).rules(),
            final(self).queues() == old(self).queues(),
            final(self).told() == old(self).told(),
            forall|id: int| final(self).boundary(id) == old(self).boundary(id),
            forall|id: int| #[trigger] final(self).contains(id) == old(self).contains(id),
            forall|id: int| #[trigger]
                old(self).contains(id) ==> final(self).component(id) == with_rendering(
                    old(self).component(id),
                    false,
                ),
    {
        let ghost before = *self;
        let mut id: i32 = 0;
        while id < self.next_id.0
            invariant
                0 <= id <= self.next(),
                self.next_id == before.next_id,
                self.root_id == before.root_id,
                self.target_size == before.target_size,
                self.style == before.style,
                self.sinks == before.sinks,
                self.tree_roots == before.tree_roots,
                self.told == before.told,
                before.wf(),
                forall|j: i32| #[trigger]
                    self.components@.contains_key(j) == before.components@.contains_key(j),
                forall|j: i32| #[trigger]
                    before.components@.contains_key(j) ==> self.components@[j]@ == (if j < id {
                        with_rendering(before.components@[j]@, false)
                    } else {
                        before.components@[j]@
                    }),
            decreases self.next() - id,
        {
            match components_get_mut(&mut self.components, id) {
                Some(component) => {
                    component.mark_rendered();
                },
                None => {},
            }
            id += 1;
        }
        proof {
            assert forall|j: i32| #[trigger] self.components@.contains_key(j) implies 0 <= j
                < self.next() && self.components@[j]@.sink < self.sink_count() && children_ok(
                self.components@[j]@,
                j,
                self.components@,
                self.next(),
            ) by {
                assert(before.components@.contains_key(j));
                assert(children_ok(before.components@[j]@, j, before.components@, self.next()));
            }
            assert(self.components@.contains_key(self.root() as i32)) by {
                assert(before.components@.contains_key(self.root() as i32));
            }
            assert forall|j: int| #[trigger] before.contains(j) implies self.component(j)
                == with_rendering(before.component(j), false) by {
                assert(before.components@.contains_key(j as i32));
            }
        }
    }

    /// Tells the component with the given ID that the cursor starts to hover over it.
    pub(crate) fn raise_hover_start(&mut self, id: ComponentId)
        requires
            old(self).wf(),
        ensures
            final(self).wf(),
            final(self).same_shape(old(self)),
            final(self).changed_only(old(self), id.0 as int),
            !old(self).contains(id.0 as int) ==> final(self).told() == old(self).told(),
            old(self).contains(id.0 as int) ==> final(self).told() == old(self).told().push(
                Told::HoverStart { id, redraw: final(self).told().last().redraw() },
            ) && final(self).component(id.0 as int).needs_rendering == (old(self).component(
                id.0 as int,
            ).needs_rendering || final(self).told().last().redraw()),
    {
        let ghost before = *self;
        proof {
            if before.contains(id.0 as int) {
                before.lemma_wf(id.0 as int);
            }
        }
        let answer = match components_get_mut(&mut self.components, id.0) {
            Some(component) => {
                let sink = component.sink();
                if sink < self.sinks.len() {
                    Some(component.raise_hover_start_event(&mut self.sinks[sink]))
                } else {
                    None
                }
            },
            None => None,
        };
        if let Some(redraw) = answer {
            self.told = Ghost(self.told@.push(Told::HoverStart { id, redraw }));
        }
        proof {
            self.lemma_same_shape(&before, id.0 as int);
        }
    }

    /// Tells the component with the given ID that the cursor stops to hover over it.
    pub(crate) fn raise_hover_end(&mut self, id: ComponentId)
        requires
            old(self).wf(),
        ensures
            final(self).wf(),
            final(self).same_shape(old(self)),
            final(self).changed_only(old(self), id.0 as int),
            !old(self).contains(id.0 as int) ==> final(self).told() == old(self).told(),
            old(self).contains(id.0 as int) ==> final(self).told() == old(self).told().push(
                Told::HoverEnd { id, redraw: final(self).told().last().redraw() },
            ) && final(self).component(id.0 as int).needs_rendering == (old(self).component(
                id.0 as int,
            ).needs_rendering || final(self).told().last().redraw()),
    {
        let ghost before = *self;
        proof {
            if before.contains(id.0 as int) {
                before.lemma_wf(id.0 as int);
            }
        }
        let answer = match components_get_mut(&mut self.components, id.0) {
            Some(component) => {
                let sink = component.sink();
                if sink < self.sinks.len() {
                    Some(component.raise_hover_end_event(&mut self.sinks[sink]))
                } else {
                    None
                }
            },
            None => None,
        };
        if let Some(redraw) = answer {
            self.told = Ghost(self.told@.push(Told::HoverEnd { id, redraw }));
        }
        proof {
            self.lemma_same_shape(&before, id.0 as int);
        }
    }

    /// Tells the component with the given ID that it was pressed.
    pub(crate) fn raise_pressed(&mut self, id: ComponentId)
        requires
            old(self).wf(),
        ensures
            final(self).wf(),
            final(self).same_shape(old(self)),
            final(self).changed_only(old(self), id.0 as int),
            final(self).told() == if old(self).contains(id.0 as int) {
                old(self).told().push(Told::Pressed { id })
            } else {
                old(self).told()
            },
            forall|other: int|
                old(self).contains(other) ==> #[trigger] final(self).component(
                    other,
                ).needs_rendering == old(self).component(other).needs_rendering,
    {
        let ghost before = *self;
        proof {
            if before.contains(id.0 as int) {
                before.lemma_wf(id.0 as int);
            }
        }
        let mut told = false;
        match components_get_mut(&mut self.components, id.0) {
            Some(component) => {
                let sink = component.sink();
                if sink < self.sinks.len() {
                    component.raise_pressed_event(&mut self.sinks[sink]);
                    told = true;
                }
            },
            None => {},
        }
        if told {
            self.told = Ghost(self.told@.push(Told::Pressed { id }));
        }
        proof {
            self.lemma_same_shape(&before, id.0 as int);
            assert forall|other: int| before.contains(other) implies #[trigger] self.component(
                other,
            ).needs_rendering == before.component(other).needs_rendering by {
                if other != id.0 {
                    assert(self.components@[other as i32] == before.components@[other as i32]);
                }
            }
        }
    }

    /// Resolves the attributes of the component with the ID `key` again, after those of its
    /// children that are not the root of a tree that was inserted.
    #[verifier::rlimit(60)]
    fn update_component_recursive(&mut self, key: ComponentId, context: &Context) -> (r: Result<
        (),
        Error,
    >)
        requires
            old(self).wf_store(),
            old(self).contains(key.0 as int),
        ensures
            final(self).same_shape(old(self)),
            final(self).sinks@ == old(self).sinks@,
            final(self).told@ == old(self).told@,
            r is Ok ==> forall|id: int|
                old(self).in_scope(key.0 as int, id) ==> #[trigger] final(self).component(
                    id,
                ).needs_rendering,
            forall|id: int|
                old(self).contains(id) && !old(self).in_scope(key.0 as int, id) ==> #[trigger] final(self).component(id) == old(self).component(id),
        decreases old(self).next() - key.0,
    {
        let ghost before = *self;
        proof {
            self.lemma_reflexive();
            before.lemma_wf(key.0 as int);
        }
        let count = match components_get(&self.components, key.0) {
            Some(component) => component.children().len(),
            None => 0,
        };
        let mut child_i: usize = 0;
        while child_i < count
            invariant
                child_i <= count,
                before == *old(self),
                before.wf_store(),
                before.contains(key.0 as int),
                count == before.component(key.0 as int).children.len(),
                self.same_shape(&before),
                self.sinks@ == before.sinks@,
                self.told@ == before.told@,
                forall|id: int|
                    before.in_scope_of(key.0 as int, child_i as nat, id) ==> #[trigger] self.component(
                        id,
                    ).needs_rendering,
                forall|id: int|
                    before.contains(id) && !before.in_scope(key.0 as int, id)
                        ==> #[trigger] self.component(id) == before.component(id),
            decreases count - child_i,
        {
            let ghost middle = *self;
            proof {
                self.lemma_same_shape(&before, key.0 as int);
                before.lemma_wf(key.0 as int);
            }
            let child_id = match components_get(&self.components, key.0) {
                Some(component) => {
                    let children = component.children();
                    if child_i < children.len() {
                        Some(children[child_i])
                    } else {
                        None
                    }
                },
                None => None,
            };
            if let Some(child_id) = child_id {
                proof {
                    assert(child_id.0 == before.child(key.0 as int, child_i as int));
                    self.lemma_same_shape(&before, child_id.0 as int);
                }
                // Do not go deeper if we're at an inserted template's root
                if !roots_contains(&self.tree_roots, child_id.0) {
                    let below = self.update_component_recursive(child_id, context);
                    proof {
                        self.lemma_transitive(&middle, &before);
                        assert forall|id: int|
                            before.contains(id) && !before.in_scope(
                                key.0 as int,
                                id,
                            ) implies #[trigger] self.component(id) == before.component(id) by {
                            middle.lemma_same_shape(&before, id);
                            middle.lemma_scope(&before, child_id.0 as int, id);
                            if before.in_scope(child_id.0 as int, id) {
                                before.lemma_scope_member(
                                    key.0 as int,
                                    count as nat,
                                    child_i as int,
                                    id,
                                );
                            }
                        }
                    }
                    match below {
                        Ok(()) => {},
                        Err(e) => {
                            return Err(e);
                        },
                    }
                }
                proof {
                    assert forall|id: int|
                        before.in_scope_of(
                            key.0 as int,
                            (child_i + 1) as nat,
                            id,
                        ) implies #[trigger] self.component(id).needs_rendering by {
                        if before.in_scope_of(key.0 as int, child_i as nat, id) {
                            assert(middle.component(id).needs_rendering);
                            before.lemma_scope_contained(key.0 as int, child_i as nat, id);
                            self.lemma_same_shape(&middle, id);
                        } else {
                            middle.lemma_scope(&before, child_id.0 as int, id);
                        }
                    }
                }
            }
            child_i += 1;
        }
        let ghost middle = *self;
        proof {
            self.lemma_same_shape(&before, key.0 as int);
        }
        let updated = match components_get_mut(&mut self.components, key.0) {
            Some(component) => component.update_attributes(&self.style, context),
            None => Ok(()),
        };
        proof {
            assert(store_refreshed(self.components@, middle.components@));
            self.lemma_transitive(&middle, &before);
            assert forall|id: int|
                before.contains(id) && !before.in_scope(
                    key.0 as int,
                    id,
                ) implies #[trigger] self.component(id) == before.component(id) by {
                assert(id != key.0);
                middle.lemma_same_shape(&before, id);
                assert(self.components@[id as i32] == middle.components@[id as i32]);
            }
            if updated is Ok {
                assert forall|id: int|
                    before.in_scope(key.0 as int, id) implies #[trigger] self.component(
                    id,
                ).needs_rendering by {
                    if id != key.0 {
                        before.lemma_scope_contained(key.0 as int, count as nat, id);
                        self.lemma_same_shape(&middle, id);
                    }
                }
            }
        }
        updated
    }

    /// A component that is updated with a child is updated with its parent, unless the
    /// child is the root of a tree that was inserted.
    pub proof fn lemma_scope_member(&self, key: int, n: nat, k: int, id: int)
        requires
            self.contains(key),
            0 <= k < n <= self.component(key).children.len(),
            !self.boundary(self.child(key, k)),
            key < self.child(key, k) < self.next(),
            self.in_scope(self.child(key, k), id),
        ensures
            self.in_scope_of(key, n, id),
            n == self.component(key).children.len() ==> self.in_scope(key, id),
        decreases n,
    {
        if k < n - 1 {
            self.lemma_scope_member(key, (n - 1) as nat, k, id);
        }
    }

    /// A component that is updated with another is a component of the UI.
    pub proof fn lemma_scope_contained(&self, key: int, n: nat, id: int)
        requires
            self.in_scope_of(key, n, id),
        ensures
            self.contains(id),
        decreases self.next() - key, n,
    {
        let child = self.child(key, n - 1);
        if self.in_scope_of(key, (n - 1) as nat, id) {
            self.lemma_scope_contained(key, (n - 1) as nat, id);
        } else {
            assert(self.in_scope(child, id));
            if id != child {
                assert(self.in_scope_of(child, self.component(child).children.len(), id));
                self.lemma_scope_contained(child, self.component(child).children.len(), id);
            }
        }
    }

    /// Makes the components of a template, the component of the template itself first and
    /// then those of its children in their order, and gives the ID of the first.
    #[verifier::rlimit(60)]
    fn load_component(&mut self, template: &ComponentTemplate, sink: usize, context: &Context) -> (r:
        Result<ComponentId, Error>)
        requires
            old(self).wf_store(),
            sink < old(self).sink_count(),
        ensures
            final(self).wf_store(),
            final(self).extends(old(self)),
            old(self).next() + nodes(template@) > i32::MAX ==> r is Err,
            !context.classes@.contains(template@.class) && unconditional(
                cascade(template@, old(self).rules()),
            ) ==> (r matches Err(e) && e@ == (ErrorView::Other {
                error: not_registered_text(template@.class),
            }) && final(self).next() == old(self).next()),
            r matches Ok(id) ==> {
                &&& id.0 == old(self).next()
                &&& uses_only(template@, context.classes@)
                &&& final(self).next() == old(self).next() + nodes(template@)
                &&& final(self).mirrors(id.0 as int, template@)
                &&& tree_at(final(self).components@, id.0 as int, template@)
                &&& forall|j: int|
                    old(self).next() <= j < final(self).next() ==> #[trigger] final(self).contains(
                        j,
                    ) && final(self).component(j).sink == sink && final(self).component(
                        j,
                    ).needs_rendering
            },
        decreases template,
    {
        let ghost before = *self;
        // Load the component itself from the template
        let mut component = match Component::from_template(template, sink, &self.style, context) {
            Ok(component) => component,
            Err(e) => {
                return Err(e);
            },
        };
        if self.next_id.0 == i32::MAX {
            return Err(Error::other("Too many components"));
        }
        let id = self.next_id;
        self.next_id = ComponentId(id.0 + 1);
        let ghost fresh = component@;
        proof {
            template.lemma_children();
            assert(!self.components@.contains_key(id.0));
        }
        // Also load all the children
        let mut k: usize = 0;
        while k < template.children.len()
            invariant
                k <= template.children@.len(),
                template@.children == template_views(template.children@),
                decreases_to!(*template => template.children),
                id.0 == before.next(),
                before == *old(self),
                sink < self.sink_count(),
                self.wf_store(),
                self.extends(&before),
                !self.components@.contains_key(id.0),
                self.next() == id.0 + offset(template@, k as nat),
                component@ == with_children(fresh, component@.children),
                fresh.sink == sink,
                fresh.template == template@,
                component@.children.len() == k,
                forall|j: int|
                    0 <= j < k ==> {
                        &&& (#[trigger] component@.children[j]).0 == id.0 + offset(
                            template@,
                            j as nat,
                        )
                        &&& tree_at(
                            self.components@,
                            id.0 + offset(template@, j as nat),
                            template@.children[j],
                        )
                    },
                forall|j: i32|
                    id.0 < j < self.next() ==> #[trigger] self.components@.contains_key(j)
                        && self.components@[j]@.sink == sink
                        && self.components@[j]@.needs_rendering,
                fresh.needs_rendering,
                context.classes@.contains(template@.class),
                forall|j: int| 0 <= j < k ==> uses_only(#[trigger] template@.children[j], context.classes@),
            decreases template.children@.len() - k,
        {
            let ghost middle = *self;
            let ghost listed = component@.children;
            assert(decreases_to!(template.children => template.children[k as int]));
            proof {
                lemma_offsets(template@, k as nat, k as nat);
            }
            let child_id = match self.load_component(&template.children[k], sink, context) {
                Ok(child_id) => child_id,
                Err(e) => {
                    proof {
                        assert(self.extends(&middle));
                        assert(middle.extends(&before));
                        lemma_extends_chain(
                            self.components@,
                            middle.components@,
                            before.components@,
                            middle.next(),
                            before.next(),
                        );
                        assert(self.sinks@ == before.sinks@);
                        assert(self.style == before.style);
                        assert(self.tree_roots@ == before.tree_roots@);
                        assert(self.extends(&before));
                    }
                    return Err(e);
                },
            };
            proof {
                lemma_extends_chain(
                    self.components@,
                    middle.components@,
                    before.components@,
                    middle.next(),
                    before.next(),
                );
                assert(!self.components@.contains_key(id.0));
            }
            component.add_child(child_id);
            proof {
                assert(template@.children[k as int] == template.children[k as int]@);
                assert forall|j: int| 0 <= j < k + 1 implies {
                    &&& (#[trigger] component@.children[j]).0 == id.0 + offset(
                        template@,
                        j as nat,
                    )
                    &&& tree_at(
                        self.components@,
                        id.0 + offset(template@, j as nat),
                        template@.children[j],
                    )
                } by {
                    if j < k {
                        assert(listed[j].0 == id.0 + offset(template@, j as nat));
                        lemma_offsets(template@, j as nat, k as nat);
                        lemma_tree_frame(
                            self.components@,
                            middle.components@,
                            id.0 + offset(template@, j as nat),
                            template@.children[j],
                        );
                    }
                }
                assert forall|j: i32| id.0 < j < self.next() implies #[trigger]
                    self.components@.contains_key(j) && self.components@[j]@.sink == sink
                    && self.components@[j]@.needs_rendering by {
                    if j < middle.next() {
                        assert(middle.components@.contains_key(j));
                    } else {
                        assert(self.contains(j as int));
                        assert(self.component(j as int).sink == sink);
                    }
                }
            }
            k += 1;
        }
        // Add the component itself
        let ghost middle = *self;
        let ghost content = component@;
        proof {
            assert(content.children.len() == k);
            assert forall|c: int| 0 <= c < k implies #[trigger] tree_at(
                middle.components@,
                id.0 + offset(template@, c as nat),
                template@.children[c],
            ) && content.children[c].0 == id.0 + offset(template@, c as nat) by {
                assert(component@.children[c].0 == id.0 + offset(template@, c as nat));
            }
        }
        components_insert(&mut self.components, id.0, component);
        proof {
            lemma_offsets(template@, 0, k as nat);
            assert(children_ok(content, id.0, self.components@, self.next())) by {
                assert forall|c: int| 0 <= c < content.children.len() implies id.0 < (
                #[trigger] content.children[c]).0 < self.next() && self.components@.contains_key(
                    content.children[c].0,
                ) by {
                    lemma_offsets(template@, c as nat, k as nat);
                    assert(tree_at(
                        middle.components@,
                        id.0 + offset(template@, c as nat),
                        template@.children[c],
                    ));
                }
            }
            assert forall|j: i32| #[trigger] self.components@.contains_key(j) implies 0 <= j
                < self.next() && self.components@[j]@.sink < self.sink_count() && children_ok(
                self.components@[j]@,
                j,
                self.components@,
                self.next(),
            ) by {
                if j != id.0 {
                    assert(middle.components@.contains_key(j));
                    assert(children_ok(middle.components@[j]@, j, middle.components@, self.next()));
                }
            }
            assert forall|c: int| 0 <= c < template@.children.len() implies {
                &&& (#[trigger] self.components@[id.0]@.children[c]).0 == id.0 + offset(
                    template@,
                    c as nat,
                )
                &&& tree_at(
                    self.components@,
                    id.0 + offset(template@, c as nat),
                    template@.children[c],
                )
            } by {
                assert(content.children[c].0 == id.0 + offset(template@, c as nat));
                lemma_offsets(template@, c as nat, k as nat);
                lemma_tree_frame(
                    self.components@,
                    middle.components@,
                    id.0 + offset(template@, c as nat),
                    template@.children[c],
                );
            }
            assert forall|j: int| before.next() <= j < self.next() implies #[trigger]
                self.contains(j) && self.component(j).sink == sink && self.component(
                j,
            ).needs_rendering by {
                assert(self.components@.contains_key(j as i32));
                if j != id.0 {
                    assert(middle.components@.contains_key(j as i32));
                }
            }
            assert(self.components@[id.0]@ == content);
            assert(content.template == template@);
            assert(content.children.len() == template@.children.len());
            lemma_tree_here(self.components@, id.0, template@);
            self.lemma_tree_mirrors(id.0 as int, template@);
            assert(self.next() == before.next() + nodes(template@));
            assert(store_extends(self.components@, before.components@, before.next()));
        }
        Ok(id)
    }
}

/// A store whose components have kept their children and event sinks forms a forest as
/// the store before it does.
proof fn lemma_refreshed_ok(
    store: Map<i32, Component>,
    before: Map<i32, Component>,
    next: int,
    sinks: nat,
)
    requires
        store_refreshed(store, before),
        store_ok(before, next, sinks),
    ensures
        store_ok(store, next, sinks),
{
    assert forall|id: i32| #[trigger] store.contains_key(id) implies 0 <= id < next
        && store[id]@.sink < sinks && children_ok(store[id]@, id, store, next) by {
        assert(before.contains_key(id));
        assert(children_ok(before[id]@, id, before, next));
        assert forall|k: int| 0 <= k < store[id]@.children.len() implies id < (
        #[trigger] store[id]@.children[k]).0 < next && store.contains_key(
            store[id]@.children[k].0,
        ) by {
            assert(before[id]@.children[k] == store[id]@.children[k]);
            assert(before.contains_key(before[id]@.children[k].0));
        }
    }
}

/// A store in which one component has changed but has kept its children and its event
/// sink forms a forest as the store before it does.
proof fn lemma_kept_ok(
    store: Map<i32, Component>,
    before: Map<i32, Component>,
    id: i32,
    next: int,
    sinks: nat,
)
    requires
        store_ok(before, next, sinks),
        before.contains_key(id),
        store.contains_key(id),
        store == before.insert(id, store[id]),
    ensures
        kept(before[id]@, store[id]@) ==> store_ok(store, next, sinks),
{
    if kept(before[id]@, store[id]@) {
        assert forall|j: i32| #[trigger] store.contains_key(j) implies 0 <= j < next
            && store[j]@.sink < sinks && children_ok(store[j]@, j, store, next) by {
            assert(before.contains_key(j));
            assert(children_ok(before[j]@, j, before, next));
            assert forall|k: int| 0 <= k < store[j]@.children.len() implies j < (
            #[trigger] store[j]@.children[k]).0 < next && store.contains_key(
                store[j]@.children[k].0,
            ) by {
                assert(before[j]@.children[k] == store[j]@.children[k]);
                assert(before.contains_key(before[j]@.children[k].0));
            }
        }
    }
}

/// A store that extends one that extends another extends that one.
proof fn lemma_extends_chain(
    store: Map<i32, Component>,
    middle: Map<i32, Component>,
    before: Map<i32, Component>,
    middle_next: int,
    before_next: int,
)
    requires
        store_extends(store, middle, middle_next),
        store_extends(middle, before, before_next),
        before_next <= middle_next,
    ensures
        store_extends(store, before, before_next),
{
    assert forall|id: i32| #[trigger] before.contains_key(id) implies store.contains_key(id)
        && store[id] == before[id] by {
        assert(middle.contains_key(id));
    }
    assert forall|id: i32| #[trigger] store.contains_key(id) && id < before_next implies before.contains_key(
        id,
    ) by {
        assert(middle.contains_key(id));
    }
}

/// The offsets of the children of a template grow with their position, each by the
/// components that the child before it makes, and stay within the components of the
/// template.
pub proof fn lemma_offsets(template: TemplateView, j: nat, k: nat)
    requires
        j <= k <= template.children.len(),
    ensures
        1 <= offset(template, j) <= offset(template, k) <= nodes(template),
        j < k ==> offset(template, j) + nodes(template.children[j as int]) <= offset(template, k),
        j < template.children.len() ==> nodes(template.children[j as int]) >= 1,
    decreases template, k - j,
{
    lemma_offsets_grow(template, j);
    if j < k {
        lemma_offsets(template, j + 1, k);
        lemma_positive(template.children[j as int]);
    }
    lemma_offsets_end(template, k);
    if j < template.children.len() {
        lemma_positive(template.children[j as int]);
    }
}

proof fn lemma_positive(template: TemplateView)
    ensures
        nodes(template) >= 1,
    decreases template, template.children.len() + 1,
{
    lemma_offsets_grow(template, template.children.len());
}

proof fn lemma_offsets_grow(template: TemplateView, k: nat)
    requires
        k <= template.children.len(),
    ensures
        offset(template, k) >= 1,
    decreases template, k,
{
    if k > 0 {
        lemma_offsets_grow(template, (k - 1) as nat);
    }
}

proof fn lemma_offsets_end(template: TemplateView, k: nat)
    requires
        k <= template.children.len(),
    ensures
        offset(template, k) <= nodes(template),
    decreases template.children.len() - k,
{
    if k < template.children.len() {
        lemma_offsets_end(template, k + 1);
    }
}

} // verus!
