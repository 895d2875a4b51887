//! Widgets and the manager that owns them and their components.
//!
//! A widget is an id and, for each kind of component, the id of the one that
//! it has. The manager keeps the widgets in one arena and the components of
//! each kind in an arena of their own. A `WidgetBuilder` attaches components
//! to a new widget; a `Context` gives the actions that the scheduler executes
//! access to the components.

use crate::arena::{
    Arena, insert_at, is_next_id, lemma_next_id, lemma_remove_at_keeps, lemma_trim, next_id,
    remove_at, slot_at, trim,
};
use crate::ui::action::{Action, ScheduledAction, Scheduler};
use crate::ui::button::{Button, ButtonView};
use crate::ui::container::{Container, ContainerView};
use crate::ui::error::Error;
use crate::ui::event::{Event, forgetting, Listener};
use crate::ui::mouse::{MouseButtonTarget, MouseMotionTarget, MouseOverTarget, MouseOverView};
use crate::ui::spatial::{Spatial, SpatialView};
use vstd::prelude::*;

verus! {

/// An ID type for widgets
pub type WidgetId = usize;

/// An ID type for components
pub type ComponentId = usize;

/// A widget: for each kind of component, the id of the one that it has
#[derive(Clone, Copy, Debug, PartialEq, Eq, Structural)]
pub struct Widget {
    /// The ID of the button component
    pub button_id: Option<ComponentId>,
    /// The ID of the container component
    pub container_id: Option<ComponentId>,
    /// The ID of the mouse button target component
    pub mouse_button_target_id: Option<ComponentId>,
    /// The ID of the mouse motion target component
    pub mouse_motion_target_id: Option<ComponentId>,
    /// The ID of the mouse over target component
    pub mouse_over_target_id: Option<ComponentId>,
    /// The ID of the spatial component
    pub spatial_id: Option<ComponentId>,
}

impl Widget {
    /// A widget without components.
    pub open spec fn bare() -> Widget {
        Widget {
            button_id: None,
            container_id: None,
            mouse_button_target_id: None,
            mouse_motion_target_id: None,
            mouse_over_target_id: None,
            spatial_id: None,
        }
    }

    /// Whether two widgets have no component in common.
    pub open spec fn apart(self, other: Widget) -> bool {
        &&& apart(self.button_id, other.button_id)
        &&& apart(self.container_id, other.container_id)
        &&& apart(self.mouse_button_target_id, other.mouse_button_target_id)
        &&& apart(self.mouse_motion_target_id, other.mouse_motion_target_id)
        &&& apart(self.mouse_over_target_id, other.mouse_over_target_id)
        &&& apart(self.spatial_id, other.spatial_id)
    }
}

/// An event that a widget has handed to the application
#[derive(Clone, Copy, Debug, PartialEq, Eq, Structural)]
pub struct Report {
    /// The ID of the widget that the event comes from
    pub source_id: WidgetId,
    /// The ID of the widget that handed the event on
    pub target_id: WidgetId,
    /// The event
    pub event: Event,
}

/// The slots of an arena of components, each component by its view.
pub open spec fn views<C: View>(slots: Seq<Option<C>>) -> Seq<Option<C::V>> {
    slots.map_values(
        |slot: Option<C>|
            match slot {
                Some(component) => Some(component@),
                None => None,
            },
    )
}

/// The component that a link leads to.
pub open spec fn component<V>(link: Option<ComponentId>, slots: Seq<Option<V>>) -> Result<
    V,
    Error,
> {
    match link {
        Some(id) => match slot_at(slots, id as int) {
            Some(component) => Ok(component),
            None => Err(Error::NoComponent),
        },
        None => Err(Error::NoComponent),
    }
}

/// Whether a link, where there is one, leads to a component.
pub open spec fn valid<V>(link: Option<ComponentId>, slots: Seq<Option<V>>) -> bool {
    link.is_some() ==> slot_at(slots, link.unwrap() as int).is_some()
}

/// Whether two links do not lead to the same component.
pub open spec fn apart(a: Option<ComponentId>, b: Option<ComponentId>) -> bool {
    a.is_some() ==> a != b
}

/// The slots after the component that a link leads to has been released.
pub open spec fn released<V>(slots: Seq<Option<V>>, link: Option<ComponentId>) -> Seq<Option<V>> {
    match link {
        Some(id) => remove_at(slots, id as int),
        None => slots,
    }
}

/// The views of the slots without the free slots at their end are the views
/// of the slots, without the free slots at their end.
proof fn lemma_views_trim<C: View>(slots: Seq<Option<C>>)
    ensures
        views(trim(slots)) == trim(views(slots)),
    decreases slots.len(),
{
    if slots.len() > 0 && slots.last().is_none() {
        lemma_views_trim(slots.drop_last());
        assert(views(slots).drop_last() =~= views(slots.drop_last()));
    }
}

/// Freeing a slot and taking the views can be done in either order.
proof fn lemma_views_remove_at<C: View>(slots: Seq<Option<C>>, id: int)
    ensures
        views(remove_at(slots, id)) == remove_at(views(slots), id),
{
    if 0 <= id < slots.len() {
        lemma_views_trim(slots.update(id, None));
        assert(views(slots.update(id, None)) =~= views(slots).update(id, None));
    }
}

/// Storing a component and taking the views can be done in either order.
proof fn lemma_views_insert_at<C: View>(slots: Seq<Option<C>>, id: int, component: C)
    ensures
        views(insert_at(slots, id, component)) == insert_at(views(slots), id, component@),
{
    assert(views(insert_at(slots, id, component)) =~= insert_at(views(slots), id, component@));
}

/// Releases the component that a link leads to
fn release<C: View>(arena: &mut Arena<C>, link: Option<ComponentId>)
    requires
        old(arena).wf(),
    ensures
        final(arena).wf(),
        views(final(arena)@) == released(views(old(arena)@), link),
        final(arena)@.len() <= old(arena)@.len(),
        forall|c: int|
            0 <= c < final(arena)@.len() && (#[trigger] final(arena)@[c]).is_some()
                ==> final(arena)@[c] == old(arena)@[c],
{
    match link {
        Some(id) => {
            let removed = arena.remove(id);
            proof {
                lemma_views_remove_at(old(arena)@, id as int);
                if removed.is_some() {
                    lemma_trim(old(arena)@.update(id as int, None));
                } else {
                    if id < old(arena)@.len() {
                        assert(old(arena)@.update(id as int, None) =~= old(arena)@);
                        lemma_trim(old(arena)@);
                        assert(trim(old(arena)@) =~= old(arena)@);
                    }
                }
            }
        },
        None => {},
    }
}


/// The button components up to the id `n`, without what they know of a widget.
pub open spec fn forgetting_buttons_up_to(
    slots: Seq<Option<ButtonView>>,
    id: WidgetId,
    n: int,
) -> Seq<Option<ButtonView>> {
    Seq::new(
        slots.len(),
        |c: int|
            match slots[c] {
                Some(component) => if c < n {
                    Some(component.forgetting(id))
                } else {
                    Some(component)
                },
                None => None,
            },
    )
}

/// The button components without what they know of a widget: each component
/// stays under its id.
pub open spec fn forgetting_buttons(slots: Seq<Option<ButtonView>>, id: WidgetId) -> Seq<
    Option<ButtonView>,
> {
    forgetting_buttons_up_to(slots, id, slots.len() as int)
}

/// Lets every button component forget a widget
fn forget_in_buttons(arena: &mut Arena<Button>, id: WidgetId)
    requires
        old(arena).wf(),
        forall|c: int|
            0 <= c < old(arena)@.len() && (#[trigger] old(arena)@[c]).is_some()
                ==> old(arena)@[c].unwrap().wf(),
    ensures
        final(arena).wf(),
        forall|c: int|
            0 <= c < final(arena)@.len() && (#[trigger] final(arena)@[c]).is_some()
                ==> final(arena)@[c].unwrap().wf(),
        views(final(arena)@) == forgetting_buttons(views(old(arena)@), id),
{
    let count = arena.len();
    let mut c: usize = 0;
    assert(views(arena@) =~= forgetting_buttons_up_to(views(old(arena)@), id, 0));
    while c < count
        invariant
            c <= count,
            count == arena@.len(),
            count == old(arena)@.len(),
            arena.wf(),
            forall|c: int|
                0 <= c < arena@.len() && (#[trigger] arena@[c]).is_some()
                    ==> arena@[c].unwrap().wf(),
            views(arena@) == forgetting_buttons_up_to(views(old(arena)@), id, c as int),
        decreases count - c,
    {
        let ghost before = arena@;
        match arena.get_mut(c) {
            Some(component) => {
                component.forget(id);
            },
            None => {},
        }
        proof {
            let start = views(old(arena)@);
            let earlier = views(before);
            let now = views(arena@);
            let next = forgetting_buttons_up_to(start, id, c + 1);
            assert(earlier == forgetting_buttons_up_to(start, id, c as int));
            assert(earlier[c as int] == start[c as int]);
            assert forall|j: int| 0 <= j < count implies now[j] == next[j] by {
                if j != c {
                    assert(arena@[j] == before[j]);
                    assert(now[j] == earlier[j]);
                }
            }
            assert(now =~= next);
        }
        c += 1;
    }
}

/// The container components up to the id `n`, without what they know of a
/// widget.
pub open spec fn forgetting_containers_up_to(
    slots: Seq<Option<ContainerView>>,
    id: WidgetId,
    n: int,
) -> Seq<Option<ContainerView>> {
    Seq::new(
        slots.len(),
        |c: int|
            match slots[c] {
                Some(component) => if c < n {
                    Some(component.forgetting(id))
                } else {
                    Some(component)
                },
                None => None,
            },
    )
}

/// The container components without what they know of a widget: each component
/// stays under its id.
pub open spec fn forgetting_containers(slots: Seq<Option<ContainerView>>, id: WidgetId) -> Seq<
    Option<ContainerView>,
> {
    forgetting_containers_up_to(slots, id, slots.len() as int)
}

/// Lets every container component forget a widget
fn forget_in_containers(arena: &mut Arena<Container>, id: WidgetId)
    requires
        old(arena).wf(),
    ensures
        final(arena).wf(),
        views(final(arena)@) == forgetting_containers(views(old(arena)@), id),
{
    let count = arena.len();
    let mut c: usize = 0;
    assert(views(arena@) =~= forgetting_containers_up_to(views(old(arena)@), id, 0));
    while c < count
        invariant
            c <= count,
            count == arena@.len(),
            count == old(arena)@.len(),
            arena.wf(),
            views(arena@) == forgetting_containers_up_to(views(old(arena)@), id, c as int),
        decreases count - c,
    {
        let ghost before = arena@;
        match arena.get_mut(c) {
            Some(component) => {
                component.forget(id);
            },
            None => {},
        }
        proof {
            let start = views(old(arena)@);
            let earlier = views(before);
            let now = views(arena@);
            let next = forgetting_containers_up_to(start, id, c + 1);
            assert(earlier == forgetting_containers_up_to(start, id, c as int));
            assert(earlier[c as int] == start[c as int]);
            assert forall|j: int| 0 <= j < count implies now[j] == next[j] by {
                if j != c {
                    assert(arena@[j] == before[j]);
                    assert(now[j] == earlier[j]);
                }
            }
            assert(now =~= next);
        }
        c += 1;
    }
}

/// The mouse button target components up to the id `n`, without what they know
/// of a widget.
pub open spec fn forgetting_mouse_button_targets_up_to(
    slots: Seq<Option<Seq<Option<Listener>>>>,
    id: WidgetId,
    n: int,
) -> Seq<Option<Seq<Option<Listener>>>> {
    Seq::new(
        slots.len(),
        |c: int|
            match slots[c] {
                Some(component) => if c < n {
                    Some(forgetting(component, id))
                } else {
                    Some(component)
                },
                None => None,
            },
    )
}

/// The mouse button target components without what they know of a widget: each
/// component stays under its id.
pub open spec fn forgetting_mouse_button_targets(
    slots: Seq<Option<Seq<Option<Listener>>>>,
    id: WidgetId,
) -> Seq<
    Option<Seq<Option<Listener>>>,
> {
    forgetting_mouse_button_targets_up_to(slots, id, slots.len() as int)
}

/// Lets every mouse button target component forget a widget
fn forget_in_mouse_button_targets(arena: &mut Arena<MouseButtonTarget>, id: WidgetId)
    requires
        old(arena).wf(),
        forall|c: int|
            0 <= c < old(arena)@.len() && (#[trigger] old(arena)@[c]).is_some()
                ==> old(arena)@[c].unwrap().wf(),
    ensures
        final(arena).wf(),
        forall|c: int|
            0 <= c < final(arena)@.len() && (#[trigger] final(arena)@[c]).is_some()
                ==> final(arena)@[c].unwrap().wf(),
        views(final(arena)@) == forgetting_mouse_button_targets(views(old(arena)@), id),
{
    let count = arena.len();
    let mut c: usize = 0;
    assert(views(arena@) =~= forgetting_mouse_button_targets_up_to(views(old(arena)@), id, 0));
    while c < count
        invariant
            c <= count,
            count == arena@.len(),
            count == old(arena)@.len(),
            arena.wf(),
            forall|c: int|
                0 <= c < arena@.len() && (#[trigger] arena@[c]).is_some()
                    ==> arena@[c].unwrap().wf(),
            views(arena@)
                == forgetting_mouse_button_targets_up_to(views(old(arena)@), id, c as int),
        decreases count - c,
    {
        let ghost before = arena@;
        match arena.get_mut(c) {
            Some(component) => {
                component.forget(id);
            },
            None => {},
        }
        proof {
            let start = views(old(arena)@);
            let earlier = views(before);
            let now = views(arena@);
            let next = forgetting_mouse_button_targets_up_to(start, id, c + 1);
            assert(earlier == forgetting_mouse_button_targets_up_to(start, id, c as int));
            assert(earlier[c as int] == start[c as int]);
            assert forall|j: int| 0 <= j < count implies now[j] == next[j] by {
                if j != c {
                    assert(arena@[j] == before[j]);
                    assert(now[j] == earlier[j]);
                }
            }
            assert(now =~= next);
        }
        c += 1;
    }
}

/// The mouse motion target components up to the id `n`, without what they know
/// of a widget.
pub open spec fn forgetting_mouse_motion_targets_up_to(
    slots: Seq<Option<Seq<Option<Listener>>>>,
    id: WidgetId,
    n: int,
) -> Seq<Option<Seq<Option<Listener>>>> {
    Seq::new(
        slots.len(),
        |c: int|
            match slots[c] {
                Some(component) => if c < n {
                    Some(forgetting(component, id))
                } else {
                    Some(component)
                },
                None => None,
            },
    )
}

/// The mouse motion target components without what they know of a widget: each
/// component stays under its id.
pub open spec fn forgetting_mouse_motion_targets(
    slots: Seq<Option<Seq<Option<Listener>>>>,
    id: WidgetId,
) -> Seq<
    Option<Seq<Option<Listener>>>,
> {
    forgetting_mouse_motion_targets_up_to(slots, id, slots.len() as int)
}

/// Lets every mouse motion target component forget a widget
fn forget_in_mouse_motion_targets(arena: &mut Arena<MouseMotionTarget>, id: WidgetId)
    requires
        old(arena).wf(),
        forall|c: int|
            0 <= c < old(arena)@.len() && (#[trigger] old(arena)@[c]).is_some()
                ==> old(arena)@[c].unwrap().wf(),
    ensures
        final(arena).wf(),
        forall|c: int|
            0 <= c < final(arena)@.len() && (#[trigger] final(arena)@[c]).is_some()
                ==> final(arena)@[c].unwrap().wf(),
        views(final(arena)@) == forgetting_mouse_motion_targets(views(old(arena)@), id),
{
    let count = arena.len();
    let mut c: usize = 0;
    assert(views(arena@) =~= forgetting_mouse_motion_targets_up_to(views(old(arena)@), id, 0));
    while c < count
        invariant
            c <= count,
            count == arena@.len(),
            count == old(arena)@.len(),
            arena.wf(),
            forall|c: int|
                0 <= c < arena@.len() && (#[trigger] arena@[c]).is_some()
                    ==> arena@[c].unwrap().wf(),
            views(arena@)
                == forgetting_mouse_motion_targets_up_to(views(old(arena)@), id, c as int),
        decreases count - c,
    {
        let ghost before = arena@;
        match arena.get_mut(c) {
            Some(component) => {
                component.forget(id);
            },
            None => {},
        }
        proof {
            let start = views(old(arena)@);
            let earlier = views(before);
            let now = views(arena@);
            let next = forgetting_mouse_motion_targets_up_to(start, id, c + 1);
            assert(earlier == forgetting_mouse_motion_targets_up_to(start, id, c as int));
            assert(earlier[c as int] == start[c as int]);
            assert forall|j: int| 0 <= j < count implies now[j] == next[j] by {
                if j != c {
                    assert(arena@[j] == before[j]);
                    assert(now[j] == earlier[j]);
                }
            }
            assert(now =~= next);
        }
        c += 1;
    }
}

/// The mouse over target components up to the id `n`, without what they know
/// of a widget.
pub open spec fn forgetting_mouse_over_targets_up_to(
    slots: Seq<Option<MouseOverView>>,
    id: WidgetId,
    n: int,
) -> Seq<Option<MouseOverView>> {
    Seq::new(
        slots.len(),
        |c: int|
            match slots[c] {
                Some(component) => if c < n {
                    Some(component.forgetting(id))
                } else {
                    Some(component)
                },
                None => None,
            },
    )
}

/// The mouse over target components without what they know of a widget: each
/// component stays under its id.
pub open spec fn forgetting_mouse_over_targets(
    slots: Seq<Option<MouseOverView>>,
    id: WidgetId,
) -> Seq<
    Option<MouseOverView>,
> {
    forgetting_mouse_over_targets_up_to(slots, id, slots.len() as int)
}

/// Lets every mouse over target component forget a widget
fn forget_in_mouse_over_targets(arena: &mut Arena<MouseOverTarget>, id: WidgetId)
    requires
        old(arena).wf(),
        forall|c: int|
            0 <= c < old(arena)@.len() && (#[trigger] old(arena)@[c]).is_some()
                ==> old(arena)@[c].unwrap().wf(),
    ensures
        final(arena).wf(),
        forall|c: int|
            0 <= c < final(arena)@.len() && (#[trigger] final(arena)@[c]).is_some()
                ==> final(arena)@[c].unwrap().wf(),
        views(final(arena)@) == forgetting_mouse_over_targets(views(old(arena)@), id),
{
    let count = arena.len();
    let mut c: usize = 0;
    assert(views(arena@) =~= forgetting_mouse_over_targets_up_to(views(old(arena)@), id, 0));
    while c < count
        invariant
            c <= count,
            count == arena@.len(),
            count == old(arena)@.len(),
            arena.wf(),
            forall|c: int|
                0 <= c < arena@.len() && (#[trigger] arena@[c]).is_some()
                    ==> arena@[c].unwrap().wf(),
            views(arena@) == forgetting_mouse_over_targets_up_to(views(old(arena)@), id, c as int),
        decreases count - c,
    {
        let ghost before = arena@;
        match arena.get_mut(c) {
            Some(component) => {
                component.forget(id);
            },
            None => {},
        }
        proof {
            let start = views(old(arena)@);
            let earlier = views(before);
            let now = views(arena@);
            let next = forgetting_mouse_over_targets_up_to(start, id, c + 1);
            assert(earlier == forgetting_mouse_over_targets_up_to(start, id, c as int));
            assert(earlier[c as int] == start[c as int]);
            assert forall|j: int| 0 <= j < count implies now[j] == next[j] by {
                if j != c {
                    assert(arena@[j] == before[j]);
                    assert(now[j] == earlier[j]);
                }
            }
            assert(now =~= next);
        }
        c += 1;
    }
}

/// The spatial components up to the id `n`, without what they know of a
/// widget.
pub open spec fn forgetting_spatials_up_to(
    slots: Seq<Option<SpatialView>>,
    id: WidgetId,
    n: int,
) -> Seq<Option<SpatialView>> {
    Seq::new(
        slots.len(),
        |c: int|
            match slots[c] {
                Some(component) => if c < n {
                    Some(component.forgetting(id))
                } else {
                    Some(component)
                },
                None => None,
            },
    )
}

/// The spatial components without what they know of a widget: each component
/// stays under its id.
pub open spec fn forgetting_spatials(slots: Seq<Option<SpatialView>>, id: WidgetId) -> Seq<
    Option<SpatialView>,
> {
    forgetting_spatials_up_to(slots, id, slots.len() as int)
}

/// Lets every spatial component forget a widget
fn forget_in_spatials(arena: &mut Arena<Spatial>, id: WidgetId)
    requires
        old(arena).wf(),
        forall|c: int|
            0 <= c < old(arena)@.len() && (#[trigger] old(arena)@[c]).is_some()
                ==> old(arena)@[c].unwrap().wf(),
    ensures
        final(arena).wf(),
        forall|c: int|
            0 <= c < final(arena)@.len() && (#[trigger] final(arena)@[c]).is_some()
                ==> final(arena)@[c].unwrap().wf(),
        views(final(arena)@) == forgetting_spatials(views(old(arena)@), id),
{
    let count = arena.len();
    let mut c: usize = 0;
    assert(views(arena@) =~= forgetting_spatials_up_to(views(old(arena)@), id, 0));
    while c < count
        invariant
            c <= count,
            count == arena@.len(),
            count == old(arena)@.len(),
            arena.wf(),
            forall|c: int|
                0 <= c < arena@.len() && (#[trigger] arena@[c]).is_some()
                    ==> arena@[c].unwrap().wf(),
            views(arena@) == forgetting_spatials_up_to(views(old(arena)@), id, c as int),
        decreases count - c,
    {
        let ghost before = arena@;
        match arena.get_mut(c) {
            Some(component) => {
                component.forget(id);
            },
            None => {},
        }
        proof {
            let start = views(old(arena)@);
            let earlier = views(before);
            let now = views(arena@);
            let next = forgetting_spatials_up_to(start, id, c + 1);
            assert(earlier == forgetting_spatials_up_to(start, id, c as int));
            assert(earlier[c as int] == start[c as int]);
            assert forall|j: int| 0 <= j < count implies now[j] == next[j] by {
                if j != c {
                    assert(arena@[j] == before[j]);
                    assert(now[j] == earlier[j]);
                }
            }
            assert(now =~= next);
        }
        c += 1;
    }
}

/// What a manager holds: the widgets, the components of each kind, each
/// under its id, and the events that were handed to the application.
pub struct ManagerView {
    /// The widgets
    pub widgets: Seq<Option<Widget>>,
    /// The button components
    pub buttons: Seq<Option<ButtonView>>,
    /// The container components
    pub containers: Seq<Option<ContainerView>>,
    /// The mouse button target components
    pub mouse_button_targets: Seq<Option<Seq<Option<Listener>>>>,
    /// The mouse motion target components
    pub mouse_motion_targets: Seq<Option<Seq<Option<Listener>>>>,
    /// The mouse over target components
    pub mouse_over_targets: Seq<Option<MouseOverView>>,
    /// The spatial components
    pub spatials: Seq<Option<SpatialView>>,
    /// The events that were handed to the application, the first one first
    pub reports: Seq<Report>,
}

impl ManagerView {
    /// The widget under the id.
    pub open spec fn widget(self, id: WidgetId) -> Option<Widget> {
        slot_at(self.widgets, id as int)
    }

    /// The button component of the widget: `NoWidget` where there is no such
    /// widget, `NoComponent` where the widget has no such component.
    pub open spec fn button(self, id: WidgetId) -> Result<ButtonView, Error> {
        match self.widget(id) {
            Some(widget) => component(widget.button_id, self.buttons),
            None => Err(Error::NoWidget),
        }
    }

    /// The state in which the button component of the widget is `component`.
    pub open spec fn with_button(self, id: WidgetId, component: ButtonView) -> ManagerView {
        ManagerView {
            buttons: self.buttons.update(
                self.widget(id).unwrap().button_id.unwrap() as int,
                Some(component),
            ),
            ..self
        }
    }

    /// The state in which the widget has got `component` as its button
    /// component, under the component id `component_id`.
    pub open spec fn with_new_button(
        self,
        id: WidgetId,
        component_id: ComponentId,
        component: ButtonView,
    ) -> ManagerView {
        ManagerView {
            widgets: self.widgets.update(
                id as int,
                Some(Widget { button_id: Some(component_id), ..self.widget(id).unwrap() }),
            ),
            buttons: insert_at(self.buttons, component_id as int, component),
            ..self
        }
    }

    /// The state in which `component` is the button component of the widget:
    /// in the place of the one that the widget had, or as a new component
    /// under the id that the arena gives out next.
    pub open spec fn attach_button(self, id: WidgetId, component: ButtonView) -> ManagerView {
        match self.widget(id).unwrap().button_id {
            Some(_) => self.with_button(id, component),
            None => self.with_new_button(id, next_id(self.buttons) as ComponentId, component),
        }
    }

    /// The container component of the widget: `NoWidget` where there is no
    /// such widget, `NoComponent` where the widget has no such component.
    pub open spec fn container(self, id: WidgetId) -> Result<ContainerView, Error> {
        match self.widget(id) {
            Some(widget) => component(widget.container_id, self.containers),
            None => Err(Error::NoWidget),
        }
    }

    /// The state in which the container component of the widget is
    /// `component`.
    pub open spec fn with_container(self, id: WidgetId, component: ContainerView) -> ManagerView {
        ManagerView {
            containers: self.containers.update(
                self.widget(id).unwrap().container_id.unwrap() as int,
                Some(component),
            ),
            ..self
        }
    }

    /// The state in which the widget has got `component` as its container
    /// component, under the component id `component_id`.
    pub open spec fn with_new_container(
        self,
        id: WidgetId,
        component_id: ComponentId,
        component: ContainerView,
    ) -> ManagerView {
        ManagerView {
            widgets: self.widgets.update(
                id as int,
                Some(Widget { container_id: Some(component_id), ..self.widget(id).unwrap() }),
            ),
            containers: insert_at(self.containers, component_id as int, component),
            ..self
        }
    }

    /// The state in which `component` is the container component of the
    /// widget: in the place of the one that the widget had, or as a new
    /// component under the id that the arena gives out next.
    pub open spec fn attach_container(self, id: WidgetId, component: ContainerView) -> ManagerView {
        match self.widget(id).unwrap().container_id {
            Some(_) => self.with_container(id, component),
            None => self.with_new_container(id, next_id(self.containers) as ComponentId, component),
        }
    }

    /// The mouse button target component of the widget: `NoWidget` where there
    /// is no such widget, `NoComponent` where the widget has no such
    /// component.
    pub open spec fn mouse_button_target(self, id: WidgetId) -> Result<Seq<Option<Listener>>, Error> {
        match self.widget(id) {
            Some(widget) => component(widget.mouse_button_target_id, self.mouse_button_targets),
            None => Err(Error::NoWidget),
        }
    }

    /// The state in which the mouse button target component of the widget is
    /// `component`.
    pub open spec fn with_mouse_button_target(
        self,
        id: WidgetId,
        component: Seq<Option<Listener>>,
    ) -> ManagerView {
        ManagerView {
            mouse_button_targets: self.mouse_button_targets.update(
                self.widget(id).unwrap().mouse_button_target_id.unwrap() as int,
                Some(component),
            ),
            ..self
        }
    }

    /// The state in which the widget has got `component` as its mouse button
    /// target component, under the component id `component_id`.
    pub open spec fn with_new_mouse_button_target(
        self,
        id: WidgetId,
        component_id: ComponentId,
        component: Seq<Option<Listener>>,
    ) -> ManagerView {
        ManagerView {
            widgets: self.widgets.update(
                id as int,
                Some(
                    Widget {
                        mouse_button_target_id: Some(component_id),
                        ..self.widget(id).unwrap()
                    },
                ),
            ),
            mouse_button_targets: insert_at(
                self.mouse_button_targets,
                component_id as int,
                component,
            ),
            ..self
        }
    }

    /// The state in which `component` is the mouse button target component of
    /// the widget: in the place of the one that the widget had, or as a new
    /// component under the id that the arena gives out next.
    pub open spec fn attach_mouse_button_target(
        self,
        id: WidgetId,
        component: Seq<Option<Listener>>,
    ) -> ManagerView {
        match self.widget(id).unwrap().mouse_button_target_id {
            Some(_) => self.with_mouse_button_target(id, component),
            None => self.with_new_mouse_button_target(
                id,
                next_id(self.mouse_button_targets) as ComponentId,
                component,
            ),
        }
    }

    /// The mouse motion target component of the widget: `NoWidget` where there
    /// is no such widget, `NoComponent` where the widget has no such
    /// component.
    pub open spec fn mouse_motion_target(self, id: WidgetId) -> Result<Seq<Option<Listener>>, Error> {
        match self.widget(id) {
            Some(widget) => component(widget.mouse_motion_target_id, self.mouse_motion_targets),
            None => Err(Error::NoWidget),
        }
    }

    /// The state in which the mouse motion target component of the widget is
    /// `component`.
    pub open spec fn with_mouse_motion_target(
        self,
        id: WidgetId,
        component: Seq<Option<Listener>>,
    ) -> ManagerView {
        ManagerView {
            mouse_motion_targets: self.mouse_motion_targets.update(
                self.widget(id).unwrap().mouse_motion_target_id.unwrap() as int,
                Some(component),
            ),
            ..self
        }
    }

    /// The state in which the widget has got `component` as its mouse motion
    /// target component, under the component id `component_id`.
    pub open spec fn with_new_mouse_motion_target(
        self,
        id: WidgetId,
        component_id: ComponentId,
        component: Seq<Option<Listener>>,
    ) -> ManagerView {
        ManagerView {
            widgets: self.widgets.update(
                id as int,
                Some(
                    Widget {
                        mouse_motion_target_id: Some(component_id),
                        ..self.widget(id).unwrap()
                    },
                ),
            ),
            mouse_motion_targets: insert_at(
                self.mouse_motion_targets,
                component_id as int,
                component,
            ),
            ..self
        }
    }

    /// The state in which `component` is the mouse motion target component of
    /// the widget: in the place of the one that the widget had, or as a new
    /// component under the id that the arena gives out next.
    pub open spec fn attach_mouse_motion_target(
        self,
        id: WidgetId,
        component: Seq<Option<Listener>>,
    ) -> ManagerView {
        match self.widget(id).unwrap().mouse_motion_target_id {
            Some(_) => self.with_mouse_motion_target(id, component),
            None => self.with_new_mouse_motion_target(
                id,
                next_id(self.mouse_motion_targets) as ComponentId,
                component,
            ),
        }
    }

    /// The mouse over target component of the widget: `NoWidget` where there
    /// is no such widget, `NoComponent` where the widget has no such
    /// component.
    pub open spec fn mouse_over_target(self, id: WidgetId) -> Result<MouseOverView, Error> {
        match self.widget(id) {
            Some(widget) => component(widget.mouse_over_target_id, self.mouse_over_targets),
            None => Err(Error::NoWidget),
        }
    }

    /// The state in which the mouse over target component of the widget is
    /// `component`.
    pub open spec fn with_mouse_over_target(
        self,
        id: WidgetId,
        component: MouseOverView,
    ) -> ManagerView {
        ManagerView {
            mouse_over_targets: self.mouse_over_targets.update(
                self.widget(id).unwrap().mouse_over_target_id.unwrap() as int,
                Some(component),
            ),
            ..self
        }
    }

    /// The state in which the widget has got `component` as its mouse over
    /// target component, under the component id `component_id`.
    pub open spec fn with_new_mouse_over_target(
        self,
        id: WidgetId,
        component_id: ComponentId,
        component: MouseOverView,
    ) -> ManagerView {
        ManagerView {
            widgets: self.widgets.update(
                id as int,
                Some(
                    Widget { mouse_over_target_id: Some(component_id), ..self.widget(id).unwrap() },
                ),
            ),
            mouse_over_targets: insert_at(self.mouse_over_targets, component_id as int, component),
            ..self
        }
    }

    /// The state in which `component` is the mouse over target component of
    /// the widget: in the place of the one that the widget had, or as a new
    /// component under the id that the arena gives out next.
    pub open spec fn attach_mouse_over_target(
        self,
        id: WidgetId,
        component: MouseOverView,
    ) -> ManagerView {
        match self.widget(id).unwrap().mouse_over_target_id {
            Some(_) => self.with_mouse_over_target(id, component),
            None => self.with_new_mouse_over_target(
                id,
                next_id(self.mouse_over_targets) as ComponentId,
                component,
            ),
        }
    }

    /// The spatial component of the widget: `NoWidget` where there is no such
    /// widget, `NoComponent` where the widget has no such component.
    pub open spec fn spatial(self, id: WidgetId) -> Result<SpatialView, Error> {
        match self.widget(id) {
            Some(widget) => component(widget.spatial_id, self.spatials),
            None => Err(Error::NoWidget),
        }
    }

    /// The state in which the spatial component of the widget is `component`.
    pub open spec fn with_spatial(self, id: WidgetId, component: SpatialView) -> ManagerView {
        ManagerView {
            spatials: self.spatials.update(
                self.widget(id).unwrap().spatial_id.unwrap() as int,
                Some(component),
            ),
            ..self
        }
    }

    /// The state in which the widget has got `component` as its spatial
    /// component, under the component id `component_id`.
    pub open spec fn with_new_spatial(
        self,
        id: WidgetId,
        component_id: ComponentId,
        component: SpatialView,
    ) -> ManagerView {
        ManagerView {
            widgets: self.widgets.update(
                id as int,
                Some(Widget { spatial_id: Some(component_id), ..self.widget(id).unwrap() }),
            ),
            spatials: insert_at(self.spatials, component_id as int, component),
            ..self
        }
    }

    /// The state in which `component` is the spatial component of the widget:
    /// in the place of the one that the widget had, or as a new component
    /// under the id that the arena gives out next.
    pub open spec fn attach_spatial(self, id: WidgetId, component: SpatialView) -> ManagerView {
        match self.widget(id).unwrap().spatial_id {
            Some(_) => self.with_spatial(id, component),
            None => self.with_new_spatial(id, next_id(self.spatials) as ComponentId, component),
        }
    }

    /// The state in which a widget without components has been added under
    /// the id.
    pub open spec fn with_widget(self, id: WidgetId) -> ManagerView {
        ManagerView { widgets: insert_at(self.widgets, id as int, Widget::bare()), ..self }
    }

    /// The state in which the widget is removed: it is taken out and its
    /// components are released, and no other widget knows of it any more:
    /// no registry holds a handler of it, and no container has a column
    /// with it. Nothing changes where there is no such widget.
    pub open spec fn without_widget(self, id: WidgetId) -> ManagerView {
        match self.widget(id) {
            Some(_) => self.released_widget(id).forgetting(id),
            None => self,
        }
    }

    /// The state in which no component knows of the widget any more: no
    /// registry holds a handler with which the widget handles events, and
    /// no container has a column with it. Every component stays under its
    /// id.
    pub open spec fn forgetting(self, id: WidgetId) -> ManagerView {
        ManagerView {
            widgets: self.widgets,
            buttons: forgetting_buttons(self.buttons, id),
            containers: forgetting_containers(self.containers, id),
            mouse_button_targets: forgetting_mouse_button_targets(self.mouse_button_targets, id),
            mouse_motion_targets: forgetting_mouse_motion_targets(self.mouse_motion_targets, id),
            mouse_over_targets: forgetting_mouse_over_targets(self.mouse_over_targets, id),
            spatials: forgetting_spatials(self.spatials, id),
            reports: self.reports,
        }
    }

    /// The state in which the widget is taken out and its components are
    /// released.
    pub open spec fn released_widget(self, id: WidgetId) -> ManagerView {
        match self.widget(id) {
            Some(widget) => ManagerView {
                widgets: remove_at(self.widgets, id as int),
                buttons: released(self.buttons, widget.button_id),
                containers: released(self.containers, widget.container_id),
                mouse_button_targets: released(
                    self.mouse_button_targets,
                    widget.mouse_button_target_id,
                ),
                mouse_motion_targets: released(
                    self.mouse_motion_targets,
                    widget.mouse_motion_target_id,
                ),
                mouse_over_targets: released(self.mouse_over_targets, widget.mouse_over_target_id),
                spatials: released(self.spatials, widget.spatial_id),
                reports: self.reports,
            },
            None => self,
        }
    }

    /// The state in which one more event has been handed to the application.
    pub open spec fn with_report(self, report: Report) -> ManagerView {
        ManagerView { reports: self.reports.push(report), ..self }
    }

    /// Whether two states are the same, part by part.
    pub open spec fn agrees(self, other: ManagerView) -> bool {
        &&& self.widgets =~= other.widgets
        &&& self.buttons =~= other.buttons
        &&& self.containers =~= other.containers
        &&& self.mouse_button_targets =~= other.mouse_button_targets
        &&& self.mouse_motion_targets =~= other.mouse_motion_targets
        &&& self.mouse_over_targets =~= other.mouse_over_targets
        &&& self.spatials =~= other.spatials
        &&& self.reports =~= other.reports
        &&& self == other
    }

    /// Whether the arenas have room for the components that the widget does
    /// not have yet: for one more component of each such kind.
    pub open spec fn has_room_for(self, id: WidgetId) -> bool {
        &&& self.button(id).is_err() ==> self.buttons.len() < usize::MAX
        &&& self.container(id).is_err() ==> self.containers.len() < usize::MAX
        &&& self.mouse_button_target(id).is_err() ==> self.mouse_button_targets.len() < usize::MAX
        &&& self.mouse_motion_target(id).is_err() ==> self.mouse_motion_targets.len() < usize::MAX
        &&& self.mouse_over_target(id).is_err() ==> self.mouse_over_targets.len() < usize::MAX
        &&& self.spatial(id).is_err() ==> self.spatials.len() < usize::MAX
    }

    /// Whether each component id of the widget leads to a component.
    pub open spec fn links_valid(self, widget: Widget) -> bool {
        &&& valid(widget.button_id, self.buttons)
        &&& valid(widget.container_id, self.containers)
        &&& valid(widget.mouse_button_target_id, self.mouse_button_targets)
        &&& valid(widget.mouse_motion_target_id, self.mouse_motion_targets)
        &&& valid(widget.mouse_over_target_id, self.mouse_over_targets)
        &&& valid(widget.spatial_id, self.spatials)
    }

    /// The invariant of the state: no component id of a widget dangles, and
    /// no two widgets share a component.
    pub open spec fn wf(self) -> bool {
        &&& forall|w: int|
            0 <= w < self.widgets.len() && (#[trigger] self.widgets[w]).is_some()
                ==> self.links_valid(self.widgets[w].unwrap())
        &&& forall|v: int, w: int|
            0 <= v < self.widgets.len() && 0 <= w < self.widgets.len() && v != w
                && (#[trigger] self.widgets[v]).is_some()
                && (#[trigger] self.widgets[w]).is_some()
                ==> self.widgets[v].unwrap().apart(self.widgets[w].unwrap())
    }
}

/// Taking a widget out and releasing its components keeps the invariant: no
/// other widget has lost a component.
pub proof fn lemma_released_widget_wf(state: ManagerView, id: WidgetId)
    requires
        state.wf(),
    ensures
        state.released_widget(id).wf(),
{
    let after = state.released_widget(id);
    if state.widget(id).is_some() {
        let gone = state.widget(id).unwrap();
        lemma_trim(state.widgets.update(id as int, None));
        assert forall|w: int|
            0 <= w < after.widgets.len() && (#[trigger] after.widgets[w]).is_some() implies {
            &&& w != id
            &&& 0 <= w < state.widgets.len()
            &&& state.widgets[w] == after.widgets[w]
        } by {
            lemma_remove_at_keeps(state.widgets, id as int, w);
        }
        assert forall|w: int|
            0 <= w < after.widgets.len() && (#[trigger] after.widgets[w]).is_some() implies
            after.links_valid(after.widgets[w].unwrap()) by {
            let widget = state.widgets[w].unwrap();
            assert(state.widgets[id as int].is_some());
            assert(widget.apart(gone));
            assert(gone.apart(widget));
            assert(state.links_valid(widget));
            if gone.button_id.is_some() && widget.button_id.is_some() {
                lemma_remove_at_keeps(
                    state.buttons,
                    gone.button_id.unwrap() as int,
                    widget.button_id.unwrap() as int,
                );
            }
            if gone.container_id.is_some() && widget.container_id.is_some() {
                lemma_remove_at_keeps(
                    state.containers,
                    gone.container_id.unwrap() as int,
                    widget.container_id.unwrap() as int,
                );
            }
            if gone.mouse_button_target_id.is_some() && widget.mouse_button_target_id.is_some() {
                lemma_remove_at_keeps(
                    state.mouse_button_targets,
                    gone.mouse_button_target_id.unwrap() as int,
                    widget.mouse_button_target_id.unwrap() as int,
                );
            }
            if gone.mouse_motion_target_id.is_some() && widget.mouse_motion_target_id.is_some() {
                lemma_remove_at_keeps(
                    state.mouse_motion_targets,
                    gone.mouse_motion_target_id.unwrap() as int,
                    widget.mouse_motion_target_id.unwrap() as int,
                );
            }
            if gone.mouse_over_target_id.is_some() && widget.mouse_over_target_id.is_some() {
                lemma_remove_at_keeps(
                    state.mouse_over_targets,
                    gone.mouse_over_target_id.unwrap() as int,
                    widget.mouse_over_target_id.unwrap() as int,
                );
            }
            if gone.spatial_id.is_some() && widget.spatial_id.is_some() {
                lemma_remove_at_keeps(
                    state.spatials,
                    gone.spatial_id.unwrap() as int,
                    widget.spatial_id.unwrap() as int,
                );
            }
        }
    }
}

/// A widget to which a button component is attached has this component
/// afterwards, and the invariant is kept.
pub proof fn lemma_attach_button(state: ManagerView, id: WidgetId, component: ButtonView)
    requires
        state.wf(),
        state.widget(id).is_some(),
        state.has_room_for(id),
    ensures
        state.attach_button(id, component).wf(),
        state.attach_button(id, component).widget(id).is_some(),
        state.attach_button(id, component).has_room_for(id),
        state.attach_button(id, component).button(id) == Ok::<ButtonView, Error>(component),
{
    let after = state.attach_button(id, component);
    assert(state.widgets[id as int].is_some());
    assert(state.links_valid(state.widgets[id as int].unwrap()));
    if state.widgets[id as int].unwrap().button_id.is_none() {
        lemma_next_id(state.buttons, next_id(state.buttons));
        assert forall|w: int|
            0 <= w < after.widgets.len() && (#[trigger] after.widgets[w]).is_some() implies
            after.links_valid(after.widgets[w].unwrap()) by {
            assert(state.widgets[w].is_some());
            assert(state.links_valid(state.widgets[w].unwrap()));
        }
        assert forall|v: int, w: int|
            0 <= v < after.widgets.len() && 0 <= w < after.widgets.len() && v != w
                && (#[trigger] after.widgets[v]).is_some()
                && (#[trigger] after.widgets[w]).is_some() implies
            after.widgets[v].unwrap().apart(after.widgets[w].unwrap()) by {
            assert(state.widgets[v].is_some() && state.widgets[w].is_some());
            assert(state.widgets[v].unwrap().apart(state.widgets[w].unwrap()));
            assert(state.links_valid(state.widgets[v].unwrap()));
            assert(state.links_valid(state.widgets[w].unwrap()));
        }
    } else {
        assert forall|w: int|
            0 <= w < after.widgets.len() && (#[trigger] after.widgets[w]).is_some() implies
            after.links_valid(after.widgets[w].unwrap()) by {
            assert(state.links_valid(state.widgets[w].unwrap()));
        }
    }
}

/// A widget to which a container component is attached has this component
/// afterwards, and the invariant is kept.
pub proof fn lemma_attach_container(state: ManagerView, id: WidgetId, component: ContainerView)
    requires
        state.wf(),
        state.widget(id).is_some(),
        state.has_room_for(id),
    ensures
        state.attach_container(id, component).wf(),
        state.attach_container(id, component).widget(id).is_some(),
        state.attach_container(id, component).has_room_for(id),
        state.attach_container(id, component).container(id)
            == Ok::<ContainerView, Error>(component),
{
    let after = state.attach_container(id, component);
    assert(state.widgets[id as int].is_some());
    assert(state.links_valid(state.widgets[id as int].unwrap()));
    if state.widgets[id as int].unwrap().container_id.is_none() {
        lemma_next_id(state.containers, next_id(state.containers));
        assert forall|w: int|
            0 <= w < after.widgets.len() && (#[trigger] after.widgets[w]).is_some() implies
            after.links_valid(after.widgets[w].unwrap()) by {
            assert(state.widgets[w].is_some());
            assert(state.links_valid(state.widgets[w].unwrap()));
        }
        assert forall|v: int, w: int|
            0 <= v < after.widgets.len() && 0 <= w < after.widgets.len() && v != w
                && (#[trigger] after.widgets[v]).is_some()
                && (#[trigger] after.widgets[w]).is_some() implies
            after.widgets[v].unwrap().apart(after.widgets[w].unwrap()) by {
            assert(state.widgets[v].is_some() && state.widgets[w].is_some());
            assert(state.widgets[v].unwrap().apart(state.widgets[w].unwrap()));
            assert(state.links_valid(state.widgets[v].unwrap()));
            assert(state.links_valid(state.widgets[w].unwrap()));
        }
    } else {
        assert forall|w: int|
            0 <= w < after.widgets.len() && (#[trigger] after.widgets[w]).is_some() implies
            after.links_valid(after.widgets[w].unwrap()) by {
            assert(state.links_valid(state.widgets[w].unwrap()));
        }
    }
}

/// A widget to which a mouse button target component is attached has this
/// component afterwards, and the invariant is kept.
pub proof fn lemma_attach_mouse_button_target(
    state: ManagerView,
    id: WidgetId,
    component: Seq<Option<Listener>>,
)
    requires
        state.wf(),
        state.widget(id).is_some(),
        state.has_room_for(id),
    ensures
        state.attach_mouse_button_target(id, component).wf(),
        state.attach_mouse_button_target(id, component).widget(id).is_some(),
        state.attach_mouse_button_target(id, component).has_room_for(id),
        state.attach_mouse_button_target(id, component).mouse_button_target(id)
            == Ok::<Seq<Option<Listener>>, Error>(component),
{
    let after = state.attach_mouse_button_target(id, component);
    assert(state.widgets[id as int].is_some());
    assert(state.links_valid(state.widgets[id as int].unwrap()));
    if state.widgets[id as int].unwrap().mouse_button_target_id.is_none() {
        lemma_next_id(state.mouse_button_targets, next_id(state.mouse_button_targets));
        assert forall|w: int|
            0 <= w < after.widgets.len() && (#[trigger] after.widgets[w]).is_some() implies
            after.links_valid(after.widgets[w].unwrap()) by {
            assert(state.widgets[w].is_some());
            assert(state.links_valid(state.widgets[w].unwrap()));
        }
        assert forall|v: int, w: int|
            0 <= v < after.widgets.len() && 0 <= w < after.widgets.len() && v != w
                && (#[trigger] after.widgets[v]).is_some()
                && (#[trigger] after.widgets[w]).is_some() implies
            after.widgets[v].unwrap().apart(after.widgets[w].unwrap()) by {
            assert(state.widgets[v].is_some() && state.widgets[w].is_some());
            assert(state.widgets[v].unwrap().apart(state.widgets[w].unwrap()));
            assert(state.links_valid(state.widgets[v].unwrap()));
            assert(state.links_valid(state.widgets[w].unwrap()));
        }
    } else {
        assert forall|w: int|
            0 <= w < after.widgets.len() && (#[trigger] after.widgets[w]).is_some() implies
            after.links_valid(after.widgets[w].unwrap()) by {
            assert(state.links_valid(state.widgets[w].unwrap()));
        }
    }
}

/// A widget to which a mouse motion target component is attached has this
/// component afterwards, and the invariant is kept.
pub proof fn lemma_attach_mouse_motion_target(
    state: ManagerView,
    id: WidgetId,
    component: Seq<Option<Listener>>,
)
    requires
        state.wf(),
        state.widget(id).is_some(),
        state.has_room_for(id),
    ensures
        state.attach_mouse_motion_target(id, component).wf(),
        state.attach_mouse_motion_target(id, component).widget(id).is_some(),
        state.attach_mouse_motion_target(id, component).has_room_for(id),
        state.attach_mouse_motion_target(id, component).mouse_motion_target(id)
            == Ok::<Seq<Option<Listener>>, Error>(component),
{
    let after = state.attach_mouse_motion_target(id, component);
    assert(state.widgets[id as int].is_some());
    assert(state.links_valid(state.widgets[id as int].unwrap()));
    if state.widgets[id as int].unwrap().mouse_motion_target_id.is_none() {
        lemma_next_id(state.mouse_motion_targets, next_id(state.mouse_motion_targets));
        assert forall|w: int|
            0 <= w < after.widgets.len() && (#[trigger] after.widgets[w]).is_some() implies
            after.links_valid(after.widgets[w].unwrap()) by {
            assert(state.widgets[w].is_some());
            assert(state.links_valid(state.widgets[w].unwrap()));
        }
        assert forall|v: int, w: int|
            0 <= v < after.widgets.len() && 0 <= w < after.widgets.len() && v != w
                && (#[trigger] after.widgets[v]).is_some()
                && (#[trigger] after.widgets[w]).is_some() implies
            after.widgets[v].unwrap().apart(after.widgets[w].unwrap()) by {
            assert(state.widgets[v].is_some() && state.widgets[w].is_some());
            assert(state.widgets[v].unwrap().apart(state.widgets[w].unwrap()));
            assert(state.links_valid(state.widgets[v].unwrap()));
            assert(state.links_valid(state.widgets[w].unwrap()));
        }
    } else {
        assert forall|w: int|
            0 <= w < after.widgets.len() && (#[trigger] after.widgets[w]).is_some() implies
            after.links_valid(after.widgets[w].unwrap()) by {
            assert(state.links_valid(state.widgets[w].unwrap()));
        }
    }
}

/// A widget to which a mouse over target component is attached has this
/// component afterwards, and the invariant is kept.
pub proof fn lemma_attach_mouse_over_target(
    state: ManagerView,
    id: WidgetId,
    component: MouseOverView,
)
    requires
        state.wf(),
        state.widget(id).is_some(),
        state.has_room_for(id),
    ensures
        state.attach_mouse_over_target(id, component).wf(),
        state.attach_mouse_over_target(id, component).widget(id).is_some(),
        state.attach_mouse_over_target(id, component).has_room_for(id),
        state.attach_mouse_over_target(id, component).mouse_over_target(id)
            == Ok::<MouseOverView, Error>(component),
{
    let after = state.attach_mouse_over_target(id, component);
    assert(state.widgets[id as int].is_some());
    assert(state.links_valid(state.widgets[id as int].unwrap()));
    if state.widgets[id as int].unwrap().mouse_over_target_id.is_none() {
        lemma_next_id(state.mouse_over_targets, next_id(state.mouse_over_targets));
        assert forall|w: int|
            0 <= w < after.widgets.len() && (#[trigger] after.widgets[w]).is_some() implies
            after.links_valid(after.widgets[w].unwrap()) by {
            assert(state.widgets[w].is_some());
            assert(state.links_valid(state.widgets[w].unwrap()));
        }
        assert forall|v: int, w: int|
            0 <= v < after.widgets.len() && 0 <= w < after.widgets.len() && v != w
                && (#[trigger] after.widgets[v]).is_some()
                && (#[trigger] after.widgets[w]).is_some() implies
            after.widgets[v].unwrap().apart(after.widgets[w].unwrap()) by {
            assert(state.widgets[v].is_some() && state.widgets[w].is_some());
            assert(state.widgets[v].unwrap().apart(state.widgets[w].unwrap()));
            assert(state.links_valid(state.widgets[v].unwrap()));
            assert(state.links_valid(state.widgets[w].unwrap()));
        }
    } else {
        assert forall|w: int|
            0 <= w < after.widgets.len() && (#[trigger] after.widgets[w]).is_some() implies
            after.links_valid(after.widgets[w].unwrap()) by {
            assert(state.links_valid(state.widgets[w].unwrap()));
        }
    }
}

/// A widget to which a spatial component is attached has this component
/// afterwards, and the invariant is kept.
pub proof fn lemma_attach_spatial(state: ManagerView, id: WidgetId, component: SpatialView)
    requires
        state.wf(),
        state.widget(id).is_some(),
        state.has_room_for(id),
    ensures
        state.attach_spatial(id, component).wf(),
        state.attach_spatial(id, component).widget(id).is_some(),
        state.attach_spatial(id, component).has_room_for(id),
        state.attach_spatial(id, component).spatial(id) == Ok::<SpatialView, Error>(component),
{
    let after = state.attach_spatial(id, component);
    assert(state.widgets[id as int].is_some());
    assert(state.links_valid(state.widgets[id as int].unwrap()));
    if state.widgets[id as int].unwrap().spatial_id.is_none() {
        lemma_next_id(state.spatials, next_id(state.spatials));
        assert forall|w: int|
            0 <= w < after.widgets.len() && (#[trigger] after.widgets[w]).is_some() implies
            after.links_valid(after.widgets[w].unwrap()) by {
            assert(state.widgets[w].is_some());
            assert(state.links_valid(state.widgets[w].unwrap()));
        }
        assert forall|v: int, w: int|
            0 <= v < after.widgets.len() && 0 <= w < after.widgets.len() && v != w
                && (#[trigger] after.widgets[v]).is_some()
                && (#[trigger] after.widgets[w]).is_some() implies
            after.widgets[v].unwrap().apart(after.widgets[w].unwrap()) by {
            assert(state.widgets[v].is_some() && state.widgets[w].is_some());
            assert(state.widgets[v].unwrap().apart(state.widgets[w].unwrap()));
            assert(state.links_valid(state.widgets[v].unwrap()));
            assert(state.links_valid(state.widgets[w].unwrap()));
        }
    } else {
        assert forall|w: int|
            0 <= w < after.widgets.len() && (#[trigger] after.widgets[w]).is_some() implies
            after.links_valid(after.widgets[w].unwrap()) by {
            assert(state.links_valid(state.widgets[w].unwrap()));
        }
    }
}

/// Manages the widgets and their component
#[derive(Debug)]
pub struct Manager {
    /// All widgets managed by this instance
    widgets: Arena<Widget>,
    /// All buttons
    buttons: Arena<Button>,
    /// All widgets that can contain other widgets
    containers: Arena<Container>,
    /// All widgets that listen to mouse button events
    mouse_button_targets: Arena<MouseButtonTarget>,
    /// All widgets that listen to mouse motion events
    mouse_motion_targets: Arena<MouseMotionTarget>,
    /// All widgets that can be hovered over
    mouse_over_targets: Arena<MouseOverTarget>,
    /// All widgets that have spatial coordinates
    spatials: Arena<Spatial>,
    /// The events that were handed to the application
    reports: Vec<Report>,
}

impl View for Manager {
    type V = ManagerView;

    closed spec fn view(&self) -> ManagerView {
        ManagerView {
            widgets: self.widgets@,
            buttons: views(self.buttons@),
            containers: views(self.containers@),
            mouse_button_targets: views(self.mouse_button_targets@),
            mouse_motion_targets: views(self.mouse_motion_targets@),
            mouse_over_targets: views(self.mouse_over_targets@),
            spatials: views(self.spatials@),
            reports: self.reports@,
        }
    }
}

impl Manager {
    /// Whether the arenas and the components in them are well formed.
    pub closed spec fn parts_wf(&self) -> bool {
        &&& self.widgets.wf()
        &&& self.buttons.wf()
        &&& self.containers.wf()
        &&& self.mouse_button_targets.wf()
        &&& self.mouse_motion_targets.wf()
        &&& self.mouse_over_targets.wf()
        &&& self.spatials.wf()
        &&& forall|c: int|
            0 <= c < self.buttons@.len()
                && (#[trigger] self.buttons@[c]).is_some()
                ==> self.buttons@[c].unwrap().wf()
        &&& forall|c: int|
            0 <= c < self.mouse_button_targets@.len()
                && (#[trigger] self.mouse_button_targets@[c]).is_some()
                ==> self.mouse_button_targets@[c].unwrap().wf()
        &&& forall|c: int|
            0 <= c < self.mouse_motion_targets@.len()
                && (#[trigger] self.mouse_motion_targets@[c]).is_some()
                ==> self.mouse_motion_targets@[c].unwrap().wf()
        &&& forall|c: int|
            0 <= c < self.mouse_over_targets@.len()
                && (#[trigger] self.mouse_over_targets@[c]).is_some()
                ==> self.mouse_over_targets@[c].unwrap().wf()
        &&& forall|c: int|
            0 <= c < self.spatials@.len()
                && (#[trigger] self.spatials@[c]).is_some()
                ==> self.spatials@[c].unwrap().wf()
    }

    /// The invariant of the manager.
    pub open spec fn wf(&self) -> bool {
        self.parts_wf() && self@.wf()
    }

    /// Creates a manager without widgets
    pub fn new() -> (manager: Manager)
        ensures
            manager.wf(),
            manager@ == (ManagerView {
                widgets: Seq::empty(),
                buttons: Seq::empty(),
                containers: Seq::empty(),
                mouse_button_targets: Seq::empty(),
                mouse_motion_targets: Seq::empty(),
                mouse_over_targets: Seq::empty(),
                spatials: Seq::empty(),
                reports: Seq::empty(),
            }),
    {
        let manager = Manager {
            widgets: Arena::new(),
            buttons: Arena::new(),
            containers: Arena::new(),
            mouse_button_targets: Arena::new(),
            mouse_motion_targets: Arena::new(),
            mouse_over_targets: Arena::new(),
            spatials: Arena::new(),
            reports: Vec::new(),
        };
        assert(manager@.agrees(
            ManagerView {
                widgets: Seq::empty(),
                buttons: Seq::empty(),
                containers: Seq::empty(),
                mouse_button_targets: Seq::empty(),
                mouse_motion_targets: Seq::empty(),
                mouse_over_targets: Seq::empty(),
                spatials: Seq::empty(),
                reports: Seq::empty(),
            },
        ));
        manager
    }

    /// Whether there is a widget under the id
    pub fn has_widget(&self, id: WidgetId) -> (r: bool)
        ensures
            r == self@.widget(id).is_some(),
    {
        self.widgets.get(id).is_some()
    }

    /// Lets every component forget a widget: its handlers leave the
    /// registries, and its columns the containers
    fn forget(&mut self, id: WidgetId)
        requires
            old(self).wf(),
        ensures
            final(self).wf(),
            final(self)@ == old(self)@.forgetting(id),
    {
        forget_in_buttons(&mut self.buttons, id);
        forget_in_containers(&mut self.containers, id);
        forget_in_mouse_button_targets(&mut self.mouse_button_targets, id);
        forget_in_mouse_motion_targets(&mut self.mouse_motion_targets, id);
        forget_in_mouse_over_targets(&mut self.mouse_over_targets, id);
        forget_in_spatials(&mut self.spatials, id);
        proof {
            let before = old(self)@;
            let after = self@;
            assert(after.agrees(before.forgetting(id)));
            assert forall|w: int|
                0 <= w < after.widgets.len() && (#[trigger] after.widgets[w]).is_some() implies
                after.links_valid(after.widgets[w].unwrap()) by {
                assert(before.links_valid(before.widgets[w].unwrap()));
            }
        }
    }

    /// Takes a widget out and releases all of its components
    fn release_widget(&mut self, id: WidgetId) -> (r: Result<(), Error>)
        requires
            old(self).wf(),
        ensures
            final(self).wf(),
            final(self)@ == old(self)@.released_widget(id),
            r == (match old(self)@.widget(id) {
                Some(_) => Ok::<(), Error>(()),
                None => Err(Error::NoWidget),
            }),
    {
        let widget = match self.widgets.remove(id) {
            Some(widget) => widget,
            None => {
                return Err(Error::NoWidget);
            },
        };
        proof {
            assert(old(self)@.widgets[id as int] == Some(widget));
            assert(old(self)@.links_valid(widget));
        }
        release(&mut self.buttons, widget.button_id);
        release(&mut self.containers, widget.container_id);
        release(&mut self.mouse_button_targets, widget.mouse_button_target_id);
        release(&mut self.mouse_motion_targets, widget.mouse_motion_target_id);
        release(&mut self.mouse_over_targets, widget.mouse_over_target_id);
        release(&mut self.spatials, widget.spatial_id);
        proof {
            lemma_released_widget_wf(old(self)@, id);
            assert(self@.agrees(old(self)@.released_widget(id)));
        }
        Ok(())
    }
}

/// A context for widget and component actions: the manager, and the widget
/// that is currently being acted upon
#[derive(Debug)]
pub struct Context {
    /// The underlying manager
    manager: Manager,
    /// The widget ID
    widget_id: WidgetId,
}

impl View for Context {
    type V = ManagerView;

    /// The state of the manager.
    closed spec fn view(&self) -> ManagerView {
        self.manager@
    }
}

impl Context {
    /// The invariant of the context: that of its manager.
    pub closed spec fn wf(&self) -> bool {
        self.manager.wf()
    }

    /// The ID of the widget currently being acted upon.
    pub closed spec fn current(&self) -> WidgetId {
        self.widget_id
    }

    /// The invariant of the context holds of its state.
    pub proof fn lemma_wf(&self)
        requires
            self.wf(),
        ensures
            self@.wf(),
    {
    }

    /// Creates a context for the widgets of a manager
    pub fn new(manager: Manager) -> (context: Context)
        requires
            manager.wf(),
        ensures
            context.wf(),
            context@ == manager@,
            context.current() == 0,
    {
        Context { manager, widget_id: 0 }
    }

    /// Gives the manager back
    pub fn into_manager(self) -> (manager: Manager)
        requires
            self.wf(),
        ensures
            manager.wf(),
            manager@ == self@,
    {
        self.manager
    }

    /// The ID of the widget currently being acted upon
    pub fn widget_id(&self) -> (id: WidgetId)
        ensures
            id == self.current(),
    {
        self.widget_id
    }

    /// Turns to another widget
    pub fn focus(&mut self, widget_id: WidgetId)
        requires
            old(self).wf(),
        ensures
            final(self).wf(),
            final(self)@ == old(self)@,
            final(self).current() == widget_id,
    {
        self.widget_id = widget_id;
    }

    /// Whether there is a widget under the id
    pub fn has_widget(&self, id: WidgetId) -> (r: bool)
        ensures
            r == self@.widget(id).is_some(),
    {
        self.manager.has_widget(id)
    }

    /// Removes a widget and releases all of its components. No component
    /// of another widget knows of the widget afterwards: its handlers are
    /// taken out of all registries, and its columns out of all containers
    pub fn remove_widget(&mut self, id: WidgetId) -> (r: Result<(), Error>)
        requires
            old(self).wf(),
        ensures
            final(self).wf(),
            final(self).current() == old(self).current(),
            final(self)@ == old(self)@.without_widget(id),
            r == (match old(self)@.widget(id) {
                Some(_) => Ok::<(), Error>(()),
                None => Err(Error::NoWidget),
            }),
    {
        match self.manager.release_widget(id) {
            Ok(()) => {
                self.manager.forget(id);
                Ok(())
            },
            Err(error) => Err(error),
        }
    }

    /// Schedules an action
    pub fn schedule(&self, target_id: WidgetId, action: Action, scheduler: &mut Scheduler)
        ensures
            final(scheduler)@ == old(scheduler)@.push(
                ScheduledAction { source_id: self.current(), target_id, action },
            ),
    {
        scheduler.schedule(ScheduledAction { source_id: self.widget_id, target_id, action });
    }

    /// Schedules an action on the same widget
    pub fn schedule_for_self(&self, action: Action, scheduler: &mut Scheduler)
        ensures
            final(scheduler)@ == old(scheduler)@.push(
                ScheduledAction {
                    source_id: self.current(),
                    target_id: self.current(),
                    action,
                },
            ),
    {
        self.schedule(self.widget_id, action, scheduler);
    }

    /// Hands an event to the application
    pub fn report(&mut self, report: Report)
        requires
            old(self).wf(),
        ensures
            final(self).wf(),
            final(self).current() == old(self).current(),
            final(self)@ == old(self)@.with_report(report),
    {
        self.manager.reports.push(report);
        assert(self@.agrees(old(self)@.with_report(report)));
    }

    /// Takes the events that were handed to the application since they were
    /// last taken
    pub fn take_reports(&mut self) -> (reports: Vec<Report>)
        requires
            old(self).wf(),
        ensures
            final(self).wf(),
            final(self).current() == old(self).current(),
            reports@ == old(self)@.reports,
            final(self)@ == (ManagerView { reports: Seq::empty(), ..old(self)@ }),
    {
        let mut reports: Vec<Report> = Vec::new();
        core::mem::swap(&mut reports, &mut self.manager.reports);
        assert(self@.agrees(ManagerView { reports: Seq::empty(), ..old(self)@ }));
        reports
    }

    /// Gets a reference to the button component of a widget
    pub fn button(&self, widget_id: WidgetId) -> (r: Result<&Button, Error>)
        requires
            self.wf(),
        ensures
            match r {
                Ok(button) => {
                    &&& self@.button(widget_id) == Ok::<ButtonView, Error>(button@)
                    &&& button.wf()
                },
                Err(e) => self@.button(widget_id) == Err::<ButtonView, Error>(e),
            },
    {
        let link = match self.manager.widgets.get(widget_id) {
            Some(widget) => widget.button_id,
            None => {
                return Err(Error::NoWidget);
            },
        };
        match link {
            Some(id) => match self.manager.buttons.get(id) {
                Some(button) => Ok(button),
                None => Err(Error::NoComponent),
            },
            None => Err(Error::NoComponent),
        }
    }

    /// Gets a mutable reference to the button component of a widget
    pub fn button_mut(&mut self, widget_id: WidgetId) -> (r: Result<&mut Button, Error>)
        requires
            old(self).wf(),
        ensures
            final(self).current() == old(self).current(),
            match r {
                Ok(button) => {
                    &&& old(self)@.button(widget_id) == Ok::<ButtonView, Error>(button@)
                    &&& button.wf()
                    &&& final(self)@.agrees(
                        old(self)@.with_button(widget_id, final(button)@),
                    )
                    &&& final(button).wf() ==> final(self).wf()
                },
                Err(e) => {
                    &&& old(self)@.button(widget_id) == Err::<ButtonView, Error>(e)
                    &&& final(self)@ == old(self)@
                    &&& final(self).wf()
                },
            },
    {
        let link = match self.manager.widgets.get(widget_id) {
            Some(widget) => widget.button_id,
            None => {
                return Err(Error::NoWidget);
            },
        };
        match link {
            Some(id) => match self.manager.buttons.get_mut(id) {
                Some(button) => Ok(button),
                None => Err(Error::NoComponent),
            },
            None => Err(Error::NoComponent),
        }
    }

    /// Gets a reference to the container component of a widget
    pub fn container(&self, widget_id: WidgetId) -> (r: Result<&Container, Error>)
        requires
            self.wf(),
        ensures
            match r {
                Ok(container) => {
                    &&& self@.container(widget_id) == Ok::<ContainerView, Error>(container@)
                },
                Err(e) => self@.container(widget_id) == Err::<ContainerView, Error>(e),
            },
    {
        let link = match self.manager.widgets.get(widget_id) {
            Some(widget) => widget.container_id,
            None => {
                return Err(Error::NoWidget);
            },
        };
        match link {
            Some(id) => match self.manager.containers.get(id) {
                Some(container) => Ok(container),
                None => Err(Error::NoComponent),
            },
            None => Err(Error::NoComponent),
        }
    }

    /// Gets a mutable reference to the container component of a widget
    pub fn container_mut(&mut self, widget_id: WidgetId) -> (r: Result<&mut Container, Error>)
        requires
            old(self).wf(),
        ensures
            final(self).current() == old(self).current(),
            match r {
                Ok(container) => {
                    &&& old(self)@.container(widget_id) == Ok::<ContainerView, Error>(container@)
                    &&& final(self)@.agrees(
                        old(self)@.with_container(widget_id, final(container)@),
                    )
                    &&& final(self).wf()
                },
                Err(e) => {
                    &&& old(self)@.container(widget_id) == Err::<ContainerView, Error>(e)
                    &&& final(self)@ == old(self)@
                    &&& final(self).wf()
                },
            },
    {
        let link = match self.manager.widgets.get(widget_id) {
            Some(widget) => widget.container_id,
            None => {
                return Err(Error::NoWidget);
            },
        };
        match link {
            Some(id) => match self.manager.containers.get_mut(id) {
                Some(container) => Ok(container),
                None => Err(Error::NoComponent),
            },
            None => Err(Error::NoComponent),
        }
    }

    /// Gets a reference to the mouse button target component of a widget
    pub fn mouse_button_target(&self, widget_id: WidgetId) -> (r: Result<&MouseButtonTarget, Error>)
        requires
            self.wf(),
        ensures
            match r {
                Ok(mouse_button_target) => {
                    &&& self@.mouse_button_target(widget_id)
                        == Ok::<Seq<Option<Listener>>, Error>(mouse_button_target@)
                    &&& mouse_button_target.wf()
                },
                Err(e) => self@.mouse_button_target(widget_id)
                    == Err::<Seq<Option<Listener>>, Error>(e),
            },
    {
        let link = match self.manager.widgets.get(widget_id) {
            Some(widget) => widget.mouse_button_target_id,
            None => {
                return Err(Error::NoWidget);
            },
        };
        match link {
            Some(id) => match self.manager.mouse_button_targets.get(id) {
                Some(mouse_button_target) => Ok(mouse_button_target),
                None => Err(Error::NoComponent),
            },
            None => Err(Error::NoComponent),
        }
    }

    /// Gets a mutable reference to the mouse button target component of a widget
    pub fn mouse_button_target_mut(
        &mut self,
        widget_id: WidgetId,
    ) -> (r: Result<&mut MouseButtonTarget, Error>)
        requires
            old(self).wf(),
        ensures
            final(self).current() == old(self).current(),
            match r {
                Ok(mouse_button_target) => {
                    &&& old(self)@.mouse_button_target(widget_id)
                        == Ok::<Seq<Option<Listener>>, Error>(mouse_button_target@)
                    &&& mouse_button_target.wf()
                    &&& final(self)@.agrees(
                        old(self)@.with_mouse_button_target(widget_id, final(mouse_button_target)@),
                    )
                    &&& final(mouse_button_target).wf() ==> final(self).wf()
                },
                Err(e) => {
                    &&& old(self)@.mouse_button_target(widget_id)
                        == Err::<Seq<Option<Listener>>, Error>(e)
                    &&& final(self)@ == old(self)@
                    &&& final(self).wf()
                },
            },
    {
        let link = match self.manager.widgets.get(widget_id) {
            Some(widget) => widget.mouse_button_target_id,
            None => {
                return Err(Error::NoWidget);
            },
        };
        match link {
            Some(id) => match self.manager.mouse_button_targets.get_mut(id) {
                Some(mouse_button_target) => Ok(mouse_button_target),
                None => Err(Error::NoComponent),
            },
            None => Err(Error::NoComponent),
        }
    }

    /// Gets a reference to the mouse motion target component of a widget
    pub fn mouse_motion_target(&self, widget_id: WidgetId) -> (r: Result<&MouseMotionTarget, Error>)
        requires
            self.wf(),
        ensures
            match r {
                Ok(mouse_motion_target) => {
                    &&& self@.mouse_motion_target(widget_id)
                        == Ok::<Seq<Option<Listener>>, Error>(mouse_motion_target@)
                    &&& mouse_motion_target.wf()
                },
                Err(e) => self@.mouse_motion_target(widget_id)
                    == Err::<Seq<Option<Listener>>, Error>(e),
            },
    {
        let link = match self.manager.widgets.get(widget_id) {
            Some(widget) => widget.mouse_motion_target_id,
            None => {
                return Err(Error::NoWidget);
            },
        };
        match link {
            Some(id) => match self.manager.mouse_motion_targets.get(id) {
                Some(mouse_motion_target) => Ok(mouse_motion_target),
                None => Err(Error::NoComponent),
            },
            None => Err(Error::NoComponent),
        }
    }

    /// Gets a mutable reference to the mouse motion target component of a widget
    pub fn mouse_motion_target_mut(
        &mut self,
        widget_id: WidgetId,
    ) -> (r: Result<&mut MouseMotionTarget, Error>)
        requires
            old(self).wf(),
        ensures
            final(self).current() == old(self).current(),
            match r {
                Ok(mouse_motion_target) => {
                    &&& old(self)@.mouse_motion_target(widget_id)
                        == Ok::<Seq<Option<Listener>>, Error>(mouse_motion_target@)
                    &&& mouse_motion_target.wf()
                    &&& final(self)@.agrees(
                        old(self)@.with_mouse_motion_target(widget_id, final(mouse_motion_target)@),
                    )
                    &&& final(mouse_motion_target).wf() ==> final(self).wf()
                },
                Err(e) => {
                    &&& old(self)@.mouse_motion_target(widget_id)
                        == Err::<Seq<Option<Listener>>, Error>(e)
                    &&& final(self)@ == old(self)@
                    &&& final(self).wf()
                },
            },
    {
        let link = match self.manager.widgets.get(widget_id) {
            Some(widget) => widget.mouse_motion_target_id,
            None => {
                return Err(Error::NoWidget);
            },
        };
        match link {
            Some(id) => match self.manager.mouse_motion_targets.get_mut(id) {
                Some(mouse_motion_target) => Ok(mouse_motion_target),
                None => Err(Error::NoComponent),
            },
            None => Err(Error::NoComponent),
        }
    }

    /// Gets a reference to the mouse over target component of a widget
    pub fn mouse_over_target(&self, widget_id: WidgetId) -> (r: Result<&MouseOverTarget, Error>)
        requires
            self.wf(),
        ensures
            match r {
                Ok(mouse_over_target) => {
                    &&& self@.mouse_over_target(widget_id)
                        == Ok::<MouseOverView, Error>(mouse_over_target@)
                    &&& mouse_over_target.wf()
                },
                Err(e) => self@.mouse_over_target(widget_id) == Err::<MouseOverView, Error>(e),
            },
    {
        let link = match self.manager.widgets.get(widget_id) {
            Some(widget) => widget.mouse_over_target_id,
            None => {
                return Err(Error::NoWidget);
            },
        };
        match link {
            Some(id) => match self.manager.mouse_over_targets.get(id) {
                Some(mouse_over_target) => Ok(mouse_over_target),
                None => Err(Error::NoComponent),
            },
            None => Err(Error::NoComponent),
        }
    }

    /// Gets a mutable reference to the mouse over target component of a widget
    pub fn mouse_over_target_mut(
        &mut self,
        widget_id: WidgetId,
    ) -> (r: Result<&mut MouseOverTarget, Error>)
        requires
            old(self).wf(),
        ensures
            final(self).current() == old(self).current(),
            match r {
                Ok(mouse_over_target) => {
                    &&& old(self)@.mouse_over_target(widget_id)
                        == Ok::<MouseOverView, Error>(mouse_over_target@)
                    &&& mouse_over_target.wf()
                    &&& final(self)@.agrees(
                        old(self)@.with_mouse_over_target(widget_id, final(mouse_over_target)@),
                    )
                    &&& final(mouse_over_target).wf() ==> final(self).wf()
                },
                Err(e) => {
                    &&& old(self)@.mouse_over_target(widget_id) == Err::<MouseOverView, Error>(e)
                    &&& final(self)@ == old(self)@
                    &&& final(self).wf()
                },
            },
    {
        let link = match self.manager.widgets.get(widget_id) {
            Some(widget) => widget.mouse_over_target_id,
            None => {
                return Err(Error::NoWidget);
            },
        };
        match link {
            Some(id) => match self.manager.mouse_over_targets.get_mut(id) {
                Some(mouse_over_target) => Ok(mouse_over_target),
                None => Err(Error::NoComponent),
            },
            None => Err(Error::NoComponent),
        }
    }

    /// Gets a reference to the spatial component of a widget
    pub fn spatial(&self, widget_id: WidgetId) -> (r: Result<&Spatial, Error>)
        requires
            self.wf(),
        ensures
            match r {
                Ok(spatial) => {
                    &&& self@.spatial(widget_id) == Ok::<SpatialView, Error>(spatial@)
                    &&& spatial.wf()
                },
                Err(e) => self@.spatial(widget_id) == Err::<SpatialView, Error>(e),
            },
    {
        let link = match self.manager.widgets.get(widget_id) {
            Some(widget) => widget.spatial_id,
            None => {
                return Err(Error::NoWidget);
            },
        };
        match link {
            Some(id) => match self.manager.spatials.get(id) {
                Some(spatial) => Ok(spatial),
                None => Err(Error::NoComponent),
            },
            None => Err(Error::NoComponent),
        }
    }

    /// Gets a mutable reference to the spatial component of a widget
    pub fn spatial_mut(&mut self, widget_id: WidgetId) -> (r: Result<&mut Spatial, Error>)
        requires
            old(self).wf(),
        ensures
            final(self).current() == old(self).current(),
            match r {
                Ok(spatial) => {
                    &&& old(self)@.spatial(widget_id) == Ok::<SpatialView, Error>(spatial@)
                    &&& spatial.wf()
                    &&& final(self)@.agrees(
                        old(self)@.with_spatial(widget_id, final(spatial)@),
                    )
                    &&& final(spatial).wf() ==> final(self).wf()
                },
                Err(e) => {
                    &&& old(self)@.spatial(widget_id) == Err::<SpatialView, Error>(e)
                    &&& final(self)@ == old(self)@
                    &&& final(self).wf()
                },
            },
    {
        let link = match self.manager.widgets.get(widget_id) {
            Some(widget) => widget.spatial_id,
            None => {
                return Err(Error::NoWidget);
            },
        };
        match link {
            Some(id) => match self.manager.spatials.get_mut(id) {
                Some(spatial) => Ok(spatial),
                None => Err(Error::NoComponent),
            },
            None => Err(Error::NoComponent),
        }
    }

}

/// A builder for a widget: it adds a widget to a manager, and attaches
/// components to it
#[derive(Debug)]
pub struct WidgetBuilder {
    /// The manager, and the widget that is built
    context: Context,
}

impl View for WidgetBuilder {
    type V = ManagerView;

    /// The state of the manager.
    closed spec fn view(&self) -> ManagerView {
        self.context@
    }
}

impl WidgetBuilder {
    /// The ID of the widget that is built.
    pub closed spec fn current(&self) -> WidgetId {
        self.context.current()
    }

    /// The invariant of the builder: that of its manager, and the widget
    /// that is built exists.
    pub closed spec fn wf(&self) -> bool {
        &&& self.context.wf()
        &&& self.context@.widget(self.context.current()).is_some()
    }

    /// The invariant of the builder holds of its state, and its widget
    /// exists.
    pub proof fn lemma_wf(&self)
        requires
            self.wf(),
        ensures
            self@.wf(),
            self@.widget(self.current()).is_some(),
    {
    }

    /// Adds a widget without components to the manager, and creates the
    /// builder for it
    pub fn new(manager: Manager) -> (builder: WidgetBuilder)
        requires
            manager.wf(),
        ensures
            builder.wf(),
            builder.current() == next_id(manager@.widgets),
            builder@ == manager@.with_widget(builder.current()),
    {
        let mut manager = manager;
        let ghost before = manager@;
        let widget_id = manager.widgets.insert(
            Widget {
                button_id: None,
                container_id: None,
                mouse_button_target_id: None,
                mouse_motion_target_id: None,
                mouse_over_target_id: None,
                spatial_id: None,
            },
        );
        proof {
            assert(manager@.agrees(before.with_widget(widget_id)));
            let after = manager@;
            assert forall|v: int, w: int|
                0 <= v < after.widgets.len() && 0 <= w < after.widgets.len() && v != w
                    && (#[trigger] after.widgets[v]).is_some()
                    && (#[trigger] after.widgets[w]).is_some() implies
                after.widgets[v].unwrap().apart(after.widgets[w].unwrap()) by {
                if v != widget_id && w != widget_id {
                    assert(before.widgets[v].is_some() && before.widgets[w].is_some());
                }
            }
            assert forall|w: int|
                0 <= w < after.widgets.len() && (#[trigger] after.widgets[w]).is_some() implies
                after.links_valid(after.widgets[w].unwrap()) by {
                if w != widget_id {
                    assert(before.widgets[w].is_some());
                }
            }
        }
        WidgetBuilder { context: Context { manager, widget_id } }
    }

    /// Ends the building: gives the manager back, and the id of the widget
    pub fn build(self) -> (r: (Manager, WidgetId))
        requires
            self.wf(),
        ensures
            r.0.wf(),
            r.0@ == self@,
            r.1 == self.current(),
            r.0@.widget(r.1).is_some(),
    {
        let widget_id = self.context.widget_id;
        (self.context.manager, widget_id)
    }

    /// The ID of the widget that is built
    pub fn widget_id(&self) -> (id: WidgetId)
        ensures
            id == self.current(),
    {
        self.context.widget_id
    }

    /// Checks whether the widget has a button component
    pub fn has_button(&self) -> (r: Result<bool, Error>)
        requires
            self.wf(),
        ensures
            r == Ok::<bool, Error>(self@.button(self.current()).is_ok()),
    {
        match self.context.manager.widgets.get(self.context.widget_id) {
            Some(widget) => Ok(widget.button_id.is_some()),
            None => Err(Error::NoWidget),
        }
    }

    /// Gives the widget a button component; where it has one already, the
    /// new one takes its place
    pub fn set_button(&mut self, button: Button) -> (r: Result<(), Error>)
        requires
            old(self).wf(),
            button.wf(),
        ensures
            final(self).wf(),
            final(self).current() == old(self).current(),
            r == Ok::<(), Error>(()),
            final(self)@ == old(self)@.attach_button(old(self).current(), button@),
            final(self)@.button(old(self).current()) == Ok::<ButtonView, Error>(button@),
    {
        let widget_id = self.context.widget_id;
        let ghost before = self@;
        let ghost view = button@;
        proof {
            assert(before.widgets[widget_id as int].is_some());
            assert(before.links_valid(before.widgets[widget_id as int].unwrap()));
        }
        let link = match self.context.manager.widgets.get(widget_id) {
            Some(widget) => widget.button_id,
            None => {
                return Err(Error::NoWidget);
            },
        };
        match link {
            Some(id) => {
                match self.context.manager.buttons.get_mut(id) {
                    Some(slot) => {
                        *slot = button;
                    },
                    None => {},
                }
                proof {
                    assert(self@.buttons =~= before.buttons.update(
                        id as int,
                        Some(view),
                    ));
                    assert(self@.agrees(before.with_button(widget_id, view)));
                }
            },
            None => {
                let ghost slots = self.context.manager.buttons@;
                let id = self.context.manager.buttons.insert(button);
                match self.context.manager.widgets.get_mut(widget_id) {
                    Some(widget) => {
                        widget.button_id = Some(id);
                    },
                    None => {},
                }
                proof {
                    lemma_views_insert_at(slots, id as int, button);
                    assert(is_next_id(before.buttons, id as int));
                    lemma_next_id(before.buttons, id as int);
                    assert(self@.agrees(before.with_new_button(widget_id, id, view)));
                    let after = self@;
                    assert forall|w: int|
                        0 <= w < after.widgets.len() && (#[trigger] after.widgets[w]).is_some()
                        implies after.links_valid(after.widgets[w].unwrap()) by {
                        assert(before.widgets[w].is_some());
                        assert(before.links_valid(before.widgets[w].unwrap()));
                    }
                    assert forall|v: int, w: int|
                        0 <= v < after.widgets.len() && 0 <= w < after.widgets.len() && v != w
                            && (#[trigger] after.widgets[v]).is_some()
                            && (#[trigger] after.widgets[w]).is_some() implies
                        after.widgets[v].unwrap().apart(after.widgets[w].unwrap()) by {
                        assert(before.widgets[v].is_some() && before.widgets[w].is_some());
                        assert(before.widgets[v].unwrap().apart(before.widgets[w].unwrap()));
                        assert(before.links_valid(before.widgets[v].unwrap()));
                        assert(before.links_valid(before.widgets[w].unwrap()));
                    }
                }
            },
        }
        Ok(())
    }

    /// Gets a mutable reference to the button component of the widget
    pub fn button_mut(&mut self) -> (r: Result<&mut Button, Error>)
        requires
            old(self).wf(),
        ensures
            final(self).current() == old(self).current(),
            match r {
                Ok(button) => {
                    &&& old(self)@.button(old(self).current())
                        == Ok::<ButtonView, Error>(button@)
                    &&& button.wf()
                    &&& final(self)@.agrees(
                        old(self)@.with_button(old(self).current(), final(button)@),
                    )
                    &&& final(button).wf() ==> final(self).wf()
                },
                Err(e) => {
                    &&& old(self)@.button(old(self).current()) == Err::<ButtonView, Error>(e)
                    &&& final(self)@ == old(self)@
                    &&& final(self).wf()
                },
            },
    {
        let widget_id = self.context.widget_id;
        self.context.button_mut(widget_id)
    }

    /// Checks whether the widget has a container component
    pub fn has_container(&self) -> (r: Result<bool, Error>)
        requires
            self.wf(),
        ensures
            r == Ok::<bool, Error>(self@.container(self.current()).is_ok()),
    {
        match self.context.manager.widgets.get(self.context.widget_id) {
            Some(widget) => Ok(widget.container_id.is_some()),
            None => Err(Error::NoWidget),
        }
    }

    /// Gives the widget a container component; where it has one already, the
    /// new one takes its place
    pub fn set_container(&mut self, container: Container) -> (r: Result<(), Error>)
        requires
            old(self).wf(),
        ensures
            final(self).wf(),
            final(self).current() == old(self).current(),
            r == Ok::<(), Error>(()),
            final(self)@ == old(self)@.attach_container(old(self).current(), container@),
            final(self)@.container(old(self).current()) == Ok::<ContainerView, Error>(container@),
    {
        let widget_id = self.context.widget_id;
        let ghost before = self@;
        let ghost view = container@;
        proof {
            assert(before.widgets[widget_id as int].is_some());
            assert(before.links_valid(before.widgets[widget_id as int].unwrap()));
        }
        let link = match self.context.manager.widgets.get(widget_id) {
            Some(widget) => widget.container_id,
            None => {
                return Err(Error::NoWidget);
            },
        };
        match link {
            Some(id) => {
                match self.context.manager.containers.get_mut(id) {
                    Some(slot) => {
                        *slot = container;
                    },
                    None => {},
                }
                proof {
                    assert(self@.containers =~= before.containers.update(
                        id as int,
                        Some(view),
                    ));
                    assert(self@.agrees(before.with_container(widget_id, view)));
                }
            },
            None => {
                let ghost slots = self.context.manager.containers@;
                let id = self.context.manager.containers.insert(container);
                match self.context.manager.widgets.get_mut(widget_id) {
                    Some(widget) => {
                        widget.container_id = Some(id);
                    },
                    None => {},
                }
                proof {
                    lemma_views_insert_at(slots, id as int, container);
                    assert(is_next_id(before.containers, id as int));
                    lemma_next_id(before.containers, id as int);
                    assert(self@.agrees(before.with_new_container(widget_id, id, view)));
                    let after = self@;
                    assert forall|w: int|
                        0 <= w < after.widgets.len() && (#[trigger] after.widgets[w]).is_some()
                        implies after.links_valid(after.widgets[w].unwrap()) by {
                        assert(before.widgets[w].is_some());
                        assert(before.links_valid(before.widgets[w].unwrap()));
                    }
                    assert forall|v: int, w: int|
                        0 <= v < after.widgets.len() && 0 <= w < after.widgets.len() && v != w
                            && (#[trigger] after.widgets[v]).is_some()
                            && (#[trigger] after.widgets[w]).is_some() implies
                        after.widgets[v].unwrap().apart(after.widgets[w].unwrap()) by {
                        assert(before.widgets[v].is_some() && before.widgets[w].is_some());
                        assert(before.widgets[v].unwrap().apart(before.widgets[w].unwrap()));
                        assert(before.links_valid(before.widgets[v].unwrap()));
                        assert(before.links_valid(before.widgets[w].unwrap()));
                    }
                }
            },
        }
        Ok(())
    }

    /// Gets a mutable reference to the container component of the widget
    pub fn container_mut(&mut self) -> (r: Result<&mut Container, Error>)
        requires
            old(self).wf(),
        ensures
            final(self).current() == old(self).current(),
            match r {
                Ok(container) => {
                    &&& old(self)@.container(old(self).current())
                        == Ok::<ContainerView, Error>(container@)
                    &&& final(self)@.agrees(
                        old(self)@.with_container(old(self).current(), final(container)@),
                    )
                    &&& final(self).wf()
                },
                Err(e) => {
                    &&& old(self)@.container(old(self).current()) == Err::<ContainerView, Error>(e)
                    &&& final(self)@ == old(self)@
                    &&& final(self).wf()
                },
            },
    {
        let widget_id = self.context.widget_id;
        self.context.container_mut(widget_id)
    }

    /// Checks whether the widget has a mouse button target component
    pub fn has_mouse_button_target(&self) -> (r: Result<bool, Error>)
        requires
            self.wf(),
        ensures
            r == Ok::<bool, Error>(self@.mouse_button_target(self.current()).is_ok()),
    {
        match self.context.manager.widgets.get(self.context.widget_id) {
            Some(widget) => Ok(widget.mouse_button_target_id.is_some()),
            None => Err(Error::NoWidget),
        }
    }

    /// Gives the widget a mouse button target component; where it has one already, the
    /// new one takes its place
    pub fn set_mouse_button_target(
        &mut self,
        mouse_button_target: MouseButtonTarget,
    ) -> (r: Result<(), Error>)
        requires
            old(self).wf(),
            mouse_button_target.wf(),
        ensures
            final(self).wf(),
            final(self).current() == old(self).current(),
            r == Ok::<(), Error>(()),
            final(self)@
                == old(self)@.attach_mouse_button_target(old(self).current(), mouse_button_target@),
            final(self)@.mouse_button_target(old(self).current())
                == Ok::<Seq<Option<Listener>>, Error>(mouse_button_target@),
    {
        let widget_id = self.context.widget_id;
        let ghost before = self@;
        let ghost view = mouse_button_target@;
        proof {
            assert(before.widgets[widget_id as int].is_some());
            assert(before.links_valid(before.widgets[widget_id as int].unwrap()));
        }
        let link = match self.context.manager.widgets.get(widget_id) {
            Some(widget) => widget.mouse_button_target_id,
            None => {
                return Err(Error::NoWidget);
            },
        };
        match link {
            Some(id) => {
                match self.context.manager.mouse_button_targets.get_mut(id) {
                    Some(slot) => {
                        *slot = mouse_button_target;
                    },
                    None => {},
                }
                proof {
                    assert(self@.mouse_button_targets =~= before.mouse_button_targets.update(
                        id as int,
                        Some(view),
                    ));
                    assert(self@.agrees(before.with_mouse_button_target(widget_id, view)));
                }
            },
            None => {
                let ghost slots = self.context.manager.mouse_button_targets@;
                let id = self.context.manager.mouse_button_targets.insert(mouse_button_target);
                match self.context.manager.widgets.get_mut(widget_id) {
                    Some(widget) => {
                        widget.mouse_button_target_id = Some(id);
                    },
                    None => {},
                }
                proof {
                    lemma_views_insert_at(slots, id as int, mouse_button_target);
                    assert(is_next_id(before.mouse_button_targets, id as int));
                    lemma_next_id(before.mouse_button_targets, id as int);
                    assert(self@.agrees(before.with_new_mouse_button_target(widget_id, id, view)));
                    let after = self@;
                    assert forall|w: int|
                        0 <= w < after.widgets.len() && (#[trigger] after.widgets[w]).is_some()
                        implies after.links_valid(after.widgets[w].unwrap()) by {
                        assert(before.widgets[w].is_some());
                        assert(before.links_valid(before.widgets[w].unwrap()));
                    }
                    assert forall|v: int, w: int|
                        0 <= v < after.widgets.len() && 0 <= w < after.widgets.len() && v != w
                            && (#[trigger] after.widgets[v]).is_some()
                            && (#[trigger] after.widgets[w]).is_some() implies
                        after.widgets[v].unwrap().apart(after.widgets[w].unwrap()) by {
                        assert(before.widgets[v].is_some() && before.widgets[w].is_some());
                        assert(before.widgets[v].unwrap().apart(before.widgets[w].unwrap()));
                        assert(before.links_valid(before.widgets[v].unwrap()));
                        assert(before.links_valid(before.widgets[w].unwrap()));
                    }
                }
            },
        }
        Ok(())
    }

    /// Gets a mutable reference to the mouse button target component of the widget
    pub fn mouse_button_target_mut(&mut self) -> (r: Result<&mut MouseButtonTarget, Error>)
        requires
            old(self).wf(),
        ensures
            final(self).current() == old(self).current(),
            match r {
                Ok(mouse_button_target) => {
                    &&& old(self)@.mouse_button_target(old(self).current())
                        == Ok::<Seq<Option<Listener>>, Error>(mouse_button_target@)
                    &&& mouse_button_target.wf()
                    &&& final(self)@.agrees(
                        old(self)@.with_mouse_button_target(
                            old(self).current(),
                            final(mouse_button_target)@,
                        ),
                    )
                    &&& final(mouse_button_target).wf() ==> final(self).wf()
                },
                Err(e) => {
                    &&& old(self)@.mouse_button_target(old(self).current())
                        == Err::<Seq<Option<Listener>>, Error>(e)
                    &&& final(self)@ == old(self)@
                    &&& final(self).wf()
                },
            },
    {
        let widget_id = self.context.widget_id;
        self.context.mouse_button_target_mut(widget_id)
    }

    /// Checks whether the widget has a mouse motion target component
    pub fn has_mouse_motion_target(&self) -> (r: Result<bool, Error>)
        requires
            self.wf(),
        ensures
            r == Ok::<bool, Error>(self@.mouse_motion_target(self.current()).is_ok()),
    {
        match self.context.manager.widgets.get(self.context.widget_id) {
            Some(widget) => Ok(widget.mouse_motion_target_id.is_some()),
            None => Err(Error::NoWidget),
        }
    }

    /// Gives the widget a mouse motion target component; where it has one already, the
    /// new one takes its place
    pub fn set_mouse_motion_target(
        &mut self,
        mouse_motion_target: MouseMotionTarget,
    ) -> (r: Result<(), Error>)
        requires
            old(self).wf(),
            mouse_motion_target.wf(),
        ensures
            final(self).wf(),
            final(self).current() == old(self).current(),
            r == Ok::<(), Error>(()),
            final(self)@
                == old(self)@.attach_mouse_motion_target(old(self).current(), mouse_motion_target@),
            final(self)@.mouse_motion_target(old(self).current())
                == Ok::<Seq<Option<Listener>>, Error>(mouse_motion_target@),
    {
        let widget_id = self.context.widget_id;
        let ghost before = self@;
        let ghost view = mouse_motion_target@;
        proof {
            assert(before.widgets[widget_id as int].is_some());
            assert(before.links_valid(before.widgets[widget_id as int].unwrap()));
        }
        let link = match self.context.manager.widgets.get(widget_id) {
            Some(widget) => widget.mouse_motion_target_id,
            None => {
                return Err(Error::NoWidget);
            },
        };
        match link {
            Some(id) => {
                match self.context.manager.mouse_motion_targets.get_mut(id) {
                    Some(slot) => {
                        *slot = mouse_motion_target;
                    },
                    None => {},
                }
                proof {
                    assert(self@.mouse_motion_targets =~= before.mouse_motion_targets.update(
                        id as int,
                        Some(view),
                    ));
                    assert(self@.agrees(before.with_mouse_motion_target(widget_id, view)));
                }
            },
            None => {
                let ghost slots = self.context.manager.mouse_motion_targets@;
                let id = self.context.manager.mouse_motion_targets.insert(mouse_motion_target);
                match self.context.manager.widgets.get_mut(widget_id) {
                    Some(widget) => {
                        widget.mouse_motion_target_id = Some(id);
                    },
                    None => {},
                }
                proof {
                    lemma_views_insert_at(slots, id as int, mouse_motion_target);
                    assert(is_next_id(before.mouse_motion_targets, id as int));
                    lemma_next_id(before.mouse_motion_targets, id as int);
                    assert(self@.agrees(before.with_new_mouse_motion_target(widget_id, id, view)));
                    let after = self@;
                    assert forall|w: int|
                        0 <= w < after.widgets.len() && (#[trigger] after.widgets[w]).is_some()
                        implies after.links_valid(after.widgets[w].unwrap()) by {
                        assert(before.widgets[w].is_some());
                        assert(before.links_valid(before.widgets[w].unwrap()));
                    }
                    assert forall|v: int, w: int|
                        0 <= v < after.widgets.len() && 0 <= w < after.widgets.len() && v != w
                            && (#[trigger] after.widgets[v]).is_some()
                            && (#[trigger] after.widgets[w]).is_some() implies
                        after.widgets[v].unwrap().apart(after.widgets[w].unwrap()) by {
                        assert(before.widgets[v].is_some() && before.widgets[w].is_some());
                        assert(before.widgets[v].unwrap().apart(before.widgets[w].unwrap()));
                        assert(before.links_valid(before.widgets[v].unwrap()));
                        assert(before.links_valid(before.widgets[w].unwrap()));
                    }
                }
            },
        }
        Ok(())
    }

    /// Gets a mutable reference to the mouse motion target component of the widget
    pub fn mouse_motion_target_mut(&mut self) -> (r: Result<&mut MouseMotionTarget, Error>)
        requires
            old(self).wf(),
        ensures
            final(self).current() == old(self).current(),
            match r {
                Ok(mouse_motion_target) => {
                    &&& old(self)@.mouse_motion_target(old(self).current())
                        == Ok::<Seq<Option<Listener>>, Error>(mouse_motion_target@)
                    &&& mouse_motion_target.wf()
                    &&& final(self)@.agrees(
                        old(self)@.with_mouse_motion_target(
                            old(self).current(),
                            final(mouse_motion_target)@,
                        ),
                    )
                    &&& final(mouse_motion_target).wf() ==> final(self).wf()
                },
                Err(e) => {
                    &&& old(self)@.mouse_motion_target(old(self).current())
                        == Err::<Seq<Option<Listener>>, Error>(e)
                    &&& final(self)@ == old(self)@
                    &&& final(self).wf()
                },
            },
    {
        let widget_id = self.context.widget_id;
        self.context.mouse_motion_target_mut(widget_id)
    }

    /// Checks whether the widget has a mouse over target component
    pub fn has_mouse_over_target(&self) -> (r: Result<bool, Error>)
        requires
            self.wf(),
        ensures
            r == Ok::<bool, Error>(self@.mouse_over_target(self.current()).is_ok()),
    {
        match self.context.manager.widgets.get(self.context.widget_id) {
            Some(widget) => Ok(widget.mouse_over_target_id.is_some()),
            None => Err(Error::NoWidget),
        }
    }

    /// Gives the widget a mouse over target component; where it has one already, the
    /// new one takes its place
    pub fn set_mouse_over_target(
        &mut self,
        mouse_over_target: MouseOverTarget,
    ) -> (r: Result<(), Error>)
        requires
            old(self).wf(),
            mouse_over_target.wf(),
        ensures
            final(self).wf(),
            final(self).current() == old(self).current(),
            r == Ok::<(), Error>(()),
            final(self)@
                == old(self)@.attach_mouse_over_target(old(self).current(), mouse_over_target@),
            final(self)@.mouse_over_target(old(self).current())
                == Ok::<MouseOverView, Error>(mouse_over_target@),
    {
        let widget_id = self.context.widget_id;
        let ghost before = self@;
        let ghost view = mouse_over_target@;
        proof {
            assert(before.widgets[widget_id as int].is_some());
            assert(before.links_valid(before.widgets[widget_id as int].unwrap()));
        }
        let link = match self.context.manager.widgets.get(widget_id) {
            Some(widget) => widget.mouse_over_target_id,
            None => {
                return Err(Error::NoWidget);
            },
        };
        match link {
            Some(id) => {
                match self.context.manager.mouse_over_targets.get_mut(id) {
                    Some(slot) => {
                        *slot = mouse_over_target;
                    },
                    None => {},
                }
                proof {
                    assert(self@.mouse_over_targets =~= before.mouse_over_targets.update(
                        id as int,
                        Some(view),
                    ));
                    assert(self@.agrees(before.with_mouse_over_target(widget_id, view)));
                }
            },
            None => {
                let ghost slots = self.context.manager.mouse_over_targets@;
                let id = self.context.manager.mouse_over_targets.insert(mouse_over_target);
                match self.context.manager.widgets.get_mut(widget_id) {
                    Some(widget) => {
                        widget.mouse_over_target_id = Some(id);
                    },
                    None => {},
                }
                proof {
                    lemma_views_insert_at(slots, id as int, mouse_over_target);
                    assert(is_next_id(before.mouse_over_targets, id as int));
                    lemma_next_id(before.mouse_over_targets, id as int);
                    assert(self@.agrees(before.with_new_mouse_over_target(widget_id, id, view)));
                    let after = self@;
                    assert forall|w: int|
                        0 <= w < after.widgets.len() && (#[trigger] after.widgets[w]).is_some()
                        implies after.links_valid(after.widgets[w].unwrap()) by {
                        assert(before.widgets[w].is_some());
                        assert(before.links_valid(before.widgets[w].unwrap()));
                    }
                    assert forall|v: int, w: int|
                        0 <= v < after.widgets.len() && 0 <= w < after.widgets.len() && v != w
                            && (#[trigger] after.widgets[v]).is_some()
                            && (#[trigger] after.widgets[w]).is_some() implies
                        after.widgets[v].unwrap().apart(after.widgets[w].unwrap()) by {
                        assert(before.widgets[v].is_some() && before.widgets[w].is_some());
                        assert(before.widgets[v].unwrap().apart(before.widgets[w].unwrap()));
                        assert(before.links_valid(before.widgets[v].unwrap()));
                        assert(before.links_valid(before.widgets[w].unwrap()));
                    }
                }
            },
        }
        Ok(())
    }

    /// Gets a mutable reference to the mouse over target component of the widget
    pub fn mouse_over_target_mut(&mut self) -> (r: Result<&mut MouseOverTarget, Error>)
        requires
            old(self).wf(),
        ensures
            final(self).current() == old(self).current(),
            match r {
                Ok(mouse_over_target) => {
                    &&& old(self)@.mouse_over_target(old(self).current())
                        == Ok::<MouseOverView, Error>(mouse_over_target@)
                    &&& mouse_over_target.wf()
                    &&& final(self)@.agrees(
                        old(self)@.with_mouse_over_target(
                            old(self).current(),
                            final(mouse_over_target)@,
                        ),
                    )
                    &&& final(mouse_over_target).wf() ==> final(self).wf()
                },
                Err(e) => {
                    &&& old(self)@.mouse_over_target(old(self).current())
                        == Err::<MouseOverView, Error>(e)
                    &&& final(self)@ == old(self)@
                    &&& final(self).wf()
                },
            },
    {
        let widget_id = self.context.widget_id;
        self.context.mouse_over_target_mut(widget_id)
    }

    /// Checks whether the widget has a spatial component
    pub fn has_spatial(&self) -> (r: Result<bool, Error>)
        requires
            self.wf(),
        ensures
            r == Ok::<bool, Error>(self@.spatial(self.current()).is_ok()),
    {
        match self.context.manager.widgets.get(self.context.widget_id) {
            Some(widget) => Ok(widget.spatial_id.is_some()),
            None => Err(Error::NoWidget),
        }
    }

    /// Gives the widget a spatial component; where it has one already, the
    /// new one takes its place
    pub fn set_spatial(&mut self, spatial: Spatial) -> (r: Result<(), Error>)
        requires
            old(self).wf(),
            spatial.wf(),
        ensures
            final(self).wf(),
            final(self).current() == old(self).current(),
            r == Ok::<(), Error>(()),
            final(self)@ == old(self)@.attach_spatial(old(self).current(), spatial@),
            final(self)@.spatial(old(self).current()) == Ok::<SpatialView, Error>(spatial@),
    {
        let widget_id = self.context.widget_id;
        let ghost before = self@;
        let ghost view = spatial@;
        proof {
            assert(before.widgets[widget_id as int].is_some());
            assert(before.links_valid(before.widgets[widget_id as int].unwrap()));
        }
        let link = match self.context.manager.widgets.get(widget_id) {
            Some(widget) => widget.spatial_id,
            None => {
                return Err(Error::NoWidget);
            },
        };
        match link {
            Some(id) => {
                match self.context.manager.spatials.get_mut(id) {
                    Some(slot) => {
                        *slot = spatial;
                    },
                    None => {},
                }
                proof {
                    assert(self@.spatials =~= before.spatials.update(
                        id as int,
                        Some(view),
                    ));
                    assert(self@.agrees(before.with_spatial(widget_id, view)));
                }
            },
            None => {
                let ghost slots = self.context.manager.spatials@;
                let id = self.context.manager.spatials.insert(spatial);
                match self.context.manager.widgets.get_mut(widget_id) {
                    Some(widget) => {
                        widget.spatial_id = Some(id);
                    },
                    None => {},
                }
                proof {
                    lemma_views_insert_at(slots, id as int, spatial);
                    assert(is_next_id(before.spatials, id as int));
                    lemma_next_id(before.spatials, id as int);
                    assert(self@.agrees(before.with_new_spatial(widget_id, id, view)));
                    let after = self@;
                    assert forall|w: int|
                        0 <= w < after.widgets.len() && (#[trigger] after.widgets[w]).is_some()
                        implies after.links_valid(after.widgets[w].unwrap()) by {
                        assert(before.widgets[w].is_some());
                        assert(before.links_valid(before.widgets[w].unwrap()));
                    }
                    assert forall|v: int, w: int|
                        0 <= v < after.widgets.len() && 0 <= w < after.widgets.len() && v != w
                            && (#[trigger] after.widgets[v]).is_some()
                            && (#[trigger] after.widgets[w]).is_some() implies
                        after.widgets[v].unwrap().apart(after.widgets[w].unwrap()) by {
                        assert(before.widgets[v].is_some() && before.widgets[w].is_some());
                        assert(before.widgets[v].unwrap().apart(before.widgets[w].unwrap()));
                        assert(before.links_valid(before.widgets[v].unwrap()));
                        assert(before.links_valid(before.widgets[w].unwrap()));
                    }
                }
            },
        }
        Ok(())
    }

    /// Gets a mutable reference to the spatial component of the widget
    pub fn spatial_mut(&mut self) -> (r: Result<&mut Spatial, Error>)
        requires
            old(self).wf(),
        ensures
            final(self).current() == old(self).current(),
            match r {
                Ok(spatial) => {
                    &&& old(self)@.spatial(old(self).current())
                        == Ok::<SpatialView, Error>(spatial@)
                    &&& spatial.wf()
                    &&& final(self)@.agrees(
                        old(self)@.with_spatial(old(self).current(), final(spatial)@),
                    )
                    &&& final(spatial).wf() ==> final(self).wf()
                },
                Err(e) => {
                    &&& old(self)@.spatial(old(self).current()) == Err::<SpatialView, Error>(e)
                    &&& final(self)@ == old(self)@
                    &&& final(self).wf()
                },
            },
    {
        let widget_id = self.context.widget_id;
        self.context.spatial_mut(widget_id)
    }

}

} // verus!
