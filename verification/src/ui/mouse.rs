//! The components that make a widget the target of mouse events.

use crate::arena::{insert_at, next_id, remove_at, slot_at};
use crate::position::Position;
use crate::ui::action::{Outcome, ScheduledAction, Scheduler};
use crate::ui::error::Error;
use crate::ui::event::{
    Event, EventHandlers, forgetting, Handler, HandlerId, Listener, notifications, Payload,
};
use crate::ui::spatial::Spatial;
use crate::ui::widget::{
    lemma_attach_mouse_button_target, lemma_attach_mouse_motion_target,
    lemma_attach_mouse_over_target, Context, ManagerView, WidgetBuilder, WidgetId,
};
use vstd::prelude::*;

verus! {

/// The state after the widget has been decorated as a mouse button target:
/// as before where it is one already; else it has a spatial component, and a
/// target without handlers.
pub open spec fn decorated_button_target(state: ManagerView, id: WidgetId) -> ManagerView {
    if state.mouse_button_target(id).is_ok() {
        state
    } else {
        crate::ui::spatial::decorated(state, id).attach_mouse_button_target(id, Seq::empty())
    }
}

/// The state after the widget has been decorated as a mouse motion target:
/// as before where it is one already; else it has a spatial component, and a
/// target without handlers.
pub open spec fn decorated_motion_target(state: ManagerView, id: WidgetId) -> ManagerView {
    if state.mouse_motion_target(id).is_ok() {
        state
    } else {
        crate::ui::spatial::decorated(state, id).attach_mouse_motion_target(id, Seq::empty())
    }
}

/// The listener with which a widget checks the mouse motion events that it
/// is the target of.
pub open spec fn check_listener(id: WidgetId) -> Listener {
    Listener { target_id: id, handler: Handler::CheckMouseOver }
}

/// The state after the widget has been decorated as a mouse over target: as
/// before where it is one already; else it has a spatial component, is a
/// mouse motion target, has a mouse over target that is outside and without
/// handlers, and checks the mouse motion events that it is the target of.
pub open spec fn decorated_over_target(state: ManagerView, id: WidgetId) -> ManagerView {
    if state.mouse_over_target(id).is_ok() {
        state
    } else {
        let targeted = decorated_motion_target(crate::ui::spatial::decorated(state, id), id);
        let attached = targeted.attach_mouse_over_target(
            id,
            MouseOverView { within: false, handlers: Seq::empty() },
        );
        let handlers = attached.mouse_motion_target(id).unwrap();
        attached.with_mouse_motion_target(
            id,
            insert_at(handlers, next_id(handlers), check_listener(id)),
        )
    }
}

/// Decoration is idempotent: a widget that has been decorated as a mouse
/// button target is one, and to decorate it once more changes nothing.
pub proof fn lemma_button_target_decorated_twice(state: ManagerView, id: WidgetId)
    requires
        state.wf(),
        state.widget(id).is_some(),
        state.has_room_for(id),
    ensures
        decorated_button_target(state, id).wf(),
        decorated_button_target(state, id).widget(id).is_some(),
        decorated_button_target(state, id).has_room_for(id),
        decorated_button_target(state, id).mouse_button_target(id).is_ok(),
        decorated_button_target(decorated_button_target(state, id), id)
            == decorated_button_target(state, id),
{
    if !state.mouse_button_target(id).is_ok() {
        crate::ui::spatial::lemma_decorated_twice(state, id);
        lemma_attach_mouse_button_target(
            crate::ui::spatial::decorated(state, id),
            id,
            Seq::empty(),
        );
    }
}

/// Decoration is idempotent: a widget that has been decorated as a mouse
/// motion target is one, and to decorate it once more changes nothing.
pub proof fn lemma_motion_target_decorated_twice(state: ManagerView, id: WidgetId)
    requires
        state.wf(),
        state.widget(id).is_some(),
        state.has_room_for(id),
    ensures
        decorated_motion_target(state, id).wf(),
        decorated_motion_target(state, id).widget(id).is_some(),
        decorated_motion_target(state, id).has_room_for(id),
        decorated_motion_target(state, id).mouse_motion_target(id).is_ok(),
        decorated_motion_target(decorated_motion_target(state, id), id)
            == decorated_motion_target(state, id),
{
    if !state.mouse_motion_target(id).is_ok() {
        crate::ui::spatial::lemma_decorated_twice(state, id);
        lemma_attach_mouse_motion_target(
            crate::ui::spatial::decorated(state, id),
            id,
            Seq::empty(),
        );
    }
}

/// Decoration is idempotent: a widget that has been decorated as a mouse
/// over target is one, and to decorate it once more changes nothing.
pub proof fn lemma_over_target_decorated_twice(state: ManagerView, id: WidgetId)
    requires
        state.wf(),
        state.widget(id).is_some(),
        state.has_room_for(id),
    ensures
        decorated_over_target(state, id).wf(),
        decorated_over_target(state, id).widget(id).is_some(),
        decorated_over_target(state, id).has_room_for(id),
        decorated_over_target(state, id).mouse_over_target(id).is_ok(),
        decorated_over_target(decorated_over_target(state, id), id) == decorated_over_target(
            state,
            id,
        ),
{
    if !state.mouse_over_target(id).is_ok() {
        let placed = crate::ui::spatial::decorated(state, id);
        crate::ui::spatial::lemma_decorated_twice(state, id);
        lemma_motion_target_decorated_twice(placed, id);
        let targeted = decorated_motion_target(placed, id);
        let view = MouseOverView { within: false, handlers: Seq::empty() };
        lemma_attach_mouse_over_target(targeted, id, view);
        let attached = targeted.attach_mouse_over_target(id, view);
        assert(attached.mouse_motion_target(id).is_ok());
        let handlers = attached.mouse_motion_target(id).unwrap();
        lemma_attach_mouse_motion_target(
            attached,
            id,
            insert_at(handlers, next_id(handlers), check_listener(id)),
        );
    }
}

/// What checking a mouse motion event comes to: the widget takes note of
/// whether the pointer is within its bounds, and its mouse over handlers are
/// to be notified where the pointer has entered or left them.
pub open spec fn mouse_over_checked(
    state: ManagerView,
    id: WidgetId,
    event: MouseMotionEvent,
) -> Outcome {
    match state.spatial(id) {
        Ok(spatial) => match state.mouse_over_target(id) {
            Ok(target) => {
                let within = spatial.bounds().holds(event.position);
                Outcome {
                    state: state.with_mouse_over_target(id, MouseOverView { within, ..target }),
                    scheduled: target.hover_notifications(id, within),
                    result: Ok(()),
                }
            },
            Err(error) => Outcome::failed(state, error),
        },
        Err(error) => Outcome::failed(state, error),
    }
}

/// Checks whether a mouse motion event should trigger a mouse over event
pub fn check_mouse_over(
    event: &MouseMotionEvent,
    context: &mut Context,
    scheduler: &mut Scheduler,
) -> (r: Result<(), Error>)
    requires
        old(context).wf(),
    ensures
        final(context).wf(),
        final(context).current() == old(context).current(),
        Outcome::describes(
            mouse_over_checked(old(context)@, old(context).current(), *event),
            final(context)@,
            old(scheduler)@,
            final(scheduler)@,
            r,
        ),
{
    let widget_id = context.widget_id();
    let within = match context.spatial_mut(widget_id) {
        Ok(spatial) => spatial.bounds().contains_position(&event.position),
        Err(error) => {
            assert(scheduler@ =~= old(scheduler)@ + Seq::empty());
            return Err(error);
        },
    };
    assert(context@.agrees(old(context)@));
    match context.mouse_over_target_mut(widget_id) {
        Ok(target) => {
            target.hover(widget_id, within, scheduler);
            Ok(())
        },
        Err(error) => {
            assert(scheduler@ =~= old(scheduler)@ + Seq::empty());
            Err(error)
        },
    }
}

/// This widget is the target of mouse events
#[derive(Debug)]
pub struct MouseEventTarget<E> {
    handlers: EventHandlers<E>,
}

/// A mouse button event target component
pub type MouseButtonTarget = MouseEventTarget<MouseButtonEvent>;

/// A mouse motion event target component
pub type MouseMotionTarget = MouseEventTarget<MouseMotionEvent>;

impl<E> View for MouseEventTarget<E> {
    type V = Seq<Option<Listener>>;

    /// The registered listeners by their handler id.
    closed spec fn view(&self) -> Seq<Option<Listener>> {
        self.handlers@
    }
}

impl<E> MouseEventTarget<E> {
    /// The invariant of the component.
    pub closed spec fn wf(&self) -> bool {
        self.handlers.wf()
    }

    /// Creates a new mouse event target
    pub fn new() -> (target: MouseEventTarget<E>)
        ensures
            target.wf(),
            target@ == Seq::<Option<Listener>>::empty(),
    {
        MouseEventTarget { handlers: EventHandlers::new() }
    }

    /// Adds a handler
    pub fn add_handler(&mut self, listener: Listener) -> (id: HandlerId)
        requires
            old(self).wf(),
        ensures
            final(self).wf(),
            id == next_id(old(self)@),
            final(self)@ == insert_at(old(self)@, id as int, listener),
    {
        self.handlers.add(listener)
    }

    /// Removes all handlers with which the widget `target_id` handles the
    /// events of this target
    pub fn forget(&mut self, target_id: WidgetId)
        requires
            old(self).wf(),
        ensures
            final(self).wf(),
            final(self)@ == forgetting(old(self)@, target_id),
    {
        self.handlers.forget(target_id);
    }

    /// Returns the handler under the id
    pub fn handler(&self, id: HandlerId) -> (r: Option<Listener>)
        ensures
            r == slot_at(self@, id as int),
    {
        self.handlers.get(id)
    }

    /// Removes a handler
    pub fn remove_handler(&mut self, id: HandlerId) -> (r: Result<Listener, Error>)
        requires
            old(self).wf(),
        ensures
            final(self).wf(),
            r == (match slot_at(old(self)@, id as int) {
                Some(listener) => Ok::<Listener, Error>(listener),
                None => Err(Error::NoHandler),
            }),
            final(self)@ == (if r.is_ok() {
                remove_at(old(self)@, id as int)
            } else {
                old(self)@
            }),
    {
        self.handlers.remove(id)
    }
}

impl<E: Payload> MouseEventTarget<E> {
    /// Notifies that the widget was the target of a mouse event: schedules
    /// one action for each handler
    pub fn notify(&self, source_id: WidgetId, event: E, scheduler: &mut Scheduler)
        ensures
            final(scheduler)@ == old(scheduler)@ + notifications(
                self@,
                source_id,
                event.event(),
            ),
    {
        self.handlers.notify(source_id, event, scheduler);
    }
}

impl MouseEventTarget<MouseButtonEvent> {
    /// Decorates a widget as a mouse button target, and with the spatial
    /// component that a target needs, if it is not one already
    pub fn decorate(builder: &mut WidgetBuilder) -> (r: Result<(), Error>)
        requires
            old(builder).wf(),
        ensures
            final(builder).wf(),
            final(builder).current() == old(builder).current(),
            r == Ok::<(), Error>(()),
            final(builder)@ == decorated_button_target(old(builder)@, old(builder).current()),
            final(builder)@.mouse_button_target(old(builder).current()).is_ok(),
            old(builder)@.mouse_button_target(old(builder).current()).is_err()
                ==> final(builder)@.spatial(old(builder).current()).is_ok(),
    {
        proof {
            builder.lemma_wf();
        }
        match builder.has_mouse_button_target() {
            Ok(present) => {
                if !present {
                    match Spatial::decorate(builder) {
                        Ok(()) => builder.set_mouse_button_target(MouseEventTarget::new()),
                        Err(error) => Err(error),
                    }
                } else {
                    Ok(())
                }
            },
            Err(error) => Err(error),
        }
    }
}

impl MouseEventTarget<MouseMotionEvent> {
    /// Decorates a widget as a mouse motion target, and with the spatial
    /// component that a target needs, if it is not one already
    pub fn decorate(builder: &mut WidgetBuilder) -> (r: Result<(), Error>)
        requires
            old(builder).wf(),
        ensures
            final(builder).wf(),
            final(builder).current() == old(builder).current(),
            r == Ok::<(), Error>(()),
            final(builder)@ == decorated_motion_target(old(builder)@, old(builder).current()),
            final(builder)@.mouse_motion_target(old(builder).current()).is_ok(),
            old(builder)@.mouse_motion_target(old(builder).current()).is_err()
                ==> final(builder)@.spatial(old(builder).current()).is_ok(),
    {
        proof {
            builder.lemma_wf();
        }
        match builder.has_mouse_motion_target() {
            Ok(present) => {
                if !present {
                    match Spatial::decorate(builder) {
                        Ok(()) => builder.set_mouse_motion_target(MouseEventTarget::new()),
                        Err(error) => Err(error),
                    }
                } else {
                    Ok(())
                }
            },
            Err(error) => Err(error),
        }
    }
}

/// Represents a mouse button
#[derive(Clone, Copy, Debug, PartialEq, Eq, Structural)]
pub enum MouseButton {
    /// The left mouse button
    Left,
    /// The right mouse button
    Right,
}

/// What kind of event was it
#[derive(Clone, Copy, Debug, PartialEq, Eq, Structural)]
pub enum MouseButtonEventKind {
    /// The mouse button was pressed
    Pressed,
    /// The mouse button was released
    Released,
}

/// A mouse button event
#[derive(Clone, Copy, Debug, PartialEq, Eq, Structural)]
pub struct MouseButtonEvent {
    /// The kind of event
    pub kind: MouseButtonEventKind,
    /// Which button triggered the even
    pub button: MouseButton,
    /// Where the event took place
    pub position: Position,
}

/// A mouse motion event
#[derive(Clone, Copy, Debug, PartialEq, Eq, Structural)]
pub struct MouseMotionEvent {
    /// Where the event originated
    pub position: Position,
}

/// Types of mouse over events
#[derive(Clone, Copy, Debug, PartialEq, Eq, Structural)]
pub enum MouseOverEventKind {
    /// Mouse has entered
    Entered,
    /// Mouse has exited
    Exited,
}

/// An event for when the mouse pointer enters or exits a component
#[derive(Clone, Copy, Debug, PartialEq, Eq, Structural)]
pub struct MouseOverEvent {
    /// The kind of event
    pub kind: MouseOverEventKind,
}

/// The event that a motion sample gives rise to: none while the pointer
/// stays inside or stays outside, one where it crosses the edge.
pub open spec fn hover_event(was_within: bool, within: bool) -> Option<MouseOverEventKind> {
    if was_within && !within {
        Some(MouseOverEventKind::Exited)
    } else if !was_within && within {
        Some(MouseOverEventKind::Entered)
    } else {
        None
    }
}

/// The events that a run of motion samples gives rise to, in their order;
/// a sample is `true` where the pointer is inside the bounds.
pub open spec fn hover_events(was_within: bool, samples: Seq<bool>) -> Seq<MouseOverEventKind>
    decreases samples.len(),
{
    if samples.len() == 0 {
        Seq::empty()
    } else {
        let rest = hover_events(samples[0], samples.skip(1));
        match hover_event(was_within, samples[0]) {
            Some(kind) => seq![kind] + rest,
            None => rest,
        }
    }
}

/// Motion samples that are all on the side on which the pointer already is
/// give rise to no event.
pub proof fn lemma_hover_steady(within: bool, samples: Seq<bool>)
    requires
        forall|i: int| 0 <= i < samples.len() ==> samples[i] == within,
    ensures
        hover_events(within, samples) == Seq::<MouseOverEventKind>::empty(),
    decreases samples.len(),
{
    if samples.len() > 0 {
        lemma_hover_steady(within, samples.skip(1));
    }
}

/// Hover events come on the edge only. From outside, a run of one or more
/// motion samples that are all inside the bounds gives rise to exactly one
/// `Entered` and nothing else; a sample outside the bounds that follows the
/// run adds exactly one `Exited`.
pub proof fn lemma_hover_edge_triggered(inside: Seq<bool>)
    requires
        inside.len() > 0,
        forall|i: int| 0 <= i < inside.len() ==> inside[i],
    ensures
        hover_events(false, inside) == seq![MouseOverEventKind::Entered],
        hover_events(false, inside.push(false)) == seq![
            MouseOverEventKind::Entered,
            MouseOverEventKind::Exited,
        ],
{
    lemma_hover_steady(true, inside.skip(1));
    assert(hover_events(false, inside) =~= seq![MouseOverEventKind::Entered]);
    lemma_hover_last(true, inside.skip(1), false);
    assert(inside.push(false).skip(1) =~= inside.skip(1).push(false));
    assert(hover_events(false, inside.push(false)) =~= seq![
        MouseOverEventKind::Entered,
        MouseOverEventKind::Exited,
    ]);
}

/// After a run of samples on the side on which the pointer already is, one
/// more sample gives rise to what it would give rise to alone.
proof fn lemma_hover_last(within: bool, samples: Seq<bool>, last: bool)
    requires
        forall|i: int| 0 <= i < samples.len() ==> samples[i] == within,
    ensures
        hover_events(within, samples.push(last)) == (match hover_event(within, last) {
            Some(kind) => seq![kind],
            None => Seq::empty(),
        }),
    decreases samples.len(),
{
    let all = samples.push(last);
    if samples.len() == 0 {
        assert(all.skip(1) =~= Seq::<bool>::empty());
        assert(hover_events(last, all.skip(1)) =~= Seq::<MouseOverEventKind>::empty());
        assert(all[0] == last);
    } else {
        assert(all.skip(1) =~= samples.skip(1).push(last));
        lemma_hover_last(within, samples.skip(1), last);
        assert(all[0] == within);
    }
}

/// A widget that can be hovered over
#[derive(Debug)]
pub struct MouseOverTarget {
    /// Event handlers
    handlers: EventHandlers<MouseOverEvent>,
    /// Whether the mouse pointer was within bounds during the previous tick
    within: bool,
}

/// What a mouse over target holds.
pub struct MouseOverView {
    /// Whether the mouse pointer was within bounds during the previous tick
    pub within: bool,
    /// The handlers that are notified when the pointer enters or leaves
    pub handlers: Seq<Option<Listener>>,
}

impl MouseOverView {
    /// The target after the handlers of a widget have been taken out of its
    /// registry.
    pub open spec fn forgetting(self, target_id: WidgetId) -> MouseOverView {
        MouseOverView { handlers: forgetting(self.handlers, target_id), ..self }
    }

    /// The actions that a motion sample schedules.
    pub open spec fn hover_notifications(self, source_id: WidgetId, within: bool) -> Seq<
        ScheduledAction,
    > {
        match hover_event(self.within, within) {
            Some(kind) => notifications(
                self.handlers,
                source_id,
                Event::MouseOver(MouseOverEvent { kind }),
            ),
            None => Seq::empty(),
        }
    }
}

impl View for MouseOverTarget {
    type V = MouseOverView;

    closed spec fn view(&self) -> MouseOverView {
        MouseOverView { within: self.within, handlers: self.handlers@ }
    }
}

impl MouseOverTarget {
    /// The invariant of the component.
    pub closed spec fn wf(&self) -> bool {
        self.handlers.wf()
    }

    /// Creates a new mouse over target, with the pointer outside
    pub fn new() -> (target: MouseOverTarget)
        ensures
            target.wf(),
            target@ == (MouseOverView { within: false, handlers: Seq::empty() }),
    {
        MouseOverTarget { handlers: EventHandlers::new(), within: false }
    }

    /// Decorates a widget with a mouse over target, and with what such a
    /// target needs, if it does not have one already
    pub fn decorate(builder: &mut WidgetBuilder) -> (r: Result<(), Error>)
        requires
            old(builder).wf(),
        ensures
            final(builder).wf(),
            final(builder).current() == old(builder).current(),
            r == Ok::<(), Error>(()),
            final(builder)@ == decorated_over_target(old(builder)@, old(builder).current()),
            final(builder)@.mouse_over_target(old(builder).current()).is_ok(),
            old(builder)@.mouse_over_target(old(builder).current()).is_err() ==> {
                &&& final(builder)@.spatial(old(builder).current()).is_ok()
                &&& final(builder)@.mouse_motion_target(old(builder).current()).is_ok()
            },
    {
        proof {
            builder.lemma_wf();
        }
        let widget_id = builder.widget_id();
        let present = match builder.has_mouse_over_target() {
            Ok(present) => present,
            Err(error) => {
                return Err(error);
            },
        };
        if present {
            return Ok(());
        }
        match Spatial::decorate(builder) {
            Ok(()) => {},
            Err(error) => {
                return Err(error);
            },
        }
        match MouseMotionTarget::decorate(builder) {
            Ok(()) => {},
            Err(error) => {
                return Err(error);
            },
        }
        proof {
            builder.lemma_wf();
        }
        match builder.set_mouse_over_target(MouseOverTarget::new()) {
            Ok(()) => {},
            Err(error) => {
                return Err(error);
            },
        }
        proof {
            builder.lemma_wf();
        }
        match builder.mouse_motion_target_mut() {
            Ok(target) => {
                target.add_handler(
                    Listener { target_id: widget_id, handler: Handler::CheckMouseOver },
                );
            },
            Err(error) => {
                return Err(error);
            },
        }
        Ok(())
    }

    /// Whether the mouse pointer was within bounds during the previous tick
    pub fn within(&self) -> (within: bool)
        ensures
            within == self@.within,
    {
        self.within
    }

    /// Adds a handler
    pub fn add_handler(&mut self, listener: Listener) -> (id: HandlerId)
        requires
            old(self).wf(),
        ensures
            final(self).wf(),
            id == next_id(old(self)@.handlers),
            final(self)@ == (MouseOverView {
                handlers: insert_at(old(self)@.handlers, id as int, listener),
                ..old(self)@
            }),
    {
        self.handlers.add(listener)
    }

    /// Removes all handlers with which the widget `target_id` handles the
    /// events of this target
    pub fn forget(&mut self, target_id: WidgetId)
        requires
            old(self).wf(),
        ensures
            final(self).wf(),
            final(self)@ == old(self)@.forgetting(target_id),
    {
        self.handlers.forget(target_id);
    }

    /// Returns the handler under the id
    pub fn handler(&self, id: HandlerId) -> (r: Option<Listener>)
        ensures
            r == slot_at(self@.handlers, id as int),
    {
        self.handlers.get(id)
    }

    /// Removes a handler
    pub fn remove_handler(&mut self, id: HandlerId) -> (r: Result<Listener, Error>)
        requires
            old(self).wf(),
        ensures
            final(self).wf(),
            r == (match slot_at(old(self)@.handlers, id as int) {
                Some(listener) => Ok::<Listener, Error>(listener),
                None => Err(Error::NoHandler),
            }),
            final(self)@ == (if r.is_ok() {
                MouseOverView { handlers: remove_at(old(self)@.handlers, id as int), ..old(self)@ }
            } else {
                old(self)@
            }),
    {
        self.handlers.remove(id)
    }

    /// Takes note of where the pointer is now, and notifies the handlers
    /// where it has entered or left the bounds since the previous tick
    pub fn hover(&mut self, source_id: WidgetId, within: bool, scheduler: &mut Scheduler)
        requires
            old(self).wf(),
        ensures
            final(self).wf(),
            final(self)@ == (MouseOverView { within, ..old(self)@ }),
            final(scheduler)@ == old(scheduler)@ + old(self)@.hover_notifications(
                source_id,
                within,
            ),
    {
        let old_within = self.within;
        if old_within && !within {
            self.handlers.notify(
                source_id,
                MouseOverEvent { kind: MouseOverEventKind::Exited },
                scheduler,
            );
        } else if !old_within && within {
            self.handlers.notify(
                source_id,
                MouseOverEvent { kind: MouseOverEventKind::Entered },
                scheduler,
            );
        } else {
            assert(scheduler@ =~= old(scheduler)@ + Seq::<ScheduledAction>::empty());
        }
        self.within = within;
    }
}

} // verus!
