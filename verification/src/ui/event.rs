//! Events, the handlers that react to them, and the registries in which a
//! component keeps the handlers that it has to notify.

use crate::arena::{Arena, insert_at, lemma_trim, next_id, remove_at, slot_at, trim};
use crate::ui::action::{Action, Outcome, ScheduledAction, Scheduler};
use crate::ui::button::{ButtonEvent, click, clicked, highlight, highlighted};
use crate::ui::container::{laid_out, layout};
use crate::ui::error::Error;
use crate::ui::mouse::{
    check_mouse_over, mouse_over_checked, MouseButtonEvent, MouseMotionEvent, MouseOverEvent,
};
use crate::ui::spatial::{MoveEvent, ResizedEvent};
use crate::ui::widget::{Context, ManagerView, Report, WidgetId};
use std::marker::PhantomData;
use vstd::prelude::*;

verus! {

/// An ID type for a handler
pub type HandlerId = usize;

/// Something that happened to a widget
#[derive(Clone, Copy, Debug, PartialEq, Eq, Structural)]
pub enum Event {
    /// The widget has been moved
    Move(MoveEvent),
    /// The widget has been resized
    Resized(ResizedEvent),
    /// A mouse button was pressed or released
    MouseButton(MouseButtonEvent),
    /// The mouse pointer has moved
    MouseMotion(MouseMotionEvent),
    /// The mouse pointer has entered or left the widget
    MouseOver(MouseOverEvent),
    /// The button has been clicked
    Button(ButtonEvent),
}

/// An event of one kind
pub trait Payload: Copy {
    /// The event among the events of all kinds.
    spec fn event(self) -> Event;

    /// Returns the event among the events of all kinds
    fn into_event(self) -> (event: Event)
        ensures
            event == self.event(),
    ;
}

impl Payload for MoveEvent {
    open spec fn event(self) -> Event {
        Event::Move(self)
    }

    fn into_event(self) -> (event: Event) {
        Event::Move(self)
    }
}

impl Payload for ResizedEvent {
    open spec fn event(self) -> Event {
        Event::Resized(self)
    }

    fn into_event(self) -> (event: Event) {
        Event::Resized(self)
    }
}

impl Payload for MouseButtonEvent {
    open spec fn event(self) -> Event {
        Event::MouseButton(self)
    }

    fn into_event(self) -> (event: Event) {
        Event::MouseButton(self)
    }
}

impl Payload for MouseMotionEvent {
    open spec fn event(self) -> Event {
        Event::MouseMotion(self)
    }

    fn into_event(self) -> (event: Event) {
        Event::MouseMotion(self)
    }
}

impl Payload for MouseOverEvent {
    open spec fn event(self) -> Event {
        Event::MouseOver(self)
    }

    fn into_event(self) -> (event: Event) {
        Event::MouseOver(self)
    }
}

impl Payload for ButtonEvent {
    open spec fn event(self) -> Event {
        Event::Button(self)
    }

    fn into_event(self) -> (event: Event) {
        Event::Button(self)
    }
}

/// What a widget does with an event that it is notified of
#[derive(Clone, Copy, Debug, PartialEq, Eq, Structural)]
pub enum Handler {
    /// On a mouse motion event: checks whether the pointer has entered or
    /// left the widget
    CheckMouseOver,
    /// On a mouse over event: highlights the button while the pointer is
    /// over it
    Highlight,
    /// On a mouse button event: arms the button on a press and clicks it on
    /// a release
    Click,
    /// On a move event: the container places its children anew
    ContainerMoved,
    /// On a resized event: the container places its children anew
    ChildResized,
    /// On any event: hands the event to the application
    Report,
}

/// What handing an event to the application comes to: the event is among
/// those that the application can take.
pub open spec fn reported(
    state: ManagerView,
    source_id: WidgetId,
    target_id: WidgetId,
    event: Event,
) -> Outcome {
    Outcome::unchanged(state.with_report(Report { source_id, target_id, event }))
}

/// What it comes to when the widget `target_id` handles an event. A handler
/// that is not made for the kind of event does nothing.
pub open spec fn handled(
    state: ManagerView,
    source_id: WidgetId,
    target_id: WidgetId,
    handler: Handler,
    event: Event,
) -> Outcome {
    match (handler, event) {
        (Handler::CheckMouseOver, Event::MouseMotion(motion)) => mouse_over_checked(
            state,
            target_id,
            motion,
        ),
        (Handler::Highlight, Event::MouseOver(over)) => highlighted(state, target_id, over),
        (Handler::Click, Event::MouseButton(button)) => clicked(state, target_id, button),
        (Handler::ContainerMoved, Event::Move(_)) => laid_out(state, target_id),
        (Handler::ChildResized, Event::Resized(_)) => laid_out(state, target_id),
        (Handler::Report, _) => reported(state, source_id, target_id, event),
        _ => Outcome::unchanged(state),
    }
}

impl Handler {
    /// Handles an event for the widget that the context is turned to
    pub fn handle_event(
        &self,
        source_id: WidgetId,
        event: &Event,
        context: &mut Context,
        scheduler: &mut Scheduler,
    ) -> (r: Result<(), Error>)
        requires
            old(context).wf(),
        ensures
            final(context).wf(),
            final(context).current() == old(context).current(),
            Outcome::describes(
                handled(old(context)@, source_id, old(context).current(), *self, *event),
                final(context)@,
                old(scheduler)@,
                final(scheduler)@,
                r,
            ),
    {
        match (self, event) {
            (Handler::CheckMouseOver, Event::MouseMotion(motion)) => check_mouse_over(
                motion,
                context,
                scheduler,
            ),
            (Handler::Highlight, Event::MouseOver(over)) => highlight(over, context, scheduler),
            (Handler::Click, Event::MouseButton(button)) => click(button, context, scheduler),
            (Handler::ContainerMoved, Event::Move(_)) => layout(context, scheduler),
            (Handler::ChildResized, Event::Resized(_)) => layout(context, scheduler),
            (Handler::Report, _) => {
                let target_id = context.widget_id();
                context.report(Report { source_id, target_id, event: *event });
                assert(scheduler@ =~= old(scheduler)@ + Seq::empty());
                Ok(())
            },
            _ => {
                assert(scheduler@ =~= old(scheduler)@ + Seq::empty());
                Ok(())
            },
        }
    }
}

/// A registered handler: the widget that is notified, and what it does then
#[derive(Clone, Copy, Debug, PartialEq, Eq, Structural)]
pub struct Listener {
    /// The widget that handles the event
    pub target_id: WidgetId,
    /// The handler that the widget runs
    pub handler: Handler,
}

/// A slot of a registry after the handlers of a widget have been taken out:
/// free where it held a listener with which that widget handles events.
pub open spec fn forgetting_slot(slot: Option<Listener>, target_id: WidgetId) -> Option<Listener> {
    match slot {
        Some(listener) => if listener.target_id == target_id {
            None
        } else {
            Some(listener)
        },
        None => None,
    }
}

/// The handlers up to the id `n`, without those of a widget.
pub open spec fn forgetting_up_to(
    handlers: Seq<Option<Listener>>,
    target_id: WidgetId,
    n: int,
) -> Seq<Option<Listener>> {
    Seq::new(
        handlers.len(),
        |id: int|
            if id < n {
                forgetting_slot(handlers[id], target_id)
            } else {
                handlers[id]
            },
    )
}

/// A registry after the handlers of a widget have been taken out: every
/// other handler is registered under its id as before, and the registry does
/// not end in a free slot.
pub open spec fn forgetting(handlers: Seq<Option<Listener>>, target_id: WidgetId) -> Seq<
    Option<Listener>,
> {
    trim(forgetting_up_to(handlers, target_id, handlers.len() as int))
}

/// After the handlers of a widget have been taken out of a registry, no
/// handler of that widget is registered, and every other handler is
/// registered under its id as before.
pub proof fn lemma_forgetting(handlers: Seq<Option<Listener>>, target_id: WidgetId, id: int)
    ensures
        slot_at(forgetting(handlers, target_id), id) == forgetting_slot(
            slot_at(handlers, id),
            target_id,
        ),
{
    let cleared = forgetting_up_to(handlers, target_id, handlers.len() as int);
    lemma_trim(cleared);
    let n = trim(cleared).len() as int;
    if 0 <= id < n {
        assert(cleared.take(n)[id] == cleared[id]);
    } else if 0 <= id < handlers.len() {
        assert(cleared[id].is_none());
    }
}

/// The action that notifies the listener that is registered under an id.
pub open spec fn notification(
    source_id: WidgetId,
    handler_id: int,
    listener: Listener,
    event: Event,
) -> ScheduledAction {
    ScheduledAction {
        source_id,
        target_id: listener.target_id,
        action: Action::Handle(handler_id as HandlerId, listener.handler, event),
    }
}

/// The actions that notify the handlers of a registry of an event: one for
/// each registered handler, in the order of their ids.
pub open spec fn notifications(
    handlers: Seq<Option<Listener>>,
    source_id: WidgetId,
    event: Event,
) -> Seq<ScheduledAction>
    decreases handlers.len(),
{
    if handlers.len() == 0 {
        Seq::empty()
    } else {
        let rest = notifications(handlers.drop_last(), source_id, event);
        match handlers.last() {
            Some(listener) => rest.push(
                notification(source_id, handlers.len() - 1, listener, event),
            ),
            None => rest,
        }
    }
}

/// The registry that a widget has for the events of the kind of `event`;
/// `None` where there is no such widget, or it lacks the component that
/// holds the registry.
pub open spec fn registry(state: ManagerView, source_id: WidgetId, event: Event) -> Option<
    Seq<Option<Listener>>,
> {
    match event {
        Event::Move(_) => match state.spatial(source_id) {
            Ok(spatial) => Some(spatial.move_handlers),
            Err(_) => None,
        },
        Event::Resized(_) => match state.spatial(source_id) {
            Ok(spatial) => Some(spatial.resize_handlers),
            Err(_) => None,
        },
        Event::MouseButton(_) => match state.mouse_button_target(source_id) {
            Ok(handlers) => Some(handlers),
            Err(_) => None,
        },
        Event::MouseMotion(_) => match state.mouse_motion_target(source_id) {
            Ok(handlers) => Some(handlers),
            Err(_) => None,
        },
        Event::MouseOver(_) => match state.mouse_over_target(source_id) {
            Ok(target) => Some(target.handlers),
            Err(_) => None,
        },
        Event::Button(_) => match state.button(source_id) {
            Ok(button) => Some(button.handlers),
            Err(_) => None,
        },
    }
}

/// The listener that is registered under an id in the registry that a
/// widget has for the events of the kind of `event`.
pub open spec fn registered(
    state: ManagerView,
    source_id: WidgetId,
    event: Event,
    handler_id: HandlerId,
) -> Option<Listener> {
    match registry(state, source_id, event) {
        Some(handlers) => slot_at(handlers, handler_id as int),
        None => None,
    }
}

/// Looks up the listener that is registered under an id in the registry
/// that a widget has for the events of the kind of `event`
pub fn listener(
    context: &Context,
    source_id: WidgetId,
    event: &Event,
    handler_id: HandlerId,
) -> (r: Option<Listener>)
    requires
        context.wf(),
    ensures
        r == registered(context@, source_id, *event, handler_id),
{
    match event {
        Event::Move(_) => match context.spatial(source_id) {
            Ok(spatial) => spatial.move_handler(handler_id),
            Err(_) => None,
        },
        Event::Resized(_) => match context.spatial(source_id) {
            Ok(spatial) => spatial.resize_handler(handler_id),
            Err(_) => None,
        },
        Event::MouseButton(_) => match context.mouse_button_target(source_id) {
            Ok(target) => target.handler(handler_id),
            Err(_) => None,
        },
        Event::MouseMotion(_) => match context.mouse_motion_target(source_id) {
            Ok(target) => target.handler(handler_id),
            Err(_) => None,
        },
        Event::MouseOver(_) => match context.mouse_over_target(source_id) {
            Ok(target) => target.handler(handler_id),
            Err(_) => None,
        },
        Event::Button(_) => match context.button(source_id) {
            Ok(button) => button.handler(handler_id),
            Err(_) => None,
        },
    }
}

/// A set of handlers for the events of one kind
#[derive(Debug)]
pub struct EventHandlers<E> {
    /// The handlers
    handlers: Arena<Listener>,
    /// The kind of the events
    kind: PhantomData<E>,
}

impl<E> View for EventHandlers<E> {
    type V = Seq<Option<Listener>>;

    /// The registered listeners by their handler id.
    closed spec fn view(&self) -> Seq<Option<Listener>> {
        self.handlers@
    }
}

impl<E> EventHandlers<E> {
    /// The invariant of the registry.
    pub closed spec fn wf(&self) -> bool {
        self.handlers.wf()
    }

    /// Constructs a new set of handlers
    pub fn new() -> (handlers: EventHandlers<E>)
        ensures
            handlers.wf(),
            handlers@ == Seq::<Option<Listener>>::empty(),
    {
        EventHandlers { handlers: Arena::new(), kind: PhantomData }
    }

    /// Returns the handler under the id
    pub fn get(&self, id: HandlerId) -> (r: Option<Listener>)
        ensures
            r == slot_at(self@, id as int),
    {
        match self.handlers.get(id) {
            Some(listener) => Some(*listener),
            None => None,
        }
    }

    /// Removes all handlers with which the widget `target_id` handles
    /// events
    pub fn forget(&mut self, target_id: WidgetId)
        requires
            old(self).wf(),
        ensures
            final(self).wf(),
            final(self)@ == forgetting(old(self)@, target_id),
    {
        let count = self.handlers.len();
        let mut id: usize = 0;
        assert(self@ =~= forgetting_up_to(old(self)@, target_id, 0));
        while id < count
            invariant
                id <= count,
                count == old(self)@.len(),
                old(self).wf(),
                self.wf(),
                self@ == (if id < count {
                    forgetting_up_to(old(self)@, target_id, id as int)
                } else {
                    forgetting(old(self)@, target_id)
                }),
            decreases count - id,
        {
            let ghost before = self@;
            let ghost next = forgetting_up_to(old(self)@, target_id, id + 1);
            let theirs = match self.handlers.get(id) {
                Some(listener) => listener.target_id == target_id,
                None => false,
            };
            if theirs {
                let _ = self.handlers.remove(id);
                assert(before.update(id as int, None) =~= next);
            } else {
                assert(before =~= next);
            }
            proof {
                if id + 1 < count {
                    assert(next.last() == old(self)@.last());
                    assert(next.last().is_some());
                } else {
                    if !theirs {
                        assert(next.last() == before.last());
                    }
                }
            }
            id += 1;
        }
        proof {
            if count == 0 {
                assert(forgetting_up_to(old(self)@, target_id, 0) =~= old(self)@);
            }
        }
    }

    /// Add a handler
    pub fn add(&mut self, listener: Listener) -> (id: HandlerId)
        requires
            old(self).wf(),
        ensures
            final(self).wf(),
            id == next_id(old(self)@),
            final(self)@ == insert_at(old(self)@, id as int, listener),
    {
        self.handlers.insert(listener)
    }

    /// Removes a handler
    pub fn remove(&mut self, id: HandlerId) -> (r: Result<Listener, Error>)
        requires
            old(self).wf(),
        ensures
            final(self).wf(),
            r == match slot_at(old(self)@, id as int) {
                Some(listener) => Ok::<Listener, Error>(listener),
                None => Err(Error::NoHandler),
            },
            final(self)@ == (if r.is_ok() {
                remove_at(old(self)@, id as int)
            } else {
                old(self)@
            }),
    {
        match self.handlers.remove(id) {
            Some(listener) => Ok(listener),
            None => Err(Error::NoHandler),
        }
    }
}

impl<E: Payload> EventHandlers<E> {
    /// Schedules one action for each registered handler, in the order of
    /// their ids; no handler runs before the scheduler executes its action
    pub fn notify(&self, source_id: WidgetId, event: E, scheduler: &mut Scheduler)
        ensures
            final(scheduler)@ == old(scheduler)@ + notifications(self@, source_id, event.event()),
    {
        let occurred = event.into_event();
        let count = self.handlers.len();
        let mut id: usize = 0;
        assert(self@.take(0) =~= Seq::<Option<Listener>>::empty());
        assert(scheduler@ =~= old(scheduler)@ + Seq::<ScheduledAction>::empty());
        while id < count
            invariant
                id <= count,
                count == self@.len(),
                occurred == event.event(),
                scheduler@ == old(scheduler)@ + notifications(
                    self@.take(id as int),
                    source_id,
                    occurred,
                ),
            decreases count - id,
        {
            proof {
                assert(self@.take(id + 1).drop_last() =~= self@.take(id as int));
                assert(self@.take(id + 1).last() == self@[id as int]);
            }
            match self.handlers.get(id) {
                Some(listener) => {
                    scheduler.schedule(
                        ScheduledAction {
                            source_id,
                            target_id: listener.target_id,
                            action: Action::Handle(id, listener.handler, occurred),
                        },
                    );
                    assert(scheduler@ =~= old(scheduler)@ + notifications(
                        self@.take(id + 1),
                        source_id,
                        occurred,
                    ));
                },
                None => {},
            }
            id += 1;
        }
        assert(self@.take(count as int) =~= self@);
    }
}

} // verus!
