//! The spatial component: where a widget is, and how large it likes to be.

use crate::arena::{insert_at, next_id, remove_at, slot_at};
use crate::bounds::Bounds;
use crate::dimension::Dimension;
use crate::position::Position;
use crate::ui::action::{Outcome, Scheduler};
use crate::ui::error::Error;
use crate::ui::event::{
    Event, EventHandlers, forgetting, HandlerId, Listener, notifications,
};
use crate::ui::widget::{lemma_attach_spatial, Context, ManagerView, WidgetBuilder, WidgetId};
use vstd::prelude::*;

verus! {

/// Signals a widget has been moved
#[derive(Clone, Copy, Debug, PartialEq, Eq, Structural)]
pub struct MoveEvent {
    /// The new position
    pub position: Position,
}

/// Signals a widget has been resized
#[derive(Clone, Copy, Debug, PartialEq, Eq, Structural)]
pub struct ResizedEvent {
    /// The new size
    pub size: Dimension,
}

/// The spatial component to a widget
#[derive(Debug)]
pub struct Spatial {
    /// The ID of the widget
    widget_id: WidgetId,
    /// The position of the widget
    position: Position,
    /// The preferred size of the component
    preferred_size: Dimension,
    /// The bounds of the component, calculated from the position and size
    bounds: Bounds,
    /// The bounds need to be updated
    update_bounds: bool,
    /// Handlers that have to be notified when the widget is moved
    move_handlers: EventHandlers<MoveEvent>,
    /// Handlers that have to be notified when the widget is resized
    resize_handlers: EventHandlers<ResizedEvent>,
}

/// What a spatial component holds.
pub struct SpatialView {
    /// The ID of the widget
    pub widget_id: WidgetId,
    /// The position of the widget
    pub position: Position,
    /// The preferred size of the widget
    pub preferred_size: Dimension,
    /// The handlers that are notified when the widget is moved
    pub move_handlers: Seq<Option<Listener>>,
    /// The handlers that are notified when the widget is resized
    pub resize_handlers: Seq<Option<Listener>>,
}

impl SpatialView {
    /// The bounding box of the widget.
    pub open spec fn bounds(self) -> Bounds {
        Bounds::spanned(self.position, self.preferred_size)
    }

    /// The component after the widget has been moved.
    pub open spec fn moved(self, position: Position) -> SpatialView {
        SpatialView { position, ..self }
    }

    /// The component after the widget has been resized.
    pub open spec fn resized(self, size: Dimension) -> SpatialView {
        SpatialView { preferred_size: size, ..self }
    }

    /// The component after the handlers of a widget have been taken out of
    /// its registries.
    pub open spec fn forgetting(self, target_id: WidgetId) -> SpatialView {
        SpatialView {
            move_handlers: forgetting(self.move_handlers, target_id),
            resize_handlers: forgetting(self.resize_handlers, target_id),
            ..self
        }
    }

    /// The actions that a move to `position` schedules.
    pub open spec fn move_notifications(self, position: Position) -> Seq<
        crate::ui::action::ScheduledAction,
    > {
        notifications(
            self.move_handlers,
            self.widget_id,
            Event::Move(MoveEvent { position }),
        )
    }

    /// The actions that a change of the size to `size` schedules.
    pub open spec fn resize_notifications(self, size: Dimension) -> Seq<
        crate::ui::action::ScheduledAction,
    > {
        notifications(
            self.resize_handlers,
            self.widget_id,
            Event::Resized(ResizedEvent { size }),
        )
    }
}

/// The spatial component that a widget gets when it is decorated with one:
/// at the origin, of no size, and with no handlers.
pub open spec fn fresh(widget_id: WidgetId) -> SpatialView {
    SpatialView {
        widget_id,
        position: Position { x: 0, y: 0 },
        preferred_size: Dimension { width: 0, height: 0 },
        move_handlers: Seq::empty(),
        resize_handlers: Seq::empty(),
    }
}

/// The state after the widget has been decorated with a spatial component:
/// as before where it has one already.
pub open spec fn decorated(state: ManagerView, id: WidgetId) -> ManagerView {
    if state.spatial(id).is_ok() {
        state
    } else {
        state.attach_spatial(id, fresh(id))
    }
}

/// Decoration is idempotent: a widget that has been decorated with a spatial
/// component has one, and to decorate it once more changes nothing.
pub proof fn lemma_decorated_twice(state: ManagerView, id: WidgetId)
    requires
        state.wf(),
        state.widget(id).is_some(),
        state.has_room_for(id),
    ensures
        decorated(state, id).wf(),
        decorated(state, id).widget(id).is_some(),
        decorated(state, id).has_room_for(id),
        decorated(state, id).spatial(id).is_ok(),
        decorated(decorated(state, id), id) == decorated(state, id),
{
    if !state.spatial(id).is_ok() {
        lemma_attach_spatial(state, id, fresh(id));
    }
}

/// What moving the widget to a position comes to: the widget lies there, and
/// its move handlers are to be notified.
pub open spec fn moved(state: ManagerView, id: WidgetId, position: Position) -> Outcome {
    match state.spatial(id) {
        Ok(spatial) => Outcome {
            state: state.with_spatial(id, spatial.moved(position)),
            scheduled: spatial.move_notifications(position),
            result: Ok(()),
        },
        Err(error) => Outcome::failed(state, error),
    }
}

/// Moves the widget that the context is turned to
pub fn set_position(
    position: Position,
    context: &mut Context,
    scheduler: &mut Scheduler,
) -> (r: Result<(), Error>)
    requires
        old(context).wf(),
    ensures
        final(context).wf(),
        final(context).current() == old(context).current(),
        Outcome::describes(
            moved(old(context)@, old(context).current(), position),
            final(context)@,
            old(scheduler)@,
            final(scheduler)@,
            r,
        ),
{
    let widget_id = context.widget_id();
    match context.spatial_mut(widget_id) {
        Ok(spatial) => {
            spatial.set_position(position, scheduler);
            Ok(())
        },
        Err(error) => {
            assert(scheduler@ =~= old(scheduler)@ + Seq::empty());
            Err(error)
        },
    }
}

impl View for Spatial {
    type V = SpatialView;

    closed spec fn view(&self) -> SpatialView {
        SpatialView {
            widget_id: self.widget_id,
            position: self.position,
            preferred_size: self.preferred_size,
            move_handlers: self.move_handlers@,
            resize_handlers: self.resize_handlers@,
        }
    }
}

impl Spatial {
    /// The invariant of the component: its registries are well formed, and
    /// the bounds that it keeps are either marked as outdated or those of
    /// its position and size.
    pub closed spec fn wf(&self) -> bool {
        &&& self.move_handlers.wf()
        &&& self.resize_handlers.wf()
        &&& !self.update_bounds ==> self.bounds == Bounds::spanned(
            self.position,
            self.preferred_size,
        )
    }

    /// Creates a new spatial component: at the origin, of no size, and with
    /// no handlers
    pub fn new(widget_id: WidgetId) -> (spatial: Spatial)
        ensures
            spatial.wf(),
            spatial@ == (SpatialView {
                widget_id,
                position: Position { x: 0, y: 0 },
                preferred_size: Dimension { width: 0, height: 0 },
                move_handlers: Seq::empty(),
                resize_handlers: Seq::empty(),
            }),
    {
        Spatial {
            widget_id,
            position: Position::default(),
            preferred_size: Dimension::default(),
            bounds: Bounds::default(),
            update_bounds: true,
            move_handlers: EventHandlers::new(),
            resize_handlers: EventHandlers::new(),
        }
    }

    /// Decorates a widget with a spatial component if it is not already
    /// present
    pub fn decorate(builder: &mut WidgetBuilder) -> (r: Result<(), Error>)
        requires
            old(builder).wf(),
        ensures
            final(builder).wf(),
            final(builder).current() == old(builder).current(),
            r == Ok::<(), Error>(()),
            final(builder)@ == decorated(old(builder)@, old(builder).current()),
            final(builder)@.spatial(old(builder).current()).is_ok(),
    {
        proof {
            builder.lemma_wf();
        }
        match builder.has_spatial() {
            Ok(present) => {
                if !present {
                    builder.set_spatial(Spatial::new(builder.widget_id()))
                } else {
                    Ok(())
                }
            },
            Err(error) => Err(error),
        }
    }

    /// Returns the position of the widget
    pub fn position(&self) -> (position: &Position)
        ensures
            *position == self@.position,
    {
        &self.position
    }

    /// Returns the preferred size
    pub fn preferred_size(&self) -> (size: &Dimension)
        ensures
            *size == self@.preferred_size,
    {
        &self.preferred_size
    }

    /// Moves the widget, and schedules the notification of its move
    /// handlers
    pub fn set_position(&mut self, position: Position, scheduler: &mut Scheduler)
        requires
            old(self).wf(),
        ensures
            final(self).wf(),
            final(self)@ == old(self)@.moved(position),
            final(scheduler)@ == old(scheduler)@ + old(self)@.move_notifications(position),
    {
        self.position = position;
        self.update_bounds = true;
        self.move_handlers.notify(self.widget_id, MoveEvent { position }, scheduler);
    }

    /// Changes the preferred size of the widget, and schedules the
    /// notification of its resize handlers
    pub fn set_preferred_size(&mut self, size: Dimension, scheduler: &mut Scheduler)
        requires
            old(self).wf(),
        ensures
            final(self).wf(),
            final(self)@ == old(self)@.resized(size),
            final(scheduler)@ == old(scheduler)@ + old(self)@.resize_notifications(size),
    {
        self.preferred_size = size;
        self.update_bounds = true;
        self.resize_handlers.notify(self.widget_id, ResizedEvent { size }, scheduler);
    }

    /// Returns the bounding box, which is calculated anew only where the
    /// position or the size has changed since it was last asked for
    pub fn bounds(&mut self) -> (bounds: Bounds)
        requires
            old(self).wf(),
        ensures
            final(self).wf(),
            final(self)@ == old(self)@,
            bounds == old(self)@.bounds(),
    {
        if self.update_bounds {
            self.bounds = Bounds::span(&self.position, &self.preferred_size);
            self.update_bounds = false;
        }
        self.bounds
    }

    /// Adds a move handler
    pub fn add_move_handler(&mut self, listener: Listener) -> (id: HandlerId)
        requires
            old(self).wf(),
        ensures
            final(self).wf(),
            id == next_id(old(self)@.move_handlers),
            final(self)@ == (SpatialView {
                move_handlers: insert_at(old(self)@.move_handlers, id as int, listener),
                ..old(self)@
            }),
    {
        self.move_handlers.add(listener)
    }

    /// Adds a resize handler
    pub fn add_resize_handler(&mut self, listener: Listener) -> (id: HandlerId)
        requires
            old(self).wf(),
        ensures
            final(self).wf(),
            id == next_id(old(self)@.resize_handlers),
            final(self)@ == (SpatialView {
                resize_handlers: insert_at(old(self)@.resize_handlers, id as int, listener),
                ..old(self)@
            }),
    {
        self.resize_handlers.add(listener)
    }

    /// Removes all handlers with which the widget `target_id` handles the
    /// events of this component
    pub fn forget(&mut self, target_id: WidgetId)
        requires
            old(self).wf(),
        ensures
            final(self).wf(),
            final(self)@ == old(self)@.forgetting(target_id),
    {
        self.move_handlers.forget(target_id);
        self.resize_handlers.forget(target_id);
    }

    /// Returns the resize handler under the id
    pub fn resize_handler(&self, id: HandlerId) -> (r: Option<Listener>)
        ensures
            r == slot_at(self@.resize_handlers, id as int),
    {
        self.resize_handlers.get(id)
    }

    /// Returns the move handler under the id
    pub fn move_handler(&self, id: HandlerId) -> (r: Option<Listener>)
        ensures
            r == slot_at(self@.move_handlers, id as int),
    {
        self.move_handlers.get(id)
    }

    /// Removes a move handler
    pub fn remove_move_handler(&mut self, id: HandlerId) -> (r: Result<Listener, Error>)
        requires
            old(self).wf(),
        ensures
            final(self).wf(),
            r == (match slot_at(old(self)@.move_handlers, id as int) {
                Some(listener) => Ok::<Listener, Error>(listener),
                None => Err(Error::NoHandler),
            }),
            final(self)@ == (if r.is_ok() {
                SpatialView {
                    move_handlers: remove_at(old(self)@.move_handlers, id as int),
                    ..old(self)@
                }
            } else {
                old(self)@
            }),
    {
        self.move_handlers.remove(id)
    }

    /// Removes a resize handler
    pub fn remove_resize_handler(&mut self, id: HandlerId) -> (r: Result<Listener, Error>)
        requires
            old(self).wf(),
        ensures
            final(self).wf(),
            r == (match slot_at(old(self)@.resize_handlers, id as int) {
                Some(listener) => Ok::<Listener, Error>(listener),
                None => Err(Error::NoHandler),
            }),
            final(self)@ == (if r.is_ok() {
                SpatialView {
                    resize_handlers: remove_at(old(self)@.resize_handlers, id as int),
                    ..old(self)@
                }
            } else {
                old(self)@
            }),
    {
        self.resize_handlers.remove(id)
    }
}

} // verus!
