//! The button component.

use crate::arena::{insert_at, next_id, remove_at, slot_at};
use crate::ui::action::{Outcome, ScheduledAction, Scheduler};
use crate::ui::error::Error;
use crate::ui::event::{
    Event, EventHandlers, forgetting, Handler, HandlerId, Listener, notifications,
};
use crate::ui::mouse::{
    decorated_button_target, decorated_over_target, lemma_button_target_decorated_twice,
    lemma_over_target_decorated_twice, MouseButtonEvent, MouseButtonEventKind,
    MouseButtonTarget, MouseOverEvent, MouseOverEventKind, MouseOverTarget, MouseOverView,
};
use crate::ui::spatial::Spatial;
use crate::ui::widget::{
    lemma_attach_button, lemma_attach_mouse_button_target, lemma_attach_mouse_over_target, Context,
    ManagerView, WidgetBuilder, WidgetId,
};
use vstd::prelude::*;

verus! {

/// Button clicked event
#[derive(Clone, Copy, Debug, PartialEq, Eq, Structural)]
pub struct ButtonEvent {
    /// The source widget ID
    pub source_id: WidgetId,
}

/// Whether the button is pressed after a mouse button event: a press inside
/// the bounds arms it, a press outside leaves it as it is, and a release
/// disarms it.
pub open spec fn pressed_after(pressed: bool, kind: MouseButtonEventKind, inside: bool) -> bool {
    match kind {
        MouseButtonEventKind::Pressed => pressed || inside,
        MouseButtonEventKind::Released => false,
    }
}

/// Whether a mouse button event clicks the button: only the release, inside
/// the bounds, of an armed button does.
pub open spec fn clicks(pressed: bool, kind: MouseButtonEventKind, inside: bool) -> bool {
    kind == MouseButtonEventKind::Released && pressed && inside
}

/// The number of clicks that a run of mouse button events gives rise to;
/// each event comes with whether it took place inside the bounds.
pub open spec fn click_count(pressed: bool, events: Seq<(MouseButtonEventKind, bool)>) -> nat
    decreases events.len(),
{
    if events.len() == 0 {
        0
    } else {
        let (kind, inside) = events[0];
        let rest = click_count(pressed_after(pressed, kind, inside), events.skip(1));
        if clicks(pressed, kind, inside) {
            rest + 1
        } else {
            rest
        }
    }
}

/// A press inside the bounds that is followed by a release inside the bounds
/// clicks the button exactly once; followed by a release outside the bounds
/// it does not click it; and a release that no press came before does not
/// click a button that is not armed. In each case the button is not armed
/// afterwards.
pub proof fn lemma_click_semantics(pressed: bool, inside: bool)
    ensures
        click_count(
            pressed,
            seq![(MouseButtonEventKind::Pressed, true), (MouseButtonEventKind::Released, true)],
        ) == 1,
        click_count(
            pressed,
            seq![(MouseButtonEventKind::Pressed, true), (MouseButtonEventKind::Released, false)],
        ) == 0,
        click_count(false, seq![(MouseButtonEventKind::Released, inside)]) == 0,
        !pressed_after(
            pressed_after(pressed, MouseButtonEventKind::Pressed, true),
            MouseButtonEventKind::Released,
            inside,
        ),
{
    let press = (MouseButtonEventKind::Pressed, true);
    let inner = (MouseButtonEventKind::Released, true);
    let outer = (MouseButtonEventKind::Released, false);
    let single = seq![(MouseButtonEventKind::Released, inside)];
    assert(seq![press, inner].skip(1) =~= seq![inner]);
    assert(seq![press, outer].skip(1) =~= seq![outer]);
    assert(seq![inner].skip(1) =~= Seq::<(MouseButtonEventKind, bool)>::empty());
    assert(seq![outer].skip(1) =~= Seq::<(MouseButtonEventKind, bool)>::empty());
    assert(single.skip(1) =~= Seq::<(MouseButtonEventKind, bool)>::empty());
    reveal_with_fuel(click_count, 3);
    assert(seq![press, inner][0] == press);
    assert(seq![press, outer][0] == press);
    assert(seq![inner][0] == inner);
    assert(seq![outer][0] == outer);
    assert(single[0] == (MouseButtonEventKind::Released, inside));
}

/// The listener with which a button follows the pointer.
pub open spec fn highlight_listener(id: WidgetId) -> Listener {
    Listener { target_id: id, handler: Handler::Highlight }
}

/// The listener with which a button follows the mouse buttons.
pub open spec fn click_listener(id: WidgetId) -> Listener {
    Listener { target_id: id, handler: Handler::Click }
}

/// The state after the widget has been decorated with a button: as before
/// where it has one already; else it has a spatial component, is a mouse
/// button target and a mouse over target, has a button with the label that is
/// neither pressed nor highlighted, and handles the mouse over and the mouse
/// button events that it is the target of.
pub open spec fn decorated(state: ManagerView, id: WidgetId, label: Seq<char>) -> ManagerView {
    if state.button(id).is_ok() {
        state
    } else {
        let targeted = decorated_over_target(
            decorated_button_target(crate::ui::spatial::decorated(state, id), id),
            id,
        );
        let attached = targeted.attach_button(
            id,
            ButtonView { pressed: false, highlighted: false, label, handlers: Seq::empty() },
        );
        let over = attached.mouse_over_target(id).unwrap();
        let highlighting = attached.with_mouse_over_target(
            id,
            MouseOverView {
                handlers: insert_at(over.handlers, next_id(over.handlers), highlight_listener(id)),
                ..over
            },
        );
        let buttons = highlighting.mouse_button_target(id).unwrap();
        highlighting.with_mouse_button_target(
            id,
            insert_at(buttons, next_id(buttons), click_listener(id)),
        )
    }
}

/// Decoration is idempotent: a widget that has been decorated with a button
/// has one, and to decorate it once more changes nothing, whatever the
/// label.
pub proof fn lemma_decorated_twice(
    state: ManagerView,
    id: WidgetId,
    label: Seq<char>,
    other: Seq<char>,
)
    requires
        state.wf(),
        state.widget(id).is_some(),
        state.has_room_for(id),
    ensures
        decorated(state, id, label).wf(),
        decorated(state, id, label).button(id).is_ok(),
        decorated(decorated(state, id, label), id, other) == decorated(state, id, label),
{
    if !state.button(id).is_ok() {
        let placed = crate::ui::spatial::decorated(state, id);
        crate::ui::spatial::lemma_decorated_twice(state, id);
        lemma_button_target_decorated_twice(placed, id);
        let pressable = decorated_button_target(placed, id);
        lemma_over_target_decorated_twice(pressable, id);
        let targeted = decorated_over_target(pressable, id);
        let view = ButtonView { pressed: false, highlighted: false, label, handlers: Seq::empty() };
        lemma_attach_button(targeted, id, view);
        let attached = targeted.attach_button(id, view);
        assert(attached.mouse_over_target(id).is_ok());
        let over = attached.mouse_over_target(id).unwrap();
        let listening = MouseOverView {
            handlers: insert_at(over.handlers, next_id(over.handlers), highlight_listener(id)),
            ..over
        };
        lemma_attach_mouse_over_target(attached, id, listening);
        let highlighting = attached.attach_mouse_over_target(id, listening);
        assert(highlighting.mouse_button_target(id).is_ok());
        let buttons = highlighting.mouse_button_target(id).unwrap();
        lemma_attach_mouse_button_target(
            highlighting,
            id,
            insert_at(buttons, next_id(buttons), click_listener(id)),
        );
    }
}

/// What a mouse over event comes to for a button: it is highlighted from
/// when the pointer enters it until the pointer leaves it.
pub open spec fn highlighted(state: ManagerView, id: WidgetId, event: MouseOverEvent) -> Outcome {
    match state.button(id) {
        Ok(button) => Outcome::unchanged(
            state.with_button(
                id,
                ButtonView { highlighted: event.kind == MouseOverEventKind::Entered, ..button },
            ),
        ),
        Err(error) => Outcome::failed(state, error),
    }
}

/// What a mouse button event comes to for a button: it is armed or disarmed,
/// and its handlers are to be notified where the event clicks it.
pub open spec fn clicked(state: ManagerView, id: WidgetId, event: MouseButtonEvent) -> Outcome {
    match state.spatial(id) {
        Ok(spatial) => match state.button(id) {
            Ok(button) => {
                let inside = spatial.bounds().holds(event.position);
                Outcome {
                    state: state.with_button(
                        id,
                        ButtonView {
                            pressed: pressed_after(button.pressed, event.kind, inside),
                            ..button
                        },
                    ),
                    scheduled: button.click_notifications(id, event.kind, inside),
                    result: Ok(()),
                }
            },
            Err(error) => Outcome::failed(state, error),
        },
        Err(error) => Outcome::failed(state, error),
    }
}

/// Sets highlight status
pub fn highlight(
    event: &MouseOverEvent,
    context: &mut Context,
    scheduler: &mut Scheduler,
) -> (r: Result<(), Error>)
    requires
        old(context).wf(),
    ensures
        final(context).wf(),
        final(context).current() == old(context).current(),
        Outcome::describes(
            highlighted(old(context)@, old(context).current(), *event),
            final(context)@,
            old(scheduler)@,
            final(scheduler)@,
            r,
        ),
{
    let widget_id = context.widget_id();
    assert(scheduler@ =~= old(scheduler)@ + Seq::empty());
    match context.button_mut(widget_id) {
        Ok(button) => {
            match event.kind {
                MouseOverEventKind::Entered => {
                    button.set_highlighted(true);
                },
                MouseOverEventKind::Exited => {
                    button.set_highlighted(false);
                },
            }
            Ok(())
        },
        Err(error) => Err(error),
    }
}

/// Sets pressed status, and notifies the handlers of the button where it is
/// clicked
pub fn click(
    event: &MouseButtonEvent,
    context: &mut Context,
    scheduler: &mut Scheduler,
) -> (r: Result<(), Error>)
    requires
        old(context).wf(),
    ensures
        final(context).wf(),
        final(context).current() == old(context).current(),
        Outcome::describes(
            clicked(old(context)@, old(context).current(), *event),
            final(context)@,
            old(scheduler)@,
            final(scheduler)@,
            r,
        ),
{
    let widget_id = context.widget_id();
    let inside = match context.spatial_mut(widget_id) {
        Ok(spatial) => spatial.bounds().contains_position(&event.position),
        Err(error) => {
            assert(scheduler@ =~= old(scheduler)@ + Seq::empty());
            return Err(error);
        },
    };
    assert(context@.agrees(old(context)@));
    match context.button_mut(widget_id) {
        Ok(button) => {
            button.click(widget_id, event.kind, inside, scheduler);
            Ok(())
        },
        Err(error) => {
            assert(scheduler@ =~= old(scheduler)@ + Seq::empty());
            Err(error)
        },
    }
}

/// A button widget
#[derive(Debug)]
pub struct Button {
    /// Whether the button is being pressed or not
    pressed: bool,
    /// Whether the button is highlighted or not
    highlighted: bool,
    /// The button label
    label: String,
    /// Event handlers
    handlers: EventHandlers<ButtonEvent>,
}

/// What a button holds.
pub struct ButtonView {
    /// Whether the button is being pressed or not
    pub pressed: bool,
    /// Whether the button is highlighted or not
    pub highlighted: bool,
    /// The button label
    pub label: Seq<char>,
    /// The handlers that are notified when the button is clicked
    pub handlers: Seq<Option<Listener>>,
}

impl ButtonView {
    /// The button after the handlers of a widget have been taken out of its
    /// registry.
    pub open spec fn forgetting(self, target_id: WidgetId) -> ButtonView {
        ButtonView { handlers: forgetting(self.handlers, target_id), ..self }
    }

    /// The actions that a mouse button event schedules.
    pub open spec fn click_notifications(
        self,
        source_id: WidgetId,
        kind: MouseButtonEventKind,
        inside: bool,
    ) -> Seq<ScheduledAction> {
        if clicks(self.pressed, kind, inside) {
            notifications(
                self.handlers,
                source_id,
                Event::Button(ButtonEvent { source_id }),
            )
        } else {
            Seq::empty()
        }
    }
}

impl View for Button {
    type V = ButtonView;

    closed spec fn view(&self) -> ButtonView {
        ButtonView {
            pressed: self.pressed,
            highlighted: self.highlighted,
            label: self.label@,
            handlers: self.handlers@,
        }
    }
}

impl Button {
    /// The invariant of the component.
    pub closed spec fn wf(&self) -> bool {
        self.handlers.wf()
    }

    /// Creates a new button, neither pressed nor highlighted
    pub fn new(label: String) -> (button: Button)
        ensures
            button.wf(),
            button@ == (ButtonView {
                pressed: false,
                highlighted: false,
                label: label@,
                handlers: Seq::empty(),
            }),
    {
        Button { pressed: false, highlighted: false, label, handlers: EventHandlers::new() }
    }

    /// Decorates a widget with a button, and with what a button needs, if
    /// it does not have one already
    pub fn decorate(builder: &mut WidgetBuilder, label: String) -> (r: Result<(), Error>)
        requires
            old(builder).wf(),
        ensures
            final(builder).wf(),
            final(builder).current() == old(builder).current(),
            r == Ok::<(), Error>(()),
            final(builder)@ == decorated(old(builder)@, old(builder).current(), label@),
            final(builder)@.button(old(builder).current()).is_ok(),
            old(builder)@.button(old(builder).current()).is_err() ==> {
                &&& final(builder)@.spatial(old(builder).current()).is_ok()
                &&& final(builder)@.mouse_button_target(old(builder).current()).is_ok()
                &&& final(builder)@.mouse_over_target(old(builder).current()).is_ok()
            },
    {
        proof {
            builder.lemma_wf();
        }
        let widget_id = builder.widget_id();
        let present = match builder.has_button() {
            Ok(present) => present,
            Err(error) => {
                return Err(error);
            },
        };
        if present {
            return Ok(());
        }
        match Spatial::decorate(builder) {
            Ok(()) => {},
            Err(error) => {
                return Err(error);
            },
        }
        match MouseButtonTarget::decorate(builder) {
            Ok(()) => {},
            Err(error) => {
                return Err(error);
            },
        }
        match MouseOverTarget::decorate(builder) {
            Ok(()) => {},
            Err(error) => {
                return Err(error);
            },
        }
        proof {
            builder.lemma_wf();
        }
        match builder.set_button(Button::new(label)) {
            Ok(()) => {},
            Err(error) => {
                return Err(error);
            },
        }
        proof {
            builder.lemma_wf();
        }
        match builder.mouse_over_target_mut() {
            Ok(target) => {
                target.add_handler(Listener { target_id: widget_id, handler: Handler::Highlight });
            },
            Err(error) => {
                return Err(error);
            },
        }
        proof {
            builder.lemma_wf();
        }
        match builder.mouse_button_target_mut() {
            Ok(target) => {
                target.add_handler(Listener { target_id: widget_id, handler: Handler::Click });
            },
            Err(error) => {
                return Err(error);
            },
        }
        Ok(())
    }

    /// Whether the button is being pressed
    pub fn pressed(&self) -> (pressed: bool)
        ensures
            pressed == self@.pressed,
    {
        self.pressed
    }

    /// Whether the button is highlighted
    pub fn highlighted(&self) -> (highlighted: bool)
        ensures
            highlighted == self@.highlighted,
    {
        self.highlighted
    }

    /// The button label
    pub fn label(&self) -> (label: &String)
        ensures
            label@ == self@.label,
    {
        &self.label
    }

    /// Adds a handler that is notified when the button is clicked
    pub fn add_handler(&mut self, listener: Listener) -> (id: HandlerId)
        requires
            old(self).wf(),
        ensures
            final(self).wf(),
            id == next_id(old(self)@.handlers),
            final(self)@ == (ButtonView {
                handlers: insert_at(old(self)@.handlers, id as int, listener),
                ..old(self)@
            }),
    {
        self.handlers.add(listener)
    }

    /// Removes all handlers with which the widget `target_id` handles the
    /// clicks of this button
    pub fn forget(&mut self, target_id: WidgetId)
        requires
            old(self).wf(),
        ensures
            final(self).wf(),
            final(self)@ == old(self)@.forgetting(target_id),
    {
        self.handlers.forget(target_id);
    }

    /// Returns the handler under the id
    pub fn handler(&self, id: HandlerId) -> (r: Option<Listener>)
        ensures
            r == slot_at(self@.handlers, id as int),
    {
        self.handlers.get(id)
    }

    /// Removes a handler
    pub fn remove_handler(&mut self, id: HandlerId) -> (r: Result<Listener, Error>)
        requires
            old(self).wf(),
        ensures
            final(self).wf(),
            r == (match slot_at(old(self)@.handlers, id as int) {
                Some(listener) => Ok::<Listener, Error>(listener),
                None => Err(Error::NoHandler),
            }),
            final(self)@ == (if r.is_ok() {
                ButtonView { handlers: remove_at(old(self)@.handlers, id as int), ..old(self)@ }
            } else {
                old(self)@
            }),
    {
        self.handlers.remove(id)
    }

    /// Highlights the button, or ends its highlighting
    pub fn set_highlighted(&mut self, highlighted: bool)
        requires
            old(self).wf(),
        ensures
            final(self).wf(),
            final(self)@ == (ButtonView { highlighted, ..old(self)@ }),
    {
        self.highlighted = highlighted;
    }

    /// Takes note of a mouse button event, `inside` saying whether it took
    /// place inside the bounds of the button, and notifies the handlers
    /// where it clicks the button
    pub fn click(
        &mut self,
        source_id: WidgetId,
        kind: MouseButtonEventKind,
        inside: bool,
        scheduler: &mut Scheduler,
    )
        requires
            old(self).wf(),
        ensures
            final(self).wf(),
            final(self)@ == (ButtonView {
                pressed: pressed_after(old(self)@.pressed, kind, inside),
                ..old(self)@
            }),
            final(scheduler)@ == old(scheduler)@ + old(self)@.click_notifications(
                source_id,
                kind,
                inside,
            ),
    {
        match kind {
            MouseButtonEventKind::Pressed => {
                if inside {
                    self.pressed = true;
                }
                assert(scheduler@ =~= old(scheduler)@ + Seq::<ScheduledAction>::empty());
            },
            MouseButtonEventKind::Released => {
                if self.pressed {
                    self.pressed = false;
                    if inside {
                        self.handlers.notify(source_id, ButtonEvent { source_id }, scheduler);
                    } else {
                        assert(scheduler@ =~= old(scheduler)@ + Seq::<ScheduledAction>::empty());
                    }
                } else {
                    assert(scheduler@ =~= old(scheduler)@ + Seq::<ScheduledAction>::empty());
                }
            },
        }
    }
}

} // verus!
