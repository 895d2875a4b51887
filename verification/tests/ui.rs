use hundredyearswar::dimension::Dimension;
use hundredyearswar::position::Position;
use hundredyearswar::ui::action::{Action, Actions, ScheduledAction, Scheduler};
use hundredyearswar::ui::button::{Button, ButtonEvent};
use hundredyearswar::ui::container::{Alignment, Container};
use hundredyearswar::ui::error::Error;
use hundredyearswar::ui::event::{Event, EventHandlers, Handler, Listener};
use hundredyearswar::ui::mouse::{
    MouseButton, MouseButtonEvent, MouseButtonEventKind, MouseButtonTarget, MouseEventTarget,
    MouseMotionEvent, MouseMotionTarget, MouseOverEvent, MouseOverEventKind, MouseOverTarget,
};
use hundredyearswar::ui::spatial::{MoveEvent, Spatial};
use hundredyearswar::ui::style::Margins;
use hundredyearswar::ui::widget::{Context, Manager, Report, WidgetBuilder, WidgetId};

fn report_listener(id: WidgetId) -> Listener {
    Listener { target_id: id, handler: Handler::Report }
}

fn motion(x: i32, y: i32) -> MouseMotionEvent {
    MouseMotionEvent { position: Position::new(x, y) }
}

fn button_event(kind: MouseButtonEventKind, x: i32, y: i32) -> MouseButtonEvent {
    MouseButtonEvent { kind, button: MouseButton::Left, position: Position::new(x, y) }
}

/// A widget of 10 by 10 at the origin that is decorated by `decorate`
fn widget_of_ten(manager: Manager, button: bool) -> (Context, Actions, WidgetId) {
    let mut builder = WidgetBuilder::new(manager);
    if button {
        Button::decorate(&mut builder, String::from("ok")).unwrap();
    } else {
        MouseOverTarget::decorate(&mut builder).unwrap();
    }
    let (manager, id) = builder.build();
    let mut context = Context::new(manager);
    let mut actions = Actions::new(8);
    context
        .spatial_mut(id)
        .unwrap()
        .set_preferred_size(Dimension::new(10, 10), actions.scheduler_mut());
    assert_eq!(Ok(()), actions.execute(&mut context));
    (context, actions, id)
}

#[test]
fn hover_is_edge_triggered() {
    let (mut context, mut actions, id) = widget_of_ten(Manager::new(), false);
    context.mouse_over_target_mut(id).unwrap().add_handler(report_listener(id));
    for (x, y) in [(1, 1), (5, 5), (10, 10), (0, 3)] {
        context.mouse_motion_target(id).unwrap().notify(id, motion(x, y), actions.scheduler_mut());
        assert_eq!(Ok(()), actions.execute(&mut context));
    }
    assert!(context.mouse_over_target(id).unwrap().within());
    let entered = Event::MouseOver(MouseOverEvent { kind: MouseOverEventKind::Entered });
    assert_eq!(vec![Report { source_id: id, target_id: id, event: entered }], context.take_reports());
    context.mouse_motion_target(id).unwrap().notify(id, motion(11, 5), actions.scheduler_mut());
    assert_eq!(Ok(()), actions.execute(&mut context));
    context.mouse_motion_target(id).unwrap().notify(id, motion(20, 5), actions.scheduler_mut());
    assert_eq!(Ok(()), actions.execute(&mut context));
    assert!(!context.mouse_over_target(id).unwrap().within());
    let exited = Event::MouseOver(MouseOverEvent { kind: MouseOverEventKind::Exited });
    assert_eq!(vec![Report { source_id: id, target_id: id, event: exited }], context.take_reports());
    assert_eq!(Vec::<Report>::new(), context.take_reports());
}

fn press_and_release(press: (i32, i32), release: (i32, i32), with_press: bool) -> Vec<Report> {
    let (mut context, mut actions, id) = widget_of_ten(Manager::new(), true);
    context.button_mut(id).unwrap().add_handler(report_listener(id));
    if with_press {
        context.mouse_button_target(id).unwrap().notify(
            id,
            button_event(MouseButtonEventKind::Pressed, press.0, press.1),
            actions.scheduler_mut(),
        );
        assert_eq!(Ok(()), actions.execute(&mut context));
        assert!(context.button(id).unwrap().pressed());
    }
    context.mouse_button_target(id).unwrap().notify(
        id,
        button_event(MouseButtonEventKind::Released, release.0, release.1),
        actions.scheduler_mut(),
    );
    assert_eq!(Ok(()), actions.execute(&mut context));
    assert!(!context.button(id).unwrap().pressed());
    context.take_reports()
}

#[test]
fn button_click_inside() {
    let reports = press_and_release((5, 5), (6, 6), true);
    let clicked = Event::Button(ButtonEvent { source_id: 0 });
    assert_eq!(vec![Report { source_id: 0, target_id: 0, event: clicked }], reports);
}

#[test]
fn button_release_outside_is_no_click() {
    assert_eq!(Vec::<Report>::new(), press_and_release((5, 5), (60, 6), true));
}

#[test]
fn button_release_without_press_is_no_click() {
    assert_eq!(Vec::<Report>::new(), press_and_release((5, 5), (6, 6), false));
}

#[test]
fn button_press_outside_does_not_arm() {
    let (mut context, mut actions, id) = widget_of_ten(Manager::new(), true);
    context.mouse_button_target(id).unwrap().notify(
        id,
        button_event(MouseButtonEventKind::Pressed, 50, 5),
        actions.scheduler_mut(),
    );
    assert_eq!(Ok(()), actions.execute(&mut context));
    assert!(!context.button(id).unwrap().pressed());
}

#[test]
fn button_highlight_follows_pointer() {
    let (mut context, mut actions, id) = widget_of_ten(Manager::new(), true);
    assert!(!context.button(id).unwrap().highlighted());
    context.mouse_motion_target(id).unwrap().notify(id, motion(3, 3), actions.scheduler_mut());
    assert_eq!(Ok(()), actions.execute(&mut context));
    assert!(context.button(id).unwrap().highlighted());
    context.mouse_motion_target(id).unwrap().notify(id, motion(30, 3), actions.scheduler_mut());
    assert_eq!(Ok(()), actions.execute(&mut context));
    assert!(!context.button(id).unwrap().highlighted());
    assert_eq!("ok", context.button(id).unwrap().label().as_str());
}

fn sized_widget(manager: Manager, width: i32, height: i32) -> (Manager, WidgetId) {
    let mut builder = WidgetBuilder::new(manager);
    Spatial::decorate(&mut builder).unwrap();
    let mut scheduler = Scheduler::new();
    builder.spatial_mut().unwrap().set_preferred_size(Dimension::new(width, height), &mut scheduler);
    builder.build()
}

fn container_widget(manager: Manager, margins: Margins, width: i32, height: i32) -> (Manager, WidgetId) {
    let mut builder = WidgetBuilder::new(manager);
    Container::decorate(&mut builder, margins).unwrap();
    let mut scheduler = Scheduler::new();
    builder.spatial_mut().unwrap().set_preferred_size(Dimension::new(width, height), &mut scheduler);
    builder.build()
}

#[test]
fn container_layout_aligns_columns() {
    let margin = 4;
    let (manager, left) = sized_widget(Manager::new(), 10, 5);
    let (manager, center) = sized_widget(manager, 20, 8);
    let (manager, right) = sized_widget(manager, 10, 3);
    let (manager, below) = sized_widget(manager, 6, 6);
    let (manager, container) = container_widget(manager, Margins::new(margin, margin, 2, 1), 100, 50);
    let mut context = Context::new(manager);
    assert_eq!(Ok(()), Container::add_column(&mut context, container, left, Alignment::Left));
    assert_eq!(Ok(()), Container::add_column(&mut context, container, center, Alignment::Center));
    assert_eq!(Ok(()), Container::add_column(&mut context, container, right, Alignment::Right));
    assert!(context.container_mut(container).unwrap().add_row());
    assert!(!context.container_mut(container).unwrap().add_row());
    assert_eq!(Ok(()), Container::add_column(&mut context, container, below, Alignment::Left));
    let mut actions = Actions::new(8);
    actions.scheduler_mut().schedule(ScheduledAction {
        source_id: container,
        target_id: container,
        action: Action::SetPosition(Position::new(0, 0)),
    });
    assert_eq!(Ok(()), actions.execute(&mut context));
    assert_eq!(&Position::new(margin, 1), context.spatial(left).unwrap().position());
    assert_eq!(&Position::new(40, 1), context.spatial(center).unwrap().position());
    assert_eq!(&Position::new(100 - margin - 10, 1), context.spatial(right).unwrap().position());
    assert_eq!(&Position::new(margin, 1 + 8 + 3), context.spatial(below).unwrap().position());
}

#[test]
fn container_follows_resized_child() {
    let (manager, first) = sized_widget(Manager::new(), 10, 5);
    let (manager, second) = sized_widget(manager, 10, 5);
    let (manager, container) = container_widget(manager, Margins::default(), 100, 50);
    let mut context = Context::new(manager);
    Container::add_column(&mut context, container, first, Alignment::Left).unwrap();
    Container::add_column(&mut context, container, second, Alignment::Left).unwrap();
    let mut actions = Actions::new(8);
    context
        .spatial_mut(first)
        .unwrap()
        .set_preferred_size(Dimension::new(30, 5), actions.scheduler_mut());
    assert_eq!(Ok(()), actions.execute(&mut context));
    assert_eq!(&Position::new(0, 0), context.spatial(first).unwrap().position());
    assert_eq!(&Position::new(30, 0), context.spatial(second).unwrap().position());
}

#[test]
fn container_skips_child_that_is_gone() {
    let (manager, first) = sized_widget(Manager::new(), 10, 5);
    let (manager, second) = sized_widget(manager, 10, 5);
    let (manager, container) = container_widget(manager, Margins::default(), 100, 50);
    let mut context = Context::new(manager);
    Container::add_column(&mut context, container, first, Alignment::Left).unwrap();
    Container::add_column(&mut context, container, second, Alignment::Left).unwrap();
    assert_eq!(Ok(()), context.remove_widget(first));
    let mut actions = Actions::new(8);
    actions.scheduler_mut().schedule(ScheduledAction {
        source_id: container,
        target_id: container,
        action: Action::SetPosition(Position::new(7, 9)),
    });
    assert_eq!(Ok(()), actions.execute(&mut context));
    assert_eq!(&Position::new(7, 9), context.spatial(second).unwrap().position());
}

/// A container in a container in a container, and a move of the outermost
fn nested(max_runs: usize) -> (Context, Actions, Result<(), Error>, WidgetId) {
    let (manager, leaf) = sized_widget(Manager::new(), 1, 1);
    let (manager, inner) = container_widget(manager, Margins::new(1, 1, 1, 1), 10, 10);
    let (manager, outer) = container_widget(manager, Margins::new(1, 1, 1, 1), 20, 20);
    let mut context = Context::new(manager);
    Container::add_column(&mut context, inner, leaf, Alignment::Left).unwrap();
    Container::add_column(&mut context, outer, inner, Alignment::Left).unwrap();
    let mut actions = Actions::new(max_runs);
    actions.scheduler_mut().schedule(ScheduledAction {
        source_id: outer,
        target_id: outer,
        action: Action::SetPosition(Position::new(100, 100)),
    });
    let result = actions.execute(&mut context);
    (context, actions, result, leaf)
}

#[test]
fn cascade_settles_in_its_rounds() {
    let (context, mut actions, result, leaf) = nested(5);
    assert_eq!(Ok(()), result);
    assert!(!actions.scheduler_mut().has_scheduled());
    assert_eq!(&Position::new(102, 102), context.spatial(leaf).unwrap().position());
}

#[test]
fn cascade_over_the_limit_is_an_action_loop() {
    let (context, mut actions, result, leaf) = nested(4);
    assert_eq!(Err(Error::ActionLoop), result);
    assert_eq!(1, actions.scheduler_mut().len());
    assert_eq!(&Position::new(0, 0), context.spatial(leaf).unwrap().position());
    let (_, _, result, _) = nested(0);
    assert_eq!(Err(Error::ActionLoop), result);
}

#[test]
fn scheduled_action_waits_for_the_next_round() {
    let (manager, id) = sized_widget(Manager::new(), 1, 1);
    let mut context = Context::new(manager);
    context.spatial_mut(id).unwrap().add_move_handler(report_listener(id));
    let mut queue = Scheduler::new();
    let mut next = Scheduler::new();
    queue.schedule(ScheduledAction {
        source_id: id,
        target_id: id,
        action: Action::SetPosition(Position::new(3, 4)),
    });
    assert_eq!(Ok(()), queue.execute(&mut context, &mut next));
    assert!(!queue.has_scheduled());
    assert_eq!(Vec::<Report>::new(), context.take_reports());
    let moved = Event::Move(MoveEvent { position: Position::new(3, 4) });
    assert_eq!(
        Some(ScheduledAction { source_id: id, target_id: id, action: Action::Handle(0, Handler::Report, moved) }),
        next.get(0)
    );
    assert_eq!(None, next.get(1));
    assert_eq!(Ok(()), next.execute(&mut context, &mut queue));
    assert_eq!(vec![Report { source_id: id, target_id: id, event: moved }], context.take_reports());
}

#[test]
fn empty_queue_settles_at_once() {
    let mut context = Context::new(Manager::new());
    assert_eq!(Ok(()), Actions::new(0).execute(&mut context));
}

#[test]
fn action_for_a_widget_that_is_gone_does_nothing() {
    let (manager, id) = sized_widget(Manager::new(), 1, 1);
    let mut context = Context::new(manager);
    let mut actions = Actions::new(2);
    context.spatial_mut(id).unwrap().add_move_handler(report_listener(id));
    context.spatial_mut(id).unwrap().set_position(Position::new(1, 1), actions.scheduler_mut());
    assert_eq!(Ok(()), context.remove_widget(id));
    assert_eq!(Ok(()), actions.execute(&mut context));
    assert_eq!(Vec::<Report>::new(), context.take_reports());
}

#[test]
fn failing_action_ends_the_execution() {
    let (mut context, mut actions, id) = widget_of_ten(Manager::new(), false);
    let handler_id = context
        .mouse_over_target_mut(id)
        .unwrap()
        .add_handler(Listener { target_id: id, handler: Handler::Highlight });
    let over = Event::MouseOver(MouseOverEvent { kind: MouseOverEventKind::Entered });
    context.focus(id);
    context.schedule(id, Action::Handle(handler_id, Handler::Highlight, over), actions.scheduler_mut());
    context.schedule_for_self(Action::SetPosition(Position::new(1, 1)), actions.scheduler_mut());
    assert_eq!(Err(Error::NoComponent), actions.execute(&mut context));
    assert_eq!(1, actions.scheduler_mut().len());
    assert_eq!(&Position::new(0, 0), context.spatial(id).unwrap().position());
    assert_eq!(Ok(()), actions.execute(&mut context));
    assert!(!actions.scheduler_mut().has_scheduled());
    assert_eq!(&Position::new(1, 1), context.spatial(id).unwrap().position());
}

#[test]
fn failing_action_loses_no_other_action() {
    let (mut context, _, first) = widget_of_ten(Manager::new(), false);
    let (manager, second) = sized_widget(context.into_manager(), 1, 1);
    let mut context = Context::new(manager);
    context.spatial_mut(first).unwrap().add_move_handler(report_listener(first));
    let handler_id = context
        .mouse_over_target_mut(first)
        .unwrap()
        .add_handler(Listener { target_id: first, handler: Handler::Highlight });
    let over = Event::MouseOver(MouseOverEvent { kind: MouseOverEventKind::Entered });
    let mut queue = Scheduler::new();
    let mut next = Scheduler::new();
    let go = |id, x| ScheduledAction { source_id: id, target_id: id, action: Action::SetPosition(Position::new(x, 0)) };
    let unknown = ScheduledAction {
        source_id: first,
        target_id: first,
        action: Action::Handle(handler_id + 1, Handler::Highlight, over),
    };
    let broken = ScheduledAction {
        source_id: first,
        target_id: first,
        action: Action::Handle(handler_id, Handler::Highlight, over),
    };
    queue.schedule(go(first, 1));
    queue.schedule(unknown);
    queue.schedule(broken);
    queue.schedule(go(second, 2));
    assert_eq!(Err(Error::NoComponent), queue.execute(&mut context, &mut next));
    assert_eq!(1, queue.len());
    assert_eq!(Some(go(second, 2)), queue.get(0));
    assert_eq!(1, next.len());
    assert_eq!(&Position::new(1, 0), context.spatial(first).unwrap().position());
    assert_eq!(&Position::new(0, 0), context.spatial(second).unwrap().position());
}

#[test]
fn removed_handler_is_not_run() {
    let (manager, id) = sized_widget(Manager::new(), 1, 1);
    let mut context = Context::new(manager);
    let mut actions = Actions::new(4);
    let handler_id = context.spatial_mut(id).unwrap().add_move_handler(report_listener(id));
    context.spatial_mut(id).unwrap().set_position(Position::new(1, 1), actions.scheduler_mut());
    assert_eq!(1, actions.scheduler_mut().len());
    assert_eq!(Ok(report_listener(id)), context.spatial_mut(id).unwrap().remove_move_handler(handler_id));
    assert_eq!(Ok(()), actions.execute(&mut context));
    assert_eq!(Vec::<Report>::new(), context.take_reports());
    assert!(!actions.scheduler_mut().has_scheduled());
}

#[test]
fn handler_that_is_still_registered_is_run() {
    let (manager, id) = sized_widget(Manager::new(), 1, 1);
    let mut context = Context::new(manager);
    let mut actions = Actions::new(4);
    context.spatial_mut(id).unwrap().add_move_handler(report_listener(id));
    context.spatial_mut(id).unwrap().set_position(Position::new(1, 1), actions.scheduler_mut());
    assert_eq!(Ok(()), actions.execute(&mut context));
    let moved = Event::Move(MoveEvent { position: Position::new(1, 1) });
    assert_eq!(vec![Report { source_id: id, target_id: id, event: moved }], context.take_reports());
}

#[test]
fn handler_that_was_replaced_is_not_run() {
    let (manager, id) = sized_widget(Manager::new(), 1, 1);
    let (manager, other) = sized_widget(manager, 1, 1);
    let mut context = Context::new(manager);
    let mut actions = Actions::new(4);
    let handler_id = context.spatial_mut(id).unwrap().add_move_handler(report_listener(id));
    context.spatial_mut(id).unwrap().set_position(Position::new(1, 1), actions.scheduler_mut());
    context.spatial_mut(id).unwrap().remove_move_handler(handler_id).unwrap();
    assert_eq!(handler_id, context.spatial_mut(id).unwrap().add_move_handler(report_listener(other)));
    assert_eq!(Ok(()), actions.execute(&mut context));
    assert_eq!(Vec::<Report>::new(), context.take_reports());
}

#[test]
fn handler_whose_registry_is_gone_is_not_run() {
    let (manager, source) = sized_widget(Manager::new(), 1, 1);
    let (manager, target) = sized_widget(manager, 1, 1);
    let mut context = Context::new(manager);
    let mut actions = Actions::new(4);
    context.spatial_mut(source).unwrap().add_move_handler(report_listener(target));
    context.spatial_mut(source).unwrap().set_position(Position::new(1, 1), actions.scheduler_mut());
    assert_eq!(1, actions.scheduler_mut().len());
    assert_eq!(Ok(()), context.remove_widget(source));
    assert!(context.has_widget(target));
    assert_eq!(Ok(()), actions.execute(&mut context));
    assert_eq!(Vec::<Report>::new(), context.take_reports());
}

#[test]
fn accessors_fail_soft() {
    let (manager, id) = sized_widget(Manager::new(), 1, 1);
    let mut context = Context::new(manager);
    assert!(context.spatial(id).is_ok());
    assert_eq!(Some(Error::NoComponent), context.button(id).err());
    assert_eq!(Some(Error::NoComponent), context.container_mut(id).err());
    assert_eq!(Some(Error::NoWidget), context.spatial(id + 1).err());
    assert_eq!(Some(Error::NoWidget), context.mouse_over_target_mut(id + 1).err());
    assert_eq!(Err(Error::NoWidget), context.remove_widget(id + 1));
    assert_eq!(Err(Error::NoComponent), Container::add_column(&mut context, id, id, Alignment::Left));
    assert_eq!(Err(Error::NoWidget), Container::add_column(&mut context, 9, id, Alignment::Left));
}

#[test]
fn decoration_is_idempotent() {
    let mut builder = WidgetBuilder::new(Manager::new());
    Button::decorate(&mut builder, String::from("first")).unwrap();
    Button::decorate(&mut builder, String::from("second")).unwrap();
    MouseOverTarget::decorate(&mut builder).unwrap();
    MouseButtonTarget::decorate(&mut builder).unwrap();
    MouseMotionTarget::decorate(&mut builder).unwrap();
    Spatial::decorate(&mut builder).unwrap();
    assert_eq!(Ok(true), builder.has_button());
    assert_eq!(Ok(true), builder.has_spatial());
    assert_eq!(Ok(true), builder.has_mouse_over_target());
    assert_eq!(Ok(false), builder.has_container());
    let (manager, id) = builder.build();
    let mut second = WidgetBuilder::new(manager);
    assert_eq!(1, second.widget_id());
    Spatial::decorate(&mut second).unwrap();
    let (manager, other) = second.build();
    let mut context = Context::new(manager);
    assert_eq!("first", context.button(id).unwrap().label().as_str());
    let mut scheduler = Scheduler::new();
    context.mouse_motion_target(id).unwrap().notify(id, motion(0, 0), &mut scheduler);
    assert_eq!(1, scheduler.len());
    let mut scheduler = Scheduler::new();
    let pressed = button_event(MouseButtonEventKind::Pressed, 0, 0);
    context.mouse_button_target(id).unwrap().notify(id, pressed, &mut scheduler);
    assert_eq!(1, scheduler.len());
    assert_eq!(Ok(()), context.remove_widget(id));
    assert!(!context.has_widget(id));
    assert!(context.has_widget(other));
    assert!(context.spatial(other).is_ok());
    let manager = context.into_manager();
    let third = WidgetBuilder::new(manager);
    assert_eq!(id, third.widget_id());
    assert_eq!(Ok(false), third.has_spatial());
}

#[test]
fn handlers_are_notified_in_the_order_of_their_ids() {
    let mut handlers: EventHandlers<MouseMotionEvent> = EventHandlers::new();
    assert_eq!(0, handlers.add(report_listener(5)));
    assert_eq!(1, handlers.add(report_listener(6)));
    assert_eq!(2, handlers.add(report_listener(7)));
    assert_eq!(Ok(report_listener(6)), handlers.remove(1));
    assert_eq!(Err(Error::NoHandler), handlers.remove(1));
    assert_eq!(Err(Error::NoHandler), handlers.remove(9));
    let mut scheduler = Scheduler::new();
    handlers.notify(3, motion(1, 2), &mut scheduler);
    assert_eq!(2, scheduler.len());
    assert_eq!(5, scheduler.get(0).unwrap().target_id);
    assert_eq!(7, scheduler.get(1).unwrap().target_id);
    assert_eq!(3, scheduler.get(1).unwrap().source_id);
    assert_eq!(
        Action::Handle(2, Handler::Report, Event::MouseMotion(motion(1, 2))),
        scheduler.get(1).unwrap().action
    );
    assert_eq!(
        Action::Handle(0, Handler::Report, Event::MouseMotion(motion(1, 2))),
        scheduler.get(0).unwrap().action
    );
    assert_eq!(1, handlers.add(report_listener(8)));
}

#[test]
fn mouse_event_target_notifies_its_handlers() {
    let mut target: MouseEventTarget<MouseButtonEvent> = MouseEventTarget::new();
    assert_eq!(0, target.add_handler(report_listener(4)));
    assert_eq!(1, target.add_handler(report_listener(5)));
    assert_eq!(Ok(report_listener(4)), target.remove_handler(0));
    assert_eq!(Err(Error::NoHandler), target.remove_handler(0));
    let mut scheduler = Scheduler::new();
    let released = button_event(MouseButtonEventKind::Released, 1, 2);
    target.notify(9, released, &mut scheduler);
    assert_eq!(
        Some(ScheduledAction {
            source_id: 9,
            target_id: 5,
            action: Action::Handle(1, Handler::Report, Event::MouseButton(released)),
        }),
        scheduler.get(0)
    );
    assert_eq!(1, scheduler.len());
}

#[test]
fn spatial_bounds_follow_position_and_size() {
    let mut spatial = Spatial::new(0);
    let mut scheduler = Scheduler::new();
    assert_eq!(0, spatial.bounds().right);
    spatial.set_position(Position::new(-5, 7), &mut scheduler);
    spatial.set_preferred_size(Dimension::new(10, -3), &mut scheduler);
    let bounds = spatial.bounds();
    assert_eq!((-5, 5, 7, 10), (bounds.left, bounds.right, bounds.bottom, bounds.top));
    assert_eq!(&Dimension::new(10, 3), spatial.preferred_size());
    assert!(!scheduler.has_scheduled());
}

#[test]
fn removed_container_no_longer_follows_its_children() {
    let (manager, child) = sized_widget(Manager::new(), 10, 5);
    let (manager, container) = container_widget(manager, Margins::default(), 100, 50);
    let mut context = Context::new(manager);
    Container::add_column(&mut context, container, child, Alignment::Left).unwrap();
    assert_eq!(
        Some(Listener { target_id: container, handler: Handler::ChildResized }),
        context.spatial(child).unwrap().resize_handler(0)
    );
    assert_eq!(Ok(()), context.remove_widget(container));
    assert_eq!(None, context.spatial(child).unwrap().resize_handler(0));
    let mut scheduler = Scheduler::new();
    context.spatial_mut(child).unwrap().set_preferred_size(Dimension::new(1, 1), &mut scheduler);
    assert!(!scheduler.has_scheduled());
    assert!(context.has_widget(child));
}

#[test]
fn removed_widget_leaves_registries_and_containers() {
    let (manager, child) = sized_widget(Manager::new(), 10, 5);
    let (manager, other) = sized_widget(manager, 10, 5);
    let (manager, container) = container_widget(manager, Margins::default(), 100, 50);
    let mut context = Context::new(manager);
    Container::add_column(&mut context, container, child, Alignment::Left).unwrap();
    Container::add_column(&mut context, container, other, Alignment::Left).unwrap();
    assert_eq!(0, context.spatial_mut(other).unwrap().add_move_handler(report_listener(child)));
    assert_eq!(1, context.spatial_mut(other).unwrap().add_move_handler(report_listener(other)));
    assert_eq!(2, context.spatial_mut(other).unwrap().add_move_handler(report_listener(child)));
    assert_eq!(Ok(()), context.remove_widget(child));
    assert_eq!(None, context.spatial(other).unwrap().move_handler(0));
    assert_eq!(Some(report_listener(other)), context.spatial(other).unwrap().move_handler(1));
    assert_eq!(None, context.spatial(other).unwrap().move_handler(2));
    assert_eq!(0, context.spatial_mut(other).unwrap().add_move_handler(report_listener(other)));
    assert_eq!(2, context.spatial_mut(other).unwrap().add_move_handler(report_listener(other)));
    assert_eq!(Ok(report_listener(other)), context.spatial_mut(other).unwrap().remove_move_handler(2));
    assert_eq!(Ok(report_listener(other)), context.spatial_mut(other).unwrap().remove_move_handler(0));
    assert_eq!(1, context.container(container).unwrap().rows().len());
    assert_eq!(1, context.container(container).unwrap().rows()[0].len());
    assert_eq!(other, context.container(container).unwrap().rows()[0][0].child);

    let (manager, recycled) = sized_widget(context.into_manager(), 3, 3);
    assert_eq!(child, recycled);
    let mut context = Context::new(manager);
    let mut actions = Actions::new(8);
    actions.scheduler_mut().schedule(ScheduledAction {
        source_id: container,
        target_id: container,
        action: Action::SetPosition(Position::new(50, 60)),
    });
    assert_eq!(Ok(()), actions.execute(&mut context));
    assert_eq!(&Position::new(0, 0), context.spatial(recycled).unwrap().position());
    assert_eq!(&Position::new(50, 60), context.spatial(other).unwrap().position());
    let moved = Event::Move(MoveEvent { position: Position::new(50, 60) });
    assert_eq!(vec![Report { source_id: other, target_id: other, event: moved }], context.take_reports());
}

#[test]
fn removing_a_widget_that_is_not_there_changes_nothing() {
    let (manager, id) = sized_widget(Manager::new(), 10, 5);
    let mut context = Context::new(manager);
    context.spatial_mut(id).unwrap().add_move_handler(report_listener(7));
    assert_eq!(Err(Error::NoWidget), context.remove_widget(7));
    assert_eq!(Some(report_listener(7)), context.spatial(id).unwrap().move_handler(0));
}
