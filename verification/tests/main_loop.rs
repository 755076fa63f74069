use ld43::draw::{Color, DrawCommand};
use ld43::event::InputEvent;
use ld43::main_loop::MainLoop;
use ld43::playing::{ActiveIngredient, Ingredient, StatePlaying};
use ld43::state::GameState;
use ld43::vector::v2;
use vstd::seq::Seq;
use vstd::view::View;

/// A state that counts what is asked of it.
struct Counting {
    events: Vec<InputEvent>,
    updates: usize,
}

impl Counting {
    fn new() -> Counting {
        Counting { events: Vec::new(), updates: 0 }
    }
}

impl View for Counting {
    type V = ();

    fn view(&self) -> () {
        unreachable!()
    }
}

impl GameState for Counting {
    fn after_event(_state: (), _event: InputEvent) -> () {
        unreachable!()
    }

    fn after_update(_state: ()) -> () {
        unreachable!()
    }

    fn drawing(_state: ()) -> Seq<DrawCommand> {
        unreachable!()
    }

    fn process_event(&mut self, event: InputEvent) {
        self.events.push(event);
    }

    fn update(&mut self) {
        self.updates += 1;
    }

    fn render(&self) -> Vec<DrawCommand> {
        vec![DrawCommand::FillRect { x: self.updates as i32, y: 0, width: 1, height: 1 }]
    }
}

fn press(x: i32, y: i32) -> InputEvent {
    InputEvent::PointerDown { x, y }
}

fn frame_around(drawing: Vec<DrawCommand>) -> Vec<DrawCommand> {
    let mut commands = vec![
        DrawCommand::SetColor(Color { r: 0xBB, g: 0xAD, b: 0xA0 }),
        DrawCommand::FillRect { x: 0, y: 0, width: 800, height: 600 },
    ];
    commands.extend(drawing);
    commands.push(DrawCommand::Present);
    commands
}

fn grey() -> DrawCommand {
    DrawCommand::SetColor(Color { r: 0x80, g: 0x80, b: 0x80 })
}

fn square() -> DrawCommand {
    DrawCommand::FillRect { x: 10, y: 10, width: 50, height: 50 }
}

#[test]
fn new_loop_is_over_at_once() {
    let mut main_loop: MainLoop<StatePlaying> = MainLoop::new();
    assert_eq!(main_loop.depth(), 0);
    assert!(!main_loop.force_quit());
    assert!(!main_loop.is_running());
    assert!(main_loop.active().is_none());
}

#[test]
fn frame_on_an_empty_stack_does_nothing() {
    let mut main_loop: MainLoop<StatePlaying> = MainLoop::new();
    assert!(main_loop.run_frame(&vec![press(1, 1), InputEvent::Quit]).is_none());
    assert!(!main_loop.force_quit());
    assert!(main_loop.finish_frame().is_none());
    assert!(main_loop.run(&vec![vec![press(1, 1)]]).is_empty());
    assert_eq!(main_loop.depth(), 0);
}

#[test]
fn pushed_state_is_the_active_one() {
    let mut main_loop: MainLoop<Counting> = MainLoop::new();
    main_loop.push(Counting::new());
    let mut second = Counting::new();
    second.updates = 40;
    main_loop.push(second);
    assert_eq!(main_loop.depth(), 2);
    assert!(main_loop.is_running());
    assert_eq!(main_loop.active().map(|s| s.updates), Some(40));
}

#[test]
fn only_the_active_state_is_driven() {
    let mut main_loop: MainLoop<Counting> = MainLoop::new();
    main_loop.push(Counting::new());
    main_loop.push(Counting::new());
    let frame = main_loop.run_frame(&vec![press(1, 2), InputEvent::Other]).unwrap();
    assert_eq!(frame.consumed, 2);
    assert!(!frame.quit);
    assert_eq!(
        frame.commands,
        frame_around(vec![DrawCommand::FillRect { x: 1, y: 0, width: 1, height: 1 }])
    );
    let top = main_loop.pop().unwrap();
    assert_eq!(top.events, vec![press(1, 2), InputEvent::Other]);
    assert_eq!(top.updates, 1);
    let below = main_loop.pop().unwrap();
    assert!(below.events.is_empty());
    assert_eq!(below.updates, 0);
}

#[test]
fn pop_returns_to_the_state_below() {
    let mut main_loop: MainLoop<Counting> = MainLoop::new();
    let mut first = Counting::new();
    first.updates = 10;
    main_loop.push(first);
    main_loop.push(Counting::new());
    assert_eq!(main_loop.pop().map(|s| s.updates), Some(0));
    assert_eq!(main_loop.depth(), 1);
    main_loop.run_frame(&Vec::new());
    assert_eq!(main_loop.active().map(|s| s.updates), Some(11));
    assert!(main_loop.pop().is_some());
    assert!(main_loop.pop().is_none());
    assert!(!main_loop.is_running());
}

#[test]
fn handle_event_routes_to_the_top_and_goes_on() {
    let mut main_loop: MainLoop<StatePlaying> = MainLoop::new();
    main_loop.push(StatePlaying::new());
    assert!(main_loop.handle_event(press(7, 7)));
    assert!(main_loop.handle_event(InputEvent::KeyDown { code: 1 }));
    assert!(!main_loop.force_quit());
    assert_eq!(main_loop.active().map(|s| s.active_ingredients().len()), Some(1));
}

#[test]
fn handle_event_on_quit_ends_the_draining() {
    let mut main_loop: MainLoop<Counting> = MainLoop::new();
    main_loop.push(Counting::new());
    assert!(!main_loop.handle_event(InputEvent::Quit));
    assert!(main_loop.force_quit());
    assert!(!main_loop.is_running());
    assert_eq!(main_loop.active().map(|s| s.events.len()), Some(0));
}

#[test]
fn handle_event_without_a_state_drops_the_event() {
    let mut main_loop: MainLoop<Counting> = MainLoop::new();
    assert!(main_loop.handle_event(press(1, 1)));
    assert_eq!(main_loop.depth(), 0);
    assert!(!main_loop.force_quit());
}

#[test]
fn finish_frame_ticks_once_and_draws_once() {
    let mut main_loop: MainLoop<Counting> = MainLoop::new();
    main_loop.push(Counting::new());
    let commands = main_loop.finish_frame().unwrap();
    assert_eq!(
        commands,
        frame_around(vec![DrawCommand::FillRect { x: 1, y: 0, width: 1, height: 1 }])
    );
    assert_eq!(main_loop.active().map(|s| s.updates), Some(1));
}

#[test]
fn render_right_after_push_draws_an_empty_table() {
    let mut main_loop: MainLoop<StatePlaying> = MainLoop::new();
    main_loop.push(StatePlaying::new());
    let drawn = main_loop.active().map(|s| s.render());
    assert_eq!(drawn, Some(vec![grey()]));
    assert_eq!(main_loop.active().map(|s| s.active_ingredients().len()), Some(0));
}

#[test]
fn quit_mid_drain_ends_the_loop_after_a_whole_frame() {
    let mut main_loop: MainLoop<Counting> = MainLoop::new();
    main_loop.push(Counting::new());
    let events = vec![press(1, 1), InputEvent::Quit, press(2, 2), press(3, 3)];
    let frame = main_loop.run_frame(&events).unwrap();
    assert!(frame.quit);
    assert_eq!(frame.consumed, 2);
    assert_eq!(
        frame.commands,
        frame_around(vec![DrawCommand::FillRect { x: 1, y: 0, width: 1, height: 1 }])
    );
    assert!(main_loop.force_quit());
    assert!(!main_loop.is_running());
    assert!(main_loop.run_frame(&vec![press(9, 9)]).is_none());
    let state = main_loop.pop().unwrap();
    assert_eq!(state.events, vec![press(1, 1)]);
    assert_eq!(state.updates, 1);
}

#[test]
fn two_presses_then_quit() {
    let mut main_loop: MainLoop<StatePlaying> = MainLoop::new();
    assert!(!main_loop.is_running());
    main_loop.push(StatePlaying::new());
    assert!(main_loop.is_running());

    let first = main_loop.run_frame(&vec![press(5, 5), press(9, 9)]).unwrap();
    assert!(!first.quit);
    assert_eq!(first.consumed, 2);
    assert_eq!(first.commands, frame_around(vec![grey(), square(), square()]));
    let goat = ActiveIngredient { ingredient: Ingredient::Goat, pos: v2 { x: 10, y: 10 } };
    assert_eq!(
        main_loop.active().map(|s| s.active_ingredients().clone()),
        Some(vec![goat, goat])
    );
    assert!(main_loop.is_running());

    let last = main_loop.run_frame(&vec![InputEvent::Quit]).unwrap();
    assert!(last.quit);
    assert_eq!(last.consumed, 1);
    assert_eq!(last.commands, frame_around(vec![grey(), square(), square()]));
    assert!(!main_loop.is_running());
    assert!(main_loop.run_frame(&Vec::new()).is_none());
    assert_eq!(main_loop.active().map(|s| s.active_ingredients().len()), Some(2));
}

#[test]
fn run_stops_after_the_frame_that_takes_quit() {
    let mut main_loop: MainLoop<StatePlaying> = MainLoop::new();
    main_loop.push(StatePlaying::new());
    let batches = vec![
        vec![press(5, 5), press(9, 9)],
        Vec::new(),
        vec![press(1, 1), InputEvent::Quit, press(2, 2)],
        vec![press(3, 3)],
    ];
    let frames = main_loop.run(&batches);
    assert_eq!(frames.len(), 3);
    assert_eq!(frames[0].commands, frame_around(vec![grey(), square(), square()]));
    assert_eq!(frames[1].commands, frame_around(vec![grey(), square(), square()]));
    assert_eq!(frames[2].commands, frame_around(vec![grey(), square(), square(), square()]));
    assert_eq!(frames[2].consumed, 2);
    assert!(!frames[0].quit && !frames[1].quit && frames[2].quit);
    assert!(main_loop.force_quit());
    assert!(!main_loop.is_running());
    assert_eq!(main_loop.active().map(|s| s.active_ingredients().len()), Some(3));
}

#[test]
fn run_without_quit_uses_every_batch() {
    let mut main_loop: MainLoop<Counting> = MainLoop::new();
    main_loop.push(Counting::new());
    let frames = main_loop.run(&vec![vec![press(1, 1)], Vec::new(), vec![InputEvent::Other]]);
    assert_eq!(frames.len(), 3);
    assert!(main_loop.is_running());
    assert_eq!(main_loop.active().map(|s| (s.events.len(), s.updates)), Some((2, 3)));
    assert!(main_loop.run(&Vec::new()).is_empty());
    assert!(main_loop.is_running());
}
