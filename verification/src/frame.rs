//! One frame on one state: route the pending events, tick, draw.

use vstd::prelude::*;
use crate::draw::{append_commands, clear_frame, clearing, DrawCommand};
use crate::event::InputEvent;
use crate::state::{after_events, GameState};

verus! {

/// The number of events that come before the first quit signal; the number
/// of all events where there is none.
pub open spec fn first_quit(events: Seq<InputEvent>) -> int
    decreases events.len(),
{
    if events.len() == 0 || events[0] == InputEvent::Quit {
        0
    } else {
        1 + first_quit(events.drop_first())
    }
}

/// Whether the events hold a quit signal.
pub open spec fn quits(events: Seq<InputEvent>) -> bool {
    first_quit(events) < events.len()
}

/// The events that reach the state: those before the first quit signal.
pub open spec fn routed(events: Seq<InputEvent>) -> Seq<InputEvent> {
    events.take(first_quit(events))
}

/// The number of events that one frame takes from the pending ones: all of
/// them, or those up to and with the first quit signal.
pub open spec fn consumed(events: Seq<InputEvent>) -> int {
    if quits(events) {
        first_quit(events) + 1
    } else {
        events.len() as int
    }
}

/// The view of a state after one frame with these pending events: the
/// routed events taken in order, then one tick.
pub open spec fn after_frame<S: GameState>(state: S::V, events: Seq<InputEvent>) -> S::V {
    S::after_update(after_events::<S>(state, routed(events)))
}

/// What one frame asks of the display for a state with this view: the
/// cleared window, the state's drawing, then the presentation.
pub open spec fn frame_commands<S: GameState>(state: S::V) -> Seq<DrawCommand> {
    clearing() + S::drawing(state) + seq![DrawCommand::Present]
}

/// `first_quit` is a place in the events, no event before it is a quit
/// signal, and the event at it, if there is one, is.
pub proof fn lemma_first_quit(events: Seq<InputEvent>)
    ensures
        0 <= first_quit(events) <= events.len(),
        forall|j: int| 0 <= j < first_quit(events) ==> events[j] != InputEvent::Quit,
        first_quit(events) < events.len() ==> events[first_quit(events)] == InputEvent::Quit,
    decreases events.len(),
{
    if events.len() == 0 || events[0] == InputEvent::Quit {
    } else {
        let rest = events.drop_first();
        lemma_first_quit(rest);
        assert forall|j: int| 0 <= j < first_quit(events) implies events[j]
            != InputEvent::Quit by {
            if j > 0 {
                assert(events[j] == rest[j - 1]);
            }
        }
        if first_quit(events) < events.len() {
            assert(events[first_quit(events)] == rest[first_quit(rest)]);
        }
    }
}

/// A place with no quit signal before it, which is the end of the events or
/// holds a quit signal, is `first_quit`.
pub proof fn lemma_first_quit_is(events: Seq<InputEvent>, at: int)
    requires
        0 <= at <= events.len(),
        forall|j: int| 0 <= j < at ==> events[j] != InputEvent::Quit,
        at < events.len() ==> events[at] == InputEvent::Quit,
    ensures
        first_quit(events) == at,
    decreases events.len(),
{
    if events.len() == 0 || events[0] == InputEvent::Quit {
    } else {
        let rest = events.drop_first();
        assert forall|j: int| 0 <= j < at - 1 implies rest[j] != InputEvent::Quit by {
            assert(rest[j] == events[j + 1]);
        }
        lemma_first_quit_is(rest, at - 1);
    }
}

/// The view of a state after one frame for each batch of pending events,
/// in order.
pub open spec fn after_frames<S: GameState>(state: S::V, batches: Seq<Seq<InputEvent>>) -> S::V
    decreases batches.len(),
{
    if batches.len() == 0 {
        state
    } else {
        after_frame::<S>(after_frames::<S>(state, batches.drop_last()), batches.last())
    }
}

/// The number of frames that a running loop makes of these batches, one
/// batch to a frame: the frame that takes a quit signal is the last.
pub open spec fn frames_run(batches: Seq<Seq<InputEvent>>) -> int
    decreases batches.len(),
{
    if batches.len() == 0 {
        0
    } else if quits(batches[0]) {
        1
    } else {
        1 + frames_run(batches.drop_first())
    }
}

/// A count of frames is `frames_run` where no frame before the last one
/// counted took a quit signal, and the last one did or the batches ran out.
pub proof fn lemma_frames_run_is(batches: Seq<Seq<InputEvent>>, n: int)
    requires
        0 <= n <= batches.len(),
        forall|j: int| 0 <= j < n - 1 ==> !quits(batches[j]),
        n == batches.len() || (n > 0 && quits(batches[n - 1])),
    ensures
        frames_run(batches) == n,
    decreases batches.len(),
{
    if batches.len() == 0 {
    } else if quits(batches[0]) {
        if n != 1 {
            assert(!quits(batches[0]));
        }
    } else {
        let rest = batches.drop_first();
        assert forall|j: int| 0 <= j < n - 2 implies !quits(rest[j]) by {
            assert(rest[j] == batches[j + 1]);
        }
        assert(n - 1 > 0 ==> rest[n - 2] == batches[n - 1]);
        lemma_frames_run_is(rest, n - 1);
    }
}

/// A running loop makes at least one frame of any batches, and no more
/// frames than there are batches. Only its last frame can have taken a quit
/// signal, and it stops before the batches run out only on one.
pub proof fn lemma_frames_run(batches: Seq<Seq<InputEvent>>)
    ensures
        0 <= frames_run(batches) <= batches.len(),
        batches.len() > 0 ==> frames_run(batches) > 0,
        forall|j: int| 0 <= j < frames_run(batches) - 1 ==> !quits(batches[j]),
        frames_run(batches) < batches.len() ==> quits(batches[frames_run(batches) - 1]),
    decreases batches.len(),
{
    if batches.len() == 0 || quits(batches[0]) {
    } else {
        let rest = batches.drop_first();
        lemma_frames_run(rest);
        assert forall|j: int| 0 <= j < frames_run(batches) - 1 implies !quits(batches[j]) by {
            if j > 0 {
                assert(batches[j] == rest[j - 1]);
            }
        }
        if frames_run(batches) < batches.len() {
            assert(batches[frames_run(batches) - 1] == rest[frames_run(rest) - 1]);
        }
    }
}

/// The frame that takes the first quit signal is the last one that a
/// running loop makes, whatever batches would follow.
pub proof fn lemma_quit_frame_is_last(
    before: Seq<Seq<InputEvent>>,
    quitting: Seq<InputEvent>,
    after: Seq<Seq<InputEvent>>,
)
    requires
        forall|j: int| 0 <= j < before.len() ==> !quits(before[j]),
        quits(quitting),
    ensures
        frames_run(before + seq![quitting] + after) == before.len() + 1,
{
    let batches = before + seq![quitting] + after;
    assert(batches[before.len() as int] == quitting);
    assert forall|j: int| 0 <= j < before.len() implies !quits(batches[j]) by {
        assert(batches[j] == before[j]);
    }
    lemma_frames_run_is(batches, before.len() as int + 1);
}

/// A quit signal halts the routing: of the pending events only those before
/// the first quit signal reach the state, whatever comes after it, and the
/// frame still ends with its one tick.
pub proof fn lemma_quit_halts_routing<S: GameState>(
    state: S::V,
    before: Seq<InputEvent>,
    after: Seq<InputEvent>,
)
    requires
        forall|j: int| 0 <= j < before.len() ==> before[j] != InputEvent::Quit,
    ensures
        quits(before + seq![InputEvent::Quit] + after),
        routed(before + seq![InputEvent::Quit] + after) == before,
        consumed(before + seq![InputEvent::Quit] + after) == before.len() + 1,
        after_frame::<S>(state, before + seq![InputEvent::Quit] + after) == S::after_update(
            after_events::<S>(state, before),
        ),
{
    let events = before + seq![InputEvent::Quit] + after;
    assert(events[before.len() as int] == InputEvent::Quit);
    assert forall|j: int| 0 <= j < before.len() implies events[j] != InputEvent::Quit by {
        assert(events[j] == before[j]);
    }
    lemma_first_quit_is(events, before.len() as int);
    assert(events.take(before.len() as int) =~= before);
}

/// Without a quit signal every pending event reaches the state, in order.
pub proof fn lemma_no_quit_routes_all(events: Seq<InputEvent>)
    requires
        forall|j: int| 0 <= j < events.len() ==> events[j] != InputEvent::Quit,
    ensures
        !quits(events),
        routed(events) == events,
        consumed(events) == events.len(),
{
    lemma_first_quit_is(events, events.len() as int);
    assert(events.take(events.len() as int) =~= events);
}

/// What draining the pending events came to.
#[derive(Copy, Clone, Debug, PartialEq, Eq, Structural)]
pub struct Drain {
    /// The number of events taken from the pending ones.
    pub consumed: usize,
    /// Whether the quit signal was among them.
    pub quit: bool,
}

/// What one frame came to.
#[derive(Debug)]
pub struct Frame {
    /// The number of events taken from the pending ones.
    pub consumed: usize,
    /// Whether the quit signal was among them.
    pub quit: bool,
    /// What the frame asks of the display, in order.
    pub commands: Vec<DrawCommand>,
}

/// Routes the pending events to `state`, in the order in which they came.
/// The first quit signal ends the draining: it is taken and not routed,
/// and no event after it is looked at.
pub fn dispatch<S: GameState>(state: &mut S, events: &Vec<InputEvent>) -> (drain: Drain)
    ensures
        final(state)@ == after_events::<S>(old(state)@, routed(events@)),
        drain.quit == quits(events@),
        drain.consumed == consumed(events@),
{
    let mut i: usize = 0;
    let mut quit = false;
    while i < events.len() && !quit
        invariant
            i <= events.len(),
            forall|j: int| 0 <= j < i ==> events@[j] != InputEvent::Quit,
            quit ==> i < events.len() && events@[i as int] == InputEvent::Quit,
            state@ == after_events::<S>(old(state)@, events@.take(i as int)),
        decreases events.len() - i + if quit { 0int } else { 1int },
    {
        let event = events[i];
        if event.is_quit() {
            quit = true;
        } else {
            state.process_event(event);
            assert(events@.take(i + 1).drop_last() =~= events@.take(i as int));
            i += 1;
        }
    }
    proof {
        lemma_first_quit_is(events@, i as int);
    }
    Drain { consumed: if quit { i + 1 } else { i }, quit }
}

/// The commands of one frame for `state`: the window cleared to the
/// background colour, the state's own drawing, then the presentation.
pub fn draw_frame<S: GameState>(state: &S) -> (commands: Vec<DrawCommand>)
    ensures
        commands@ == frame_commands::<S>(state@),
{
    let mut commands: Vec<DrawCommand> = Vec::new();
    clear_frame(&mut commands);
    let drawn = state.render();
    append_commands(&mut commands, &drawn);
    commands.push(DrawCommand::Present);
    assert(commands@ =~= frame_commands::<S>(state@));
    commands
}

/// One whole frame on `state`: the pending events are routed up to the
/// first quit signal, the state is ticked exactly once, and the frame is
/// drawn from the state as it then is. A quit signal does not cut the
/// frame short: the tick and the drawing still happen.
pub fn drive_frame<S: GameState>(state: &mut S, events: &Vec<InputEvent>) -> (frame: Frame)
    ensures
        final(state)@ == after_frame::<S>(old(state)@, events@),
        frame.quit == quits(events@),
        frame.consumed == consumed(events@),
        frame.commands@ == frame_commands::<S>(final(state)@),
{
    let drain = dispatch(state, events);
    state.update();
    let commands = draw_frame(state);
    Frame { consumed: drain.consumed, quit: drain.quit, commands }
}

} // verus!
