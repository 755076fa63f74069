//! The loop around the stack: which state is active, and when the loop ends.

use vstd::prelude::*;
use crate::draw::DrawCommand;
use crate::event::InputEvent;
use crate::frame::{
    after_frame, after_frames, consumed, draw_frame, drive_frame, frame_commands, frames_run,
    lemma_frames_run_is, quits, Frame,
};
use crate::stack::{top_of, StateStack};
use crate::state::GameState;

verus! {

/// `after` is `before` with nothing but its top changed, and the view of
/// the new top is `top`. An empty stack has no top to change.
pub open spec fn top_becomes<S: GameState>(before: Seq<S>, after: Seq<S>, top: S::V) -> bool {
    &&& before.len() > 0
    &&& after.len() == before.len()
    &&& after.drop_last() == before.drop_last()
    &&& after.last()@ == top
}

/// What each batch of pending events holds.
pub open spec fn batch_views(batches: Seq<Vec<InputEvent>>) -> Seq<Seq<InputEvent>> {
    batches.map_values(|batch: Vec<InputEvent>| batch@)
}

/// The stack of states and the flag that ends the loop.
pub struct MainLoop<S> {
    stack: StateStack<S>,
    force_quit: bool,
}

impl<S: GameState> MainLoop<S> {
    /// The states on the stack, bottom first.
    pub closed spec fn states(&self) -> Seq<S> {
        self.stack@
    }

    /// Whether a quit signal has been taken.
    pub closed spec fn quit_requested(&self) -> bool {
        self.force_quit
    }

    /// The condition under which the loop goes on: there is a state, and
    /// no quit signal has been taken.
    pub open spec fn running(&self) -> bool {
        self.states().len() > 0 && !self.quit_requested()
    }

    /// A loop with no state yet and no quit signal taken.
    pub fn new() -> (main_loop: Self)
        ensures
            main_loop.states() == Seq::<S>::empty(),
            !main_loop.quit_requested(),
    {
        MainLoop { stack: StateStack::new(), force_quit: false }
    }

    /// Makes `state` the active state; the states below stay as they are.
    pub fn push(&mut self, state: S)
        ensures
            final(self).states() == old(self).states().push(state),
            final(self).quit_requested() == old(self).quit_requested(),
    {
        self.stack.push(state);
    }

    /// Takes the active state off the stack and hands it to the caller, who
    /// releases it; the state below, if any, becomes the active one. `None`
    /// on an empty stack, which stays empty.
    pub fn pop(&mut self) -> (r: Option<S>)
        ensures
            r == top_of(old(self).states()),
            old(self).states().len() == 0 ==> final(self).states() == old(self).states(),
            old(self).states().len() != 0 ==> final(self).states()
                == old(self).states().drop_last(),
            final(self).quit_requested() == old(self).quit_requested(),
    {
        self.stack.pop()
    }

    /// The number of states on the stack.
    pub fn depth(&self) -> (n: usize)
        ensures
            n == self.states().len(),
    {
        self.stack.len()
    }

    /// The active state, to be changed in place; `None` on an empty stack.
    pub fn active(&mut self) -> (r: Option<&mut S>)
        ensures
            final(self).quit_requested() == old(self).quit_requested(),
            r.is_none() ==> top_of(old(self).states()).is_none()
                && final(self).states() == old(self).states(),
            r.is_some() ==> top_of(old(self).states()) == Some(*r.unwrap())
                && final(self).states() == old(self).states().update(
                    old(self).states().len() - 1,
                    *final(r.unwrap()),
                ),
    {
        self.stack.peek_top()
    }

    /// Whether a quit signal has been taken.
    pub fn force_quit(&self) -> (quit: bool)
        ensures
            quit == self.quit_requested(),
    {
        self.force_quit
    }

    /// Whether the loop goes on to another frame.
    pub fn is_running(&self) -> (on: bool)
        ensures
            on == self.running(),
    {
        !self.stack.is_empty() && !self.force_quit
    }

    /// Takes one pending event, and says whether the draining goes on.
    ///
    /// The quit signal sets the flag that ends the loop, reaches no state
    /// and ends the draining. Any other event goes to the active state, and
    /// to no other; with no state on the stack it is dropped.
    pub fn handle_event(&mut self, event: InputEvent) -> (more: bool)
        ensures
            more == (event != InputEvent::Quit),
            event == InputEvent::Quit ==> {
                &&& final(self).quit_requested()
                &&& final(self).states() == old(self).states()
            },
            event != InputEvent::Quit ==> {
                &&& final(self).quit_requested() == old(self).quit_requested()
                &&& old(self).states().len() == 0 ==> final(self).states() == old(self).states()
                &&& old(self).states().len() != 0 ==> top_becomes(
                    old(self).states(),
                    final(self).states(),
                    S::after_event(old(self).states().last()@, event),
                )
            },
    {
        if event.is_quit() {
            self.force_quit = true;
            false
        } else {
            match self.stack.peek_top() {
                Some(state) => {
                    state.process_event(event);
                },
                None => {},
            }
            assert(old(self).states().len() != 0 ==> self.states().drop_last()
                =~= old(self).states().drop_last());
            true
        }
    }

    /// Ends a frame whose events have been drained: ticks the active state
    /// exactly once, then draws the frame from the state as it then is.
    /// `None` on an empty stack, where there is nothing to tick or draw.
    pub fn finish_frame(&mut self) -> (r: Option<Vec<DrawCommand>>)
        ensures
            final(self).quit_requested() == old(self).quit_requested(),
            old(self).states().len() == 0 ==> {
                &&& r.is_none()
                &&& final(self).states() == old(self).states()
            },
            old(self).states().len() != 0 ==> {
                &&& r.is_some()
                &&& top_becomes(
                    old(self).states(),
                    final(self).states(),
                    S::after_update(old(self).states().last()@),
                )
                &&& r.unwrap()@ == frame_commands::<S>(final(self).states().last()@)
            },
    {
        let r = match self.stack.peek_top() {
            Some(state) => {
                state.update();
                Some(draw_frame(state))
            },
            None => None,
        };
        assert(old(self).states().len() != 0 ==> self.states().drop_last()
            =~= old(self).states().drop_last());
        r
    }

    /// Runs one frame of the loop with the events that are pending.
    ///
    /// Where the loop is over (no state, or a quit signal taken before)
    /// nothing happens and the result is `None`. Otherwise the active state,
    /// and no other, is handed the events up to the first quit signal, is
    /// ticked once and drawn once. A quit signal among the events ends the
    /// loop, but only after this frame has been ticked, drawn and presented.
    pub fn run_frame(&mut self, events: &Vec<InputEvent>) -> (r: Option<Frame>)
        ensures
            !old(self).running() ==> {
                &&& r.is_none()
                &&& final(self).states() == old(self).states()
                &&& final(self).quit_requested() == old(self).quit_requested()
            },
            old(self).running() ==> {
                &&& r.is_some()
                &&& top_becomes(
                    old(self).states(),
                    final(self).states(),
                    after_frame::<S>(old(self).states().last()@, events@),
                )
                &&& final(self).quit_requested() == quits(events@)
                &&& final(self).running() == !quits(events@)
                &&& r.unwrap().quit == quits(events@)
                &&& r.unwrap().consumed == consumed(events@)
                &&& r.unwrap().commands@ == frame_commands::<S>(final(self).states().last()@)
            },
    {
        if self.force_quit {
            return None;
        }
        let r = match self.stack.peek_top() {
            Some(state) => Some(drive_frame(state, events)),
            None => None,
        };
        assert(old(self).states().len() != 0 ==> self.states().drop_last()
            =~= old(self).states().drop_last());
        match &r {
            Some(frame) => {
                self.force_quit = frame.quit;
            },
            None => {},
        }
        r
    }

    /// Runs the loop, one frame for each batch of pending events, until the
    /// loop is over or the batches run out, and hands back the frames made.
    ///
    /// A loop that is over at the start makes no frame. Otherwise the frame
    /// that takes a quit signal is made in full and is the last one. No
    /// state but the active one is touched.
    pub fn run(&mut self, batches: &Vec<Vec<InputEvent>>) -> (frames: Vec<Frame>)
        ensures
            !old(self).running() ==> {
                &&& frames@.len() == 0
                &&& final(self).states() == old(self).states()
                &&& final(self).quit_requested() == old(self).quit_requested()
            },
            old(self).running() ==> frames@.len() == frames_run(batch_views(batches@)),
            old(self).running() && batches@.len() == 0 ==> {
                &&& final(self).states() == old(self).states()
                &&& !final(self).quit_requested()
            },
            old(self).running() && batches@.len() != 0 ==> {
                &&& top_becomes(
                    old(self).states(),
                    final(self).states(),
                    after_frames::<S>(
                        old(self).states().last()@,
                        batch_views(batches@).take(frames@.len() as int),
                    ),
                )
                &&& final(self).quit_requested() == quits(batches@[frames@.len() - 1]@)
            },
            old(self).running() ==> forall|k: int|
                0 <= k < frames@.len() ==> {
                    &&& (#[trigger] frames@[k]).quit == quits(batches@[k]@)
                    &&& frames@[k].consumed == consumed(batches@[k]@)
                    &&& frames@[k].commands@ == frame_commands::<S>(
                        after_frames::<S>(
                            old(self).states().last()@,
                            batch_views(batches@).take(k + 1),
                        ),
                    )
                },
    {
        let mut frames: Vec<Frame> = Vec::new();
        if !self.is_running() {
            return frames;
        }
        let ghost views = batch_views(batches@);
        let ghost start = old(self).states().last()@;
        let mut k: usize = 0;
        assert(views.take(0) =~= Seq::<Seq<InputEvent>>::empty());
        while k < batches.len() && self.is_running()
            invariant
                k <= batches.len(),
                views == batch_views(batches@),
                start == old(self).states().last()@,
                old(self).running(),
                frames@.len() == k,
                k == 0 ==> self.states() == old(self).states(),
                self.states().len() == old(self).states().len(),
                self.states().drop_last() == old(self).states().drop_last(),
                self.states().last()@ == after_frames::<S>(start, views.take(k as int)),
                forall|j: int| 0 <= j < k - 1 ==> !quits(views[j]),
                self.quit_requested() == (k > 0 && quits(views[k - 1])),
                forall|j: int|
                    0 <= j < k ==> {
                        &&& (#[trigger] frames@[j]).quit == quits(batches@[j]@)
                        &&& frames@[j].consumed == consumed(batches@[j]@)
                        &&& frames@[j].commands@ == frame_commands::<S>(
                            after_frames::<S>(start, views.take(j + 1)),
                        )
                    },
            decreases batches.len() - k,
        {
            let ghost before = self.states();
            let r = self.run_frame(&batches[k]);
            proof {
                assert(views.take(k + 1).drop_last() =~= views.take(k as int));
                assert(views.take(k + 1).last() == batches@[k as int]@);
                assert(self.states().drop_last() == before.drop_last());
            }
            match r {
                Some(frame) => {
                    frames.push(frame);
                },
                None => {},
            }
            k += 1;
        }
        proof {
            lemma_frames_run_is(views, k as int);
        }
        frames
    }
}

/// With no state on the stack the loop is over, whether or not a quit
/// signal was taken.
pub proof fn lemma_empty_stack_ends_loop<S: GameState>(main_loop: MainLoop<S>)
    requires
        main_loop.states().len() == 0,
    ensures
        top_of(main_loop.states()).is_none(),
        !main_loop.running(),
{
}

/// Once a quit signal has been taken the loop is over, whatever is on the
/// stack.
pub proof fn lemma_quit_ends_loop<S: GameState>(main_loop: MainLoop<S>)
    requires
        main_loop.quit_requested(),
    ensures
        !main_loop.running(),
{
}

} // verus!
