//! What every game state offers to the loop.

use vstd::prelude::*;
use crate::draw::DrawCommand;
use crate::event::InputEvent;

verus! {

/// One mode or screen of the game: it takes input, advances and draws itself.
///
/// The view of a state is what the contracts below speak of. The three spec
/// functions say what each operation does to that view.
pub trait GameState: View {
    /// The view after the state has taken `event`.
    spec fn after_event(state: Self::V, event: InputEvent) -> Self::V;

    /// The view after one tick.
    spec fn after_update(state: Self::V) -> Self::V;

    /// The commands that draw a state with this view.
    spec fn drawing(state: Self::V) -> Seq<DrawCommand>;

    /// Takes one input event. An event that means nothing to the state
    /// leaves it as it is.
    fn process_event(&mut self, event: InputEvent)
        ensures
            final(self)@ == Self::after_event(old(self)@, event),
    ;

    /// Advances the state by one tick.
    fn update(&mut self)
        ensures
            final(self)@ == Self::after_update(old(self)@),
    ;

    /// The draw commands that show the state. Drawing changes nothing.
    fn render(&self) -> (commands: Vec<DrawCommand>)
        ensures
            commands@ == Self::drawing(self@),
    ;
}

/// The view after the state has taken each of `events` in turn.
pub open spec fn after_events<S: GameState>(state: S::V, events: Seq<InputEvent>) -> S::V
    decreases events.len(),
{
    if events.len() == 0 {
        state
    } else {
        S::after_event(after_events::<S>(state, events.drop_last()), events.last())
    }
}

} // verus!
