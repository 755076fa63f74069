//! The playing state: ingredients placed on the table.

use vstd::prelude::*;
use crate::draw::{Color, DrawCommand};
use crate::event::InputEvent;
use crate::frame::{after_frame, frame_commands, lemma_no_quit_routes_all};
use crate::state::{after_events, GameState};
use crate::vector::v2;

verus! {

/// The side of an ingredient's picture, in pixels.
pub const INGREDIENT_SIZE: usize = 98;

/// The side of the square drawn for an ingredient, in pixels.
pub const MARKER_SIZE: u32 = 50;

/// Where `StatePlaying::new` expects the background image.
pub const BACKGROUND_IMAGE: &'static str = "../resources/bg.png";

/// What can be put on the table.
#[derive(Copy, Clone, Debug, PartialEq, Eq, Structural)]
pub enum Ingredient {
    Goldfish,
    Pheasant,
    Turkey,
    Lamb,
    Goat,
    Isaac,
}

/// An ingredient on the table.
#[derive(Copy, Clone, Debug, PartialEq, Eq, Structural)]
pub struct ActiveIngredient {
    pub ingredient: Ingredient,
    pub pos: v2,
}

/// The ingredient that a pointer press puts on the table. Its place is
/// fixed: where the pointer was makes no difference.
pub open spec fn placed() -> ActiveIngredient {
    ActiveIngredient { ingredient: Ingredient::Goat, pos: v2 { x: 10, y: 10 } }
}

/// The colour that ingredients are drawn in.
pub open spec fn marker_color() -> Color {
    Color { r: 0x80, g: 0x80, b: 0x80 }
}

/// The square drawn for one ingredient.
pub open spec fn marker(item: ActiveIngredient) -> DrawCommand {
    DrawCommand::FillRect { x: item.pos.x, y: item.pos.y, width: MARKER_SIZE, height: MARKER_SIZE }
}

/// The state in which the game is played.
pub struct StatePlaying {
    active_ingredients: Vec<ActiveIngredient>,
}

impl View for StatePlaying {
    type V = Seq<ActiveIngredient>;

    /// The ingredients on the table, oldest first.
    closed spec fn view(&self) -> Seq<ActiveIngredient> {
        self.active_ingredients@
    }
}

impl StatePlaying {
    /// A table with nothing on it.
    pub fn new() -> (state: StatePlaying)
        ensures
            state@ == Seq::<ActiveIngredient>::empty(),
    {
        StatePlaying { active_ingredients: Vec::new() }
    }

    /// The ingredients on the table, oldest first.
    pub fn active_ingredients(&self) -> (items: &Vec<ActiveIngredient>)
        ensures
            items@ == self@,
    {
        &self.active_ingredients
    }
}

impl GameState for StatePlaying {
    /// A pointer press puts one more ingredient on the table; any other
    /// event changes nothing.
    open spec fn after_event(
        state: Seq<ActiveIngredient>,
        event: InputEvent,
    ) -> Seq<ActiveIngredient> {
        if event is PointerDown {
            state.push(placed())
        } else {
            state
        }
    }

    /// A tick changes nothing.
    open spec fn after_update(state: Seq<ActiveIngredient>) -> Seq<ActiveIngredient> {
        state
    }

    /// The marker colour, then one square for each ingredient, oldest first.
    open spec fn drawing(state: Seq<ActiveIngredient>) -> Seq<DrawCommand> {
        seq![DrawCommand::SetColor(marker_color())] + state.map_values(
            |item: ActiveIngredient| marker(item),
        )
    }

    fn process_event(&mut self, event: InputEvent) {
        match event {
            InputEvent::PointerDown { .. } => {
                self.active_ingredients.push(
                    ActiveIngredient { ingredient: Ingredient::Goat, pos: v2::new(10, 10) },
                );
            },
            _ => (),
        }
    }

    fn update(&mut self) {
    }

    fn render(&self) -> (commands: Vec<DrawCommand>) {
        let mut commands: Vec<DrawCommand> = Vec::new();
        commands.push(DrawCommand::SetColor(Color { r: 0x80, g: 0x80, b: 0x80 }));
        let mut i: usize = 0;
        while i < self.active_ingredients.len()
            invariant
                i <= self.active_ingredients.len(),
                commands@ == Self::drawing(self@.take(i as int)),
            decreases self.active_ingredients.len() - i,
        {
            let ai = self.active_ingredients[i];
            commands.push(
                DrawCommand::FillRect {
                    x: ai.pos.x,
                    y: ai.pos.y,
                    width: MARKER_SIZE,
                    height: MARKER_SIZE,
                },
            );
            assert(commands@ =~= Self::drawing(self@.take(i + 1)));
            i += 1;
        }
        assert(self@.take(i as int) =~= self@);
        commands
    }
}

/// One pointer press adds exactly one ingredient, and puts it at the fixed
/// place whatever the pointer's own place was.
pub proof fn lemma_press_places_one(state: Seq<ActiveIngredient>, x: i32, y: i32)
    ensures
        StatePlaying::after_event(state, InputEvent::PointerDown { x, y }) == state.push(placed()),
        StatePlaying::after_event(state, InputEvent::PointerDown { x, y }).len() == state.len()
            + 1,
        StatePlaying::after_event(state, InputEvent::PointerDown { x, y }).last().pos == (v2 {
            x: 10,
            y: 10,
        }),
{
}

/// Drawing an empty table takes the colour and nothing else, so a frame on
/// a state that was just made holds the cleared window and the
/// presentation around that one command.
pub proof fn lemma_empty_table_drawing()
    ensures
        StatePlaying::drawing(Seq::<ActiveIngredient>::empty()) == seq![
            DrawCommand::SetColor(marker_color()),
        ],
        frame_commands::<StatePlaying>(Seq::<ActiveIngredient>::empty()) == seq![
            DrawCommand::SetColor(crate::draw::background()),
            DrawCommand::FillRect {
                x: 0,
                y: 0,
                width: crate::draw::WINDOW_WIDTH,
                height: crate::draw::WINDOW_HEIGHT,
            },
            DrawCommand::SetColor(marker_color()),
            DrawCommand::Present,
        ],
{
    assert(StatePlaying::drawing(Seq::<ActiveIngredient>::empty()) =~= seq![
        DrawCommand::SetColor(marker_color()),
    ]);
    assert(frame_commands::<StatePlaying>(Seq::<ActiveIngredient>::empty()) =~= seq![
        DrawCommand::SetColor(crate::draw::background()),
        DrawCommand::FillRect {
            x: 0,
            y: 0,
            width: crate::draw::WINDOW_WIDTH,
            height: crate::draw::WINDOW_HEIGHT,
        },
        DrawCommand::SetColor(marker_color()),
        DrawCommand::Present,
    ]);
}

/// Each pointer press adds exactly one ingredient, at the fixed place:
/// after a run of presses the table holds what it held, then one placed
/// ingredient for each press. A tick after that changes nothing, and
/// drawing takes one command for the colour and one for each ingredient.
pub proof fn lemma_presses_place_ingredients(state: Seq<ActiveIngredient>, events: Seq<InputEvent>)
    requires
        forall|i: int| 0 <= i < events.len() ==> events[i] is PointerDown,
    ensures
        after_events::<StatePlaying>(state, events) == state + Seq::new(
            events.len(),
            |i: int| placed(),
        ),
        after_events::<StatePlaying>(state, events).len() == state.len() + events.len(),
        StatePlaying::after_update(after_events::<StatePlaying>(state, events))
            == after_events::<StatePlaying>(state, events),
        StatePlaying::drawing(after_events::<StatePlaying>(state, events)).len() == state.len()
            + events.len() + 1,
    decreases events.len(),
{
    if events.len() > 0 {
        lemma_presses_place_ingredients(state, events.drop_last());
        assert(after_events::<StatePlaying>(state, events) =~= state + Seq::new(
            events.len(),
            |i: int| placed(),
        ));
    }
    assert(after_events::<StatePlaying>(state, events) =~= state + Seq::new(
        events.len(),
        |i: int| placed(),
    ));
}

/// Events other than pointer presses leave the table as it is.
pub proof fn lemma_other_events_change_nothing(
    state: Seq<ActiveIngredient>,
    events: Seq<InputEvent>,
)
    requires
        forall|i: int| 0 <= i < events.len() ==> !(events[i] is PointerDown),
    ensures
        after_events::<StatePlaying>(state, events) == state,
    decreases events.len(),
{
    if events.len() > 0 {
        lemma_other_events_change_nothing(state, events.drop_last());
    }
}

/// A frame whose pending events are pointer presses, and nothing else,
/// adds exactly one ingredient for each press. The tick and the drawing of
/// the frame add none: the frame draws one square for each ingredient that
/// is then on the table.
pub proof fn lemma_frame_of_presses(state: Seq<ActiveIngredient>, events: Seq<InputEvent>)
    requires
        forall|i: int| 0 <= i < events.len() ==> events[i] is PointerDown,
    ensures
        after_frame::<StatePlaying>(state, events) == state + Seq::new(
            events.len(),
            |i: int| placed(),
        ),
        after_frame::<StatePlaying>(state, events).len() == state.len() + events.len(),
        frame_commands::<StatePlaying>(after_frame::<StatePlaying>(state, events)).len()
            == state.len() + events.len() + 4,
{
    lemma_no_quit_routes_all(events);
    lemma_presses_place_ingredients(state, events);
}

} // verus!
