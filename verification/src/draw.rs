//! What a frame asks of the display: a list of draw commands.

use vstd::prelude::*;

verus! {

/// The width of the window, in pixels.
pub const WINDOW_WIDTH: u32 = 800;

/// The height of the window, in pixels.
pub const WINDOW_HEIGHT: u32 = 600;

/// An opaque colour.
#[derive(Copy, Clone, Debug, PartialEq, Eq, Structural)]
pub struct Color {
    pub r: u8,
    pub g: u8,
    pub b: u8,
}

/// One request to the display.
#[derive(Copy, Clone, Debug, PartialEq, Eq, Structural)]
pub enum DrawCommand {
    /// Draw with this colour from now on.
    SetColor(Color),
    /// Fill the rectangle with the given top-left corner and sides.
    FillRect { x: i32, y: i32, width: u32, height: u32 },
    /// Show what has been drawn.
    Present,
}

/// The colour that every frame starts from.
pub open spec fn background() -> Color {
    Color { r: 0xBB, g: 0xAD, b: 0xA0 }
}

/// The commands that clear the frame: the whole window filled with the
/// background colour.
pub open spec fn clearing() -> Seq<DrawCommand> {
    seq![
        DrawCommand::SetColor(background()),
        DrawCommand::FillRect { x: 0, y: 0, width: WINDOW_WIDTH, height: WINDOW_HEIGHT },
    ]
}

/// Appends the commands that clear the frame.
pub fn clear_frame(commands: &mut Vec<DrawCommand>)
    ensures
        final(commands)@ == old(commands)@ + clearing(),
{
    commands.push(DrawCommand::SetColor(Color { r: 0xBB, g: 0xAD, b: 0xA0 }));
    commands.push(
        DrawCommand::FillRect { x: 0, y: 0, width: WINDOW_WIDTH, height: WINDOW_HEIGHT },
    );
    assert(commands@ =~= old(commands)@ + clearing());
}

/// Appends every command of `more`, in order.
pub fn append_commands(commands: &mut Vec<DrawCommand>, more: &Vec<DrawCommand>)
    ensures
        final(commands)@ == old(commands)@ + more@,
{
    let mut i: usize = 0;
    while i < more.len()
        invariant
            i <= more.len(),
            commands@ == old(commands)@ + more@.take(i as int),
        decreases more.len() - i,
    {
        commands.push(more[i]);
        assert(commands@ =~= old(commands)@ + more@.take(i + 1));
        i += 1;
    }
    assert(more@.take(i as int) =~= more@);
}

} // verus!
