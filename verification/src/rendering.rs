//! Rendering values that frames carry to the renderer.

use vstd::prelude::*;

verus! {

/// RGBA color; the channels are bytes so renderers can convert them directly.
#[derive(Debug, Clone, Copy, PartialEq, Eq, Structural)]
pub struct Color {
    pub r: u8,
    pub g: u8,
    pub b: u8,
    pub a: u8,
}

/// The color a frame clears with when it holds no clear command.
pub open spec fn default_clear_color() -> Color {
    Color { r: 5, g: 5, b: 7, a: 255 }
}

/// The clear color of a frame whose commands are given in order, each as the
/// color it clears with or `None` when it is no clear command.
pub open spec fn spec_frame_clear_color(clears: Seq<Option<Color>>) -> Color
    decreases clears.len(),
{
    if clears.len() == 0 {
        default_clear_color()
    } else {
        match clears.last() {
            Some(c) => c,
            None => spec_frame_clear_color(clears.drop_last()),
        }
    }
}

/// The color a frame clears the window with: that of its last clear command,
/// or the default color when it has none.
pub fn frame_clear_color(clears: &[Option<Color>]) -> (c: Color)
    ensures
        c == spec_frame_clear_color(clears@),
{
    let mut color = Color { r: 5, g: 5, b: 7, a: 255 };
    let mut i: usize = 0;
    while i < clears.len()
        invariant
            0 <= i <= clears@.len(),
            color == spec_frame_clear_color(clears@.subrange(0, i as int)),
        decreases clears.len() - i,
    {
        proof {
            assert(clears@.subrange(0, i + 1).drop_last() =~= clears@.subrange(0, i as int));
        }
        match clears[i] {
            Some(c) => {
                color = c;
            },
            None => {},
        }
        i = i + 1;
    }
    proof {
        assert(clears@.subrange(0, i as int) =~= clears@);
    }
    color
}

} // verus!
