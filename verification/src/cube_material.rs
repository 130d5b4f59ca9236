use vstd::prelude::*;
use crate::picking::Cell;

verus! {

/// The hover words handed to the shader: `[x, y, z, 1]` for a hovered cube
/// (coordinates truncated to `u32`), `[0, 0, 0, 0]` when nothing is hovered.
pub open spec fn hover_words_of(hovered: Option<Cell>) -> Seq<u32> {
    match hovered {
        Some(c) => seq![c.0 as u32, c.1 as u32, c.2 as u32, 1u32],
        None => seq![0u32, 0u32, 0u32, 0u32],
    }
}

/// Hover target packed for the shader uniform.
pub fn hover_grid_words(hovered: Option<Cell>) -> (w: [u32; 4])
    ensures
        w@ == hover_words_of(hovered),
{
    match hovered {
        Some((x, y, z)) => [x as u32, y as u32, z as u32, 1],
        None => [0, 0, 0, 0],
    }
}

} // verus!
