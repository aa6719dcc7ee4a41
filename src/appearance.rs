use vstd::prelude::*;
use crate::cell::{Cell, Color};
use crate::constants::SCALE;
use crate::field::{light_at, sample_light, terrain_wf};
use crate::fixed::{clamp, div_trunc_i128, fx_mul};

verus! {

/// Brightness of a cell standing in darkness (0.2).
pub const LOWEST_CELL_BRIGHTNESS: i64 = 200_000;

/// The three coloured parts of a cell.
#[derive(Clone, Copy, Debug, PartialEq, Eq, Structural)]
pub enum ColorPart {
    Membrane,
    Inside,
    Nucleus,
}

/// The colour of one part of a cell.
pub open spec fn part_color(c: Cell, part: ColorPart) -> Color {
    match part {
        ColorPart::Membrane => c.membrane_color,
        ColorPart::Inside => c.inside_color,
        ColorPart::Nucleus => c.nucleus_color,
    }
}

/// Brightness under the light value `light`: from the lowest brightness in darkness
/// up to full brightness in full light, held within `[0, 1]`.
pub open spec fn lit_value(light: int) -> int {
    clamp(
        LOWEST_CELL_BRIGHTNESS + fx_mul(SCALE - LOWEST_CELL_BRIGHTNESS, light),
        0,
        SCALE as int,
    )
}

impl Cell {
    /// The colour of one part of the cell.
    pub fn color_of(&self, part: ColorPart) -> (r: Color)
        ensures
            r == part_color(*self, part),
    {
        match part {
            ColorPart::Membrane => self.membrane_color,
            ColorPart::Inside => self.inside_color,
            ColorPart::Nucleus => self.nucleus_color,
        }
    }
}

/// The colour of one part of a cell as lit by the light field under it: its hue,
/// saturation and alpha, with a brightness that follows the light.
pub fn cell_lighting(cell: &Cell, terrain: &Vec<Vec<i64>>, part: ColorPart) -> (r: Color)
    requires
        cell.wf(),
        terrain_wf(terrain@),
    ensures
        r == (Color {
            value: lit_value(light_at(terrain@, cell.x_pos as int, cell.y_pos as int) as int) as i64,
            ..part_color(*cell, part)
        }),
        r.wf(),
{
    let c = cell.color_of(part);
    let light = sample_light(terrain, cell.x_pos, cell.y_pos);
    let v = LOWEST_CELL_BRIGHTNESS as i128 + div_trunc_i128(
        (SCALE - LOWEST_CELL_BRIGHTNESS) as i128 * light as i128,
        SCALE as i128,
    );
    let value = if v < 0 { 0 } else if v > SCALE as i128 { SCALE } else { v as i64 };
    Color { value, ..c }
}

} // verus!
