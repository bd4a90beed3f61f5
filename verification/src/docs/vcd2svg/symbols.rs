//! The box-drawing characters of text waveforms.
use vstd::prelude::*;

verus! {

pub const BLANK: char = ' ';

pub const HORIZONTAL: char = '─';

pub const VERTICAL: char = '│';

pub const TOP_LEFT: char = '┌';

pub const TOP_RIGHT: char = '┐';

pub const BOTTOM_LEFT: char = '└';

pub const BOTTOM_RIGHT: char = '┘';

pub const HORIZONTAL_DOWN: char = '┬';

pub const HORIZONTAL_UP: char = '┴';

pub const FULL: char = '█';

pub const FULL_UPPER: char = '▀';

pub const FULL_LOWER: char = '▄';

pub const LIGHT: char = '░';

pub const LIGHT_UPPER: char = '░';

pub const LIGHT_LOWER: char = '░';

pub const MEDIUM: char = '▒';

pub const MEDIUM_UPPER: char = '▒';

pub const MEDIUM_LOWER: char = '▒';

} // verus!
