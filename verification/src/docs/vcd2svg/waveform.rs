//! The elements a text waveform is drawn from.
use crate::docs::vcd2svg::symbols;
use vstd::prelude::*;

verus! {

/// What one column of a waveform shows.
#[derive(Clone, PartialEq, Eq, Debug)]
pub enum WaveformElement {
    Low,
    High,
    Value(String),
    Transition,
    RisingEdge,
    FallingEdge,
    Invalid,
    LowDensity,
    MediumDensity,
    HighDensity,
}

/// The three characters (top, middle, bottom) drawn for an element.
pub open spec fn symbols_of(e: WaveformElement) -> (char, char, char) {
    match e {
        WaveformElement::Low => (symbols::BLANK, symbols::BLANK, symbols::HORIZONTAL),
        WaveformElement::High => (symbols::HORIZONTAL, symbols::BLANK, symbols::BLANK),
        WaveformElement::Value(_) => (symbols::HORIZONTAL, symbols::BLANK, symbols::HORIZONTAL),
        WaveformElement::RisingEdge => (
            symbols::TOP_LEFT,
            symbols::VERTICAL,
            symbols::BOTTOM_RIGHT,
        ),
        WaveformElement::FallingEdge => (
            symbols::TOP_RIGHT,
            symbols::VERTICAL,
            symbols::BOTTOM_LEFT,
        ),
        WaveformElement::Transition => (
            symbols::HORIZONTAL_DOWN,
            symbols::VERTICAL,
            symbols::HORIZONTAL_UP,
        ),
        WaveformElement::Invalid => (symbols::FULL_LOWER, symbols::FULL, symbols::FULL_UPPER),
        WaveformElement::LowDensity => (
            symbols::LIGHT_LOWER,
            symbols::LIGHT,
            symbols::LIGHT_UPPER,
        ),
        WaveformElement::MediumDensity => (
            symbols::MEDIUM_LOWER,
            symbols::MEDIUM,
            symbols::MEDIUM_UPPER,
        ),
        WaveformElement::HighDensity => (symbols::FULL_LOWER, symbols::FULL, symbols::FULL_UPPER),
    }
}

impl WaveformElement {
    /// The characters for the top, middle and bottom rows of this column.
    pub fn to_symbols(&self) -> (r: (char, char, char))
        ensures
            r == symbols_of(*self),
    {
        match self {
            WaveformElement::Low => (symbols::BLANK, symbols::BLANK, symbols::HORIZONTAL),
            WaveformElement::High => (symbols::HORIZONTAL, symbols::BLANK, symbols::BLANK),
            WaveformElement::Value(_) => (symbols::HORIZONTAL, symbols::BLANK, symbols::HORIZONTAL),
            WaveformElement::RisingEdge => (
                symbols::TOP_LEFT,
                symbols::VERTICAL,
                symbols::BOTTOM_RIGHT,
            ),
            WaveformElement::FallingEdge => (
                symbols::TOP_RIGHT,
                symbols::VERTICAL,
                symbols::BOTTOM_LEFT,
            ),
            WaveformElement::Transition => (
                symbols::HORIZONTAL_DOWN,
                symbols::VERTICAL,
                symbols::HORIZONTAL_UP,
            ),
            WaveformElement::Invalid => (symbols::FULL_LOWER, symbols::FULL, symbols::FULL_UPPER),
            WaveformElement::LowDensity => (
                symbols::LIGHT_LOWER,
                symbols::LIGHT,
                symbols::LIGHT_UPPER,
            ),
            WaveformElement::MediumDensity => (
                symbols::MEDIUM_LOWER,
                symbols::MEDIUM,
                symbols::MEDIUM_UPPER,
            ),
            WaveformElement::HighDensity => (
                symbols::FULL_LOWER,
                symbols::FULL,
                symbols::FULL_UPPER,
            ),
        }
    }
}

/// Law: an edge is drawn as a vertical stroke joining the two levels.  A
/// rising edge comes from the bottom line on its left (`┘`) and leaves on
/// the top line to its right (`┌`); a falling edge comes from the top line
/// on its left (`┐`) and leaves on the bottom line to its right (`└`).  The
/// two edges are drawn differently, and each joins the level drawn before
/// it to the level drawn after it.
pub proof fn law_edges_join_levels()
    ensures
        symbols_of(WaveformElement::RisingEdge) == ('┌', '│', '┘'),
        symbols_of(WaveformElement::FallingEdge) == ('┐', '│', '└'),
        symbols_of(WaveformElement::RisingEdge) != symbols_of(WaveformElement::FallingEdge),
        symbols_of(WaveformElement::Low).2 == '─' && symbols_of(WaveformElement::Low).0 == ' ',
        symbols_of(WaveformElement::High).0 == '─' && symbols_of(WaveformElement::High).2 == ' ',
{
}

/// Law: a steady value is drawn between a top and a bottom line with room
/// for its label between them, a transition between two values crosses
/// from one pair of lines to the next (`┬`, `│`, `┴`), and the densities
/// of changes are drawn with ever darker shades: light (`░`), medium
/// (`▒`), full blocks for many changes, like an unknown value.
pub proof fn law_values_and_densities()
    ensures
        forall|v: String| #[trigger] symbols_of(WaveformElement::Value(v)) == ('─', ' ', '─'),
        symbols_of(WaveformElement::Transition) == ('┬', '│', '┴'),
        symbols_of(WaveformElement::LowDensity) == ('░', '░', '░'),
        symbols_of(WaveformElement::MediumDensity) == ('▒', '▒', '▒'),
        symbols_of(WaveformElement::HighDensity) == ('▄', '█', '▀'),
        symbols_of(WaveformElement::Invalid) == ('▄', '█', '▀'),
{
}

} // verus!
