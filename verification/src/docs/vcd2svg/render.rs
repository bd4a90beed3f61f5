//! Choosing the waveform element for each time bin of a trace.
use crate::docs::vcd2svg::timed_value::{Renderable, SignalType, TimedValue};
use crate::docs::vcd2svg::waveform::WaveformElement;
use vstd::prelude::*;

verus! {

/// The values of a signal within one time bin, with the values in force
/// before and after it.
pub struct SignalBin<T: SignalType> {
    pub start_time: u64,
    pub end_time: u64,
    pub values: Vec<TimedValue<T>>,
    pub before: Option<T>,
    pub after: Option<T>,
    pub changes: usize,
}

/// Whether `e` is the element for a bin of a multi-bit signal: unknown
/// before any value, a steady value (labelled with the value in force
/// before the bin, or `?` when that is unknown), one transition, or a density of transitions (up to 3, up
/// to 10, more).
pub open spec fn multibit_matches<T: SignalType>(e: WaveformElement, bin: SignalBin<T>) -> bool {
    if bin.after is None {
        e == WaveformElement::Invalid
    } else if bin.changes == 0 || (bin.changes == 1 && bin.before is None) {
        &&& e is Value
        &&& bin.before is None ==> e->Value_0@ == seq!['?']
        &&& bin.before matches Some(b) ==> e->Value_0@ == b.rendered()
    } else if bin.changes == 1 {
        e == WaveformElement::Transition
    } else if bin.changes <= 3 {
        e == WaveformElement::LowDensity
    } else if bin.changes <= 10 {
        e == WaveformElement::MediumDensity
    } else {
        e == WaveformElement::HighDensity
    }
}

/// The element a bin of a one-bit signal shows: the level when steady, the
/// edge on one change, else as for a multi-bit signal.
pub open spec fn bool_element(bin: SignalBin<bool>) -> WaveformElement {
    if bin.after is None {
        WaveformElement::Invalid
    } else if bin.changes == 0 || (bin.changes == 1 && bin.before is None) {
        if !bin.after->0 {
            WaveformElement::Low
        } else {
            WaveformElement::High
        }
    } else if bin.changes == 1 {
        if !bin.before->0 {
            WaveformElement::RisingEdge
        } else {
            WaveformElement::FallingEdge
        }
    } else if bin.changes <= 3 {
        WaveformElement::LowDensity
    } else if bin.changes <= 10 {
        WaveformElement::MediumDensity
    } else {
        WaveformElement::HighDensity
    }
}

/// One element per bin of a multi-bit signal; a steady bin shows the value
/// in force before it, or `?` when none is known.
pub fn render_multibit<T: SignalType>(bins: &[SignalBin<T>]) -> (r: Vec<WaveformElement>)
    ensures
        r.len() == bins.len(),
        forall|i: int| 0 <= i < bins.len() ==> multibit_matches(#[trigger] r@[i], bins@[i]),
{
    let mut out: Vec<WaveformElement> = Vec::new();
    for k in 0..bins.len()
        invariant
            out.len() == k,
            forall|i: int| 0 <= i < k ==> multibit_matches(#[trigger] out@[i], bins@[i]),
    {
        let bin = &bins[k];
        let e = if bin.after.is_none() {
            WaveformElement::Invalid
        } else if bin.changes == 0 || (bin.changes == 1 && bin.before.is_none()) {
            match &bin.before {
                Some(b) => WaveformElement::Value(b.render()),
                None => {
                    proof {
                        reveal_strlit("?");
                        assert("?"@ =~= seq!['?']);
                    }
                    WaveformElement::Value(String::from_str("?"))
                },
            }
        } else if bin.changes == 1 {
            WaveformElement::Transition
        } else if bin.changes <= 3 {
            WaveformElement::LowDensity
        } else if bin.changes <= 10 {
            WaveformElement::MediumDensity
        } else {
            WaveformElement::HighDensity
        };
        out.push(e);
    }
    out
}

/// One element per bin of a one-bit signal.
pub fn render_bool(bins: &[SignalBin<bool>]) -> (r: Vec<WaveformElement>)
    ensures
        r.len() == bins.len(),
        forall|i: int| 0 <= i < bins.len() ==> #[trigger] r@[i] == bool_element(bins@[i]),
{
    let mut out: Vec<WaveformElement> = Vec::new();
    for k in 0..bins.len()
        invariant
            out.len() == k,
            forall|i: int| 0 <= i < k ==> #[trigger] out@[i] == bool_element(bins@[i]),
    {
        let bin = &bins[k];
        let e = if bin.after.is_none() {
            WaveformElement::Invalid
        } else if bin.changes == 0 || (bin.changes == 1 && bin.before.is_none()) {
            let level = match bin.after {
                Some(x) => x,
                None => false,
            };
            if !level {
                WaveformElement::Low
            } else {
                WaveformElement::High
            }
        } else if bin.changes == 1 {
            match bin.before {
                Some(x) => if !x {
                    WaveformElement::RisingEdge
                } else {
                    WaveformElement::FallingEdge
                },
                None => WaveformElement::Invalid,
            }
        } else if bin.changes <= 3 {
            WaveformElement::LowDensity
        } else if bin.changes <= 10 {
            WaveformElement::MediumDensity
        } else {
            WaveformElement::HighDensity
        };
        out.push(e);
    }
    out
}

} // verus!
