//! Values of a signal stamped with the time they were taken, and the
//! reduction of a trace to its changes.
use crate::hdl_core::ast::{radix_digits, radix_text};
use crate::hdl_core::bit_math::seq_val;
use crate::text::chars::{chars_of, string_of};
use vstd::prelude::*;

verus! {

/// The value of a vector signal: its levels as the dump gives them, `'1'`
/// for high and `'0'` for low, the first taken as the least significant
/// bit.
#[derive(Clone, PartialEq, Debug)]
pub struct VectorValue {
    levels: String,
}

/// The levels as bits.
pub open spec fn levels_bits(levels: Seq<char>) -> Seq<bool> {
    levels.map_values(|c: char| c == '1')
}

/// Whether bit `i` of the levels is high (a missing bit is low).
pub open spec fn level_at(levels: Seq<char>, i: int) -> bool {
    0 <= i < levels.len() && levels[i] == '1'
}

impl VectorValue {
    /// The levels, least significant first.
    pub closed spec fn levels(&self) -> Seq<char> {
        self.levels@
    }

    /// The number the levels stand for.
    pub open spec fn value(&self) -> nat {
        seq_val(levels_bits(self.levels()))
    }

    /// The value with the given levels, least significant first.
    pub fn from_levels(levels: String) -> (r: VectorValue)
        ensures
            r.levels() == levels@,
    {
        VectorValue { levels }
    }

    /// The value with the given bits, least significant first.
    pub fn from_bits(bits: &Vec<bool>) -> (r: VectorValue)
        ensures
            levels_bits(r.levels()) == bits@,
            forall|i: int| 0 <= i < r.levels().len() ==> (#[trigger] r.levels()[i] == '0' || r.levels()[i] == '1'),
    {
        let mut cs: Vec<char> = Vec::new();
        for i in 0..bits.len()
            invariant
                cs@.len() == i,
                levels_bits(cs@) == bits@.take(i as int),
                forall|k: int| 0 <= k < i ==> (#[trigger] cs@[k] == '0' || cs@[k] == '1'),
        {
            cs.push(if bits[i] { '1' } else { '0' });
            assert(levels_bits(cs@) =~= bits@.take(i + 1));
        }
        assert(bits@.take(bits.len() as int) =~= bits@);
        VectorValue { levels: string_of(cs.as_slice()) }
    }

    /// The levels as bits, least significant first.
    fn bits(&self) -> (r: Vec<bool>)
        ensures
            r@ == levels_bits(self.levels()),
    {
        let cs = chars_of(self.levels.as_str());
        let mut r: Vec<bool> = Vec::new();
        for i in 0..cs.len()
            invariant
                cs@ == self.levels(),
                r@ == levels_bits(cs@).take(i as int),
        {
            r.push(cs[i] == '1');
            assert(r@ =~= levels_bits(cs@).take(i + 1));
        }
        assert(levels_bits(cs@).take(cs.len() as int) =~= levels_bits(cs@));
        r
    }
}

/// Values that can be shown as a label in a waveform.
pub trait Renderable {
    /// The label of the value.
    spec fn rendered(&self) -> Seq<char>;

    fn render(&self) -> (r: String)
        ensures
            r@ == self.rendered(),
    ;
}

impl Renderable for VectorValue {
    /// `0h` followed by the lowercase hexadecimal digits of the value.
    open spec fn rendered(&self) -> Seq<char> {
        seq!['0', 'h'] + radix_digits(self.value(), 16)
    }

    fn render(&self) -> (r: String) {
        let digits = radix_text(&self.bits(), 16);
        let mut r = String::from_str("0h");
        proof {
            reveal_strlit("0h");
        }
        r.append(digits.as_str());
        assert(r@ =~= seq!['0', 'h'] + radix_digits(self.value(), 16));
        r
    }
}

impl Renderable for String {
    /// The string itself.
    open spec fn rendered(&self) -> Seq<char> {
        self@
    }

    fn render(&self) -> (r: String) {
        self.clone()
    }
}

impl Renderable for bool {
    /// `1` or `0`.
    open spec fn rendered(&self) -> Seq<char> {
        if *self {
            seq!['1']
        } else {
            seq!['0']
        }
    }

    fn render(&self) -> (r: String) {
        proof {
            reveal_strlit("1");
            reveal_strlit("0");
        }
        if *self {
            String::from_str("1")
        } else {
            String::from_str("0")
        }
    }
}

/// The types a traced signal can take.
pub trait SignalType: Sized + Renderable {
    /// When two values count as the same (no change between them).
    spec fn same_value(&self, other: &Self) -> bool;

    fn equals(&self, other: &Self) -> (r: bool)
        ensures
            r == self.same_value(other),
    ;

    fn duplicate(&self) -> (r: Self)
        ensures
            r == *self,
    ;
}

impl SignalType for bool {
    open spec fn same_value(&self, other: &Self) -> bool {
        *self == *other
    }

    fn equals(&self, other: &Self) -> (r: bool) {
        *self == *other
    }

    fn duplicate(&self) -> (r: Self) {
        *self
    }
}

impl SignalType for VectorValue {
    /// The same number: every bit the same, a missing bit being low.
    open spec fn same_value(&self, other: &Self) -> bool {
        forall|i: int| #[trigger] level_at(self.levels(), i) == level_at(other.levels(), i)
    }

    fn equals(&self, other: &Self) -> (r: bool) {
        let a = chars_of(self.levels.as_str());
        let b = chars_of(other.levels.as_str());
        let n = if a.len() < b.len() {
            b.len()
        } else {
            a.len()
        };
        for i in 0..n
            invariant
                a@ == self.levels(),
                b@ == other.levels(),
                n >= a.len() && n >= b.len(),
                forall|k: int| 0 <= k < i ==> #[trigger] level_at(a@, k) == level_at(b@, k),
        {
            let x = i < a.len() && a[i] == '1';
            let y = i < b.len() && b[i] == '1';
            if x != y {
                assert(level_at(a@, i as int) != level_at(b@, i as int));
                return false;
            }
        }
        assert forall|k: int| #[trigger] level_at(a@, k) == level_at(b@, k) by {
            if 0 <= k < n {
            }
        }
        true
    }

    fn duplicate(&self) -> (r: Self) {
        VectorValue { levels: self.levels.clone() }
    }
}

impl SignalType for String {
    open spec fn same_value(&self, other: &Self) -> bool {
        self@ == other@
    }

    fn equals(&self, other: &Self) -> (r: bool) {
        *self == *other
    }

    fn duplicate(&self) -> (r: Self) {
        self.clone()
    }
}

/// A value of a signal and the time it was taken.
#[derive(Clone, PartialEq, Debug)]
pub struct TimedValue<T: SignalType> {
    pub time: u64,
    pub value: T,
}

/// The first value, then each value that differs from the last one kept,
/// over the first `i` values (at least one value is taken).
pub open spec fn changes_upto<T: SignalType>(vals: Seq<TimedValue<T>>, i: nat) -> Seq<
    TimedValue<T>,
>
    decreases i,
{
    if i == 0 {
        seq![vals[0]]
    } else {
        let p = changes_upto(vals, (i - 1) as nat);
        if !vals[i - 1].value.same_value(&p.last().value) {
            p.push(vals[i - 1])
        } else {
            p
        }
    }
}

/// The changes of a trace: its first value and every value that differs from
/// the previous value kept.
pub open spec fn changes_spec<T: SignalType>(vals: Seq<TimedValue<T>>) -> Seq<TimedValue<T>> {
    if vals.len() == 0 {
        Seq::empty()
    } else {
        changes_upto(vals, vals.len())
    }
}

/// The trace reduced to the values at which it changes.
pub fn changes<T: SignalType>(vals: &[TimedValue<T>]) -> (r: Vec<TimedValue<T>>)
    ensures
        r@ == changes_spec(vals@),
{
    if vals.len() == 0 {
        Vec::new()
    } else {
        let first = TimedValue { time: vals[0].time, value: vals[0].value.duplicate() };
        let mut ret: Vec<TimedValue<T>> = Vec::new();
        ret.push(first);
        assert(ret@ =~= changes_upto(vals@, 0));
        for i in 0..vals.len()
            invariant
                vals.len() > 0,
                ret@ == changes_upto(vals@, i as nat),
        {
            proof {
                lemma_changes_upto_len(vals@, i as nat);
            }
            let last = ret.len() - 1;
            if !vals[i].value.equals(&ret[last].value) {
                let v = TimedValue { time: vals[i].time, value: vals[i].value.duplicate() };
                ret.push(v);
            }
        }
        ret
    }
}

/// At least one value is kept.
pub proof fn lemma_changes_upto_len<T: SignalType>(vals: Seq<TimedValue<T>>, i: nat)
    ensures
        changes_upto(vals, i).len() >= 1,
    decreases i,
{
    if i > 0 {
        lemma_changes_upto_len(vals, (i - 1) as nat);
    }
}

/// No value kept counts as the same as the one kept before it.
pub proof fn law_changes_differ<T: SignalType>(vals: Seq<TimedValue<T>>, i: nat)
    ensures
        forall|j: int|
            0 < j < changes_upto(vals, i).len() ==> !(#[trigger] changes_upto(vals, i)[j]).value.same_value(
                &changes_upto(vals, i)[j - 1].value,
            ),
    decreases i,
{
    if i > 0 {
        law_changes_differ(vals, (i - 1) as nat);
        lemma_changes_upto_len(vals, (i - 1) as nat);
    }
}

/// The first value kept is the first value of the trace, and every value
/// kept is a value of the trace.
pub proof fn law_changes_from_trace<T: SignalType>(vals: Seq<TimedValue<T>>, i: nat)
    requires
        vals.len() > 0,
        i <= vals.len(),
    ensures
        changes_upto(vals, i)[0] == vals[0],
        forall|j: int|
            0 <= j < changes_upto(vals, i).len() ==> vals.contains(
                #[trigger] changes_upto(vals, i)[j],
            ),
    decreases i,
{
    if i == 0 {
        assert(vals.contains(vals[0]));
    } else {
        law_changes_from_trace(vals, (i - 1) as nat);
        lemma_changes_upto_len(vals, (i - 1) as nat);
        assert(vals.contains(vals[i - 1]));
    }
}

} // verus!
