//! Unsigned ordering of bit vectors.
use crate::hdl_core::bit_math::{lemma_seq_val_greater_at, seq_val};
use crate::hdl_core::bit_vec::BitVec;
use crate::hdl_core::bits::{Bits, LiteralType};
use crate::hdl_core::short_bit_vec::ShortBitVec;
use std::cmp::Ordering;
use vstd::prelude::*;
use vstd::std_specs::cmp::PartialOrdSpecImpl;

verus! {

/// How `a` compares with `b`.
pub open spec fn order_of(a: nat, b: nat) -> Ordering {
    if a < b {
        Ordering::Less
    } else if a == b {
        Ordering::Equal
    } else {
        Ordering::Greater
    }
}

impl<const N: usize> PartialOrd for ShortBitVec<N> {
    /// Compares the words as unsigned numbers.
    fn partial_cmp(&self, other: &Self) -> (r: Option<Ordering>) {
        let a = self.short();
        let b = other.short();
        if a < b {
            Some(Ordering::Less)
        } else if a == b {
            Some(Ordering::Equal)
        } else {
            Some(Ordering::Greater)
        }
    }
}

impl<const N: usize> PartialOrdSpecImpl for ShortBitVec<N> {
    open spec fn obeys_partial_cmp_spec() -> bool {
        true
    }

    open spec fn partial_cmp_spec(&self, other: &Self) -> Option<Ordering> {
        Some(order_of(self.val(), other.val()))
    }
}

impl<const N: usize> PartialOrd for BitVec<N> {
    /// Compares from the most significant bit down.
    fn partial_cmp(&self, other: &BitVec<N>) -> (r: Option<Ordering>) {
        proof {
            BitVec::<N>::lemma_view(*self);
            BitVec::<N>::lemma_view(*other);
            assert(self@.skip(N - 0) =~= other@.skip(N - 0));
        }
        for i in 0..N
            invariant
                self@.len() == N,
                other@.len() == N,
                self@.skip(N - i) == other@.skip(N - i),
        {
            let a = self.get_bit(N - 1 - i);
            let b = other.get_bit(N - 1 - i);
            if a && !b {
                proof {
                    lemma_seq_val_greater_at(self@, other@, N - 1 - i);
                }
                return Some(Ordering::Greater);
            }
            if !a && b {
                proof {
                    lemma_seq_val_greater_at(other@, self@, N - 1 - i);
                }
                return Some(Ordering::Less);
            }
            proof {
                assert(self@.skip(N - 1 - i) =~= seq![a] + self@.skip(N - i));
                assert(other@.skip(N - 1 - i) =~= seq![b] + other@.skip(N - i));
            }
        }
        proof {
            assert(self@ =~= self@.skip(0));
            assert(other@ =~= other@.skip(0));
        }
        Some(Ordering::Equal)
    }
}

impl<const N: usize> PartialOrdSpecImpl for BitVec<N> {
    open spec fn obeys_partial_cmp_spec() -> bool {
        true
    }

    open spec fn partial_cmp_spec(&self, other: &BitVec<N>) -> Option<Ordering> {
        Some(order_of(self.val(), other.val()))
    }
}

impl<const N: usize> Bits<N> {
    /// The order of two vectors held the same way; vectors held in different
    /// ways are not ordered.
    pub open spec fn order_with(self, other: Self) -> Option<Ordering> {
        match (self, other) {
            (Bits::Short(x), Bits::Short(y)) => Some(order_of(x.val(), y.val())),
            (Bits::Long(x), Bits::Long(y)) => Some(order_of(x.val(), y.val())),
            _ => None,
        }
    }

    /// Well formed vectors are ordered as their values.
    pub proof fn lemma_order_with(a: Self, b: Self)
        requires
            a.wf(),
            b.wf(),
        ensures
            a.order_with(b) == Some(order_of(a.val(), b.val())),
    {
        match (a, b) {
            (Bits::Short(x), Bits::Short(y)) => {
                ShortBitVec::<N>::lemma_view_val(x);
                ShortBitVec::<N>::lemma_view_val(y);
            },
            _ => {},
        }
    }
}

impl<const N: usize> PartialOrd<Bits<N>> for Bits<N> {
    fn partial_cmp(&self, other: &Bits<N>) -> (r: Option<Ordering>) {
        match self {
            Bits::Short(x) => match other {
                Bits::Short(y) => x.partial_cmp(y),
                Bits::Long(_) => None,
            },
            Bits::Long(x) => match other {
                Bits::Long(y) => x.partial_cmp(y),
                Bits::Short(_) => None,
            },
        }
    }
}

impl<const N: usize> PartialOrdSpecImpl<Bits<N>> for Bits<N> {
    open spec fn obeys_partial_cmp_spec() -> bool {
        true
    }

    open spec fn partial_cmp_spec(&self, other: &Bits<N>) -> Option<Ordering> {
        self.order_with(*other)
    }
}

impl<const N: usize> PartialOrd<LiteralType> for Bits<N> {
    /// The literal is first made a vector of the same width.
    fn partial_cmp(&self, other: &LiteralType) -> (r: Option<Ordering>) {
        let o: Bits<N> = Bits::from(*other);
        self.partial_cmp(&o)
    }
}

impl<const N: usize> PartialOrdSpecImpl<LiteralType> for Bits<N> {
    open spec fn obeys_partial_cmp_spec() -> bool {
        true
    }

    open spec fn partial_cmp_spec(&self, other: &LiteralType) -> Option<Ordering> {
        self.order_with(Bits::<N>::from_literal(*other))
    }
}

impl<const N: usize> PartialOrd<Bits<N>> for LiteralType {
    /// The literal is first made a vector of the same width.
    fn partial_cmp(&self, other: &Bits<N>) -> (r: Option<Ordering>) {
        let s: Bits<N> = Bits::from(*self);
        s.partial_cmp(other)
    }
}

impl<const N: usize> PartialOrdSpecImpl<Bits<N>> for LiteralType {
    open spec fn obeys_partial_cmp_spec() -> bool {
        true
    }

    open spec fn partial_cmp_spec(&self, other: &Bits<N>) -> Option<Ordering> {
        Bits::<N>::from_literal(*self).order_with(*other)
    }
}

} // verus!
