//! A router connects several bridges to one bus master.  Each bridge gets
//! a base address, the bridges' ranges following one another without
//! overlap; the master sees each port of a bridge at the bridge's base
//! address plus the port's offset.  Routers can be stacked.
use crate::hdl_core::bits::Bits;
use crate::sim::clocked::{below, zero};
use vstd::arithmetic::power2::*;
use vstd::prelude::*;

verus! {

/// The router's registers.
#[derive(Copy, Clone, Debug)]
pub struct RouterRegisters<const A: usize> {
    /// The node the master last addressed.
    pub active: Bits<8>,
    /// The address within that node.
    pub virtual_address: Bits<A>,
    /// The master's address strobe of the previous clock.
    pub address_strobe_delay: bool,
}

/// What the router reads in one clock: the master's side of the bus, and
/// each node's reply.
pub struct RouterInputs<const D: usize, const A: usize> {
    pub address: Bits<A>,
    pub address_strobe: bool,
    pub from_controller: Bits<D>,
    pub strobe: bool,
    pub node_to_controller: Vec<Bits<D>>,
    pub node_ready: Vec<bool>,
}

/// What the router drives on one node's bus.
#[derive(Copy, Clone, Debug)]
pub struct NodeDrive<const D: usize, const A: usize> {
    pub from_controller: Bits<D>,
    pub address: Bits<A>,
    pub address_strobe: bool,
    pub strobe: bool,
}

/// What the router drives in one clock.
pub struct RouterOutputs<const D: usize, const A: usize> {
    pub ready: bool,
    pub to_controller: Bits<D>,
    pub nodes: Vec<NodeDrive<D, A>>,
}

/// A router of `N` nodes on a bus of `D` data and `A` address bits.
pub struct Router<const D: usize, const A: usize, const N: usize> {
    pub regs: RouterRegisters<A>,
    /// Each node's first address, and the address past its last.
    pub node_start_address: Vec<Bits<A>>,
    pub node_end_address: Vec<Bits<A>>,
    /// The names of all ports, node by node: the node's name, `_`, the
    /// port's name.
    pub address_map: Vec<String>,
}

/// The number of ports of the first `k` nodes.
pub open spec fn ports_before(counts: Seq<usize>, k: int) -> nat
    decreases k,
{
    if k <= 0 {
        0
    } else {
        ports_before(counts, k - 1) + counts[k - 1] as nat
    }
}

/// The port names of the first `k` nodes.
pub open spec fn names_before(names: Seq<Seq<char>>, ports: Seq<Seq<Seq<char>>>, k: int) -> Seq<
    Seq<char>,
>
    decreases k,
{
    if k <= 0 {
        Seq::empty()
    } else {
        names_before(names, ports, k - 1) + ports[k - 1].map_values(
            |p: Seq<char>| names[k - 1] + seq!['_'] + p,
        )
    }
}

/// The port counts of a list of port lists.
pub open spec fn counts_of(ports: Seq<Vec<String>>) -> Seq<usize> {
    ports.map_values(|v: Vec<String>| v.len())
}

/// The names of each node's ports.
pub open spec fn port_names(ports: Seq<Vec<String>>) -> Seq<Seq<Seq<char>>> {
    ports.map_values(|v: Vec<String>| v@.map_values(|s: String| s@))
}

/// The node whose range holds `a`, the last one when several do.
pub open spec fn decoded<const A: usize>(starts: Seq<Bits<A>>, ends: Seq<Bits<A>>, a: Bits<A>, k: int) -> Option<
    int,
>
    decreases k,
{
    if k <= 0 {
        None
    } else if starts[k - 1].val() <= a.val() && a.val() < ends[k - 1].val() {
        Some(k - 1)
    } else {
        decoded(starts, ends, a, k - 1)
    }
}

impl<const D: usize, const A: usize> RouterInputs<D, A> {
    pub open spec fn wf(self, n: nat) -> bool {
        &&& self.address.wf()
        &&& self.from_controller.wf()
        &&& self.node_to_controller@.len() == n
        &&& self.node_ready@.len() == n
    }
}

/// The registers after one clock edge: an address strobe on a node's range
/// selects that node and the address within it.
pub open spec fn next_registers<const D: usize, const A: usize>(
    r: RouterRegisters<A>,
    starts: Seq<Bits<A>>,
    ends: Seq<Bits<A>>,
    i: RouterInputs<D, A>,
) -> RouterRegisters<A> {
    let hit = if i.address_strobe {
        decoded(starts, ends, i.address, starts.len() as int)
    } else {
        None
    };
    RouterRegisters {
        active: match hit {
            Some(k) => Bits::<8>::from_val(k as nat),
            None => r.active,
        },
        virtual_address: match hit {
            Some(k) => i.address.difference(starts[k]),
            None => r.virtual_address,
        },
        address_strobe_delay: i.address_strobe,
    }
}

/// What the router drives on node `k`: the master's side when `k` is the
/// active node, nothing otherwise.
pub open spec fn node_drive<const D: usize, const A: usize>(
    r: RouterRegisters<A>,
    i: RouterInputs<D, A>,
    k: int,
) -> NodeDrive<D, A> {
    if r.active.val() == k {
        NodeDrive {
            from_controller: i.from_controller,
            address: r.virtual_address,
            address_strobe: r.address_strobe_delay,
            strobe: i.strobe,
        }
    } else {
        NodeDrive {
            from_controller: zero(),
            address: zero(),
            address_strobe: false,
            strobe: false,
        }
    }
}

impl<const D: usize, const A: usize, const N: usize> Router<D, A, N> {
    pub open spec fn wf(self) -> bool {
        &&& self.regs.active.wf()
        &&& self.regs.virtual_address.wf()
        &&& self.node_start_address@.len() == N
        &&& self.node_end_address@.len() == N
        &&& forall|k: int| 0 <= k < N ==> #[trigger] self.node_start_address@[k].wf()
        &&& forall|k: int| 0 <= k < N ==> #[trigger] self.node_end_address@[k].wf()
    }

    /// A router for nodes with the given names and port names: node `k`'s
    /// range starts after the ports of the nodes before it and holds one
    /// address per port.  Every node must have a port.
    pub fn new(names: &Vec<String>, ports: &Vec<Vec<String>>) -> (r: Self)
        requires
            names.len() == N,
            ports.len() == N,
            forall|k: int| 0 <= k < N ==> #[trigger] ports@[k].len() > 0,
            ports_before(counts_of(ports@), N as int) <= u64::MAX,
        ensures
            r.wf(),
            r.regs.active == zero::<8>(),
            r.regs.virtual_address == zero::<A>(),
            !r.regs.address_strobe_delay,
            forall|k: int|
                0 <= k < N ==> #[trigger] r.node_start_address@[k] == Bits::<A>::from_val(
                    ports_before(counts_of(ports@), k),
                ),
            forall|k: int|
                0 <= k < N ==> #[trigger] r.node_end_address@[k] == Bits::<A>::from_val(
                    ports_before(counts_of(ports@), k + 1),
                ),
            r.address_map@.map_values(|s: String| s@) == names_before(
                names@.map_values(|s: String| s@),
                port_names(ports@),
                N as int,
            ),
    {
        proof {
            lemma2_to64();
        }
        let ghost counts = counts_of(ports@);
        let ghost nm = names@.map_values(|s: String| s@);
        let ghost pn = port_names(ports@);
        let mut starts: Vec<Bits<A>> = Vec::new();
        let mut ends: Vec<Bits<A>> = Vec::new();
        let mut address_map: Vec<String> = Vec::new();
        let mut offset: u64 = 0;
        let mut k: usize = 0;
        while k < N
            invariant
                k <= N,
                names.len() == N,
                ports.len() == N,
                counts == counts_of(ports@),
                nm == names@.map_values(|s: String| s@),
                pn == port_names(ports@),
                forall|j: int| 0 <= j < N ==> #[trigger] ports@[j].len() > 0,
                ports_before(counts, N as int) <= u64::MAX,
                offset == ports_before(counts, k as int),
                starts@.len() == k,
                ends@.len() == k,
                forall|j: int|
                    0 <= j < k ==> #[trigger] starts@[j] == Bits::<A>::from_val(
                        ports_before(counts, j),
                    ) && starts@[j].wf(),
                forall|j: int|
                    0 <= j < k ==> #[trigger] ends@[j] == Bits::<A>::from_val(
                        ports_before(counts, j + 1),
                    ) && ends@[j].wf(),
                address_map@.map_values(|s: String| s@) == names_before(nm, pn, k as int),
            decreases N - k,
        {
            let count = ports[k].len();
            proof {
                lemma_ports_before_grows(counts, (k + 1) as int, N as int);
                assert(counts[k as int] == count);
            }
            let next = offset + count as u64;
            proof {
                Bits::<A>::lemma_from_val(offset as nat);
                Bits::<A>::lemma_from_val(next as nat);
            }
            starts.push(Bits::from(offset));
            ends.push(Bits::from(next));
            let ghost before = address_map@.map_values(|s: String| s@);
            let mut p: usize = 0;
            while p < count
                invariant
                    p <= count,
                    count == ports@[k as int].len(),
                    k < N,
                    names.len() == N,
                    ports.len() == N,
                    nm == names@.map_values(|s: String| s@),
                    pn == port_names(ports@),
                    address_map@.map_values(|s: String| s@) == before + pn[k as int].take(
                        p as int,
                    ).map_values(|q: Seq<char>| nm[k as int] + seq!['_'] + q),
                decreases count - p,
            {
                let mut name = names[k].clone();
                name.append("_");
                name.append(ports[k][p].as_str());
                proof {
                    reveal_strlit("_");
                    assert(nm[k as int] == names@[k as int]@);
                    assert(pn[k as int] == ports@[k as int]@.map_values(|s: String| s@));
                    assert(pn[k as int][p as int] == ports@[k as int]@[p as int]@);
                    assert(name@ == nm[k as int] + seq!['_'] + pn[k as int][p as int]);
                }
                let ghost old_map = address_map@;
                address_map.push(name);
                proof {
                    assert(address_map@ == old_map.push(name));
                    assert(address_map@.map_values(|s: String| s@) =~= old_map.map_values(
                        |s: String| s@,
                    ).push(name@));
                    assert(pn[k as int].take(p + 1).map_values(
                        |q: Seq<char>| nm[k as int] + seq!['_'] + q,
                    ) =~= pn[k as int].take(p as int).map_values(
                        |q: Seq<char>| nm[k as int] + seq!['_'] + q,
                    ).push(nm[k as int] + seq!['_'] + pn[k as int][p as int]));
                    assert(address_map@.map_values(|s: String| s@) =~= before + pn[k as int].take(
                        p + 1,
                    ).map_values(|q: Seq<char>| nm[k as int] + seq!['_'] + q));
                }
                p = p + 1;
            }
            proof {
                assert(pn[k as int].len() == count);
                assert(pn[k as int].take(count as int) =~= pn[k as int]);
            }
            offset = next;
            k = k + 1;
        }
        Router {
            regs: RouterRegisters {
                active: Bits::from(0u64),
                virtual_address: Bits::from(0u64),
                address_strobe_delay: false,
            },
            node_start_address: starts,
            node_end_address: ends,
            address_map,
        }
    }

    /// One clock: what the router drives while `inputs` hold, and its
    /// registers after the clock edge.  The active node's bus carries the
    /// master's data and strobe and the address within the node; the
    /// master sees the active node's reply, but is never ready while it
    /// strobes an address.
    pub fn update(&mut self, inputs: &RouterInputs<D, A>) -> (out: RouterOutputs<D, A>)
        requires
            old(self).wf(),
            inputs.wf(N as nat),
        ensures
            final(self).wf(),
            final(self).node_start_address == old(self).node_start_address,
            final(self).node_end_address == old(self).node_end_address,
            final(self).address_map == old(self).address_map,
            final(self).regs == next_registers(
                old(self).regs,
                old(self).node_start_address@,
                old(self).node_end_address@,
                *inputs,
            ),
            out.nodes@.len() == N,
            forall|k: int|
                0 <= k < N ==> #[trigger] out.nodes@[k] == node_drive(old(self).regs, *inputs, k),
            out.to_controller == (if old(self).regs.active.val() < N {
                inputs.node_to_controller@[old(self).regs.active.val() as int]
            } else {
                zero::<D>()
            }),
            out.ready == (old(self).regs.active.val() < N && inputs.node_ready@[old(
                self,
            ).regs.active.val() as int] && !inputs.address_strobe),
    {
        proof {
            lemma2_to64();
            Bits::<8>::lemma_wf_view(self.regs.active);
        }
        let r = self.regs;
        let a = inputs.address;
        let current = r.active.to_u64();
        let mut active = r.active;
        let mut virtual_address = r.virtual_address;
        let mut to_controller: Bits<D> = Bits::from(0u64);
        let mut ready = false;
        let mut nodes: Vec<NodeDrive<D, A>> = Vec::new();
        let ghost starts = self.node_start_address@;
        let ghost ends = self.node_end_address@;
        for i in 0..N
            invariant
                self.wf(),
                starts == self.node_start_address@,
                ends == self.node_end_address@,
                inputs.wf(N as nat),
                a == inputs.address,
                r == self.regs,
                current == r.active.val(),
                nodes@.len() == i,
                forall|k: int|
                    0 <= k < i ==> #[trigger] nodes@[k] == node_drive(r, *inputs, k),
                (if inputs.address_strobe {
                    decoded(starts, ends, a, i as int)
                } else {
                    None
                }) matches Some(j) ==> active == Bits::<8>::from_val(j as nat)
                    && virtual_address == a.difference(starts[j]),
                (if inputs.address_strobe {
                    decoded(starts, ends, a, i as int)
                } else {
                    None
                }) is None ==> active == r.active && virtual_address == r.virtual_address,
                current < i ==> to_controller == inputs.node_to_controller@[current as int]
                    && ready == inputs.node_ready@[current as int],
                current >= i ==> to_controller == zero::<D>() && !ready,
        {
            if inputs.address_strobe && !below(&a, &self.node_start_address[i]) && below(
                &a,
                &self.node_end_address[i],
            ) {
                active = Bits::from(i as u64);
                virtual_address = a - self.node_start_address[i];
            }
            if current == i as u64 {
                nodes.push(
                    NodeDrive {
                        from_controller: inputs.from_controller,
                        address: r.virtual_address,
                        address_strobe: r.address_strobe_delay,
                        strobe: inputs.strobe,
                    },
                );
                to_controller = inputs.node_to_controller[i];
                ready = inputs.node_ready[i];
            } else {
                nodes.push(
                    NodeDrive {
                        from_controller: Bits::from(0u64),
                        address: Bits::from(0u64),
                        address_strobe: false,
                        strobe: false,
                    },
                );
            }
        }
        if inputs.address_strobe {
            ready = false;
        }
        self.regs = RouterRegisters {
            active,
            virtual_address,
            address_strobe_delay: inputs.address_strobe,
        };
        proof {
            let hit = if inputs.address_strobe {
                decoded(starts, ends, a, N as int)
            } else {
                None
            };
            if let Some(j) = hit {
                lemma_decoded_range(starts, ends, a, N as int);
                Bits::<8>::lemma_from_val(j as nat);
                Bits::<A>::lemma_from_val(
                    ((a.val() - starts[j].val()) % (pow2(A as nat) as int)) as nat,
                );
            }
        }
        RouterOutputs { ready, to_controller, nodes }
    }
}

/// The decoded node is one of the first `k`.
proof fn lemma_decoded_range<const A: usize>(starts: Seq<Bits<A>>, ends: Seq<Bits<A>>, a: Bits<A>, k: int)
    ensures
        decoded(starts, ends, a, k) matches Some(j) ==> 0 <= j < k,
    decreases k,
{
    if k > 0 {
        lemma_decoded_range(starts, ends, a, k - 1);
    }
}

/// More nodes hold at least as many ports.
proof fn lemma_ports_before_grows(counts: Seq<usize>, j: int, k: int)
    requires
        0 <= j <= k,
    ensures
        ports_before(counts, j) <= ports_before(counts, k),
    decreases k - j,
{
    if j < k {
        lemma_ports_before_grows(counts, j, k - 1);
    }
}

/// The ranges a router builds for nodes that each have a port: node `k`
/// spans the addresses from the ports of the nodes before it up to those
/// of the nodes up to it.
pub open spec fn built_ranges<const A: usize>(
    counts: Seq<usize>,
    starts: Seq<Bits<A>>,
    ends: Seq<Bits<A>>,
) -> bool {
    &&& starts.len() == counts.len()
    &&& ends.len() == counts.len()
    &&& forall|k: int| 0 <= k < counts.len() ==> #[trigger] counts[k] > 0
    &&& forall|k: int|
        0 <= k < counts.len() ==> #[trigger] starts[k] == Bits::<A>::from_val(
            ports_before(counts, k),
        )
    &&& forall|k: int|
        0 <= k < counts.len() ==> #[trigger] ends[k] == Bits::<A>::from_val(
            ports_before(counts, k + 1),
        )
}

/// The ranges the router builds cover the addresses below the total port
/// count without overlap: an address below the total decodes to the one
/// node whose ports hold it, and no other address decodes, when the total
/// fits in `A` bits.
pub proof fn law_ranges_partition<const A: usize>(
    counts: Seq<usize>,
    starts: Seq<Bits<A>>,
    ends: Seq<Bits<A>>,
    a: Bits<A>,
)
    requires
        built_ranges(counts, starts, ends),
        ports_before(counts, counts.len() as int) < pow2(A as nat),
    ensures
        decoded(starts, ends, a, counts.len() as int) is Some <==> a.val() < ports_before(
            counts,
            counts.len() as int,
        ),
        decoded(starts, ends, a, counts.len() as int) matches Some(j) ==> {
            &&& 0 <= j < counts.len()
            &&& ports_before(counts, j) <= a.val() < ports_before(counts, j + 1)
        },
{
    lemma_decoded(counts, starts, ends, a, counts.len() as int);
}

proof fn lemma_decoded<const A: usize>(
    counts: Seq<usize>,
    starts: Seq<Bits<A>>,
    ends: Seq<Bits<A>>,
    a: Bits<A>,
    k: int,
)
    requires
        built_ranges(counts, starts, ends),
        ports_before(counts, counts.len() as int) < pow2(A as nat),
        0 <= k <= counts.len(),
    ensures
        decoded(starts, ends, a, k) is Some <==> a.val() < ports_before(counts, k),
        decoded(starts, ends, a, k) matches Some(j) ==> {
            &&& 0 <= j < k
            &&& ports_before(counts, j) <= a.val() < ports_before(counts, j + 1)
        },
    decreases k,
{
    if k > 0 {
        lemma_decoded(counts, starts, ends, a, k - 1);
        lemma_ports_before_grows(counts, k, counts.len() as int);
        lemma_ports_before_grows(counts, k - 1, k);
        vstd::arithmetic::div_mod::lemma_small_mod(ports_before(counts, k - 1), pow2(A as nat));
        vstd::arithmetic::div_mod::lemma_small_mod(ports_before(counts, k), pow2(A as nat));
        Bits::<A>::lemma_from_val(ports_before(counts, k - 1));
        Bits::<A>::lemma_from_val(ports_before(counts, k));
        assert(starts[k - 1].val() == ports_before(counts, k - 1));
        assert(ends[k - 1].val() == ports_before(counts, k));
    }
}

/// An address strobe on an address of node `j` makes `j` the active node,
/// with the address less the node's base as the address within it.
pub proof fn law_address_translation<const D: usize, const A: usize>(
    r: RouterRegisters<A>,
    counts: Seq<usize>,
    starts: Seq<Bits<A>>,
    ends: Seq<Bits<A>>,
    i: RouterInputs<D, A>,
)
    requires
        built_ranges(counts, starts, ends),
        ports_before(counts, counts.len() as int) < pow2(A as nat),
        i.address_strobe,
        i.address.wf(),
        i.address.val() < ports_before(counts, counts.len() as int),
        counts.len() <= 256,
    ensures
        decoded(starts, ends, i.address, counts.len() as int) matches Some(j) && {
            &&& next_registers(r, starts, ends, i).active.val() == j
            &&& next_registers(r, starts, ends, i).virtual_address.val() == i.address.val()
                - ports_before(counts, j)
            &&& ports_before(counts, j) <= i.address.val() < ports_before(counts, j + 1)
        },
{
    lemma_decoded(counts, starts, ends, i.address, counts.len() as int);
    let j = decoded(starts, ends, i.address, counts.len() as int)->0;
    lemma2_to64();
    vstd::arithmetic::div_mod::lemma_small_mod(j as nat, pow2(8));
    Bits::<8>::lemma_from_val(j as nat);
    lemma_ports_before_grows(counts, j, counts.len() as int);
    vstd::arithmetic::div_mod::lemma_small_mod(ports_before(counts, j), pow2(A as nat));
    Bits::<A>::lemma_from_val(ports_before(counts, j));
    let v = i.address.val() - ports_before(counts, j);
    Bits::<A>::lemma_wf_view(i.address);
    vstd::arithmetic::div_mod::lemma_small_mod(v as nat, pow2(A as nat));
    Bits::<A>::lemma_from_val(v as nat);
}

/// Only the active node sees the master's strobes.
pub proof fn law_only_active_node_strobed<const D: usize, const A: usize>(
    r: RouterRegisters<A>,
    i: RouterInputs<D, A>,
    k: int,
)
    requires
        node_drive(r, i, k).strobe || node_drive(r, i, k).address_strobe,
    ensures
        r.active.val() == k,
{
}

} // verus!
