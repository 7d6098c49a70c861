//! decisions of the distributed clock initialization: the reference slave, the topology of the slaves and their transmission delays
use vstd::prelude::*;
use crate::error::{EthercatError, EthercatResult};
use crate::rawmaster::SlaveAddress;

verus! {

/// address of a slave for clock operations: its fixed address if it has one, or its topological position
pub fn clock_address(index: u16, fixed: u16) -> (r: SlaveAddress)
    ensures
        r == if fixed == 0 { SlaveAddress::AutoIncremented(index) } else { SlaveAddress::Fixed(fixed) },
{
    if fixed == 0 {
        SlaveAddress::AutoIncremented(index)
    } else {
        SlaveAddress::Fixed(fixed)
    }
}

/// the reference slave must be the first supporting clock in the network
pub fn find_referent(enabled: &[bool]) -> (r: EthercatResult<usize>)
    ensures
        match r {
            Ok(i) => i < enabled@.len() && enabled@[i as int] && forall|j: int| 0 <= j < i ==> !enabled@[j],
            Err(e) => e == EthercatError::<()>::Protocol("cannot find first slave supporting clock")
                && forall|j: int| 0 <= j < enabled@.len() ==> !enabled@[j],
        },
{
    let mut i: usize = 0;
    while i < enabled.len()
        invariant
            i <= enabled@.len(),
            forall|j: int| 0 <= j < i ==> !enabled@[j],
        decreases enabled@.len() - i,
    {
        if enabled[i] {
            return Ok(i);
        }
        i = i + 1;
    }
    Err(EthercatError::Protocol("cannot find first slave supporting clock"))
}

/// the port `port` of a slave whose port link status is `links` has a link
pub open spec fn linked(links: u8, port: int) -> bool {
    (links as int / vstd::arithmetic::power2::pow2(port as nat) as int) % 2 == 1
}

/// number of ports of a slave
pub const PORTS: usize = 4;

/**
    the slaves connected to each port of each slave (entry `4 * s + q` for port `q` of slave `s`) form a tree rooted
    at the first slave: each other slave is connected on its port 0 to a slave before it, on a linked port of that one
*/
pub open spec fn is_topology(links: Seq<u8>, t: Seq<Option<usize>>) -> bool {
    &&& t.len() == 4 * links.len()
    &&& forall|c: int| 1 <= c < links.len() ==> {
        &&& (#[trigger] t[4 * c]) is Some
        &&& t[4 * c]->0 < c
        &&& exists|q: int| 0 <= q < 4 && #[trigger] t[4 * (t[4 * c]->0 as int) + q] == Some(c as usize) && linked(links[t[4 * c]->0 as int], q)
    }
    &&& forall|s: int, q: int| 0 <= s < links.len() && 0 <= q < 4 && (#[trigger] t[4 * s + q]) is Some ==> {
        ||| q == 0 && s > 0 && t[4 * s + q]->0 < s
        ||| t[4 * s + q]->0 > s && t[4 * s + q]->0 < links.len() && t[4 * (t[4 * s + q]->0 as int)] == Some(s as usize)
    }
}

/// the port `port` of a slave whose port link status is `links` has a link
pub fn port_linked(links: u8, port: usize) -> (r: bool)
    requires
        port < 4,
    ensures
        r == linked(links, port as int),
{
    proof {
        vstd::arithmetic::power2::lemma2_to64();
    }
    let p: u8 = if port == 0 { 1 } else if port == 1 { 2 } else if port == 2 { 4 } else { 8 };
    (links / p) % 2 == 1
}

/// facts on the topology after attaching a new slave `index` to port `port` of slave `parent`
proof fn lemma_attached_entries(t: Seq<Option<usize>>, index: int, parent: int, port: int)
    requires
        t.len() == 4 * index,
        index < usize::MAX,
        0 <= parent < index,
        0 <= port < 4,
    ensures
        ({
            let t1 = t.update(4 * parent + port, Some(index as usize)) + seq![Some(parent as usize), None, None, None];
            &&& t1.len() == 4 * index + 4
            &&& forall|i: int| 0 <= i < 4 * index ==> #[trigger] t1[i] == (if i == 4 * parent + port { Some(index as usize) } else { t[i] })
            &&& t1[4 * index] == Some(parent as usize)
            &&& t1[4 * index + 1] == None::<usize>
            &&& t1[4 * index + 2] == None::<usize>
            &&& t1[4 * index + 3] == None::<usize>
        }),
{
    let t1 = t.update(4 * parent + port, Some(index as usize)) + seq![Some(parent as usize), None, None, None];
    assert forall|i: int| 0 <= i < 4 * index implies #[trigger] t1[i] == (if i == 4 * parent + port { Some(index as usize) } else { t[i] }) by {
        assert(t1[i] == t.update(4 * parent + port, Some(index as usize))[i]);
    }
}

/// attaching a new slave keeps every slave but the first connected on its port 0 to a linked port of an earlier slave
#[verifier::rlimit(50)]
proof fn lemma_attach_children(links: Seq<u8>, t: Seq<Option<usize>>, index: int, parent: int, port: int)
    requires
        0 < index < links.len(),
        links.len() <= usize::MAX,
        is_topology(links.subrange(0, index), t),
        0 <= parent < index,
        0 <= port < 4,
        t[4 * parent + port] is None,
        linked(links[parent], port),
    ensures
        ({
            let l = links.subrange(0, index + 1);
            let t1 = t.update(4 * parent + port, Some(index as usize)) + seq![Some(parent as usize), None, None, None];
            forall|c: int| 1 <= c < l.len() ==> {
                &&& (#[trigger] t1[4 * c]) is Some
                &&& t1[4 * c]->0 < c
                &&& exists|q: int| 0 <= q < 4 && #[trigger] t1[4 * (t1[4 * c]->0 as int) + q] == Some(c as usize) && linked(l[t1[4 * c]->0 as int], q)
            }
        }),
{
    let l0 = links.subrange(0, index);
    let l = links.subrange(0, index + 1);
    let t1 = t.update(4 * parent + port, Some(index as usize)) + seq![Some(parent as usize), None, None, None];
    lemma_attached_entries(t, index, parent, port);
    assert forall|c: int| 1 <= c < l.len() implies {
        &&& (#[trigger] t1[4 * c]) is Some
        &&& t1[4 * c]->0 < c
        &&& exists|q: int| 0 <= q < 4 && #[trigger] t1[4 * (t1[4 * c]->0 as int) + q] == Some(c as usize) && linked(l[t1[4 * c]->0 as int], q)
    } by {
        if c == index {
            assert(l[parent] == links[parent]);
            assert(t1[4 * parent + port] == Some(c as usize) && linked(l[parent], port));
        } else {
            assert(t[4 * c] is Some);
            assert(4 * c != 4 * parent + port);
            let p = t[4 * c]->0 as int;
            let q = choose|q: int| 0 <= q < 4 && #[trigger] t[4 * p + q] == Some(c as usize) && linked(l0[p], q);
            assert(4 * p + q != 4 * parent + port);
            assert(l[p] == l0[p]);
            assert(t1[4 * p + q] == Some(c as usize) && linked(l[p], q));
        }
    }
}

/// attaching a new slave keeps every connection listed on both of its ends
#[verifier::rlimit(50)]
proof fn lemma_attach_ports(links: Seq<u8>, t: Seq<Option<usize>>, index: int, parent: int, port: int)
    requires
        0 < index < links.len(),
        links.len() <= usize::MAX,
        is_topology(links.subrange(0, index), t),
        0 <= parent < index,
        0 <= port < 4,
        t[4 * parent + port] is None,
    ensures
        ({
            let l = links.subrange(0, index + 1);
            let t1 = t.update(4 * parent + port, Some(index as usize)) + seq![Some(parent as usize), None, None, None];
            forall|s: int, q: int| 0 <= s < l.len() && 0 <= q < 4 && (#[trigger] t1[4 * s + q]) is Some ==> {
                ||| q == 0 && s > 0 && t1[4 * s + q]->0 < s
                ||| t1[4 * s + q]->0 > s && t1[4 * s + q]->0 < l.len() && t1[4 * (t1[4 * s + q]->0 as int)] == Some(s as usize)
            }
        }),
{
    let l0 = links.subrange(0, index);
    let l = links.subrange(0, index + 1);
    let t1 = t.update(4 * parent + port, Some(index as usize)) + seq![Some(parent as usize), None, None, None];
    lemma_attached_entries(t, index, parent, port);
    assert forall|s: int, q: int| 0 <= s < l.len() && 0 <= q < 4 && (#[trigger] t1[4 * s + q]) is Some implies {
        ||| q == 0 && s > 0 && t1[4 * s + q]->0 < s
        ||| t1[4 * s + q]->0 > s && t1[4 * s + q]->0 < l.len() && t1[4 * (t1[4 * s + q]->0 as int)] == Some(s as usize)
    } by {
        if s == index {
            assert(q == 0);
        } else if s == parent && q == port {
            assert(t1[4 * index] == Some(parent as usize));
        } else {
            assert(4 * s + q != 4 * parent + port);
            assert(t1[4 * s + q] == t[4 * s + q]);
            let c = t[4 * s + q]->0 as int;
            if !(q == 0 && s > 0 && c < s) {
                assert(c > s && c < l0.len() && t[4 * c] == Some(s as usize));
                assert(4 * c != 4 * parent + port) by {
                    if 4 * c == 4 * parent + port {
                        assert(c == parent && port == 0);
                        assert(t[4 * parent] is Some);
                    }
                }
                assert(t1[4 * c] == t[4 * c]);
            }
        }
    }
}

/// attaching a new slave to a free linked port of an earlier slave keeps the tree structure
proof fn lemma_attach(links: Seq<u8>, t: Seq<Option<usize>>, index: int, parent: int, port: int)
    requires
        0 < index < links.len(),
        links.len() <= usize::MAX,
        is_topology(links.subrange(0, index), t),
        0 <= parent < index,
        0 <= port < 4,
        t[4 * parent + port] is None,
        linked(links[parent], port),
    ensures
        is_topology(
            links.subrange(0, index + 1),
            t.update(4 * parent + port, Some(index as usize)) + seq![Some(parent as usize), None, None, None],
        ),
{
    lemma_attached_entries(t, index, parent, port);
    lemma_attach_children(links, t, index, parent, port);
    lemma_attach_ports(links, t, index, parent, port);
}

/// the port `q` of the slave `s` has a link and connects no slave yet in the topology `t`
pub open spec fn free_port(links: Seq<u8>, t: Seq<Option<usize>>, s: int, q: int) -> bool {
    0 <= q < 4 && linked(links[s], q) && t[4 * s + q] is None
}

/// the slave `s` has a free linked port in the topology `t`
pub open spec fn has_free_port(links: Seq<u8>, t: Seq<Option<usize>>, s: int) -> bool {
    free_port(links, t, s, 0) || free_port(links, t, s, 1) || free_port(links, t, s, 2) || free_port(links, t, s, 3)
}

/// the first free linked port of the slave `s` in the topology `t`
pub open spec fn first_free_port(links: Seq<u8>, t: Seq<Option<usize>>, s: int) -> int {
    if free_port(links, t, s, 0) {
        0
    } else if free_port(links, t, s, 1) {
        1
    } else if free_port(links, t, s, 2) {
        2
    } else {
        3
    }
}

/// the last slave before the slave `c` that has a free linked port in the topology `t`
pub open spec fn last_free_slave(links: Seq<u8>, t: Seq<Option<usize>>, c: int) -> Option<int>
    decreases c,
{
    if c <= 0 {
        None
    } else if has_free_port(links, t, c - 1) {
        Some(c - 1)
    } else {
        last_free_slave(links, t, c - 1)
    }
}

/// the topology of the first `n` slaves: each slave after the first is attached on its port 0 to the first free
/// linked port of the last slave before it that has one; none if a slave finds no such port
pub open spec fn topology_of(links: Seq<u8>, n: nat) -> Option<Seq<Option<usize>>>
    decreases n,
{
    if n == 0 {
        Some(Seq::empty())
    } else {
        match topology_of(links, (n - 1) as nat) {
            None => None,
            Some(t) => if n == 1 {
                Some(seq![None, None, None, None])
            } else {
                match last_free_slave(links, t, n - 1) {
                    None => None,
                    Some(p) => Some(
                        t.update(4 * p + first_free_port(links, t, p), Some((n - 1) as usize))
                            + seq![Some(p as usize), None, None, None],
                    ),
                }
            },
        }
    }
}

/// the last slave before `c` with a free linked port is the one that has one when none after it has
proof fn lemma_last_free_slave_is(links: Seq<u8>, t: Seq<Option<usize>>, c: int, p: int)
    requires
        0 <= p < c,
        has_free_port(links, t, p),
        forall|q: int| p < q < c ==> !#[trigger] has_free_port(links, t, q),
    ensures
        last_free_slave(links, t, c) == Some(p),
    decreases c,
{
    if c - 1 != p {
        lemma_last_free_slave_is(links, t, c - 1, p);
    }
}

/// no slave before `c` has a free linked port
proof fn lemma_no_free_slave(links: Seq<u8>, t: Seq<Option<usize>>, c: int)
    requires
        forall|q: int| 0 <= q < c ==> !#[trigger] has_free_port(links, t, q),
    ensures
        last_free_slave(links, t, c) is None,
    decreases c,
{
    if c > 0 {
        lemma_no_free_slave(links, t, c - 1);
    }
}

/// once a slave cannot be attached, no topology includes it
proof fn lemma_topology_none(links: Seq<u8>, a: nat, b: nat)
    requires
        a <= b,
        topology_of(links, a) is None,
    ensures
        topology_of(links, b) is None,
    decreases b,
{
    if a < b {
        lemma_topology_none(links, a, (b - 1) as nat);
    }
}

/**
    build the topology of the slaves from the link status of their ports (bit `p` set if port `p` has a link),
    slaves being in topological order; entry `4 * s + q` is the slave connected to port `q` of slave `s`

    each slave is attached to the first free linked port of the last slave before it that still has one
*/
pub fn init_topology(links: &[u8]) -> (r: EthercatResult<Vec<Option<usize>>>)
    requires
        4 * links@.len() <= usize::MAX,
    ensures
        match r {
            Ok(topology) => topology_of(links@, links@.len()) == Some(topology@) && is_topology(links@, topology@),
            Err(e) => topology_of(links@, links@.len()) is None
                && e == EthercatError::<()>::Protocol("topology identification failed due to wrong slave port activation"),
        },
{
    let mut topology: Vec<Option<usize>> = Vec::new();
    let mut stack: Vec<usize> = Vec::new();
    let mut index: usize = 0;
    let n = links.len();
    while index < n
        invariant
            n == links@.len(),
            4 * n <= usize::MAX,
            index <= links@.len(),
            topology@.len() == 4 * index,
            topology_of(links@, index as nat) == Some(topology@),
            forall|k: int| 0 <= k < stack@.len() ==> #[trigger] stack@[k] < index,
            forall|a: int, b: int| 0 <= a < b < stack@.len() ==> stack@[a] < stack@[b],
            forall|p: int| 0 <= p < index && #[trigger] has_free_port(links@, topology@, p) ==> stack@.contains(p as usize),
            is_topology(links@.subrange(0, index as int), topology@),
        decreases links@.len() - index,
    {
        if index == 0 {
            topology.push(None);
            topology.push(None);
            topology.push(None);
            topology.push(None);
            proof {
                assert(is_topology(links@.subrange(0, 1), topology@));
                assert(topology@ =~= seq![None, None, None, None]);
            }
        } else {
            let mut found: Option<(usize, usize)> = None;
            while found.is_none()
                invariant_except_break
                    found is None,
                invariant
                    n == links@.len(),
                    4 * n <= usize::MAX,
                    0 < index < n,
                    topology@.len() == 4 * index,
                    topology_of(links@, index as nat) == Some(topology@),
                    forall|k: int| 0 <= k < stack@.len() ==> #[trigger] stack@[k] < index,
                    forall|a: int, b: int| 0 <= a < b < stack@.len() ==> stack@[a] < stack@[b],
                    forall|p: int| 0 <= p < index && #[trigger] has_free_port(links@, topology@, p) ==> stack@.contains(p as usize),
                ensures
                    match found {
                        Some((parent, port)) => parent < index && port < 4
                            && last_free_slave(links@, topology@, index as int) == Some(parent as int)
                            && first_free_port(links@, topology@, parent as int) == port
                            && free_port(links@, topology@, parent as int, port as int),
                        None => false,
                    },
                    forall|k: int| 0 <= k < stack@.len() ==> #[trigger] stack@[k] < index,
                    forall|a: int, b: int| 0 <= a < b < stack@.len() ==> stack@[a] < stack@[b],
                    forall|p: int| 0 <= p < index && #[trigger] has_free_port(links@, topology@, p) ==> stack@.contains(p as usize),
                    found matches Some((parent, _)) && stack@.len() > 0 && stack@.last() == parent,
                decreases stack@.len(),
            {
                if stack.len() == 0 {
                    proof {
                        assert forall|q: int| 0 <= q < index implies !#[trigger] has_free_port(links@, topology@, q) by {
                            if has_free_port(links@, topology@, q) {
                                assert(stack@.contains(q as usize));
                            }
                        }
                        lemma_no_free_slave(links@, topology@, index as int);
                        assert(topology_of(links@, (index + 1) as nat) is None);
                        lemma_topology_none(links@, (index + 1) as nat, links@.len());
                    }
                    return Err(EthercatError::Protocol("topology identification failed due to wrong slave port activation"));
                }
                let parent = stack[stack.len() - 1];
                let mut port: usize = 0;
                while port < 4
                    invariant_except_break
                        found is None,
                    invariant
                        port <= 4,
                        parent < index,
                        n == links@.len(),
                        4 * n <= usize::MAX,
                        index < n,
                        topology@.len() == 4 * index,
                        forall|q: int| 0 <= q < port ==> !free_port(links@, topology@, parent as int, q),
                    ensures
                        match found {
                            Some((p, q)) => p == parent && q < 4 && free_port(links@, topology@, p as int, q as int)
                                && forall|k: int| 0 <= k < q ==> !free_port(links@, topology@, p as int, k),
                            None => !has_free_port(links@, topology@, parent as int),
                        },
                    decreases 4 - port,
                {
                    if port_linked(links[parent], port) && topology[4 * parent + port].is_none() {
                        found = Some((parent, port));
                        break;
                    }
                    port = port + 1;
                }
                if found.is_none() {
                    let ghost before = stack@;
                    stack.pop();
                    proof {
                        assert(before.drop_last() =~= stack@);
                        assert forall|p: int| 0 <= p < index && #[trigger] has_free_port(links@, topology@, p) implies stack@.contains(p as usize) by {
                            assert(before.contains(p as usize));
                            let k = choose|k: int| 0 <= k < before.len() && before[k] == p as usize;
                            assert(k != before.len() - 1);
                            assert(stack@[k] == p as usize);
                        }
                    }
                } else {
                    proof {
                        assert forall|q: int| parent < q < index implies !#[trigger] has_free_port(links@, topology@, q) by {
                            if has_free_port(links@, topology@, q) {
                                assert(stack@.contains(q as usize));
                                let k = choose|k: int| 0 <= k < stack@.len() && stack@[k] == q as usize;
                                if k != stack@.len() - 1 {
                                    assert(stack@[k] < stack@[stack@.len() - 1]);
                                }
                            }
                        }
                        lemma_last_free_slave_is(links@, topology@, index as int, parent as int);
                    }
                    break;
                }
            }
            match found {
                Some((parent, port)) => {
                    proof {
                        lemma_attach(links@, topology@, index as int, parent as int, port as int);
                        lemma_attached_entries(topology@, index as int, parent as int, port as int);
                    }
                    let ghost t0 = topology@;
                    topology.set(4 * parent + port, Some(index));
                    topology.push(Some(parent));
                    topology.push(None);
                    topology.push(None);
                    topology.push(None);
                    proof {
                        assert(topology@ =~= t0.update(4 * parent + port, Some(index as usize)) + seq![Some(parent as usize), None, None, None]);
                        assert(topology_of(links@, (index + 1) as nat) == Some(topology@));
                        assert forall|p: int| 0 <= p < index && #[trigger] has_free_port(links@, topology@, p) implies stack@.contains(p as usize) by {
                            if p == parent {
                                assert(stack@[stack@.len() - 1] == p as usize);
                            } else {
                                assert(topology@[4 * p] == t0[4 * p]);
                                assert(topology@[4 * p + 1] == t0[4 * p + 1]);
                                assert(topology@[4 * p + 2] == t0[4 * p + 2]);
                                assert(topology@[4 * p + 3] == t0[4 * p + 3]);
                                assert(has_free_port(links@, t0, p));
                            }
                        }
                    }
                },
                None => {},
            }
        }
        let ghost before = stack@;
        stack.push(index);
        proof {
            assert forall|p: int| 0 <= p < index + 1 && #[trigger] has_free_port(links@, topology@, p) implies stack@.contains(p as usize) by {
                if p == index {
                    assert(stack@[stack@.len() - 1] == p as usize);
                } else {
                    assert(before.contains(p as usize));
                    let k = choose|k: int| 0 <= k < before.len() && before[k] == p as usize;
                    assert(stack@[k] == p as usize);
                }
            }
        }
        index = index + 1;
    }
    proof {
        assert(links@.subrange(0, links@.len() as int) =~= links@);
    }
    Ok(topology)
}


/// `a - b` on 32 bit clocks, wrapping around
pub open spec fn clock_diff(a: u32, b: u32) -> int {
    if a >= b {
        a - b
    } else {
        a - b + 0x1_0000_0000
    }
}

/// delay of one sample between the parent port before the child and the parent port of the child, minus the time spent in the child
pub open spec fn sample_transition(parent: Seq<u32>, child: Seq<u32>, i: int, parent_after: int, parent_before: int, child_after: int, child_before: int) -> int {
    clock_diff(parent[4 * i + parent_after], parent[4 * i + parent_before]) - clock_diff(child[4 * i + child_after], child[4 * i + child_before])
}

/// delay of one sample from the parent port 0 to the parent port of the child
pub open spec fn sample_port(parent: Seq<u32>, i: int, parent_after: int) -> int {
    clock_diff(parent[4 * i + parent_after], parent[4 * i])
}

/// sum of the transitions of the first `n` samples
pub open spec fn transitions_sum(parent: Seq<u32>, child: Seq<u32>, n: int, parent_after: int, parent_before: int, child_after: int, child_before: int) -> int
    decreases n,
{
    if n <= 0 {
        0
    } else {
        transitions_sum(parent, child, n - 1, parent_after, parent_before, child_after, child_before)
            + sample_transition(parent, child, n - 1, parent_after, parent_before, child_after, child_before)
    }
}

/// sum of the port delays of the first `n` samples
pub open spec fn ports_sum(parent: Seq<u32>, n: int, parent_after: int) -> int
    decreases n,
{
    if n <= 0 {
        0
    } else {
        ports_sum(parent, n - 1, parent_after) + sample_port(parent, n - 1, parent_after)
    }
}

/// the computation of the delays runs to completion on these samples
pub open spec fn delay_defined(parent_delay: u32, parent: Seq<u32>, child: Seq<u32>, samples: nat, parent_after: int, parent_before: int, child_after: int, child_before: int) -> bool {
    &&& 0 < samples
    &&& 2 * samples <= u64::MAX
    &&& parent.len() == 4 * samples && child.len() == 4 * samples
    &&& 0 <= parent_after < 4 && 0 <= parent_before < 4 && 0 <= child_after < 4 && 0 <= child_before < 4
    &&& forall|i: int| 0 <= i < samples ==> 0 <= #[trigger] sample_transition(parent, child, i, parent_after, parent_before, child_after, child_before)
    &&& forall|n: int| 0 <= n <= samples ==> #[trigger] transitions_sum(parent, child, n, parent_after, parent_before, child_after, child_before) <= u64::MAX
    &&& forall|n: int| 0 <= n <= samples ==> #[trigger] ports_sum(parent, n, parent_after) <= u64::MAX
    &&& parent_delay + transitions_sum(parent, child, samples as int, parent_after, parent_before, child_after, child_before) / (2 * samples as int)
        + ports_sum(parent, samples as int, parent_after) / (samples as int) <= u32::MAX
}

/// the first port from `from` on, of slave `s`, connected to the slave `target` in the topology
pub open spec fn first_port_to(t: Seq<Option<usize>>, s: int, from: int, target: usize) -> Option<int>
    decreases 4 - from,
{
    if from < 0 || from >= 4 {
        None
    } else if t[4 * s + from] == Some(target) {
        Some(from)
    } else {
        first_port_to(t, s, from + 1, target)
    }
}

/// the first port from `from` on, of slave `s`, that is connected in the topology
pub open spec fn first_connected_port(t: Seq<Option<usize>>, s: int, from: int) -> Option<int>
    decreases 4 - from,
{
    if from < 0 || from >= 4 {
        None
    } else if t[4 * s + from] is Some {
        Some(from)
    } else {
        first_connected_port(t, s, from + 1)
    }
}

/// the last port before `before`, of slave `s`, that is connected in the topology
pub open spec fn last_port_before(t: Seq<Option<usize>>, s: int, before: int) -> Option<int>
    decreases before,
{
    if before <= 0 {
        None
    } else if t[4 * s + before - 1] is Some {
        Some(before - 1)
    } else {
        last_port_before(t, s, before - 1)
    }
}

/// the ports whose latched times give the delay between a slave and its parent in the topology: the parent's port
/// leading to the slave, the parent's last connected port before it, and the slave's first connected port
pub open spec fn delay_ports(t: Seq<Option<usize>>, index: int, parent: int) -> Option<(int, int, int)> {
    match first_port_to(t, parent, 0, index as usize) {
        Some(after) => match last_port_before(t, parent, after) {
            Some(before) => match first_connected_port(t, index, 0) {
                Some(child) => Some((after, before, child)),
                None => None,
            },
            None => None,
        },
        None => None,
    }
}

/// the ports whose latched times give the delay between the slave `index` and its parent `parent` in the topology
/// (entry `4 * s + q` for port `q` of slave `s`): the parent's port leading to the slave, the parent's last
/// connected port before it, and the slave's first connected port
pub fn find_delay_ports(topology: &[Option<usize>], index: usize, parent: usize) -> (r: (usize, usize, usize))
    requires
        4 * index + 4 <= topology@.len(),
        4 * parent + 4 <= topology@.len(),
        delay_ports(topology@, index as int, parent as int) is Some,
    ensures
        delay_ports(topology@, index as int, parent as int) == Some((r.0 as int, r.1 as int, r.2 as int)),
        r.0 < 4 && r.1 < 4 && r.2 < 4,
{
    let ghost t = topology@;
    // the parent's port leading to the slave
    let mut after: usize = 0;
    while after < 4 && topology[4 * parent + after] != Some(index)
        invariant
            after <= 4,
            4 * parent + 4 <= topology.len(),
            t == topology@,
            first_port_to(t, parent as int, 0, index) == first_port_to(t, parent as int, after as int, index),
        decreases 4 - after,
    {
        after = after + 1;
    }
    proof {
        if after >= 4 {
            assert(first_port_to(t, parent as int, after as int, index) is None);
        }
        assert(first_port_to(t, parent as int, 0, index) == Some(after as int));
    }
    // the parent's last connected port before it
    let mut before: usize = after;
    while before > 0 && topology[4 * parent + before - 1].is_none()
        invariant
            before <= after < 4,
            4 * parent + 4 <= topology.len(),
            t == topology@,
            last_port_before(t, parent as int, after as int) == last_port_before(t, parent as int, before as int),
        decreases before,
    {
        before = before - 1;
    }
    proof {
        assert(last_port_before(t, parent as int, before as int) == Some(before - 1));
    }
    // the slave's first connected port
    let mut child: usize = 0;
    while child < 4 && topology[4 * index + child].is_none()
        invariant
            child <= 4,
            4 * index + 4 <= topology.len(),
            t == topology@,
            first_connected_port(t, index as int, 0) == first_connected_port(t, index as int, child as int),
        decreases 4 - child,
    {
        child = child + 1;
    }
    proof {
        if child >= 4 {
            assert(first_connected_port(t, index as int, child as int) is None);
        }
        assert(first_connected_port(t, index as int, 0) == Some(child as int));
    }
    (after, before - 1, child)
}

/**
    transmission delay from the clock reference slave to a slave, from the delay to its parent and the times latched
    on the ports of both (4 times per sample, one per port)

    the delay adds to the parent's one the mean transition time between the parent port before the slave and the
    parent port of the slave, minus the time spent in the slave, halved; and the mean delay from the parent port 0
    to the parent port of the slave
*/
pub fn slave_delay(
    parent_delay: u32,
    parent: &[u32],
    child: &[u32],
    samples: usize,
    parent_after: usize,
    parent_before: usize,
    child_after: usize,
    child_before: usize,
) -> (r: u32)
    requires
        delay_defined(parent_delay, parent@, child@, samples as nat, parent_after as int, parent_before as int, child_after as int, child_before as int),
    ensures
        r == parent_delay + transitions_sum(parent@, child@, samples as int, parent_after as int, parent_before as int, child_after as int, child_before as int) / (2 * samples as int)
            + ports_sum(parent@, samples as int, parent_after as int) / (samples as int),
        parent_delay <= r,
{
    let mut transitions: u64 = 0;
    let mut ports: u64 = 0;
    let mut i: usize = 0;
    let total = parent.len();
    while i < samples
        invariant
            total == parent@.len(),
            delay_defined(parent_delay, parent@, child@, samples as nat, parent_after as int, parent_before as int, child_after as int, child_before as int),
            i <= samples,
            transitions == transitions_sum(parent@, child@, i as int, parent_after as int, parent_before as int, child_after as int, child_before as int),
            ports == ports_sum(parent@, i as int, parent_after as int),
        decreases samples - i,
    {
        let pa = parent[4 * i + parent_after];
        let pb = parent[4 * i + parent_before];
        let ca = child[4 * i + child_after];
        let cb = child[4 * i + child_before];
        let p0 = parent[4 * i];
        proof {
            assert(0 <= sample_transition(parent@, child@, i as int, parent_after as int, parent_before as int, child_after as int, child_before as int));
            assert(transitions_sum(parent@, child@, i + 1, parent_after as int, parent_before as int, child_after as int, child_before as int) <= u64::MAX);
            assert(ports_sum(parent@, i + 1, parent_after as int) <= u64::MAX);
        }
        let transition: u32 = pa.wrapping_sub(pb) - ca.wrapping_sub(cb);
        let port: u32 = pa.wrapping_sub(p0);
        transitions = transitions + transition as u64;
        ports = ports + port as u64;
        i = i + 1;
    }
    parent_delay + (transitions / (2 * samples as u64) + ports / samples as u64) as u32
}

/**
    the delays of the slaves of a tree never decrease going away from the first slave: when each slave after the
    first has a parent before it, with a delay at most its own (as [slave_delay] computes it), every slave's delay is
    at least that of the first slave
*/
pub proof fn law_delays_grow_along_tree(delays: Seq<u32>, parents: Seq<int>, i: int)
    requires
        parents.len() == delays.len(),
        0 <= i < delays.len(),
        forall|k: int| 1 <= k < delays.len() ==> 0 <= #[trigger] parents[k] < k && delays[parents[k]] <= delays[k],
    ensures
        delays[0] <= delays[i],
    decreases i,
{
    if i > 0 {
        law_delays_grow_along_tree(delays, parents, parents[i]);
    }
}

} // verus!
