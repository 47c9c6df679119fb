use vstd::prelude::*;

verus! {

/// The number of distinct counter values below one node's prefix.
pub open spec fn id_base() -> int {
    0x1_0000_0000
}

/// A message id: the node's number in the high 32 bits, a per-node counter in the low 32.
pub open spec fn spec_compose_id(node_id: u32, counter: u32) -> int {
    node_id * id_base() + counter
}

/// Builds the id that carries `node_id` in its high half and `counter` in its low half.
pub fn compose_id(node_id: u32, counter: u32) -> (id: u64)
    ensures
        id == spec_compose_id(node_id, counter),
{
    let high: u64 = (node_id as u64) << 32u64;
    assert(high == (node_id as u64) * 0x1_0000_0000u64) by (bit_vector)
        requires
            high == (node_id as u64) << 32u64,
    ;
    assert((node_id as u64) * 0x1_0000_0000u64 <= 0xffff_ffff_0000_0000u64) by (nonlinear_arith)
        requires
            node_id <= 0xffff_ffffu32,
    ;
    high + counter as u64
}

/// An id gives back the node and the counter that made it: the high half is the node, the low
/// half the counter. So two ids are equal only when both parts are.
pub proof fn lemma_compose_id_decodes(node_id: u32, counter: u32)
    ensures
        spec_compose_id(node_id, counter) / id_base() == node_id,
        spec_compose_id(node_id, counter) % id_base() == counter,
{
    assert((node_id * id_base() + counter) / id_base() == node_id) by (nonlinear_arith)
        requires
            0 <= counter < id_base(),
            id_base() == 0x1_0000_0000,
    ;
    assert((node_id * id_base() + counter) % id_base() == counter) by (nonlinear_arith)
        requires
            0 <= counter < id_base(),
            id_base() == 0x1_0000_0000,
    ;
}

/// Ids are unique: distinct (node, counter) pairs never give the same id.
pub proof fn lemma_compose_id_injective(n1: u32, c1: u32, n2: u32, c2: u32)
    requires
        n1 != n2 || c1 != c2,
    ensures
        spec_compose_id(n1, c1) != spec_compose_id(n2, c2),
{
    lemma_compose_id_decodes(n1, c1);
    lemma_compose_id_decodes(n2, c2);
}

/// For one node, a later counter gives a larger id.
pub proof fn lemma_compose_id_monotone(node_id: u32, c1: u32, c2: u32)
    requires
        c1 < c2,
    ensures
        spec_compose_id(node_id, c1) < spec_compose_id(node_id, c2),
{
}

} // verus!
