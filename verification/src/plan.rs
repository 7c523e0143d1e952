use vstd::prelude::*;

use crate::types::Ix;
use crate::types::Operation;

verus! {

/// The instruction sequence one submission broadcasts: the compute-unit
/// limit directive first, the price directive second when a fee is present,
/// then the caller's operations unchanged and in their original order.
pub open spec fn planned(ops: Seq<Operation>, cu_limit: u32, fee: Option<u64>) -> Seq<Ix> {
    match fee {
        Some(f) => seq![Ix::CuLimit(cu_limit), Ix::CuPrice(f)] + ops.map_values(
            |op: Operation| Ix::Op(op),
        ),
        None => seq![Ix::CuLimit(cu_limit)] + ops.map_values(|op: Operation| Ix::Op(op)),
    }
}

/// How many synthetic directives stand before the caller's operations.
pub open spec fn directive_count(fee: Option<u64>) -> int {
    if fee is Some {
        2
    } else {
        1
    }
}

/// Builds the final instruction sequence, consuming the caller's operations.
pub fn assemble(ops: Vec<Operation>, cu_limit: u32, fee: Option<u64>) -> (r: Vec<Ix>)
    ensures
        r@ == planned(ops@, cu_limit, fee),
{
    let ghost gops = ops@;
    let mut rest = ops;
    let mut r: Vec<Ix> = Vec::new();
    r.push(Ix::CuLimit(cu_limit));
    match fee {
        Some(f) => r.push(Ix::CuPrice(f)),
        None => (),
    }
    let ghost pre = r@;
    let total: usize = rest.len();
    let mut k: usize = 0;
    while rest.len() > 0
        invariant
            gops.len() == total,
            k <= gops.len(),
            rest@ == gops.skip(k as int),
            r@ == pre + gops.take(k as int).map_values(|op: Operation| Ix::Op(op)),
        decreases rest@.len(),
    {
        let op = rest.remove(0);
        proof {
            assert(gops.skip(k as int)[0] == gops[k as int]);
            assert(gops.skip(k as int).subrange(1, gops.skip(k as int).len() as int) =~= gops.skip(
                k + 1 as int,
            ));
        }
        r.push(Ix::Op(op));
        proof {
            assert(gops.take(k + 1 as int).map_values(|o: Operation| Ix::Op(o)) =~= gops.take(
                k as int,
            ).map_values(|o: Operation| Ix::Op(o)).push(Ix::Op(gops[k as int])));
        }
        k += 1;
    }
    proof {
        assert(gops.take(gops.len() as int) =~= gops);
        assert(pre + gops.map_values(|op: Operation| Ix::Op(op)) =~= planned(gops, cu_limit, fee));
    }
    r
}

/// The emitted sequence always begins with exactly one compute-unit-limit
/// directive: one stands first, and none stands anywhere else.
pub proof fn lemma_limit_directive_first(ops: Seq<Operation>, cu_limit: u32, fee: Option<u64>)
    ensures
        planned(ops, cu_limit, fee).len() >= 1,
        planned(ops, cu_limit, fee)[0] == Ix::CuLimit(cu_limit),
        forall|i: int|
            1 <= i < planned(ops, cu_limit, fee).len() ==> !(#[trigger] planned(
                ops,
                cu_limit,
                fee,
            )[i] is CuLimit),
{
}

/// With an estimated fee the price directive stands second and carries
/// exactly that value; without one, no price directive appears at any
/// position.
pub proof fn lemma_price_directive(ops: Seq<Operation>, cu_limit: u32, fee: Option<u64>)
    ensures
        fee matches Some(f) ==> planned(ops, cu_limit, fee)[1] == Ix::CuPrice(f),
        fee is None ==> forall|i: int|
            0 <= i < planned(ops, cu_limit, fee).len() ==> !(#[trigger] planned(
                ops,
                cu_limit,
                fee,
            )[i] is CuPrice),
{
}

/// The caller's operations keep their relative order and multiplicity: they
/// stand right after the directives, unchanged, whatever the list's size.
pub proof fn lemma_operations_preserved(ops: Seq<Operation>, cu_limit: u32, fee: Option<u64>)
    ensures
        planned(ops, cu_limit, fee).len() == directive_count(fee) + ops.len(),
        forall|i: int|
            0 <= i < ops.len() ==> planned(ops, cu_limit, fee)[directive_count(fee) + i]
                == Ix::Op(ops[i]),
{
}

} // verus!
