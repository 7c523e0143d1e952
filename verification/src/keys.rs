use vstd::prelude::*;

use crate::types::AccountMeta;
use crate::types::Operation;

verus! {

/// The account keys one operation references, in its own order.
pub open spec fn op_keys(op: Operation) -> Seq<String> {
    op.accounts@.map_values(|m: AccountMeta| m.pubkey)
}

/// Every account key the operations reference: per-operation order kept,
/// operations concatenated in their order, repeated keys kept.
pub open spec fn flat_keys(ops: Seq<Operation>) -> Seq<String>
    decreases ops.len(),
{
    if ops.len() == 0 {
        Seq::empty()
    } else {
        flat_keys(ops.drop_last()) + op_keys(ops.last())
    }
}

proof fn lemma_flat_keys_snoc(ops: Seq<Operation>, i: int)
    requires
        0 <= i < ops.len(),
    ensures
        flat_keys(ops.take(i + 1)) == flat_keys(ops.take(i)) + op_keys(ops[i]),
{
    assert(ops.take(i + 1).drop_last() =~= ops.take(i));
    assert(ops.take(i + 1).last() == ops[i]);
}

/// Key extraction distributes over list concatenation: the keys of `a + b`
/// are the keys of `a` followed by the keys of `b`. Extraction is therefore
/// order-preserving and non-deduplicating: each operation contributes its
/// keys, in place and with their multiplicity.
pub proof fn lemma_flat_keys_concat(a: Seq<Operation>, b: Seq<Operation>)
    ensures
        flat_keys(a + b) == flat_keys(a) + flat_keys(b),
    decreases b.len(),
{
    if b.len() == 0 {
        assert(a + b =~= a);
        assert(flat_keys(a) + flat_keys(b) =~= flat_keys(a));
    } else {
        lemma_flat_keys_concat(a, b.drop_last());
        assert((a + b).drop_last() =~= a + b.drop_last());
        assert((a + b).last() == b.last());
        assert(flat_keys(a) + (flat_keys(b.drop_last()) + op_keys(b.last())) =~= (flat_keys(a)
            + flat_keys(b.drop_last())) + op_keys(b.last()));
    }
}

/// A single operation contributes exactly its own keys.
pub proof fn lemma_flat_keys_single(op: Operation)
    ensures
        flat_keys(seq![op]) == op_keys(op),
{
    assert(seq![op].drop_last() =~= Seq::<Operation>::empty());
    assert(flat_keys(seq![op].drop_last()) + op_keys(op) =~= op_keys(op));
}

/// Collects the printable keys of every account the operations reference,
/// preserving order inside and across operations and keeping duplicates.
pub fn account_keys(ops: &Vec<Operation>) -> (r: Vec<String>)
    ensures
        r@ == flat_keys(ops@),
{
    let mut r: Vec<String> = Vec::new();
    let mut i: usize = 0;
    while i < ops.len()
        invariant
            i <= ops@.len(),
            r@ == flat_keys(ops@.take(i as int)),
        decreases ops@.len() - i,
    {
        let metas = &ops[i].accounts;
        let mut j: usize = 0;
        while j < metas.len()
            invariant
                i < ops@.len(),
                j <= metas@.len(),
                metas == &ops@[i as int].accounts,
                r@ == flat_keys(ops@.take(i as int)) + op_keys(ops@[i as int]).take(j as int),
            decreases metas@.len() - j,
        {
            let k = metas[j].pubkey.clone();
            r.push(k);
            proof {
                assert(op_keys(ops@[i as int]).take(j + 1 as int) =~= op_keys(
                    ops@[i as int],
                ).take(j as int).push(ops@[i as int].accounts@[j as int].pubkey));
            }
            j += 1;
        }
        proof {
            assert(op_keys(ops@[i as int]).take(metas@.len() as int) =~= op_keys(ops@[i as int]));
            lemma_flat_keys_snoc(ops@, i as int);
        }
        i += 1;
    }
    proof {
        assert(ops@.take(ops@.len() as int) =~= ops@);
    }
    r
}

} // verus!
