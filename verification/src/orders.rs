//! Which inputs and outputs of a transfer the orders on it name.

use crate::hash::H256;
use crate::ledger::{
    all_below, inputs_in_range, no_order_hashes, order_of_input, order_of_output,
    output_order_hashes, outputs_in_range,
};
use crate::transaction::OrderOnTransfer;
use vstd::prelude::*;

verus! {

/// Writes `hash` into the slots that the indices name. Where an index is past the last slot, the
/// answer is `false`.
fn mark(slots: &mut Vec<Option<H256>>, indices: &Vec<usize>, hash: H256) -> (done: bool)
    ensures
        done == all_below(indices@, old(slots)@.len()),
        done ==> final(slots)@.len() == old(slots)@.len(),
        done ==> forall|i: int|
            0 <= i < old(slots)@.len() ==> #[trigger] final(slots)@[i] == if indices@.contains(
                i as usize,
            ) {
                Some(hash)
            } else {
                old(slots)@[i]
            },
{
    let mut m: usize = 0;
    while m < indices.len()
        invariant
            m <= indices@.len(),
            slots@.len() == old(slots)@.len(),
            all_below(indices@.take(m as int), old(slots)@.len()),
            forall|i: int|
                0 <= i < old(slots)@.len() ==> #[trigger] slots@[i] == if indices@.take(
                    m as int,
                ).contains(i as usize) {
                    Some(hash)
                } else {
                    old(slots)@[i]
                },
        decreases indices@.len() - m,
    {
        let index = indices[m];
        if index >= slots.len() {
            assert(!(indices@[m as int] < old(slots)@.len()));
            return false;
        }
        let ghost before = slots@;
        slots[index] = Some(hash);
        proof {
            let done = indices@.take(m as int);
            let next = indices@.take(m + 1);
            assert(next =~= done.push(index));
            assert forall|i: int| 0 <= i < old(slots)@.len() implies #[trigger] slots@[i]
                == if next.contains(i as usize) {
                Some(hash)
            } else {
                old(slots)@[i]
            } by {
                assert(before[i] == before[i]);
                if i == index {
                    assert(next[m as int] == i as usize);
                } else if next.contains(i as usize) {
                    let j = choose|j: int| 0 <= j < next.len() && next[j] == i as usize;
                    assert(done[j] == i as usize);
                } else if done.contains(i as usize) {
                    let j = choose|j: int| 0 <= j < done.len() && done[j] == i as usize;
                    assert(next[j] == i as usize);
                }
            }
        }
        m += 1;
    }
    assert(indices@.take(indices@.len() as int) =~= indices@);
    true
}

/// No order for any of `count` inputs or outputs.
pub fn empty_slots(count: usize) -> (slots: Vec<Option<H256>>)
    ensures
        slots@ == no_order_hashes(count as nat),
{
    let mut slots: Vec<Option<H256>> = Vec::with_capacity(count);
    let mut i: usize = 0;
    while i < count
        invariant
            i <= count,
            slots@.len() == i,
            forall|j: int| 0 <= j < i ==> slots@[j] is None,
        decreases count - i,
    {
        slots.push(None);
        i += 1;
    }
    assert(slots@ =~= no_order_hashes(count as nat));
    slots
}

/// The order that each of `count` inputs pays for, or `None` where an order names an input that
/// is not there.
pub fn input_orders(orders: &Vec<OrderOnTransfer>, count: usize) -> (slots: Option<
    Vec<Option<H256>>,
>)
    ensures
        match slots {
            Some(s) => {
                &&& inputs_in_range(orders@, count as nat)
                &&& s@.len() == count
                &&& forall|i: int|
                    0 <= i < count ==> #[trigger] s@[i] == order_of_input(
                        orders@,
                        orders@.len() as int,
                        i,
                    )
            },
            None => !inputs_in_range(orders@, count as nat),
        },
{
    let mut slots = empty_slots(count);
    let mut o: usize = 0;
    while o < orders.len()
        invariant
            o <= orders@.len(),
            slots@.len() == count,
            forall|p: int|
                0 <= p < o ==> all_below((#[trigger] orders@[p]).input_indices@, count as nat),
            forall|i: int|
                0 <= i < count ==> #[trigger] slots@[i] == order_of_input(orders@, o as int, i),
        decreases orders@.len() - o,
    {
        let ghost before = slots@;
        if !mark(&mut slots, &orders[o].input_indices, orders[o].order.hash) {
            assert(!all_below(orders@[o as int].input_indices@, count as nat));
            return None;
        }
        assert forall|i: int| 0 <= i < count implies #[trigger] slots@[i] == order_of_input(
            orders@,
            o + 1,
            i,
        ) by {
            assert(before[i] == order_of_input(orders@, o as int, i));
        }
        o += 1;
    }
    Some(slots)
}

/// What is left of the order that each of `count` outputs stays under, or `None` where an order
/// names an output that is not there.
pub fn output_orders(orders: &Vec<OrderOnTransfer>, count: usize) -> (slots: Option<
    Vec<Option<H256>>,
>)
    ensures
        match slots {
            Some(s) => {
                &&& outputs_in_range(orders@, count as nat)
                &&& s@ == output_order_hashes(orders@, count as nat)
            },
            None => !outputs_in_range(orders@, count as nat),
        },
{
    let mut slots = empty_slots(count);
    let mut o: usize = 0;
    while o < orders.len()
        invariant
            o <= orders@.len(),
            slots@.len() == count,
            forall|p: int|
                0 <= p < o ==> all_below((#[trigger] orders@[p]).output_indices@, count as nat),
            forall|i: int|
                0 <= i < count ==> #[trigger] slots@[i] == order_of_output(orders@, o as int, i),
        decreases orders@.len() - o,
    {
        let ghost before = slots@;
        if !mark(&mut slots, &orders[o].output_indices, orders[o].consumed_hash) {
            assert(!all_below(orders@[o as int].output_indices@, count as nat));
            return None;
        }
        assert forall|i: int| 0 <= i < count implies #[trigger] slots@[i] == order_of_output(
            orders@,
            o + 1,
            i,
        ) by {
            assert(before[i] == order_of_output(orders@, o as int, i));
        }
        o += 1;
    }
    assert(slots@ =~= output_order_hashes(orders@, count as nat));
    Some(slots)
}

} // verus!
