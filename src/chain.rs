use vstd::prelude::*;

use crate::builder::{set_model, BuilderModel};
use crate::schema::{RecordSchema, Value};

verus! {

/// The edge from state `from` to state `to`, taken by setting the field at
/// position `field`.
#[derive(Debug, Clone, Copy, PartialEq, Eq)]
pub struct Transition {
    pub from: usize,
    pub to: usize,
    pub field: usize,
}

/// The linear chain of a schema of `n` fields: `State_i --set(field_i)--> State_{i+1}`.
pub open spec fn chain(n: nat) -> Seq<Transition> {
    Seq::new(n, |i: int| Transition { from: i as usize, to: (i + 1) as usize, field: i as usize })
}

impl RecordSchema {
    /// The transitions of the state chain, one per field, in declared order.
    pub fn transitions(&self) -> (ts: Vec<Transition>)
        ensures
            ts@ == chain(self@.len()),
    {
        let n = self.len();
        let mut ts: Vec<Transition> = Vec::new();
        let mut i: usize = 0;
        while i < n
            invariant
                i <= n,
                n == self@.len(),
                ts@ == chain(i as nat),
            decreases n - i,
        {
            ts.push(Transition { from: i, to: i + 1, field: i });
            i += 1;
            assert(ts@ =~= chain(i as nat));
        }
        ts
    }

    /// The index of the final state, the only one that completes a record.
    pub fn final_state(&self) -> (s: usize)
        ensures
            s == self@.len(),
    {
        self.len()
    }
}

/// The chain is linear: every state below the final one has exactly one
/// outgoing transition, which sets that state's own field; the final state
/// has none.
pub proof fn law_chain_is_linear(n: nat, state: int)
    requires
        state <= n,
        n <= usize::MAX,
    ensures
        forall|i: int, j: int|
            0 <= i < n && 0 <= j < n && (#[trigger] chain(n)[i]).from == (#[trigger] chain(n)[j]).from
                ==> i == j,
        forall|i: int| 0 <= i < n ==> (#[trigger] chain(n)[i]).field == i && chain(n)[i].to == i + 1,
        state == n ==> forall|i: int| 0 <= i < n ==> (#[trigger] chain(n)[i]).from != state,
{
}

/// A setter that a builder accepts follows the chain's transition out of
/// its state.
pub proof fn law_setter_follows_chain(b: BuilderModel, position: int, value: Value)
    requires
        b.wf(),
        set_model(b, position, value) is Ok,
    ensures
        set_model(b, position, value) matches Ok(next) && position < b.schema.len()
            && chain(b.schema.len())[position].from == b.state
            && chain(b.schema.len())[position].to == next.state,
{
}

} // verus!
