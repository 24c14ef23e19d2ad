//! Feeding the engine from batches of records.

use vstd::prelude::*;
use crate::ledger::engine::Engine;
use crate::ledger::transaction::Transaction;

verus! {

/// Hands the records of one batch to the engine, one at a time and in the order in which they
/// stand. Batches consumed one after another leave the engine where their concatenation would.
pub fn consume_batch(engine: &mut Engine, records: &[Transaction])
    requires
        old(engine).wf(),
    ensures
        final(engine).wf(),
        final(engine)@ == old(engine)@.run(records@),
{
    let mut done: usize = 0;
    while done < records.len()
        invariant
            done <= records.len(),
            engine.wf(),
            engine@ == old(engine)@.run(records@.take(done as int)),
        decreases records.len() - done,
    {
        engine.process(records[done]);
        proof {
            let next = records@.take(done + 1);
            assert(next.drop_last() == records@.take(done as int));
            assert(next.last() == records@[done as int]);
        }
        done = done + 1;
    }
    assert(records@.take(done as int) == records@);
}

} // verus!
