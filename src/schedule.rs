//! When a worker writes a checkpoint: before the first step (step 0) and
//! after every step whose index is a multiple of the write frequency.

use vstd::prelude::*;

verus! {

/// Whether a checkpoint is written after step `step`.
pub open spec fn checkpoint_at(step: nat, write_frequency: nat) -> bool {
    step == 0 || (write_frequency > 0 && step % write_frequency == 0)
}

/// Whether a checkpoint is written after step `step` (step 0 being the
/// initial positions).
pub fn is_checkpoint_step(step: u32, write_frequency: u32) -> (r: bool)
    requires
        step > 0 ==> write_frequency > 0,
    ensures
        r == checkpoint_at(step as nat, write_frequency as nat),
{
    step == 0 || step % write_frequency == 0
}

/// The steps of a run of `total_steps` steps after which checkpoints are
/// written, in increasing order.
pub fn checkpoint_steps(total_steps: u32, write_frequency: u32) -> (r: Vec<u32>)
    requires
        total_steps > 0 ==> write_frequency > 0,
    ensures
        forall|i: int, j: int| 0 <= i < j < r.len() ==> r@[i] < r@[j],
        forall|s: u32|
            (s <= total_steps && checkpoint_at(s as nat, write_frequency as nat)) <==> #[trigger] r@.contains(
                s,
            ),
        forall|i: int| 0 <= i < r.len() ==> r@[i] <= total_steps,
{
    let mut r: Vec<u32> = Vec::new();
    r.push(0);
    let mut step: u32 = 1;
    proof {
        assert(r@[0] == 0u32);
        assert(r@.contains(0u32));
    }
    while step <= total_steps
        invariant
            1 <= step <= total_steps as int + 1,
            total_steps > 0 ==> write_frequency > 0,
            r.len() > 0,
            r@[0] == 0,
            forall|i: int, j: int| 0 <= i < j < r.len() ==> r@[i] < r@[j],
            forall|i: int| 0 <= i < r.len() ==> r@[i] < step,
            forall|s: u32|
                (s < step && checkpoint_at(s as nat, write_frequency as nat)) <==> #[trigger] r@.contains(s),
        decreases total_steps as int + 1 - step,
    {
        let ghost old_r = r@;
        if step % write_frequency == 0 {
            r.push(step);
        }
        proof {
            assert forall|s: u32|
                (s <= step && checkpoint_at(s as nat, write_frequency as nat)) <==> r@.contains(
                    s,
                ) by {
                if r@.contains(s) {
                    let k = choose|k: int| 0 <= k < r.len() && r@[k] == s;
                    if k < old_r.len() {
                        assert(old_r[k] == s);
                        assert(old_r.contains(s));
                    } else {
                        assert(s == step && step % write_frequency == 0);
                    }
                }
                if s <= step && checkpoint_at(s as nat, write_frequency as nat) {
                    if s < step {
                        assert(old_r.contains(s));
                        let k = choose|k: int| 0 <= k < old_r.len() && old_r[k] == s;
                        assert(r@[k] == s);
                    } else {
                        assert(r@[r.len() - 1] == s);
                    }
                }
            }
        }
        if step == total_steps {
            return r;
        }
        step += 1;
    }
    r
}

} // verus!
