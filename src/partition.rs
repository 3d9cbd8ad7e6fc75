//! Even split of the global particle set across independent workers.
//!
//! Each worker receives `particle_count / worker_count` consecutive
//! particles; worker `w` takes the block that starts at `w * per_worker`.
//! When the count does not divide evenly the trailing remainder is assigned
//! to no worker: that truncation is part of this contract.

use vstd::prelude::*;

verus! {

/// Size of every partition: the floor of the particle count over the workers.
pub open spec fn per_worker(particle_count: nat, worker_count: nat) -> nat {
    particle_count / worker_count
}

/// The particles assigned to worker `worker_id`.
pub open spec fn partition_of<T>(particles: Seq<T>, worker_count: nat, worker_id: nat) -> Seq<T> {
    let n = per_worker(particles.len(), worker_count);
    particles.subrange((worker_id * n) as int, (worker_id * n + n) as int)
}

/// The partitions of workers `0..k`, laid end to end in worker order.
pub open spec fn joined_partitions<T>(particles: Seq<T>, worker_count: nat, k: nat) -> Seq<T>
    decreases k,
{
    if k == 0 {
        Seq::empty()
    } else {
        joined_partitions(particles, worker_count, (k - 1) as nat) + partition_of(
            particles,
            worker_count,
            (k - 1) as nat,
        )
    }
}

proof fn lemma_block_in_bounds(len: nat, worker_count: nat, worker_id: nat)
    requires
        worker_count > 0,
        worker_id < worker_count,
    ensures
        worker_id * per_worker(len, worker_count) + per_worker(len, worker_count) <= worker_count
            * per_worker(len, worker_count),
        worker_count * per_worker(len, worker_count) <= len,
{
    let n = per_worker(len, worker_count);
    assert(worker_id * n + n <= worker_count * n) by (nonlinear_arith)
        requires
            worker_id < worker_count,
    ;
    assert(worker_count * (len / worker_count) <= len) by (nonlinear_arith)
        requires
            worker_count > 0,
    ;
}

/// Number of particles each of `worker_count` workers receives.
pub fn particles_per_worker(particle_count: usize, worker_count: usize) -> (r: usize)
    requires
        worker_count > 0,
    ensures
        r == per_worker(particle_count as nat, worker_count as nat),
{
    particle_count / worker_count
}

/// Copies out the partition of worker `worker_id`.
pub fn partition<T: Copy>(particles: &Vec<T>, worker_count: usize, worker_id: usize) -> (r: Vec<T>)
    requires
        worker_count > 0,
        worker_id < worker_count,
    ensures
        r@ == partition_of(particles@, worker_count as nat, worker_id as nat),
{
    let n = particles_per_worker(particles.len(), worker_count);
    proof {
        lemma_block_in_bounds(particles.len() as nat, worker_count as nat, worker_id as nat);
    }
    let start: usize = worker_id * n;
    let end: usize = start + n;
    let mut r: Vec<T> = Vec::new();
    let mut i: usize = start;
    while i < end
        invariant
            start <= i <= end,
            end <= particles.len(),
            r@ == particles@.subrange(start as int, i as int),
        decreases end - i,
    {
        r.push(particles[i]);
        i += 1;
        proof {
            assert(r@ =~= particles@.subrange(start as int, i as int));
        }
    }
    r
}

/// Splits the particles into `worker_count` partitions, one per worker in
/// worker order.
pub fn scatter<T: Copy>(particles: &Vec<T>, worker_count: usize) -> (r: Vec<Vec<T>>)
    requires
        worker_count > 0,
    ensures
        r.len() == worker_count,
        forall|w: int|
            0 <= w < worker_count ==> #[trigger] r@[w]@ == partition_of(
                particles@,
                worker_count as nat,
                w as nat,
            ),
{
    let mut r: Vec<Vec<T>> = Vec::new();
    let mut w: usize = 0;
    while w < worker_count
        invariant
            w <= worker_count,
            worker_count > 0,
            r.len() == w,
            forall|v: int|
                0 <= v < w ==> #[trigger] r@[v]@ == partition_of(
                    particles@,
                    worker_count as nat,
                    v as nat,
                ),
        decreases worker_count - w,
    {
        let part = partition(particles, worker_count, w);
        r.push(part);
        w += 1;
    }
    r
}

/// Partition completeness: laid end to end in worker order, the partitions
/// of all workers are exactly the first `worker_count * per_worker` particles,
/// never more than the whole set; when the count divides evenly they are the
/// whole particle set.
pub proof fn lemma_partitions_complete<T>(particles: Seq<T>, worker_count: nat)
    requires
        worker_count > 0,
    ensures
        joined_partitions(particles, worker_count, worker_count) == particles.subrange(
            0,
            (worker_count * per_worker(particles.len(), worker_count)) as int,
        ),
        worker_count * per_worker(particles.len(), worker_count) <= particles.len(),
        particles.len() % worker_count == 0 ==> joined_partitions(
            particles,
            worker_count,
            worker_count,
        ) == particles,
{
    lemma_joined_prefix(particles, worker_count, worker_count);
    lemma_block_in_bounds(particles.len(), worker_count, 0);
    if particles.len() % worker_count == 0 {
        assert(worker_count * (particles.len() / worker_count) == particles.len()) by (
        nonlinear_arith)
            requires
                worker_count > 0,
                particles.len() % worker_count == 0,
        ;
        assert(particles.subrange(0, particles.len() as int) =~= particles);
    }
}

proof fn lemma_joined_prefix<T>(particles: Seq<T>, worker_count: nat, k: nat)
    requires
        worker_count > 0,
        k <= worker_count,
    ensures
        joined_partitions(particles, worker_count, k) == particles.subrange(
            0,
            (k * per_worker(particles.len(), worker_count)) as int,
        ),
    decreases k,
{
    let n = per_worker(particles.len(), worker_count);
    if k == 0 {
        assert(particles.subrange(0, 0) =~= Seq::<T>::empty());
    } else {
        lemma_joined_prefix(particles, worker_count, (k - 1) as nat);
        lemma_block_in_bounds(particles.len(), worker_count, (k - 1) as nat);
        assert((k - 1) * n + n == k * n) by (nonlinear_arith)
            requires
                k >= 1,
        ;
        assert(particles.subrange(0, ((k - 1) * n) as int) + particles.subrange(
            ((k - 1) * n) as int,
            ((k - 1) * n + n) as int,
        ) =~= particles.subrange(0, (k * n) as int));
    }
}

} // verus!
