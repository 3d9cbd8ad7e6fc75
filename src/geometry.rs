//! Coil geometry: an ordered sequence of nodes paired with one derived
//! record per segment (adjacent node pair).
//!
//! Each coil owns both its nodes and its segment records, so segment `i`
//! always belongs to nodes `i` and `i + 1`: that alignment is the type's
//! invariant, established once when the coil is built and never changed.
//! The segment record itself (displacement and unit vector, say) is
//! computed by a function the caller supplies.

use vstd::prelude::*;

verus! {

/// Why a coil set could not be built.
#[derive(Clone, Copy, Debug, PartialEq, Eq, Structural)]
pub enum GeometryError {
    /// Coil number `coil` (in input order) has only `nodes` nodes; a coil
    /// needs at least two, that is one segment.
    TooFewNodes { coil: usize, nodes: usize },
}

/// Whether `f` may be applied to every adjacent node pair.
pub open spec fn segment_fn_admits<T, S, F: Fn(&T, &T) -> S>(f: F, nodes: Seq<T>) -> bool {
    forall|i: int| 0 <= i < nodes.len() - 1 ==> #[trigger] f.requires((&nodes[i], &nodes[i + 1]))
}

/// Whether `segments[i]` is what `f` gives for nodes `i` and `i + 1`, for
/// every segment.
pub open spec fn segments_derived<T, S, F: Fn(&T, &T) -> S>(
    f: F,
    nodes: Seq<T>,
    segments: Seq<S>,
) -> bool {
    forall|i: int|
        0 <= i < segments.len() ==> #[trigger] f.ensures((&nodes[i], &nodes[i + 1]), segments[i])
}

pub struct Coil<T, S> {
    nodes: Vec<T>,
    segments: Vec<S>,
}

impl<T, S> Coil<T, S> {
    /// The coil's nodes, in conductor order.
    pub closed spec fn nodes(&self) -> Seq<T> {
        self.nodes@
    }

    /// The per-segment records; entry `i` belongs to nodes `i` and `i + 1`.
    pub closed spec fn segments(&self) -> Seq<S> {
        self.segments@
    }

    #[verifier::type_invariant]
    spec fn aligned(&self) -> bool {
        &&& self.nodes@.len() >= 2
        &&& self.segments@.len() == self.nodes@.len() - 1
    }

    /// Builds a coil from its nodes, deriving segment `i` as
    /// `segment_of(&nodes[i], &nodes[i + 1])`. Gives `None` when there are
    /// fewer than two nodes.
    pub fn new<F: Fn(&T, &T) -> S>(nodes: Vec<T>, segment_of: F) -> (r: Option<Self>)
        requires
            segment_fn_admits(segment_of, nodes@),
        ensures
            r is None <==> nodes.len() < 2,
            r matches Some(c) ==> c.nodes() == nodes@ && c.segments().len() == nodes.len() - 1
                && segments_derived(
                segment_of,
                nodes@,
                c.segments(),
            ),
    {
        if nodes.len() < 2 {
            return None;
        }
        let mut segments: Vec<S> = Vec::new();
        let mut i: usize = 0;
        while i + 1 < nodes.len()
            invariant
                nodes.len() >= 2,
                i < nodes.len(),
                segments.len() == i,
                segment_fn_admits(segment_of, nodes@),
                segments_derived(segment_of, nodes@, segments@),
            decreases nodes.len() - i,
        {
            let s = segment_of(&nodes[i], &nodes[i + 1]);
            segments.push(s);
            i += 1;
        }
        Some(Coil { nodes, segments })
    }

    pub fn node_count(&self) -> (r: usize)
        ensures
            r == self.nodes().len(),
            r >= 2,
    {
        proof {
            use_type_invariant(self);
        }
        self.nodes.len()
    }

    pub fn segment_count(&self) -> (r: usize)
        ensures
            r == self.segments().len(),
            r == self.nodes().len() - 1,
            r >= 1,
    {
        proof {
            use_type_invariant(self);
        }
        self.segments.len()
    }

    /// Segment `i`: its start node, its end node and its record.
    pub fn segment(&self, i: usize) -> (r: (&T, &T, &S))
        requires
            i < self.segments().len(),
        ensures
            *r.0 == self.nodes()[i as int],
            *r.1 == self.nodes()[i as int + 1],
            *r.2 == self.segments()[i as int],
    {
        proof {
            use_type_invariant(self);
        }
        let node_count = self.nodes.len();
        assert(i + 1 < node_count);
        (&self.nodes[i], &self.nodes[i + 1], &self.segments[i])
    }

    pub fn nodes_ref(&self) -> (r: &Vec<T>)
        ensures
            r@ == self.nodes(),
    {
        &self.nodes
    }

    pub fn segments_ref(&self) -> (r: &Vec<S>)
        ensures
            r@ == self.segments(),
    {
        &self.segments
    }
}

/// Builds every coil of a coil set, in input order, deriving its segments
/// with `segment_of`. Fails on the first coil with fewer than two nodes.
pub fn build_coils<T, S, F: Fn(&T, &T) -> S>(coils: Vec<Vec<T>>, segment_of: F) -> (r: Result<
    Vec<Coil<T, S>>,
    GeometryError,
>)
    requires
        forall|c: int| 0 <= c < coils.len() ==> segment_fn_admits(segment_of, #[trigger] coils@[c]@),
    ensures
        r is Ok <==> forall|c: int| 0 <= c < coils.len() ==> #[trigger] coils@[c].len() >= 2,
        r matches Ok(built) ==> built.len() == coils.len() && forall|c: int|
            0 <= c < coils.len() ==> #[trigger] built@[c].nodes() == coils@[c]@
                && built@[c].segments().len() == coils@[c].len() - 1 && segments_derived(
                segment_of,
                coils@[c]@,
                built@[c].segments(),
            ),
        r matches Err(GeometryError::TooFewNodes { coil, nodes }) ==> coil < coils.len() && nodes
            == coils@[coil as int].len() && nodes < 2 && forall|c: int|
            0 <= c < coil ==> #[trigger] coils@[c].len() >= 2,
{
    let ghost input = coils@;
    let total = coils.len();
    let mut built: Vec<Coil<T, S>> = Vec::new();
    let mut rest = coils;
    let mut c: usize = 0;
    while rest.len() > 0
        invariant
            c + rest.len() == input.len(),
            input.len() == total,
            input == coils@,
            built.len() == c,
            forall|k: int| 0 <= k < input.len() ==> segment_fn_admits(segment_of, #[trigger] input[k]@),
            rest@ == input.subrange(c as int, input.len() as int),
            forall|k: int|
                0 <= k < c ==> #[trigger] built@[k].nodes() == input[k]@
                    && built@[k].segments().len() == input[k].len() - 1 && segments_derived(
                    segment_of,
                    input[k]@,
                    built@[k].segments(),
                ),
            forall|k: int| 0 <= k < c ==> #[trigger] input[k].len() >= 2,
        decreases rest.len(),
    {
        let nodes = rest.remove(0);
        assert(nodes == input[c as int]);
        let n = nodes.len();
        match Coil::new(nodes, &segment_of) {
            Some(coil) => built.push(coil),
            None => {
                assert(input[c as int].len() < 2);
                return Err(GeometryError::TooFewNodes { coil: c, nodes: n });
            },
        }
        c += 1;
        assert(rest@ =~= input.subrange(c as int, input.len() as int));
    }
    Ok(built)
}

} // verus!
