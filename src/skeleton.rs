//! The geometric output of interpretation: strands of points and props.
//!
//! A skeleton is generic in its point type `P` and prop type `R`; the
//! accumulation policy below only decides where a point goes.
use vstd::prelude::*;

verus! {

/// Strands after one point is offered to them.
///
/// A forced break, or a skeleton without strands, starts a new strand with
/// the point. Otherwise a point that lies on the last point of the current
/// strand (`near_last`) is dropped, and any other point extends that strand.
pub open spec fn with_node<P>(
    strands: Seq<Seq<P>>,
    point: P,
    force_new_strand: bool,
    near_last: bool,
) -> Seq<Seq<P>> {
    if force_new_strand || strands.len() == 0 {
        strands.push(seq![point])
    } else if near_last {
        strands
    } else {
        strands.update(strands.len() - 1, strands.last().push(point))
    }
}

/// Strands after a sequence of points is offered, each with its forced-break
/// and near-last flags, in order.
pub open spec fn replay<P>(strands: Seq<Seq<P>>, nodes: Seq<(P, bool, bool)>) -> Seq<Seq<P>>
    decreases nodes.len(),
{
    if nodes.len() == 0 {
        strands
    } else {
        let (p, force, near) = nodes.last();
        with_node(replay(strands, nodes.drop_last()), p, force, near)
    }
}

/// Every strand holds at least one point.
pub open spec fn strands_nonempty<P>(strands: Seq<Seq<P>>) -> bool {
    forall|i: int| 0 <= i < strands.len() ==> #[trigger] strands[i].len() > 0
}

/// Strands and props gathered during one interpretation.
pub struct Skeleton<P, R> {
    /// Contiguous polylines, in the order they were started.
    pub strands: Vec<Vec<P>>,
    /// Discrete objects, in the order they were spawned.
    pub props: Vec<R>,
}

impl<P, R> Skeleton<P, R> {
    /// The strands as sequences of points.
    pub open spec fn strand_seq(&self) -> Seq<Seq<P>> {
        self.strands@.map_values(|s: Vec<P>| s@)
    }

    pub open spec fn wf(&self) -> bool {
        strands_nonempty(self.strand_seq())
    }

    pub fn new() -> (r: Self)
        ensures
            r.strand_seq() == Seq::<Seq<P>>::empty(),
            r.props@ == Seq::<R>::empty(),
            r.wf(),
    {
        Skeleton { strands: Vec::new(), props: Vec::new() }
    }

    /// Whether a strand has been started.
    pub fn has_strands(&self) -> (r: bool)
        ensures
            r == (self.strand_seq().len() > 0),
    {
        self.strands.len() > 0
    }

    /// The last point of the current strand, if any strand exists.
    pub fn last_point(&self) -> (r: Option<&P>)
        requires
            self.wf(),
        ensures
            self.strand_seq().len() == 0 ==> r is None,
            self.strand_seq().len() > 0 ==> r == Some(&self.strand_seq().last().last()),
    {
        let n = self.strands.len();
        if n == 0 {
            None
        } else {
            let strand = &self.strands[n - 1];
            assert(self.strand_seq()[n - 1] == strand@);
            assert(strand@.len() > 0);
            Some(&strand[strand.len() - 1])
        }
    }

    /// Offers a point to the strands, following [`with_node`].
    ///
    /// `near_last` tells whether the point lies within the deduplication
    /// distance of the current strand's last point.
    pub fn add_node(&mut self, point: P, force_new_strand: bool, near_last: bool)
        requires
            old(self).wf(),
        ensures
            final(self).strand_seq() == with_node(
                old(self).strand_seq(),
                point,
                force_new_strand,
                near_last,
            ),
            final(self).props@ == old(self).props@,
            final(self).wf(),
    {
        let ghost before = self.strand_seq();
        if force_new_strand || self.strands.len() == 0 {
            let mut fresh: Vec<P> = Vec::new();
            fresh.push(point);
            self.strands.push(fresh);
            assert(self.strand_seq() =~= before.push(seq![point]));
        } else if !near_last {
            let mut last = self.strands.pop().unwrap();
            assert(last@ == before.last());
            last.push(point);
            self.strands.push(last);
            assert(self.strand_seq() =~= before.update(
                before.len() - 1,
                before.last().push(point),
            ));
        }
    }

    /// Appends a prop.
    pub fn add_prop(&mut self, prop: R)
        ensures
            final(self).props@ == old(self).props@.push(prop),
            final(self).strand_seq() == old(self).strand_seq(),
    {
        self.props.push(prop);
    }

    /// Removes all strands and props.
    pub fn clear(&mut self)
        ensures
            final(self).strand_seq() == Seq::<Seq<P>>::empty(),
            final(self).props@ == Seq::<R>::empty(),
            final(self).wf(),
    {
        self.strands.clear();
        self.props.clear();
        assert(self.strand_seq() =~= Seq::<Seq<P>>::empty());
    }
}

} // verus!
