use vstd::prelude::*;

verus! {

/// The bands between consecutive edges: band `i` runs from edge `i` to edge `i + 1`.
pub open spec fn ranges_of<T>(edges: Seq<T>) -> Seq<(T, T)> {
    Seq::new((edges.len() - 1) as nat, |i: int| (edges[i], edges[i + 1]))
}

/// Pairs consecutive band edges into one `(low, high)` range per band, so
/// `edges.len() - 1` bands in all.
pub fn band_ranges<T: Copy>(edges: &[T]) -> (r: Vec<(T, T)>)
    requires
        edges@.len() >= 1,
    ensures
        r@ == ranges_of(edges@),
{
    let mut r: Vec<(T, T)> = Vec::new();
    let mut i: usize = 0;
    while i < edges.len() - 1
        invariant
            i + 1 <= edges@.len(),
            r@ == ranges_of(edges@).take(i as int),
        decreases edges@.len() - i,
    {
        r.push((edges[i], edges[i + 1]));
        i = i + 1;
        assert(r@ =~= ranges_of(edges@).take(i as int));
    }
    assert(r@ =~= ranges_of(edges@));
    r
}

/// The bands built from `edges` tile the span from the first edge to the last:
/// there is one band per gap, each band starts where the previous one ends,
/// the first starts at the first edge and the last ends at the last edge.
pub proof fn lemma_bands_contiguous<T>(edges: Seq<T>)
    requires
        edges.len() >= 2,
    ensures
        ranges_of(edges).len() == edges.len() - 1,
        ranges_of(edges)[0].0 == edges[0],
        ranges_of(edges).last().1 == edges.last(),
        forall|i: int|
            0 <= i < ranges_of(edges).len() - 1 ==> #[trigger] ranges_of(edges)[i].1 == ranges_of(
                edges,
            )[i + 1].0,
{
}

} // verus!
