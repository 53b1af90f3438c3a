use vstd::prelude::*;

verus! {

/// The flat layout of a list of 3-vectors: the components of point `i` stand
/// at `3 * i`, `3 * i + 1` and `3 * i + 2`.
pub open spec fn packed<T>(points: Seq<[T; 3]>) -> Seq<T> {
    Seq::new(3 * points.len(), |j: int| points[j / 3]@[j % 3])
}

/// The 3-vectors read back from a flat layout whose length is a multiple of 3.
pub open spec fn unpacked<T>(flat: Seq<T>) -> Seq<[T; 3]> {
    Seq::new(flat.len() / 3, |i: int| [flat[3 * i], flat[3 * i + 1], flat[3 * i + 2]])
}

/// Lays `points` out as one flat sequence of components, point after point.
pub fn pack<T: Copy>(points: &[[T; 3]]) -> (r: Vec<T>)
    requires
        3 * points@.len() <= usize::MAX,
    ensures
        r@ == packed(points@),
{
    let n = points.len();
    let mut r: Vec<T> = Vec::with_capacity(3 * n);
    let mut i: usize = 0;
    while i < n
        invariant
            n == points@.len(),
            3 * n <= usize::MAX,
            0 <= i <= n,
            r@.len() == 3 * i,
            forall|j: int| 0 <= j < 3 * i ==> #[trigger] r@[j] == points@[j / 3]@[j % 3],
        decreases n - i,
    {
        let p = points[i];
        r.push(p[0]);
        r.push(p[1]);
        r.push(p[2]);
        i = i + 1;
    }
    assert(r@ =~= packed(points@));
    r
}

/// Reads a flat sequence of components back as 3-vectors.
pub fn unpack<T: Copy>(flat: &[T]) -> (r: Vec<[T; 3]>)
    requires
        flat@.len() % 3 == 0,
    ensures
        r@ == unpacked(flat@),
{
    let len = flat.len();
    let n = len / 3;
    let mut r: Vec<[T; 3]> = Vec::with_capacity(n);
    let mut i: usize = 0;
    while i < n
        invariant
            len == flat@.len(),
            n == flat@.len() / 3,
            flat@.len() % 3 == 0,
            0 <= i <= n,
            r@.len() == i,
            forall|j: int| 0 <= j < i ==> #[trigger] r@[j] == [flat@[3 * j], flat@[3 * j + 1], flat@[3 * j + 2]],
        decreases n - i,
    {
        assert(3 * i + 2 < flat@.len()) by (nonlinear_arith)
            requires
                i < n,
                n == flat@.len() / 3,
        ;
        let k = 3 * i;
        r.push([flat[k], flat[k + 1], flat[k + 2]]);
        i = i + 1;
    }
    assert(r@ =~= unpacked(flat@));
    r
}

/// Reading a packed layout back gives the original points.
pub proof fn lemma_unpack_pack<T>(points: Seq<[T; 3]>)
    ensures
        unpacked(packed(points)) == points,
{
    let flat = packed(points);
    assert forall|i: int| 0 <= i < points.len() implies #[trigger] unpacked(flat)[i] == points[i] by {
        assert((3 * i) / 3 == i && (3 * i) % 3 == 0);
        assert((3 * i + 1) / 3 == i && (3 * i + 1) % 3 == 1);
        assert((3 * i + 2) / 3 == i && (3 * i + 2) % 3 == 2);
        assert(unpacked(flat)[i]@ =~= points[i]@);
    }
    assert(unpacked(flat) =~= points);
}

/// Packing the points read from a flat layout gives the layout back.
pub proof fn lemma_pack_unpack<T>(flat: Seq<T>)
    requires
        flat.len() % 3 == 0,
    ensures
        packed(unpacked(flat)) == flat,
{
    let points = unpacked(flat);
    assert forall|j: int| 0 <= j < flat.len() implies #[trigger] packed(points)[j] == flat[j] by {
        let i = j / 3;
        assert(j == 3 * i + j % 3);
        assert(0 <= i < points.len());
    }
    assert(packed(points) =~= flat);
}

} // verus!
