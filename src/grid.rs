use vstd::prelude::*;
use vstd::set_lib::{lemma_int_range, lemma_len_subset, set_int_range};

verus! {

/// A vertex of a grid mesh: the corner at step `i0` along the first axis and
/// step `i1` along the second, in colour `color` (0 or 1). Neighbouring cells
/// alternate colours, so a corner shared by cells of both colours gives two
/// vertices.
#[derive(Clone, Copy, Debug, PartialEq, Eq, Structural)]
pub struct GridPoint {
    pub i0: u32,
    pub i1: u32,
    pub color: u8,
}

/// The offsets of the six corners, two triangles, that a cell contributes.
pub open spec fn corner_offset(j: int) -> (int, int) {
    if j == 0 {
        (0, 0)
    } else if j == 1 {
        (1, 0)
    } else if j == 2 {
        (0, 1)
    } else if j == 3 {
        (1, 0)
    } else if j == 4 {
        (1, 1)
    } else {
        (0, 1)
    }
}

/// The corner `j` of cell `(i0, i1)`, the cell being number `i0 * n1 + i1` in
/// the order the cells are visited, which also sets its colour.
pub open spec fn cell_corner(n1: int, i0: int, i1: int, j: int) -> GridPoint {
    GridPoint {
        i0: (i0 + corner_offset(j).0) as u32,
        i1: (i1 + corner_offset(j).1) as u32,
        color: ((i0 * n1 + i1) % 2) as u8,
    }
}

/// The corners of a grid of `n0` by `n1` cells, cell after cell (the second
/// index running fastest), six per cell.
pub open spec fn grid_corners(n0: int, n1: int) -> Seq<GridPoint> {
    Seq::new(
        (6 * (n0 * n1)) as nat,
        |m: int| cell_corner(n1, (m / 6) / n1, (m / 6) % n1, m % 6),
    )
}

/// The elements of `s` in the order of their first occurrence, each once.
pub open spec fn first_occurrences<A>(s: Seq<A>) -> Seq<A>
    decreases s.len(),
{
    if s.len() == 0 {
        Seq::empty()
    } else {
        let d = first_occurrences(s.drop_last());
        if d.contains(s.last()) {
            d
        } else {
            d.push(s.last())
        }
    }
}

/// The grid of `n0` by `n1` cells as an indexed mesh: each distinct corner
/// becomes one vertex, numbered in the order corners are first met, and
/// each corner becomes the index of its vertex.
pub open spec fn is_grid_mesh(n0: int, n1: int, points: Seq<GridPoint>, elements: Seq<u32>) -> bool {
    let corners = grid_corners(n0, n1);
    &&& points == first_occurrences(corners)
    &&& elements.len() == corners.len()
    &&& forall|m: int|
        0 <= m < elements.len() ==> (#[trigger] elements[m] as int) < points.len() && points[elements[m]
            as int] == corners[m]
}

spec fn in_range(n0: int, n1: int, p: GridPoint) -> bool {
    p.i0 <= n0 && p.i1 <= n1 && p.color < 2
}

spec fn slot_of(n1: int, p: GridPoint) -> int {
    (p.i0 * (n1 + 1) + p.i1) * 2 + p.color
}

proof fn lemma_grid_size(n0: int, n1: int)
    requires
        n0 >= 0,
        n1 >= 0,
    ensures
        n0 + 1 <= (n0 + 1) * (n1 + 1) * 2,
        n1 + 1 <= (n0 + 1) * (n1 + 1) * 2,
        (n0 + 1) * (n1 + 1) <= (n0 + 1) * (n1 + 1) * 2,
        n0 * (n1 + 1) <= (n0 + 1) * (n1 + 1) * 2,
{
    assert(n0 + 1 <= (n0 + 1) * (n1 + 1)) by (nonlinear_arith)
        requires
            n0 >= 0,
            n1 >= 0,
    ;
    assert(n1 + 1 <= (n0 + 1) * (n1 + 1)) by (nonlinear_arith)
        requires
            n0 >= 0,
            n1 >= 0,
    ;
    assert(n0 * (n1 + 1) <= (n0 + 1) * (n1 + 1)) by (nonlinear_arith)
        requires
            n0 >= 0,
            n1 >= 0,
    ;
}

proof fn lemma_slot_bounds(n0: int, n1: int, p: GridPoint)
    requires
        n0 >= 0,
        n1 >= 0,
        in_range(n0, n1, p),
    ensures
        0 <= p.i0 * (n1 + 1) <= n0 * (n1 + 1),
        n0 + 1 <= (n0 + 1) * (n1 + 1) * 2,
        n1 + 1 <= (n0 + 1) * (n1 + 1) * 2,
        0 <= slot_of(n1, p) < (n0 + 1) * (n1 + 1) * 2,
{
    let a = p.i0 as int;
    let b = p.i1 as int;
    let c = p.color as int;
    lemma_grid_size(n0, n1);
    assert(0 <= a * (n1 + 1) <= n0 * (n1 + 1)) by (nonlinear_arith)
        requires
            0 <= a <= n0,
            n1 >= 0,
    ;
    assert((a * (n1 + 1) + b) * 2 + c < (n0 + 1) * (n1 + 1) * 2) by (nonlinear_arith)
        requires
            0 <= a <= n0,
            0 <= b <= n1,
            0 <= c < 2,
            n1 >= 0,
    ;
}

proof fn lemma_slot_injective(n0: int, n1: int, p: GridPoint, q: GridPoint)
    requires
        n1 >= 0,
        in_range(n0, n1, p),
        in_range(n0, n1, q),
        slot_of(n1, p) == slot_of(n1, q),
    ensures
        p == q,
{
    let (a, b, c) = (p.i0 as int, p.i1 as int, p.color as int);
    let (x, y, z) = (q.i0 as int, q.i1 as int, q.color as int);
    let u = a * (n1 + 1) + b;
    let v = x * (n1 + 1) + y;
    assert(c == z && u == v);
    assert(a == x) by (nonlinear_arith)
        requires
            u == a * (n1 + 1) + b,
            v == x * (n1 + 1) + y,
            u == v,
            0 <= a,
            0 <= x,
            0 <= b <= n1,
            0 <= y <= n1,
    ;
}

struct GridBuilder {
    points: Vec<GridPoint>,
    elements: Vec<u32>,
    slots: Vec<Option<u32>>,
    used: Ghost<Set<int>>,
}

impl GridBuilder {
    spec fn inv(&self, n0: int, n1: int, seen: Seq<GridPoint>) -> bool {
        &&& self.slots@.len() == (n0 + 1) * (n1 + 1) * 2
        &&& self.points@ == first_occurrences(seen)
        &&& self.points@.len() <= seen.len()
        &&& self.used@.finite()
        &&& self.used@.len() == self.points@.len()
        &&& forall|k: int|
            #[trigger] self.used@.contains(k) <==> (0 <= k < self.slots@.len() && self.slots@[k] is Some)
        &&& self.elements@.len() == seen.len()
        &&& forall|m: int|
            0 <= m < seen.len() ==> (#[trigger] self.elements@[m] as int) < self.points@.len()
                && self.points@[self.elements@[m] as int] == seen[m]
        &&& forall|i: int|
            0 <= i < self.points@.len() ==> in_range(n0, n1, #[trigger] self.points@[i])
                && self.slots@[slot_of(n1, self.points@[i])] == Some(i as u32)
        &&& forall|k: int|
            0 <= k < self.slots@.len() && (#[trigger] self.slots@[k]) is Some ==> (self.slots@[k]->0
                as int) < self.points@.len() && slot_of(n1, self.points@[self.slots@[k]->0 as int])
                == k
    }

    /// Appends the element for corner `p`, adding `p` as a vertex when it is new.
    fn add_corner(&mut self, n0: u32, n1: u32, p: GridPoint, Ghost(seen): Ghost<Seq<GridPoint>>)
        requires
            old(self).inv(n0 as int, n1 as int, seen),
            in_range(n0 as int, n1 as int, p),
            (n0 + 1) * (n1 + 1) * 2 <= u32::MAX,
        ensures
            final(self).inv(n0 as int, n1 as int, seen.push(p)),
    {
        proof {
            lemma_slot_bounds(n0 as int, n1 as int, p);
            assert(seen.push(p).drop_last() =~= seen);
        }
        let k = (p.i0 as usize * (n1 as usize + 1) + p.i1 as usize) * 2 + p.color as usize;
        assert(k == slot_of(n1 as int, p));
        match self.slots[k] {
            Some(idx) => {
                proof {
                    let q = self.points@[idx as int];
                    lemma_slot_injective(n0 as int, n1 as int, p, q);
                    assert(first_occurrences(seen).contains(p));
                }
                self.elements.push(idx);
                proof {
                    let s2 = seen.push(p);
                    assert forall|m: int| 0 <= m < s2.len() implies (#[trigger] self.elements@[m]
                        as int) < self.points@.len() && self.points@[self.elements@[m] as int]
                        == s2[m] by {
                        if m < seen.len() {
                            assert(self.elements@[m] == old(self).elements@[m]);
                        }
                    }
                }
            },
            None => {
                proof {
                    if first_occurrences(seen).contains(p) {
                        let i = choose|i: int| 0 <= i < self.points@.len() && self.points@[i] == p;
                        assert(self.slots@[slot_of(n1 as int, self.points@[i])] == Some(i as u32));
                    }
                    let range = set_int_range(0, self.slots@.len() as int);
                    lemma_int_range(0, self.slots@.len() as int);
                    assert(!self.used@.contains(k as int));
                    assert(self.used@.insert(k as int).subset_of(range));
                    lemma_len_subset(self.used@.insert(k as int), range);
                }
                let idx = self.points.len() as u32;
                self.used = Ghost(self.used@.insert(k as int));
                self.points.push(p);
                self.elements.push(idx);
                self.slots.set(k, Some(idx));
                proof {
                    let s2 = seen.push(p);
                    let pts = self.points@;
                    assert forall|m: int| 0 <= m < s2.len() implies (#[trigger] self.elements@[m]
                        as int) < pts.len() && pts[self.elements@[m] as int] == s2[m] by {
                        if m < seen.len() {
                            assert(self.elements@[m] == old(self).elements@[m]);
                        }
                    }
                    assert forall|i: int| 0 <= i < pts.len() implies in_range(
                        n0 as int,
                        n1 as int,
                        #[trigger] pts[i],
                    ) && self.slots@[slot_of(n1 as int, pts[i])] == Some(i as u32) by {
                        if i < pts.len() - 1 {
                            lemma_slot_bounds(n0 as int, n1 as int, pts[i]);
                            if slot_of(n1 as int, pts[i]) == k {
                                lemma_slot_injective(n0 as int, n1 as int, p, pts[i]);
                            }
                        }
                    }
                    assert forall|j: int|
                        0 <= j < self.slots@.len() && (#[trigger] self.slots@[j]) is Some implies (
                    self.slots@[j]->0 as int) < pts.len() && slot_of(
                        n1 as int,
                        pts[self.slots@[j]->0 as int],
                    ) == j by {
                        if j != k {
                            assert(self.slots@[j] == old(self).slots@[j]);
                        }
                    }
                }
            },
        }
    }
}

/// Builds the indexed mesh of a grid of `n0` by `n1` cells: the vertices, in
/// the order they are first used, and the triangle list as vertex indices.
pub fn make_grid(n0: u32, n1: u32) -> (r: (Vec<GridPoint>, Vec<u32>))
    requires
        (n0 + 1) * (n1 + 1) * 2 <= u32::MAX,
    ensures
        is_grid_mesh(n0 as int, n1 as int, r.0@, r.1@),
{
    proof {
        lemma_grid_size(n0 as int, n1 as int);
    }
    let n_slots = (n0 as usize + 1) * (n1 as usize + 1) * 2;
    let mut slots: Vec<Option<u32>> = Vec::with_capacity(n_slots);
    let mut s: usize = 0;
    while s < n_slots
        invariant
            0 <= s <= n_slots,
            slots@.len() == s,
            forall|k: int| 0 <= k < s ==> (#[trigger] slots@[k]) is None,
        decreases n_slots - s,
    {
        slots.push(None);
        s = s + 1;
    }
    let mut b = GridBuilder {
        points: Vec::new(),
        elements: Vec::new(),
        slots,
        used: Ghost(Set::empty()),
    };
    let ghost corners = grid_corners(n0 as int, n1 as int);
    assert(first_occurrences(corners.take(0)) =~= Seq::<GridPoint>::empty());
    let offsets: [(u32, u32); 6] = [(0, 0), (1, 0), (0, 1), (1, 0), (1, 1), (0, 1)];
    let mut color: u8 = 0;
    let mut i0: u32 = 0;
    while i0 < n0
        invariant
            0 <= i0 <= n0,
            (n0 + 1) * (n1 + 1) * 2 <= u32::MAX,
            corners == grid_corners(n0 as int, n1 as int),
            offsets@ == seq![(0u32, 0u32), (1, 0), (0, 1), (1, 0), (1, 1), (0, 1)],
            color as int == (i0 * n1) % 2,
            b.inv(n0 as int, n1 as int, corners.take(6 * (i0 * n1))),
        decreases n0 - i0,
    {
        let mut i1: u32 = 0;
        while i1 < n1
            invariant
                0 <= i0 < n0,
                0 <= i1 <= n1,
                (n0 + 1) * (n1 + 1) * 2 <= u32::MAX,
                    corners == grid_corners(n0 as int, n1 as int),
                offsets@ == seq![(0u32, 0u32), (1, 0), (0, 1), (1, 0), (1, 1), (0, 1)],
                color as int == (i0 * n1 + i1) % 2,
                b.inv(n0 as int, n1 as int, corners.take(6 * (i0 * n1 + i1))),
            decreases n1 - i1,
        {
            let ghost cell = i0 * n1 + i1;
            assert(cell < n0 * n1) by (nonlinear_arith)
                requires
                    cell == i0 * n1 + i1,
                    i0 < n0,
                    i1 < n1,
            ;
            let mut j: usize = 0;
            while j < 6
                invariant
                    0 <= i0 < n0,
                    0 <= i1 < n1,
                    0 <= j <= 6,
                    cell == i0 * n1 + i1,
                    cell < n0 * n1,
                    (n0 + 1) * (n1 + 1) * 2 <= u32::MAX,
                            corners == grid_corners(n0 as int, n1 as int),
                    offsets@ == seq![(0u32, 0u32), (1, 0), (0, 1), (1, 0), (1, 1), (0, 1)],
                    color as int == cell % 2,
                    b.inv(n0 as int, n1 as int, corners.take(6 * cell + j)),
                decreases 6 - j,
            {
                let (k0, k1) = offsets[j];
                let p = GridPoint { i0: i0 + k0, i1: i1 + k1, color };
                let ghost m = 6 * cell + j;
                proof {
                    assert(m / 6 == cell && m % 6 == j);
                    assert(cell / (n1 as int) == i0 && cell % (n1 as int) == i1) by (nonlinear_arith)
                        requires
                            cell == i0 * n1 + i1,
                            0 <= i1 < n1,
                            0 <= i0,
                    ;
                    assert(corners[m] == p);
                    assert(corners.take(m).push(p) =~= corners.take(m + 1));
                }
                b.add_corner(n0, n1, p, Ghost(corners.take(6 * cell + j)));
                j = j + 1;
            }
            color = 1 - color;
            i1 = i1 + 1;
        }
        assert(i0 * n1 + n1 == (i0 + 1) * n1) by (nonlinear_arith);
        i0 = i0 + 1;
    }
    assert(corners.take(6 * (n0 * n1)) =~= corners);
    (b.points, b.elements)
}

} // verus!
