use vstd::prelude::*;

verus! {

/// Number of vertices of a sphere grid with `slices + 1` columns and
/// `stacks + 1` rows.
pub open spec fn grid_vertex_count(slices: int, stacks: int) -> int {
    (slices + 1) * (stacks + 1)
}

/// Position in the index list of corner `r` (0 to 5) of the grid cell at
/// row `stack`, column `slice`: six entries per cell, cells row by row.
pub open spec fn cell_slot(slices: int, stack: int, slice: int, r: int) -> int {
    6 * (stack * slices + slice) + r
}

/// Corner `r` of the two triangles that split the grid cell at row `stack`,
/// column `slice`: `(current, next, current + 1)` then
/// `(current + 1, next, next + 1)`, where `current` is the cell's top-left
/// vertex and `next` the one below it.
pub open spec fn cell_corner(slices: int, stack: int, slice: int, r: int) -> int {
    let current = stack * (slices + 1) + slice;
    let next = current + slices + 1;
    if r == 0 {
        current
    } else if r == 1 {
        next
    } else if r == 2 {
        current + 1
    } else if r == 3 {
        current + 1
    } else if r == 4 {
        next
    } else {
        next + 1
    }
}

proof fn lemma_earlier_cell(slices: int, st: int, sl: int, stack: int, slice: int)
    requires
        0 <= st,
        0 <= sl < slices,
        0 <= slice,
        st < stack || (st == stack && sl < slice),
    ensures
        st * slices + sl < stack * slices + slice,
{
    if st < stack {
        assert(st * slices + slices <= stack * slices) by (nonlinear_arith)
            requires
                st < stack,
                0 <= slices,
        ;
    }
}

proof fn lemma_corner_bound(slices: int, stacks: int, stack: int, slice: int, r: int)
    requires
        0 <= stack < stacks,
        0 <= slice < slices,
        0 <= r < 6,
    ensures
        0 <= cell_corner(slices, stack, slice, r) < grid_vertex_count(slices, stacks),
{
    let current = stack * (slices + 1) + slice;
    assert(0 <= stack * (slices + 1)) by (nonlinear_arith)
        requires
            0 <= stack,
            0 <= slices,
    ;
    assert(stack * (slices + 1) <= (stacks - 1) * (slices + 1)) by (nonlinear_arith)
        requires
            stack <= stacks - 1,
            0 <= slices,
    ;
    assert((stacks - 1) * (slices + 1) + slices + 1 == (slices + 1) * (stacks + 1) - (slices
        + 1)) by (nonlinear_arith);
}

/// Triangle index list for a sphere grid of `slices` columns and `stacks`
/// rows of cells: every cell becomes two triangles over the vertices of
/// `grid_vertex_count(slices, stacks)`, laid out row by row.
pub fn create_sphere_indices(slices: u32, stacks: u32) -> (indices: Vec<usize>)
    requires
        grid_vertex_count(slices as int, stacks as int) <= u32::MAX as int,
    ensures
        indices@.len() == 6 * slices as int * stacks as int,
        forall|stack: int, slice: int, r: int|
            0 <= stack < stacks && 0 <= slice < slices && 0 <= r < 6 ==> #[trigger] indices@[cell_slot(
                slices as int,
                stack,
                slice,
                r,
            )] as int == cell_corner(slices as int, stack, slice, r),
        forall|i: int|
            0 <= i < indices@.len() ==> (indices@[i] as int) < grid_vertex_count(
                slices as int,
                stacks as int,
            ),
{
    let ghost n = slices as int;
    let ghost m = stacks as int;
    let mut indices: Vec<usize> = Vec::new();
    let mut stack: u32 = 0;
    while stack < stacks
        invariant
            stack <= stacks,
            grid_vertex_count(n, m) <= u32::MAX as int,
            n == slices,
            m == stacks,
            indices@.len() == 6 * (stack * n),
            forall|st: int, sl: int, r: int|
                0 <= st < stack && 0 <= sl < n && 0 <= r < 6 ==> indices@[cell_slot(n, st, sl, r)]
                    as int == cell_corner(n, st, sl, r),
            forall|i: int| 0 <= i < indices@.len() ==> (indices@[i] as int) < grid_vertex_count(n, m),
        decreases stacks - stack,
    {
        let mut slice: u32 = 0;
        while slice < slices
            invariant
                stack < stacks,
                slice <= slices,
                grid_vertex_count(n, m) <= u32::MAX as int,
                n == slices,
                m == stacks,
                indices@.len() == 6 * (stack * n + slice),
                forall|st: int, sl: int, r: int|
                    0 <= st && 0 <= sl < n && 0 <= r < 6 && (st < stack || (st == stack && sl
                        < slice)) ==> indices@[cell_slot(n, st, sl, r)] as int == cell_corner(
                        n,
                        st,
                        sl,
                        r,
                    ),
                forall|i: int|
                    0 <= i < indices@.len() ==> (indices@[i] as int) < grid_vertex_count(n, m),
            decreases slices - slice,
        {
            proof {
                lemma_corner_bound(n, m, stack as int, slice as int, 5);
                lemma_corner_bound(n, m, stack as int, slice as int, 1);
                assert(stack as int * (n + 1) <= u32::MAX) by (nonlinear_arith)
                    requires
                        stack < m,
                        0 <= n,
                        (n + 1) * (m + 1) <= u32::MAX,
                ;
            }
            let current: usize = (stack * (slices + 1) + slice) as usize;
            let next: usize = current + slices as usize + 1;
            let ghost before = indices@;
            indices.push(current);
            indices.push(next);
            indices.push(current + 1);
            indices.push(current + 1);
            indices.push(next);
            indices.push(next + 1);
            proof {
                let base = 6 * (stack * n + slice);
                assert forall|r: int| 0 <= r < 6 implies indices@[cell_slot(
                    n,
                    stack as int,
                    slice as int,
                    r,
                )] as int == cell_corner(n, stack as int, slice as int, r) by {
                    assert(cell_slot(n, stack as int, slice as int, r) == base + r);
                }
                assert forall|st: int, sl: int, r: int|
                    0 <= st && 0 <= sl < n && 0 <= r < 6 && (st < stack || (st == stack && sl
                        < slice)) implies indices@[cell_slot(n, st, sl, r)] as int == cell_corner(
                    n,
                    st,
                    sl,
                    r,
                ) by {
                    lemma_earlier_cell(n, st, sl, stack as int, slice as int);
                    assert(cell_slot(n, st, sl, r) < base);
                    assert(indices@[cell_slot(n, st, sl, r)] == before[cell_slot(n, st, sl, r)]);
                }
                assert(6 * (stack * n + slice + 1) == base + 6);
            }
            slice = slice + 1;
        }
        proof {
            assert(6 * (stack * n + n) == 6 * ((stack + 1) * n)) by (nonlinear_arith);
        }
        stack = stack + 1;
    }
    proof {
        assert(6 * (stacks * n) == 6 * n * m) by (nonlinear_arith)
            requires
                m == stacks,
        ;
    }
    indices
}

} // verus!
