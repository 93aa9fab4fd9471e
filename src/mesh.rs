use vstd::prelude::*;

verus! {

/// The triangles that vertex `i` of a grid `size_x` vertices wide and
/// `count` vertices large opens: the one towards the next column and the
/// next row, and the one towards the previous column and the previous row
pub open spec fn grid_triangles_at(size_x: int, count: int, i: int) -> Seq<u32> {
    (if (i + 1) % size_x != 0 && i + size_x < count {
        seq![(i + 1) as u32, i as u32, (i + size_x) as u32]
    } else {
        Seq::empty()
    }) + (if i % size_x != 0 && i >= size_x {
        seq![(i - 1) as u32, i as u32, (i - size_x) as u32]
    } else {
        Seq::empty()
    })
}

/// The index buffer of the triangles opened by the first `n` grid vertices
pub open spec fn grid_indices(size_x: int, count: int, n: int) -> Seq<u32>
    decreases n,
{
    if n <= 0 {
        Seq::empty()
    } else {
        grid_indices(size_x, count, n - 1) + grid_triangles_at(size_x, count, n - 1)
    }
}

/// The triangle indices of a rectangle cloth of `size_x` by `size_y`
/// vertices, laid out row after row: two triangles for each grid cell.
pub fn rectangle_indices(size_x: usize, size_y: usize) -> (r: Vec<u32>)
    requires
        size_x * size_y <= u32::MAX,
    ensures
        r@ == grid_indices(size_x as int, size_x * size_y, size_x * size_y),
{
    let count: usize = size_x * size_y;
    if count > 0 {
        assert(size_x <= count) by (nonlinear_arith)
            requires
                count == size_x * size_y,
                count > 0,
        ;
    }
    let mut r: Vec<u32> = Vec::new();
    let mut i: usize = 0;
    while i < count
        invariant
            count == size_x * size_y,
            count <= u32::MAX,
            count > 0 ==> size_x <= count,
            i <= count,
            r@ == grid_indices(size_x as int, count as int, i as int),
        decreases count - i,
    {
        let ghost before = r@;
        if (i + 1) % size_x != 0 && i < count - size_x {
            r.push((i + 1) as u32);
            r.push(i as u32);
            r.push((i + size_x) as u32);
        }
        let ghost mid = r@;
        if i % size_x != 0 && i >= size_x {
            r.push((i - 1) as u32);
            r.push(i as u32);
            r.push((i - size_x) as u32);
        }
        assert(r@ =~= before + grid_triangles_at(size_x as int, count as int, i as int));
        i += 1;
    }
    r
}

/// The grid coordinates `(column, row)` of each vertex of a rectangle cloth
/// of `size_x` by `size_y` vertices, laid out row after row
pub fn rectangle_grid(size_x: usize, size_y: usize) -> (r: Vec<(usize, usize)>)
    requires
        size_x * size_y <= usize::MAX,
    ensures
        r.len() == size_x * size_y,
        forall|i: int|
            0 <= i < r.len() ==> #[trigger] r@[i] == ((i % size_x as int) as usize, (i / size_x as int) as usize),
{
    let mut r: Vec<(usize, usize)> = Vec::new();
    let mut y: usize = 0;
    while y < size_y
        invariant
            size_x * size_y <= usize::MAX,
            y <= size_y,
            r.len() == y * size_x,
            forall|i: int|
                0 <= i < r.len() ==> #[trigger] r@[i] == ((i % size_x as int) as usize, (i / size_x as int) as usize),
        decreases size_y - y,
    {
        assert((y + 1) * size_x <= size_x * size_y) by (nonlinear_arith)
            requires
                y < size_y,
        ;
        let mut x: usize = 0;
        while x < size_x
            invariant
                size_x * size_y <= usize::MAX,
                y < size_y,
                (y + 1) * size_x <= size_x * size_y,
                x <= size_x,
                r.len() == y * size_x + x,
                forall|i: int|
                    0 <= i < r.len() ==> #[trigger] r@[i] == ((i % size_x as int) as usize, (i / size_x as int) as usize),
            decreases size_x - x,
        {
            let ghost k = r.len() as int;
            assert(k % size_x as int == x && k / size_x as int == y) by (nonlinear_arith)
                requires
                    k == y * size_x + x,
                    x < size_x,
            ;
            r.push((x, y));
            x += 1;
        }
        assert(y * size_x + size_x == (y + 1) * size_x) by (nonlinear_arith);
        y += 1;
    }
    assert(y * size_x == size_x * size_y) by (nonlinear_arith)
        requires
            y == size_y,
    ;
    r
}

} // verus!
