use vstd::prelude::*;
use crate::grid::{Rgba, GridModel, PixelGrid};

verus! {

/// Squared colour distance over the red, green and blue channels; alpha is ignored.
pub open spec fn delta_spec(p: Rgba, q: Rgba) -> int {
    (p.r - q.r) * (p.r - q.r) + (p.g - q.g) * (p.g - q.g) + (p.b - q.b) * (p.b - q.b)
}

/// Sum over the three colour channels of the squared difference.
pub fn calculate_delta(p: Rgba, q: Rgba) -> (r: u32)
    ensures
        r == delta_spec(p, q),
{
    let dr: i32 = p.r as i32 - q.r as i32;
    let dg: i32 = p.g as i32 - q.g as i32;
    let db: i32 = p.b as i32 - q.b as i32;
    assert(dr * dr <= 65025) by (nonlinear_arith) requires -255 <= dr <= 255;
    assert(dg * dg <= 65025) by (nonlinear_arith) requires -255 <= dg <= 255;
    assert(db * db <= 65025) by (nonlinear_arith) requires -255 <= db <= 255;
    assert(dr * dr >= 0 && dg * dg >= 0 && db * db >= 0) by (nonlinear_arith);
    (dr * dr + dg * dg + db * db) as u32
}

} // verus!

verus! {

/// Energies are fixed-point numbers with 16 fractional bits: a gradient
/// magnitude `m` is stored as `floor(m * 65536)`, which is the integer square
/// root of the squared gradient times `ENERGY_SCALE`.
pub const ENERGY_SCALE: u64 = 4294967296;

/// `r` is the integer square root of `n`.
pub open spec fn is_floor_sqrt(n: int, r: int) -> bool {
    &&& 0 <= r
    &&& r * r <= n
    &&& n < (r + 1) * (r + 1)
}

/// The integer square root, `floor(sqrt(n))`.
pub open spec fn floor_sqrt(n: nat) -> nat
    decreases n,
{
    if n == 0 {
        0
    } else {
        let r = floor_sqrt((n - 1) as nat);
        if (r + 1) * (r + 1) <= n {
            r + 1
        } else {
            r
        }
    }
}

proof fn lemma_square_monotone(a: int, b: int)
    requires
        0 <= a <= b,
    ensures
        a * a <= b * b,
{
    assert(a * a <= b * b) by (nonlinear_arith) requires 0 <= a <= b;
}

/// `floor_sqrt` is the integer square root, and it is the only one.
pub proof fn lemma_floor_sqrt(n: nat)
    ensures
        is_floor_sqrt(n as int, floor_sqrt(n) as int),
        forall|r: int| is_floor_sqrt(n as int, r) ==> r == floor_sqrt(n),
    decreases n,
{
    if n > 0 {
        lemma_floor_sqrt((n - 1) as nat);
        let r = floor_sqrt((n - 1) as nat) as int;
        assert((r + 2) * (r + 2) == (r + 1) * (r + 1) + 2 * r + 3) by (nonlinear_arith);
    }
    let s = floor_sqrt(n) as int;
    assert forall|r: int| is_floor_sqrt(n as int, r) implies r == s by {
        if r < s {
            lemma_square_monotone(r + 1, s);
        } else if r > s {
            lemma_square_monotone(s + 1, r);
        }
    }
}

/// Integer square root by bisection.
pub fn isqrt(n: u64) -> (r: u64)
    requires
        n < 0x10_0000_0000_0000,
    ensures
        r == floor_sqrt(n as nat),
        r < 0x400_0000,
{
    let mut lo: u64 = 0;
    let mut hi: u64 = 0x400_0000;
    assert(0x400_0000 * 0x400_0000 == 0x10_0000_0000_0000) by (nonlinear_arith);
    while hi - lo > 1
        invariant
            lo < hi <= 0x400_0000,
            lo * lo <= n,
            n < hi * hi,
        decreases hi - lo,
    {
        let mid: u64 = lo + (hi - lo) / 2;
        assert(mid * mid <= 0x10_0000_0000_0000) by (nonlinear_arith)
            requires mid <= 0x400_0000;
        if mid * mid <= n {
            lo = mid;
        } else {
            hi = mid;
        }
    }
    proof {
        assert(hi == lo + 1);
        assert(is_floor_sqrt(n as int, lo as int));
        lemma_floor_sqrt(n as nat);
    }
    lo
}

} // verus!

verus! {

/// The squared gradient at `(x, y)`: vertical plus horizontal colour
/// distance, where a neighbour outside the grid is replaced by the pixel itself.
pub open spec fn gradient_sq(g: GridModel, x: int, y: int) -> int {
    let p = g.pixel(x, y);
    let below = if y + 1 < g.height { g.pixel(x, y + 1) } else { p };
    let above = if y > 0 { g.pixel(x, y - 1) } else { p };
    let right = if x + 1 < g.width { g.pixel(x + 1, y) } else { p };
    let left = if x > 0 { g.pixel(x - 1, y) } else { p };
    delta_spec(below, above) + delta_spec(right, left)
}

/// The energy of pixel `(x, y)`: its gradient magnitude in fixed point.
pub open spec fn energy_spec(g: GridModel, x: int, y: int) -> nat {
    floor_sqrt((gradient_sq(g, x, y) * ENERGY_SCALE) as nat)
}

/// The energy grid of `g`: one value per pixel, row by row.
pub open spec fn energy_model(g: GridModel) -> Seq<Seq<u32>> {
    Seq::new(g.height, |y: int| Seq::new(g.width, |x: int| energy_spec(g, x, y) as u32))
}

/// The rows of an energy grid as sequences.
pub open spec fn energy_view(e: Seq<Vec<u32>>) -> Seq<Seq<u32>> {
    e.map_values(|row: Vec<u32>| row@)
}

proof fn lemma_delta_bound(p: Rgba, q: Rgba)
    ensures
        0 <= delta_spec(p, q) <= 195075,
{
    let dr = p.r - q.r;
    let dg = p.g - q.g;
    let db = p.b - q.b;
    assert(0 <= dr * dr <= 65025) by (nonlinear_arith) requires -255 <= dr <= 255;
    assert(0 <= dg * dg <= 65025) by (nonlinear_arith) requires -255 <= dg <= 255;
    assert(0 <= db * db <= 65025) by (nonlinear_arith) requires -255 <= db <= 255;
}

/// The energy of the pixel at `(x, y)`.
pub fn calculate_energy(grid: &PixelGrid, x: usize, y: usize) -> (r: u32)
    requires
        grid.wf(),
        x < grid.width,
        y < grid.height,
    ensures
        r == energy_spec(grid@, x as int, y as int),
{
    let p = grid.get_pixel(x, y);
    let below = if y + 1 < grid.height { grid.get_pixel(x, y + 1) } else { p };
    let above = if y > 0 { grid.get_pixel(x, y - 1) } else { p };
    let right = if x + 1 < grid.width { grid.get_pixel(x + 1, y) } else { p };
    let left = if x > 0 { grid.get_pixel(x - 1, y) } else { p };
    let dv = calculate_delta(below, above);
    let dh = calculate_delta(right, left);
    proof {
        lemma_delta_bound(below, above);
        lemma_delta_bound(right, left);
    }
    let sq: u64 = dv as u64 + dh as u64;
    assert(sq * ENERGY_SCALE < 0x10_0000_0000_0000) by (nonlinear_arith)
        requires sq <= 390150;
    let root = isqrt(sq * ENERGY_SCALE);
    root as u32
}

/// The energy grid of `grid`, with the same dimensions.
pub fn map_energy(grid: &PixelGrid) -> (r: Vec<Vec<u32>>)
    requires
        grid.wf(),
    ensures
        energy_view(r@) == energy_model(grid@),
        r@.len() == grid.height,
        forall|y: int| 0 <= y < grid.height ==> #[trigger] r@[y]@.len() == grid.width,
{
    let mut map: Vec<Vec<u32>> = Vec::new();
    let mut y: usize = 0;
    while y < grid.height
        invariant
            grid.wf(),
            y <= grid.height,
            map@.len() == y,
            forall|k: int| 0 <= k < y ==> #[trigger] map@[k]@ == energy_model(grid@)[k],
        decreases grid.height - y,
    {
        let mut row: Vec<u32> = Vec::new();
        let mut x: usize = 0;
        while x < grid.width
            invariant
                grid.wf(),
                y < grid.height,
                x <= grid.width,
                row@.len() == x,
                forall|i: int| 0 <= i < x ==> #[trigger] row@[i] == energy_spec(grid@, i, y as int) as u32,
            decreases grid.width - x,
        {
            let e = calculate_energy(grid, x, y);
            row.push(e);
            x += 1;
        }
        assert(row@ =~= energy_model(grid@)[y as int]);
        map.push(row);
        y += 1;
    }
    assert(energy_view(map@) =~= energy_model(grid@));
    map
}

} // verus!

verus! {

/// On a grid of a single colour every gradient vanishes, so every energy is zero.
pub proof fn lemma_uniform_energy_zero(g: GridModel, c: Rgba)
    requires
        g.wf(),
        forall|x: int, y: int| 0 <= x < g.width && 0 <= y < g.height ==> #[trigger] g.pixel(x, y) == c,
    ensures
        forall|x: int, y: int| 0 <= x < g.width && 0 <= y < g.height ==> #[trigger] energy_spec(g, x, y) == 0,
{
    assert forall|x: int, y: int| 0 <= x < g.width && 0 <= y < g.height implies #[trigger] energy_spec(g, x, y) == 0 by {
        assert(g.pixel(x, y) == c);
        if y + 1 < g.height {
            assert(g.pixel(x, y + 1) == c);
        }
        if y > 0 {
            assert(g.pixel(x, y - 1) == c);
        }
        if x + 1 < g.width {
            assert(g.pixel(x + 1, y) == c);
        }
        if x > 0 {
            assert(g.pixel(x - 1, y) == c);
        }
        assert(delta_spec(c, c) == 0);
        assert(gradient_sq(g, x, y) == 0);
        assert(floor_sqrt(0) == 0);
    }
}

} // verus!
