use vstd::prelude::*;
use crate::energy::{energy_model, energy_view, map_energy};
use crate::error::CarveError;
use crate::grid::{
    highlight_colour, highlight_spec, lemma_rotate_back, rotate270_model, rotate90_model, GridModel, PixelGrid, Rgba,
};
use crate::seam::{best_start, find_seam, is_seam, is_selected_seam, rectangular, seam_points, Point};

verus! {

/// The grid left when the seam `s` is taken out of `g`. Every row loses its
/// seam pixel, the pixels right of it moving one column left; the last row
/// of `g` is dropped as well, so the result is one column narrower and one
/// row shorter than `g`.
pub open spec fn removed_model(g: GridModel, s: Seq<Point>) -> GridModel {
    GridModel {
        width: (g.width - 1) as nat,
        height: (g.height - 1) as nat,
        rows: Seq::new(
            (g.height - 1) as nat,
            |y: int|
                Seq::new(
                    (g.width - 1) as nat,
                    |x: int| if x < s[y].x { g.rows[y][x] } else { g.rows[y][x + 1] },
                ),
        ),
    }
}

/// The grid `g` with every pixel of the seam `s` painted in the highlight colour.
pub open spec fn highlighted_model(g: GridModel, s: Seq<Point>) -> GridModel {
    GridModel {
        width: g.width,
        height: g.height,
        rows: Seq::new(
            g.height,
            |y: int| Seq::new(g.width, |x: int| if x == s[y].x { highlight_spec() } else { g.rows[y][x] }),
        ),
    }
}

/// Checks that `path` is a seam of a `width` x `height` grid.
pub fn check_seam(path: &Vec<Point>, width: usize, height: usize) -> (r: bool)
    ensures
        r == is_seam(path@, width as int, height as int),
{
    if path.len() != height {
        return false;
    }
    let mut i: usize = 0;
    while i < height
        invariant
            path@.len() == height,
            i <= height,
            forall|k: int| 0 <= k < i ==> (#[trigger] path@[k]).y == k && path@[k].x < width,
            forall|k: int| 0 < k < i ==> -1 <= (#[trigger] path@[k]).x - path@[k - 1].x <= 1,
        decreases height - i,
    {
        let p = path[i];
        if p.y != i || p.x >= width {
            return false;
        }
        if i > 0 {
            let q = path[i - 1];
            if p.x > q.x + 1 || q.x > p.x + 1 {
                assert(!(-1 <= path@[i as int].x - path@[i - 1].x <= 1));
                return false;
            }
        }
        i += 1;
    }
    true
}

/// Removes the seam `path` from `grid`, dropping the grid's last row as well.
/// Fails on a grid without rows or columns and on a path that is not a seam of it.
pub fn remove_seam(path: Vec<Point>, grid: &PixelGrid) -> (r: Result<PixelGrid, CarveError>)
    requires
        grid.wf(),
    ensures
        match r {
            Ok(out) => out.wf() && grid.width > 0 && grid.height > 0 && is_seam(path@, grid.width as int, grid.height as int)
                && out@ == removed_model(grid@, path@),
            Err(err) => if grid.width == 0 || grid.height == 0 {
                err == CarveError::EmptyGrid
            } else {
                err == CarveError::InvalidSeam && !is_seam(path@, grid.width as int, grid.height as int)
            },
        },
{
    if grid.width == 0 || grid.height == 0 {
        return Err(CarveError::EmptyGrid);
    }
    if !check_seam(&path, grid.width, grid.height) {
        return Err(CarveError::InvalidSeam);
    }
    proof {
        grid.lemma_view_wf();
    }
    let ghost target = removed_model(grid@, path@);
    let width = grid.width - 1;
    let height = grid.height - 1;
    let mut rows: Vec<Vec<Rgba>> = Vec::new();
    let mut y: usize = 0;
    while y < height
        invariant
            grid.wf(),
            grid@.wf(),
            forall|k: int| 0 <= k < grid.height ==> #[trigger] grid@.rows[k] == grid.rows@[k]@,
            is_seam(path@, grid.width as int, grid.height as int),
            width == grid.width - 1,
            height == grid.height - 1,
            target == removed_model(grid@, path@),
            y <= height,
            rows@.len() == y,
            forall|k: int| 0 <= k < y ==> #[trigger] rows@[k]@ == target.rows[k],
        decreases height - y,
    {
        let skip = path[y].x;
        let src = &grid.rows[y];
        let mut row: Vec<Rgba> = Vec::new();
        let mut x: usize = 0;
        while x < width
            invariant
                y < height,
                height == grid.height - 1,
                grid@.wf(),
                path@.len() == grid.height,
                width == grid.width - 1,
                src@ == grid@.rows[y as int],
                src@.len() == grid.width,
                skip == path@[y as int].x,
                target == removed_model(grid@, path@),
                x <= width,
                row@.len() == x,
                forall|i: int| 0 <= i < x ==> #[trigger] row@[i] == target.rows[y as int][i],
            decreases width - x,
        {
            if x < skip {
                row.push(src[x]);
            } else {
                row.push(src[x + 1]);
            }
            x += 1;
        }
        assert(row@ =~= target.rows[y as int]);
        rows.push(row);
        y += 1;
    }
    let out = PixelGrid { width, height, rows };
    assert(out@.rows =~= target.rows);
    Ok(out)
}

/// Paints every pixel of the seam `path` in the highlight colour; the size of
/// the grid is kept. Fails on a grid without rows or columns and on a path
/// that is not a seam of it.
pub fn highlight_seam(path: Vec<Point>, grid: PixelGrid) -> (r: Result<PixelGrid, CarveError>)
    requires
        grid.wf(),
    ensures
        match r {
            Ok(out) => out.wf() && grid.width > 0 && grid.height > 0 && is_seam(path@, grid.width as int, grid.height as int)
                && out@ == highlighted_model(grid@, path@),
            Err(err) => if grid.width == 0 || grid.height == 0 {
                err == CarveError::EmptyGrid
            } else {
                err == CarveError::InvalidSeam && !is_seam(path@, grid.width as int, grid.height as int)
            },
        },
{
    if grid.width == 0 || grid.height == 0 {
        return Err(CarveError::EmptyGrid);
    }
    if !check_seam(&path, grid.width, grid.height) {
        return Err(CarveError::InvalidSeam);
    }
    proof {
        grid.lemma_view_wf();
    }
    let ghost g0 = grid@;
    let ghost target = highlighted_model(grid@, path@);
    let red = highlight_colour();
    let mut grid = grid;
    let mut y: usize = 0;
    while y < grid.height
        invariant
            g0.wf(),
            grid.width == g0.width,
            grid.height == g0.height,
            grid.rows@.len() == grid.height,
            is_seam(path@, grid.width as int, grid.height as int),
            target == highlighted_model(g0, path@),
            red == highlight_spec(),
            y <= grid.height,
            forall|k: int| 0 <= k < y ==> #[trigger] grid.rows@[k]@ == target.rows[k],
            forall|k: int| y <= k < grid.height ==> #[trigger] grid.rows@[k]@ == g0.rows[k],
        decreases grid.height - y,
    {
        let x = path[y].x;
        grid.rows[y].set(x, red);
        assert(grid.rows@[y as int]@ =~= target.rows[y as int]);
        y += 1;
    }
    assert(grid@.rows =~= target.rows);
    Ok(grid)
}

} // verus!

verus! {

/// What a carving step does with the seam it finds.
#[derive(Clone, Copy, Debug, PartialEq, Eq, Structural)]
pub enum CarveMode {
    /// Take the seam out of the grid.
    Remove,
    /// Paint the seam in the highlight colour.
    Highlight,
}

/// The seam that the search selects on the energy grid of `g`.
pub open spec fn selected_seam_model(g: GridModel) -> Seq<Point> {
    let e = energy_model(g);
    seam_points(e, best_start(e), g.height as int)
}

/// A step may run on `g`: removing needs at least two rows and two columns,
/// so that a pixel is left; highlighting needs one of each.
pub open spec fn can_step(g: GridModel, mode: CarveMode) -> bool {
    match mode {
        CarveMode::Remove => g.width >= 2 && g.height >= 2,
        CarveMode::Highlight => g.width >= 1 && g.height >= 1,
    }
}

/// One step: compute the energy, select a seam, remove or highlight it.
pub open spec fn step_model(g: GridModel, mode: CarveMode) -> GridModel {
    match mode {
        CarveMode::Remove => removed_model(g, selected_seam_model(g)),
        CarveMode::Highlight => highlighted_model(g, selected_seam_model(g)),
    }
}

/// `n` steps in a row; `None` when some step finds the grid too small.
pub open spec fn phase_model(g: GridModel, n: nat, mode: CarveMode) -> Option<GridModel>
    decreases n,
{
    if n == 0 {
        Some(g)
    } else {
        match phase_model(g, (n - 1) as nat, mode) {
            Some(h) => if can_step(h, mode) {
                Some(step_model(h, mode))
            } else {
                None
            },
            None => None,
        }
    }
}

/// The whole pipeline: `vertical` steps, a clockwise quarter turn,
/// `horizontal` steps, and the counter-clockwise quarter turn back.
pub open spec fn carve_model(g: GridModel, vertical: nat, horizontal: nat, mode: CarveMode) -> Option<GridModel> {
    match phase_model(g, vertical, mode) {
        Some(a) => match phase_model(rotate90_model(a), horizontal, mode) {
            Some(b) => Some(rotate270_model(b)),
            None => None,
        },
        None => None,
    }
}

/// Once a phase has failed, running it longer fails too.
pub proof fn lemma_phase_fails_on(g: GridModel, n: nat, m: nat, mode: CarveMode)
    requires
        n <= m,
        phase_model(g, n, mode) is None,
    ensures
        phase_model(g, m, mode) is None,
    decreases m - n,
{
    if n < m {
        lemma_phase_fails_on(g, n, (m - 1) as nat, mode);
    }
}

/// Carving no seams in either direction gives the grid back unchanged.
pub proof fn lemma_carve_nothing(g: GridModel, mode: CarveMode)
    requires
        g.wf(),
    ensures
        carve_model(g, 0, 0, mode) == Some(g),
{
    lemma_rotate_back(g);
}

/// One step of the pipeline on a grid large enough for it.
pub fn carve_step(grid: PixelGrid, mode: CarveMode) -> (r: PixelGrid)
    requires
        grid.wf(),
        can_step(grid@, mode),
    ensures
        r.wf(),
        r@ == step_model(grid@, mode),
{
    let energy_map = map_energy(&grid);
    let ghost e = energy_view(energy_map@);
    assert(rectangular(e)) by {
        assert(e[0].len() == grid.width);
        assert forall|y: int| 0 <= y < e.len() implies #[trigger] e[y].len() == e[0].len() by {
            assert(energy_map@[y]@.len() == grid.width);
        }
    }
    match find_seam(&energy_map) {
        Ok(seam) => {
            assert(seam.path@ == selected_seam_model(grid@));
            match mode {
                CarveMode::Remove => match remove_seam(seam.path, &grid) {
                    Ok(out) => out,
                    Err(_) => {
                        assert(false);
                        grid
                    },
                },
                CarveMode::Highlight => match highlight_seam(seam.path, grid) {
                    Ok(out) => out,
                    Err(_) => {
                        assert(false);
                        PixelGrid { width: 0, height: 0, rows: Vec::new() }
                    },
                },
            }
        },
        Err(_) => {
            assert(false);
            grid
        },
    }
}

/// Runs `count` steps; fails with `GridExhausted` as soon as the grid is too
/// small for the next one.
pub fn run_phase(grid: PixelGrid, count: usize, mode: CarveMode) -> (r: Result<PixelGrid, CarveError>)
    requires
        grid.wf(),
    ensures
        match r {
            Ok(out) => out.wf() && phase_model(grid@, count as nat, mode) == Some(out@),
            Err(err) => err == CarveError::GridExhausted && (phase_model(grid@, count as nat, mode) is None),
        },
{
    let ghost g0 = grid@;
    let mut cur = grid;
    let mut i: usize = 0;
    while i < count
        invariant
            cur.wf(),
            g0 == grid@,
            i <= count,
            phase_model(g0, i as nat, mode) == Some(cur@),
        decreases count - i,
    {
        let fits = match mode {
            CarveMode::Remove => cur.width >= 2 && cur.height >= 2,
            CarveMode::Highlight => cur.width >= 1 && cur.height >= 1,
        };
        if !fits {
            proof {
                assert(!can_step(cur@, mode));
                assert(phase_model(g0, (i + 1) as nat, mode) is None);
                lemma_phase_fails_on(g0, (i + 1) as nat, count as nat, mode);
                assert(phase_model(g0, count as nat, mode) is None);
            }
            return Err(CarveError::GridExhausted);
        }
        cur = carve_step(cur, mode);
        i += 1;
    }
    Ok(cur)
}

/// Carves `vertical_count` vertical seams, then `horizontal_count` horizontal
/// ones (found as vertical seams of the grid turned a quarter turn), and
/// turns the grid back. Fails with `GridExhausted` when a step meets a grid
/// too small for it.
pub fn carve(grid: PixelGrid, vertical_count: usize, horizontal_count: usize, mode: CarveMode) -> (r: Result<
    PixelGrid,
    CarveError,
>)
    requires
        grid.wf(),
    ensures
        match r {
            Ok(out) => out.wf() && carve_model(grid@, vertical_count as nat, horizontal_count as nat, mode) == Some(out@),
            Err(err) => err == CarveError::GridExhausted
                && (carve_model(grid@, vertical_count as nat, horizontal_count as nat, mode) is None),
        },
{
    let vertical = run_phase(grid, vertical_count, mode)?;
    let turned = vertical.rotate90();
    let horizontal = run_phase(turned, horizontal_count, mode)?;
    Ok(horizontal.rotate270())
}

} // verus!
