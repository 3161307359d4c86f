use vstd::prelude::*;
use crate::energy::energy_view;
use crate::error::CarveError;

verus! {

/// A grid coordinate: column `x`, row `y`.
#[derive(Clone, Copy, Debug, PartialEq, Eq, Structural)]
pub struct Point {
    pub x: usize,
    pub y: usize,
}

/// A candidate seam: its points from row 0 down, and the sum of their energies.
#[derive(Debug)]
pub struct Path {
    pub total_energy: u128,
    pub path: Vec<Point>,
}

/// Every row has the same, non-zero, number of columns, and there is at least one row.
pub open spec fn rectangular(e: Seq<Seq<u32>>) -> bool {
    &&& e.len() > 0
    &&& e[0].len() > 0
    &&& forall|y: int| 0 <= y < e.len() ==> #[trigger] e[y].len() == e[0].len()
}

/// The column a candidate moves to in `row` from column `col`: the one of
/// `col - 1`, `col`, `col + 1` (those in range) of least energy, the first
/// of them on a tie.
pub open spec fn step_col(row: Seq<u32>, col: int) -> int {
    let m = if col > 0 && row[col - 1] <= row[col] { col - 1 } else { col };
    if col + 1 < row.len() && row[col + 1] < row[m] {
        col + 1
    } else {
        m
    }
}

/// The column at row `r` of the candidate that starts at column `start` of row 0.
pub open spec fn seam_col(e: Seq<Seq<u32>>, start: int, r: int) -> int
    decreases r,
{
    if r <= 0 {
        start
    } else {
        step_col(e[r], seam_col(e, start, r - 1))
    }
}

/// The energy accumulated by that candidate over rows `0..=r`.
pub open spec fn seam_cost(e: Seq<Seq<u32>>, start: int, r: int) -> int
    decreases r,
{
    if r <= 0 {
        e[0][start] as int
    } else {
        seam_cost(e, start, r - 1) + e[r][seam_col(e, start, r)] as int
    }
}

/// The first `n` points of the candidate that starts at column `start`.
pub open spec fn seam_points(e: Seq<Seq<u32>>, start: int, n: int) -> Seq<Point> {
    Seq::new(n as nat, |i: int| Point { x: seam_col(e, start, i) as usize, y: i as usize })
}

/// The final cost of the candidate of each starting column.
pub open spec fn seam_costs(e: Seq<Seq<u32>>) -> Seq<int> {
    Seq::new(e[0].len(), |s: int| seam_cost(e, s, e.len() - 1))
}

/// `i` holds the least value of `t`, and no earlier index does.
pub open spec fn is_first_min(t: Seq<int>, i: int) -> bool {
    &&& 0 <= i < t.len()
    &&& forall|j: int| 0 <= j < t.len() ==> t[i] <= #[trigger] t[j]
    &&& forall|j: int| 0 <= j < i ==> t[i] < #[trigger] t[j]
}

/// The starting column of the selected seam.
pub open spec fn best_start(e: Seq<Seq<u32>>) -> int {
    choose|s: int| is_first_min(seam_costs(e), s)
}

/// `s` is a seam of a `width` x `height` grid: one point per row, in row
/// order, each column in range and within one of the column above.
pub open spec fn is_seam(s: Seq<Point>, width: int, height: int) -> bool {
    &&& s.len() == height
    &&& forall|i: int| 0 <= i < height ==> (#[trigger] s[i]).y == i && s[i].x < width
    &&& forall|i: int| 0 < i < height ==> -1 <= (#[trigger] s[i]).x - s[i - 1].x <= 1
}

/// `p` is the candidate of column `start` extended down to row `r`.
pub open spec fn is_candidate(e: Seq<Seq<u32>>, p: Path, start: int, r: int) -> bool {
    &&& p.path@ == seam_points(e, start, r + 1)
    &&& p.total_energy == seam_cost(e, start, r)
}

/// `p` is the seam that the search selects on `e`.
pub open spec fn is_selected_seam(e: Seq<Seq<u32>>, p: Path) -> bool {
    is_candidate(e, p, best_start(e), e.len() - 1)
}

/// A candidate stays in range, moves by at most one column per row, and its
/// cost is bounded by the largest energy per row.
pub proof fn lemma_candidate(e: Seq<Seq<u32>>, start: int, r: int)
    requires
        rectangular(e),
        0 <= start < e[0].len(),
        0 <= r < e.len(),
    ensures
        0 <= seam_col(e, start, r) < e[0].len(),
        0 <= seam_cost(e, start, r) <= (r + 1) * 0xFFFF_FFFF,
        r > 0 ==> -1 <= seam_col(e, start, r) - seam_col(e, start, r - 1) <= 1,
    decreases r,
{
    if r > 0 {
        lemma_candidate(e, start, r - 1);
        assert(e[r].len() == e[0].len());
    }
}

/// Every candidate is a seam of the grid.
pub proof fn lemma_seam_points(e: Seq<Seq<u32>>, start: int)
    requires
        rectangular(e),
        0 <= start < e[0].len(),
        e.len() <= usize::MAX,
        e[0].len() <= usize::MAX,
    ensures
        is_seam(seam_points(e, start, e.len() as int), e[0].len() as int, e.len() as int),
{
    let s = seam_points(e, start, e.len() as int);
    assert forall|i: int| 0 <= i < e.len() implies (#[trigger] s[i]).y == i && s[i].x < e[0].len() by {
        lemma_candidate(e, start, i);
    }
    assert forall|i: int| 0 < i < e.len() implies -1 <= (#[trigger] s[i]).x - s[i - 1].x <= 1 by {
        lemma_candidate(e, start, i);
        lemma_candidate(e, start, i - 1);
    }
}

/// The first minimum of a sequence is unique, so `best_start` is it.
pub proof fn lemma_best_start(e: Seq<Seq<u32>>, s: int)
    requires
        is_first_min(seam_costs(e), s),
    ensures
        best_start(e) == s,
{
    let t = seam_costs(e);
    let b = best_start(e);
    assert(is_first_min(t, b));
    if b < s {
        assert(t[s] < t[b]);
    } else if s < b {
        assert(t[b] < t[s]);
    }
}

} // verus!

verus! {

/// One candidate per column of the first row, each holding that single point.
pub fn first_row(row: &Vec<u32>) -> (r: Vec<Path>)
    ensures
        r@.len() == row@.len(),
        forall|c: int| 0 <= c < row@.len() ==> (#[trigger] r@[c]).path@ == seq![Point { x: c as usize, y: 0 }]
            && r@[c].total_energy == row@[c],
{
    let mut paths: Vec<Path> = Vec::new();
    let mut i: usize = 0;
    while i < row.len()
        invariant
            i <= row@.len(),
            paths@.len() == i,
            forall|c: int| 0 <= c < i ==> (#[trigger] paths@[c]).path@ == seq![Point { x: c as usize, y: 0 }]
                && paths@[c].total_energy == row@[c],
        decreases row@.len() - i,
    {
        let mut points: Vec<Point> = Vec::new();
        points.push(Point { x: i, y: 0 });
        paths.push(Path { total_energy: row[i] as u128, path: points });
        i += 1;
    }
    paths
}

/// Extends a candidate by one point in `row`, chosen by `step_col`.
pub fn extend_path(p: &mut Path, row: &Vec<u32>, row_index: usize)
    requires
        old(p).path@.len() > 0,
        old(p).path@.last().x < row@.len(),
        old(p).total_energy <= row_index * 0xFFFF_FFFF,
    ensures
        final(p).path@ == old(p).path@.push(
            Point { x: step_col(row@, old(p).path@.last().x as int) as usize, y: row_index },
        ),
        final(p).total_energy == old(p).total_energy + row@[step_col(row@, old(p).path@.last().x as int)],
{
    let col = p.path[p.path.len() - 1].x;
    let mut best: usize = col;
    if col > 0 && row[col - 1] <= row[col] {
        best = col - 1;
    }
    if col < row.len() - 1 && row[col + 1] < row[best] {
        best = col + 1;
    }
    assert(row_index * 0xFFFF_FFFF + 0xFFFF_FFFF <= 0xFFFF_FFFF_FFFF_FFFF * 0xFFFF_FFFF + 0xFFFF_FFFF)
        by (nonlinear_arith) requires row_index <= 0xFFFF_FFFF_FFFF_FFFF;
    p.total_energy = p.total_energy + row[best] as u128;
    p.path.push(Point { x: best, y: row_index });
}

} // verus!

verus! {

/// Extends every candidate, independently, row by row down to the last row.
pub fn grow_paths(paths: Vec<Path>, energy_map: &Vec<Vec<u32>>) -> (r: Vec<Path>)
    requires
        rectangular(energy_view(energy_map@)),
        paths@.len() == energy_map@[0]@.len(),
        forall|c: int| 0 <= c < paths@.len() ==> is_candidate(energy_view(energy_map@), #[trigger] paths@[c], c, 0),
    ensures
        r@.len() == paths@.len(),
        forall|c: int| 0 <= c < r@.len()
            ==> is_candidate(energy_view(energy_map@), #[trigger] r@[c], c, energy_map@.len() - 1),
{
    let ghost e = energy_view(energy_map@);
    let width = paths.len();
    let mut paths = paths;
    let mut y: usize = 1;
    while y < energy_map.len()
        invariant
            e == energy_view(energy_map@),
            rectangular(e),
            1 <= y <= energy_map@.len(),
            paths@.len() == width,
            width == e[0].len(),
            forall|c: int| 0 <= c < width ==> is_candidate(e, #[trigger] paths@[c], c, y - 1),
        decreases energy_map@.len() - y,
    {
        let row = &energy_map[y];
        assert(row@ == e[y as int]);
        let mut i: usize = 0;
        while i < width
            invariant
                e == energy_view(energy_map@),
                rectangular(e),
                1 <= y < energy_map@.len(),
                row@ == e[y as int],
                i <= width,
                paths@.len() == width,
                width == e[0].len(),
                forall|c: int| 0 <= c < i ==> is_candidate(e, #[trigger] paths@[c], c, y as int),
                forall|c: int| i <= c < width ==> is_candidate(e, #[trigger] paths@[c], c, y - 1),
            decreases width - i,
        {
            proof {
                lemma_candidate(e, i as int, y - 1);
                assert(paths@[i as int].path@.last() == seam_points(e, i as int, y as int)[y - 1]);
            }
            extend_path(&mut paths[i], row, y);
            assert(paths@[i as int].path@ =~= seam_points(e, i as int, y + 1));
            i += 1;
        }
        y += 1;
    }
    paths
}

} // verus!

verus! {

/// The accumulated energy of each candidate.
pub open spec fn totals(paths: Seq<Path>) -> Seq<int> {
    Seq::new(paths.len(), |i: int| paths[i].total_energy as int)
}

/// The candidate of least accumulated energy; on a tie, the earliest one.
pub fn lowest_energy_seam(paths: Vec<Path>) -> (r: Path)
    requires
        paths@.len() > 0,
    ensures
        exists|i: int| is_first_min(totals(paths@), i) && r == paths@[i],
{
    let ghost orig = paths@;
    let ghost t = totals(paths@);
    let mut paths = paths;
    let mut best = paths.pop().unwrap();
    let ghost mut bi: int = paths@.len() as int;
    while paths.len() > 0
        invariant
            t == totals(orig),
            paths@ == orig.subrange(0, paths@.len() as int),
            paths@.len() <= bi < orig.len(),
            best == orig[bi],
            forall|j: int| paths@.len() <= j < orig.len() ==> t[bi] <= #[trigger] t[j],
            forall|j: int| paths@.len() <= j < bi ==> t[bi] < #[trigger] t[j],
        decreases paths@.len(),
    {
        let p = paths.pop().unwrap();
        if p.total_energy <= best.total_energy {
            best = p;
            proof {
                bi = paths@.len() as int;
            }
        }
    }
    assert(is_first_min(t, bi));
    best
}

/// The selected seam of an energy grid: of the candidates grown from each
/// column of the first row, the one of least total energy, the leftmost on a
/// tie. Fails on a grid without rows or columns, or with rows of unequal length.
pub fn find_seam(energy_map: &Vec<Vec<u32>>) -> (r: Result<Path, CarveError>)
    ensures
        match r {
            Ok(p) => rectangular(energy_view(energy_map@))
                && is_selected_seam(energy_view(energy_map@), p)
                && is_seam(p.path@, energy_map@[0]@.len() as int, energy_map@.len() as int),
            Err(err) => {
                &&& !rectangular(energy_view(energy_map@))
                &&& (err == CarveError::EmptyGrid) == (energy_map@.len() == 0 || energy_map@[0]@.len() == 0)
                &&& err == CarveError::EmptyGrid || err == CarveError::RaggedRows
            },
        },
{
    let ghost e = energy_view(energy_map@);
    if energy_map.len() == 0 || energy_map[0].len() == 0 {
        return Err(CarveError::EmptyGrid);
    }
    let width = energy_map[0].len();
    let mut y: usize = 1;
    while y < energy_map.len()
        invariant
            e == energy_view(energy_map@),
            1 <= y <= energy_map@.len(),
            width == e[0].len(),
            width > 0,
            forall|k: int| 0 <= k < y ==> #[trigger] e[k].len() == width,
        decreases energy_map@.len() - y,
    {
        if energy_map[y].len() != width {
            assert(e[y as int].len() != width);
            assert(!rectangular(e));
            return Err(CarveError::RaggedRows);
        }
        y += 1;
    }
    assert(rectangular(e));
    let start = first_row(&energy_map[0]);
    assert forall|c: int| 0 <= c < start@.len() implies is_candidate(e, #[trigger] start@[c], c, 0) by {
        assert(start@[c].path@ =~= seam_points(e, c, 1));
    }
    let grown = grow_paths(start, energy_map);
    let ghost g = grown@;
    let seam = lowest_energy_seam(grown);
    proof {
        let i = choose|i: int| is_first_min(totals(g), i) && seam == g[i];
        assert(totals(g) =~= seam_costs(e));
        lemma_best_start(e, i);
        lemma_seam_points(e, i);
    }
    Ok(seam)
}

} // verus!
