use vstd::prelude::*;

verus! {

/// One RGBA pixel with 8-bit channels.
#[derive(Clone, Copy, Debug, PartialEq, Eq, Structural)]
pub struct Rgba {
    pub r: u8,
    pub g: u8,
    pub b: u8,
    pub a: u8,
}

/// The colour painted over a highlighted seam: opaque red.
pub open spec fn highlight_spec() -> Rgba {
    Rgba { r: 255, g: 0, b: 0, a: 255 }
}

/// Opaque red, the colour of a highlighted seam.
pub fn highlight_colour() -> (r: Rgba)
    ensures
        r == highlight_spec(),
{
    Rgba { r: 255, g: 0, b: 0, a: 255 }
}

/// The mathematical model of a pixel grid.
pub struct GridModel {
    pub width: nat,
    pub height: nat,
    pub rows: Seq<Seq<Rgba>>,
}

impl GridModel {
    /// `height` rows of exactly `width` pixels each.
    pub open spec fn wf(self) -> bool {
        &&& self.rows.len() == self.height
        &&& forall|y: int| 0 <= y < self.height ==> #[trigger] self.rows[y].len() == self.width
    }

    pub open spec fn pixel(self, x: int, y: int) -> Rgba {
        self.rows[y][x]
    }
}

/// A width x height grid of RGBA pixels, stored row by row.
#[derive(Debug)]
pub struct PixelGrid {
    pub width: usize,
    pub height: usize,
    pub rows: Vec<Vec<Rgba>>,
}

impl View for PixelGrid {
    type V = GridModel;

    open spec fn view(&self) -> GridModel {
        GridModel {
            width: self.width as nat,
            height: self.height as nat,
            rows: self.rows@.map_values(|row: Vec<Rgba>| row@),
        }
    }
}

impl PixelGrid {
    /// Every row holds exactly `width` pixels and there are `height` rows.
    pub open spec fn wf(&self) -> bool {
        &&& self.rows@.len() == self.height
        &&& forall|y: int| 0 <= y < self.height ==> #[trigger] self.rows@[y]@.len() == self.width
    }

    /// A well-formed grid has a well-formed model.
    pub proof fn lemma_view_wf(&self)
        requires
            self.wf(),
        ensures
            self@.wf(),
            forall|y: int| 0 <= y < self.height ==> #[trigger] self@.rows[y] == self.rows@[y]@,
    {
        assert forall|y: int| 0 <= y < self.height implies #[trigger] self@.rows[y].len() == self.width by {
            assert(self@.rows[y] == self.rows@[y]@);
        }
    }

    /// Builds a grid from its rows; `None` when a row's length is not `width`.
    pub fn from_rows(width: usize, rows: Vec<Vec<Rgba>>) -> (r: Option<PixelGrid>)
        ensures
            match r {
                Some(g) => g.wf() && g.width == width && g.height == rows@.len()
                    && g@.rows == rows@.map_values(|row: Vec<Rgba>| row@),
                None => exists|y: int| 0 <= y < rows@.len() && #[trigger] rows@[y]@.len() != width,
            },
    {
        let mut y: usize = 0;
        while y < rows.len()
            invariant
                y <= rows@.len(),
                forall|k: int| 0 <= k < y ==> #[trigger] rows@[k]@.len() == width,
            decreases rows@.len() - y,
        {
            if rows[y].len() != width {
                return None;
            }
            y += 1;
        }
        let height = rows.len();
        Some(PixelGrid { width, height, rows })
    }

    /// A grid of the given size filled with one colour.
    pub fn uniform(width: usize, height: usize, colour: Rgba) -> (r: PixelGrid)
        ensures
            r.wf(),
            r.width == width,
            r.height == height,
            forall|x: int, y: int| 0 <= x < width && 0 <= y < height ==> r@.pixel(x, y) == colour,
    {
        let mut rows: Vec<Vec<Rgba>> = Vec::new();
        let mut y: usize = 0;
        while y < height
            invariant
                y <= height,
                rows@.len() == y,
                forall|k: int| 0 <= k < y ==> #[trigger] rows@[k]@ == Seq::new(width as nat, |i: int| colour),
            decreases height - y,
        {
            let mut row: Vec<Rgba> = Vec::new();
            let mut x: usize = 0;
            while x < width
                invariant
                    x <= width,
                    row@ == Seq::new(x as nat, |i: int| colour),
                decreases width - x,
            {
                row.push(colour);
                x += 1;
                assert(row@ =~= Seq::new(x as nat, |i: int| colour));
            }
            rows.push(row);
            y += 1;
        }
        PixelGrid { width, height, rows }
    }

    /// The pixel at column `x` of row `y`.
    pub fn get_pixel(&self, x: usize, y: usize) -> (r: Rgba)
        requires
            self.wf(),
            x < self.width,
            y < self.height,
        ensures
            r == self@.pixel(x as int, y as int),
    {
        self.rows[y][x]
    }
}

} // verus!

verus! {

/// `g` turned a quarter turn clockwise: column `r` of `g`, read bottom to top, becomes row `r`.
pub open spec fn rotate90_model(g: GridModel) -> GridModel {
    GridModel {
        width: g.height,
        height: g.width,
        rows: Seq::new(g.width, |r: int| Seq::new(g.height, |c: int| g.rows[g.height - 1 - c][r])),
    }
}

/// `g` turned a quarter turn counter-clockwise: column `width - 1 - r` of `g` becomes row `r`.
pub open spec fn rotate270_model(g: GridModel) -> GridModel {
    GridModel {
        width: g.height,
        height: g.width,
        rows: Seq::new(g.width, |r: int| Seq::new(g.height, |c: int| g.rows[c][g.width - 1 - r])),
    }
}

/// Turning a grid clockwise and then back counter-clockwise gives it back.
pub proof fn lemma_rotate_back(g: GridModel)
    requires
        g.wf(),
    ensures
        rotate270_model(rotate90_model(g)) == g,
{
    let back = rotate270_model(rotate90_model(g));
    assert forall|y: int| 0 <= y < g.height implies #[trigger] back.rows[y] == g.rows[y] by {
        assert(back.rows[y] =~= g.rows[y]);
    }
    assert(back.rows =~= g.rows);
}

impl PixelGrid {
    /// The grid turned a quarter turn clockwise.
    pub fn rotate90(&self) -> (r: PixelGrid)
        requires
            self.wf(),
        ensures
            r.wf(),
            r@ == rotate90_model(self@),
    {
        proof {
            self.lemma_view_wf();
        }
        let ghost target = rotate90_model(self@);
        let mut rows: Vec<Vec<Rgba>> = Vec::new();
        let mut r: usize = 0;
        while r < self.width
            invariant
                self.wf(),
                self@.wf(),
                forall|k: int| 0 <= k < self.height ==> #[trigger] self@.rows[k] == self.rows@[k]@,
                target == rotate90_model(self@),
                r <= self.width,
                rows@.len() == r,
                forall|k: int| 0 <= k < r ==> #[trigger] rows@[k]@ == target.rows[k],
            decreases self.width - r,
        {
            let mut row: Vec<Rgba> = Vec::new();
            let mut c: usize = 0;
            while c < self.height
                invariant
                    self.wf(),
                    self@.wf(),
                    forall|k: int| 0 <= k < self.height ==> #[trigger] self@.rows[k] == self.rows@[k]@,
                    target == rotate90_model(self@),
                    r < self.width,
                    c <= self.height,
                    row@.len() == c,
                    forall|i: int| 0 <= i < c ==> #[trigger] row@[i] == target.rows[r as int][i],
                decreases self.height - c,
            {
                row.push(self.rows[self.height - 1 - c][r]);
                c += 1;
            }
            assert(row@ =~= target.rows[r as int]);
            rows.push(row);
            r += 1;
        }
        let out = PixelGrid { width: self.height, height: self.width, rows };
        assert(out@.rows =~= target.rows);
        out
    }

    /// The grid turned a quarter turn counter-clockwise.
    pub fn rotate270(&self) -> (r: PixelGrid)
        requires
            self.wf(),
        ensures
            r.wf(),
            r@ == rotate270_model(self@),
    {
        proof {
            self.lemma_view_wf();
        }
        let ghost target = rotate270_model(self@);
        let mut rows: Vec<Vec<Rgba>> = Vec::new();
        let mut r: usize = 0;
        while r < self.width
            invariant
                self.wf(),
                self@.wf(),
                forall|k: int| 0 <= k < self.height ==> #[trigger] self@.rows[k] == self.rows@[k]@,
                target == rotate270_model(self@),
                r <= self.width,
                rows@.len() == r,
                forall|k: int| 0 <= k < r ==> #[trigger] rows@[k]@ == target.rows[k],
            decreases self.width - r,
        {
            let mut row: Vec<Rgba> = Vec::new();
            let mut c: usize = 0;
            while c < self.height
                invariant
                    self.wf(),
                    self@.wf(),
                    forall|k: int| 0 <= k < self.height ==> #[trigger] self@.rows[k] == self.rows@[k]@,
                    target == rotate270_model(self@),
                    r < self.width,
                    c <= self.height,
                    row@.len() == c,
                    forall|i: int| 0 <= i < c ==> #[trigger] row@[i] == target.rows[r as int][i],
                decreases self.height - c,
            {
                row.push(self.rows[c][self.width - 1 - r]);
                c += 1;
            }
            assert(row@ =~= target.rows[r as int]);
            rows.push(row);
            r += 1;
        }
        let out = PixelGrid { width: self.height, height: self.width, rows };
        assert(out@.rows =~= target.rows);
        out
    }
}

} // verus!
