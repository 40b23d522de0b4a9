use vstd::prelude::*;
use crate::geometry::{Quad, glyph_quad, background_quad, make_glyph_quad, make_background_quad, is_triangle_list, quad_indices};
use crate::glyph::TerminalGlyph;

verus! {

/// The cells whose geometry must be rebuilt.
#[derive(Debug, PartialEq, Eq)]
pub enum DirtySet {
    /// Every cell: rebuild the whole mesh.
    All,
    /// Exactly these cell indices, in increasing order.
    Cells(Vec<usize>),
}

/// `v` lists, in increasing order, exactly the indices at which `a` and `b` differ.
pub open spec fn is_change_list(v: Seq<usize>, a: Seq<TerminalGlyph>, b: Seq<TerminalGlyph>) -> bool {
    &&& forall|k: int| 0 <= k < v.len() ==> #[trigger] v[k] < a.len() && a[v[k] as int] != b[v[k] as int]
    &&& forall|k: int, l: int| 0 <= k < l < v.len() ==> #[trigger] v[k] < #[trigger] v[l]
    &&& forall|i: int| 0 <= i < a.len() && a[i] != b[i] ==> v.contains(i as usize)
}

/// The number of quads of a mesh of `n` cells.
pub open spec fn quads_len(with_background: bool, n: int) -> int {
    if with_background { 2 * n } else { n }
}

/// Whether the quads of cell `i` in `q` depict `cell`.
pub open spec fn cell_depicted(
    with_background: bool,
    width: int,
    columns: int,
    q: Seq<Quad>,
    i: int,
    cell: TerminalGlyph,
) -> bool {
    if with_background {
        &&& q[2 * i] == background_quad(width, i, cell)
        &&& q[2 * i + 1] == glyph_quad(width, columns, i, cell)
    } else {
        q[i] == glyph_quad(width, columns, i, cell)
    }
}

/// The quads that cell `i` owns in `q`.
pub open spec fn cell_quads(with_background: bool, q: Seq<Quad>, i: int) -> Seq<Quad> {
    if with_background {
        q.subrange(2 * i, 2 * i + 2)
    } else {
        q.subrange(i, i + 1)
    }
}

/// `q` is exactly the mesh of `grid`: for each cell, its quads and nothing else.
pub open spec fn mesh_depicts(
    with_background: bool,
    width: int,
    columns: int,
    q: Seq<Quad>,
    grid: Seq<TerminalGlyph>,
) -> bool {
    &&& q.len() == quads_len(with_background, grid.len() as int)
    &&& forall|i: int|
        0 <= i < grid.len() ==> #[trigger] cell_depicted(with_background, width, columns, q, i, grid[i])
}

/// Mesh geometry for a console grid, kept up to date one cell at a time.
/// With a background, cell `i` owns quads `2i` (background) and `2i + 1`
/// (glyph); without one, it owns quad `i` (glyph).
pub struct SimpleBackend {
    pub with_background: bool,
    pub no_dirty_optimization: bool,
    pub width: usize,
    pub height: usize,
    pub chars_per_row: usize,
    pub n_rows: usize,
    pub font_height_pixels: usize,
    pub quads: Vec<Quad>,
    /// Two triangles per quad; fixed once the mesh is built.
    pub indices: Vec<u32>,
    pub dirty: DirtySet,
    /// The grid as it stood at the last dirty computation.
    pub snapshot: Option<Vec<TerminalGlyph>>,
    /// The grid that `quads` currently depicts.
    pub rendered: Ghost<Seq<TerminalGlyph>>,
}

impl SimpleBackend {
    pub open spec fn n_cells(&self) -> int {
        self.width * self.height
    }

    /// `q` is exactly the mesh of `grid`.
    pub open spec fn depicts(&self, q: Seq<Quad>, grid: Seq<TerminalGlyph>) -> bool {
        mesh_depicts(self.with_background, self.width as int, self.chars_per_row as int, q, grid)
    }

    pub open spec fn quads_len(&self, n: int) -> int {
        quads_len(self.with_background, n)
    }

    pub open spec fn wf(&self) -> bool {
        &&& self.n_cells() > 0 ==> self.width > 0 && self.chars_per_row > 0
        &&& self.quads_len(self.n_cells()) < usize::MAX
        &&& self.rendered@.len() == self.n_cells()
        &&& self.depicts(self.quads@, self.rendered@)
        &&& is_triangle_list(self.indices@, self.quads_len(self.n_cells()))
        &&& match self.snapshot {
            Some(s) => s@.len() == self.n_cells(),
            None => true,
        }
        &&& match self.dirty {
            DirtySet::All => true,
            DirtySet::Cells(v) => {
                &&& self.snapshot is Some
                &&& forall|k: int| 0 <= k < v@.len() ==> #[trigger] v@[k] < self.n_cells()
                &&& forall|i: int|
                    0 <= i < self.n_cells() && !v@.contains(i as usize)
                        ==> #[trigger] self.rendered@[i] == self.snapshot->Some_0@[i]
            },
        }
    }

    /// Between frames: the last dirty computation saw exactly what is rendered.
    pub open spec fn settled(&self) -> bool {
        match self.snapshot {
            Some(s) => s@ == self.rendered@,
            None => true,
        }
    }

    /// Appends the quads of cell `i`.
    fn push_cell(&mut self, i: usize, cell: TerminalGlyph)
        requires
            old(self).width > 0,
            old(self).chars_per_row > 0,
            i < usize::MAX,
        ensures
            final(self).quads@ == if old(self).with_background {
                old(self).quads@.push(background_quad(old(self).width as int, i as int, cell)).push(
                    glyph_quad(old(self).width as int, old(self).chars_per_row as int, i as int, cell))
            } else {
                old(self).quads@.push(glyph_quad(old(self).width as int, old(self).chars_per_row as int, i as int, cell))
            },
            final(self).with_background == old(self).with_background,
            final(self).no_dirty_optimization == old(self).no_dirty_optimization,
            final(self).width == old(self).width,
            final(self).height == old(self).height,
            final(self).chars_per_row == old(self).chars_per_row,
            final(self).n_rows == old(self).n_rows,
            final(self).font_height_pixels == old(self).font_height_pixels,
            final(self).indices == old(self).indices,
            final(self).dirty == old(self).dirty,
            final(self).snapshot == old(self).snapshot,
            final(self).rendered == old(self).rendered,
    {
        if self.with_background {
            self.quads.push(make_background_quad(self.width, i, cell));
        }
        self.quads.push(make_glyph_quad(self.width, self.chars_per_row, i, cell));
    }

    /// Rebuilds every quad from `grid`.
    fn rebuild(&mut self, grid: &Vec<TerminalGlyph>)
        requires
            grid@.len() > 0 ==> old(self).width > 0 && old(self).chars_per_row > 0,
            old(self).quads_len(grid@.len() as int) < usize::MAX,
        ensures
            final(self).depicts(final(self).quads@, grid@),
            final(self).with_background == old(self).with_background,
            final(self).no_dirty_optimization == old(self).no_dirty_optimization,
            final(self).width == old(self).width,
            final(self).height == old(self).height,
            final(self).chars_per_row == old(self).chars_per_row,
            final(self).n_rows == old(self).n_rows,
            final(self).font_height_pixels == old(self).font_height_pixels,
            final(self).indices == old(self).indices,
            final(self).dirty == old(self).dirty,
            final(self).snapshot == old(self).snapshot,
            final(self).rendered == old(self).rendered,
    {
        self.quads.clear();
        let n = grid.len();
        let mut i: usize = 0;
        while i < n
            invariant
                n == grid@.len(),
                i <= n,
                self.width == old(self).width,
                self.chars_per_row == old(self).chars_per_row,
                self.with_background == old(self).with_background,
                self.no_dirty_optimization == old(self).no_dirty_optimization,
                self.height == old(self).height,
                self.n_rows == old(self).n_rows,
                self.font_height_pixels == old(self).font_height_pixels,
                self.indices == old(self).indices,
                self.dirty == old(self).dirty,
                self.snapshot == old(self).snapshot,
                self.rendered == old(self).rendered,
                n > 0 ==> self.width > 0 && self.chars_per_row > 0,
                self.quads_len(n as int) < usize::MAX,
                self.quads@.len() == self.quads_len(i as int),
                forall|j: int| 0 <= j < i ==> #[trigger] cell_depicted(self.with_background, self.width as int, self.chars_per_row as int, self.quads@, j, grid@[j]),
            decreases n - i,
        {
            let ghost before = *self;
            self.push_cell(i, grid[i]);
            assert forall|j: int| 0 <= j < i + 1 implies #[trigger] cell_depicted(self.with_background, self.width as int, self.chars_per_row as int, self.quads@, j, grid@[j]) by {
                if j < i {
                    assert(cell_depicted(self.with_background, self.width as int, self.chars_per_row as int, before.quads@, j, grid@[j]));
                }
            }
            i = i + 1;
        }
    }

    /// Rewrites the quads of cell `i` in place.
    fn patch_cell(&mut self, i: usize, cell: TerminalGlyph)
        requires
            old(self).width > 0,
            old(self).chars_per_row > 0,
            old(self).quads@.len() == old(self).quads_len(old(self).n_cells()),
            i < old(self).n_cells(),
            old(self).quads_len(old(self).n_cells()) < usize::MAX,
        ensures
            final(self).quads@.len() == old(self).quads@.len(),
            cell_depicted(old(self).with_background, old(self).width as int, old(self).chars_per_row as int, final(self).quads@, i as int, cell),
            forall|j: int| 0 <= j < old(self).quads@.len() && j != old(self).quads_len(i as int)
                && (old(self).with_background ==> j != old(self).quads_len(i as int) + 1) ==> #[trigger] final(self).quads@[j] == old(self).quads@[j],
            final(self).with_background == old(self).with_background,
            final(self).no_dirty_optimization == old(self).no_dirty_optimization,
            final(self).width == old(self).width,
            final(self).height == old(self).height,
            final(self).chars_per_row == old(self).chars_per_row,
            final(self).n_rows == old(self).n_rows,
            final(self).font_height_pixels == old(self).font_height_pixels,
            final(self).indices == old(self).indices,
            final(self).dirty == old(self).dirty,
            final(self).snapshot == old(self).snapshot,
            final(self).rendered == old(self).rendered,
    {
        if self.with_background {
            let b = make_background_quad(self.width, i, cell);
            let g = make_glyph_quad(self.width, self.chars_per_row, i, cell);
            self.quads.set(2 * i, b);
            self.quads.set(2 * i + 1, g);
        } else {
            let g = make_glyph_quad(self.width, self.chars_per_row, i, cell);
            self.quads.set(i, g);
        }
    }
    /// Builds the whole mesh of `grid`. The first dirty computation afterwards
    /// reports every cell.
    pub fn new(
        grid: &Vec<TerminalGlyph>,
        chars_per_row: usize,
        n_rows: usize,
        font_height_pixels: usize,
        width: usize,
        height: usize,
        no_dirty_optimization: bool,
        with_background: bool,
    ) -> (b: SimpleBackend)
        requires
            width * height > 0 ==> width > 0 && chars_per_row > 0,
            grid@.len() == width * height,
            2 * (width * height) < usize::MAX,
            4 * quads_len(with_background, width * height) <= u32::MAX,
        ensures
            b.wf(),
            b.settled(),
            b.rendered@ == grid@,
            b.dirty is All,
            b.snapshot is None,
            b.with_background == with_background,
            b.no_dirty_optimization == no_dirty_optimization,
            b.width == width,
            b.height == height,
            b.chars_per_row == chars_per_row,
            b.n_rows == n_rows,
            b.font_height_pixels == font_height_pixels,
    {
        let mut b = SimpleBackend {
            with_background,
            no_dirty_optimization,
            width,
            height,
            chars_per_row,
            n_rows,
            font_height_pixels,
            quads: Vec::new(),
            indices: quad_indices(if with_background { 2 * (width * height) } else { width * height }),
            dirty: DirtySet::All,
            snapshot: None,
            rendered: Ghost(grid@),
        };
        b.rebuild(grid);
        b
    }

    /// Recomputes the dirty set against `grid` and remembers `grid` for the
    /// next comparison. Every cell is dirty when the optimization is off or
    /// when nothing has been compared yet; otherwise exactly the changed cells.
    pub fn update_dirty(&mut self, grid: &Vec<TerminalGlyph>)
        requires
            old(self).wf(),
            old(self).settled(),
            grid@.len() == old(self).n_cells(),
        ensures
            final(self).wf(),
            final(self).snapshot is Some,
            final(self).snapshot->Some_0@ == grid@,
            old(self).no_dirty_optimization || old(self).snapshot is None ==> final(self).dirty is All,
            !old(self).no_dirty_optimization && old(self).snapshot is Some ==> match final(self).dirty {
                DirtySet::Cells(v) => is_change_list(v@, old(self).snapshot->Some_0@, grid@),
                DirtySet::All => false,
            },
            final(self).quads == old(self).quads,
            final(self).rendered == old(self).rendered,
            final(self).with_background == old(self).with_background,
            final(self).no_dirty_optimization == old(self).no_dirty_optimization,
            final(self).width == old(self).width,
            final(self).height == old(self).height,
            final(self).chars_per_row == old(self).chars_per_row,
            final(self).n_rows == old(self).n_rows,
            final(self).font_height_pixels == old(self).font_height_pixels,
            final(self).indices == old(self).indices,
    {
        let n = grid.len();
        let mut copy: Vec<TerminalGlyph> = Vec::new();
        let mut changed: Vec<usize> = Vec::new();
        let ghost prev: Seq<TerminalGlyph> = if self.snapshot is Some {
            self.snapshot->Some_0@
        } else {
            grid@
        };
        let mut i: usize = 0;
        while i < n
            invariant
                n == grid@.len(),
                i <= n,
                prev.len() == n,
                self.snapshot is Some ==> self.snapshot->Some_0@ == prev,
                self.snapshot is None ==> prev == grid@,
                copy@ == grid@.subrange(0, i as int),
                forall|k: int| 0 <= k < changed@.len() ==> #[trigger] changed@[k] < i && prev[changed@[k] as int] != grid@[changed@[k] as int],
                forall|k: int, l: int| 0 <= k < l < changed@.len() ==> #[trigger] changed@[k] < #[trigger] changed@[l],
                forall|j: int| 0 <= j < i && prev[j] != grid@[j] ==> changed@.contains(j as usize),
            decreases n - i,
        {
            let cell = grid[i];
            copy.push(cell);
            let differs = match &self.snapshot {
                Some(s) => {
                    !(s[i] == cell)
                },
                None => false,
            };
            assert(differs == (prev[i as int] != grid@[i as int]));
            let ghost earlier = changed@;
            if differs {
                changed.push(i);
                assert(changed@[changed@.len() - 1] == i);
            }
            assert forall|j: int| 0 <= j < i + 1 && prev[j] != grid@[j] implies changed@.contains(j as usize) by {
                if j == i {
                    assert(changed@[changed@.len() - 1] == i);
                } else {
                    assert(earlier.contains(j as usize));
                    let t = choose|t: int| 0 <= t < earlier.len() && earlier[t] == j as usize;
                    assert(changed@[t] == j as usize);
                }
            }
            i = i + 1;
        }
        assert(copy@ =~= grid@);
        if self.no_dirty_optimization || self.snapshot.is_none() {
            self.dirty = DirtySet::All;
        } else {
            proof {
                assert forall|j: int| 0 <= j < n && !changed@.contains(j as usize)
                    implies #[trigger] self.rendered@[j] == grid@[j] by {
                    assert(prev[j] == grid@[j]);
                }
            }
            self.dirty = DirtySet::Cells(changed);
        }
        self.snapshot = Some(copy);
    }

    /// Brings the mesh up to date with `grid`: rebuilt whole when every cell is
    /// dirty, else patched at the dirty cells alone. Either way the result is
    /// the mesh of `grid`.
    pub fn update_mesh(&mut self, grid: &Vec<TerminalGlyph>)
        requires
            old(self).wf(),
            grid@.len() == old(self).n_cells(),
            old(self).dirty is Cells ==> old(self).snapshot->Some_0@ == grid@,
        ensures
            final(self).wf(),
            final(self).rendered@ == grid@,
            final(self).depicts(final(self).quads@, grid@),
            final(self).dirty == old(self).dirty,
            final(self).snapshot == old(self).snapshot,
            final(self).with_background == old(self).with_background,
            final(self).no_dirty_optimization == old(self).no_dirty_optimization,
            final(self).width == old(self).width,
            final(self).height == old(self).height,
            final(self).chars_per_row == old(self).chars_per_row,
            final(self).n_rows == old(self).n_rows,
            final(self).font_height_pixels == old(self).font_height_pixels,
            final(self).indices == old(self).indices,
    {
        let n = grid.len();
        let cells: Vec<usize> = match &self.dirty {
            DirtySet::All => {
                self.rebuild(grid);
                self.rendered = Ghost(grid@);
                return;
            },
            DirtySet::Cells(v) => v.clone(),
        };
        let ghost v = cells@;
        assert(v == self.dirty->Cells_0@);
        assert(v.subrange(0, v.len() as int) =~= v);
        let mut k: usize = 0;
        while k < cells.len()
            invariant
                v == cells@,
                self.dirty is Cells,
                v == self.dirty->Cells_0@,
                self.snapshot is Some,
                self.snapshot->Some_0@ == grid@,
                n == grid@.len(),
                n == self.n_cells(),
                k <= v.len(),
                self.wf(),
                self.dirty == old(self).dirty,
                self.snapshot == old(self).snapshot,
                self.with_background == old(self).with_background,
                self.no_dirty_optimization == old(self).no_dirty_optimization,
                self.width == old(self).width,
                self.height == old(self).height,
                self.chars_per_row == old(self).chars_per_row,
                self.n_rows == old(self).n_rows,
                self.font_height_pixels == old(self).font_height_pixels,
                self.indices == old(self).indices,
                forall|j: int| 0 <= j < v.len() ==> #[trigger] v[j] < n,
                forall|i: int| 0 <= i < n && !v.subrange(k as int, v.len() as int).contains(i as usize)
                    ==> #[trigger] self.rendered@[i] == grid@[i],
            decreases v.len() - k,
        {
            let i = cells[k];
            let ghost before = *self;
            self.patch_cell(i, grid[i]);
            self.rendered = Ghost(self.rendered@.update(i as int, grid@[i as int]));
            proof {
                assert forall|j: int| 0 <= j < n implies #[trigger] cell_depicted(self.with_background, self.width as int, self.chars_per_row as int, self.quads@, j, self.rendered@[j]) by {
                    if j != i {
                        assert(cell_depicted(self.with_background, self.width as int, self.chars_per_row as int, before.quads@, j, before.rendered@[j]));
                        if self.with_background {
                            assert(self.quads@[2 * j] == before.quads@[2 * j]);
                            assert(self.quads@[2 * j + 1] == before.quads@[2 * j + 1]);
                        } else {
                            assert(self.quads@[j] == before.quads@[j]);
                        }
                    }
                }
                assert forall|j: int| 0 <= j < n && !v.subrange(k + 1, v.len() as int).contains(j as usize)
                    implies #[trigger] self.rendered@[j] == grid@[j] by {
                    if j != i {
                        if v.subrange(k as int, v.len() as int).contains(j as usize) {
                            let t = choose|t: int| 0 <= t < v.len() - k && v.subrange(k as int, v.len() as int)[t] == j as usize;
                            assert(t != 0);
                            assert(v.subrange(k + 1, v.len() as int)[t - 1] == j as usize);
                        }
                    }
                }
                assert forall|j: int| 0 <= j < n && !v.contains(j as usize)
                    implies #[trigger] self.rendered@[j] == self.snapshot->Some_0@[j] by {
                    if j != i {
                        assert(before.rendered@[j] == before.snapshot->Some_0@[j]);
                    }
                }
            }
            k = k + 1;
        }
        proof {
            assert forall|j: int| 0 <= j < n implies #[trigger] self.rendered@[j] == grid@[j] by {
                assert(!v.subrange(k as int, v.len() as int).contains(j as usize));
            }
            assert(self.rendered@ =~= grid@);
        }
    }

    /// A copy of the current dirty set.
    pub fn dirty_set(&self) -> (d: DirtySet)
        ensures
            d is All <==> self.dirty is All,
            d is Cells ==> d->Cells_0@ == self.dirty->Cells_0@,
    {
        match &self.dirty {
            DirtySet::All => DirtySet::All,
            DirtySet::Cells(v) => DirtySet::Cells(v.clone()),
        }
    }

    /// Forgets the dirty cells once the mesh shows them.
    pub fn clear_dirty(&mut self)
        requires
            old(self).wf(),
            old(self).snapshot is Some,
            old(self).settled(),
        ensures
            final(self).wf(),
            final(self).settled(),
            match final(self).dirty {
                DirtySet::Cells(v) => v@.len() == 0,
                DirtySet::All => false,
            },
            final(self).quads == old(self).quads,
            final(self).rendered == old(self).rendered,
            final(self).snapshot == old(self).snapshot,
            final(self).with_background == old(self).with_background,
            final(self).no_dirty_optimization == old(self).no_dirty_optimization,
            final(self).width == old(self).width,
            final(self).height == old(self).height,
            final(self).chars_per_row == old(self).chars_per_row,
            final(self).n_rows == old(self).n_rows,
            final(self).font_height_pixels == old(self).font_height_pixels,
            final(self).indices == old(self).indices,
    {
        self.dirty = DirtySet::Cells(Vec::new());
    }
}

/// When two grids differ in exactly one cell, the change list between them
/// holds that cell's index and nothing else.
pub proof fn lemma_single_change_single_dirty(
    v: Seq<usize>,
    a: Seq<TerminalGlyph>,
    b: Seq<TerminalGlyph>,
    j: int,
)
    requires
        a.len() == b.len(),
        0 <= j < a.len(),
        a[j] != b[j],
        forall|i: int| 0 <= i < a.len() && i != j ==> a[i] == b[i],
        is_change_list(v, a, b),
    ensures
        v == seq![j as usize],
{
    assert forall|k: int| 0 <= k < v.len() implies v[k] == j as usize by {
        assert(v[k] < a.len() && a[v[k] as int] != b[v[k] as int]);
    }
    if v.len() > 1 {
        assert(v[0] < v[1]);
    }
    assert(v.contains(j as usize));
    assert(v =~= seq![j as usize]);
}

/// A grid compared with itself yields an empty change list.
pub proof fn lemma_unchanged_grid_no_dirty(v: Seq<usize>, a: Seq<TerminalGlyph>)
    requires
        is_change_list(v, a, a),
    ensures
        v.len() == 0,
{
    if v.len() > 0 {
        let x = v[0];
        assert(x < a.len());
    }
}

/// A grid has exactly one mesh: whether reached by patching dirty cells or by
/// rebuilding everything, the quads are the same.
pub proof fn lemma_mesh_unique(
    with_background: bool,
    width: int,
    columns: int,
    q1: Seq<Quad>,
    q2: Seq<Quad>,
    grid: Seq<TerminalGlyph>,
)
    requires
        mesh_depicts(with_background, width, columns, q1, grid),
        mesh_depicts(with_background, width, columns, q2, grid),
    ensures
        q1 == q2,
{
    assert forall|k: int| 0 <= k < q1.len() implies q1[k] == q2[k] by {
        if with_background {
            let i = k / 2;
            assert(cell_depicted(with_background, width, columns, q1, i, grid[i]));
            assert(cell_depicted(with_background, width, columns, q2, i, grid[i]));
        } else {
            assert(cell_depicted(with_background, width, columns, q1, k, grid[k]));
            assert(cell_depicted(with_background, width, columns, q2, k, grid[k]));
        }
    }
    assert(q1 =~= q2);
}

} // verus!
