//! The ghost-cell grid: four two-dimensional fields of binary64 bit
//! patterns sized `(ny + 2*nghost) x (nx + 2*nghost)`, the translation
//! from physical to storage coordinates, and the boundary-condition
//! appliers that refresh the ghost halo.
//!
//! Storage is an `ndarray` array per field, held behind a small trusted
//! surface (`FieldArray`): allocation, one-element reads and one-element
//! writes. Everything above that — indexing, halo copies, the appliers —
//! is verified against a sequence model of the storage.

use vstd::prelude::*;
use crate::types::Cons;
use crate::config::Boundary;

verus! {

/// Row-major two-dimensional storage of `u64`, backed by
/// `ndarray::Array2`. The array is held opaquely; its contents and shape
/// are spoken of through `field_elems`, `field_rows` and `field_cols`.
#[verifier::external_body]
pub struct FieldArray {
    arr: ndarray::Array2<u64>,
}

/// The elements of the array, row-major: the element at row `r`, column
/// `c` is at position `r * field_cols(a) + c`.
pub uninterp spec fn field_elems(a: &FieldArray) -> Seq<u64>;

/// The number of rows of the array.
pub uninterp spec fn field_rows(a: &FieldArray) -> nat;

/// The number of columns of the array.
pub uninterp spec fn field_cols(a: &FieldArray) -> nat;

impl FieldArray {
    /// A shape-consistent array: as many elements as the shape says.
    pub open spec fn wf(&self) -> bool {
        &&& field_elems(self).len() == field_rows(self) * field_cols(self)
        &&& field_rows(self) * field_cols(self) <= isize::MAX
        &&& field_rows(self) <= usize::MAX
        &&& field_cols(self) <= usize::MAX
    }

    /// Relies on `ndarray::Array2::zeros`: a `rows` by `cols` array of
    /// zeros, row-major (the crate's default layout). The shape guard
    /// inside the crate checks the product of the non-zero axis lengths,
    /// so each axis must be bounded on its own as well as the product.
    #[verifier::external_body]
    pub fn zeros(rows: usize, cols: usize) -> (r: FieldArray)
        requires
            rows * cols <= isize::MAX,
            rows <= isize::MAX,
            cols <= isize::MAX,
        ensures
            field_rows(&r) == rows,
            field_cols(&r) == cols,
            field_elems(&r) == Seq::new((rows * cols) as nat, |t: int| 0u64),
    {
        FieldArray { arr: ndarray::Array2::zeros((rows, cols)) }
    }

    /// Relies on `ndarray`'s `Index` implementation for `[row, col]`
    /// pairs: the element at that position of the row-major layout.
    #[verifier::external_body]
    pub fn get(&self, r: usize, c: usize) -> (v: u64)
        requires
            self.wf(),
            r < field_rows(self),
            c < field_cols(self),
        ensures
            v == field_elems(self)[r * field_cols(self) + c],
    {
        self.arr[[r, c]]
    }

    /// Relies on `ndarray`'s `IndexMut` implementation for `[row, col]`
    /// pairs: replaces the element at that position, touching nothing
    /// else.
    #[verifier::external_body]
    pub fn set(&mut self, r: usize, c: usize, v: u64)
        requires
            old(self).wf(),
            r < field_rows(old(self)),
            c < field_cols(old(self)),
        ensures
            field_rows(final(self)) == field_rows(old(self)),
            field_cols(final(self)) == field_cols(old(self)),
            field_elems(final(self)) == field_elems(old(self)).update(
                r * field_cols(old(self)) + c,
                v,
            ),
    {
        self.arr[[r, c]] = v;
    }
}

/// The element of a row-major physical-block copy that holds physical
/// cell `(i, j)` of a grid `nx` cells wide.
pub open spec fn phys_at(out: Seq<u64>, nx: nat, i: int, j: int) -> u64 {
    out[j * nx + i]
}

/// A row-major position inside the shape lies inside the flat storage.
pub proof fn lemma_idx_in_bounds(r: int, c: int, rows: int, cols: int)
    by (nonlinear_arith)
    requires
        0 <= r < rows,
        0 <= c < cols,
    ensures
        0 <= r * cols + c < rows * cols,
{
}

/// A row-major position of an earlier row lies strictly below the start
/// of the current row.
proof fn lemma_row_major_lt(nx: int, i2: int, j2: int, j: int)
    by (nonlinear_arith)
    requires
        0 <= i2 < nx,
        0 <= j2 < j,
    ensures
        0 <= j2 * nx + i2 < j * nx,
{
}

/// Distinct positions of the shape have distinct flat positions.
pub proof fn lemma_idx_injective(r1: int, c1: int, r2: int, c2: int, cols: int)
    by (nonlinear_arith)
    requires
        0 <= c1 < cols,
        0 <= c2 < cols,
        0 <= r1,
        0 <= r2,
        r1 * cols + c1 == r2 * cols + c2,
    ensures
        r1 == r2 && c1 == c2,
{
}

/// One of the four conservative fields, a closed enumeration in place of
/// selection by name.
#[derive(Clone, Copy, Debug, PartialEq, Eq, Structural)]
pub enum Field {
    /// Density.
    Rho,
    /// Momentum density along x.
    RhoU,
    /// Momentum density along y.
    RhoV,
    /// Total energy density.
    E,
}

/// The mathematical content of a grid: its physical extents, the ghost
/// width, and the four field contents, row-major over the padded shape.
pub ghost struct GridView {
    /// Physical cells along x.
    pub nx: nat,
    /// Physical cells along y.
    pub ny: nat,
    /// Ghost-cell width.
    pub ng: nat,
    /// Density contents.
    pub rho: Seq<u64>,
    /// x-momentum contents.
    pub rhou: Seq<u64>,
    /// y-momentum contents.
    pub rhov: Seq<u64>,
    /// Energy contents.
    pub e: Seq<u64>,
}

impl GridView {
    /// Storage rows: the physical height plus the halo.
    pub open spec fn rows(self) -> nat {
        self.ny + 2 * self.ng
    }

    /// Storage columns: the physical width plus the halo.
    pub open spec fn cols(self) -> nat {
        self.nx + 2 * self.ng
    }

    /// The four contents have exactly the padded shape, which fits the
    /// machine.
    pub open spec fn wf(self) -> bool {
        &&& self.rho.len() == self.rows() * self.cols()
        &&& self.rhou.len() == self.rows() * self.cols()
        &&& self.rhov.len() == self.rows() * self.cols()
        &&& self.e.len() == self.rows() * self.cols()
        &&& self.rows() * self.cols() <= isize::MAX
        &&& self.rows() <= usize::MAX
        &&& self.cols() <= usize::MAX
    }

    /// The contents of one field.
    pub open spec fn field(self, f: Field) -> Seq<u64> {
        match f {
            Field::Rho => self.rho,
            Field::RhoU => self.rhou,
            Field::RhoV => self.rhov,
            Field::E => self.e,
        }
    }

    /// The flat position of storage row `r`, column `c`.
    pub open spec fn idx(self, r: int, c: int) -> int {
        r * self.cols() + c
    }

    /// The conservative state stored at storage row `r`, column `c`.
    pub open spec fn cell(self, r: int, c: int) -> Cons {
        Cons {
            rho: self.rho[self.idx(r, c)],
            rhou: self.rhou[self.idx(r, c)],
            rhov: self.rhov[self.idx(r, c)],
            e: self.e[self.idx(r, c)],
        }
    }

    /// The conservative state of the physical cell `(i, j)`:
    /// `0 <= i < nx`, `0 <= j < ny`, offset into the padded storage by the
    /// ghost width on each axis.
    pub open spec fn phys_cell(self, i: int, j: int) -> Cons {
        self.cell(j + self.ng, i + self.ng)
    }
}

/// The storage row a boundary refresh reads for row `r`: periodic along
/// y under either policy. Physical rows read themselves.
pub open spec fn bc_src_row(ny: nat, ng: nat, r: int) -> int {
    if r < ng {
        r + ny
    } else if r >= ny + ng {
        r - ny
    } else {
        r
    }
}

/// The storage column a boundary refresh reads for column `c`: periodic
/// wrap-around, or the nearest physical column under the outflow
/// (zero-gradient) policy. Physical columns read themselves.
pub open spec fn bc_src_col(nx: nat, ng: nat, bc: Boundary, c: int) -> int {
    match bc {
        Boundary::Periodic => {
            if c < ng {
                c + nx
            } else if c >= nx + ng {
                c - nx
            } else {
                c
            }
        },
        Boundary::OutflowX => {
            if c < ng {
                ng as int
            } else if c >= nx + ng {
                nx + ng - 1
            } else {
                c
            }
        },
    }
}

/// The conservative state a boundary refresh leaves at storage position
/// `(r, c)`: the state at the source position, and so the state itself
/// on physical cells.
pub open spec fn bc_cell(v: GridView, bc: Boundary, r: int, c: int) -> Cons {
    v.cell(bc_src_row(v.ny, v.ng, r), bc_src_col(v.nx, v.ng, bc, c))
}

/// Whether storage position `(r, c)` lies in the ghost halo.
pub open spec fn is_ghost(v: GridView, r: int, c: int) -> bool {
    r < v.ng || r >= v.ny + v.ng || c < v.ng || c >= v.nx + v.ng
}

/// The ghost-cell grid: four fields over the padded shape, with the
/// physical extents and the ghost width kept for index translation.
pub struct Grid2D {
    /// Physical cells along x.
    pub nx: usize,
    /// Physical cells along y.
    pub ny: usize,
    /// Ghost-cell width.
    pub nghost: usize,
    /// Density.
    pub rho: FieldArray,
    /// Momentum density along x.
    pub rhou: FieldArray,
    /// Momentum density along y.
    pub rhov: FieldArray,
    /// Total energy density.
    pub e: FieldArray,
}

impl View for Grid2D {
    type V = GridView;

    open spec fn view(&self) -> GridView {
        GridView {
            nx: self.nx as nat,
            ny: self.ny as nat,
            ng: self.nghost as nat,
            rho: field_elems(&self.rho),
            rhou: field_elems(&self.rhou),
            rhov: field_elems(&self.rhov),
            e: field_elems(&self.e),
        }
    }
}

impl Grid2D {
    /// Each field array has the padded shape the extents describe.
    pub open spec fn wf(&self) -> bool {
        &&& self@.wf()
        &&& field_rows(&self.rho) == self@.rows() && field_cols(&self.rho) == self@.cols()
        &&& field_rows(&self.rhou) == self@.rows() && field_cols(&self.rhou) == self@.cols()
        &&& field_rows(&self.rhov) == self@.rows() && field_cols(&self.rhov) == self@.cols()
        &&& field_rows(&self.e) == self@.rows() && field_cols(&self.e) == self@.cols()
    }

    /// Allocates a zero-initialized grid of `nx` by `ny` physical cells
    /// with a halo of `nghost` cells on every side.
    pub fn new(nx: usize, ny: usize, nghost: usize) -> (g: Grid2D)
        requires
            (ny + 2 * nghost) * (nx + 2 * nghost) <= isize::MAX,
            ny + 2 * nghost <= isize::MAX,
            nx + 2 * nghost <= isize::MAX,
        ensures
            g.wf(),
            g@.nx == nx,
            g@.ny == ny,
            g@.ng == nghost,
            g@.rho == Seq::new(g@.rows() * g@.cols(), |t: int| 0u64),
            g@.rhou == Seq::new(g@.rows() * g@.cols(), |t: int| 0u64),
            g@.rhov == Seq::new(g@.rows() * g@.cols(), |t: int| 0u64),
            g@.e == Seq::new(g@.rows() * g@.cols(), |t: int| 0u64),
    {
        let rows = ny + 2 * nghost;
        let cols = nx + 2 * nghost;
        Grid2D {
            nx,
            ny,
            nghost,
            rho: FieldArray::zeros(rows, cols),
            rhou: FieldArray::zeros(rows, cols),
            rhov: FieldArray::zeros(rows, cols),
            e: FieldArray::zeros(rows, cols),
        }
    }

    /// Translates physical coordinates `(i, j)` — `i` along x, `j` along
    /// y — to the storage coordinates `(row, col)` of the padded arrays.
    pub fn idx_with_ghost(&self, i: usize, j: usize) -> (rc: (usize, usize))
        requires
            self.wf(),
            i < self@.nx,
            j < self@.ny,
        ensures
            rc.0 == j + self@.ng,
            rc.1 == i + self@.ng,
    {
        (j + self.nghost, i + self.nghost)
    }

    /// Reads one element of one field at storage coordinates.
    pub fn get(&self, f: Field, r: usize, c: usize) -> (v: u64)
        requires
            self.wf(),
            r < self@.rows(),
            c < self@.cols(),
        ensures
            v == self@.field(f)[self@.idx(r as int, c as int)],
    {
        match f {
            Field::Rho => self.rho.get(r, c),
            Field::RhoU => self.rhou.get(r, c),
            Field::RhoV => self.rhov.get(r, c),
            Field::E => self.e.get(r, c),
        }
    }

    /// Reads the conservative state at storage coordinates.
    pub fn cell(&self, r: usize, c: usize) -> (v: Cons)
        requires
            self.wf(),
            r < self@.rows(),
            c < self@.cols(),
        ensures
            v == self@.cell(r as int, c as int),
    {
        Cons {
            rho: self.rho.get(r, c),
            rhou: self.rhou.get(r, c),
            rhov: self.rhov.get(r, c),
            e: self.e.get(r, c),
        }
    }

    /// Writes the conservative state at storage coordinates.
    pub fn set_cell(&mut self, r: usize, c: usize, v: Cons)
        requires
            old(self).wf(),
            r < old(self)@.rows(),
            c < old(self)@.cols(),
        ensures
            final(self).wf(),
            final(self)@.nx == old(self)@.nx,
            final(self)@.ny == old(self)@.ny,
            final(self)@.ng == old(self)@.ng,
            final(self)@.rho == old(self)@.rho.update(old(self)@.idx(r as int, c as int), v.rho),
            final(self)@.rhou == old(self)@.rhou.update(old(self)@.idx(r as int, c as int), v.rhou),
            final(self)@.rhov == old(self)@.rhov.update(old(self)@.idx(r as int, c as int), v.rhov),
            final(self)@.e == old(self)@.e.update(old(self)@.idx(r as int, c as int), v.e),
    {
        proof {
            lemma_idx_in_bounds(
                r as int,
                c as int,
                old(self)@.rows() as int,
                old(self)@.cols() as int,
            );
        }
        self.rho.set(r, c, v.rho);
        self.rhou.set(r, c, v.rhou);
        self.rhov.set(r, c, v.rhov);
        self.e.set(r, c, v.e);
    }

    /// Refreshes every ghost cell from its boundary source under the
    /// given policy, leaving the physical block untouched: afterwards
    /// every storage position holds its `bc_cell` value. The halo must
    /// not be wider than the physical extents, so that every source is a
    /// physical cell.
    pub fn apply_boundary(&mut self, bc: Boundary)
        requires
            old(self).wf(),
            old(self)@.ng <= old(self)@.nx,
            old(self)@.ng <= old(self)@.ny,
        ensures
            final(self).wf(),
            final(self)@.nx == old(self)@.nx,
            final(self)@.ny == old(self)@.ny,
            final(self)@.ng == old(self)@.ng,
            forall|r: int, c: int|
                0 <= r < old(self)@.rows() && 0 <= c < old(self)@.cols() ==> #[trigger] final(self)@.cell(r, c) == bc_cell(old(self)@, bc, r, c),
    {
        let rows = self.ny + 2 * self.nghost;
        let cols = self.nx + 2 * self.nghost;
        let ng = self.nghost;
        let nx = self.nx;
        let ny = self.ny;
        let ghost v0 = self@;
        let mut r: usize = 0;
        while r < rows
            invariant
                self.wf(),
                self@.nx == v0.nx && self@.ny == v0.ny && self@.ng == v0.ng,
                rows == v0.rows() && cols == v0.cols(),
                ng == v0.ng && nx == v0.nx && ny == v0.ny,
                v0.ng <= v0.nx && v0.ng <= v0.ny,
                r <= rows,
                forall|r2: int, c2: int|
                    0 <= r2 < v0.rows() && 0 <= c2 < v0.cols() ==> #[trigger] self@.cell(r2, c2)
                        == (if r2 < r {
                        bc_cell(v0, bc, r2, c2)
                    } else {
                        v0.cell(r2, c2)
                    }),
            decreases rows - r,
        {
            let mut c: usize = 0;
            while c < cols
                invariant
                    self.wf(),
                    self@.nx == v0.nx && self@.ny == v0.ny && self@.ng == v0.ng,
                    rows == v0.rows() && cols == v0.cols(),
                    ng == v0.ng && nx == v0.nx && ny == v0.ny,
                    v0.ng <= v0.nx && v0.ng <= v0.ny,
                    r < rows,
                    c <= cols,
                    forall|r2: int, c2: int|
                        0 <= r2 < v0.rows() && 0 <= c2 < v0.cols() ==> #[trigger] self@.cell(
                            r2,
                            c2,
                        ) == (if r2 < r || (r2 == r && c2 < c) {
                            bc_cell(v0, bc, r2, c2)
                        } else {
                            v0.cell(r2, c2)
                        }),
                decreases cols - c,
            {
                if r < ng || r >= ny + ng || c < ng || c >= nx + ng {
                    let sr = if r < ng {
                        r + ny
                    } else if r >= ny + ng {
                        r - ny
                    } else {
                        r
                    };
                    let sc = match bc {
                        Boundary::Periodic => {
                            if c < ng {
                                c + nx
                            } else if c >= nx + ng {
                                c - nx
                            } else {
                                c
                            }
                        },
                        Boundary::OutflowX => {
                            if c < ng {
                                ng
                            } else if c >= nx + ng {
                                nx + ng - 1
                            } else {
                                c
                            }
                        },
                    };
                    proof {
                        assert(sr == bc_src_row(v0.ny, v0.ng, r as int));
                        assert(sc == bc_src_col(v0.nx, v0.ng, bc, c as int));
                        assert(v0.ng <= sr < v0.ny + v0.ng);
                        assert(v0.ng <= sc < v0.nx + v0.ng);
                    }
                    let v = self.cell(sr, sc);
                    proof {
                        assert(v == v0.cell(sr as int, sc as int));
                        assert(v == bc_cell(v0, bc, r as int, c as int));
                    }
                    let ghost prev = self@;
                    self.set_cell(r, c, v);
                    proof {
                        lemma_idx_in_bounds(
                            r as int,
                            c as int,
                            v0.rows() as int,
                            v0.cols() as int,
                        );
                        assert forall|r2: int, c2: int|
                            0 <= r2 < v0.rows() && 0 <= c2 < v0.cols() implies #[trigger] self@.cell(
                            r2,
                            c2,
                        ) == (if r2 < r || (r2 == r && c2 < c + 1) {
                            bc_cell(v0, bc, r2, c2)
                        } else {
                            v0.cell(r2, c2)
                        }) by {
                            lemma_idx_in_bounds(r2, c2, v0.rows() as int, v0.cols() as int);
                            if r2 == r && c2 == c {
                                assert(self@.cell(r2, c2) == v);
                            } else {
                                if v0.idx(r2, c2) == v0.idx(r as int, c as int) {
                                    lemma_idx_injective(
                                        r2,
                                        c2,
                                        r as int,
                                        c as int,
                                        v0.cols() as int,
                                    );
                                }
                                assert(self@.cell(r2, c2) == prev.cell(r2, c2));
                            }
                        }
                    }
                } else {
                    proof {
                        assert(bc_cell(v0, bc, r as int, c as int) == v0.cell(r as int, c as int));
                    }
                }
                c = c + 1;
            }
            r = r + 1;
        }
    }

    /// Applies the periodic boundary on both axes: ghost columns wrap
    /// around along x and ghost rows along y, corners included.
    pub fn apply_periodic_boundary(&mut self)
        requires
            old(self).wf(),
            old(self)@.ng <= old(self)@.nx,
            old(self)@.ng <= old(self)@.ny,
        ensures
            final(self).wf(),
            final(self)@.nx == old(self)@.nx,
            final(self)@.ny == old(self)@.ny,
            final(self)@.ng == old(self)@.ng,
            forall|r: int, c: int|
                0 <= r < old(self)@.rows() && 0 <= c < old(self)@.cols() ==> #[trigger] final(self)@.cell(r, c) == bc_cell(old(self)@, Boundary::Periodic, r, c),
    {
        self.apply_boundary(Boundary::Periodic)
    }

    /// Applies the outflow (zero-gradient) boundary along x and the
    /// periodic boundary along y: the shock-tube setup.
    pub fn apply_outflow_boundary(&mut self)
        requires
            old(self).wf(),
            old(self)@.ng <= old(self)@.nx,
            old(self)@.ng <= old(self)@.ny,
        ensures
            final(self).wf(),
            final(self)@.nx == old(self)@.nx,
            final(self)@.ny == old(self)@.ny,
            final(self)@.ng == old(self)@.ng,
            forall|r: int, c: int|
                0 <= r < old(self)@.rows() && 0 <= c < old(self)@.cols() ==> #[trigger] final(self)@.cell(r, c) == bc_cell(old(self)@, Boundary::OutflowX, r, c),
    {
        self.apply_boundary(Boundary::OutflowX)
    }

    /// A copy of the physical sub-block of one field, row-major by
    /// physical coordinates: `phys_at(out, nx, i, j)` holds physical cell
    /// `(i, j)`. This is the read access the storage collaborator needs.
    pub fn physical_field(&self, f: Field) -> (out: Vec<u64>)
        requires
            self.wf(),
        ensures
            out.len() == self@.ny * self@.nx,
            forall|i: int, j: int|
                0 <= i < self@.nx && 0 <= j < self@.ny ==> #[trigger] phys_at(
                    out@,
                    self@.nx,
                    i,
                    j,
                ) == self@.field(f)[self@.idx(j + self@.ng, i + self@.ng)],
    {
        let mut out: Vec<u64> = Vec::new();
        let mut j: usize = 0;
        while j < self.ny
            invariant
                self.wf(),
                j <= self@.ny,
                out.len() == j * self@.nx,
                forall|i2: int, j2: int|
                    0 <= i2 < self@.nx && 0 <= j2 < j ==> #[trigger] phys_at(
                        out@,
                        self@.nx,
                        i2,
                        j2,
                    ) == self@.field(f)[self@.idx(j2 + self@.ng, i2 + self@.ng)],
            decreases self@.ny - j,
        {
            let mut i: usize = 0;
            while i < self.nx
                invariant
                    self.wf(),
                    j < self@.ny,
                    i <= self@.nx,
                    out.len() == j * self@.nx + i,
                    forall|i2: int, j2: int|
                        0 <= i2 < self@.nx && 0 <= j2 < j ==> #[trigger] phys_at(
                            out@,
                            self@.nx,
                            i2,
                            j2,
                        ) == self@.field(f)[self@.idx(j2 + self@.ng, i2 + self@.ng)],
                    forall|i2: int|
                        0 <= i2 < i ==> #[trigger] phys_at(out@, self@.nx, i2, j as int)
                            == self@.field(f)[self@.idx(j + self@.ng, i2 + self@.ng)],
                decreases self@.nx - i,
            {
                let (r, c) = self.idx_with_ghost(i, j);
                let ghost prev = out@;
                let v = self.get(f, r, c);
                out.push(v);
                proof {
                    assert forall|i2: int, j2: int| 0 <= i2 < self@.nx && 0 <= j2 < j implies
                        #[trigger] phys_at(out@, self@.nx, i2, j2) == self@.field(f)[self@.idx(
                        j2 + self@.ng,
                        i2 + self@.ng,
                    )] by {
                        lemma_row_major_lt(self@.nx as int, i2, j2, j as int);
                        assert(phys_at(out@, self@.nx, i2, j2) == phys_at(
                            prev,
                            self@.nx,
                            i2,
                            j2,
                        ));
                    }
                    assert forall|i2: int| 0 <= i2 < i + 1 implies #[trigger] phys_at(
                        out@,
                        self@.nx,
                        i2,
                        j as int,
                    ) == self@.field(f)[self@.idx(j + self@.ng, i2 + self@.ng)] by {
                        if i2 < i {
                            assert(phys_at(out@, self@.nx, i2, j as int) == phys_at(
                                prev,
                                self@.nx,
                                i2,
                                j as int,
                            ));
                        } else {
                            assert(j * self@.nx + i2 == prev.len());
                        }
                    }
                }
                i = i + 1;
            }
            proof {
                assert((j + 1) * self@.nx == j * self@.nx + self@.nx) by (nonlinear_arith);
            }
            j = j + 1;
        }
        out
    }
}

} // verus!
