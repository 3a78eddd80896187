//! Points, placements, grid geometry and the arithmetic that maps a point to a cell.
use vstd::prelude::*;
use vstd::arithmetic::div_mod::lemma_fundamental_div_mod;
use vstd::arithmetic::div_mod::lemma_fundamental_div_mod_converse;

verus! {

/// A world-space point in homogeneous coordinates: it stands for `(x / w, y / w)`.
/// A point with `w == 0` lies at infinity and belongs to no cell.
#[derive(Clone, Copy, Debug, PartialEq, Eq, Structural)]
pub struct WorldPoint {
    pub x: i64,
    pub y: i64,
    pub w: u32,
}

impl WorldPoint {
    /// The point `(x, y)`.
    pub fn new(x: i64, y: i64) -> (r: WorldPoint)
        ensures
            r.x == x,
            r.y == y,
            r.w == 1,
    {
        WorldPoint { x, y, w: 1 }
    }
}

/// An affine placement of a grid in world space: a grid-local point `l` lies at
/// `M * l + t` in the world, with `M = [[m00, m01], [m10, m11]]` and `t = (tx, ty)`.
/// Rotation and scale are carried by `M` (in fixed point where needed).
#[derive(Clone, Copy, Debug, PartialEq, Eq, Structural)]
pub struct Placement {
    pub m00: i16,
    pub m01: i16,
    pub m10: i16,
    pub m11: i16,
    pub tx: i32,
    pub ty: i32,
}

impl Placement {
    /// The placement that leaves grid-local space where it is.
    pub fn identity() -> (r: Placement)
        ensures
            r.m00 == 1 && r.m01 == 0 && r.m10 == 0 && r.m11 == 1,
            r.tx == 0 && r.ty == 0,
    {
        Placement { m00: 1, m01: 0, m10: 0, m11: 1, tx: 0, ty: 0 }
    }

    /// A pure translation by `(tx, ty)`.
    pub fn translation(tx: i32, ty: i32) -> (r: Placement)
        ensures
            r.m00 == 1 && r.m01 == 0 && r.m10 == 0 && r.m11 == 1,
            r.tx == tx && r.ty == ty,
    {
        Placement { m00: 1, m01: 0, m10: 0, m11: 1, tx, ty }
    }
}

/// How grid-local space is divided into cells.
#[derive(Clone, Copy, Debug, PartialEq, Eq, Structural)]
pub enum CoordinateSystem {
    /// Axis-aligned rectangles; cell `(x, y)` covers `[x*cw, (x+1)*cw) x [y*ch, (y+1)*ch)`.
    Orthogonal,
    /// Rhombi `cw` wide and `ch` high; cell `(x, y)` is centred on
    /// `((x + y) * cw / 2, (y - x) * ch / 2)`, so cell `(0, 0)` is centred on the origin.
    IsometricDiamond,
}

/// The fixed shape of a grid: its size in cells, the size of one cell in grid-local units,
/// and its coordinate system.
#[derive(Clone, Copy, Debug, PartialEq, Eq, Structural)]
pub struct GridGeometry {
    pub width: u16,
    pub height: u16,
    pub cell_width: u16,
    pub cell_height: u16,
    pub system: CoordinateSystem,
}

/// A cell coordinate of a grid.
#[derive(Clone, Copy, Debug, PartialEq, Eq, Structural)]
pub struct CellCoord {
    pub x: u16,
    pub y: u16,
}

pub open spec fn det(p: Placement) -> int {
    p.m00 * p.m11 - p.m01 * p.m10
}

/// A placement can be inverted exactly when its linear part is not singular.
pub open spec fn invertible(p: Placement) -> bool {
    det(p) != 0
}

/// Both the grid size and the cell size are positive.
pub open spec fn valid_geometry(g: GridGeometry) -> bool {
    g.width > 0 && g.height > 0 && g.cell_width > 0 && g.cell_height > 0
}

pub open spec fn in_bounds(g: GridGeometry, x: int, y: int) -> bool {
    0 <= x < g.width && 0 <= y < g.height
}

/// `floor(n / d)` for a non-zero `d` of either sign.
pub open spec fn floor_ratio(n: int, d: int) -> int {
    if d > 0 {
        n / d
    } else {
        (-n) / (-d)
    }
}

/// The grid-local point of the world point `(x / w, y / w)` is `(nx / den, ny / den)`, where
/// `(nx, ny, den)` is given here: the inverse of `M` is its adjugate divided by `det(M)`.
pub open spec fn local_point(p: Placement, x: int, y: int, w: int) -> (int, int, int) {
    let dx = x - w * p.tx;
    let dy = y - w * p.ty;
    (p.m11 * dx - p.m01 * dy, p.m00 * dy - p.m10 * dx, w * det(p))
}

/// Each axis of the cell that holds a grid-local point, as a fraction whose floor is that
/// axis's coordinate: `(num_x, den_x, num_y, den_y)`.
///
/// Orthogonal: `x = floor(lx / cw)`, `y = floor(ly / ch)`.
/// Isometric diamond: `x = floor(lx / cw - ly / ch + 1/2)`, `y = floor(lx / cw + ly / ch + 1/2)`.
pub open spec fn axis_fractions(g: GridGeometry, nx: int, ny: int, den: int) -> (int, int, int, int) {
    let cw = g.cell_width as int;
    let ch = g.cell_height as int;
    match g.system {
        CoordinateSystem::Orthogonal => (nx, den * cw, ny, den * ch),
        CoordinateSystem::IsometricDiamond => (
            2 * nx * ch - 2 * ny * cw + den * cw * ch,
            2 * den * cw * ch,
            2 * nx * ch + 2 * ny * cw + den * cw * ch,
            2 * den * cw * ch,
        ),
    }
}

/// The fractions of `axis_fractions` for the world point `(x / w, y / w)`.
pub open spec fn point_fractions(g: GridGeometry, p: Placement, x: int, y: int, w: int) -> (int, int, int, int) {
    let l = local_point(p, x, y, w);
    axis_fractions(g, l.0, l.1, l.2)
}

/// The cell coordinate, possibly outside the grid, that holds the world point `(x / w, y / w)`.
pub open spec fn candidate_cell(g: GridGeometry, p: Placement, x: int, y: int, w: int) -> (int, int) {
    let f = point_fractions(g, p, x, y, w);
    (floor_ratio(f.0, f.1), floor_ratio(f.2, f.3))
}

/// The cell of the grid that holds the world point `(x / w, y / w)`, if any.
pub open spec fn locate_at(g: GridGeometry, p: Placement, x: int, y: int, w: int) -> Option<(int, int)> {
    let c = candidate_cell(g, p, x, y, w);
    if w != 0 && in_bounds(g, c.0, c.1) {
        Some(c)
    } else {
        None
    }
}

pub open spec fn locate_point(g: GridGeometry, p: Placement, pt: WorldPoint) -> Option<(int, int)> {
    locate_at(g, p, pt.x as int, pt.y as int, pt.w as int)
}

/// Twice the grid-local centre of cell `(x, y)`.
pub open spec fn twice_local_center(g: GridGeometry, x: int, y: int) -> (int, int) {
    let cw = g.cell_width as int;
    let ch = g.cell_height as int;
    match g.system {
        CoordinateSystem::Orthogonal => ((2 * x + 1) * cw, (2 * y + 1) * ch),
        CoordinateSystem::IsometricDiamond => ((x + y) * cw, (y - x) * ch),
    }
}

/// The world centre of cell `(x, y)` in homogeneous coordinates, with `w == 2`.
pub open spec fn world_center(g: GridGeometry, p: Placement, x: int, y: int) -> (int, int, int) {
    let c = twice_local_center(g, x, y);
    (p.m00 * c.0 + p.m01 * c.1 + 2 * p.tx, p.m10 * c.0 + p.m11 * c.1 + 2 * p.ty, 2)
}


/// `q <= n / d < q + 1`, for a non-zero `d` of either sign.
pub open spec fn within_unit(n: int, d: int, q: int) -> bool {
    if d > 0 {
        q * d <= n < q * d + d
    } else {
        q * d >= n > q * d + d
    }
}

/// `floor_ratio(n, d)` is the one integer `q` with `q <= n / d < q + 1`.
pub proof fn lemma_floor_ratio_unique(n: int, d: int, q: int)
    requires
        d != 0,
    ensures
        within_unit(n, d, floor_ratio(n, d)),
        within_unit(n, d, q) ==> q == floor_ratio(n, d),
{
    if d > 0 {
        lemma_fundamental_div_mod(n, d);
        assert(n == (n / d) * d + n % d) by (nonlinear_arith)
            requires n == d * (n / d) + n % d;
        if within_unit(n, d, q) {
            lemma_fundamental_div_mod_converse(n, d, q, n - q * d);
        }
    } else {
        let nn = -n;
        let dd = -d;
        lemma_fundamental_div_mod(nn, dd);
        let f = nn / dd;
        assert(f * d >= n > f * d + d) by (nonlinear_arith)
            requires nn == dd * f + nn % dd, 0 <= nn % dd < dd, nn == -n, dd == -d;
        if within_unit(n, d, q) {
            assert(nn == q * dd + (nn - q * dd) && 0 <= nn - q * dd < dd) by (nonlinear_arith)
                requires q * d >= n > q * d + d, nn == -n, dd == -d;
            lemma_fundamental_div_mod_converse(nn, dd, q, nn - q * dd);
        }
    }
}

/// `floor((2i + 1) / 2) == i`, written over any non-zero common factor `k`.
pub proof fn lemma_floor_half_odd(k: int, i: int)
    requires
        k != 0,
    ensures
        floor_ratio(k * (2 * i + 1), 2 * k) == i,
{
    assert(within_unit(k * (2 * i + 1), 2 * k, i)) by (nonlinear_arith)
        requires k != 0;
    lemma_floor_ratio_unique(k * (2 * i + 1), 2 * k, i);
}

/// Bounds on the quotient of a floor division by a positive divisor.
proof fn lemma_quotient_range(n: int, d: int)
    requires
        d > 0,
    ensures
        n >= 0 ==> 0 <= n / d <= n,
        n < 0 ==> n <= n / d < 0,
{
    lemma_fundamental_div_mod(n, d);
    let q = n / d;
    let r = n % d;
    assert(n >= 0 ==> 0 <= q <= n) by (nonlinear_arith)
        requires n == d * q + r, 0 <= r < d, d > 0;
    assert(n < 0 ==> n <= q < 0) by (nonlinear_arith)
        requires n == d * q + r, 0 <= r < d, d > 0;
}

/// `floor(n / d)` on machine integers.
fn floor_div(n: i128, d: i128) -> (q: i128)
    requires
        d != 0,
        -0x1_0000_0000_0000_0000_0000_0000_0000 <= n <= 0x1_0000_0000_0000_0000_0000_0000_0000,
        -0x1_0000_0000_0000_0000_0000_0000_0000 <= d <= 0x1_0000_0000_0000_0000_0000_0000_0000,
    ensures
        q == floor_ratio(n as int, d as int),
{
    let nn: i128 = if d > 0 { n } else { -n };
    let dd: i128 = if d > 0 { d } else { -d };
    proof {
        lemma_quotient_range(nn as int, dd as int);
    }
    match nn.checked_div_euclid(dd) {
        Some(q) => q,
        None => 0,
    }
}

proof fn lemma_mul_bound(a: int, b: int, ba: int, bb: int)
    requires
        -ba <= a <= ba,
        -bb <= b <= bb,
    ensures
        -(ba * bb) <= a * b <= ba * bb,
{
    assert(-(ba * bb) <= a * b <= ba * bb) by (nonlinear_arith)
        requires -ba <= a <= ba, -bb <= b <= bb;
}

/// Whether the placement can be inverted.
pub fn is_invertible(p: &Placement) -> (r: bool)
    ensures
        r == invertible(*p),
{
    proof {
        lemma_mul_bound(p.m00 as int, p.m11 as int, 0x8000, 0x8000);
        lemma_mul_bound(p.m01 as int, p.m10 as int, 0x8000, 0x8000);
    }
    p.m00 as i64 * p.m11 as i64 - p.m01 as i64 * p.m10 as i64 != 0
}

/// The cell of the grid that holds `pt`, if any.
pub fn locate(g: &GridGeometry, p: &Placement, pt: &WorldPoint) -> (r: Option<CellCoord>)
    requires
        valid_geometry(*g),
        invertible(*p),
    ensures
        locate_point(*g, *p, *pt) == match r {
            Some(c) => Some((c.x as int, c.y as int)),
            None => None::<(int, int)>,
        },
{
    if pt.w == 0 {
        return None;
    }
    let w = pt.w as i128;
    let tx = p.tx as i128;
    let ty = p.ty as i128;
    proof {
        lemma_mul_bound(w as int, tx as int, 0x1_0000_0000, 0x8000_0000);
        lemma_mul_bound(w as int, ty as int, 0x1_0000_0000, 0x8000_0000);
    }
    let dx = pt.x as i128 - w * tx;
    let dy = pt.y as i128 - w * ty;
    let m00 = p.m00 as i128;
    let m01 = p.m01 as i128;
    let m10 = p.m10 as i128;
    let m11 = p.m11 as i128;
    proof {
        lemma_mul_bound(m11 as int, dx as int, 0x8000, 0x1_0000_0000_0000_0000);
        lemma_mul_bound(m01 as int, dy as int, 0x8000, 0x1_0000_0000_0000_0000);
        lemma_mul_bound(m00 as int, dy as int, 0x8000, 0x1_0000_0000_0000_0000);
        lemma_mul_bound(m10 as int, dx as int, 0x8000, 0x1_0000_0000_0000_0000);
        lemma_mul_bound(m00 as int, m11 as int, 0x8000, 0x8000);
        lemma_mul_bound(m01 as int, m10 as int, 0x8000, 0x8000);
    }
    let nx = m11 * dx - m01 * dy;
    let ny = m00 * dy - m10 * dx;
    let det = m00 * m11 - m01 * m10;
    proof {
        lemma_mul_bound(w as int, det as int, 0x1_0000_0000, 0x8000_0000);
        assert(w * det != 0) by (nonlinear_arith)
            requires w > 0, det != 0;
    }
    let den = w * det;
    let cw = g.cell_width as i128;
    let ch = g.cell_height as i128;
    proof {
        lemma_mul_bound(den as int, cw as int, 0x8000_0000_0000_0000, 0x1_0000);
        lemma_mul_bound(den as int, ch as int, 0x8000_0000_0000_0000, 0x1_0000);
        lemma_mul_bound(den * cw, ch as int, 0x8000_0000_0000_0000_0000, 0x1_0000);
        lemma_mul_bound(nx as int, ch as int, 0x2_0000_0000_0000_0000_0000, 0x1_0000);
        lemma_mul_bound(ny as int, cw as int, 0x2_0000_0000_0000_0000_0000, 0x1_0000);
        assert(den * cw != 0 && den * ch != 0 && den * cw * ch != 0) by (nonlinear_arith)
            requires den != 0, cw > 0, ch > 0;
        assert(2 * nx * ch == 2 * (nx * ch) && 2 * ny * cw == 2 * (ny * cw)
            && 2 * den * cw * ch == 2 * (den * cw * ch)) by (nonlinear_arith);
    }
    let (ax, bx, ay, by) = match g.system {
        CoordinateSystem::Orthogonal => (nx, den * cw, ny, den * ch),
        CoordinateSystem::IsometricDiamond => {
            let e = den * cw * ch;
            (2 * (nx * ch) - 2 * (ny * cw) + e, 2 * e, 2 * (nx * ch) + 2 * (ny * cw) + e, 2 * e)
        },
    };
    let cx = floor_div(ax, bx);
    let cy = floor_div(ay, by);
    if 0 <= cx && cx < g.width as i128 && 0 <= cy && cy < g.height as i128 {
        Some(CellCoord { x: cx as u16, y: cy as u16 })
    } else {
        None
    }
}


/// The world centre of cell `c`, in homogeneous coordinates (`w == 2`).
pub fn cell_center(g: &GridGeometry, p: &Placement, c: CellCoord) -> (r: WorldPoint)
    ensures
        (r.x as int, r.y as int, r.w as int) == world_center(*g, *p, c.x as int, c.y as int),
{
    let x = c.x as i64;
    let y = c.y as i64;
    let cw = g.cell_width as i64;
    let ch = g.cell_height as i64;
    proof {
        lemma_mul_bound(2 * x + 1, cw as int, 0x2_0000, 0x1_0000);
        lemma_mul_bound(2 * y + 1, ch as int, 0x2_0000, 0x1_0000);
        lemma_mul_bound(x + y, cw as int, 0x2_0000, 0x1_0000);
        lemma_mul_bound(y - x, ch as int, 0x2_0000, 0x1_0000);
    }
    let (a, b) = match g.system {
        CoordinateSystem::Orthogonal => ((2 * x + 1) * cw, (2 * y + 1) * ch),
        CoordinateSystem::IsometricDiamond => ((x + y) * cw, (y - x) * ch),
    };
    proof {
        lemma_mul_bound(p.m00 as int, a as int, 0x8000, 0x2_0000_0000);
        lemma_mul_bound(p.m01 as int, b as int, 0x8000, 0x2_0000_0000);
        lemma_mul_bound(p.m10 as int, a as int, 0x8000, 0x2_0000_0000);
        lemma_mul_bound(p.m11 as int, b as int, 0x8000, 0x2_0000_0000);
    }
    WorldPoint {
        x: p.m00 as i64 * a + p.m01 as i64 * b + 2 * (p.tx as i64),
        y: p.m10 as i64 * a + p.m11 as i64 * b + 2 * (p.ty as i64),
        w: 2,
    }
}

/// The world centre of every cell of the grid is located in that same cell.
pub proof fn lemma_center_round_trip(g: GridGeometry, p: Placement, x: int, y: int)
    requires
        valid_geometry(g),
        invertible(p),
        in_bounds(g, x, y),
    ensures
        ({
            let c = world_center(g, p, x, y);
            locate_at(g, p, c.0, c.1, c.2) == Some((x, y))
        }),
{
    let c = twice_local_center(g, x, y);
    let wc = world_center(g, p, x, y);
    let l = local_point(p, wc.0, wc.1, wc.2);
    let d = det(p);
    let (m00, m01, m10, m11) = (p.m00 as int, p.m01 as int, p.m10 as int, p.m11 as int);
    assert(l.0 == d * c.0 && l.1 == d * c.1 && l.2 == 2 * d) by (nonlinear_arith)
        requires
            l == local_point(p, wc.0, wc.1, wc.2),
            wc.0 == m00 * c.0 + m01 * c.1 + 2 * p.tx,
            wc.1 == m10 * c.0 + m11 * c.1 + 2 * p.ty,
            wc.2 == 2,
            d == m00 * m11 - m01 * m10,
            l.0 == m11 * (wc.0 - wc.2 * p.tx) - m01 * (wc.1 - wc.2 * p.ty),
            l.1 == m00 * (wc.1 - wc.2 * p.ty) - m10 * (wc.0 - wc.2 * p.tx),
            l.2 == wc.2 * d,
    ;
    let f = axis_fractions(g, l.0, l.1, l.2);
    let cw = g.cell_width as int;
    let ch = g.cell_height as int;
    match g.system {
        CoordinateSystem::Orthogonal => {
            let kx = d * cw;
            let ky = d * ch;
            assert(f.0 == kx * (2 * x + 1) && f.1 == 2 * kx && f.2 == ky * (2 * y + 1)
                && f.3 == 2 * ky && kx != 0 && ky != 0) by (nonlinear_arith)
                requires
                    f == (l.0, l.2 * cw, l.1, l.2 * ch),
                    l.0 == d * c.0, l.1 == d * c.1, l.2 == 2 * d,
                    c == ((2 * x + 1) * cw, (2 * y + 1) * ch),
                    kx == d * cw, ky == d * ch, d != 0, cw > 0, ch > 0;
            lemma_floor_half_odd(kx, x);
            lemma_floor_half_odd(ky, y);
            assert(floor_ratio(f.0, f.1) == x);
            assert(floor_ratio(f.2, f.3) == y);
            assert(candidate_cell(g, p, wc.0, wc.1, wc.2) == (x, y));
        },
        CoordinateSystem::IsometricDiamond => {
            let e = d * cw * ch;
            let k = 2 * e;
            assert(l.0 * ch == (x + y) * e) by (nonlinear_arith)
                requires l.0 == d * c.0, c.0 == (x + y) * cw, e == d * cw * ch;
            assert(l.1 * cw == (y - x) * e) by (nonlinear_arith)
                requires l.1 == d * c.1, c.1 == (y - x) * ch, e == d * cw * ch;
            assert(l.2 * cw * ch == 2 * e) by (nonlinear_arith)
                requires l.2 == 2 * d, e == d * cw * ch;
            assert(2 * l.0 * ch == 2 * (l.0 * ch) && 2 * l.1 * cw == 2 * (l.1 * cw)
                && 2 * l.2 * cw * ch == 2 * (l.2 * cw * ch)) by (nonlinear_arith);
            assert(e != 0) by (nonlinear_arith)
                requires e == d * cw * ch, d != 0, cw > 0, ch > 0;
            assert(k * (2 * x + 1) == 2 * ((x + y) * e) - 2 * ((y - x) * e) + 2 * e
                && k * (2 * y + 1) == 2 * ((x + y) * e) + 2 * ((y - x) * e) + 2 * e) by (nonlinear_arith)
                requires k == 2 * e;
            lemma_floor_half_odd(k, x);
            lemma_floor_half_odd(k, y);
        },
    }
}

/// Each coordinate of the candidate cell is the one integer `q` with `q <= t < q + 1`, where
/// `t` is the point's exact position along that axis in cell units: every point has exactly
/// one cell, and a point on the edge between two cells belongs to the one of higher index.
pub proof fn lemma_cells_are_half_open(g: GridGeometry, p: Placement, x: int, y: int, w: int, qx: int, qy: int)
    requires
        valid_geometry(g),
        invertible(p),
        w != 0,
    ensures
        ({
            let f = point_fractions(g, p, x, y, w);
            let c = candidate_cell(g, p, x, y, w);
            &&& within_unit(f.0, f.1, c.0)
            &&& within_unit(f.2, f.3, c.1)
            &&& within_unit(f.0, f.1, qx) ==> qx == c.0
            &&& within_unit(f.2, f.3, qy) ==> qy == c.1
        }),
{
    let f = point_fractions(g, p, x, y, w);
    lemma_fractions_nonzero(g, p, x, y, w);
    lemma_floor_ratio_unique(f.0, f.1, qx);
    lemma_floor_ratio_unique(f.2, f.3, qy);
}

/// A point whose position along an axis is exactly the integer `k` (the edge between cells
/// `k - 1` and `k` along that axis) gets coordinate `k` on that axis.
pub proof fn lemma_boundary_goes_to_higher_cell(g: GridGeometry, p: Placement, x: int, y: int, w: int, k: int)
    requires
        valid_geometry(g),
        invertible(p),
        w != 0,
    ensures
        ({
            let f = point_fractions(g, p, x, y, w);
            let c = candidate_cell(g, p, x, y, w);
            &&& f.0 == k * f.1 ==> c.0 == k
            &&& f.2 == k * f.3 ==> c.1 == k
        }),
{
    let f = point_fractions(g, p, x, y, w);
    lemma_fractions_nonzero(g, p, x, y, w);
    assert(within_unit(k * f.1, f.1, k)) by (nonlinear_arith)
        requires f.1 != 0;
    assert(within_unit(k * f.3, f.3, k)) by (nonlinear_arith)
        requires f.3 != 0;
    lemma_floor_ratio_unique(f.0, f.1, k);
    lemma_floor_ratio_unique(f.2, f.3, k);
}

proof fn lemma_fractions_nonzero(g: GridGeometry, p: Placement, x: int, y: int, w: int)
    requires
        valid_geometry(g),
        invertible(p),
        w != 0,
    ensures
        point_fractions(g, p, x, y, w).1 != 0,
        point_fractions(g, p, x, y, w).3 != 0,
{
    let den = w * det(p);
    let cw = g.cell_width as int;
    let ch = g.cell_height as int;
    assert(den != 0 && den * cw != 0 && den * ch != 0 && 2 * den * cw * ch != 0) by (nonlinear_arith)
        requires den == w * det(p), w != 0, det(p) != 0, cw > 0, ch > 0;
}

} // verus!
