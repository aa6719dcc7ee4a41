use vstd::prelude::*;
use crate::constants::{MAX_GRADIENT, MAX_LIGHT, SCALE};
use crate::fixed::{clamp, div_trunc};

verus! {

/// A non-empty rectangular grid, indexed `[x][y]`.
pub open spec fn grid_wf<T>(g: Seq<Vec<T>>) -> bool {
    &&& 1 <= g.len() <= usize::MAX
    &&& 1 <= g[0]@.len()
    &&& forall|x: int| 0 <= x < g.len() ==> (#[trigger] g[x])@.len() == g[0]@.len()
}

/// A light field: a grid of bounded light values.
pub open spec fn terrain_wf(t: Seq<Vec<i64>>) -> bool {
    &&& grid_wf(t)
    &&& forall|x: int, y: int|
        0 <= x < t.len() && 0 <= y < t[0]@.len() ==> -MAX_LIGHT <= #[trigger] t[x]@[y] <= MAX_LIGHT
}

/// A gradient field: a grid of bounded force vectors.
pub open spec fn gradient_wf(g: Seq<Vec<(i64, i64)>>) -> bool {
    &&& grid_wf(g)
    &&& forall|x: int, y: int|
        0 <= x < g.len() && 0 <= y < g[0]@.len() ==> {
            &&& -MAX_GRADIENT <= (#[trigger] g[x]@[y]).0 <= MAX_GRADIENT
            &&& -MAX_GRADIENT <= g[x]@[y].1 <= MAX_GRADIENT
        }
}

/// The grid cell of a coordinate: the nearest whole pixel, clamped to the grid.
pub open spec fn grid_index(pos: int, len: int) -> int {
    clamp((pos + SCALE / 2) / (SCALE as int), 0, len - 1)
}

/// The light value that a point of the plane reads.
pub open spec fn light_at(t: Seq<Vec<i64>>, x: int, y: int) -> i64 {
    t[grid_index(x, t.len() as int)]@[grid_index(y, t[0]@.len() as int)]
}

/// The gradient that a point of the plane reads.
pub open spec fn gradient_at(g: Seq<Vec<(i64, i64)>>, x: int, y: int) -> (i64, i64) {
    g[grid_index(x, g.len() as int)]@[grid_index(y, g[0]@.len() as int)]
}

/// The grid cell of a coordinate.
pub fn grid_index_of(pos: i64, len: usize) -> (r: usize)
    requires
        0 <= pos,
        1 <= len,
    ensures
        r as int == grid_index(pos as int, len as int),
        r < len,
{
    let px: u64 = ((pos as u64) + (SCALE as u64) / 2) / (SCALE as u64);
    if px >= len as u64 {
        len - 1
    } else {
        px as usize
    }
}

/// Reads the light field at a point.
pub fn sample_light(t: &Vec<Vec<i64>>, x: i64, y: i64) -> (r: i64)
    requires
        terrain_wf(t@),
        0 <= x,
        0 <= y,
    ensures
        r == light_at(t@, x as int, y as int),
        -MAX_LIGHT <= r <= MAX_LIGHT,
{
    let i = grid_index_of(x, t.len());
    let j = grid_index_of(y, t[0].len());
    assert(t@[i as int]@.len() == t@[0]@.len());
    t[i][j]
}

/// Reads the gradient field at a point.
pub fn sample_gradient(g: &Vec<Vec<(i64, i64)>>, x: i64, y: i64) -> (r: (i64, i64))
    requires
        gradient_wf(g@),
        0 <= x,
        0 <= y,
    ensures
        r == gradient_at(g@, x as int, y as int),
        -MAX_GRADIENT <= r.0 <= MAX_GRADIENT,
        -MAX_GRADIENT <= r.1 <= MAX_GRADIENT,
{
    let i = grid_index_of(x, g.len());
    let j = grid_index_of(y, g[0].len());
    assert(g@[i as int]@.len() == g@[0]@.len());
    g[i][j]
}

/// Downhill slope between two light values two cells apart.
pub open spec fn central_diff(ahead: int, behind: int) -> int {
    -div_trunc(ahead - behind, 2)
}

/// The gradient of the light field at a grid cell: the downhill central difference
/// on each axis, taken at the nearest interior cell; zero on a grid too thin to have
/// interior cells.
pub open spec fn gradient_of(t: Seq<Vec<i64>>, x: int, y: int) -> (i64, i64) {
    let w = t.len() as int;
    let h = t[0]@.len() as int;
    if w < 3 || h < 3 {
        (0, 0)
    } else {
        let cx = clamp(x, 1, w - 2);
        let cy = clamp(y, 1, h - 2);
        (
            central_diff(t[cx + 1]@[cy] as int, t[cx - 1]@[cy] as int) as i64,
            central_diff(t[cx]@[cy + 1] as int, t[cx]@[cy - 1] as int) as i64,
        )
    }
}

/// `g` is the gradient field of the light field `t`.
pub open spec fn is_gradient_of(g: Seq<Vec<(i64, i64)>>, t: Seq<Vec<i64>>) -> bool {
    &&& g.len() == t.len()
    &&& forall|x: int| 0 <= x < g.len() ==> (#[trigger] g[x])@.len() == t[0]@.len()
    &&& forall|x: int, y: int|
        0 <= x < g.len() && 0 <= y < t[0]@.len() ==> #[trigger] g[x]@[y] == gradient_of(t, x, y)
}

fn slope(ahead: i64, behind: i64) -> (r: i64)
    requires
        -MAX_LIGHT <= ahead <= MAX_LIGHT,
        -MAX_LIGHT <= behind <= MAX_LIGHT,
    ensures
        r as int == central_diff(ahead as int, behind as int),
        -MAX_GRADIENT <= r <= MAX_GRADIENT,
{
    let d = ahead - behind;
    if d >= 0 { -(d / 2) } else { (-d) / 2 }
}

/// The gradient field of a light field, one vector per grid cell.
pub fn calculate_gradient(terrain: &Vec<Vec<i64>>) -> (g: Vec<Vec<(i64, i64)>>)
    requires
        terrain_wf(terrain@),
    ensures
        is_gradient_of(g@, terrain@),
        gradient_wf(g@),
{
    let width = terrain.len();
    let height = terrain[0].len();
    let mut g: Vec<Vec<(i64, i64)>> = Vec::new();
    let mut x: usize = 0;
    while x < width
        invariant
            width == terrain@.len(),
            height == terrain@[0]@.len(),
            terrain_wf(terrain@),
            x <= width,
            g@.len() == x,
            forall|a: int| 0 <= a < x ==> (#[trigger] g@[a])@.len() == height,
            forall|a: int, b: int|
                0 <= a < x && 0 <= b < height ==> #[trigger] g@[a]@[b] == gradient_of(terrain@, a, b),
        decreases width - x,
    {
        let mut column: Vec<(i64, i64)> = Vec::new();
        let mut y: usize = 0;
        while y < height
            invariant
                width == terrain@.len(),
                height == terrain@[0]@.len(),
                terrain_wf(terrain@),
                x < width,
                y <= height,
                column@.len() == y,
                forall|b: int| 0 <= b < y ==> #[trigger] column@[b] == gradient_of(terrain@, x as int, b),
            decreases height - y,
        {
            if width < 3 || height < 3 {
                column.push((0, 0));
            } else {
                let cx: usize = if x < 1 { 1 } else if x > width - 2 { width - 2 } else { x };
                let cy: usize = if y < 1 { 1 } else if y > height - 2 { height - 2 } else { y };
                assert(terrain@[cx - 1]@.len() == height && terrain@[cx as int]@.len() == height
                    && terrain@[cx + 1]@.len() == height);
                let gx = slope(terrain[cx + 1][cy], terrain[cx - 1][cy]);
                let gy = slope(terrain[cx][cy + 1], terrain[cx][cy - 1]);
                column.push((gx, gy));
            }
            y = y + 1;
        }
        g.push(column);
        x = x + 1;
    }
    g
}

} // verus!
