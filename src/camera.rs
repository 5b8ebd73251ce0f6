//! The camera: from pixels to rays, and rendering a world row by row.
use crate::fixed;
use crate::fixed::{add_spec, div_spec, mul_spec, sub_spec, SCALE};
use crate::matrix::Transform;
use crate::ray::Ray;
use crate::tuple::{Color, Tuple};
use crate::world::World;
use vstd::prelude::*;

verus! {

/// How many bounces of reflection and refraction rendering follows.
pub const RECURSION_DEPTH: u8 = 5;

/// A camera of `hsize` by `vsize` pixels; `half_view` is the tangent of half
/// the field of view, and `transform` the world-to-camera view transform.
#[derive(Clone, Copy, Debug, PartialEq, Eq, Structural)]
pub struct Camera {
    pub hsize: u16,
    pub vsize: u16,
    pub half_width: i64,
    pub half_height: i64,
    pub half_view: i64,
    pub transform: Transform,
    pub pixel_size: i64,
}

pub open spec fn max_side(hsize: u16, vsize: u16) -> int {
    if hsize >= vsize { hsize as int } else { vsize as int }
}

impl Camera {
    /// The camera's canvas: pixels are square, `2 * half_view` wide across the
    /// longer side, one unit in front of the eye.
    pub open spec fn new_spec(hsize: u16, vsize: u16, half_view: i64) -> Camera {
        let pixel_size = div_spec(add_spec(half_view as int, half_view as int), max_side(hsize, vsize) * SCALE as int);
        Camera {
            hsize,
            vsize,
            half_width: div_spec(mul_spec(hsize as int * SCALE as int, pixel_size), 2 * SCALE as int) as i64,
            half_height: div_spec(mul_spec(vsize as int * SCALE as int, pixel_size), 2 * SCALE as int) as i64,
            half_view,
            transform: Transform::identity_spec(),
            pixel_size: pixel_size as i64,
        }
    }

    pub fn new(hsize: u16, vsize: u16, half_view: i64) -> (c: Camera)
        requires
            hsize > 0 || vsize > 0,
        ensures
            c == Camera::new_spec(hsize, vsize, half_view),
    {
        let side: i64 = if hsize >= vsize { hsize as i64 } else { vsize as i64 };
        let pixel_size = fixed::div(fixed::add(half_view, half_view), side * SCALE);
        Camera {
            hsize,
            vsize,
            half_width: fixed::div(fixed::mul(hsize as i64 * SCALE, pixel_size), 2 * SCALE),
            half_height: fixed::div(fixed::mul(vsize as i64 * SCALE, pixel_size), 2 * SCALE),
            half_view,
            transform: Transform::identity(),
            pixel_size,
        }
    }

    /// The ray from the eye through the centre of pixel `(px, py)`.
    pub open spec fn ray_spec(self, px: int, py: int) -> Ray {
        let x_offset = mul_spec(px * SCALE as int + SCALE as int / 2, self.pixel_size as int);
        let y_offset = mul_spec(py * SCALE as int + SCALE as int / 2, self.pixel_size as int);
        let world_x = sub_spec(self.half_width as int, x_offset);
        let world_y = sub_spec(self.half_height as int, y_offset);
        let inv = self.transform.inverse;
        let pixel = inv.on_point(Tuple { x: world_x as i64, y: world_y as i64, z: -1_000_000i64 });
        let origin = inv.on_point(Tuple { x: 0, y: 0, z: 0 });
        Ray { origin, direction: pixel.minus(origin).unit() }
    }

    pub fn ray_for_pixel(&self, px: u16, py: u16) -> (r: Ray)
        ensures
            r == self.ray_spec(px as int, py as int),
    {
        let x_offset = fixed::mul(px as i64 * SCALE + SCALE / 2, self.pixel_size);
        let y_offset = fixed::mul(py as i64 * SCALE + SCALE / 2, self.pixel_size);
        let world_x = fixed::sub(self.half_width, x_offset);
        let world_y = fixed::sub(self.half_height, y_offset);
        let inv = self.transform.inverse;
        let pixel = inv.apply_point(&Tuple::new(world_x, world_y, -SCALE));
        let origin = inv.apply_point(&Tuple::new(0, 0, 0));
        Ray { origin, direction: pixel.sub(&origin).normalize() }
    }

    /// Row `py` of the image of `world`, left to right.
    pub open spec fn row_spec(self, world: &World, py: int) -> Seq<Color> {
        Seq::new(self.hsize as nat, |px: int| world.color_spec(self.ray_spec(px, py), RECURSION_DEPTH as nat))
    }

    /// The image of `world`, top row first.
    pub open spec fn image_spec(self, world: &World) -> Seq<Seq<Color>> {
        Seq::new(self.vsize as nat, |py: int| self.row_spec(world, py))
    }

    /// Renders row `py`; each row depends on the world and the camera alone, so
    /// rows may be rendered in any order or at the same time.
    pub fn render_row(&self, world: &World, py: u16) -> (row: Vec<Color>)
        requires
            world.wf(),
        ensures
            row@ == self.row_spec(world, py as int),
    {
        let mut row: Vec<Color> = Vec::new();
        let mut px: u16 = 0;
        while px < self.hsize
            invariant
                world.wf(),
                px <= self.hsize,
                row@ == self.row_spec(world, py as int).take(px as int),
            decreases self.hsize - px,
        {
            let c = world.color_at(&self.ray_for_pixel(px, py), RECURSION_DEPTH);
            row.push(c);
            px = px + 1;
            assert(row@ =~= self.row_spec(world, py as int).take(px as int));
        }
        assert(self.row_spec(world, py as int).take(px as int) =~= self.row_spec(world, py as int));
        row
    }

    /// Renders the whole image, one row after another.
    pub fn render(&self, world: &World) -> (image: Vec<Vec<Color>>)
        requires
            world.wf(),
        ensures
            image@.len() == self.vsize,
            forall|py: int| 0 <= py < self.vsize ==> (#[trigger] image@[py])@ == self.image_spec(world)[py],
    {
        let mut image: Vec<Vec<Color>> = Vec::new();
        let mut py: u16 = 0;
        while py < self.vsize
            invariant
                world.wf(),
                py <= self.vsize,
                image@.len() == py,
                forall|y: int| 0 <= y < py ==> (#[trigger] image@[y])@ == self.image_spec(world)[y],
            decreases self.vsize - py,
        {
            let row = self.render_row(world, py);
            image.push(row);
            py = py + 1;
        }
        image
    }
}

/// Each row of `rows` is tagged with its index; the tags are below `height`
/// and distinct, and every index below `height` has one.
pub open spec fn tags_exact(height: int, rows: Seq<(u16, Vec<Color>)>) -> bool {
    &&& forall|k: int| 0 <= k < rows.len() ==> (#[trigger] rows[k]).0 < height
    &&& forall|k: int, l: int| 0 <= k < l < rows.len() ==> (#[trigger] rows[k]).0 != (#[trigger] rows[l]).0
    &&& forall|y: int| 0 <= y < height ==> #[trigger] has_tag(rows, y)
}

pub open spec fn has_tag(rows: Seq<(u16, Vec<Color>)>, y: int) -> bool {
    exists|k: int| 0 <= k < rows.len() && (#[trigger] rows[k]).0 == y
}

/// Puts rows that were rendered in any order, each tagged with its index, into
/// one buffer, row `y` being the row tagged `y`; `None` when the tags are not
/// exactly the indices below `height`, each once.
pub fn assemble_rows(height: u16, rows: Vec<(u16, Vec<Color>)>) -> (r: Option<Vec<Vec<Color>>>)
    ensures
        r is Some <==> tags_exact(height as int, rows@),
        r matches Some(image) ==> image@.len() == height && forall|y: int, k: int|
            0 <= y < height && 0 <= k < rows@.len() && (#[trigger] rows@[k]).0 == y ==> (#[trigger] image@[y])@ == rows@[k].1@,
{
    let ghost original = rows@;
    let mut image: Vec<Vec<Color>> = Vec::new();
    let mut filled: Vec<Option<usize>> = Vec::new();
    let mut y: u16 = 0;
    while y < height
        invariant
            rows@ == original,
            y <= height,
            image@.len() == y,
            filled@.len() == y,
            forall|j: int| 0 <= j < y ==> (#[trigger] filled@[j]) is None,
        decreases height - y,
    {
        image.push(Vec::new());
        filled.push(None);
        y = y + 1;
    }
    let mut pending = rows;
    assert(original.take(original.len() as int) =~= original);
    while pending.len() > 0
        invariant
            original == rows@,
            pending@ == original.take(pending@.len() as int),
            pending@.len() <= original.len(),
            image@.len() == height,
            filled@.len() == height,
            forall|m: int| pending@.len() <= m < original.len() ==> (#[trigger] original[m]).0 < height,
            forall|m: int, l: int| pending@.len() <= m < l < original.len() ==> (#[trigger] original[m]).0 != (#[trigger] original[l]).0,
            forall|j: int| 0 <= j < height ==> (#[trigger] filled@[j] matches Some(m) ==> pending@.len() <= m < original.len() && original[m as int].0 == j && image@[j]@ == original[m as int].1@),
            forall|j: int| 0 <= j < height ==> (#[trigger] filled@[j] is None ==> forall|m: int| pending@.len() <= m < original.len() ==> (#[trigger] original[m]).0 != j),
        decreases pending@.len(),
    {
        let k = pending.len() - 1;
        let ghost before = pending@;
        let (tag, row) = pending.pop().unwrap();
        assert(original[k as int] == (tag, row));
        assert(pending@ =~= original.take(k as int));
        if tag >= height {
            proof {
                assert(original[k as int].0 >= height);
                assert(!tags_exact(height as int, original));
            }
            return None;
        }
        match filled[tag as usize] {
            Some(m) => {
                assert(original[m as int].0 == original[k as int].0);
                assert(!tags_exact(height as int, original));
                return None;
            },
            None => {},
        }
        image.set(tag as usize, row);
        filled.set(tag as usize, Some(k));
    }
    let mut j: u16 = 0;
    while j < height
        invariant
            original == rows@,
            j <= height,
            filled@.len() == height,
            pending@.len() == 0,
            image@.len() == height,
            forall|m: int| 0 <= m < original.len() ==> (#[trigger] original[m]).0 < height,
            forall|m: int, l: int| 0 <= m < l < original.len() ==> (#[trigger] original[m]).0 != (#[trigger] original[l]).0,
            forall|i: int| 0 <= i < height ==> (#[trigger] filled@[i] matches Some(m) ==> 0 <= m < original.len() && original[m as int].0 == i && image@[i]@ == original[m as int].1@),
            forall|i: int| 0 <= i < height ==> (#[trigger] filled@[i] is None ==> forall|m: int| 0 <= m < original.len() ==> (#[trigger] original[m]).0 != i),
            forall|i: int| 0 <= i < j ==> (#[trigger] filled@[i]) is Some,
        decreases height - j,
    {
        if filled[j as usize].is_none() {
            proof {
                assert(!has_tag(original, j as int));
                assert(!tags_exact(height as int, original));
            }
            return None;
        }
        j = j + 1;
    }
    proof {
        assert forall|y: int| 0 <= y < height implies #[trigger] has_tag(original, y) by {
            let m = filled@[y].unwrap();
            assert(original[m as int].0 == y);
        }
        assert forall|y: int, k: int| 0 <= y < height && 0 <= k < original.len() && (#[trigger] original[k]).0 == y
            implies (#[trigger] image@[y])@ == original[k].1@ by {
            let m = filled@[y].unwrap();
            if m != k {
                if m < k {
                    assert(original[m as int].0 != original[k].0);
                } else {
                    assert(original[k].0 != original[m as int].0);
                }
            }
        }
    }
    Some(image)
}

/// Rendering is deterministic: when every row was made by a function of its
/// index alone (as `render_row` is, and `chapter06::render_row`), the buffer that
/// `assemble_rows` builds from them, whichever worker made each row and in
/// whatever order, holds exactly that function's rows; for `render_row` these are
/// the rows that `render` gives.
pub proof fn lemma_rows_in_any_order(height: u16, rows: Seq<(u16, Vec<Color>)>, image: Seq<Vec<Color>>, row: spec_fn(int) -> Seq<Color>)
    requires
        tags_exact(height as int, rows),
        forall|k: int| 0 <= k < rows.len() ==> (#[trigger] rows[k]).1@ == row(rows[k].0 as int),
        image.len() == height,
        forall|y: int, k: int| 0 <= y < height && 0 <= k < rows.len() && (#[trigger] rows[k]).0 == y ==> (#[trigger] image[y])@ == rows[k].1@,
    ensures
        forall|y: int| 0 <= y < height ==> (#[trigger] image[y])@ == row(y),
{
    assert forall|y: int| 0 <= y < height implies (#[trigger] image[y])@ == row(y) by {
        assert(has_tag(rows, y));
        let k = choose|k: int| 0 <= k < rows.len() && (#[trigger] rows[k]).0 == y;
        assert(image[y]@ == rows[k].1@);
    }
}

} // verus!
