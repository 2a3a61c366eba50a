//! One sphere, one light, one ray per pixel.
use vstd::prelude::*;
use crate::canvas::{header_text, join_lines, lemma_position_split, pixel_lines, Canvas};
use crate::colour::{colour, Colour};
use crate::fixed::{div_spec, from_int_spec, fx_div, fx_from_int, fx_mul, fx_sub, mul_spec, sub_spec, ONE};
use crate::light::{lighting, phong, Light};
use crate::ray::{first_hit, get_hit, ray_position, Ray};
use crate::scene_object::default_material;
use crate::sphere::{hits_of, sphere_normal, Sphere};
use crate::vector::{vec3, vec_normalize, vec_sub, Vector};

verus! {

/// The plane the rays are aimed at: its depth, its side length and the side
/// length of one pixel on it.
#[derive(Clone, Copy, Debug, PartialEq, Eq, Structural)]
pub struct Wall {
    pub z: i64,
    pub size: i64,
    pub pixel_size: i64,
}

/// The light of the rendered scene: intensity 1.0 at (-10, 10, -10).
pub open spec fn scene_light() -> Light {
    Light { intensity: ONE, pos: vec3(-10 * ONE, 10 * ONE, -10 * ONE) }
}

/// The ray from `source` toward the wall point `(x, y, wall.z)`.
pub open spec fn primary_ray(x: int, y: int, source: Vector, wall: Wall) -> Ray {
    Ray { origin: source, dir: vec_normalize(vec_sub(vec3(x, y, wall.z as int), source)) }
}

/// The colour seen along the primary ray: the lit surface at the nearest
/// hit, or black when the ray misses.
pub open spec fn trace(x: int, y: int, source: Vector, wall: Wall, sphere: Sphere) -> Colour {
    let r = primary_ray(x, y, source, wall);
    match first_hit(hits_of(sphere, r)) {
        Some(h) => {
            let point = ray_position(r, h.t as int);
            phong(sphere.material, point, scene_light(), r.dir, sphere_normal(point))
        },
        None => colour(0, 0, 0),
    }
}

/// The colour of one pixel: the ray from `source` through `(x, y)` on the wall.
pub fn raytrace(x: i64, y: i64, source: Vector, wall: Wall, sphere: Sphere) -> (c: Colour)
    ensures
        c == trace(x as int, y as int, source, wall, sphere),
{
    let position = Vector::new(x, y, wall.z);
    let r = Ray::new(source, position.sub(source).normalize());
    match get_hit(sphere.intersect(r)) {
        Some(hit) => {
            let point = r.position(hit.t);
            let light = Light { intensity: ONE, pos: Vector::new(-10 * ONE, 10 * ONE, -10 * ONE) };
            let normal = sphere.normal(point);
            lighting(sphere.material, point, light, r.dir, normal)
        },
        None => Colour::new(0, 0, 0),
    }
}

/// The wall of a `size` by `size` image: at depth 10, 7 units across.
pub open spec fn scene_wall(size: int) -> Wall {
    Wall { z: (10 * ONE) as i64, size: (7 * ONE) as i64, pixel_size: div_spec(7 * ONE, from_int_spec(size)) as i64 }
}

/// Wall coordinate of pixel column or row `i`: half the wall minus `i` pixels.
pub open spec fn wall_coord(size: int, i: int) -> int {
    sub_spec(div_spec(7 * ONE, 2 * ONE), mul_spec(scene_wall(size).pixel_size as int, from_int_spec(i)))
}

/// The rendered pixel at column `x`, row `y`.
pub open spec fn image_pixel(size: int, x: int, y: int) -> Colour {
    trace(
        wall_coord(size, x),
        wall_coord(size, y),
        vec3(0, 0, -5 * ONE),
        scene_wall(size),
        Sphere { material: default_material() },
    )
}

/// The whole pixel map of the rendered scene.
pub open spec fn image_text(size: int) -> Seq<char> {
    header_text(size as nat, size as nat) + join_lines(
        pixel_lines(size, size, |x: int, y: int| image_pixel(size, x, y)),
    )
}

/// Renders the unit sphere on a `canvas_size` by `canvas_size` canvas,
/// seen from (0, 0, -5), and returns the pixel map as text.
pub fn run(canvas_size: usize) -> (text: String)
    requires
        1 <= canvas_size <= i64::MAX,
    ensures
        text@ == image_text(canvas_size as int),
{
    let mut cvs = Canvas::new(canvas_size, canvas_size);
    let source = Vector::new(0, 0, -5 * ONE);
    let sphere = Sphere::new();
    let wall = Wall { z: 10 * ONE, size: 7 * ONE, pixel_size: fx_div(7 * ONE, fx_from_int(canvas_size as i64)) };
    let half = fx_div(wall.size, 2 * ONE);
    let ghost size = canvas_size as int;
    let mut y: usize = 0;
    while y < canvas_size
        invariant
            y <= canvas_size,
            size == canvas_size,
            1 <= canvas_size <= i64::MAX,
            wall == scene_wall(size),
            half == div_spec(7 * ONE, 2 * ONE),
            source == vec3(0, 0, -5 * ONE),
            sphere == (Sphere { material: default_material() }),
            cvs.wf(),
            cvs.width == canvas_size,
            cvs.height == canvas_size,
            forall|i: int, j: int|
                0 <= i < size && 0 <= j < size ==> cvs.pixel(i, j) == if j < y {
                    image_pixel(size, i, j)
                } else {
                    colour(0, 0, 0)
                },
        decreases canvas_size - y,
    {
        let world_y = fx_sub(half, fx_mul(wall.pixel_size, fx_from_int(y as i64)));
        let mut x: usize = 0;
        while x < canvas_size
            invariant
                x <= canvas_size,
                y < canvas_size,
                size == canvas_size,
                1 <= canvas_size <= i64::MAX,
                wall == scene_wall(size),
                half == div_spec(7 * ONE, 2 * ONE),
                world_y == wall_coord(size, y as int),
                source == vec3(0, 0, -5 * ONE),
                sphere == (Sphere { material: default_material() }),
                cvs.wf(),
                cvs.width == canvas_size,
                cvs.height == canvas_size,
                forall|i: int, j: int|
                    0 <= i < size && 0 <= j < size ==> cvs.pixel(i, j) == if j < y || (j == y && i
                        < x) {
                        image_pixel(size, i, j)
                    } else {
                        colour(0, 0, 0)
                    },
            decreases canvas_size - x,
        {
            let world_x = fx_sub(half, fx_mul(wall.pixel_size, fx_from_int(x as i64)));
            let c = raytrace(world_x, world_y, source, wall, sphere);
            cvs.write(x, y, c);
            x = x + 1;
        }
        y = y + 1;
    }
    let text = cvs.ppm_text();
    proof {
        let px = |i: int, j: int| image_pixel(size, i, j);
        assert forall|k: int| 0 <= k < size * size implies cvs.lines()[k] == pixel_lines(size, size, px)[k] by {
            lemma_position_split(k, size, size);
        }
        assert(cvs.lines() =~= pixel_lines(size, size, px));
    }
    text
}

} // verus!
