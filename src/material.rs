//! Surface materials, the point light, and Phong illumination.
use crate::fixed;
use crate::fixed::{mul_spec, SCALE};
use crate::pattern::Pattern;
use crate::tuple::{dot_spec, Color, Tuple};
use vstd::prelude::*;

verus! {

/// How a surface reflects light; every coefficient is a fixed-point scalar.
#[derive(Clone, Copy, Debug, PartialEq, Eq, Structural)]
pub struct Material {
    pub pattern: Pattern,
    pub ambient: i64,
    pub diffuse: i64,
    pub specular: i64,
    pub shininess: u32,
    pub reflective: i64,
    pub transparency: i64,
    pub refractive_index: i64,
}

/// A light with no size, at `position`, of color `intensity`.
#[derive(Clone, Copy, Debug, PartialEq, Eq, Structural)]
pub struct PointLight {
    pub position: Tuple,
    pub intensity: Color,
}

impl PointLight {
    pub fn new(position: Tuple, intensity: Color) -> (l: PointLight)
        ensures
            l == (PointLight { position, intensity }),
    {
        PointLight { position, intensity }
    }
}

/// `b` raised to the whole power `n`, in fixed point.
pub open spec fn pow_spec(b: int, n: nat) -> int
    decreases n,
{
    if n == 0 {
        SCALE as int
    } else {
        mul_spec(pow_spec(b, (n - 1) as nat), b)
    }
}

pub fn pow(b: i64, n: u32) -> (r: i64)
    ensures
        r == pow_spec(b as int, n as nat),
{
    let mut r: i64 = SCALE;
    let mut k: u32 = 0;
    while k < n
        invariant
            k <= n,
            r == pow_spec(b as int, k as nat),
        decreases n - k,
    {
        r = fixed::mul(r, b);
        k = k + 1;
    }
    r
}

impl Material {
    pub open spec fn default_spec() -> Material {
        Material {
            pattern: Pattern::Flat(Color { r: SCALE, g: SCALE, b: SCALE }),
            ambient: 100_000,
            diffuse: 900_000,
            specular: 900_000,
            shininess: 200,
            reflective: 0,
            transparency: 0,
            refractive_index: SCALE,
        }
    }

    /// A white, opaque, non-reflective surface in air.
    pub fn new() -> (m: Material)
        ensures
            m == Material::default_spec(),
    {
        Material {
            pattern: Pattern::Flat(Color::white()),
            ambient: 100_000,
            diffuse: 900_000,
            specular: 900_000,
            shininess: 200,
            reflective: 0,
            transparency: 0,
            refractive_index: SCALE,
        }
    }

    /// Phong illumination at `point`, seen along `eyev`, with surface normal
    /// `normalv`; a shadowed point gets the ambient term alone.
    pub open spec fn lighting_spec(self, pattern_color: Color, light: PointLight, point: Tuple, eyev: Tuple, normalv: Tuple, shadowed: bool) -> Color {
        let effective = pattern_color.blend(light.intensity);
        let ambient = effective.times(self.ambient as int);
        let lightv = light.position.minus(point).unit();
        let light_dot_normal = dot_spec(lightv, normalv);
        if shadowed || light_dot_normal < 0 {
            ambient
        } else {
            let diffuse = effective.times(self.diffuse as int).times(light_dot_normal);
            let reflect_dot_eye = dot_spec(lightv.negated().reflected(normalv), eyev);
            if reflect_dot_eye <= 0 {
                ambient.plus(diffuse)
            } else {
                let factor = pow_spec(reflect_dot_eye, self.shininess as nat);
                ambient.plus(diffuse).plus(light.intensity.times(self.specular as int).times(factor))
            }
        }
    }

    pub fn lighting(&self, pattern_color: &Color, light: &PointLight, point: &Tuple, eyev: &Tuple, normalv: &Tuple, shadowed: bool) -> (c: Color)
        ensures
            c == self.lighting_spec(*pattern_color, *light, *point, *eyev, *normalv, shadowed),
    {
        let effective = pattern_color.hadamard(&light.intensity);
        let ambient = effective.scale(self.ambient);
        let lightv = light.position.sub(point).normalize();
        let light_dot_normal = lightv.dot(normalv);
        if shadowed || light_dot_normal < 0 {
            ambient
        } else {
            let diffuse = effective.scale(self.diffuse).scale(light_dot_normal);
            let reflect_dot_eye = lightv.neg().reflect(normalv).dot(eyev);
            if reflect_dot_eye <= 0 {
                ambient.add(&diffuse)
            } else {
                let factor = pow(reflect_dot_eye, self.shininess);
                ambient.add(&diffuse).add(&light.intensity.scale(self.specular).scale(factor))
            }
        }
    }
}

} // verus!
