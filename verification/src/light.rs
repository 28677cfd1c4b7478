//! Point lights and the Phong local-illumination evaluator.

use vstd::prelude::*;

use crate::color::{Color, cadd, cscale, cmul};
use crate::fixed::{Fx, fpow_of};
use crate::linalg::tuple::{Tuple, tsub, tneg, tdivide, tdot, tmag};
use crate::ray::{reflect, spec_reflect};
use crate::shapes::shape::Shape;

verus! {

#[derive(Clone, Copy, Debug)]
pub struct PointLight {
    pub intensity: Color,
    pub position: Tuple,
}

/// The Phong evaluation: the ambient term always, and the diffuse and
/// specular terms when the light faces the surface and the point is
/// not shadowed.
#[verifier::opaque]
pub open spec fn spec_lighting(
    object: Shape,
    light: PointLight,
    pos: (int, int, int, int),
    is_shadowed: bool,
    eyev: (int, int, int, int),
    normv: (int, int, int, int),
) -> (int, int, int) {
    let material = object.material_of();
    let base = match material.color {
        Some(c) => c.m(),
        None => match material.pattern {
            Some(p) => p.color_spec(object, pos),
            None => (0int, 0int, 0int),
        },
    };
    let effective = cmul(base, light.intensity.m());
    let ambient_c = cscale(effective, material.ambient.v());
    let to_light = tsub(light.position.m(), pos);
    let lightv = tdivide(to_light, tmag(to_light));
    let light_dot_normal = tdot(lightv, normv);
    if light_dot_normal >= 0 && !is_shadowed {
        let diffuse = cscale(cscale(effective, material.diffuse.v()), light_dot_normal);
        let reflectv = spec_reflect(tneg(lightv), normv);
        let reflect_dot_eye = tdot(reflectv, eyev);
        let specular = if reflect_dot_eye > 0 {
            cscale(
                cscale(light.intensity.m(), material.specular.v()),
                fpow_of(reflect_dot_eye, material.shininess.v()),
            )
        } else {
            (0int, 0int, 0int)
        };
        cadd(cadd(ambient_c, diffuse), specular)
    } else {
        ambient_c
    }
}

impl PointLight {
    /// A white light at the origin.
    pub fn new() -> (r: PointLight)
        ensures
            r.intensity.m() == (
                crate::fixed::SCALE as int,
                crate::fixed::SCALE as int,
                crate::fixed::SCALE as int,
            ),
            r.position.m() == (0int, 0int, 0int, crate::fixed::SCALE as int),
    {
        PointLight {
            intensity: Color::white(),
            position: Tuple::point(Fx::zero(), Fx::zero(), Fx::zero()),
        }
    }

    /// The light this source contributes at a surface point.
    pub fn lighting(
        &self,
        object: &Shape,
        pos: &Tuple,
        is_shadowed: bool,
        eyev: &Tuple,
        normv: &Tuple,
    ) -> (c: Color)
        requires
            object.wf(),
            object.material_of().wf(),
        ensures
            c.m() == spec_lighting(*object, *self, pos.m(), is_shadowed, eyev.m(), normv.m()),
    {
        proof {
            reveal(spec_lighting);
        }
        let material = object.get_material();
        let mut color = Color::black();
        match &material.color {
            Some(c) => {
                color = *c;
            },
            None => {
                match &material.pattern {
                    Some(p) => {
                        color = p.color_at(object, pos);
                    },
                    None => {},
                }
            },
        }
        let effective_color = color.multiply_color(&self.intensity);
        let mut result = effective_color.multiply(material.ambient);

        let lightv = self.position.subtract(pos).normalize();
        let light_dot_normal = lightv.dot(normv);
        if light_dot_normal.ge(Fx::zero()) && !is_shadowed {
            let diffuse = effective_color.multiply(material.diffuse).multiply(light_dot_normal);

            let reflectv = reflect(&lightv.negate(), normv);
            let reflect_dot_eye = reflectv.dot(eyev);
            let mut specular = Color::black();
            if reflect_dot_eye.gt(Fx::zero()) {
                let factor = reflect_dot_eye.powf_whole(material.shininess);
                specular = self.intensity.multiply(material.specular).multiply(factor);
            }
            result = result.add(&diffuse).add(&specular);
        }

        result
    }
}

} // verus!
