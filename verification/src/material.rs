//! Surface properties: a flat color or a procedural pattern, and the
//! Phong coefficients.

use vstd::prelude::*;

use crate::color::Color;
use crate::fixed::{Fx, SCALE};
use crate::patterns::pattern::Pattern;

verus! {

#[derive(Clone, Debug)]
pub struct Material {
    pub color: Option<Color>,
    pub pattern: Option<Pattern>,
    pub ambient: Fx,
    pub diffuse: Fx,
    pub specular: Fx,
    pub shininess: Fx,
    pub reflective: Fx,
    pub transparency: Fx,
    pub refractive_index: Fx,
}

impl Material {
    /// The matrices of a pattern, if one is present, have the shape
    /// the color lookup needs.
    pub open spec fn wf(self) -> bool {
        match self.pattern {
            Some(p) => p.wf(),
            None => true,
        }
    }

    pub fn new(
        color: Option<Color>,
        pat: Option<Pattern>,
        ambient: Fx,
        diffuse: Fx,
        specular: Fx,
        shininess: Fx,
        reflective: Fx,
        transparency: Fx,
        refractive_index: Fx,
    ) -> (m: Material)
        ensures
            m == (Material {
                color,
                pattern: pat,
                ambient,
                diffuse,
                specular,
                shininess,
                reflective,
                transparency,
                refractive_index,
            }),
    {
        Material {
            color,
            pattern: pat,
            ambient,
            diffuse,
            specular,
            shininess,
            reflective,
            transparency,
            refractive_index,
        }
    }

    /// The default material: white, ambient 0.1, diffuse and specular
    /// 0.9, shininess 200, opaque, with vacuum refraction.
    pub fn default() -> (m: Material)
        ensures
            m == default_material(),
    {
        Material::new(
            Some(Color::white()),
            None,
            Fx::from_ratio(1, 10),
            Fx::from_ratio(9, 10),
            Fx::from_ratio(9, 10),
            Fx::from_int(200),
            Fx::zero(),
            Fx::zero(),
            Fx::one(),
        )
    }
}

/// The value `Material::default` returns.
pub open spec fn default_material() -> Material {
    Material {
        color: Some(Color { r: Fx { raw: SCALE }, g: Fx { raw: SCALE }, b: Fx { raw: SCALE } }),
        pattern: None,
        ambient: Fx { raw: 429496729 },
        diffuse: Fx { raw: 3865470566 },
        specular: Fx { raw: 3865470566 },
        shininess: Fx { raw: 858993459200 },
        reflective: Fx { raw: 0 },
        transparency: Fx { raw: 0 },
        refractive_index: Fx { raw: SCALE },
    }
}

} // verus!
