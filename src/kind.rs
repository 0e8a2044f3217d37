//! The fractal variants and how each one starts its orbit.
use vstd::prelude::*;

verus! {

/// Which fractal a render draws.
#[derive(Clone, Copy, Debug, PartialEq, Eq, Structural)]
pub enum RenderType {
    /// Orbits start at the pixel's point, with the configured parameter `c`.
    Julia,
    /// Orbits start at the origin, with the pixel's point as `c`.
    Mandelbrot,
    /// Reserved: trajectory collection is not implemented, so it cannot be rendered.
    Buddhabrot,
}

impl RenderType {
    /// Julia and Mandelbrot can be rendered; Buddhabrot cannot.
    pub open spec fn supported_spec(self) -> bool {
        self != RenderType::Buddhabrot
    }

    /// Whether the variant can be rendered.
    pub fn is_supported(&self) -> (r: bool)
        ensures
            r == self.supported_spec(),
    {
        match self {
            RenderType::Buddhabrot => false,
            _ => true,
        }
    }

    /// The starting point `z0` and the parameter `c` of the orbit of a pixel whose
    /// mapped point is `point`, where `param` is the configured parameter and
    /// `origin` is zero: `(point, param)` for Julia, `(origin, point)` for
    /// Mandelbrot, `None` for a variant that cannot be rendered.
    pub fn orbit_start<P>(&self, point: P, param: P, origin: P) -> (r: Option<(P, P)>)
        ensures
            match self {
                RenderType::Julia => r == Some((point, param)),
                RenderType::Mandelbrot => r == Some((origin, point)),
                RenderType::Buddhabrot => r is None,
            },
    {
        match self {
            RenderType::Julia => Some((point, param)),
            RenderType::Mandelbrot => Some((origin, point)),
            RenderType::Buddhabrot => None,
        }
    }
}

} // verus!
