//! The light a traced path carries back to the eye.
//!
//! A path is what one camera ray did in the scene: the attenuation of every
//! surface that scattered it, in order, and how it ended. Geometry and random
//! draws decide the path; the colour then follows from the path and the
//! bounce budget alone.

use vstd::prelude::*;

use crate::color::{attenuate_spec, black, white, Color};

verus! {

/// How a path ended.
#[derive(Clone, Copy, Debug, PartialEq, Eq, Structural)]
pub enum PathEnd {
    /// It left the scene; the colour is the background seen along it.
    Escaped(Color),
    /// A surface absorbed it.
    Absorbed,
}

/// A traced path: the attenuations of the surfaces that scattered the ray,
/// first bounce first, and how it ended, or `None` where it was still
/// bouncing when tracing stopped.
#[derive(Clone, Debug)]
pub struct Path {
    pub attenuations: Vec<Color>,
    pub end: Option<PathEnd>,
}

/// `light` attenuated by every colour of `atts`, the last one first.
pub open spec fn shade(atts: Seq<Color>, light: Color) -> Color
    decreases atts.len(),
{
    if atts.len() == 0 {
        light
    } else {
        attenuate_spec(atts[0], shade(atts.drop_first(), light))
    }
}

/// The light at the end of a path.
pub open spec fn end_light(end: PathEnd) -> Color {
    match end {
        PathEnd::Escaped(c) => c,
        PathEnd::Absorbed => black(),
    }
}

/// The colour of a path traced with a budget of `depth` bounces: the tracer
/// looks for a hit at most `depth` times, so a path that ends after fewer
/// scatterings than that carries its end's light back through every
/// attenuation; any other path gathers no light.
pub open spec fn path_color(atts: Seq<Color>, end: Option<PathEnd>, depth: nat) -> Color {
    match end {
        Some(e) => if atts.len() < depth {
            shade(atts, end_light(e))
        } else {
            black()
        },
        None => black(),
    }
}

/// Each channel of `a` is at most that of `b`.
pub open spec fn dimmer_or_equal(a: Color, b: Color) -> bool {
    a.r <= b.r && a.g <= b.g && a.b <= b.b
}

impl Path {
    pub open spec fn color_spec(&self, depth: nat) -> Color {
        path_color(self.attenuations@, self.end, depth)
    }

    /// The colour this path carries back when traced with `depth` bounces.
    pub fn color(&self, depth: usize) -> (r: Color)
        ensures
            r == self.color_spec(depth as nat),
    {
        let n = self.attenuations.len();
        let light = match self.end {
            Some(PathEnd::Escaped(c)) => c,
            Some(PathEnd::Absorbed) => Color::black(),
            None => {
                return Color::black();
            },
        };
        if n >= depth {
            return Color::black();
        }
        let mut acc = light;
        let mut i: usize = n;
        assert(self.attenuations@.subrange(n as int, n as int) =~= Seq::<Color>::empty());
        while i > 0
            invariant
                i <= n,
                n == self.attenuations@.len(),
                acc == shade(self.attenuations@.subrange(i as int, n as int), light),
            decreases i,
        {
            let ghost rest = self.attenuations@.subrange(i - 1, n as int);
            assert(rest.drop_first() =~= self.attenuations@.subrange(i as int, n as int));
            acc = self.attenuations[i - 1].attenuate(acc);
            i = i - 1;
        }
        assert(self.attenuations@.subrange(0, n as int) =~= self.attenuations@);
        acc
    }
}

/// With a fixed path, so with a fixed random source, a larger bounce budget
/// never darkens the colour in any channel.
pub proof fn lemma_depth_monotone(path: Path, d1: nat, d2: nat)
    requires
        d1 <= d2,
    ensures
        dimmer_or_equal(path.color_spec(d1), path.color_spec(d2)),
{
}

/// A budget no larger than the number of scatterings yields black, wherever
/// the path goes after its last bounce.
pub proof fn lemma_budget_exhausted(path: Path, depth: nat)
    requires
        path.attenuations@.len() >= depth,
    ensures
        path.color_spec(depth) == black(),
{
}

/// Surfaces that absorb nothing pass the light on unchanged: a path whose
/// attenuations are all white carries back exactly the light at its end.
pub proof fn lemma_white_path_keeps_light(atts: Seq<Color>, light: Color)
    requires
        forall|i: int| 0 <= i < atts.len() ==> #[trigger] atts[i] == white(),
    ensures
        shade(atts, light) == light,
    decreases atts.len(),
{
    if atts.len() > 0 {
        assert forall|i: int| 0 <= i < atts.drop_first().len() implies #[trigger] atts.drop_first()[i]
            == white() by {
            assert(atts.drop_first()[i] == atts[i + 1]);
        }
        lemma_white_path_keeps_light(atts.drop_first(), light);
        assert(255 * light.r as int / 255 == light.r as int);
        assert(255 * light.g as int / 255 == light.g as int);
        assert(255 * light.b as int / 255 == light.b as int);
    }
}

} // verus!
