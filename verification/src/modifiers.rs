//! What can be done to a colour of the palette on its way into a theme.

use crate::configuration::{
    color_text, Lch, NamespacedColor, NamespacedColorView, Palette, Scalar,
};
use crate::error::{Error, ErrorView};
use vstd::prelude::*;

verus! {

/// The changes that a theme element asks for. Each is made only where it is set, and they
/// are made in one fixed order, whatever the order in which they were written down.
#[derive(Clone, Copy, Debug)]
pub struct ColorModifiers<'a> {
    /// Added to the chroma.
    pub saturate: Option<Scalar>,
    /// The power to which the lightness is raised.
    pub gamma: Option<Scalar>,
    /// The share of the way towards white, or, where negative, towards black.
    pub lighten: Option<Scalar>,
    /// The factor by which the lightness is multiplied.
    pub lighten_multiplier: Option<Scalar>,
    /// Added to the lightness.
    pub lighten_absolute: Option<Scalar>,
    /// A colour of the palette to blend with, and the share that it gets.
    pub mix: Option<(NamespacedColor<'a>, Scalar)>,
}

/// [`ColorModifiers`] as mathematics.
pub struct ColorModifiersView {
    pub saturate: Option<Scalar>,
    pub gamma: Option<Scalar>,
    pub lighten: Option<Scalar>,
    pub lighten_multiplier: Option<Scalar>,
    pub lighten_absolute: Option<Scalar>,
    pub mix: Option<(NamespacedColorView, Scalar)>,
}

impl<'a> View for ColorModifiers<'a> {
    type V = ColorModifiersView;

    open spec fn view(&self) -> ColorModifiersView {
        ColorModifiersView {
            saturate: self.saturate,
            gamma: self.gamma,
            lighten: self.lighten,
            lighten_multiplier: self.lighten_multiplier,
            lighten_absolute: self.lighten_absolute,
            mix: match self.mix {
                Some((color, factor)) => Some((color@, factor)),
                None => None,
            },
        }
    }
}

/// The modifiers that change nothing.
pub open spec fn no_modifiers() -> ColorModifiersView {
    ColorModifiersView {
        saturate: None,
        gamma: None,
        lighten: None,
        lighten_multiplier: None,
        lighten_absolute: None,
        mix: None,
    }
}

impl Default for ColorModifiers<'_> {
    fn default() -> (r: Self)
        ensures
            r@ == no_modifiers(),
    {
        ColorModifiers {
            saturate: None,
            gamma: None,
            lighten: None,
            lighten_multiplier: None,
            lighten_absolute: None,
            mix: None,
        }
    }
}

/// One change to a colour. How each is computed is the business of whoever carries the
/// steps out; the library decides which steps are taken, with what numbers, and in what order.
#[derive(Clone, Copy, Debug, PartialEq, Eq, Structural)]
pub enum ColorStep {
    /// Blend with `color` in the Oklab space; `factor` is the share of `color`.
    Mix { color: Lch, factor: Scalar },
    /// Add to the chroma.
    Saturate(Scalar),
    /// Raise the lightness to a power.
    Gamma(Scalar),
    /// Move the lightness towards white by a share of its distance from white, or, where the
    /// number is negative, towards black by that share of its distance from black.
    Lighten(Scalar),
    /// Multiply the lightness.
    LightenMultiplier(Scalar),
    /// Add to the lightness.
    LightenAbsolute(Scalar),
    /// Put one minus the lightness in place of the lightness.
    InvertLightness,
}

/// The steps that come after the mix: saturate, gamma, lighten, lighten by a factor,
/// lighten by an amount, each where it is set.
pub open spec fn plain_steps(m: ColorModifiersView) -> Seq<ColorStep> {
    (match m.saturate {
        Some(x) => seq![ColorStep::Saturate(x)],
        None => Seq::empty(),
    }) + (match m.gamma {
        Some(x) => seq![ColorStep::Gamma(x)],
        None => Seq::empty(),
    }) + (match m.lighten {
        Some(x) => seq![ColorStep::Lighten(x)],
        None => Seq::empty(),
    }) + (match m.lighten_multiplier {
        Some(x) => seq![ColorStep::LightenMultiplier(x)],
        None => Seq::empty(),
    }) + (match m.lighten_absolute {
        Some(x) => seq![ColorStep::LightenAbsolute(x)],
        None => Seq::empty(),
    })
}

/// The steps that modifiers stand for, given the palette in which a mix finds its colour:
/// the mix first, then the plain steps. `Err` carries the text of a mix colour that the
/// palette lacks.
pub open spec fn steps_of(m: ColorModifiersView, palette: Map<NamespacedColorView, Lch>) -> Result<
    Seq<ColorStep>,
    Seq<char>,
> {
    match m.mix {
        None => Ok(plain_steps(m)),
        Some((color, factor)) => {
            if palette.contains_key(color) {
                Ok(seq![ColorStep::Mix { color: palette[color], factor }] + plain_steps(m))
            } else {
                Err(color_text(color))
            }
        },
    }
}

impl<'a> ColorModifiers<'a> {
    /// The steps that these modifiers stand for, in the order in which they are to be taken.
    /// Fails where a mix names a colour that the palette lacks.
    pub fn steps(&self, palette: &Palette<'_>) -> (r: Result<Vec<ColorStep>, Error>)
        ensures
            match steps_of(self@, palette@) {
                Ok(steps) => r matches Ok(v) && v@ == steps,
                Err(name) => r matches Err(e) && e@ == ErrorView::ColorMissing(name),
            },
    {
        let mut steps: Vec<ColorStep> = Vec::new();
        if let Some((color, factor)) = self.mix {
            match palette.get(color) {
                Some(found) => {
                    steps.push(ColorStep::Mix { color: found, factor });
                },
                None => {
                    return Err(Error::ColorMissing(color.to_string()));
                },
            }
        }
        if let Some(x) = self.saturate {
            steps.push(ColorStep::Saturate(x));
        }
        if let Some(x) = self.gamma {
            steps.push(ColorStep::Gamma(x));
        }
        if let Some(x) = self.lighten {
            steps.push(ColorStep::Lighten(x));
        }
        if let Some(x) = self.lighten_multiplier {
            steps.push(ColorStep::LightenMultiplier(x));
        }
        if let Some(x) = self.lighten_absolute {
            steps.push(ColorStep::LightenAbsolute(x));
        }
        Ok(steps)
    }
}

} // verus!
