//! The pipeline driver: pending transform requests, applied in the fixed
//! order border, aspect-ratio fill, longest-side resize.

use crate::raster::{RasterBuffer, RasterView, fits_canvas};
use crate::transform::{
    aspect_fill, aspect_fill_fits, aspect_filled, border, border_fits, bordered, fill_fits,
    resize_fits, resize_fits_check, resize_longest_side, resized_longest,
};
use vstd::prelude::*;

verus! {

/// Why the pipeline could not run: a stage needs a canvas larger than this
/// machine can address.
#[derive(Debug, Clone, Copy, PartialEq, Eq, Structural)]
pub enum TransformError {
    CanvasTooLarge,
}

/// Model of the driver: the raster and the pending requests.
pub struct ManipulatorView {
    pub image: RasterView,
    pub ratio: Option<(nat, nat)>,
    pub longest_side: Option<nat>,
    pub border_spacing: Option<nat>,
}

/// The border stage: skipped without a request, `None` when its canvas
/// does not fit.
pub open spec fn border_stage(v: RasterView, spacing: Option<nat>) -> Option<RasterView> {
    match spacing {
        None => Some(v),
        Some(t) => if fits_canvas((v.width + 2 * t) as int, (v.height + 2 * t) as int) {
            Some(bordered(v, t))
        } else {
            None
        },
    }
}

/// The aspect-ratio stage: skipped without a request, `None` when its
/// canvas does not fit.
pub open spec fn fill_stage(v: RasterView, ratio: Option<(nat, nat)>) -> Option<RasterView> {
    match ratio {
        None => Some(v),
        Some((a, b)) => if fill_fits(v, a, b) {
            Some(aspect_filled(v, a, b))
        } else {
            None
        },
    }
}

/// The raster as it reaches the resize stage: bordered, then filled, each
/// only where requested; `None` when one of those canvases does not fit.
pub open spec fn before_resize(m: ManipulatorView) -> Option<RasterView> {
    match border_stage(m.image, m.border_spacing) {
        None => None,
        Some(a) => fill_stage(a, m.ratio),
    }
}

/// Whether every requested stage's canvas fits.
pub open spec fn pipeline_fits(m: ManipulatorView) -> bool {
    match before_resize(m) {
        None => false,
        Some(b) => match m.longest_side {
            None => true,
            Some(l) => resize_fits(b, l),
        },
    }
}

/// What holds of the pipeline's result `r`: border, then fill, then resize,
/// each only where requested; the resize leaves what `resized_longest` states.
pub open spec fn pipeline_outcome(m: ManipulatorView, r: RasterView) -> bool {
    match before_resize(m) {
        None => false,
        Some(b) => match m.longest_side {
            None => r == b,
            Some(l) => resized_longest(b, l, r),
        },
    }
}

/// Holds a raster and the transforms requested on it.
pub struct ImageManipulator {
    image: RasterBuffer,
    expected_ratio: Option<(u32, u32)>,
    expected_longest_side: Option<usize>,
    expected_border_spacing: Option<usize>,
}

impl View for ImageManipulator {
    type V = ManipulatorView;

    closed spec fn view(&self) -> ManipulatorView {
        ManipulatorView {
            image: self.image@,
            ratio: match self.expected_ratio {
                None => None,
                Some((a, b)) => Some((a as nat, b as nat)),
            },
            longest_side: match self.expected_longest_side {
                None => None,
                Some(l) => Some(l as nat),
            },
            border_spacing: match self.expected_border_spacing {
                None => None,
                Some(t) => Some(t as nat),
            },
        }
    }
}

impl ImageManipulator {
    #[verifier::type_invariant]
    spec fn inv(&self) -> bool {
        &&& (self.expected_ratio matches Some((a, b)) ==> a > 0 && b > 0)
        &&& (self.expected_longest_side matches Some(l) ==> l > 0)
    }

    /// A driver for `image` with nothing requested yet.
    pub fn new(image: RasterBuffer) -> (r: ImageManipulator)
        ensures
            r@ == (ManipulatorView {
                image: image@,
                ratio: None,
                longest_side: None,
                border_spacing: None,
            }),
    {
        ImageManipulator {
            image,
            expected_ratio: None,
            expected_longest_side: None,
            expected_border_spacing: None,
        }
    }

    /// Requests a border of `spacing` pixels on each side.
    pub fn add_border(self, spacing: usize) -> (r: ImageManipulator)
        ensures
            r@ == (ManipulatorView { border_spacing: Some(spacing as nat), ..self@ }),
    {
        proof {
            use_type_invariant(&self);
        }
        ImageManipulator { expected_border_spacing: Some(spacing), ..self }
    }

    /// Requests a fill to the aspect ratio `width : height`.
    pub fn fill_to_aspect_ratio(self, width: u32, height: u32) -> (r: ImageManipulator)
        requires
            width > 0,
            height > 0,
        ensures
            r@ == (ManipulatorView { ratio: Some((width as nat, height as nat)), ..self@ }),
    {
        proof {
            use_type_invariant(&self);
        }
        ImageManipulator { expected_ratio: Some((width, height)), ..self }
    }

    /// Requests a resize so that the longest side is `size` pixels.
    pub fn longest_side(self, size: usize) -> (r: ImageManipulator)
        requires
            size > 0,
        ensures
            r@ == (ManipulatorView { longest_side: Some(size as nat), ..self@ }),
    {
        proof {
            use_type_invariant(&self);
        }
        ImageManipulator { expected_longest_side: Some(size), ..self }
    }

    /// Runs the requested stages in the order border, fill, resize and hands
    /// back the resulting raster.
    pub fn apply(self) -> (r: Result<RasterBuffer, TransformError>)
        ensures
            !pipeline_fits(self@) ==> r == Err::<RasterBuffer, TransformError>(
                TransformError::CanvasTooLarge,
            ),
            pipeline_fits(self@) ==> (r matches Ok(b) && pipeline_outcome(self@, b@)),
    {
        proof {
            use_type_invariant(&self);
        }
        let ImageManipulator { image, expected_ratio, expected_longest_side, expected_border_spacing } =
            self;
        let mut image = image;
        if let Some(spacing) = expected_border_spacing {
            if !border_fits(&image, spacing) {
                return Err(TransformError::CanvasTooLarge);
            }
            image = border(image, spacing as u32);
        }
        if let Some((ratio_w, ratio_h)) = expected_ratio {
            if !aspect_fill_fits(&image, ratio_w, ratio_h) {
                return Err(TransformError::CanvasTooLarge);
            }
            image = aspect_fill(image, ratio_w, ratio_h);
        }
        if let Some(longest) = expected_longest_side {
            if longest > u32::MAX as usize || !resize_fits_check(&image, longest as u32) {
                return Err(TransformError::CanvasTooLarge);
            }
            image = resize_longest_side(image, longest as u32);
        }
        Ok(image)
    }
}

} // verus!
