//! The per-image resize pipeline: one output per size tier.

use vstd::prelude::*;
use vstd::string::StringExecFns;
use crate::backend::copy_image;
use crate::backend::image_dimensions;
use crate::backend::resize_exact_px;
use crate::fit::fit_dimensions;
use crate::fit::lemma_fit_bounded;
use crate::fit::lemma_fit_no_upscale;
use crate::fit::tier_dims;
use crate::tiers::Dimensions;
use crate::tiers::ImageSize;
use crate::tiers::spec_max_dimension;
use crate::tiers::spec_tag;
use crate::tiers::tier_order;

verus! {

/// Why processing fails: the input image could not be decoded, or an
/// output could not be written.
#[derive(Clone, Copy, PartialEq, Eq, Structural, Debug)]
pub enum ProcessError {
    DecodeError,
    IOError,
}

/// One per-tier output: the tier, the output filename, the resized image,
/// and the dimensions it was resized to.
pub struct TierOutput {
    pub size: ImageSize,
    pub filename: String,
    pub image: image::DynamicImage,
    pub width: u32,
    pub height: u32,
}

/// The output filename for a base name and a tier: `{base}.{tag}.jpg`.
pub open spec fn spec_output_filename(base: Seq<char>, size: ImageSize) -> Seq<char> {
    base + "."@ + spec_tag(size) + ".jpg"@
}

/// Compose the output filename `{base}.{tag}.jpg` for a tier.
pub fn output_filename(base: &str, size: &ImageSize) -> (r: String)
    ensures
        r@ == spec_output_filename(base@, *size),
{
    let mut s = base.to_owned();
    s.append(".");
    s.append(size.tag());
    s.append(".jpg");
    proof {
        assert(s@ =~= spec_output_filename(base@, *size));
    }
    s
}

/// Resize a decoded image of the given dimensions for one tier: an image
/// that already fits the tier's maximum dimension is copied unchanged,
/// otherwise it is scaled down with a smooth (triangle) filter. Returns the
/// output image with its width and height.
pub fn resize_to_tier(img: &image::DynamicImage, dims: Dimensions, size: &ImageSize) -> (r: (
    image::DynamicImage,
    u32,
    u32,
))
    ensures
        r.1 as int == tier_dims(dims.width, dims.height, spec_max_dimension(*size)).0,
        r.2 as int == tier_dims(dims.width, dims.height, spec_max_dimension(*size)).1,
{
    let m = size.max_dimension();
    proof {
        assert(64 <= spec_max_dimension(*size) <= 1024);
    }
    let (nw, nh) = fit_dimensions(dims.width, dims.height, m);
    if nw == dims.width && nh == dims.height {
        (copy_image(img), dims.width, dims.height)
    } else {
        proof {
            lemma_fit_bounded(dims.width, dims.height, m);
            assert(nw as int * nh as int <= 0x4000_0000) by (nonlinear_arith)
                requires
                    1 <= nw <= 1024,
                    1 <= nh <= 1024,
            ;
        }
        resize_exact_px(img, nw, nh)
    }
}

/// What holds of the outputs produced for one decoded image of dimensions
/// `dims` and base filename `base`: one output per tier, in tier order,
/// named `{base}.{tag}.jpg`, each with that tier's fitted dimensions.
pub open spec fn outputs_ok(outs: Seq<TierOutput>, dims: Dimensions, base: Seq<char>) -> bool {
    &&& outs.len() == 6
    &&& forall|i: int| 0 <= i < 6 ==> (#[trigger] outs[i]).size == tier_order()[i]
    &&& forall|i: int|
        0 <= i < 6 ==> (#[trigger] outs[i]).filename@ == spec_output_filename(
            base,
            tier_order()[i],
        )
    &&& forall|i: int|
        0 <= i < 6 ==> ((#[trigger] outs[i]).width as int, outs[i].height as int) == tier_dims(
            dims.width,
            dims.height,
            spec_max_dimension(tier_order()[i]),
        )
}

/// The outputs were produced for one consistent pair of dimensions: the
/// ones read from the decoded image.
pub open spec fn outputs_ok_for_some_dims(outs: Seq<TierOutput>, base: Seq<char>) -> bool {
    exists|dims: Dimensions| outputs_ok(outs, dims, base)
}

/// Produce the six tier outputs for one decoded image, in tier order.
pub fn process_decoded(img: &image::DynamicImage, dims: Dimensions, base: &str) -> (outs: Vec<
    TierOutput,
>)
    ensures
        outputs_ok(outs@, dims, base@),
{
    let sizes = ImageSize::values();
    let mut outs: Vec<TierOutput> = Vec::new();
    let mut i: usize = 0;
    while i < 6
        invariant
            sizes@ == tier_order(),
            i <= 6,
            outs@.len() == i,
            forall|j: int| 0 <= j < i ==> (#[trigger] outs@[j]).size == tier_order()[j],
            forall|j: int|
                0 <= j < i ==> (#[trigger] outs@[j]).filename@ == spec_output_filename(
                    base@,
                    tier_order()[j],
                ),
            forall|j: int|
                0 <= j < i ==> ((#[trigger] outs@[j]).width as int, outs@[j].height as int)
                    == tier_dims(
                    dims.width,
                    dims.height,
                    spec_max_dimension(tier_order()[j]),
                ),
        decreases 6 - i,
    {
        let size = sizes[i];
        let (resized, w2, h2) = resize_to_tier(img, dims, &size);
        let name = output_filename(base, &size);
        outs.push(
            TierOutput { size, filename: name, image: resized, width: w2, height: h2 },
        );
        i = i + 1;
    }
    outs
}

/// No output is ever upscaled: each output's sides never exceed the
/// original's, and each output either fits within its tier's maximum
/// dimension or is the original, unchanged because it already fit.
pub proof fn lemma_outputs_never_upscaled(outs: Seq<TierOutput>, dims: Dimensions, base: Seq<char>)
    requires
        outputs_ok(outs, dims, base),
    ensures
        forall|i: int|
            0 <= i < 6 ==> (#[trigger] outs[i]).width <= dims.width && outs[i].height
                <= dims.height,
        forall|i: int|
            0 <= i < 6 ==> ((#[trigger] outs[i]).width <= spec_max_dimension(tier_order()[i])
                && outs[i].height <= spec_max_dimension(tier_order()[i])) || (outs[i].width
                == dims.width && outs[i].height == dims.height),
{
    assert forall|i: int| 0 <= i < 6 implies {
        &&& (#[trigger] outs[i]).width <= dims.width && outs[i].height <= dims.height
        &&& ((outs[i].width <= spec_max_dimension(tier_order()[i]) && outs[i].height
            <= spec_max_dimension(tier_order()[i])) || (outs[i].width == dims.width
            && outs[i].height == dims.height))
    } by {
        let m = spec_max_dimension(tier_order()[i]);
        assert(64 <= m);
        lemma_fit_no_upscale(dims.width, dims.height, m);
        lemma_fit_bounded(dims.width, dims.height, m);
    }
}

/// Process one decode attempt: a decoded image yields the six tier outputs
/// for its dimensions; a failed decode yields `DecodeError` and no outputs.
pub fn process(decoded: Option<&image::DynamicImage>, base: &str) -> (r: Result<
    Vec<TierOutput>,
    ProcessError,
>)
    ensures
        decoded is Some <==> r is Ok,
        decoded is None ==> r == Err::<Vec<TierOutput>, ProcessError>(ProcessError::DecodeError),
        r matches Ok(outs) ==> outputs_ok_for_some_dims(outs@, base@),
{
    match decoded {
        None => Err(ProcessError::DecodeError),
        Some(img) => {
            let (w, h) = image_dimensions(img);
            let dims = Dimensions { width: w, height: h };
            let outs = process_decoded(img, dims, base);
            proof {
                assert(outputs_ok_for_some_dims(outs@, base@)) by {
                    assert(outputs_ok(outs@, dims, base@));
                }
            }
            Ok(outs)
        },
    }
}

} // verus!
