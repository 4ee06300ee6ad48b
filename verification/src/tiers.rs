//! Classification of decoded images by orientation and by size tier.
//!
//! Both classifiers are pure functions of the image's pixel dimensions.

use vstd::prelude::*;

verus! {

/// Width and height of a decoded image, in pixels.
#[derive(Clone, Copy, PartialEq, Eq, Structural, Debug)]
pub struct Dimensions {
    pub width: u32,
    pub height: u32,
}

/// Orientation of an image: wider than tall, taller than wide, or equal.
#[derive(Clone, Copy, PartialEq, Eq, Structural, Debug)]
pub enum ImageOrientation {
    Landscape,
    Portrait,
    Square,
}

/// What `ImageOrientation::from` returns for given dimensions.
pub open spec fn orientation_of(width: u32, height: u32) -> ImageOrientation {
    if width > height {
        ImageOrientation::Landscape
    } else if height > width {
        ImageOrientation::Portrait
    } else {
        ImageOrientation::Square
    }
}

impl ImageOrientation {
    /// Classify an image's orientation from its dimensions.
    pub fn from(dims: Dimensions) -> (r: ImageOrientation)
        ensures
            r == orientation_of(dims.width, dims.height),
    {
        if dims.width > dims.height {
            ImageOrientation::Landscape
        } else if dims.height > dims.width {
            ImageOrientation::Portrait
        } else {
            ImageOrientation::Square
        }
    }
}

/// An orientation is Landscape exactly when width exceeds height, Portrait
/// exactly when height exceeds width, and Square exactly when they are equal.
pub proof fn lemma_orientation_classification(width: u32, height: u32)
    ensures
        orientation_of(width, height) == ImageOrientation::Landscape <==> width > height,
        orientation_of(width, height) == ImageOrientation::Portrait <==> height > width,
        orientation_of(width, height) == ImageOrientation::Square <==> width == height,
{
}

/// The six size tiers, from largest to smallest maximum dimension.
#[derive(Clone, Copy, PartialEq, Eq, Structural, Debug)]
pub enum ImageSize {
    Large,
    Medium,
    Small,
    XSmall,
    Thumbnail,
    Avatar,
}

/// The maximum output dimension associated with each tier.
pub open spec fn spec_max_dimension(size: ImageSize) -> u32 {
    match size {
        ImageSize::Large => 1024,
        ImageSize::Medium => 640,
        ImageSize::Small => 320,
        ImageSize::XSmall => 240,
        ImageSize::Thumbnail => 128,
        ImageSize::Avatar => 64,
    }
}

/// The filename tag associated with each tier.
pub open spec fn spec_tag(size: ImageSize) -> Seq<char> {
    match size {
        ImageSize::Large => "lg"@,
        ImageSize::Medium => "md"@,
        ImageSize::Small => "sm"@,
        ImageSize::XSmall => "xs"@,
        ImageSize::Thumbnail => "thumb"@,
        ImageSize::Avatar => "avatar"@,
    }
}

/// The larger of an image's two dimensions.
pub open spec fn spec_largest(width: u32, height: u32) -> u32 {
    if width >= height {
        width
    } else {
        height
    }
}

/// The tier chosen for a given largest dimension: the first tier in the
/// order Large..Avatar whose threshold is strictly exceeded, Avatar otherwise.
pub open spec fn size_of_largest(d: u32) -> ImageSize {
    if d > 1024 {
        ImageSize::Large
    } else if d > 640 {
        ImageSize::Medium
    } else if d > 320 {
        ImageSize::Small
    } else if d > 240 {
        ImageSize::XSmall
    } else if d > 128 {
        ImageSize::Thumbnail
    } else {
        ImageSize::Avatar
    }
}

/// All six tiers, in the fixed order Large..Avatar.
pub open spec fn tier_order() -> Seq<ImageSize> {
    seq![
        ImageSize::Large,
        ImageSize::Medium,
        ImageSize::Small,
        ImageSize::XSmall,
        ImageSize::Thumbnail,
        ImageSize::Avatar,
    ]
}

impl ImageSize {
    /// All six tiers, in the fixed order used to produce output variants.
    pub fn values() -> (r: Vec<ImageSize>)
        ensures
            r@ == tier_order(),
    {
        let mut v: Vec<ImageSize> = Vec::new();
        v.push(ImageSize::Large);
        v.push(ImageSize::Medium);
        v.push(ImageSize::Small);
        v.push(ImageSize::XSmall);
        v.push(ImageSize::Thumbnail);
        v.push(ImageSize::Avatar);
        proof {
            assert(v@ =~= tier_order());
        }
        v
    }

    /// The maximum dimension an output resized for this tier may have.
    pub fn max_dimension(&self) -> (r: u32)
        ensures
            r == spec_max_dimension(*self),
    {
        match self {
            ImageSize::Large => 1024,
            ImageSize::Medium => 640,
            ImageSize::Small => 320,
            ImageSize::XSmall => 240,
            ImageSize::Thumbnail => 128,
            ImageSize::Avatar => 64,
        }
    }

    /// The short tag appended to output filenames for this tier.
    pub fn tag(&self) -> (r: &'static str)
        ensures
            r@ == spec_tag(*self),
    {
        match self {
            ImageSize::Large => "lg",
            ImageSize::Medium => "md",
            ImageSize::Small => "sm",
            ImageSize::XSmall => "xs",
            ImageSize::Thumbnail => "thumb",
            ImageSize::Avatar => "avatar",
        }
    }

    /// Classify an image into a size tier from its dimensions.
    pub fn from(dims: Dimensions) -> (r: ImageSize)
        ensures
            r == size_of_largest(spec_largest(dims.width, dims.height)),
    {
        let largest: u32 = if dims.width >= dims.height {
            dims.width
        } else {
            dims.height
        };
        if largest > 1024 {
            ImageSize::Large
        } else if largest > 640 {
            ImageSize::Medium
        } else if largest > 320 {
            ImageSize::Small
        } else if largest > 240 {
            ImageSize::XSmall
        } else if largest > 128 {
            ImageSize::Thumbnail
        } else {
            ImageSize::Avatar
        }
    }
}

/// Each largest-dimension value falls in exactly one tier, with strict lower
/// bounds and inclusive upper bounds at the documented thresholds.
pub proof fn lemma_size_classification(d: u32)
    ensures
        size_of_largest(d) == ImageSize::Large <==> d > 1024,
        size_of_largest(d) == ImageSize::Medium <==> 640 < d <= 1024,
        size_of_largest(d) == ImageSize::Small <==> 320 < d <= 640,
        size_of_largest(d) == ImageSize::XSmall <==> 240 < d <= 320,
        size_of_largest(d) == ImageSize::Thumbnail <==> 128 < d <= 240,
        size_of_largest(d) == ImageSize::Avatar <==> d <= 128,
{
}

/// The tier order holds exactly six tiers, with strictly descending
/// maximum dimensions.
pub proof fn lemma_tiers_strictly_descending()
    ensures
        tier_order().len() == 6,
        forall|i: int, j: int|
            0 <= i < j < 6 ==> spec_max_dimension(tier_order()[i]) > spec_max_dimension(
                tier_order()[j],
            ),
{
}

} // verus!
