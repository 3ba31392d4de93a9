//! Images as plain data, and the borders of the regions in them.
use vstd::prelude::*;

verus! {

/// An image with one byte for each pixel, row by row.
pub struct GrayImage {
    pub width: u32,
    pub height: u32,
    pub data: Vec<u8>,
}

impl GrayImage {
    /// The bytes fill the image.
    pub open spec fn wf(self) -> bool {
        self.data@.len() == self.width * self.height
    }

    /// The pixel in column `x` of row `y`.
    pub open spec fn pixel(self, x: int, y: int) -> u8 {
        self.data@[y * self.width + x]
    }
}

/// An image with three bytes for each pixel, row by row.
pub struct RgbImage {
    pub width: u32,
    pub height: u32,
    pub data: Vec<u8>,
}

impl RgbImage {
    /// The bytes fill the image.
    pub open spec fn wf(self) -> bool {
        self.data@.len() == self.height * self.stride()
    }

    /// The bytes of one row.
    pub open spec fn stride(self) -> int {
        self.width * 3
    }
}

/// A border of a region: whether it is the outer one, the border around it, and its points.
pub struct Contour {
    pub outer: bool,
    pub parent: Option<usize>,
    pub points: Vec<(u32, u32)>,
}

/// The model of a [`Contour`].
pub type ContourView = (bool, Option<usize>, Seq<(u32, u32)>);

impl View for Contour {
    type V = ContourView;

    open spec fn view(&self) -> ContourView {
        (self.outer, self.parent, self.points@)
    }
}

/// The models of contours.
pub open spec fn contour_views(s: Seq<Contour>) -> Seq<ContourView> {
    Seq::new(s.len(), |i: int| s[i]@)
}

/// The sizes of the images whose borders can be numbered with an `i32` and marked in memory.
pub open spec fn findable(width: int, height: int) -> bool {
    &&& width < i32::MAX
    &&& height < i32::MAX
    &&& width * height < i32::MAX
    &&& width * height * 4 <= isize::MAX
}

/// The borders that `imageproc::contours::find_contours_with_threshold` finds in a gray image.
pub uninterp spec fn borders(
    width: u32,
    height: u32,
    pixels: Seq<u8>,
    threshold: u8,
) -> Seq<(bool, Option<usize>, Seq<(u32, u32)>)>;

/// `imageproc::contours::find_contours_with_threshold` on the image of these pixels.
///
/// Claimed: the borders depend on the pixels and the threshold alone; each border has a point, and
/// each of its points is a pixel of the image that is brighter than the threshold.
#[verifier::external_body]
pub(crate) fn find_borders(image: &GrayImage, threshold: u8) -> (r: Vec<Contour>)
    requires
        image.wf(),
        findable(image.width as int, image.height as int),
    ensures
        contour_views(r@) == borders(image.width, image.height, image.data@, threshold),
        forall|i: int|
            0 <= i < r@.len() ==> (#[trigger] r@[i]).points@.len() > 0 && forall|k: int|
                0 <= k < r@[i].points@.len() ==> {
                    let p = #[trigger] r@[i].points@[k];
                    &&& p.0 < image.width
                    &&& p.1 < image.height
                    &&& image.pixel(p.0 as int, p.1 as int) > threshold
                },
{
    let pixels = image::GrayImage::from_raw(image.width, image.height, image.data.clone()).unwrap();
    imageproc::contours::find_contours_with_threshold::<u32>(&pixels, threshold)
        .into_iter()
        .map(|c| Contour {
            outer: match c.border_type {
                imageproc::contours::BorderType::Outer => true,
                imageproc::contours::BorderType::Hole => false,
            },
            parent: c.parent,
            points: c.points.into_iter().map(|p| (p.x, p.y)).collect(),
        })
        .collect()
}

} // verus!
