use crate::codec::{resize_rgba, resized, same_format};
use crate::combiner::FloatingImage;
use crate::error::ImageDataErrors;
use image::ImageFormat;
use vstd::prelude::*;

verus! {

/// The mathematical content of a decoded image.
pub struct ImageModel {
    pub pixels: Seq<u8>,
    pub width: u32,
    pub height: u32,
    pub format: ImageFormat,
}

impl ImageModel {
    pub open spec fn dimensions(self) -> (u32, u32) {
        (self.width, self.height)
    }

    /// Non-empty, with four bytes for every pixel.
    pub open spec fn wf(self) -> bool {
        self.width > 0 && self.height > 0 && self.pixels.len() == self.width * self.height * 4
    }

    /// This image brought to dimensions `d`: unchanged when it has them
    /// already, resampled otherwise.
    pub open spec fn scaled_to(self, d: (u32, u32)) -> ImageModel {
        if self.dimensions() == d {
            self
        } else {
            ImageModel {
                pixels: resized(self.pixels, self.width, self.height, d.0, d.1),
                width: d.0,
                height: d.1,
                format: self.format,
            }
        }
    }
}

/// A decoded input: row-major RGBA8 pixels, dimensions and container format.
pub struct DecodedImage {
    pub pixels: Vec<u8>,
    pub width: u32,
    pub height: u32,
    pub format: ImageFormat,
}

impl View for DecodedImage {
    type V = ImageModel;

    open spec fn view(&self) -> ImageModel {
        ImageModel {
            pixels: self.pixels@,
            width: self.width,
            height: self.height,
            format: self.format,
        }
    }
}

/// The size proxy that images are compared by: width plus height.
pub open spec fn pixel_sum(d: (u32, u32)) -> int {
    d.0 + d.1
}

/// The dimensions with the smaller size proxy; the second on a tie.
pub open spec fn smallest_dimension(d1: (u32, u32), d2: (u32, u32)) -> (u32, u32) {
    if pixel_sum(d1) < pixel_sum(d2) {
        d1
    } else {
        d2
    }
}

/// Both images brought to the dimensions with the smaller size proxy.
/// Where the second image has those dimensions the first is brought to
/// them, otherwise the second.
pub open spec fn standardized(a: ImageModel, b: ImageModel) -> (ImageModel, ImageModel) {
    let target = smallest_dimension(a.dimensions(), b.dimensions());
    if b.dimensions() == target {
        (a.scaled_to(target), b)
    } else {
        (a, b.scaled_to(target))
    }
}

/// Byte `i` of the interleaving comes from `a` when it lies in an
/// even-numbered four-byte pixel, from `b` otherwise.
pub open spec fn interleaved(a: Seq<u8>, b: Seq<u8>) -> Seq<u8> {
    Seq::new(a.len(), |i: int| if (i / 4) % 2 == 0 { a[i] } else { b[i] })
}

/// The bytes of the combined image of two inputs.
pub open spec fn combined_pixels(a: ImageModel, b: ImageModel) -> Seq<u8> {
    interleaved(standardized(a, b).0.pixels, standardized(a, b).1.pixels)
}

/// Returns the dimensions whose width plus height is smaller, `dim2` on a tie.
pub fn get_smallest_dimension(dim1: (u32, u32), dim2: (u32, u32)) -> (r: (u32, u32))
    ensures
        r == smallest_dimension(dim1, dim2),
{
    let pix_1: u64 = dim1.0 as u64 + dim1.1 as u64;
    let pix_2: u64 = dim2.0 as u64 + dim2.1 as u64;
    if pix_1 < pix_2 {
        dim1
    } else {
        dim2
    }
}

/// Brings `image` to `width` by `height`: moved as it is when it has those
/// dimensions already, resampled otherwise.
fn scale_to(image: DecodedImage, width: u32, height: u32) -> (r: DecodedImage)
    requires
        image@.wf(),
        width > 0,
        height > 0,
        width * height * 4 <= usize::MAX,
    ensures
        r@ == image@.scaled_to((width, height)),
        r@.wf(),
{
    if image.width == width && image.height == height {
        image
    } else {
        let pixels = resize_rgba(&image.pixels, image.width, image.height, width, height);
        DecodedImage { pixels, width, height, format: image.format }
    }
}

/// Brings two images to common dimensions: those whose width plus height is
/// smaller (the second image's on a tie). Only the image that lacks those
/// dimensions is resampled.
pub fn standardize_size(image_1: DecodedImage, image_2: DecodedImage) -> (r: (
    DecodedImage,
    DecodedImage,
))
    requires
        image_1@.wf(),
        image_2@.wf(),
    ensures
        (r.0@, r.1@) == standardized(image_1@, image_2@),
        r.0@.wf(),
        r.1@.wf(),
        r.0.width == r.1.width && r.0.height == r.1.height,
        (r.0.width, r.0.height) == smallest_dimension(
            (image_1.width, image_1.height),
            (image_2.width, image_2.height),
        ),
        r.0.format == image_1.format,
        r.1.format == image_2.format,
        (image_1.width, image_1.height) == (image_2.width, image_2.height) ==> r.0@ == image_1@
            && r.1@ == image_2@,
{
    let len_1 = image_1.pixels.len();
    let len_2 = image_2.pixels.len();
    let (width, height) = get_smallest_dimension(
        (image_1.width, image_1.height),
        (image_2.width, image_2.height),
    );
    if image_2.width == width && image_2.height == height {
        (scale_to(image_1, width, height), image_2)
    } else {
        (image_1, scale_to(image_2, width, height))
    }
}

/// Copies bytes `start` to `end`, both included, out of `vec`.
pub fn set_rgba(vec: &Vec<u8>, start: usize, end: usize) -> (r: Vec<u8>)
    requires
        start <= end ==> end < vec@.len(),
    ensures
        r@ == if start <= end {
            vec@.subrange(start as int, end + 1)
        } else {
            Seq::<u8>::empty()
        },
{
    let mut rgba: Vec<u8> = Vec::new();
    if start > end {
        return rgba;
    }
    let len = vec.len();
    let mut i: usize = start;
    while i <= end
        invariant
            start <= i <= end + 1,
            end < len,
            len == vec@.len(),
            rgba@ == vec@.subrange(start as int, i as int),
        decreases end + 1 - i,
    {
        rgba.push(vec[i]);
        assert(rgba@ =~= vec@.subrange(start as int, i + 1));
        i += 1;
    }
    rgba
}

/// Byte `j` lies in the four-byte pixel that starts at byte `i`, and that
/// pixel is even-numbered exactly when `i` is a multiple of eight.
proof fn lemma_pixel_of_byte(i: int, j: int)
    requires
        0 <= i,
        i % 4 == 0,
        i <= j < i + 4,
    ensures
        j / 4 == i / 4,
        (i % 8 == 0) == ((i / 4) % 2 == 0),
{
    assert(j / 4 == i / 4) by (nonlinear_arith)
        requires
            0 <= i,
            i % 4 == 0,
            i <= j < i + 4,
    ;
    assert((i % 8 == 0) == ((i / 4) % 2 == 0)) by (nonlinear_arith)
        requires
            0 <= i,
            i % 4 == 0,
    ;
}

/// Interleaves two buffers of four-byte pixels: even-numbered pixels come
/// from `vec_1`, odd-numbered ones from `vec_2`. The result has the length
/// of `vec_1`.
pub fn alternative_pixels(vec_1: Vec<u8>, vec_2: Vec<u8>) -> (r: Vec<u8>)
    requires
        vec_1@.len() % 4 == 0,
        vec_2@.len() >= vec_1@.len(),
    ensures
        r@.len() == vec_1@.len(),
        r@ == interleaved(vec_1@, vec_2@),
{
    let len = vec_1.len();
    let mut combined_data: Vec<u8> = vec![0u8; len];
    let mut i: usize = 0;
    while i < len
        invariant
            len == vec_1@.len(),
            vec_2@.len() >= len,
            len % 4 == 0,
            i % 4 == 0,
            i <= len,
            combined_data@.len() == len,
            forall|j: int| 0 <= j < i ==> combined_data@[j] == interleaved(vec_1@, vec_2@)[j],
        decreases len - i,
    {
        assert(i + 4 <= len) by (nonlinear_arith)
            requires
                i % 4 == 0,
                len % 4 == 0,
                i < len,
        ;
        let from_first = i % 8 == 0;
        let rgba = if from_first {
            set_rgba(&vec_1, i, i + 3)
        } else {
            set_rgba(&vec_2, i, i + 3)
        };
        let mut k: usize = 0;
        while k < 4
            invariant
                i + 4 <= len,
                i % 4 == 0,
                len == vec_1@.len(),
                vec_2@.len() >= len,
                combined_data@.len() == len,
                k <= 4,
                rgba@.len() == 4,
                from_first == (i % 8 == 0),
                from_first ==> rgba@ == vec_1@.subrange(i as int, i + 4),
                !from_first ==> rgba@ == vec_2@.subrange(i as int, i + 4),
                forall|j: int|
                    0 <= j < i + k ==> combined_data@[j] == interleaved(vec_1@, vec_2@)[j],
            decreases 4 - k,
        {
            proof {
                lemma_pixel_of_byte(i as int, i + k);
            }
            combined_data.set(i + k, rgba[k]);
            k += 1;
        }
        i += 4;
    }
    assert(combined_data@ =~= interleaved(vec_1@, vec_2@));
    combined_data
}

/// The interleaved bytes of two images of equal dimensions.
pub fn combine_images(image_1: DecodedImage, image_2: DecodedImage) -> (r: Vec<u8>)
    requires
        image_1@.wf(),
        image_2@.wf(),
        image_1@.dimensions() == image_2@.dimensions(),
    ensures
        r@ == interleaved(image_1.pixels@, image_2.pixels@),
{
    proof {
        assert((image_1.width * image_1.height * 4) % 4 == 0) by (nonlinear_arith);
    }
    alternative_pixels(image_1.pixels, image_2.pixels)
}

/// Combines two decoded inputs into the output image named `output`.
///
/// Inputs of different formats are refused before any other work. Otherwise
/// both are brought to common dimensions and interleaved. The output buffer
/// is allocated with the first normalized image's width for both its width
/// and its height, so its capacity is `width * width * 4` bytes; interleaved
/// data larger than that is refused with `BufferTooSmall`.
pub fn combine(image_1: DecodedImage, image_2: DecodedImage, output: String) -> (r: Result<
    FloatingImage,
    ImageDataErrors,
>)
    requires
        image_1@.wf(),
        image_2@.wf(),
    ensures
        image_1.format != image_2.format ==> r == Err::<FloatingImage, ImageDataErrors>(
            ImageDataErrors::DifferentImageFormats,
        ),
        image_1.format == image_2.format ==> ({
            let width = standardized(image_1@, image_2@).0.width;
            let data = combined_pixels(image_1@, image_2@);
            if data.len() <= width * width * 4 {
                &&& r is Ok
                &&& r->Ok_0.width == width
                &&& r->Ok_0.height == width
                &&& r->Ok_0.data@ == data
                &&& r->Ok_0.name@ == output@
                &&& r->Ok_0.wf()
            } else {
                r == Err::<FloatingImage, ImageDataErrors>(ImageDataErrors::BufferTooSmall)
            }
        }),
{
    if !same_format(&image_1.format, &image_2.format) {
        return Err(ImageDataErrors::DifferentImageFormats);
    }
    let (image_1, image_2) = standardize_size(image_1, image_2);
    let mut output = FloatingImage::new(image_1.width, image_1.width, output);
    let data = combine_images(image_1, image_2);
    match output.set_data(data) {
        Ok(()) => Ok(output),
        Err(e) => Err(e),
    }
}

/// After standardizing, both images have the same dimensions: those of the
/// input whose width plus height is smaller, the second's on a tie.
pub proof fn lemma_standardized_share_dimensions(a: ImageModel, b: ImageModel)
    ensures
        standardized(a, b).0.dimensions() == standardized(a, b).1.dimensions(),
        standardized(a, b).0.dimensions() == smallest_dimension(a.dimensions(), b.dimensions()),
{
}

/// Standardizing a pair that is already standardized changes nothing.
pub proof fn lemma_standardize_idempotent(a: ImageModel, b: ImageModel)
    ensures
        standardized(standardized(a, b).0, standardized(a, b).1) == standardized(a, b),
{
}

/// The input whose width plus height is strictly larger is the one that is
/// resampled, to the other's dimensions; the other is kept as it is. On
/// equal sums the second input's dimensions are the target.
pub proof fn lemma_larger_sum_is_resized(a: ImageModel, b: ImageModel)
    ensures
        pixel_sum(a.dimensions()) < pixel_sum(b.dimensions()) ==> standardized(a, b) == (
            a,
            b.scaled_to(a.dimensions()),
        ),
        pixel_sum(b.dimensions()) < pixel_sum(a.dimensions()) ==> standardized(a, b) == (
            a.scaled_to(b.dimensions()),
            b,
        ),
        pixel_sum(a.dimensions()) == pixel_sum(b.dimensions()) ==> standardized(
            a,
            b,
        ).0.dimensions() == b.dimensions() && standardized(a, b).1.dimensions()
            == b.dimensions(),
{
}

/// Interleaving keeps the length of its inputs, takes byte `i` from the
/// first input when `i / 4` is even and from the second otherwise.
pub proof fn lemma_interleaved_bytes(a: Seq<u8>, b: Seq<u8>)
    requires
        a.len() == b.len(),
    ensures
        interleaved(a, b).len() == a.len(),
        forall|i: int|
            0 <= i < a.len() ==> #[trigger] interleaved(a, b)[i] == if (i / 4) % 2 == 0 {
                a[i]
            } else {
                b[i]
            },
{
}

} // verus!
