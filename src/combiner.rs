use crate::error::ImageDataErrors;
use vstd::prelude::*;

verus! {

/// The three positional paths of an invocation.
pub struct Args {
    pub image_1: String,
    pub image_2: String,
    pub output: String,
}

/// The first position, among 1, 2 and 3, that an argument list of this
/// length lacks (position 0 holds the program name).
pub open spec fn first_missing_position(len: nat) -> usize {
    if len <= 1 {
        1
    } else {
        len as usize
    }
}

impl Args {
    /// Reads the first image path, the second image path and the output
    /// path from positions 1, 2 and 3 of an invocation's argument list.
    pub fn new(args: &Vec<String>) -> (r: Result<Args, ImageDataErrors>)
        ensures
            args@.len() >= 4 <==> r is Ok,
            r is Ok ==> r->Ok_0.image_1@ == args@[1]@ && r->Ok_0.image_2@ == args@[2]@
                && r->Ok_0.output@ == args@[3]@,
            args@.len() < 4 ==> r == Err::<Args, ImageDataErrors>(
                ImageDataErrors::MissingArgument(first_missing_position(args@.len())),
            ),
    {
        if args.len() < 4 {
            let position: usize = if args.len() <= 1 {
                1
            } else {
                args.len()
            };
            return Err(ImageDataErrors::MissingArgument(position));
        }
        Ok(Args { image_1: args[1].clone(), image_2: args[2].clone(), output: args[3].clone() })
    }
}

/// An output image: declared dimensions, a name (the path it is written to)
/// and its RGBA pixel bytes.
pub struct FloatingImage {
    pub width: u32,
    pub height: u32,
    pub data: Vec<u8>,
    pub name: String,
}

/// The pixel count of two `u32` dimensions fits in 64 bits.
proof fn lemma_pixel_count_bound(width: u32, height: u32)
    ensures
        0 <= width * height <= u64::MAX,
        width * height * 4 <= u128::MAX,
{
    assert(0 <= width * height <= u64::MAX) by (nonlinear_arith)
        requires
            0 <= width <= u32::MAX,
            0 <= height <= u32::MAX,
    ;
}

impl FloatingImage {
    /// The number of bytes the buffer was allocated for: four per pixel of
    /// the declared dimensions.
    pub open spec fn capacity(&self) -> int {
        self.width * self.height * 4
    }

    /// The pixel data fits the allocated capacity.
    pub open spec fn wf(&self) -> bool {
        self.data@.len() <= self.capacity()
    }

    /// An empty image whose buffer is allocated for `width * height` pixels.
    pub fn new(width: u32, height: u32, name: String) -> (r: Self)
        ensures
            r.width == width,
            r.height == height,
            r.name@ == name@,
            r.data@.len() == 0,
            r.wf(),
    {
        proof {
            lemma_pixel_count_bound(width, height);
        }
        let pixel_count: u64 = (width as u64) * (height as u64);
        let buffer: Vec<u8> = if pixel_count <= (usize::MAX as u64) / 4 {
            Vec::with_capacity((pixel_count * 4) as usize)
        } else {
            Vec::new()
        };
        FloatingImage { width, height, data: buffer, name }
    }

    /// Replaces the pixel data with `data` when it fits the allocated
    /// capacity; otherwise fails and leaves the image as it was.
    pub fn set_data(&mut self, data: Vec<u8>) -> (r: Result<(), ImageDataErrors>)
        ensures
            data@.len() <= old(self).capacity() <==> r is Ok,
            r is Ok ==> final(self).data@ == data@ && final(self).width == old(self).width
                && final(self).height == old(self).height && final(self).name == old(self).name,
            r is Err ==> r == Err::<(), ImageDataErrors>(ImageDataErrors::BufferTooSmall)
                && *final(self) == *old(self),
    {
        proof {
            lemma_pixel_count_bound(self.width, self.height);
        }
        let capacity: u128 = (self.width as u128) * (self.height as u128) * 4;
        if (data.len() as u128) > capacity {
            Err(ImageDataErrors::BufferTooSmall)
        } else {
            self.data = data;
            Ok(())
        }
    }
}

} // verus!
