//! The pixel buffer handed to the recognition engine: width, height and a
//! byte buffer that must hold exactly `width * height * 4` bytes of
//! 4-channel pixel data. A buffer of any other size is rejected before it
//! can reach the engine.

use vstd::prelude::*;

use vstd::arithmetic::mul::lemma_mul_upper_bound;

use crate::error::DocrError;

verus! {

/// The byte count a buffer of the given dimensions must hold.
pub open spec fn expected_byte_len(width: u32, height: u32) -> int {
    width as int * height as int * 4
}

/// The message of the validation error for a buffer of the wrong size.
pub open spec fn buffer_size_message() -> Seq<char> {
    "Pixel buffer length does not equal width * height * 4"@
}

/// A validated 4-channel pixel buffer.
pub struct PixelBuffer {
    width: u32,
    height: u32,
    data: Vec<u8>,
}

impl PixelBuffer {
    /// The buffer invariant: exactly `width * height * 4` bytes.
    pub open spec fn wf(&self) -> bool {
        self.bytes_spec().len() == expected_byte_len(self.width_spec(), self.height_spec())
    }

    pub closed spec fn width_spec(&self) -> u32 {
        self.width
    }

    pub closed spec fn height_spec(&self) -> u32 {
        self.height
    }

    pub closed spec fn bytes_spec(&self) -> Seq<u8> {
        self.data@
    }

    /// Validate caller-supplied raw pixel data: accepted exactly when the
    /// byte buffer holds `width * height * 4` bytes, rejected with a
    /// validation error otherwise — before any engine call can see it.
    pub fn from_raw(data: Vec<u8>, width: u32, height: u32) -> (r: Result<PixelBuffer, DocrError>)
        ensures
            match r {
                Ok(b) => {
                    &&& data@.len() == expected_byte_len(width, height)
                    &&& b.wf()
                    &&& b.width_spec() == width
                    &&& b.height_spec() == height
                    &&& b.bytes_spec() == data@
                },
                Err(e) => {
                    &&& data@.len() != expected_byte_len(width, height)
                    &&& e matches DocrError::OperationError(m) && m@ == buffer_size_message()
                },
            },
    {
        proof {
            lemma_mul_upper_bound(width as int, 0xffff_ffff, height as int, 0xffff_ffff);
        }
        let needed: u128 = (width as u128) * (height as u128) * 4;
        if (data.len() as u128) == needed {
            Ok(PixelBuffer { width, height, data })
        } else {
            Err(DocrError::OperationError(String::from_str(
                "Pixel buffer length does not equal width * height * 4",
            )))
        }
    }

    /// The buffer's width in pixels.
    pub fn width(&self) -> (w: u32)
        ensures
            w == self.width_spec(),
    {
        self.width
    }

    /// The buffer's height in pixels.
    pub fn height(&self) -> (h: u32)
        ensures
            h == self.height_spec(),
    {
        self.height
    }

    /// Borrow the raw pixel bytes.
    pub fn bytes(&self) -> (b: &Vec<u8>)
        ensures
            b@ == self.bytes_spec(),
    {
        &self.data
    }
}

} // verus!
