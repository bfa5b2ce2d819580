//! The thumbnail-resizing rule: images sent to the vision model are scaled
//! to fit a fixed bounding box, keeping their aspect ratio.  The actual
//! decoding and re-encoding of image files is the surrounding program's
//! business; the size computation is verified here.

use vstd::prelude::*;

verus! {

/// The size an image must be scaled to so that it fits the
/// `max_width` x `max_height` box with its aspect ratio kept: the limiting
/// dimension takes the box's size and the other one is scaled by the same
/// ratio, rounded down.  A square image takes the box itself.
pub fn calculate_new_size(width: u32, height: u32, max_width: u32, max_height: u32) -> (r: (
    u32,
    u32,
))
    ensures
        width > height ==> r.0 == max_width && r.1 == max_width as int * height as int
            / width as int,
        width < height ==> r.1 == max_height && r.0 == max_height as int * width as int
            / height as int,
        width == height ==> r == (max_width, max_height),
{
    if width > height {
        proof {
            assert((max_width as int) * (height as int) < 0x10000000000000000int)
                by (nonlinear_arith)
                requires
                    max_width < 0x100000000,
                    height < 0x100000000,
            ;
            assert((max_width as int) * (height as int) / (width as int) <= max_width as int)
                by (nonlinear_arith)
                requires
                    height < width,
                    0 < width,
                    0 <= max_width,
            ;
        }
        let nh64 = (max_width as u64) * (height as u64) / (width as u64);
        (max_width, nh64 as u32)
    } else if width < height {
        proof {
            assert((max_height as int) * (width as int) < 0x10000000000000000int)
                by (nonlinear_arith)
                requires
                    max_height < 0x100000000,
                    width < 0x100000000,
            ;
            assert((max_height as int) * (width as int) / (height as int) <= max_height as int)
                by (nonlinear_arith)
                requires
                    width < height,
                    0 < height,
                    0 <= max_height,
            ;
        }
        let nw64 = (max_height as u64) * (width as u64) / (height as u64);
        (nw64 as u32, max_height)
    } else {
        (max_width, max_height)
    }
}

} // verus!
