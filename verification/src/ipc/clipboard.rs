//! The checks on an image read from the clipboard before it is encoded.
use vstd::prelude::*;

verus! {

/// The largest clipboard image taken: 16 MiB of pixel data and at most a
/// 4K screen's worth of pixels.
pub const MAX_CLIPBOARD_BYTES: usize = 16777216;

/// A 4K screen's pixel count.
pub const MAX_CLIPBOARD_PIXELS: u64 = 8294400;

/// The outcome of the checks on a `width` x `height` image with `rgba_len`
/// bytes of pixel data.
pub open spec fn clipboard_check(width: u32, height: u32, rgba_len: usize) -> Result<(), Seq<char>> {
    if width == 0 || height == 0 || rgba_len == 0 {
        Err("no image in clipboard"@)
    } else if rgba_len > MAX_CLIPBOARD_BYTES || width * height > MAX_CLIPBOARD_PIXELS {
        Err("clipboard image too large"@)
    } else {
        Ok(())
    }
}

/// Checks a clipboard image: there must be one, and it must not be too
/// large to encode without freezing the window.
pub fn check_clipboard_image(width: u32, height: u32, rgba_len: usize) -> (r: Result<(), String>)
    ensures
        match (r, clipboard_check(width, height, rgba_len)) {
            (Ok(_), Ok(_)) => true,
            (Err(e), Err(f)) => e@ == f,
            _ => false,
        },
{
    if width == 0 || height == 0 || rgba_len == 0 {
        return Err("no image in clipboard".to_owned());
    }
    assert((width as int) * (height as int) <= 0xffff_ffff * 0xffff_ffff) by (nonlinear_arith)
        requires
            width <= 0xffff_ffff,
            height <= 0xffff_ffff,
    ;
    let pixels: u64 = (width as u64) * (height as u64);
    if rgba_len > MAX_CLIPBOARD_BYTES || pixels > MAX_CLIPBOARD_PIXELS {
        return Err("clipboard image too large".to_owned());
    }
    Ok(())
}

} // verus!
