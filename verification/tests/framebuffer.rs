//! The framebuffer blit: clipping, copying, blending, boundary faults.
use gooseboy_core::framebuffer::blit_premultiplied_clipped;

/// A guest memory holding a dest surface at 0 and a src rectangle after it.
fn memory(dest: &[u8], src: &[u8]) -> (Vec<u8>, u32) {
    let mut mem = dest.to_vec();
    let src_ptr = mem.len() as u32;
    mem.extend_from_slice(src);
    (mem, src_ptr)
}

#[test]
fn opaque_copy_lands_at_the_offset() {
    // 2x2 dest of zeros, 1x1 opaque source pixel placed at (1, 0)
    let (mut mem, src_ptr) = memory(&[0u8; 16], &[9, 8, 7, 255]);
    assert!(blit_premultiplied_clipped(&mut mem, 0, 2, 2, 1, 0, 1, 1, src_ptr, true));
    assert_eq!(&mem[..16], &[0, 0, 0, 0, 9, 8, 7, 255, 0, 0, 0, 0, 0, 0, 0, 0]);
}

#[test]
fn clipping_drops_offscreen_pixels() {
    // 2x1 source placed at x = -1: only its right pixel is visible at (0, 0)
    let (mut mem, src_ptr) = memory(&[0u8; 8], &[1, 1, 1, 255, 2, 2, 2, 255]);
    assert!(blit_premultiplied_clipped(&mut mem, 0, 2, 1, -1, 0, 2, 1, src_ptr, false));
    assert_eq!(&mem[..8], &[2, 2, 2, 255, 0, 0, 0, 0]);
}

#[test]
fn transparent_source_leaves_destination() {
    let (mut mem, src_ptr) = memory(&[5, 5, 5, 5], &[9, 9, 9, 0]);
    assert!(blit_premultiplied_clipped(&mut mem, 0, 1, 1, 0, 0, 1, 1, src_ptr, true));
    assert_eq!(&mem[..4], &[5, 5, 5, 5]);
}

#[test]
fn half_alpha_blends_channelwise() {
    // source premultiplied, alpha 128; dest 100 per channel
    let (mut mem, src_ptr) = memory(&[100, 100, 100, 100], &[100, 0, 50, 128]);
    assert!(blit_premultiplied_clipped(&mut mem, 0, 1, 1, 0, 0, 1, 1, src_ptr, true));
    // out = src + (dest * (255 - 128) + 127) / 255 = src + 50
    assert_eq!(&mem[..4], &[150, 50, 100, 178]);
}

#[test]
fn without_blending_alpha_is_copied_verbatim() {
    let (mut mem, src_ptr) = memory(&[100, 100, 100, 100], &[100, 0, 50, 128]);
    assert!(blit_premultiplied_clipped(&mut mem, 0, 1, 1, 0, 0, 1, 1, src_ptr, false));
    assert_eq!(&mem[..4], &[100, 0, 50, 128]);
}

#[test]
fn out_of_bounds_rectangles_are_refused() {
    let mut mem = vec![0u8; 16];
    // dest surface would need 16 bytes starting at 4
    assert!(!blit_premultiplied_clipped(&mut mem, 4, 2, 2, 0, 0, 1, 1, 0, true));
    // src rectangle would need 8 bytes starting at 12
    assert!(!blit_premultiplied_clipped(&mut mem, 0, 1, 1, 0, 0, 2, 1, 12, true));
    assert_eq!(mem, vec![0u8; 16]);
}

#[test]
fn empty_source_is_a_no_op() {
    let mut mem = vec![3u8; 8];
    assert!(blit_premultiplied_clipped(&mut mem, 0, 1, 2, 0, 0, 0, 5, 0, true));
    assert_eq!(mem, vec![3u8; 8]);
}
