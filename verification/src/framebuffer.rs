//! The framebuffer blit: copy a source pixel rectangle from guest memory
//! onto a destination surface in guest memory, clipped to the surface, with
//! optional premultiplied alpha blending — all in exact integer arithmetic.
//!
//! Both rectangles are snapshotted before any byte changes, so overlapping
//! source and destination ranges behave as if the source were read first,
//! and every destination pixel is computed from the original contents.
use vstd::prelude::*;
use vstd::slice::{slice_subrange, slice_to_vec};

verus! {

/// The resolved geometry of one blit: where the visible (clipped) rectangle
/// lies on the destination surface, where its pixels come from in the
/// source, and how the surfaces sit in guest memory.
pub struct BlitParams {
    pub dest_ptr: int,
    pub dest_w: int,
    pub src_ptr: int,
    pub src_w: int,
    pub vis_left: int,
    pub vis_top: int,
    pub vis_w: int,
    pub vis_h: int,
    pub start_src_x: int,
    pub start_src_y: int,
    pub blend: bool,
}

/// The clipped geometry of a blit of a `src_w x src_h` rectangle placed at
/// `(dest_x, dest_y)` on a `dest_w x dest_h` surface: the visible part is
/// the intersection with the surface, and an empty source is nothing at
/// all. Row and column counts that come out non-positive mean no pixel is
/// touched.
pub open spec fn blit_params(
    dest_ptr: u32,
    dest_w: u32,
    dest_x: int,
    dest_y: int,
    src_w: u32,
    src_h: u32,
    src_ptr: u32,
    blend: bool,
    dest_h: u32,
) -> BlitParams {
    let vis_left = if dest_x > 0 {
        dest_x
    } else {
        0
    };
    let vis_top = if dest_y > 0 {
        dest_y
    } else {
        0
    };
    let vis_right = if dest_x + src_w < dest_w {
        dest_x + src_w
    } else {
        dest_w as int
    };
    let vis_bottom = if dest_y + src_h < dest_h {
        dest_y + src_h
    } else {
        dest_h as int
    };
    let degenerate = src_w == 0 || src_h == 0 || vis_left >= vis_right || vis_top >= vis_bottom;
    BlitParams {
        dest_ptr: dest_ptr as int,
        dest_w: dest_w as int,
        src_ptr: src_ptr as int,
        src_w: src_w as int,
        vis_left,
        vis_top,
        vis_w: if degenerate {
            0
        } else {
            vis_right - vis_left
        },
        vis_h: if degenerate {
            0
        } else {
            vis_bottom - vis_top
        },
        start_src_x: vis_left - dest_x,
        start_src_y: vis_top - dest_y,
        blend,
    }
}

/// Where the destination pixel `(col, row)` of the visible rectangle lives
/// in guest memory.
pub open spec fn dest_index(p: BlitParams, row: int, col: int) -> int {
    p.dest_ptr + ((p.vis_top + row) * p.dest_w + (p.vis_left + col)) * 4
}

/// Where the source pixel feeding destination pixel `(col, row)` lives in
/// guest memory.
pub open spec fn src_index(p: BlitParams, row: int, col: int) -> int {
    p.src_ptr + ((p.start_src_y + row) * p.src_w + (p.start_src_x + col)) * 4
}

/// One blended channel: source plus destination scaled by the inverse
/// source alpha, rounded, clamped to a byte.
pub open spec fn blend_channel(sc: u8, dc: u8, sa: u8) -> u8 {
    let v = sc + ((dc * (255 - sa) + 127) / 255);
    if v > 255 {
        255u8
    } else {
        v as u8
    }
}

/// The four bytes a destination pixel ends with, given the source pixel `s`
/// and the original destination pixel `d`: transparent sources leave the
/// destination alone, opaque sources (or a blit without blending) replace
/// it, and everything else blends channelwise.
pub open spec fn blit_pixel(s: Seq<u8>, d: Seq<u8>, blend: bool) -> Seq<u8> {
    let sa = s[3];
    if sa == 0 {
        d
    } else if !blend || sa == 255 {
        s
    } else {
        seq![
            blend_channel(s[0], d[0], sa),
            blend_channel(s[1], d[1], sa),
            blend_channel(s[2], d[2], sa),
            blend_channel(s[3], d[3], sa),
        ]
    }
}

/// The bytes destination pixel `(col, row)` ends with, all read from the
/// memory as it was before the blit.
pub open spec fn out_pixel(orig: Seq<u8>, p: BlitParams, row: int, col: int) -> Seq<u8> {
    let s = orig.subrange(src_index(p, row, col), src_index(p, row, col) + 4);
    let d = orig.subrange(dest_index(p, row, col), dest_index(p, row, col) + 4);
    blit_pixel(s, d, p.blend)
}

/// Write destination pixel `(col, row)`.
pub open spec fn write_pixel(m: Seq<u8>, orig: Seq<u8>, p: BlitParams, row: int, col: int) -> Seq<
    u8,
> {
    let px = out_pixel(orig, p, row, col);
    let i0 = dest_index(p, row, col);
    m.update(i0, px[0]).update(i0 + 1, px[1]).update(i0 + 2, px[2]).update(i0 + 3, px[3])
}

/// Write the first `ncols` pixels of visible row `row`, left to right.
pub open spec fn blit_row(m: Seq<u8>, orig: Seq<u8>, p: BlitParams, row: int, ncols: int) -> Seq<
    u8,
>
    decreases ncols,
{
    if ncols <= 0 {
        m
    } else {
        write_pixel(blit_row(m, orig, p, row, ncols - 1), orig, p, row, ncols - 1)
    }
}

/// Write the first `nrows` visible rows, top to bottom: the whole blit is
/// `blit_rows(mem, mem, p, p.vis_h)`.
pub open spec fn blit_rows(m: Seq<u8>, orig: Seq<u8>, p: BlitParams, nrows: int) -> Seq<u8>
    decreases nrows,
{
    if nrows <= 0 {
        m
    } else {
        blit_row(blit_rows(m, orig, p, nrows - 1), orig, p, nrows - 1, p.vis_w)
    }
}

/// Blit a `src_w x src_h` RGBA rectangle at `src_ptr` onto the
/// `dest_w x dest_h` surface at `dest_ptr`, placing its top-left corner at
/// `(dest_x, dest_y)` and clipping to the surface; with `blend`, source
/// pixels are alpha-blended over the destination, otherwise copied.
///
/// Either pixel range reaching past guest memory is a boundary fault: the
/// whole blit is refused and nothing is touched.
pub fn blit_premultiplied_clipped(
    mem: &mut [u8],
    dest_ptr: u32,
    dest_w: u32,
    dest_h: u32,
    dest_x: i32,
    dest_y: i32,
    src_w: u32,
    src_h: u32,
    src_ptr: u32,
    blend: bool,
) -> (ok: bool)
    ensures
        final(mem)@.len() == old(mem)@.len(),
        ok == (dest_ptr + dest_w * dest_h * 4 <= old(mem)@.len() && src_ptr + src_w * src_h * 4
            <= old(mem)@.len()),
        !ok ==> final(mem)@ == old(mem)@,
        ok ==> ({
            let p = blit_params(
                dest_ptr,
                dest_w,
                dest_x as int,
                dest_y as int,
                src_w,
                src_h,
                src_ptr,
                blend,
                dest_h,
            );
            final(mem)@ == blit_rows(old(mem)@, old(mem)@, p, p.vis_h)
        }),
{
    let mlen = mem.len();
    proof {
        assert((dest_w as u128) * (dest_h as u128) * 4 < 0x10000_0000_0000_0000_0000u128)
            by (nonlinear_arith)
            requires
                dest_w <= 0xffff_ffffu32,
                dest_h <= 0xffff_ffffu32,
        ;
        assert((src_w as u128) * (src_h as u128) * 4 < 0x10000_0000_0000_0000_0000u128)
            by (nonlinear_arith)
            requires
                src_w <= 0xffff_ffffu32,
                src_h <= 0xffff_ffffu32,
        ;
    }
    let dest_bytes128 = (dest_w as u128) * (dest_h as u128) * 4;
    let src_bytes128 = (src_w as u128) * (src_h as u128) * 4;
    if dest_bytes128 > (mlen as u128) || (dest_ptr as u128) > (mlen as u128) - dest_bytes128 {
        return false;
    }
    if src_bytes128 > (mlen as u128) || (src_ptr as u128) > (mlen as u128) - src_bytes128 {
        return false;
    }
    let dest_bytes = dest_bytes128 as usize;
    let src_bytes = src_bytes128 as usize;
    let ghost p = blit_params(
        dest_ptr,
        dest_w,
        dest_x as int,
        dest_y as int,
        src_w,
        src_h,
        src_ptr,
        blend,
        dest_h,
    );
    if src_w == 0 || src_h == 0 {
        proof {
            assert(p.vis_h == 0);
        }
        return true;
    }
    // clip in 64-bit arithmetic: every quantity fits comfortably
    let dx64 = dest_x as i64;
    let dy64 = dest_y as i64;
    let vl64: i64 = if dx64 > 0 {
        dx64
    } else {
        0
    };
    let vt64: i64 = if dy64 > 0 {
        dy64
    } else {
        0
    };
    let vr64: i64 = if dx64 + (src_w as i64) < (dest_w as i64) {
        dx64 + (src_w as i64)
    } else {
        dest_w as i64
    };
    let vb64: i64 = if dy64 + (src_h as i64) < (dest_h as i64) {
        dy64 + (src_h as i64)
    } else {
        dest_h as i64
    };
    if vl64 >= vr64 || vt64 >= vb64 {
        proof {
            assert(p.vis_h == 0);
        }
        return true;
    }
    let vis_w = (vr64 - vl64) as usize;
    let vis_h = (vb64 - vt64) as usize;
    let start_src_x = (vl64 - dx64) as usize;
    let start_src_y = (vt64 - dy64) as usize;
    let vis_left = vl64 as usize;
    let vis_top = vt64 as usize;
    // snapshot both rectangles: the blit then reads only original bytes
    let src_copy = slice_to_vec(
        slice_subrange(mem, src_ptr as usize, src_ptr as usize + src_bytes),
    );
    let dest_copy = slice_to_vec(
        slice_subrange(mem, dest_ptr as usize, dest_ptr as usize + dest_bytes),
    );
    let dw = dest_w as usize;
    let sw = src_w as usize;
    let dbase = dest_ptr as usize;
    proof {
        assert(p.vis_w == vis_w);
        assert(p.vis_h == vis_h);
        assert(p.vis_left == vis_left);
        assert(p.vis_top == vis_top);
        assert(p.start_src_x == start_src_x);
        assert(p.start_src_y == start_src_y);
        assert(mem@ == blit_rows(old(mem)@, old(mem)@, p, 0));
    }
    for row in 0..vis_h
        invariant
            mem@.len() == old(mem)@.len(),
            mlen == mem@.len(),
            src_copy@ == old(mem)@.subrange(src_ptr as int, src_ptr + src_w * src_h * 4),
            dest_copy@ == old(mem)@.subrange(dest_ptr as int, dest_ptr + dest_w * dest_h * 4),
            p == blit_params(
                dest_ptr,
                dest_w,
                dest_x as int,
                dest_y as int,
                src_w,
                src_h,
                src_ptr,
                blend,
                dest_h,
            ),
            p.vis_w == vis_w,
            p.vis_h == vis_h,
            p.vis_left == vis_left,
            p.vis_top == vis_top,
            p.start_src_x == start_src_x,
            p.start_src_y == start_src_y,
            p.dest_w == dw,
            p.src_w == sw,
            p.dest_ptr == dbase,
            p.src_ptr == src_ptr as int,
            p.blend == blend,
            dw == dest_w,
            sw == src_w,
            dbase == dest_ptr,
            vis_top + vis_h <= dest_h,
            vis_left + vis_w <= dest_w,
            start_src_y + vis_h <= src_h,
            start_src_x + vis_w <= src_w,
            dbase + dest_w * dest_h * 4 <= mlen,
            src_ptr + src_w * src_h * 4 <= mlen,
            mem@ == blit_rows(old(mem)@, old(mem)@, p, row as int),
    {
        let ghost row_base = blit_rows(old(mem)@, old(mem)@, p, row as int);
        for col in 0..vis_w
            invariant
                mem@.len() == old(mem)@.len(),
                mlen == mem@.len(),
                src_copy@ == old(mem)@.subrange(src_ptr as int, src_ptr + src_w * src_h * 4),
                dest_copy@ == old(mem)@.subrange(
                    dest_ptr as int,
                    dest_ptr + dest_w * dest_h * 4,
                ),
                row < vis_h,
                p.vis_w == vis_w,
                p.vis_h == vis_h,
                p.vis_left == vis_left,
                p.vis_top == vis_top,
                p.start_src_x == start_src_x,
                p.start_src_y == start_src_y,
                p.dest_w == dw,
                p.src_w == sw,
                p.dest_ptr == dbase,
                p.src_ptr == src_ptr as int,
                p.blend == blend,
                dw == dest_w,
                sw == src_w,
                dbase == dest_ptr,
                vis_top + vis_h <= dest_h,
                vis_left + vis_w <= dest_w,
                start_src_y + vis_h <= src_h,
                start_src_x + vis_w <= src_w,
                dbase + dest_w * dest_h * 4 <= mlen,
                src_ptr + src_w * src_h * 4 <= mlen,
                row_base == blit_rows(old(mem)@, old(mem)@, p, row as int),
                mem@ == blit_row(row_base, old(mem)@, p, row as int, col as int),
        {
            let dy = vis_top + row;
            let dxp = vis_left + col;
            let sy = start_src_y + row;
            let sx = start_src_x + col;
            proof {
                assert((sy * sw + sx) * 4 + 4 <= sw * (src_h as int) * 4) by (nonlinear_arith)
                    requires
                        0 <= sx < sw,
                        0 <= sy,
                        sy + 1 <= src_h as int,
                        sw == src_w as int,
                ;
                assert((dy * dw + dxp) * 4 + 4 <= dw * (dest_h as int) * 4) by (nonlinear_arith)
                    requires
                        0 <= dxp < dw,
                        0 <= dy,
                        dy + 1 <= dest_h as int,
                        dw == dest_w as int,
                ;
            }
            let soff = (sy * sw + sx) * 4;
            let doff = (dy * dw + dxp) * 4;
            let didx = dbase + doff;
            let sa = src_copy[soff + 3];
            let ghost pre_pixel = mem@;
            let b0: u8;
            let b1: u8;
            let b2: u8;
            let b3: u8;
            if sa == 0 {
                // transparent source: the destination pixel keeps its bytes
                b0 = dest_copy[doff];
                b1 = dest_copy[doff + 1];
                b2 = dest_copy[doff + 2];
                b3 = dest_copy[doff + 3];
            } else if !blend || sa == 255 {
                b0 = src_copy[soff];
                b1 = src_copy[soff + 1];
                b2 = src_copy[soff + 2];
                b3 = src_copy[soff + 3];
            } else {
                b0 = blended(src_copy[soff], dest_copy[doff], sa);
                b1 = blended(src_copy[soff + 1], dest_copy[doff + 1], sa);
                b2 = blended(src_copy[soff + 2], dest_copy[doff + 2], sa);
                b3 = blended(src_copy[soff + 3], dest_copy[doff + 3], sa);
            }
            mem[didx] = b0;
            mem[didx + 1] = b1;
            mem[didx + 2] = b2;
            mem[didx + 3] = b3;
            proof {
                let orig = old(mem)@;
                assert(src_index(p, row as int, col as int) == src_ptr + soff);
                assert(dest_index(p, row as int, col as int) == didx);
                let s = orig.subrange(src_ptr + soff, src_ptr + soff + 4);
                let d = orig.subrange(didx as int, didx + 4);
                assert(s =~= seq![
                    src_copy@[soff as int],
                    src_copy@[soff + 1],
                    src_copy@[soff + 2],
                    src_copy@[soff + 3],
                ]);
                assert(d =~= seq![
                    dest_copy@[doff as int],
                    dest_copy@[doff + 1],
                    dest_copy@[doff + 2],
                    dest_copy@[doff + 3],
                ]);
                let px = out_pixel(orig, p, row as int, col as int);
                assert(px == blit_pixel(s, d, blend));
                assert(px.len() == 4 && px[0] == b0 && px[1] == b1 && px[2] == b2 && px[3] == b3);
                assert(mem@ =~= write_pixel(pre_pixel, orig, p, row as int, col as int));
                assert(mem@ == blit_row(row_base, orig, p, row as int, col as int + 1));
            }
        }
        proof {
            assert(mem@ == blit_rows(old(mem)@, old(mem)@, p, row as int + 1));
        }
    }
    true
}

/// One blended channel in executable form.
fn blended(sc: u8, dc: u8, sa: u8) -> (r: u8)
    ensures
        r == blend_channel(sc, dc, sa),
{
    let inv: u32 = 255 - (sa as u32);
    proof {
        assert((dc as u32) * inv <= 255 * 255) by (nonlinear_arith)
            requires
                dc <= 255u8,
                inv <= 255u32,
        ;
    }
    let v: u32 = (sc as u32) + (((dc as u32) * inv + 127) / 255);
    if v > 255 {
        255
    } else {
        v as u8
    }
}

} // verus!
