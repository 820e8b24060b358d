use vstd::prelude::*;
use crate::encoding::base64_len;

verus! {

/// Byte offset of pixel (x, y) in a row-major 4-byte-per-pixel buffer `stride` pixels wide.
pub open spec fn pixel_offset(stride: int, x: int, y: int) -> int {
    (y * stride + x) * 4
}

/// True when the `w`-by-`h` rectangle at (x, y) lies inside a `bw`-by-`bh` buffer.
pub open spec fn region_in_bounds(bw: int, bh: int, x: int, y: int, w: int, h: int) -> bool {
    0 <= x && 0 <= y && 0 <= w && 0 <= h && x + w <= bw && y + h <= bh
}

/// The pixel bytes of the `w`-by-`h` rectangle at (x, y), rows concatenated top to bottom.
pub open spec fn region_bytes(data: Seq<u8>, stride: int, x: int, y: int, w: int, h: int) -> Seq<u8>
    decreases h,
{
    if h <= 0 {
        Seq::empty()
    } else {
        let start = pixel_offset(stride, x, y + h - 1);
        region_bytes(data, stride, x, y, w, h - 1) + data.subrange(start, start + w * 4)
    }
}

/// A row of a rectangle ends inside the buffer.
pub proof fn lemma_row_in_buffer(bw: int, bh: int, x: int, y: int, w: int, h: int, r: int)
    requires
        region_in_bounds(bw, bh, x, y, w, h),
        0 <= r < h,
    ensures
        0 <= pixel_offset(bw, x, y + r),
        pixel_offset(bw, x, y + r) + w * 4 <= bw * bh * 4,
{
    assert(0 <= (y + r) * bw) by (nonlinear_arith)
        requires 0 <= y + r, 0 <= bw;
    assert((y + r) * bw + bw <= bh * bw) by (nonlinear_arith)
        requires y + r + 1 <= bh, 0 <= bw;
}

/// The bytes of an in-bounds rectangle number four per pixel.
pub proof fn lemma_region_len(data: Seq<u8>, bw: int, bh: int, x: int, y: int, w: int, h: int)
    requires
        region_in_bounds(bw, bh, x, y, w, h),
        data.len() == bw * bh * 4,
    ensures
        region_bytes(data, bw, x, y, w, h).len() == w * h * 4,
    decreases h,
{
    if h <= 0 {
        assert(w * h * 4 == 0) by (nonlinear_arith)
            requires h == 0;
    } else {
        lemma_region_len(data, bw, bh, x, y, w, h - 1);
        lemma_row_in_buffer(bw, bh, x, y, w, h, h - 1);
        assert(w * (h - 1) * 4 + w * 4 == w * h * 4) by (nonlinear_arith);
    }
}

/// A rectangle that fits in a buffer has no more pixels than the buffer.
pub proof fn lemma_region_within(bw: int, bh: int, w: int, h: int)
    requires
        0 <= w <= bw,
        0 <= h <= bh,
    ensures
        w * h * 4 <= bw * bh * 4,
{
    assert(w * h <= bw * bh) by (nonlinear_arith)
        requires 0 <= w <= bw, 0 <= h <= bh;
}

/// Two 16-bit-sized factors (the first one past a row end at most) multiply within 33 bits.
pub proof fn lemma_small_product(a: int, b: int)
    requires
        0 <= a <= 0x1_ffff,
        0 <= b <= 0xffff,
    ensures
        0 <= a * b <= 0x1_ffff * 0xffff,
{
    assert(0 <= a * b <= 0x1_ffff * 0xffff) by (nonlinear_arith)
        requires 0 <= a <= 0x1_ffff, 0 <= b <= 0xffff;
}

/// Index of the source byte that lands at `i` when a pixel's first and third bytes swap.
pub open spec fn channel_swap_index(i: int) -> int {
    if i % 4 == 0 {
        i + 2
    } else if i % 4 == 2 {
        i - 2
    } else {
        i
    }
}

/// The buffer after copying row `r` of a `w`-pixel-wide source block to (x, y + r),
/// when both the source row and the destination row lie inside their buffers.
pub open spec fn copy_row(dst: Seq<u8>, stride: int, x: int, y: int, w: int, src: Seq<u8>, r: int) -> Seq<u8> {
    let so = r * w * 4;
    let d = pixel_offset(stride, x, y + r);
    let len = w * 4;
    if so + len <= src.len() && d + len <= dst.len() {
        dst.subrange(0, d) + src.subrange(so, so + len) + dst.subrange(d + len, dst.len() as int)
    } else {
        dst
    }
}

/// The buffer after copying the first `h` rows of a source block, one row after another.
pub open spec fn copy_rows(dst: Seq<u8>, stride: int, x: int, y: int, w: int, src: Seq<u8>, h: int) -> Seq<u8>
    decreases h,
{
    if h <= 0 {
        dst
    } else {
        copy_row(copy_rows(dst, stride, x, y, w, src, h - 1), stride, x, y, w, src, h - 1)
    }
}

proof fn lemma_swap_step(data: Seq<u8>, prev: Seq<u8>, next: Seq<u8>, p: int)
    requires
        0 <= p,
        4 * p + 4 <= data.len(),
        prev.len() == 4 * p,
        next == prev.push(data[4 * p + 2]).push(data[4 * p + 1]).push(data[4 * p]).push(data[4 * p + 3]),
        forall|k: int| 0 <= k < 4 * p ==> prev[k] == data[channel_swap_index(k)],
    ensures
        forall|k: int| 0 <= k < 4 * p + 4 ==> next[k] == data[channel_swap_index(k)],
{
    let i = 4 * p;
    assert(channel_swap_index(i) == i + 2);
    assert(channel_swap_index(i + 1) == i + 1);
    assert(channel_swap_index(i + 2) == i);
    assert(channel_swap_index(i + 3) == i + 3);
    assert forall|k: int| 0 <= k < i + 4 implies next[k] == data[channel_swap_index(k)] by {
        if k < i {
            assert(next[k] == prev[k]);
        }
    }
}

/// A screen-sized block of 4-byte pixels, stored row by row.
pub struct FrameBuffer {
    pub width: u16,
    pub height: u16,
    pub data: Vec<u8>,
}

impl FrameBuffer {
    /// The pixel store holds exactly `width * height` pixels, and its base64 text
    /// fits in memory.
    pub open spec fn wf(&self) -> bool {
        &&& self.data@.len() == self.width * self.height * 4
        &&& base64_len(self.data@.len() as int) <= usize::MAX
    }

    /// A black, fully transparent buffer of the given size.
    pub fn new(width: u16, height: u16) -> (r: Self)
        requires
            base64_len(width * height * 4) <= usize::MAX,
        ensures
            r.width == width,
            r.height == height,
            r.wf(),
            forall|i: int| 0 <= i < r.data@.len() ==> r.data@[i] == 0,
    {
        let size: usize = ((width as u64) * (height as u64) * 4) as usize;
        let mut data: Vec<u8> = Vec::new();
        let mut i: usize = 0;
        while i < size
            invariant
                i <= size,
                data@.len() == i,
                forall|k: int| 0 <= k < i ==> data@[k] == 0,
            decreases size - i,
        {
            data.push(0);
            i = i + 1;
        }
        FrameBuffer { width, height, data }
    }

    /// Copies a `width`-by-`height` block of pixels, given row by row in `data`, to (x, y).
    /// A row whose source or destination would run past its buffer is skipped.
    pub fn update_rect(&mut self, x: u16, y: u16, width: u16, height: u16, data: &[u8])
        ensures
            final(self).width == old(self).width,
            final(self).height == old(self).height,
            final(self).data@ == copy_rows(
                old(self).data@,
                old(self).width as int,
                x as int,
                y as int,
                width as int,
                data@,
                height as int,
            ),
    {
        let len64: u64 = (width as u64) * 4;
        let mut row: u16 = 0;
        while row < height
            invariant
                row <= height,
                len64 == width * 4,
                self.width == old(self).width,
                self.height == old(self).height,
                self.data@ == copy_rows(
                    old(self).data@,
                    old(self).width as int,
                    x as int,
                    y as int,
                    width as int,
                    data@,
                    row as int,
                ),
            decreases height - row,
        {
            proof {
                lemma_small_product(row as int, width as int);
                lemma_small_product(y + row, self.width as int);
            }
            let src64: u64 = (row as u64) * (width as u64) * 4;
            let dst64: u64 = ((y as u64 + row as u64) * (self.width as u64) + x as u64) * 4;
            if src64 + len64 <= data.len() as u64 && dst64 + len64 <= self.data.len() as u64 {
                let src_offset = src64 as usize;
                let dst_offset = dst64 as usize;
                let len = len64 as usize;
                let ghost before = self.data@;
                let mut k: usize = 0;
                while k < len
                    invariant
                        k <= len,
                        dst_offset + len <= usize::MAX,
                        src_offset + len <= usize::MAX,
                        dst_offset + len <= self.data@.len(),
                        src_offset + len <= data@.len(),
                        self.data@.len() == before.len(),
                        self.width == old(self).width,
                        self.height == old(self).height,
                        forall|j: int| 0 <= j < dst_offset ==> self.data@[j] == before[j],
                        forall|j: int| dst_offset + len <= j < before.len() ==> self.data@[j] == before[j],
                        forall|j: int|
                            dst_offset <= j < dst_offset + k ==> self.data@[j] == data@[src_offset + (j - dst_offset)],
                    decreases len - k,
                {
                    self.data.set(dst_offset + k, data[src_offset + k]);
                    k = k + 1;
                }
                assert(self.data@ =~= copy_row(
                    before,
                    old(self).width as int,
                    x as int,
                    y as int,
                    width as int,
                    data@,
                    row as int,
                ));
            }
            row = row + 1;
        }
    }

    /// The pixels with the first and third byte of each swapped (BGRA to RGBA).
    pub fn to_rgba(&self) -> (r: Vec<u8>)
        requires
            self.wf(),
        ensures
            r@.len() == self.data@.len(),
            forall|i: int| 0 <= i < r@.len() ==> r@[i] == self.data@[channel_swap_index(i)],
    {
        let n: usize = self.data.len();
        let ghost pixels: int = self.width * self.height;
        let mut rgba: Vec<u8> = Vec::new();
        let mut i: usize = 0;
        let ghost mut p: int = 0;
        while i < n
            invariant
                n == self.data@.len(),
                n == 4 * pixels,
                i == 4 * p,
                i <= n,
                rgba@.len() == i,
                forall|k: int| 0 <= k < i ==> rgba@[k] == self.data@[channel_swap_index(k)],
            decreases n - i,
        {
            let ghost prev = rgba@;
            rgba.push(self.data[i + 2]);
            rgba.push(self.data[i + 1]);
            rgba.push(self.data[i]);
            rgba.push(self.data[i + 3]);
            proof {
                lemma_swap_step(self.data@, prev, rgba@, p);
                p = p + 1;
            }
            i = i + 4;
        }
        rgba
    }

    /// The raw pixel bytes.
    pub fn as_bytes(&self) -> (r: &[u8])
        ensures
            r@ == self.data@,
    {
        self.data.as_slice()
    }

    /// The bytes of the `w`-by-`h` rectangle at (x, y), row after row.
    pub fn extract_region(&self, x: u16, y: u16, w: u16, h: u16) -> (r: Vec<u8>)
        requires
            self.wf(),
            region_in_bounds(self.width as int, self.height as int, x as int, y as int, w as int, h as int),
        ensures
            r@ == region_bytes(self.data@, self.width as int, x as int, y as int, w as int, h as int),
            r@.len() == w * h * 4,
    {
        let mut out: Vec<u8> = Vec::new();
        let mut row: u16 = 0;
        while row < h
            invariant
                self.wf(),
                region_in_bounds(self.width as int, self.height as int, x as int, y as int, w as int, h as int),
                row <= h,
                out@ == region_bytes(self.data@, self.width as int, x as int, y as int, w as int, row as int),
            decreases h - row,
        {
            proof {
                lemma_row_in_buffer(
                    self.width as int, self.height as int, x as int, y as int, w as int, h as int, row as int);
            }
            proof {
                lemma_small_product(y + row, self.width as int);
            }
            let total: usize = self.data.len();
            let start: usize = (((y as u64 + row as u64) * (self.width as u64) + x as u64) * 4) as usize;
            assert(start == pixel_offset(self.width as int, x as int, y + row));
            let end: usize = start + (w as usize) * 4;
            let ghost before = out@;
            let mut k: usize = start;
            while k < end
                invariant
                    start <= k <= end,
                    end <= self.data@.len(),
                    out@ == before + self.data@.subrange(start as int, k as int),
                decreases end - k,
            {
                out.push(self.data[k]);
                k = k + 1;
                assert(out@ =~= before + self.data@.subrange(start as int, k as int));
            }
            row = row + 1;
        }
        proof {
            lemma_region_len(self.data@, self.width as int, self.height as int, x as int, y as int, w as int, h as int);
        }
        out
    }
}

} // verus!
