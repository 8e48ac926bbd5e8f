//! Frame comparison and conversion from packed 32-bit pixels to planar
//! chroma-subsampled samples.

use vstd::prelude::*;

verus! {

/// How many of the first `n` byte pairs of `a` and `b` differ.
pub open spec fn mismatches(a: Seq<u8>, b: Seq<u8>, n: int) -> nat
    decreases n,
{
    if n <= 0 {
        0
    } else {
        mismatches(a, b, n - 1) + if a[n - 1] != b[n - 1] {
            1nat
        } else {
            0nat
        }
    }
}

/// The number of byte pairs that a comparison of `a` with `b` walks: the
/// length of the shorter of the two.
pub open spec fn paired_len(a: Seq<u8>, b: Seq<u8>) -> int {
    if a.len() <= b.len() {
        a.len() as int
    } else {
        b.len() as int
    }
}

/// Whether `frame` counts as changed against the baseline `last` when up to
/// `acceptable` differing bytes are tolerated. An empty baseline makes every
/// frame a changed one.
pub open spec fn differs(frame: Seq<u8>, last: Seq<u8>, acceptable: int) -> bool {
    last.len() == 0 || mismatches(frame, last, paired_len(frame, last)) > acceptable
}

/// The positions below `n` at which `a` and `b` hold different bytes.
pub open spec fn differing_positions(a: Seq<u8>, b: Seq<u8>, n: int) -> Set<int> {
    Set::new(|i: int| 0 <= i < n && a[i] != b[i])
}

/// The count of mismatches never shrinks as more pairs are walked.
pub proof fn lemma_mismatches_monotonic(a: Seq<u8>, b: Seq<u8>, i: int, n: int)
    requires
        i <= n,
    ensures
        mismatches(a, b, i) <= mismatches(a, b, n),
    decreases n - i,
{
    if i < n {
        lemma_mismatches_monotonic(a, b, i, n - 1);
    }
}

/// The count of mismatches is the number of differing positions.
pub proof fn lemma_mismatches_counts_positions(a: Seq<u8>, b: Seq<u8>, n: int)
    requires
        0 <= n,
    ensures
        differing_positions(a, b, n).finite(),
        differing_positions(a, b, n).len() == mismatches(a, b, n),
    decreases n,
{
    if n == 0 {
        assert(differing_positions(a, b, 0) =~= Set::<int>::empty());
    } else {
        lemma_mismatches_counts_positions(a, b, n - 1);
        let before = differing_positions(a, b, n - 1);
        if a[n - 1] != b[n - 1] {
            assert(differing_positions(a, b, n) =~= before.insert(n - 1));
        } else {
            assert(differing_positions(a, b, n) =~= before);
        }
    }
}

/// A frame compared with an equal, non-empty baseline is never a changed one,
/// whatever the tolerance.
pub proof fn lemma_identical_is_not_different(frame: Seq<u8>, acceptable: int)
    requires
        frame.len() > 0,
        acceptable >= 0,
    ensures
        !differs(frame, frame, acceptable),
{
    lemma_identical_has_no_mismatch(frame, frame.len() as int);
}

proof fn lemma_identical_has_no_mismatch(frame: Seq<u8>, n: int)
    ensures
        mismatches(frame, frame, n) == 0,
    decreases n,
{
    if n > 0 {
        lemma_identical_has_no_mismatch(frame, n - 1);
    }
}

/// Against an empty baseline every frame is a changed one.
pub proof fn lemma_empty_baseline_is_different(frame: Seq<u8>, acceptable: int)
    ensures
        differs(frame, Seq::<u8>::empty(), acceptable),
{
}

/// A frame as long as its non-empty baseline, differing from it at exactly
/// `k` positions, is a changed one exactly when `k` exceeds the tolerance.
pub proof fn lemma_different_iff_count_exceeds(
    frame: Seq<u8>,
    last: Seq<u8>,
    k: nat,
    acceptable: int,
)
    requires
        last.len() > 0,
        frame.len() == last.len(),
        differing_positions(frame, last, last.len() as int).len() == k,
    ensures
        differs(frame, last, acceptable) <==> k > acceptable,
{
    lemma_mismatches_counts_positions(frame, last, last.len() as int);
}

/// Tells whether `frame` has changed against the baseline `last`: always
/// when the baseline is empty, otherwise when more than `acceptable` of the
/// paired bytes differ. The walk stops at the first pair that settles it.
pub fn is_different(frame: &[u8], last: &Vec<u8>, acceptable: usize) -> (changed: bool)
    ensures
        changed == differs(frame@, last@, acceptable as int),
{
    if last.is_empty() {
        return true;
    }
    let n: usize = if frame.len() <= last.len() {
        frame.len()
    } else {
        last.len()
    };
    let mut diff: usize = 0;
    let mut i: usize = 0;
    while i < n
        invariant
            i <= n,
            n as int == paired_len(frame@, last@),
            diff as nat == mismatches(frame@, last@, i as int),
            diff <= i,
            diff <= acceptable,
        decreases n - i,
    {
        if frame[i] != last[i] {
            diff += 1;
            if diff > acceptable {
                proof {
                    lemma_mismatches_monotonic(frame@, last@, i + 1, n as int);
                }
                return true;
            }
        }
        i += 1;
    }
    false
}

/// The value of `x` limited to the range of a sample, 0 to 255.
pub open spec fn clamp_spec(x: int) -> int {
    if x < 0 {
        0
    } else if x > 255 {
        255
    } else {
        x
    }
}

/// Limits `x` to the range of a sample.
pub fn clamp(x: i32) -> (r: u8)
    ensures
        r as int == clamp_spec(x as int),
{
    if x < 0 {
        0
    } else if x > 255 {
        255
    } else {
        x as u8
    }
}

/// The quotient of `n` by the positive `d`, rounded toward zero.
pub open spec fn div_toward_zero(n: int, d: int) -> int {
    if n >= 0 {
        n / d
    } else {
        -((-n) / d)
    }
}

/// The brightness sample of a pixel with the given colour channels.
pub open spec fn luma(r: int, g: int, b: int) -> int {
    clamp_spec(div_toward_zero(66 * r + 129 * g + 25 * b + 128, 256) + 16)
}

/// The blue-difference sample of a pixel with the given colour channels.
pub open spec fn chroma_u(r: int, g: int, b: int) -> int {
    clamp_spec(div_toward_zero(-38 * r - 74 * g + 112 * b + 128, 256) + 128)
}

/// The red-difference sample of a pixel with the given colour channels.
pub open spec fn chroma_v(r: int, g: int, b: int) -> int {
    clamp_spec(div_toward_zero(112 * r - 94 * g - 18 * b + 128, 256) + 128)
}

/// The three kinds of sample that a planar frame holds.
#[derive(Clone, Copy, Debug, PartialEq, Eq, Structural)]
pub enum Plane {
    Luma,
    ChromaU,
    ChromaV,
}

/// The sample of kind `plane` of a pixel with the given colour channels.
pub open spec fn sample(plane: Plane, r: int, g: int, b: int) -> int {
    match plane {
        Plane::Luma => luma(r, g, b),
        Plane::ChromaU => chroma_u(r, g, b),
        Plane::ChromaV => chroma_v(r, g, b),
    }
}

/// The bytes that each row of a packed frame of `len` bytes and `height`
/// rows takes, padding included.
pub open spec fn row_stride(len: int, height: int) -> int {
    len / height
}

/// Whether a packed frame of `len` bytes holds `height` rows of `width`
/// whole pixels, four bytes each.
pub open spec fn frame_fits(width: int, height: int, len: int) -> bool {
    height > 0 && 4 * width <= row_stride(len, height)
}

/// The sample of kind `plane` of the pixel in column `x` of row `y` of the
/// packed frame `src`, whose bytes are blue, green, red and one unused.
pub open spec fn sample_at(plane: Plane, src: Seq<u8>, stride: int, x: int, y: int) -> int {
    let o = y * stride + 4 * x;
    sample(plane, src[o + 2] as int, src[o + 1] as int, src[o] as int)
}

/// The number of 2x2 blocks that cover `n` pixels in one direction.
pub open spec fn blocks(n: int) -> int {
    (n + 1) / 2
}

/// The samples of kind `plane` of a grid of `cols` by `rows` pixels, row by
/// row, the grid's pixels lying `scale` apart in both directions from the
/// frame's first.
pub open spec fn grid(
    plane: Plane,
    cols: int,
    rows: int,
    scale: int,
    stride: int,
    src: Seq<u8>,
) -> Seq<u8> {
    Seq::new(
        (cols * rows) as nat,
        |i: int| sample_at(plane, src, stride, scale * (i % cols), scale * (i / cols)) as u8,
    )
}

/// The brightness plane: one sample per pixel, row by row.
pub open spec fn luma_plane(width: int, height: int, src: Seq<u8>) -> Seq<u8> {
    grid(Plane::Luma, width, height, 1, row_stride(src.len() as int, height), src)
}

/// A colour-difference plane: one sample per 2x2 block, row by row, taken
/// from the block's top-left pixel.
pub open spec fn chroma_plane(plane: Plane, width: int, height: int, src: Seq<u8>) -> Seq<u8> {
    grid(plane, blocks(width), blocks(height), 2, row_stride(src.len() as int, height), src)
}

/// The planar frame of the packed frame `src`: the brightness plane, then
/// the blue-difference plane, then the red-difference plane.
pub open spec fn planar(width: int, height: int, src: Seq<u8>) -> Seq<u8> {
    luma_plane(width, height, src) + chroma_plane(Plane::ChromaU, width, height, src)
        + chroma_plane(Plane::ChromaV, width, height, src)
}

/// The number of samples that the planar form of a frame of `width` by
/// `height` pixels holds.
pub open spec fn planar_len(width: int, height: int) -> int {
    width * height + 2 * (blocks(width) * blocks(height))
}

/// The planar form holds one brightness sample for each pixel and two
/// colour-difference samples for each 2x2 block, which is at least three
/// samples for every two pixels.
pub proof fn lemma_planar_len(width: int, height: int, src: Seq<u8>)
    requires
        0 <= width,
        0 <= height,
    ensures
        planar(width, height, src).len() == planar_len(width, height),
        2 * planar_len(width, height) >= 3 * (width * height),
        width % 2 == 0 && height % 2 == 0 ==> 2 * planar_len(width, height) == 3 * (width * height),
{
    let bw = blocks(width);
    let bh = blocks(height);
    assert(0 <= width * height) by (nonlinear_arith)
        requires
            0 <= width,
            0 <= height,
    ;
    assert(0 <= bw * bh && 4 * (bw * bh) >= width * height) by (nonlinear_arith)
        requires
            0 <= width <= 2 * bw,
            0 <= height <= 2 * bh,
    ;
    if width % 2 == 0 && height % 2 == 0 {
        assert(4 * (bw * bh) == width * height) by (nonlinear_arith)
            requires
                width == 2 * bw,
                height == 2 * bh,
        ;
    }
}

/// Every sample lies in the range 0 to 255.
pub proof fn lemma_sample_in_range(plane: Plane, r: int, g: int, b: int)
    ensures
        0 <= sample(plane, r, g, b) <= 255,
{
}

/// Each sample of a grid is the sample of the pixel it is taken from, as it
/// is: it lies in the range 0 to 255, so that nothing is lost where it is
/// stored in a byte.
pub proof fn lemma_grid_sample(
    plane: Plane,
    cols: int,
    rows: int,
    scale: int,
    stride: int,
    src: Seq<u8>,
    i: int,
)
    requires
        0 <= i < cols * rows,
    ensures
        grid(plane, cols, rows, scale, stride, src)[i] as int == sample_at(
            plane,
            src,
            stride,
            scale * (i % cols),
            scale * (i / cols),
        ),
        0 <= grid(plane, cols, rows, scale, stride, src)[i] <= 255,
{
    let x = scale * (i % cols);
    let y = scale * (i / cols);
    let o = y * stride + 4 * x;
    lemma_sample_in_range(plane, src[o + 2] as int, src[o + 1] as int, src[o] as int);
}

/// The pixel in column `x` of row `y` lies inside a frame that fits.
pub proof fn lemma_pixel_in_frame(width: int, height: int, len: int, x: int, y: int)
    requires
        frame_fits(width, height, len),
        0 <= len,
        0 <= x < width,
        0 <= y < height,
    ensures
        0 <= y * row_stride(len, height),
        y * row_stride(len, height) + 4 * x + 3 < len,
        row_stride(len, height) * height <= len,
{
    let stride = row_stride(len, height);
    assert(stride * height <= len) by {
        vstd::arithmetic::div_mod::lemma_fundamental_div_mod(len, height);
        vstd::arithmetic::div_mod::lemma_mod_bound(len, height);
        assert(height * stride == stride * height) by (nonlinear_arith);
    }
    assert(0 <= y * stride && y * stride + stride <= stride * height) by (nonlinear_arith)
        requires
            0 <= y < height,
            0 <= stride,
    ;
}

/// The sample of kind `plane` of the pixel that starts at byte `o` of `src`.
fn sample_of(plane: Plane, src: &[u8], o: usize) -> (r: u8)
    requires
        o + 2 < src@.len(),
    ensures
        r as int == sample(plane, src@[o + 2] as int, src@[o + 1] as int, src@[o as int] as int),
{
    let b: i32 = src[o] as i32;
    let g: i32 = src[o + 1] as i32;
    let r: i32 = src[o + 2] as i32;
    match plane {
        Plane::Luma => clamp((66 * r + 129 * g + 25 * b + 128) / 256 + 16),
        Plane::ChromaU => clamp((112 * b - 38 * r - 74 * g + 128) / 256 + 128),
        Plane::ChromaV => clamp((112 * r - 94 * g - 18 * b + 128) / 256 + 128),
    }
}

/// Appends to `dest` the samples of kind `plane` of a grid of `cols` by
/// `rows` pixels that lie `scale` apart.
fn push_grid(
    plane: Plane,
    cols: usize,
    rows: usize,
    scale: usize,
    width: usize,
    height: usize,
    src: &[u8],
    dest: &mut Vec<u8>,
)
    requires
        frame_fits(width as int, height as int, src@.len() as int),
        1 <= scale <= 2,
        cols > 0 ==> scale * (cols - 1) < width,
        rows > 0 ==> scale * (rows - 1) < height,
    ensures
        final(dest)@ == old(dest)@ + grid(
            plane,
            cols as int,
            rows as int,
            scale as int,
            row_stride(src@.len() as int, height as int),
            src@,
        ),
{
    let stride: usize = src.len() / height;
    let ghost before = dest@;
    let ghost wanted = grid(plane, cols as int, rows as int, scale as int, stride as int, src@);
    let mut cy: usize = 0;
    while cy < rows
        invariant
            frame_fits(width as int, height as int, src@.len() as int),
            stride as int == row_stride(src@.len() as int, height as int),
            src@.len() <= usize::MAX,
            1 <= scale <= 2,
            cols > 0 ==> scale * (cols - 1) < width,
            rows > 0 ==> scale * (rows - 1) < height,
            wanted == grid(plane, cols as int, rows as int, scale as int, stride as int, src@),
            wanted.len() == cols * rows,
            cy <= rows,
            dest@.len() == before.len() + cy * cols,
            forall|j: int| 0 <= j < before.len() ==> dest@[j] == before[j],
            forall|i: int| 0 <= i < cy * cols ==> dest@[before.len() + i] == wanted[i],
        decreases rows - cy,
    {
        let mut cx: usize = 0;
        while cx < cols
            invariant
                frame_fits(width as int, height as int, src@.len() as int),
                stride as int == row_stride(src@.len() as int, height as int),
                src@.len() <= usize::MAX,
                1 <= scale <= 2,
                cols > 0 ==> scale * (cols - 1) < width,
                rows > 0 ==> scale * (rows - 1) < height,
                wanted == grid(plane, cols as int, rows as int, scale as int, stride as int, src@),
                wanted.len() == cols * rows,
                cy < rows,
                cx <= cols,
                dest@.len() == before.len() + cy * cols + cx,
                forall|j: int| 0 <= j < before.len() ==> dest@[j] == before[j],
                forall|i: int| 0 <= i < cy * cols + cx ==> dest@[before.len() + i] == wanted[i],
            decreases cols - cx,
        {
            proof {
                lemma_grid_cell(cols as int, rows as int, scale as int, cx as int, cy as int);
                lemma_pixel_in_frame(
                    width as int,
                    height as int,
                    src@.len() as int,
                    scale * cx,
                    scale * cy,
                );
            }
            let x: usize = scale * cx;
            let y: usize = scale * cy;
            let o: usize = y * stride + 4 * x;
            let value = sample_of(plane, src, o);
            dest.push(value);
            cx += 1;
        }
        proof {
            assert((cy + 1) * cols == cy * cols + cols) by (nonlinear_arith);
        }
        cy += 1;
    }
    proof {
        assert(rows * cols == cols * rows) by (nonlinear_arith);
        assert(dest@ =~= before + wanted);
    }
}

/// The cell in column `cx` of row `cy` of a grid is the one numbered
/// `cy * cols + cx`, and lies no further out than the grid's last.
proof fn lemma_grid_cell(cols: int, rows: int, scale: int, cx: int, cy: int)
    requires
        0 <= cx < cols,
        0 <= cy < rows,
        1 <= scale,
    ensures
        (cy * cols + cx) % cols == cx,
        (cy * cols + cx) / cols == cy,
        0 <= cy * cols + cx < cols * rows,
        0 <= scale * cx <= scale * (cols - 1),
        0 <= scale * cy <= scale * (rows - 1),
{
    vstd::arithmetic::div_mod::lemma_fundamental_div_mod_converse(cy * cols + cx, cols, cy, cx);
    assert(0 <= cy * cols + cx < cols * rows) by (nonlinear_arith)
        requires
            0 <= cx < cols,
            0 <= cy < rows,
    ;
    assert(0 <= scale * cx <= scale * (cols - 1)) by (nonlinear_arith)
        requires
            0 <= cx < cols,
            1 <= scale,
    ;
    assert(0 <= scale * cy <= scale * (rows - 1)) by (nonlinear_arith)
        requires
            0 <= cy < rows,
            1 <= scale,
    ;
}

/// Converts the packed frame `src` of `width` by `height` pixels into its
/// planar form, which replaces what `dest` held: the result goes by the
/// frame alone. Each row of `src` takes `src.len() / height` bytes, of which
/// the first `4 * width` hold pixels.
pub fn argb_to_i420(width: usize, height: usize, src: &[u8], dest: &mut Vec<u8>)
    requires
        frame_fits(width as int, height as int, src@.len() as int),
    ensures
        final(dest)@ == planar(width as int, height as int, src@),
{
    dest.clear();
    push_grid(Plane::Luma, width, height, 1, width, height, src, dest);
    let cols: usize = width / 2 + width % 2;
    let rows: usize = height / 2 + height % 2;
    push_grid(Plane::ChromaU, cols, rows, 2, width, height, src, dest);
    push_grid(Plane::ChromaV, cols, rows, 2, width, height, src, dest);
    proof {
        assert(dest@ =~= planar(width as int, height as int, src@));
    }
}

} // verus!
