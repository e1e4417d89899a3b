//! Work distribution: the pixel grid flattened to one index range.
//!
//! A `width × height` render is split into the indices `0 .. width * height`; each index
//! is one unit of work, the full multi-sample estimate of one pixel. Index `i` stands for
//! the pixel in row `i / width` and column `i % width`.
use vstd::prelude::*;

verus! {

/// The pixel `(row, column)` that the work index `index` stands for.
pub open spec fn pixel_of(index: int, width: int) -> (int, int) {
    (index / width, index % width)
}

/// The work index of the pixel in row `row` and column `column`.
pub open spec fn index_of(row: int, column: int, width: int) -> int {
    row * width + column
}

/// Whether `(row, column)` lies in a `width × height` image.
pub open spec fn in_image(pixel: (int, int), width: int, height: int) -> bool {
    0 <= pixel.0 < height && 0 <= pixel.1 < width
}

/// The number of work units of a `width × height` render, or `None` where that
/// number does not fit in a `usize`.
pub fn pixel_count(width: usize, height: usize) -> (r: Option<usize>)
    ensures
        r.is_some() <==> width * height <= usize::MAX,
        r.is_some() ==> r.unwrap() == width * height,
{
    width.checked_mul(height)
}

/// Maps a work index to its pixel `(row, column)`.
pub fn pixel_at(index: usize, width: usize) -> (r: (usize, usize))
    requires
        width > 0,
    ensures
        (r.0 as int, r.1 as int) == pixel_of(index as int, width as int),
{
    (index / width, index % width)
}

proof fn lemma_pixel_of_in_image(i: int, width: int, height: int)
    requires
        width > 0,
        height >= 0,
        0 <= i < width * height,
    ensures
        in_image(pixel_of(i, width), width, height),
        index_of(i / width, i % width, width) == i,
{
    vstd::arithmetic::div_mod::lemma_fundamental_div_mod(i, width);
    vstd::arithmetic::div_mod::lemma_div_pos_is_pos(i, width);
    vstd::arithmetic::div_mod::lemma_mod_pos_bound(i, width);
    assert(i / width < height) by {
        vstd::arithmetic::div_mod::lemma_div_is_ordered(i, width * height - 1, width);
        vstd::arithmetic::div_mod::lemma_div_multiples_vanish_fancy(height - 1, width - 1, width);
        vstd::arithmetic::mul::lemma_mul_is_commutative(width, height);
        assert(width * height - 1 == width * (height - 1) + (width - 1)) by (nonlinear_arith);
    }
    vstd::arithmetic::mul::lemma_mul_is_commutative(width, i / width);
}

proof fn lemma_index_of_in_range(row: int, column: int, width: int, height: int)
    requires
        in_image((row, column), width, height),
    ensures
        0 <= index_of(row, column, width) < width * height,
        pixel_of(index_of(row, column, width), width) == (row, column),
{
    assert(0 <= row * width + column < width * height) by (nonlinear_arith)
        requires
            0 <= row < height,
            0 <= column < width,
    ;
    vstd::arithmetic::div_mod::lemma_div_multiples_vanish_fancy(row, column, width);
    vstd::arithmetic::div_mod::lemma_mod_multiples_vanish(row, column, width);
    vstd::arithmetic::div_mod::lemma_small_mod(column as nat, width as nat);
    vstd::arithmetic::mul::lemma_mul_is_commutative(width, row);
}

/// Scheduling is complete: the work indices `0 .. width * height` stand for pixels of the
/// image, no two of them for the same pixel, and every pixel of the image is the pixel
/// of some index. So each of the `width * height` pixels is rendered exactly once.
pub proof fn lemma_schedule_complete(width: int, height: int)
    requires
        width > 0,
        height >= 0,
    ensures
        forall|i: int|
            0 <= i < width * height ==> #[trigger] in_image(pixel_of(i, width), width, height),
        forall|i: int, j: int|
            0 <= i < width * height && 0 <= j < width * height && #[trigger] pixel_of(i, width)
                == #[trigger] pixel_of(j, width) ==> i == j,
        forall|row: int, column: int|
            #![trigger in_image((row, column), width, height)]
            in_image((row, column), width, height) ==> {
                let i = index_of(row, column, width);
                0 <= i < width * height && pixel_of(i, width) == (row, column)
            },
{
    assert forall|i: int| 0 <= i < width * height implies #[trigger] in_image(
        pixel_of(i, width),
        width,
        height,
    ) by {
        lemma_pixel_of_in_image(i, width, height);
    }
    assert forall|i: int, j: int|
        0 <= i < width * height && 0 <= j < width * height && #[trigger] pixel_of(i, width)
            == #[trigger] pixel_of(j, width) implies i == j by {
        lemma_pixel_of_in_image(i, width, height);
        lemma_pixel_of_in_image(j, width, height);
    }
    assert forall|row: int, column: int| in_image((row, column), width, height) implies {
        let i = index_of(row, column, width);
        0 <= i < width * height && pixel_of(i, width) == (row, column)
    } by {
        lemma_index_of_in_range(row, column, width, height);
    }
}

} // verus!
