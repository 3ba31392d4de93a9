//! Inpainting: where a mask calls for work, which crop is worked on, and how crops are put back.
use vstd::arithmetic::div_mod::{
    lemma_fundamental_div_mod, lemma_fundamental_div_mod_converse,
};
use vstd::prelude::*;

use crate::device::Device;
use crate::images;
use crate::images::{find_borders, Contour, ContourView, GrayImage, RgbImage};
use crate::text;

verus! {

/// The least multiple of `modulo` that is not below `value`; zero is the one multiple of zero.
pub fn ceil_modulo(value: u32, modulo: u32) -> (r: u32)
    requires
        modulo == 0 ==> value == 0,
        modulo > 0 ==> value % modulo == 0 || (value / modulo + 1) * modulo <= u32::MAX,
    ensures
        modulo == 0 ==> r == 0,
        modulo > 0 ==> r % modulo == 0 && value <= r < value + modulo,
{
    if modulo == 0 {
        return value;
    }
    proof {
        lemma_fundamental_div_mod(value as int, modulo as int);
    }
    if value % modulo == 0 {
        value
    } else {
        let q: u32 = value / modulo;
        proof {
            let m = modulo as int;
            assert((q + 1) * m == m * q + m) by (nonlinear_arith);
            lemma_fundamental_div_mod_converse((q + 1) * m, m, q + 1, 0);
            assert(q + 1 <= (q + 1) * m) by (nonlinear_arith)
                requires
                    m >= 1,
                    q >= 0,
            ;
        }
        (q + 1) * modulo
    }
}

/// The index that mirroring maps `index` to, in a row of `len` items.
pub open spec fn mirrored(index: int, len: int) -> int {
    let k = index % (len * 2);
    if k < len {
        k
    } else {
        len * 2 - k - 1
    }
}

/// The index that mirroring maps `index` to, in a row of `len` items.
pub fn symmetric_index(index: u32, len: u32) -> (r: u32)
    requires
        0 < len,
        len * 2 <= u32::MAX,
    ensures
        r == mirrored(index as int, len as int),
        r < len,
{
    let k: u32 = index % (len * 2);
    if k < len {
        k
    } else {
        len * 2 - k - 1
    }
}

/// The row indices that pad `len` items to a multiple of eight, or none where `len` is one.
pub fn symmetric_indices(len: u32) -> (r: Option<Vec<i64>>)
    requires
        0 < len,
        len * 2 <= u32::MAX,
    ensures
        match r {
            None => len % 8 == 0,
            Some(indices) => {
                &&& len % 8 != 0
                &&& indices@.len() % 8 == 0
                &&& len < indices@.len() < len + 8
                &&& forall|i: int|
                    0 <= i < indices@.len() ==> #[trigger] indices@[i] == mirrored(i, len as int)
            },
        },
{
    assert((len / 8 + 1) * 8 <= len + 8);
    let padded: u32 = ceil_modulo(len, 8);
    if padded == len {
        return None;
    }
    let mut out: Vec<i64> = Vec::new();
    let mut i: u32 = 0;
    while i < padded
        invariant
            0 < len,
            len * 2 <= u32::MAX,
            i <= padded,
            out@.len() == i,
            forall|k: int| 0 <= k < i ==> #[trigger] out@[k] == mirrored(k, len as int),
        decreases padded - i,
    {
        out.push(symmetric_index(i, len) as i64);
        i = i + 1;
    }
    Some(out)
}

/// A rectangle by its edges: left, top, right and bottom, the last two exclusive.
pub type Edges = (int, int, int, int);

/// The edges of a box.
pub open spec fn edges(b: [u32; 4]) -> Edges {
    (b[0] as int, b[1] as int, b[2] as int, b[3] as int)
}

/// The edges of boxes.
pub open spec fn all_edges(s: Seq<[u32; 4]>) -> Seq<Edges> {
    Seq::new(s.len(), |i: int| edges(s[i]))
}

/// The part of the row `0..extent` that is worked on for the box side `low..high`: the side with
/// half a margin of 256 around it, moved into the row where it sticks out, and cut to it.
pub open spec fn crop_side(extent: int, low: int, high: int) -> (int, int) {
    let half = (high - low + 256) / 2;
    let center = (low + high) / 2;
    let raw_low = center - half;
    let raw_high = center + half;
    let from = if raw_low < 0 {
        0
    } else {
        raw_low
    };
    let to = if raw_high > extent {
        extent
    } else {
        raw_high
    };
    let moved_to = if raw_low < 0 {
        to - raw_low
    } else {
        to
    };
    let moved_from = if raw_high > extent {
        from - (raw_high - extent)
    } else {
        from
    };
    (clamped(moved_from, extent), clamped(moved_to, extent))
}

/// `v`, or the nearer end of `0..=high`.
pub open spec fn clamped(v: int, high: int) -> int {
    if v < 0 {
        0
    } else if v > high {
        high
    } else {
        v
    }
}

fn clamp_edge(v: i64, high: i64) -> (r: i64)
    requires
        high >= 0,
    ensures
        r == clamped(v as int, high as int),
{
    if v < 0 {
        0
    } else if v > high {
        high
    } else {
        v
    }
}

/// One side of [`crop_box`].
fn crop_range(extent: u32, low: u32, high: u32) -> (r: (u32, u32))
    requires
        low <= high,
    ensures
        (r.0 as int, r.1 as int) == crop_side(extent as int, low as int, high as int),
{
    let extent: i64 = extent as i64;
    let size: i64 = (high - low) as i64 + 256;
    let center: i64 = (low as i64 + high as i64) / 2;
    let raw_low: i64 = center - size / 2;
    let raw_high: i64 = center + size / 2;
    let mut from: i64 = if raw_low < 0 {
        0
    } else {
        raw_low
    };
    let mut to: i64 = if raw_high > extent {
        extent
    } else {
        raw_high
    };
    if raw_low < 0 {
        to = to - raw_low;
    }
    if raw_high > extent {
        from = from - (raw_high - extent);
    }
    (clamp_edge(from, extent) as u32, clamp_edge(to, extent) as u32)
}

/// The crop that is worked on for a box.
pub open spec fn crop_edges(width: int, height: int, b: Edges) -> Edges {
    let (left, right) = crop_side(width, b.0, b.2);
    let (top, bottom) = crop_side(height, b.1, b.3);
    (left, top, right, bottom)
}

/// The crop that is worked on for a box of an image.
pub fn crop_box(image_width: u32, image_height: u32, bounding_box: [u32; 4]) -> (r: [u32; 4])
    requires
        bounding_box[0] <= bounding_box[2],
        bounding_box[1] <= bounding_box[3],
    ensures
        edges(r) == crop_edges(image_width as int, image_height as int, edges(bounding_box)),
{
    let (left, right) = crop_range(image_width, bounding_box[0], bounding_box[2]);
    let (top, bottom) = crop_range(image_height, bounding_box[1], bounding_box[3]);
    [left, top, right, bottom]
}

/// A box with its corners in order, within an image.
pub open spec fn is_box_in(width: int, height: int, b: Edges) -> bool {
    0 <= b.0 < b.2 <= width && 0 <= b.1 < b.3 <= height
}

/// The crop of a box lies in the image and holds the whole box.
pub proof fn law_crop_holds_box(width: int, height: int, b: Edges)
    requires
        is_box_in(width, height, b),
    ensures
        is_box_in(width, height, crop_edges(width, height, b)),
        crop_edges(width, height, b).0 <= b.0,
        crop_edges(width, height, b).1 <= b.1,
        b.2 <= crop_edges(width, height, b).2,
        b.3 <= crop_edges(width, height, b).3,
{
}

/// Mirroring leaves the indices of the row itself as they are, and repeats with twice its length.
pub proof fn law_mirroring(index: int, len: int)
    requires
        0 < len,
        0 <= index,
    ensures
        0 <= mirrored(index, len) < len,
        index < len ==> mirrored(index, len) == index,
        mirrored(index + len * 2, len) == mirrored(index, len),
        len <= index < len * 2 ==> mirrored(index, len) == len - 1 - (index - len),
{
    vstd::arithmetic::div_mod::lemma_mod_bound(index, len * 2);
    vstd::arithmetic::div_mod::lemma_mod_add_multiples_vanish(index, len * 2);
    if index < len * 2 {
        vstd::arithmetic::div_mod::lemma_small_mod(index as nat, (len * 2) as nat);
    }
}

/// Whether the pixel in column `x` of row `y` is masked.
pub open spec fn masked(mask: GrayImage, x: int, y: int) -> bool {
    0 <= x < mask.width && 0 <= y < mask.height && mask.pixel(x, y) > 127
}

/// The least rectangle that holds every masked pixel.
pub open spec fn is_bounds(mask: GrayImage, b: Edges) -> bool {
    &&& forall|x: int, y: int| #[trigger]
        masked(mask, x, y) ==> b.0 <= x < b.2 && b.1 <= y < b.3
    &&& column_masked(mask, b.0)
    &&& row_masked(mask, b.1)
    &&& column_masked(mask, b.2 - 1)
    &&& row_masked(mask, b.3 - 1)
}

/// Whether the column `x` has a masked pixel.
pub open spec fn column_masked(mask: GrayImage, x: int) -> bool {
    exists|y: int| #[trigger] masked(mask, x, y)
}

/// Whether the row `y` has a masked pixel.
pub open spec fn row_masked(mask: GrayImage, y: int) -> bool {
    exists|x: int| #[trigger] masked(mask, x, y)
}

/// Whether the mask has a masked pixel.
pub open spec fn any_masked(mask: GrayImage) -> bool {
    exists|x: int, y: int| #[trigger] masked(mask, x, y)
}

/// The least rectangle that holds every masked pixel, if there is one.
pub open spec fn bounds(mask: GrayImage) -> Option<Edges> {
    if any_masked(mask) {
        Some(choose|b: Edges| is_bounds(mask, b))
    } else {
        None
    }
}

/// There is one least rectangle at most.
proof fn lemma_bounds_unique(mask: GrayImage, a: Edges, b: Edges)
    requires
        is_bounds(mask, a),
        is_bounds(mask, b),
    ensures
        a == b,
{
    lemma_column_within(mask, a, b.0);
    lemma_column_within(mask, b, a.0);
    lemma_column_within(mask, a, b.2 - 1);
    lemma_column_within(mask, b, a.2 - 1);
    lemma_row_within(mask, a, b.1);
    lemma_row_within(mask, b, a.1);
    lemma_row_within(mask, a, b.3 - 1);
    lemma_row_within(mask, b, a.3 - 1);
}

proof fn lemma_column_within(mask: GrayImage, b: Edges, x: int)
    requires
        is_bounds(mask, b),
        column_masked(mask, x),
    ensures
        b.0 <= x < b.2,
        0 <= x < mask.width,
{
    let y = choose|y: int| #[trigger] masked(mask, x, y);
    assert(masked(mask, x, y));
}

proof fn lemma_row_within(mask: GrayImage, b: Edges, y: int)
    requires
        is_bounds(mask, b),
        row_masked(mask, y),
    ensures
        b.1 <= y < b.3,
        0 <= y < mask.height,
{
    let x = choose|x: int| #[trigger] masked(mask, x, y);
    assert(masked(mask, x, y));
}

proof fn lemma_row_in_data(width: int, height: int, y: int)
    requires
        0 <= y < height,
        0 <= width,
    ensures
        0 <= y * width,
        y * width + width <= width * height,
{
    assert(0 <= y * width && y * width + width <= width * height) by (nonlinear_arith)
        requires
            0 <= y < height,
            0 <= width,
    ;
}

/// The first and the last masked column of a row.
fn row_extent(mask: &GrayImage, y: u32) -> (r: Option<(u32, u32)>)
    requires
        mask.wf(),
        y < mask.height,
    ensures
        match r {
            None => forall|x: int| !#[trigger] masked(*mask, x, y as int),
            Some((first, last)) => {
                &&& masked(*mask, first as int, y as int)
                &&& masked(*mask, last as int, y as int)
                &&& forall|x: int| #[trigger]
                    masked(*mask, x, y as int) ==> first <= x <= last
            },
        },
{
    let width: u32 = mask.width;
    proof {
        lemma_row_in_data(mask.width as int, mask.height as int, y as int);
    }
    let length: usize = mask.data.len();
    let start: usize = y as usize * width as usize;
    let mut first: u32 = 0;
    while first < width && mask.data[start + first as usize] <= 127
        invariant
            mask.wf(),
            width == mask.width,
            y < mask.height,
            start == y * width,
            start + width <= length,
            length == mask.data@.len(),
            first <= width,
            forall|x: int| 0 <= x < first ==> !#[trigger] masked(*mask, x, y as int),
        decreases width - first,
    {
        assert(mask.pixel(first as int, y as int) <= 127);
        first = first + 1;
    }
    if first == width {
        return None;
    }
    assert(masked(*mask, first as int, y as int));
    let mut last: u32 = width - 1;
    while mask.data[start + last as usize] <= 127
        invariant
            mask.wf(),
            width == mask.width,
            y < mask.height,
            start == y * width,
            start + width <= length,
            length == mask.data@.len(),
            first <= last < width,
            masked(*mask, first as int, y as int),
            forall|x: int| last < x < width ==> !#[trigger] masked(*mask, x, y as int),
        decreases last,
    {
        assert(mask.pixel(last as int, y as int) <= 127);
        assert(last != first);
        last = last - 1;
    }
    assert(masked(*mask, last as int, y as int));
    Some((first, last))
}

/// The least rectangle that holds every masked pixel of the rows above `y`, if there is one.
spec fn is_bounds_above(mask: GrayImage, found: Option<[u32; 4]>, y: int) -> bool {
    match found {
        None => forall|x: int, v: int| v < y ==> !#[trigger] masked(mask, x, v),
        Some(b) => {
            let e = edges(b);
            &&& forall|x: int, v: int|
                v < y && #[trigger] masked(mask, x, v) ==> e.0 <= x < e.2 && e.1 <= v < e.3
            &&& column_masked(mask, e.0)
            &&& row_masked(mask, e.1)
            &&& column_masked(mask, e.2 - 1)
            &&& row_masked(mask, e.3 - 1)
            &&& e.1 < e.3 <= y
        },
    }
}

proof fn lemma_wider(
    mask: GrayImage,
    b: [u32; 4],
    wider: [u32; 4],
    y: int,
    first: int,
    last: int,
)
    requires
        is_bounds_above(mask, Some(b), y),
        masked(mask, first, y),
        masked(mask, last, y),
        forall|x: int| #[trigger] masked(mask, x, y) ==> first <= x <= last,
        wider[0] == (if first < b[0] {
            first
        } else {
            b[0] as int
        }),
        wider[1] == b[1],
        wider[2] == (if last + 1 > b[2] {
            last + 1
        } else {
            b[2] as int
        }),
        wider[3] == y + 1,
    ensures
        is_bounds_above(mask, Some(wider), y + 1),
{
    let e = edges(b);
    let w = edges(wider);
    assert forall|x: int, v: int| v < y + 1 && #[trigger] masked(mask, x, v) implies w.0 <= x < w.2
        && w.1 <= v < w.3 by {
        if v == y {
            assert(first <= x <= last);
        }
    }
    assert(column_masked(mask, first) && column_masked(mask, last) && row_masked(mask, y));
}

/// The least rectangle that holds every masked pixel: left, top, right and bottom.
pub fn mask_bounds(mask: &GrayImage) -> (r: Option<[u32; 4]>)
    requires
        mask.wf(),
    ensures
        match r {
            None => !any_masked(*mask),
            Some(b) => {
                &&& any_masked(*mask)
                &&& is_bounds(*mask, edges(b))
                &&& bounds(*mask) == Some(edges(b))
                &&& is_box_in(mask.width as int, mask.height as int, edges(b))
            },
        },
{
    let mut found: Option<[u32; 4]> = None;
    let mut y: u32 = 0;
    while y < mask.height
        invariant
            mask.wf(),
            y <= mask.height,
            is_bounds_above(*mask, found, y as int),
        decreases mask.height - y,
    {
        match row_extent(mask, y) {
            None => {
                assert forall|x: int, v: int| v < y + 1 && #[trigger] masked(
                    *mask,
                    x,
                    v,
                ) implies v < y by {
                    if v == y {
                        assert(!masked(*mask, x, y as int));
                    }
                }
                assert(is_bounds_above(*mask, found, y + 1));
            },
            Some((first, last)) => {
                match found {
                    None => {
                        let b: [u32; 4] = [first, y, last + 1, y + 1];
                        assert(column_masked(*mask, first as int));
                        assert(column_masked(*mask, last as int));
                        assert(row_masked(*mask, y as int));
                        found = Some(b);
                        assert(is_bounds_above(*mask, found, y + 1));
                    },
                    Some(b) => {
                        let left: u32 = if first < b[0] {
                            first
                        } else {
                            b[0]
                        };
                        let right: u32 = if last + 1 > b[2] {
                            last + 1
                        } else {
                            b[2]
                        };
                        let wider: [u32; 4] = [left, b[1], right, y + 1];
                        proof {
                            lemma_wider(*mask, b, wider, y as int, first as int, last as int);
                        }
                        found = Some(wider);
                        assert(is_bounds_above(*mask, found, y + 1));
                    },
                }
            },
        }
        y = y + 1;
    }
    proof {
        match found {
            None => {},
            Some(b) => {
                assert(is_bounds(*mask, edges(b)));
                let any = choose|any: Edges| is_bounds(*mask, any);
                lemma_bounds_unique(*mask, any, edges(b));
                lemma_column_within(*mask, edges(b), edges(b).0);
                lemma_column_within(*mask, edges(b), edges(b).2 - 1);
                lemma_row_within(*mask, edges(b), edges(b).1);
                lemma_row_within(*mask, edges(b), edges(b).3 - 1);
                let y = choose|y: int| #[trigger] masked(*mask, edges(b).0, y);
                assert(masked(*mask, edges(b).0, y));
            },
        }
    }
    found
}

/// The pixel in column `x` of row `y` of the masked part with one dark pixel around it.
pub open spec fn padded_pixel(mask: GrayImage, b: Edges, x: int, y: int) -> u8 {
    if 1 <= x <= b.2 - b.0 && 1 <= y <= b.3 - b.1 {
        mask.pixel(b.0 + x - 1, b.1 + y - 1)
    } else {
        0
    }
}

/// The pixels of the masked part with one dark pixel around it, row by row.
pub open spec fn padded_pixels(mask: GrayImage, b: Edges) -> Seq<u8> {
    let width = b.2 - b.0 + 2;
    let height = b.3 - b.1 + 2;
    Seq::new(
        (width * height) as nat,
        |i: int| padded_pixel(mask, b, i % width, i / width),
    )
}

proof fn lemma_flat(width: int, height: int, x: int, y: int)
    requires
        0 <= x < width,
        0 <= y < height,
    ensures
        0 <= y * width + x < width * height,
        (y * width + x) / width == y,
        (y * width + x) % width == x,
{
    assert(0 <= y * width && y * width + width <= width * height) by (nonlinear_arith)
        requires
            0 <= y < height,
            0 <= width,
    ;
    lemma_fundamental_div_mod_converse(y * width + x, width, y, x);
}

/// The masked part of a mask with one dark pixel around it.
pub fn padded_crop(mask: &GrayImage, b: [u32; 4]) -> (r: GrayImage)
    requires
        mask.wf(),
        is_box_in(mask.width as int, mask.height as int, edges(b)),
        b[2] - b[0] + 2 <= u32::MAX,
        b[3] - b[1] + 2 <= u32::MAX,
        (b[2] - b[0] + 2) * (b[3] - b[1] + 2) <= usize::MAX,
    ensures
        r.wf(),
        r.width == b[2] - b[0] + 2,
        r.height == b[3] - b[1] + 2,
        r.data@ == padded_pixels(*mask, edges(b)),
{
    let ghost e = edges(b);
    let width: u32 = b[2] - b[0] + 2;
    let height: u32 = b[3] - b[1] + 2;
    let length: usize = mask.data.len();
    let mut data: Vec<u8> = Vec::new();
    let mut y: u32 = 0;
    while y < height
        invariant
            mask.wf(),
            e == edges(b),
            is_box_in(mask.width as int, mask.height as int, e),
            width == e.2 - e.0 + 2,
            height == e.3 - e.1 + 2,
            length == mask.data@.len(),
            y <= height,
            data@.len() == y * width,
            forall|k: int|
                0 <= k < data@.len() ==> #[trigger] data@[k] == padded_pixel(
                    *mask,
                    e,
                    k % (width as int),
                    k / (width as int),
                ),
        decreases height - y,
    {
        let mut x: u32 = 0;
        while x < width
            invariant
                mask.wf(),
                e == edges(b),
                is_box_in(mask.width as int, mask.height as int, e),
                width == e.2 - e.0 + 2,
                height == e.3 - e.1 + 2,
                length == mask.data@.len(),
                y < height,
                x <= width,
                data@.len() == y * width + x,
                forall|k: int|
                    0 <= k < data@.len() ==> #[trigger] data@[k] == padded_pixel(
                        *mask,
                        e,
                        k % (width as int),
                        k / (width as int),
                    ),
            decreases width - x,
        {
            proof {
                lemma_flat(width as int, height as int, x as int, y as int);
            }
            if 1 <= x && x + 1 < width && 1 <= y && y + 1 < height {
                let row: u32 = b[1] + y - 1;
                let column: u32 = b[0] + x - 1;
                proof {
                    lemma_row_in_data(mask.width as int, mask.height as int, row as int);
                }
                data.push(mask.data[row as usize * mask.width as usize + column as usize]);
            } else {
                data.push(0);
            }
            x = x + 1;
        }
        assert(y * width + width == (y + 1) * width) by (nonlinear_arith);
        y = y + 1;
    }
    assert(height * width == width * height) by (nonlinear_arith);
    assert(data@ =~= padded_pixels(*mask, e));
    GrayImage { width, height, data }
}

/// The least and the greatest coordinates of the first `n` points.
pub open spec fn extent(points: Seq<(u32, u32)>, n: nat) -> Edges
    decreases n,
{
    if n <= 1 {
        (points[0].0 as int, points[0].1 as int, points[0].0 as int, points[0].1 as int)
    } else {
        let e = extent(points, (n - 1) as nat);
        let p = points[n - 1];
        (
            if p.0 < e.0 {
                p.0 as int
            } else {
                e.0
            },
            if p.1 < e.1 {
                p.1 as int
            } else {
                e.1
            },
            if p.0 > e.2 {
                p.0 as int
            } else {
                e.2
            },
            if p.1 > e.3 {
                p.1 as int
            } else {
                e.3
            },
        )
    }
}

/// `v - 1`, or zero.
pub open spec fn one_less(v: int) -> int {
    if v > 0 {
        v - 1
    } else {
        0
    }
}

/// `v`, or `high` where that is less.
pub open spec fn at_most(v: int, high: int) -> int {
    if v < high {
        v
    } else {
        high
    }
}

/// The box of a border of the padded part that begins at `left` and `top`, in the mask.
pub open spec fn contour_edges(
    points: Seq<(u32, u32)>,
    left: int,
    top: int,
    width: int,
    height: int,
) -> Edges {
    let e = extent(points, points.len());
    (
        left + one_less(e.0),
        top + one_less(e.1),
        at_most(left + e.2, width),
        at_most(top + e.3, height),
    )
}

/// Whether a border becomes a box: an outermost one with points, whose box is not empty.
pub open spec fn is_kept(
    c: ContourView,
    left: int,
    top: int,
    width: int,
    height: int,
) -> bool {
    let b = contour_edges(c.2, left, top, width, height);
    c.0 && c.1 is None && c.2.len() > 0 && b.2 > b.0 && b.3 > b.1
}

/// The boxes of the first `n` borders, in order.
pub open spec fn boxes_of(
    contours: Seq<ContourView>,
    left: int,
    top: int,
    width: int,
    height: int,
    n: nat,
) -> Seq<Edges>
    decreases n,
{
    if n == 0 {
        Seq::empty()
    } else {
        let rest = boxes_of(contours, left, top, width, height, (n - 1) as nat);
        let c = contours[n - 1];
        if is_kept(c, left, top, width, height) {
            rest.push(contour_edges(c.2, left, top, width, height))
        } else {
            rest
        }
    }
}

/// No point lies so far out that its place in the mask does not fit.
pub open spec fn points_fit(contours: Seq<Contour>, left: u32, top: u32) -> bool {
    forall|i: int, k: int|
        0 <= i < contours.len() && 0 <= k < contours[i].points@.len() ==> {
            let p = #[trigger] contours[i].points@[k];
            left + p.0 <= u32::MAX && top + p.1 <= u32::MAX
        }
}

/// The box of a border with points.
fn contour_box(points: &Vec<(u32, u32)>, left: u32, top: u32, width: u32, height: u32) -> (r: [u32;
    4])
    requires
        points@.len() > 0,
        forall|k: int|
            0 <= k < points@.len() ==> {
                let p = #[trigger] points@[k];
                left + p.0 <= u32::MAX && top + p.1 <= u32::MAX
            },
    ensures
        edges(r) == contour_edges(
            points@,
            left as int,
            top as int,
            width as int,
            height as int,
        ),
{
    let mut low_x: u32 = points[0].0;
    let mut low_y: u32 = points[0].1;
    let mut high_x: u32 = points[0].0;
    let mut high_y: u32 = points[0].1;
    let mut i: usize = 1;
    while i < points.len()
        invariant
            1 <= i <= points@.len(),
            forall|k: int|
                0 <= k < points@.len() ==> {
                    let p = #[trigger] points@[k];
                    left + p.0 <= u32::MAX && top + p.1 <= u32::MAX
                },
            extent(points@, i as nat) == (low_x as int, low_y as int, high_x as int, high_y as int),
            low_x <= high_x,
            low_y <= high_y,
            left + high_x <= u32::MAX,
            top + high_y <= u32::MAX,
        decreases points@.len() - i,
    {
        let p: (u32, u32) = points[i];
        assert(p == points@[i as int]);
        if p.0 < low_x {
            low_x = p.0;
        }
        if p.1 < low_y {
            low_y = p.1;
        }
        if p.0 > high_x {
            high_x = p.0;
        }
        if p.1 > high_y {
            high_y = p.1;
        }
        i = i + 1;
    }
    let box_left: u32 = if low_x > 0 {
        left + (low_x - 1)
    } else {
        left
    };
    let box_top: u32 = if low_y > 0 {
        top + (low_y - 1)
    } else {
        top
    };
    let box_right: u32 = if left + high_x < width {
        left + high_x
    } else {
        width
    };
    let box_bottom: u32 = if top + high_y < height {
        top + high_y
    } else {
        height
    };
    [box_left, box_top, box_right, box_bottom]
}

/// The boxes of the outermost borders of the padded part that begins at `left` and `top`.
pub fn boxes_from_contours(
    contours: &Vec<Contour>,
    left: u32,
    top: u32,
    width: u32,
    height: u32,
) -> (r: Vec<[u32; 4]>)
    requires
        points_fit(contours@, left, top),
    ensures
        all_edges(r@) == boxes_of(
            images::contour_views(contours@),
            left as int,
            top as int,
            width as int,
            height as int,
            contours@.len(),
        ),
{
    let ghost models = images::contour_views(contours@);
    let mut out: Vec<[u32; 4]> = Vec::new();
    let mut i: usize = 0;
    assert(all_edges(out@) =~= Seq::<Edges>::empty());
    while i < contours.len()
        invariant
            i <= contours@.len(),
            models == images::contour_views(contours@),
            points_fit(contours@, left, top),
            all_edges(out@) == boxes_of(
                models,
                left as int,
                top as int,
                width as int,
                height as int,
                i as nat,
            ),
        decreases contours@.len() - i,
    {
        let c: &Contour = &contours[i];
        assert(models[i as int] == c@);
        if c.outer && c.parent.is_none() && c.points.len() > 0 {
            assert forall|k: int| 0 <= k < c.points@.len() implies {
                let p = #[trigger] c.points@[k];
                left + p.0 <= u32::MAX && top + p.1 <= u32::MAX
            } by {
                let p = contours@[i as int].points@[k];
            }
            let b: [u32; 4] = contour_box(&c.points, left, top, width, height);
            if b[2] > b[0] && b[3] > b[1] {
                let ghost before = out@;
                out.push(b);
                assert(all_edges(out@) =~= all_edges(before).push(edges(b)));
            }
        }
        i = i + 1;
    }
    out
}

proof fn lemma_extent_within(points: Seq<(u32, u32)>, n: nat, width: int, height: int)
    requires
        1 <= n <= points.len(),
        forall|k: int|
            0 <= k < points.len() ==> {
                let p = #[trigger] points[k];
                1 <= p.0 <= width && 1 <= p.1 <= height
            },
    ensures
        ({
            let e = extent(points, n);
            1 <= e.0 <= e.2 <= width && 1 <= e.1 <= e.3 <= height
        }),
    decreases n,
{
    let p = points[n - 1];
    assert(points[0].0 >= 1 && points[n - 1].0 >= 1);
    if n > 1 {
        lemma_extent_within(points, (n - 1) as nat, width, height);
    }
}

/// Whether `b` lies in `outer` and is not empty.
pub open spec fn is_box_within(outer: Edges, b: Edges) -> bool {
    outer.0 <= b.0 < b.2 <= outer.2 && outer.1 <= b.1 < b.3 <= outer.3
}

proof fn lemma_boxes_within(
    contours: Seq<ContourView>,
    bound: Edges,
    width: int,
    height: int,
    n: nat,
)
    requires
        n <= contours.len(),
        is_box_in(width, height, bound),
        forall|i: int, k: int|
            0 <= i < contours.len() && 0 <= k < contours[i].2.len() ==> {
                let p = #[trigger] contours[i].2[k];
                1 <= p.0 <= bound.2 - bound.0 && 1 <= p.1 <= bound.3 - bound.1
            },
    ensures
        forall|j: int|
            0 <= j < boxes_of(contours, bound.0, bound.1, width, height, n).len() ==> is_box_within(
                bound,
                #[trigger] boxes_of(contours, bound.0, bound.1, width, height, n)[j],
            ),
    decreases n,
{
    if n > 0 {
        lemma_boxes_within(contours, bound, width, height, (n - 1) as nat);
        let c = contours[n - 1];
        if is_kept(c, bound.0, bound.1, width, height) {
            assert forall|k: int| 0 <= k < c.2.len() implies {
                let p = #[trigger] c.2[k];
                1 <= p.0 <= bound.2 - bound.0 && 1 <= p.1 <= bound.3 - bound.1
            } by {
                let p = contours[n - 1].2[k];
            }
            lemma_extent_within(c.2, c.2.len(), bound.2 - bound.0, bound.3 - bound.1);
            assert(is_box_within(bound, contour_edges(c.2, bound.0, bound.1, width, height)));
        }
        let rest = boxes_of(contours, bound.0, bound.1, width, height, (n - 1) as nat);
        let all = boxes_of(contours, bound.0, bound.1, width, height, n);
        assert forall|j: int| 0 <= j < all.len() implies is_box_within(bound, #[trigger] all[j]) by {
            if j < rest.len() {
                assert(all[j] == rest[j]);
            }
        }
    }
}

/// What [`boxes_from_mask`] finds.
pub open spec fn mask_boxes(mask: GrayImage) -> Seq<Edges> {
    match bounds(mask) {
        None => Seq::empty(),
        Some(b) => {
            let contours = images::borders(
                (b.2 - b.0 + 2) as u32,
                (b.3 - b.1 + 2) as u32,
                padded_pixels(mask, b),
                127,
            );
            boxes_of(
                contours,
                b.0,
                b.1,
                mask.width as int,
                mask.height as int,
                contours.len(),
            )
        },
    }
}

/// Whether the masked part of a mask is of a size in which borders can be found.
pub open spec fn is_findable(mask: GrayImage) -> bool {
    match bounds(mask) {
        None => true,
        Some(b) => images::findable(b.2 - b.0 + 2, b.3 - b.1 + 2),
    }
}

/// Whether the masked part of a mask is of a size in which borders can be found.
pub fn can_find_regions(mask: &GrayImage) -> (r: bool)
    requires
        mask.wf(),
    ensures
        r == is_findable(*mask),
{
    match mask_bounds(mask) {
        None => true,
        Some(b) => {
            let width: u128 = (b[2] - b[0]) as u128 + 2;
            let height: u128 = (b[3] - b[1]) as u128 + 2;
            assert(width * height * 4 <= u128::MAX) by (nonlinear_arith)
                requires
                    0 <= width <= 0x1_0000_0001,
                    0 <= height <= 0x1_0000_0001,
            ;
            width < i32::MAX as u128 && height < i32::MAX as u128 && width * height
                < i32::MAX as u128 && width * height * 4 <= isize::MAX as u128
        },
    }
}

/// The boxes around the outermost borders of the masked regions.
///
/// Every box lies in the least rectangle that holds the masked pixels.
pub fn boxes_from_mask(mask: &GrayImage) -> (r: Vec<[u32; 4]>)
    requires
        mask.wf(),
        is_findable(*mask),
    ensures
        all_edges(r@) == mask_boxes(*mask),
        forall|i: int|
            0 <= i < r@.len() ==> bounds(*mask) is Some && is_box_within(
                bounds(*mask)->0,
                edges(#[trigger] r@[i]),
            ),
        forall|i: int|
            0 <= i < r@.len() ==> is_box_in(
                mask.width as int,
                mask.height as int,
                edges(#[trigger] r@[i]),
            ),
{
    match mask_bounds(mask) {
        None => {
            let out: Vec<[u32; 4]> = Vec::new();
            assert(all_edges(out@) =~= Seq::<Edges>::empty());
            out
        },
        Some(b) => {
            let ghost e = edges(b);
            let padded: GrayImage = padded_crop(mask, b);
            let contours: Vec<Contour> = find_borders(&padded, 127);
            let ghost models = images::contour_views(contours@);
            proof {
                assert forall|i: int, k: int|
                    0 <= i < contours@.len() && 0 <= k < contours@[i].points@.len() implies {
                    let p = #[trigger] contours@[i].points@[k];
                    1 <= p.0 <= e.2 - e.0 && 1 <= p.1 <= e.3 - e.1
                } by {
                    let c = contours@[i];
                    let p = c.points@[k];
                    lemma_flat(padded.width as int, padded.height as int, p.0 as int, p.1 as int);
                    assert(padded.pixel(p.0 as int, p.1 as int) > 127);
                }
                assert forall|i: int, k: int|
                    0 <= i < models.len() && 0 <= k < models[i].2.len() implies {
                    let p = #[trigger] models[i].2[k];
                    1 <= p.0 <= e.2 - e.0 && 1 <= p.1 <= e.3 - e.1
                } by {
                    let p = contours@[i].points@[k];
                }
                lemma_boxes_within(
                    models,
                    e,
                    mask.width as int,
                    mask.height as int,
                    models.len(),
                );
            }
            let out: Vec<[u32; 4]> = boxes_from_contours(
                &contours,
                b[0],
                b[1],
                mask.width,
                mask.height,
            );
            assert forall|i: int| 0 <= i < out@.len() implies is_box_within(
                e,
                edges(#[trigger] out@[i]),
            ) by {
                assert(all_edges(out@)[i] == edges(out@[i]));
            }
            out
        },
    }
}

/// The bytes of an image with a crop put back at column byte `from` of row `top`.
pub open spec fn pasted(
    data: Seq<u8>,
    stride: int,
    crop: Seq<u8>,
    crop_stride: int,
    crop_height: int,
    from: int,
    top: int,
) -> Seq<u8> {
    Seq::new(
        data.len(),
        |k: int|
            {
                let row = k / stride;
                let column = k % stride;
                if top <= row < top + crop_height && from <= column < from + crop_stride {
                    crop[(row - top) * crop_stride + (column - from)]
                } else {
                    data[k]
                }
            },
    )
}

/// An image with a crop put back in the box that it was taken from.
pub open spec fn paste(image: Seq<u8>, width: int, b: Edges, crop: Seq<u8>) -> Seq<u8> {
    pasted(image, width * 3, crop, (b.2 - b.0) * 3, b.3 - b.1, b.0 * 3, b.1)
}

/// Puts a crop back in the box that it was taken from.
fn paste_crop(result: &mut RgbImage, b: [u32; 4], crop: &RgbImage)
    requires
        old(result).wf(),
        crop.wf(),
        is_box_in(old(result).width as int, old(result).height as int, edges(b)),
        crop.width == b[2] - b[0],
        crop.height == b[3] - b[1],
    ensures
        final(result).wf(),
        final(result).width == old(result).width,
        final(result).height == old(result).height,
        final(result).data@ == paste(
            old(result).data@,
            old(result).width as int,
            edges(b),
            crop.data@,
        ),
{
    let ghost before = result.data@;
    let ghost stride = result.width * 3;
    let ghost crop_stride = crop.width * 3;
    let ghost from = b[0] * 3;
    let ghost top = b[1] as int;
    let ghost height = result.height as int;
    let total: usize = result.data.len();
    let crop_total: usize = crop.data.len();
    proof {
        lemma_stride_fits(stride, height, total as int);
        lemma_stride_fits(crop_stride, crop.height as int, crop_total as int);
    }
    let source_stride: usize = crop.width as usize * 3;
    let target_stride: usize = result.width as usize * 3;
    let mut y: u32 = 0;
    assert(before =~= pasted(before, stride, crop.data@, crop_stride, 0, from, top));
    while y < crop.height
        invariant
            crop.wf(),
            result.width == old(result).width,
            result.height == old(result).height,
            result.data@.len() == total,
            total == height * stride,
            crop_total == crop.data@.len(),
            crop_total == crop.height * crop_stride,
            height == result.height,
            stride == result.width * 3,
            crop_stride == crop.width * 3,
            source_stride == crop_stride,
            target_stride == stride,
            from == b[0] * 3,
            top == b[1],
            is_box_in(result.width as int, height, edges(b)),
            crop.width == b[2] - b[0],
            crop.height == b[3] - b[1],
            y <= crop.height,
            result.data@ == pasted(before, stride, crop.data@, crop_stride, y as int, from, top),
        decreases crop.height - y,
    {
        proof {
            lemma_row_in_data(stride, height, top + y);
            assert(stride * height == height * stride) by (nonlinear_arith);
            lemma_row_in_data(crop_stride, crop.height as int, y as int);
            assert(crop_stride * crop.height == crop.height * crop_stride) by (nonlinear_arith);
        }
        let source_start: usize = y as usize * source_stride;
        let target_start: usize = (b[1] as usize + y as usize) * target_stride + b[0] as usize * 3;
        let ghost row_before = result.data@;
        let mut j: usize = 0;
        while j < source_stride
            invariant
                result.width == old(result).width,
                result.height == old(result).height,
                result.data@.len() == total,
                row_before.len() == total,
                crop_total == crop.data@.len(),
                source_start == y * crop_stride,
                source_start + source_stride <= crop_total,
                target_start == (top + y) * stride + from,
                target_start + source_stride <= total,
                source_stride == crop_stride,
                j <= source_stride,
                forall|k: int|
                    0 <= k < total ==> #[trigger] result.data@[k] == (if target_start <= k
                        < target_start + j {
                        crop.data@[source_start + (k - target_start)]
                    } else {
                        row_before[k]
                    }),
            decreases source_stride - j,
        {
            let byte: u8 = crop.data[source_start + j];
            result.data[target_start + j] = byte;
            j = j + 1;
        }
        assert forall|k: int| 0 <= k < total implies #[trigger] result.data@[k] == pasted(
            before,
            stride,
            crop.data@,
            crop_stride,
            y + 1,
            from,
            top,
        )[k] by {
            lemma_row_of(k, stride, top + y);
        }
        assert(result.data@ =~= pasted(
            before,
            stride,
            crop.data@,
            crop_stride,
            y + 1,
            from,
            top,
        ));
        y = y + 1;
    }
}

/// Where `k` lies in the row `row`, and that it lies in no other.
proof fn lemma_row_of(k: int, stride: int, row: int)
    requires
        0 <= k,
        0 < stride,
        0 <= row,
    ensures
        k / stride == row <==> row * stride <= k < row * stride + stride,
        k / stride == row ==> k % stride == k - row * stride,
{
    lemma_fundamental_div_mod(k, stride);
    assert(stride * (k / stride) == (k / stride) * stride) by (nonlinear_arith);
    if row * stride <= k < row * stride + stride {
        lemma_fundamental_div_mod_converse(k, stride, row, k - row * stride);
    }
}

proof fn lemma_stride_fits(stride: int, height: int, total: int)
    requires
        0 < height,
        0 <= stride,
        total == height * stride,
    ensures
        stride <= total,
{
    assert(stride <= height * stride) by (nonlinear_arith)
        requires
            0 < height,
            0 <= stride,
    ;
}

/// The longest side up to which an image is worked on as a whole.
pub const WHOLE_IMAGE_SIDE: u32 = 800;

/// A pair of numbers in brackets, as sizes are shown.
pub open spec fn size_text(width: u32, height: u32) -> Seq<char> {
    "("@ + text::decimal(width as int) + ", "@ + text::decimal(height as int) + ")"@
}

fn size_string(width: u32, height: u32) -> (r: String)
    ensures
        r@ == size_text(width, height),
{
    let first: String = text::join3("(", text::decimal_text(width as i128).as_str(), ", ");
    text::join3(first.as_str(), text::decimal_text(height as i128).as_str(), ")")
}

/// Why an image and a mask are not worked on.
pub open spec fn size_refusal(image: RgbImage, mask: GrayImage) -> Option<Seq<char>> {
    if image.width != mask.width || image.height != mask.height {
        Some(
            "image and mask dimensions differ: image="@ + size_text(image.width, image.height)
                + ", mask="@ + size_text(mask.width, mask.height),
        )
    } else if image.width == 0 || image.height == 0 {
        Some("image dimensions must be non-zero"@)
    } else {
        None
    }
}

/// Checks the sizes of an image and its mask.
pub fn check_sizes(image: &RgbImage, mask: &GrayImage) -> (r: Result<(), String>)
    ensures
        match r {
            Ok(()) => size_refusal(*image, *mask) is None,
            Err(message) => size_refusal(*image, *mask) == Some(message@),
        },
{
    if image.width != mask.width || image.height != mask.height {
        let left: String = text::join2(
            "image and mask dimensions differ: image=",
            size_string(image.width, image.height).as_str(),
        );
        return Err(
            text::join3(
                left.as_str(),
                ", mask=",
                size_string(mask.width, mask.height).as_str(),
            ),
        );
    }
    if image.width == 0 || image.height == 0 {
        return Err("image dimensions must be non-zero".to_owned());
    }
    Ok(())
}

/// An image with the first `n` crops put back, one after the other.
pub open spec fn paste_all(
    data: Seq<u8>,
    width: int,
    boxes: Seq<Edges>,
    crops: Seq<RgbImage>,
    n: nat,
) -> Seq<u8>
    decreases n,
{
    if n == 0 {
        data
    } else {
        paste(
            paste_all(data, width, boxes, crops, (n - 1) as nat),
            width,
            boxes[n - 1],
            crops[n - 1].data@,
        )
    }
}

/// The crops that are worked on in an image with this mask.
pub open spec fn mask_crops(mask: GrayImage) -> Seq<Edges> {
    let boxes = mask_boxes(mask);
    Seq::new(
        boxes.len(),
        |i: int| crop_edges(mask.width as int, mask.height as int, boxes[i]),
    )
}

/// The bytes of `rows` rows from the row `top` on, `len` bytes of each from the byte `from` on.
pub open spec fn cut(
    data: Seq<u8>,
    stride: int,
    len: int,
    rows: int,
    from: int,
    top: int,
) -> Seq<u8> {
    Seq::new((rows * len) as nat, |k: int| data[(top + k / len) * stride + from + k % len])
}

/// The bytes of the part of an image in a box, where a pixel has `channels` bytes.
pub open spec fn crop(data: Seq<u8>, width: int, channels: int, b: Edges) -> Seq<u8> {
    cut(data, width * channels, (b.2 - b.0) * channels, b.3 - b.1, b.0 * channels, b.1)
}

/// Cuts `rows` rows of `len` bytes out of rows of `stride` bytes.
fn cut_rows(
    data: &Vec<u8>,
    stride: usize,
    len: usize,
    rows: usize,
    from: usize,
    top: usize,
) -> (r: Vec<u8>)
    requires
        0 < len,
        from + len <= stride,
        (top + rows) * stride <= data@.len(),
    ensures
        r@ == cut(data@, stride as int, len as int, rows as int, from as int, top as int),
{
    let total: usize = data.len();
    let mut out: Vec<u8> = Vec::new();
    let mut y: usize = 0;
    while y < rows
        invariant
            0 < len,
            from + len <= stride,
            (top + rows) * stride <= total,
            total == data@.len(),
            y <= rows,
            out@.len() == y * len,
            forall|k: int|
                0 <= k < out@.len() ==> #[trigger] out@[k] == data@[(top + k / (len as int))
                    * stride + from + k % (len as int)],
        decreases rows - y,
    {
        proof {
            lemma_row_in_data(stride as int, top + rows, top + y);
            assert(stride * (top + rows) == (top + rows) * stride) by (nonlinear_arith);
            assert(top + y <= (top + y) * stride) by (nonlinear_arith)
                requires
                    1 <= stride,
            ;
        }
        let start: usize = (top + y) * stride + from;
        let mut x: usize = 0;
        while x < len
            invariant
                0 < len,
                from + len <= stride,
                total == data@.len(),
                y < rows,
                x <= len,
                start == (top + y) * stride + from,
                start + len <= total,
                out@.len() == y * len + x,
                forall|k: int|
                    0 <= k < out@.len() ==> #[trigger] out@[k] == data@[(top + k / (len as int))
                        * stride + from + k % (len as int)],
            decreases len - x,
        {
            proof {
                lemma_flat(len as int, rows as int, x as int, y as int);
            }
            out.push(data[start + x]);
            x = x + 1;
        }
        assert(y * len + len == (y + 1) * len) by (nonlinear_arith);
        y = y + 1;
    }
    assert(out@ =~= cut(data@, stride as int, len as int, rows as int, from as int, top as int));
    out
}

/// Whether `part` is the part of `image` in a box, and `lit` that of its mask.
pub open spec fn are_parts(
    part: RgbImage,
    lit: GrayImage,
    image: RgbImage,
    mask: GrayImage,
    b: Edges,
) -> bool {
    &&& part.width == b.2 - b.0
    &&& part.height == b.3 - b.1
    &&& part.data@ == crop(image.data@, image.width as int, 3, b)
    &&& lit.width == b.2 - b.0
    &&& lit.height == b.3 - b.1
    &&& lit.data@ == crop(mask.data@, mask.width as int, 1, b)
}

/// The part of an image in a box.
pub fn crop_image(image: &RgbImage, b: [u32; 4]) -> (r: RgbImage)
    requires
        image.wf(),
        is_box_in(image.width as int, image.height as int, edges(b)),
    ensures
        r.wf(),
        r.width == b[2] - b[0],
        r.height == b[3] - b[1],
        r.data@ == crop(image.data@, image.width as int, 3, edges(b)),
{
    let total: usize = image.data.len();
    let width: u32 = b[2] - b[0];
    let height: u32 = b[3] - b[1];
    proof {
        lemma_stride_fits(image.stride(), image.height as int, total as int);
        lemma_rows_fit(image.stride(), image.height as int, b[3] as int);
    }
    let data: Vec<u8> = cut_rows(
        &image.data,
        image.width as usize * 3,
        width as usize * 3,
        height as usize,
        b[0] as usize * 3,
        b[1] as usize,
    );
    RgbImage { width, height, data }
}

/// The part of a mask in a box.
pub fn crop_mask(mask: &GrayImage, b: [u32; 4]) -> (r: GrayImage)
    requires
        mask.wf(),
        is_box_in(mask.width as int, mask.height as int, edges(b)),
    ensures
        r.wf(),
        r.width == b[2] - b[0],
        r.height == b[3] - b[1],
        r.data@ == crop(mask.data@, mask.width as int, 1, edges(b)),
{
    let width: u32 = b[2] - b[0];
    let height: u32 = b[3] - b[1];
    proof {
        assert(mask.width * mask.height == mask.height * mask.width) by (nonlinear_arith);
        assert(width * height == height * width) by (nonlinear_arith);
        lemma_rows_fit(mask.width as int, mask.height as int, b[3] as int);
    }
    let data: Vec<u8> = cut_rows(
        &mask.data,
        mask.width as usize,
        width as usize,
        height as usize,
        b[0] as usize,
        b[1] as usize,
    );
    GrayImage { width, height, data }
}

proof fn lemma_rows_fit(stride: int, height: int, bottom: int)
    requires
        0 <= stride,
        0 <= bottom <= height,
    ensures
        bottom * stride <= height * stride,
{
    assert(bottom * stride <= height * stride) by (nonlinear_arith)
        requires
            0 <= stride,
            0 <= bottom <= height,
    ;
}

/// Putting a part of an image back as it was taken leaves the image as it was.
pub proof fn law_crop_is_put_back(data: Seq<u8>, width: int, height: int, b: Edges)
    requires
        is_box_in(width, height, b),
        data.len() == height * (width * 3),
    ensures
        paste(data, width, b, crop(data, width, 3, b)) == data,
{
    let stride = width * 3;
    let len = (b.2 - b.0) * 3;
    let rows = b.3 - b.1;
    let from = b.0 * 3;
    let part = crop(data, width, 3, b);
    let back = paste(data, width, b, part);
    assert forall|k: int| 0 <= k < data.len() implies #[trigger] back[k] == data[k] by {
        let row = k / stride;
        let column = k % stride;
        lemma_fundamental_div_mod(k, stride);
        if b.1 <= row < b.1 + rows && from <= column < from + len {
            lemma_flat(len, rows, column - from, row - b.1);
            assert(rows * len == len * rows) by (nonlinear_arith);
            assert(row * stride == stride * row) by (nonlinear_arith);
        }
    }
    assert(back =~= data);
}

/// Whether an image has pixels and its mask as many.
pub open spec fn fits(part: RgbImage, lit: GrayImage) -> bool {
    &&& part.wf()
    &&& lit.wf()
    &&& part.width == lit.width
    &&& part.height == lit.height
    &&& part.width > 0
    &&& part.height > 0
}

/// Inpainting with a graph on a device.
pub struct LamaRustScript<G> {
    pub device: Device,
    pub graph: G,
}

impl<G> LamaRustScript<G> {
    /// Inpainting with `graph` on `device`.
    pub fn new(device: Device, graph: G) -> (r: Self)
        ensures
            r.device == device,
            r.graph == graph,
    {
        LamaRustScript { device, graph }
    }

    /// Inpaints the masked pixels of an image.
    ///
    /// `forward` runs the graph on an image and its mask. An image whose sides are at most
    /// [`WHOLE_IMAGE_SIDE`] is worked on as a whole; of a larger one, the parts around the masked
    /// regions are, in order, and what each becomes is put back into the image. The first part
    /// that fails ends the work.
    pub fn inference<
        F: Fn(&G, Device, &str, &RgbImage, &GrayImage) -> Result<RgbImage, String>,
    >(&self, weights_path: &str, image: RgbImage, mask: &GrayImage, forward: F) -> (r: Result<
        RgbImage,
        String,
    >)
        requires
            image.wf(),
            mask.wf(),
            size_refusal(image, *mask) is None && is_large(image) ==> is_findable(*mask),
            forall|part: RgbImage, lit: GrayImage|
                fits(part, lit) ==> #[trigger] call_requires(
                    forward,
                    (&self.graph, self.device, weights_path, &part, &lit),
                ),
            forall|part: RgbImage, lit: GrayImage, out: RgbImage| #[trigger]
                call_ensures(
                    forward,
                    (&self.graph, self.device, weights_path, &part, &lit),
                    Ok::<RgbImage, String>(out),
                ) ==> out.wf() && out.width == part.width && out.height == part.height,
        ensures
            match size_refusal(image, *mask) {
                Some(message) => r is Err && r->Err_0@ == message,
                None => if !is_large(image) {
                    call_ensures(
                        forward,
                        (&self.graph, self.device, weights_path, &image, mask),
                        r,
                    )
                } else {
                    let crops = mask_crops(*mask);
                    match r {
                        Ok(out) => exists|parts: Seq<RgbImage>|
                            {
                                &&& parts.len() == crops.len()
                                &&& out.width == image.width
                                &&& out.height == image.height
                                &&& out.data@ == #[trigger] paste_all(
                                    image.data@,
                                    image.width as int,
                                    crops,
                                    parts,
                                    crops.len(),
                                )
                                &&& all_worked(
                                    *self,
                                    weights_path,
                                    forward,
                                    image,
                                    *mask,
                                    crops,
                                    parts,
                                )
                            },
                        Err(e) => exists|parts: Seq<RgbImage>|
                            {
                                &&& parts.len() < crops.len()
                                &&& #[trigger] all_worked(
                                    *self,
                                    weights_path,
                                    forward,
                                    image,
                                    *mask,
                                    crops,
                                    parts,
                                )
                                &&& worked(
                                    *self,
                                    weights_path,
                                    forward,
                                    image,
                                    *mask,
                                    crops[parts.len() as int],
                                    Err(e),
                                )
                            },
                    }
                },
            },
    {
        match check_sizes(&image, mask) {
            Ok(()) => {},
            Err(message) => {
                return Err(message);
            },
        }
        if image.width <= WHOLE_IMAGE_SIDE && image.height <= WHOLE_IMAGE_SIDE {
            assert(fits(image, *mask));
            return forward(&self.graph, self.device, weights_path, &image, mask);
        }
        let boxes: Vec<[u32; 4]> = boxes_from_mask(mask);
        let ghost crops = mask_crops(*mask);
        let ghost width = image.width as int;
        let ghost mut parts: Seq<RgbImage> = Seq::empty();
        let mut result: RgbImage = RgbImage {
            width: image.width,
            height: image.height,
            data: image.data.clone(),
        };
        assert(result.data@ =~= image.data@);
        let mut i: usize = 0;
        while i < boxes.len()
            invariant
                i <= boxes@.len(),
                all_edges(boxes@) == mask_boxes(*mask),
                crops == mask_crops(*mask),
                width == mask.width,
                image.wf(),
                mask.wf(),
                image.width == mask.width,
                image.height == mask.height,
                result.width == mask.width,
                result.height == mask.height,
                result.wf(),
                is_large(image),
                size_refusal(image, *mask) is None,
                forall|k: int|
                    0 <= k < boxes@.len() ==> is_box_in(
                        mask.width as int,
                        mask.height as int,
                        edges(#[trigger] boxes@[k]),
                    ),
                forall|part: RgbImage, lit: GrayImage|
                    fits(part, lit) ==> #[trigger] call_requires(
                        forward,
                        (&self.graph, self.device, weights_path, &part, &lit),
                    ),
                forall|part: RgbImage, lit: GrayImage, out: RgbImage| #[trigger]
                    call_ensures(
                        forward,
                        (&self.graph, self.device, weights_path, &part, &lit),
                        Ok::<RgbImage, String>(out),
                    ) ==> out.wf() && out.width == part.width && out.height == part.height,
                parts.len() == i,
                result.data@ == paste_all(image.data@, width, crops, parts, i as nat),
                all_worked(*self, weights_path, forward, image, *mask, crops, parts),
            decreases boxes@.len() - i,
        {
            let ghost e = edges(boxes@[i as int]);
            let b: [u32; 4] = crop_box(mask.width, mask.height, boxes[i]);
            proof {
                law_crop_holds_box(mask.width as int, mask.height as int, e);
                assert(all_edges(boxes@)[i as int] == e);
                assert(crops[i as int] == edges(b));
            }
            let part: RgbImage = crop_image(&image, b);
            let lit: GrayImage = crop_mask(mask, b);
            assert(fits(part, lit));
            assert(are_parts(part, lit, image, *mask, edges(b)));
            match forward(&self.graph, self.device, weights_path, &part, &lit) {
                Ok(out) => {
                    assert(worked(
                        *self,
                        weights_path,
                        forward,
                        image,
                        *mask,
                        crops[i as int],
                        Ok(out),
                    ));
                    paste_crop(&mut result, b, &out);
                    proof {
                        let longer = parts.push(out);
                        lemma_paste_prefix(image.data@, width, crops, parts, longer, i as nat);
                        assert forall|k: int| 0 <= k < longer.len() implies worked(
                            *self,
                            weights_path,
                            forward,
                            image,
                            *mask,
                            crops[k],
                            Ok(#[trigger] longer[k]),
                        ) by {
                            if k < i {
                                assert(longer[k] == parts[k]);
                            }
                        }
                        parts = longer;
                    }
                },
                Err(message) => {
                    assert(worked(
                        *self,
                        weights_path,
                        forward,
                        image,
                        *mask,
                        crops[parts.len() as int],
                        Err(message),
                    ));
                    return Err(message);
                },
            }
            i = i + 1;
        }
        assert(crops.len() == boxes@.len());
        assert(result.data@ == paste_all(image.data@, width, crops, parts, crops.len()));
        Ok(result)
    }
}

/// Whether an image is too large to be worked on as a whole.
pub open spec fn is_large(image: RgbImage) -> bool {
    image.width > WHOLE_IMAGE_SIDE || image.height > WHOLE_IMAGE_SIDE
}

/// Whether `forward` can give `r` on the part of the image and its mask with these edges.
pub open spec fn worked<
    G,
    F: Fn(&G, Device, &str, &RgbImage, &GrayImage) -> Result<RgbImage, String>,
>(
    script: LamaRustScript<G>,
    weights_path: &str,
    forward: F,
    image: RgbImage,
    mask: GrayImage,
    b: Edges,
    r: Result<RgbImage, String>,
) -> bool {
    exists|part: RgbImage, lit: GrayImage|
        are_parts(part, lit, image, mask, b) && #[trigger] call_ensures(
            forward,
            (&script.graph, script.device, weights_path, &part, &lit),
            r,
        )
}

/// Whether `forward` can give `parts` on the first parts of the image, in order.
pub open spec fn all_worked<
    G,
    F: Fn(&G, Device, &str, &RgbImage, &GrayImage) -> Result<RgbImage, String>,
>(
    script: LamaRustScript<G>,
    weights_path: &str,
    forward: F,
    image: RgbImage,
    mask: GrayImage,
    crops: Seq<Edges>,
    parts: Seq<RgbImage>,
) -> bool {
    forall|i: int|
        0 <= i < parts.len() ==> worked(
            script,
            weights_path,
            forward,
            image,
            mask,
            crops[i],
            Ok(#[trigger] parts[i]),
        )
}

proof fn lemma_paste_prefix(
    data: Seq<u8>,
    width: int,
    boxes: Seq<Edges>,
    crops: Seq<RgbImage>,
    longer: Seq<RgbImage>,
    n: nat,
)
    requires
        n <= crops.len() <= longer.len(),
        forall|i: int| 0 <= i < n ==> crops[i] == #[trigger] longer[i],
    ensures
        paste_all(data, width, boxes, crops, n) == paste_all(data, width, boxes, longer, n),
    decreases n,
{
    if n > 0 {
        lemma_paste_prefix(data, width, boxes, crops, longer, (n - 1) as nat);
        assert(crops[n - 1] == longer[n - 1]);
    }
}

/// Whether the byte `k` of an image lies in a box.
pub open spec fn byte_in_box(width: int, b: Edges, k: int) -> bool {
    &&& b.1 <= k / (width * 3) < b.3
    &&& b.0 * 3 <= k % (width * 3) < b.2 * 3
}

/// Inpainting leaves every byte outside the crops as it was.
pub proof fn law_outside_crops_stays(
    data: Seq<u8>,
    width: int,
    boxes: Seq<Edges>,
    crops: Seq<RgbImage>,
    n: nat,
    k: int,
)
    requires
        n <= boxes.len(),
        0 <= k < data.len(),
        forall|i: int| 0 <= i < n ==> !byte_in_box(width, #[trigger] boxes[i], k),
    ensures
        paste_all(data, width, boxes, crops, n).len() == data.len(),
        paste_all(data, width, boxes, crops, n)[k] == data[k],
    decreases n,
{
    if n > 0 {
        law_outside_crops_stays(data, width, boxes, crops, (n - 1) as nat, k);
        assert(!byte_in_box(width, boxes[n - 1], k));
    }
}

/// A part of an image holds the pixels of its box, row by row.
pub proof fn law_part_holds_its_pixels(
    data: Seq<u8>,
    width: int,
    height: int,
    channels: int,
    b: Edges,
    x: int,
    y: int,
    c: int,
)
    requires
        is_box_in(width, height, b),
        0 < channels,
        b.0 <= x < b.2,
        b.1 <= y < b.3,
        0 <= c < channels,
    ensures
        crop(data, width, channels, b).len() == (b.3 - b.1) * ((b.2 - b.0) * channels),
        crop(data, width, channels, b)[(y - b.1) * ((b.2 - b.0) * channels) + (x - b.0) * channels
            + c] == data[y * (width * channels) + x * channels + c],
{
    let len = (b.2 - b.0) * channels;
    let rows = b.3 - b.1;
    let column = (x - b.0) * channels + c;
    assert(0 <= column < len) by (nonlinear_arith)
        requires
            column == (x - b.0) * channels + c,
            len == (b.2 - b.0) * channels,
            0 <= x - b.0 < b.2 - b.0,
            0 <= c < channels,
    ;
    lemma_flat(len, rows, column, y - b.1);
    assert(rows * len == len * rows) by (nonlinear_arith);
    assert(b.0 * channels + (x - b.0) * channels == x * channels) by (nonlinear_arith);
}

/// An image with a part put back has the pixels of the part in its box, and its own elsewhere.
pub proof fn law_put_back_pixel(
    data: Seq<u8>,
    width: int,
    height: int,
    b: Edges,
    part: Seq<u8>,
    x: int,
    y: int,
    c: int,
)
    requires
        is_box_in(width, height, b),
        data.len() == height * (width * 3),
        0 <= x < width,
        0 <= y < height,
        0 <= c < 3,
    ensures
        paste(data, width, b, part).len() == data.len(),
        paste(data, width, b, part)[y * (width * 3) + x * 3 + c] == (if b.0 <= x < b.2 && b.1 <= y
            < b.3 {
            part[(y - b.1) * ((b.2 - b.0) * 3) + (x - b.0) * 3 + c]
        } else {
            data[y * (width * 3) + x * 3 + c]
        }),
{
    lemma_flat(width * 3, height, x * 3 + c, y);
    assert((width * 3) * height == height * (width * 3)) by (nonlinear_arith);
}

/// Of the parts that hold a pixel, the last one put back decides it; a pixel in none stays.
pub proof fn law_last_part_decides(
    data: Seq<u8>,
    width: int,
    height: int,
    boxes: Seq<Edges>,
    parts: Seq<RgbImage>,
    n: nat,
    x: int,
    y: int,
    c: int,
)
    requires
        n <= boxes.len(),
        n <= parts.len(),
        forall|i: int| 0 <= i < n ==> is_box_in(width, height, #[trigger] boxes[i]),
        data.len() == height * (width * 3),
        0 <= x < width,
        0 <= y < height,
        0 <= c < 3,
    ensures
        ({
            let k = y * (width * 3) + x * 3 + c;
            let after = paste_all(data, width, boxes, parts, n);
            &&& after.len() == data.len()
            &&& forall|i: int|
                0 <= i < n && pixel_in_box(#[trigger] boxes[i], x, y) && (forall|j: int|
                    i < j < n ==> !pixel_in_box(#[trigger] boxes[j], x, y)) ==> after[k]
                    == parts[i].data@[(y - boxes[i].1) * ((boxes[i].2 - boxes[i].0) * 3) + (x
                    - boxes[i].0) * 3 + c]
            &&& (forall|i: int| 0 <= i < n ==> !pixel_in_box(#[trigger] boxes[i], x, y))
                ==> after[k] == data[k]
        }),
    decreases n,
{
    if n > 0 {
        let m = (n - 1) as nat;
        law_last_part_decides(data, width, height, boxes, parts, m, x, y, c);
        assert(is_box_in(width, height, boxes[n - 1]));
        let before = paste_all(data, width, boxes, parts, m);
        law_put_back_pixel(before, width, height, boxes[n - 1], parts[n - 1].data@, x, y, c);
    }
}

/// Whether the pixel in column `x` of row `y` lies in a box.
pub open spec fn pixel_in_box(b: Edges, x: int, y: int) -> bool {
    b.0 <= x < b.2 && b.1 <= y < b.3
}

/// A crop side has 256 pixels more than the side of its box, one less where that is odd, or the
/// whole row where that is shorter; it lies evenly around the box unless an end of the row is
/// nearer than that.
pub proof fn law_crop_margin(extent: int, low: int, high: int)
    requires
        0 <= low <= high <= extent,
    ensures
        ({
            let (from, to) = crop_side(extent, low, high);
            let odd = (high - low) % 2;
            &&& to - from == if high - low + 256 - odd < extent {
                high - low + 256 - odd
            } else {
                extent
            }
            &&& low < 128 ==> from == 0
            &&& high + 128 - odd > extent ==> to == extent
            &&& low >= 128 && high + 128 - odd <= extent ==> from == low - 128
        }),
{
}

/// A pixel is masked where its byte is above 127, and the sizes above 800 are large.
pub proof fn law_limits(mask: GrayImage, image: RgbImage, x: int, y: int)
    requires
        0 <= x < mask.width,
        0 <= y < mask.height,
    ensures
        masked(mask, x, y) <==> mask.data@[y * mask.width + x] > 127,
        is_large(image) <==> image.width > 800 || image.height > 800,
        size_refusal(image, mask) is None <==> image.width == mask.width && image.height
            == mask.height,
{
}

proof fn lemma_least(p: spec_fn(int) -> bool, from: int, n: int) -> (least: int)
    requires
        exists|i: int| from <= i < n && #[trigger] p(i),
    ensures
        from <= least < n,
        p(least),
        forall|i: int| from <= i < least ==> !#[trigger] p(i),
    decreases n - from,
{
    if p(from) {
        from
    } else {
        let i = choose|i: int| from <= i < n && #[trigger] p(i);
        assert(from + 1 <= i);
        lemma_least(p, from + 1, n)
    }
}

/// Where a pixel is masked there is a least rectangle around the masked pixels.
proof fn lemma_bounds_exist(mask: GrayImage)
    requires
        any_masked(mask),
    ensures
        bounds(mask) is Some,
        is_bounds(mask, bounds(mask)->0),
{
    let (x, y) = choose|x: int, y: int| #[trigger] masked(mask, x, y);
    let w = mask.width as int;
    let h = mask.height as int;
    let columns = |x: int| column_masked(mask, x);
    let rows = |y: int| row_masked(mask, y);
    let back_columns = |x: int| column_masked(mask, w - 1 - x);
    let back_rows = |y: int| row_masked(mask, h - 1 - y);
    assert(columns(x) && rows(y));
    assert(back_columns(w - 1 - x) && back_rows(h - 1 - y));
    let left = lemma_least(columns, 0, w);
    let top = lemma_least(rows, 0, h);
    let right = w - lemma_least(back_columns, 0, w);
    let bottom = h - lemma_least(back_rows, 0, h);
    let b = (left, top, right, bottom);
    assert forall|x: int, y: int| #[trigger] masked(mask, x, y) implies b.0 <= x < b.2 && b.1 <= y
        < b.3 by {
        assert(columns(x) && rows(y));
        assert(back_columns(w - 1 - x) && back_rows(h - 1 - y));
    }
    assert(is_bounds(mask, b));
}

/// Whether a box is the least one around these points of a padded part that begins at `left` and
/// `top`.
pub open spec fn is_around(b: Edges, points: Seq<(u32, u32)>, left: int, top: int) -> bool {
    &&& forall|k: int|
        0 <= k < points.len() ==> pixel_in_box(
            b,
            left + (#[trigger] points[k]).0 - 1,
            top + points[k].1 - 1,
        )
    &&& exists|k: int| 0 <= k < points.len() && left + (#[trigger] points[k]).0 - 1 == b.0
    &&& exists|k: int| 0 <= k < points.len() && top + (#[trigger] points[k]).1 - 1 == b.1
    &&& exists|k: int| 0 <= k < points.len() && left + (#[trigger] points[k]).0 == b.2
    &&& exists|k: int| 0 <= k < points.len() && top + (#[trigger] points[k]).1 == b.3
}

proof fn lemma_extent_around(points: Seq<(u32, u32)>, n: nat)
    requires
        1 <= n <= points.len(),
    ensures
        ({
            let e = extent(points, n);
            &&& forall|k: int|
                0 <= k < n ==> e.0 <= (#[trigger] points[k]).0 <= e.2 && e.1 <= points[k].1 <= e.3
            &&& exists|k: int| 0 <= k < n && (#[trigger] points[k]).0 == e.0
            &&& exists|k: int| 0 <= k < n && (#[trigger] points[k]).1 == e.1
            &&& exists|k: int| 0 <= k < n && (#[trigger] points[k]).0 == e.2
            &&& exists|k: int| 0 <= k < n && (#[trigger] points[k]).1 == e.3
        }),
    decreases n,
{
    let p = points[n - 1];
    assert(points[0] == points[0]);
    if n > 1 {
        let m = (n - 1) as nat;
        lemma_extent_around(points, m);
        let e = extent(points, m);
        let a = choose|k: int| 0 <= k < m && (#[trigger] points[k]).0 == e.0;
        let b = choose|k: int| 0 <= k < m && (#[trigger] points[k]).1 == e.1;
        let c = choose|k: int| 0 <= k < m && (#[trigger] points[k]).0 == e.2;
        let d = choose|k: int| 0 <= k < m && (#[trigger] points[k]).1 == e.3;
        let f = extent(points, n);
        assert(points[a].0 == f.0 || points[n - 1].0 == f.0);
        assert(points[b].1 == f.1 || points[n - 1].1 == f.1);
        assert(points[c].0 == f.2 || points[n - 1].0 == f.2);
        assert(points[d].1 == f.3 || points[n - 1].1 == f.3);
    }
}

/// Whether the points of every border lie in a padded part with `width` columns and `height` rows
/// inside, and there is one.
pub open spec fn are_inside(contours: Seq<ContourView>, width: int, height: int) -> bool {
    forall|i: int|
        0 <= i < contours.len() ==> {
            &&& (#[trigger] contours[i]).2.len() > 0
            &&& forall|k: int|
                0 <= k < contours[i].2.len() ==> {
                    let p = #[trigger] contours[i].2[k];
                    1 <= p.0 <= width && 1 <= p.1 <= height
                }
        }
}

/// There is a box for each outermost outer border and no other, in their order, and it is the
/// least one around the points of that border.
pub proof fn law_a_box_for_each_region(
    contours: Seq<ContourView>,
    left: int,
    top: int,
    width: int,
    height: int,
    n: nat,
)
    requires
        n <= contours.len(),
        0 <= left < width,
        0 <= top < height,
        are_inside(contours, width - left, height - top),
    ensures
        ({
            let outermost = contours.take(n as int).filter(|c: ContourView| c.0 && c.1 is None);
            let boxes = boxes_of(contours, left, top, width, height, n);
            &&& boxes.len() == outermost.len()
            &&& forall|i: int|
                0 <= i < outermost.len() ==> is_around(
                    #[trigger] boxes[i],
                    outermost[i].2,
                    left,
                    top,
                )
        }),
    decreases n,
{
    let keep = |c: ContourView| c.0 && c.1 is None;
    if n == 0 {
        assert(contours.take(0).filter(keep).len() == 0) by {
            reveal(Seq::filter);
        }
    } else {
        law_a_box_for_each_region(contours, left, top, width, height, (n - 1) as nat);
        let c = contours[n - 1];
        contours.take(n - 1).lemma_filter_push(c, keep);
        assert(contours.take(n - 1).push(c) =~= contours.take(n as int));
        assert(c.2.len() > 0);
        lemma_extent_around(c.2, c.2.len());
        let e = extent(c.2, c.2.len());
        let b = contour_edges(c.2, left, top, width, height);
        let k0 = choose|k: int| 0 <= k < c.2.len() && (#[trigger] c.2[k]).0 == e.0;
        let k1 = choose|k: int| 0 <= k < c.2.len() && (#[trigger] c.2[k]).1 == e.1;
        let k2 = choose|k: int| 0 <= k < c.2.len() && (#[trigger] c.2[k]).0 == e.2;
        let k3 = choose|k: int| 0 <= k < c.2.len() && (#[trigger] c.2[k]).1 == e.3;
        assert(1 <= contours[n - 1].2[k0].0 && 1 <= contours[n - 1].2[k1].1);
        assert(contours[n - 1].2[k2].0 <= width - left && contours[n - 1].2[k3].1 <= height - top);
        assert(left + c.2[k0].0 - 1 == b.0 && top + c.2[k1].1 - 1 == b.1);
        assert(left + c.2[k2].0 == b.2 && top + c.2[k3].1 == b.3);
        assert(is_around(b, c.2, left, top));
    }
}

proof fn lemma_filter_holds(s: Seq<ContourView>, keep: spec_fn(ContourView) -> bool, i: int)
    requires
        0 <= i < s.len(),
        keep(s[i]),
    ensures
        s.filter(keep).contains(s[i]),
    decreases s.len(),
{
    reveal(Seq::filter);
    let rest = s.drop_last().filter(keep);
    if i == s.len() - 1 {
        assert(s.filter(keep).last() == s[i]);
    } else {
        lemma_filter_holds(s.drop_last(), keep, i);
        let k = choose|k: int| 0 <= k < rest.len() && rest[k] == s[i];
        assert(s.filter(keep)[k] == s[i]);
    }
}

/// Whether an outermost outer border goes around a pixel: points of it lie at or before and at or
/// behind the pixel in both directions.
pub open spec fn goes_around(c: ContourView, x: int, y: int) -> bool {
    &&& c.0
    &&& c.1 is None
    &&& exists|k: int| 0 <= k < c.2.len() && (#[trigger] c.2[k]).0 <= x
    &&& exists|k: int| 0 <= k < c.2.len() && (#[trigger] c.2[k]).1 <= y
    &&& exists|k: int| 0 <= k < c.2.len() && (#[trigger] c.2[k]).0 >= x
    &&& exists|k: int| 0 <= k < c.2.len() && (#[trigger] c.2[k]).1 >= y
}

/// The borders that are found in the masked part of a mask, with one dark pixel around it.
pub open spec fn found_borders(mask: GrayImage, b: Edges) -> Seq<ContourView> {
    images::borders(
        (b.2 - b.0 + 2) as u32,
        (b.3 - b.1 + 2) as u32,
        padded_pixels(mask, b),
        127,
    )
}

/// Every masked pixel that a found border goes around lies in one of the boxes, and in the crop
/// that is worked on for that box, which lies in the image. There are as many boxes and crops as
/// there are outermost outer borders.
pub proof fn law_masked_pixels_are_worked_on(mask: GrayImage, b: Edges, x: int, y: int)
    requires
        0 <= x < mask.width,
        0 <= y < mask.height,
        mask.data@[y * mask.width + x] > 127,
        is_bounds(mask, b),
        are_inside(found_borders(mask, b), b.2 - b.0, b.3 - b.1),
        exists|i: int|
            0 <= i < found_borders(mask, b).len() && goes_around(
                #[trigger] found_borders(mask, b)[i],
                x - b.0 + 1,
                y - b.1 + 1,
            ),
    ensures
        ({
            let boxes = mask_boxes(mask);
            let crops = mask_crops(mask);
            &&& boxes.len() == found_borders(mask, b).filter(
                |c: ContourView| c.0 && c.1 is None,
            ).len()
            &&& crops.len() == boxes.len()
            &&& exists|i: int|
                0 <= i < boxes.len() && pixel_in_box(#[trigger] boxes[i], x, y) && pixel_in_box(
                    crops[i],
                    x,
                    y,
                ) && is_box_in(mask.width as int, mask.height as int, crops[i])
        }),
{
    assert(masked(mask, x, y));
    lemma_bounds_exist(mask);
    lemma_bounds_unique(mask, b, bounds(mask)->0);
    lemma_column_within(mask, b, b.0);
    lemma_row_within(mask, b, b.1);
    lemma_column_within(mask, b, b.2 - 1);
    lemma_row_within(mask, b, b.3 - 1);
    let contours = found_borders(mask, b);
    let w = mask.width as int;
    let h = mask.height as int;
    let keep = |c: ContourView| c.0 && c.1 is None;
    assert forall|i: int| 0 <= i < contours.len() implies {
        &&& (#[trigger] contours[i]).2.len() > 0
        &&& forall|k: int|
            0 <= k < contours[i].2.len() ==> {
                let p = #[trigger] contours[i].2[k];
                1 <= p.0 <= w - b.0 && 1 <= p.1 <= h - b.1
            }
    } by {
        assert forall|k: int| 0 <= k < contours[i].2.len() implies {
            let p = #[trigger] contours[i].2[k];
            1 <= p.0 <= w - b.0 && 1 <= p.1 <= h - b.1
        } by {
            let p = contours[i].2[k];
            assert(1 <= p.0 <= b.2 - b.0 && 1 <= p.1 <= b.3 - b.1);
        }
    }
    law_a_box_for_each_region(contours, b.0, b.1, w, h, contours.len());
    assert(contours.take(contours.len() as int) =~= contours);
    let outermost = contours.filter(keep);
    let boxes = mask_boxes(mask);
    let i = choose|i: int|
        0 <= i < contours.len() && goes_around(
            #[trigger] contours[i],
            x - b.0 + 1,
            y - b.1 + 1,
        );
    let c = contours[i];
    lemma_filter_holds(contours, keep, i);
    let j = choose|j: int| 0 <= j < outermost.len() && outermost[j] == c;
    assert(is_around(boxes[j], c.2, b.0, b.1));
    let k0 = choose|k: int| 0 <= k < c.2.len() && (#[trigger] c.2[k]).0 <= x - b.0 + 1;
    let k1 = choose|k: int| 0 <= k < c.2.len() && (#[trigger] c.2[k]).1 <= y - b.1 + 1;
    let k2 = choose|k: int| 0 <= k < c.2.len() && (#[trigger] c.2[k]).0 >= x - b.0 + 1;
    let k3 = choose|k: int| 0 <= k < c.2.len() && (#[trigger] c.2[k]).1 >= y - b.1 + 1;
    assert(pixel_in_box(boxes[j], b.0 + c.2[k0].0 - 1, b.1 + c.2[k0].1 - 1));
    assert(pixel_in_box(boxes[j], b.0 + c.2[k1].0 - 1, b.1 + c.2[k1].1 - 1));
    assert(pixel_in_box(boxes[j], b.0 + c.2[k2].0 - 1, b.1 + c.2[k2].1 - 1));
    assert(pixel_in_box(boxes[j], b.0 + c.2[k3].0 - 1, b.1 + c.2[k3].1 - 1));
    assert(pixel_in_box(boxes[j], x, y));
    let e2 = choose|k: int| 0 <= k < c.2.len() && b.0 + (#[trigger] c.2[k]).0 == boxes[j].2;
    let e3 = choose|k: int| 0 <= k < c.2.len() && b.1 + (#[trigger] c.2[k]).1 == boxes[j].3;
    let e0 = choose|k: int| 0 <= k < c.2.len() && b.0 + (#[trigger] c.2[k]).0 - 1 == boxes[j].0;
    let e1 = choose|k: int| 0 <= k < c.2.len() && b.1 + (#[trigger] c.2[k]).1 - 1 == boxes[j].1;
    assert(contours[i].2[e2].0 <= b.2 - b.0 && contours[i].2[e3].1 <= b.3 - b.1);
    assert(contours[i].2[e0].0 >= 1 && contours[i].2[e1].1 >= 1);
    assert(is_box_in(w, h, boxes[j]));
    law_crop_holds_box(w, h, boxes[j]);
    assert(mask_crops(mask)[j] == crop_edges(w, h, boxes[j]));
}

/// The masked part with one dark pixel around it holds the pixels of the least rectangle, moved by
/// one, and is dark at its edge.
pub proof fn law_padded_part(mask: GrayImage, b: Edges, x: int, y: int)
    requires
        b.0 < b.2,
        b.1 < b.3,
        0 <= x < b.2 - b.0 + 2,
        0 <= y < b.3 - b.1 + 2,
    ensures
        ({
            let width = b.2 - b.0 + 2;
            let inner = 0 < x < width - 1 && 0 < y < b.3 - b.1 + 1;
            &&& padded_pixels(mask, b).len() == width * (b.3 - b.1 + 2)
            &&& inner ==> padded_pixels(mask, b)[y * width + x] == mask.data@[(b.1 + y - 1)
                * mask.width + b.0 + x - 1]
            &&& !inner ==> padded_pixels(mask, b)[y * width + x] == 0
        }),
{
    lemma_flat(b.2 - b.0 + 2, b.3 - b.1 + 2, x, y);
}

/// A mask without masked pixels has no boxes and no crops.
pub proof fn law_dark_mask_has_no_work(mask: GrayImage)
    requires
        forall|i: int| 0 <= i < mask.data@.len() ==> #[trigger] mask.data@[i] <= 127,
        mask.wf(),
    ensures
        mask_boxes(mask).len() == 0,
        mask_crops(mask).len() == 0,
{
    assert forall|x: int, y: int| !#[trigger] masked(mask, x, y) by {
        if 0 <= x < mask.width && 0 <= y < mask.height {
            lemma_flat(mask.width as int, mask.height as int, x, y);
            assert(mask.data@[y * mask.width + x] <= 127);
        }
    }
}

/// The parts that the graph is run on are those of the image and its mask in their box, pixel by
/// pixel.
pub proof fn law_parts_hold_their_pixels(
    part: RgbImage,
    lit: GrayImage,
    image: RgbImage,
    mask: GrayImage,
    b: Edges,
    x: int,
    y: int,
    c: int,
)
    requires
        are_parts(part, lit, image, mask, b),
        image.width == mask.width,
        is_box_in(image.width as int, image.height as int, b),
        b.0 <= x < b.2,
        b.1 <= y < b.3,
        0 <= c < 3,
    ensures
        part.width == b.2 - b.0,
        part.height == b.3 - b.1,
        lit.width == b.2 - b.0,
        lit.height == b.3 - b.1,
        part.data@[(y - b.1) * (part.width * 3) + (x - b.0) * 3 + c] == image.data@[y * (image.width
            * 3) + x * 3 + c],
        lit.data@[(y - b.1) * lit.width + (x - b.0)] == mask.data@[y * mask.width + x],
{
    let width = image.width as int;
    let height = image.height as int;
    law_part_holds_its_pixels(image.data@, width, height, 3, b, x, y, c);
    law_part_holds_its_pixels(mask.data@, width, height, 1, b, x, y, 0);
    assert((b.2 - b.0) * 1 == b.2 - b.0);
    assert((x - b.0) * 1 == x - b.0);
    assert(width * 1 == width);
    assert(x * 1 == x);
}

/// In a large image that was inpainted, each pixel of a crop is what the graph gave for the part in
/// that crop, unless a later crop holds it too; each pixel in no crop is as it was.
pub proof fn law_inpainted_pixels<
    G,
    F: Fn(&G, Device, &str, &RgbImage, &GrayImage) -> Result<RgbImage, String>,
>(
    script: LamaRustScript<G>,
    weights_path: &str,
    forward: F,
    image: RgbImage,
    mask: GrayImage,
    crops: Seq<Edges>,
    parts: Seq<RgbImage>,
    i: int,
    x: int,
    y: int,
    c: int,
)
    requires
        image.wf(),
        parts.len() == crops.len(),
        all_worked(script, weights_path, forward, image, mask, crops, parts),
        forall|k: int|
            0 <= k < crops.len() ==> is_box_in(
                image.width as int,
                image.height as int,
                #[trigger] crops[k],
            ),
        0 <= i < crops.len(),
        0 <= x < image.width,
        0 <= y < image.height,
        0 <= c < 3,
    ensures
        ({
            let out = paste_all(image.data@, image.width as int, crops, parts, crops.len());
            let place = y * (image.width * 3) + x * 3 + c;
            let b = crops[i];
            &&& out.len() == image.data@.len()
            &&& pixel_in_box(b, x, y) && (forall|k: int|
                i < k < crops.len() ==> !pixel_in_box(#[trigger] crops[k], x, y)) ==> out[place]
                == parts[i].data@[(y - b.1) * ((b.2 - b.0) * 3) + (x - b.0) * 3 + c]
            &&& (forall|k: int| 0 <= k < crops.len() ==> !pixel_in_box(#[trigger] crops[k], x, y))
                ==> out[place] == image.data@[place]
            &&& exists|part: RgbImage, lit: GrayImage|
                {
                    &&& are_parts(part, lit, image, mask, b)
                    &&& #[trigger] call_ensures(
                        forward,
                        (&script.graph, script.device, weights_path, &part, &lit),
                        Ok::<RgbImage, String>(parts[i]),
                    )
                }
        }),
{
    law_last_part_decides(
        image.data@,
        image.width as int,
        image.height as int,
        crops,
        parts,
        crops.len(),
        x,
        y,
        c,
    );
    assert(worked(script, weights_path, forward, image, mask, crops[i], Ok(parts[i])));
}

} // verus!
