//! Vision inputs: patches of an image, resized position embeddings, and folded pixels.
use vstd::prelude::*;
use vstd::string::*;

use crate::args;
use crate::context::{ContextView, TorchContext};
use crate::shapes;
use crate::shapes::sized_arg;
use crate::text;
use crate::value::{host_error, ErrorView, Value, VmError, VmResult};

verus! {

/// The side of the image that patches are cut from.
pub const IMAGE_SIDE: usize = 512;

/// The bytes of the image that patches are cut from.
pub const IMAGE_BYTES: usize = 786432;

/// Where in the image the byte `k` of the patches lies. The patches follow each other row by row;
/// in a patch, its pixels do, with their three bytes.
pub open spec fn patch_offset(k: int) -> int {
    let channel = k % 3;
    let x = (k / 3) % 16;
    let y = (k / 48) % 16;
    let patch_x = (k / 768) % 32;
    let patch_y = k / 24576;
    ((patch_y * 16 + y) * 512 + patch_x * 16 + x) * 3 + channel
}

/// Where in the patches the byte `o` of the image lies.
pub open spec fn patch_place(o: int) -> int {
    let channel = o % 3;
    let column = (o / 3) % 512;
    let row = o / 1536;
    (row / 16) * 24576 + (column / 16) * 768 + (row % 16) * 48 + (column % 16) * 3 + channel
}

/// Cutting an image in patches moves every byte to one place and loses none.
pub proof fn law_patches_rearrange(k: int, o: int)
    requires
        0 <= k < 786432,
        0 <= o < 786432,
    ensures
        0 <= patch_offset(k) < 786432,
        0 <= patch_place(o) < 786432,
        patch_place(patch_offset(k)) == k,
        patch_offset(patch_place(o)) == o,
{
    let channel = k % 3;
    let x = (k / 3) % 16;
    let y = (k / 48) % 16;
    let patch_x = (k / 768) % 32;
    let patch_y = k / 24576;
    lemma_patch_digits(k);
    lemma_place_of(channel, x, y, patch_x, patch_y);
    let c = o % 3;
    let column = (o / 3) % 512;
    let row = o / 1536;
    assert(o == row * 1536 + column * 3 + c && 0 <= row < 512);
    assert(row == (row / 16) * 16 + row % 16 && 0 <= row / 16 < 32);
    assert(column == (column / 16) * 16 + column % 16 && 0 <= column / 16 < 32);
    lemma_offset_of(c, column % 16, row % 16, column / 16, row / 16);
}

/// The five places that a byte of the patches is counted by.
proof fn lemma_patch_digits(k: int)
    requires
        0 <= k < 786432,
    ensures
        k == (k / 24576) * 24576 + ((k / 768) % 32) * 768 + ((k / 48) % 16) * 48 + ((k / 3) % 16)
            * 3 + k % 3,
        0 <= k / 24576 < 32,
{
    let a = k / 3;
    let b = k / 48;
    let c = k / 768;
    let d = k / 24576;
    assert(k == a * 3 + k % 3);
    assert(b == a / 16);
    assert(a == b * 16 + a % 16);
    assert(c == b / 16);
    assert(b == c * 16 + b % 16);
    assert(d == c / 32);
    assert(c == d * 32 + c % 32);
}

proof fn lemma_offset_of(channel: int, x: int, y: int, patch_x: int, patch_y: int)
    requires
        0 <= channel < 3,
        0 <= x < 16,
        0 <= y < 16,
        0 <= patch_x < 32,
        0 <= patch_y < 32,
    ensures
        patch_offset(patch_y * 24576 + patch_x * 768 + y * 48 + x * 3 + channel) == ((patch_y * 16
            + y) * 512 + patch_x * 16 + x) * 3 + channel,
{
    let k = patch_y * 24576 + patch_x * 768 + y * 48 + x * 3 + channel;
    let a = patch_y * 8192 + patch_x * 256 + y * 16 + x;
    let b = patch_y * 512 + patch_x * 16 + y;
    let c = patch_y * 32 + patch_x;
    assert(k == a * 3 + channel);
    assert(k / 3 == a && k % 3 == channel);
    assert(a == b * 16 + x);
    assert(a % 16 == x && a / 16 == b);
    assert(k / 48 == b);
    assert(b == c * 16 + y);
    assert(b % 16 == y && b / 16 == c);
    assert(k / 768 == c);
    assert(c % 32 == patch_x && c / 32 == patch_y);
    assert(k / 24576 == patch_y);
}

proof fn lemma_place_of(channel: int, x: int, y: int, patch_x: int, patch_y: int)
    requires
        0 <= channel < 3,
        0 <= x < 16,
        0 <= y < 16,
        0 <= patch_x < 32,
        0 <= patch_y < 32,
    ensures
        patch_place(((patch_y * 16 + y) * 512 + patch_x * 16 + x) * 3 + channel) == patch_y * 24576
            + patch_x * 768 + y * 48 + x * 3 + channel,
{
    let row = patch_y * 16 + y;
    let column = patch_x * 16 + x;
    let o = (row * 512 + column) * 3 + channel;
    assert(o % 3 == channel && o / 3 == row * 512 + column);
    assert((row * 512 + column) % 512 == column);
    assert(o / 1536 == row);
    assert(row / 16 == patch_y && row % 16 == y);
    assert(column / 16 == patch_x && column % 16 == x);
}

/// The bytes of an image of 512 by 512 pixels, cut in patches of 16 by 16.
pub fn patch_bytes(raw: &Vec<u8>) -> (r: Vec<u8>)
    requires
        raw@.len() == IMAGE_BYTES,
    ensures
        r@.len() == IMAGE_BYTES,
        forall|k: int| 0 <= k < r@.len() ==> #[trigger] r@[k] == raw@[patch_offset(k)],
{
    let mut out: Vec<u8> = Vec::new();
    let mut k: usize = 0;
    while k < IMAGE_BYTES
        invariant
            raw@.len() == IMAGE_BYTES,
            k <= IMAGE_BYTES,
            out@.len() == k,
            forall|i: int| 0 <= i < k ==> #[trigger] out@[i] == raw@[patch_offset(i)],
        decreases IMAGE_BYTES - k,
    {
        proof {
            law_patches_rearrange(k as int, 0);
        }
        let channel: usize = k % 3;
        let x: usize = (k / 3) % 16;
        let y: usize = (k / 48) % 16;
        let patch_x: usize = (k / 768) % 32;
        let patch_y: usize = k / 24576;
        let offset: usize = ((patch_y * 16 + y) * IMAGE_SIDE + patch_x * 16 + x) * 3 + channel;
        out.push(raw[offset]);
        k = k + 1;
    }
    out
}

/// The pixels of a picture, or the message on a file that is none, as a model.
pub type PictureView = Result<Seq<u8>, Seq<char>>;

/// The result of reading a picture, as a model.
pub open spec fn picture_view(r: Result<Vec<u8>, String>) -> PictureView {
    match r {
        Ok(raw) => Ok(raw@),
        Err(m) => Err(m@),
    }
}

/// How the pixels of a picture are weighed when its size changes.
#[derive(Clone, Copy, Debug, PartialEq, Eq, Structural)]
pub enum Filter {
    Nearest,
    Triangle,
    CatmullRom,
    Gaussian,
    Lanczos3,
}

/// Whether the file at this path can be read as a picture like this, at this size. The last bits of
/// a pixel can depend on the instructions that the machine has.
pub uninterp spec fn may_show(
    path: Seq<char>,
    file: Seq<u8>,
    width: u32,
    height: u32,
    filter: Filter,
    r: Result<Seq<u8>, Seq<char>>,
) -> bool;

/// `image::load_from_memory_with_format` on the bytes of a file, in the format that
/// `image::ImageFormat::from_path` gives for its path, then `image::DynamicImage::resize_exact` to
/// the size and `image::DynamicImage::to_rgb8`.
///
/// Claimed: the outcome is one that the path, the bytes of the file, the size and the filter allow,
/// and a picture has three bytes for each of its pixels. Which of them comes is left unsaid, for
/// decoders differ with the machine.
#[verifier::external_body]
pub(crate) fn decode_picture(
    path: &str,
    file: &Vec<u8>,
    width: u32,
    height: u32,
    filter: Filter,
) -> (r: Result<Vec<u8>, String>)
    requires
        0 < width <= 0xffff,
        0 < height <= 0xffff,
    ensures
        may_show(path@, file@, width, height, filter, picture_view(r)),
        r matches Ok(raw) ==> raw@.len() == width * height * 3,
{
    let filter = match filter {
        Filter::Nearest => image::imageops::FilterType::Nearest,
        Filter::Triangle => image::imageops::FilterType::Triangle,
        Filter::CatmullRom => image::imageops::FilterType::CatmullRom,
        Filter::Gaussian => image::imageops::FilterType::Gaussian,
        Filter::Lanczos3 => image::imageops::FilterType::Lanczos3,
    };
    let format = image::ImageFormat::from_path(path).map_err(|e| e.to_string())?;
    let picture = image::load_from_memory_with_format(file, format).map_err(|e| e.to_string())?;
    Ok(picture.resize_exact(width, height, filter).to_rgb8().into_raw())
}

/// The message on a picture that cannot be read.
pub open spec fn picture_failure(path: Seq<char>, reason: Seq<char>) -> ErrorView {
    ErrorView::Host("failed to read image "@ + path + ": "@ + reason)
}

/// The error on a picture that cannot be read.
pub fn picture_error(path: &str, reason: &str) -> (r: VmError)
    ensures
        r@ == picture_failure(path@, reason@),
{
    let mut message: String = text::join3("failed to read image ", path, ": ");
    message.append(reason);
    host_error(message.as_str())
}

/// Whether `r` holds the patches of this picture, or the message on it.
pub open spec fn cut_in_patches(
    path: Seq<char>,
    picture: PictureView,
    r: VmResult<Vec<u8>>,
) -> bool {
    match picture {
        Err(m) => r matches Err(e) && e@ == picture_failure(path, m),
        Ok(raw) => {
            &&& r matches Ok(patches)
            &&& patches@ == Seq::new(IMAGE_BYTES as nat, |k: int| raw[patch_offset(k)])
        },
    }
}

/// The patches of a picture that was read, or the error on one that could not be.
pub fn picture_patches(path: &str, picture: Result<Vec<u8>, String>) -> (r: VmResult<Vec<u8>>)
    requires
        picture matches Ok(raw) ==> raw@.len() == IMAGE_BYTES,
    ensures
        cut_in_patches(path@, picture_view(picture), r),
{
    match picture {
        Err(m) => Err(picture_error(path, m.as_str())),
        Ok(raw) => {
            let patches: Vec<u8> = patch_bytes(&raw);
            assert(patches@ =~= Seq::new(IMAGE_BYTES as nat, |k: int| raw@[patch_offset(k)]));
            Ok(patches)
        },
    }
}

/// The patches of the picture in a file: its pixels at 512 by 512, cut in patches of 16 by 16.
pub fn image_lfm2_vl_patches(path: &str, file: &Vec<u8>) -> (r: VmResult<Vec<u8>>)
    ensures
        exists|picture: PictureView| #[trigger]
            may_show(
                path@,
                file@,
                IMAGE_SIDE as u32,
                IMAGE_SIDE as u32,
                Filter::Triangle,
                picture,
            ) && cut_in_patches(path@, picture, r),
        r matches Ok(patches) ==> patches@.len() == IMAGE_BYTES,
{
    let picture: Result<Vec<u8>, String> = decode_picture(
        path,
        file,
        IMAGE_SIDE as u32,
        IMAGE_SIDE as u32,
        Filter::Triangle,
    );
    let ghost shown = picture_view(picture);
    let r: VmResult<Vec<u8>> = picture_patches(path, picture);
    assert(cut_in_patches(path@, shown, r));
    r
}

/// The root of a number that is a square.
pub open spec fn square_root(n: int) -> Option<int> {
    if exists|s: int| 0 <= s && #[trigger] (s * s) == n {
        Some(choose|s: int| 0 <= s && #[trigger] (s * s) == n)
    } else {
        None
    }
}

proof fn lemma_square_monotone(a: int, b: int)
    requires
        0 <= a < b,
    ensures
        a * a < b * b,
{
    assert(a * a < b * b) by (nonlinear_arith)
        requires
            0 <= a < b,
    ;
}

/// The root of a number that is a square.
pub fn exact_root(n: i64) -> (r: Option<i64>)
    ensures
        match r {
            Some(s) => square_root(n as int) == Some(s as int) && s >= 0 && s * s == n,
            None => square_root(n as int) is None,
        },
{
    if n < 0 {
        proof {
            assert forall|s: int| 0 <= s implies #[trigger] (s * s) != n by {
                assert(s * s >= 0) by (nonlinear_arith)
                    requires
                        0 <= s,
                ;
            }
        }
        return None;
    }
    let mut low: i128 = 0;
    let mut high: i128 = 3037000500;
    assert(3037000500int * 3037000500int > i64::MAX);
    assert(0int * 0int <= n);
    while high - low > 1
        invariant
            0 <= low < high <= 3037000500,
            0 <= n,
            low * low <= n < high * high,
        decreases high - low,
    {
        let middle: i128 = (low + high) / 2;
        assert(0 <= middle * middle <= 3037000500int * 3037000500int) by (nonlinear_arith)
            requires
                0 <= middle <= 3037000500,
        ;
        if middle * middle <= n as i128 {
            low = middle;
        } else {
            high = middle;
        }
    }
    assert(0 <= low * low <= 3037000500int * 3037000500int) by (nonlinear_arith)
        requires
            0 <= low <= 3037000500,
    ;
    proof {
        assert(high == low + 1);
        assert forall|s: int| 0 <= s && #[trigger] (s * s) == n implies s == low by {
            if s < low {
                lemma_square_monotone(s, low as int);
            }
            if s > low {
                if s > high {
                    lemma_square_monotone(high as int, s);
                }
                assert(s * s >= high * high);
            }
        }
    }
    if low * low == n as i128 {
        assert(exists|s: int| 0 <= s && #[trigger] (s * s) == n) by {
            assert(low as int * low as int == n);
        }
        Some(low as i64)
    } else {
        None
    }
}

/// How a table of position embeddings is brought to another size: `source` by `source` positions
/// of `dim` numbers become `height` by `width`, and the first of them fills up to `max_len`.
#[derive(Clone, Copy, Debug, PartialEq, Eq, Structural)]
pub struct PositionPlan {
    pub weight: i64,
    pub source: i64,
    pub dim: i64,
    pub height: i64,
    pub width: i64,
    pub area: i64,
    pub filled: i64,
    pub max_len: i64,
}

/// How a table of these sizes is brought to another size.
pub open spec fn position_plan(
    weight: i64,
    size: Seq<i64>,
    height: i64,
    width: i64,
    max_len: i64,
) -> Result<PositionPlan, ErrorView> {
    if size.len() != 2 {
        Err(ErrorView::Host("position embedding weight must be [tokens, dim]"@))
    } else {
        match square_root(size[0] as int) {
            None => Err(ErrorView::Host("position embedding token count must be square"@)),
            Some(source) => if height <= 0 || width <= 0 || max_len < height * width {
                Err(ErrorView::Host("invalid position embedding target shape"@))
            } else {
                Ok(
                    PositionPlan {
                        weight,
                        source: source as i64,
                        dim: size[1],
                        height,
                        width,
                        area: (height * width) as i64,
                        filled: (max_len - height * width) as i64,
                        max_len,
                    },
                )
            },
        }
    }
}

/// What bringing position embeddings to another size comes to.
pub open spec fn position_outcome<T>(c: ContextView<T>, args: Seq<Value>) -> Result<
    PositionPlan,
    ErrorView,
> {
    let op = c.active_host_op;
    match shapes::sizes_at(c, args, 0, "weight"@) {
        Err(e) => Err(e),
        Ok((weight, size)) => match args::int_at(op, args, 1, "height"@) {
            Err(e) => Err(e),
            Ok(height) => match args::int_at(op, args, 2, "width"@) {
                Err(e) => Err(e),
                Ok(width) => match args::int_at(op, args, 3, "max_len"@) {
                    Err(e) => Err(e),
                    Ok(max_len) => position_plan(weight, size, height, width, max_len),
                },
            },
        },
    }
}

/// Plans how a table of these sizes is brought to another size.
pub fn plan_positions(weight: i64, size: &Vec<i64>, height: i64, width: i64, max_len: i64) -> (r:
    VmResult<PositionPlan>)
    ensures
        match r {
            Ok(p) => {
                &&& position_plan(weight, size@, height, width, max_len) == Ok::<
                    PositionPlan,
                    ErrorView,
                >(p)
                &&& p.source * p.source == size@[0]
                &&& p.area == p.height * p.width
                &&& p.filled >= 0
                &&& p.area + p.filled == max_len
            },
            Err(e) => position_plan(weight, size@, height, width, max_len) == Err::<
                PositionPlan,
                ErrorView,
            >(e@),
        },
{
    if size.len() != 2 {
        return Err(host_error("position embedding weight must be [tokens, dim]"));
    }
    let source: i64 = match exact_root(size[0]) {
        None => {
            return Err(host_error("position embedding token count must be square"));
        },
        Some(source) => source,
    };
    if height <= 0 || width <= 0 {
        return Err(host_error("invalid position embedding target shape"));
    }
    assert(0 < height * width <= 0x7FFF_FFFF_FFFF_FFFF * 0x7FFF_FFFF_FFFF_FFFF)
        by (nonlinear_arith)
        requires
            0 < height <= 0x7FFF_FFFF_FFFF_FFFF,
            0 < width <= 0x7FFF_FFFF_FFFF_FFFF,
    ;
    let area: i128 = height as i128 * width as i128;
    if (max_len as i128) < area {
        return Err(host_error("invalid position embedding target shape"));
    }
    Ok(
        PositionPlan {
            weight,
            source,
            dim: size[1],
            height,
            width,
            area: area as i64,
            filled: (max_len as i128 - area) as i64,
            max_len,
        },
    )
}

/// Plans how position embeddings are brought to the size of an image.
pub fn vl_siglip2_position_embedding<T>(context: &TorchContext<T>, args: &[Value]) -> (r: VmResult<
    PositionPlan,
>)
    ensures
        match r {
            Ok(p) => position_outcome(context@, args@) == Ok::<PositionPlan, ErrorView>(p),
            Err(e) => position_outcome(context@, args@) == Err::<PositionPlan, ErrorView>(e@),
        },
{
    let op: &Option<String> = &context.active_host_op;
    let (weight, tensor) = match sized_arg(context, args, 0, "weight") {
        Err(e) => {
            return Err(e);
        },
        Ok(pair) => pair,
    };
    let height: i64 = match args::int_arg(op, args, 1, "height") {
        Err(e) => {
            return Err(e);
        },
        Ok(n) => n,
    };
    let width: i64 = match args::int_arg(op, args, 2, "width") {
        Err(e) => {
            return Err(e);
        },
        Ok(n) => n,
    };
    let max_len: i64 = match args::int_arg(op, args, 3, "max_len") {
        Err(e) => {
            return Err(e);
        },
        Ok(n) => n,
    };
    plan_positions(weight, &tensor.size, height, width, max_len)
}

/// How pixels are folded two by two: the two shapes that the tensor takes in turn.
#[derive(Debug)]
pub struct UnshufflePlan {
    pub tensor: i64,
    pub columns: Vec<i64>,
    pub rows: Vec<i64>,
}

/// The model of an [`UnshufflePlan`].
pub type UnshuffleView = (i64, Seq<i64>, Seq<i64>);

/// The two shapes that a tensor of these sizes takes in turn.
pub open spec fn unshuffle_plan(tensor: i64, size: Seq<i64>) -> Result<UnshuffleView, ErrorView> {
    if size.len() != 4 || size[1] % 2 != 0 || size[2] % 2 != 0 {
        Err(ErrorView::Host("pixel_unshuffle2 expects [N,H,W,C] with even H/W"@))
    } else if size[3] * 4 < i64::MIN || size[3] * 4 > i64::MAX {
        Err(ErrorView::Host("pixel_unshuffle2 channel count is out of range"@))
    } else {
        let n = size[0];
        let h = size[1];
        let half = (size[2] / 2) as i64;
        let c = size[3];
        Ok(
            (
                tensor,
                seq![n, h, half, (c * 2) as i64],
                seq![n, half, (h / 2) as i64, (c * 4) as i64],
            ),
        )
    }
}

fn half_if_even(n: i64) -> (r: Option<i64>)
    ensures
        match r {
            Some(h) => n % 2 == 0 && h == n / 2,
            None => n % 2 != 0,
        },
{
    if n >= 0 {
        if n % 2 == 0 {
            Some(n / 2)
        } else {
            None
        }
    } else if n == i64::MIN {
        Some(-4611686018427387904)
    } else {
        let m: i64 = -n;
        if m % 2 == 0 {
            Some(-(m / 2))
        } else {
            None
        }
    }
}

/// Plans how pixels are folded two by two.
pub fn vl_pixel_unshuffle2<T>(context: &TorchContext<T>, args: &[Value]) -> (r: VmResult<
    UnshufflePlan,
>)
    ensures
        match shapes::sizes_at(context@, args@, 0, "tensor"@) {
            Err(e) => r is Err && r->Err_0@ == e,
            Ok((tensor, size)) => match unshuffle_plan(tensor, size) {
                Err(e) => r is Err && r->Err_0@ == e,
                Ok(v) => r is Ok && (r->Ok_0.tensor, r->Ok_0.columns@, r->Ok_0.rows@) == v,
            },
        },
{
    let (handle, tensor) = match sized_arg(context, args, 0, "tensor") {
        Err(e) => {
            return Err(e);
        },
        Ok(pair) => pair,
    };
    let size: &Vec<i64> = &tensor.size;
    if size.len() != 4 {
        return Err(host_error("pixel_unshuffle2 expects [N,H,W,C] with even H/W"));
    }
    let half_h: i64 = match half_if_even(size[1]) {
        None => {
            return Err(host_error("pixel_unshuffle2 expects [N,H,W,C] with even H/W"));
        },
        Some(h) => h,
    };
    let half_w: i64 = match half_if_even(size[2]) {
        None => {
            return Err(host_error("pixel_unshuffle2 expects [N,H,W,C] with even H/W"));
        },
        Some(w) => w,
    };
    let four: i128 = size[3] as i128 * 4;
    if four < i64::MIN as i128 || four > i64::MAX as i128 {
        return Err(host_error("pixel_unshuffle2 channel count is out of range"));
    }
    let mut columns: Vec<i64> = Vec::new();
    columns.push(size[0]);
    columns.push(size[1]);
    columns.push(half_w);
    columns.push(size[3] * 2);
    let mut rows: Vec<i64> = Vec::new();
    rows.push(size[0]);
    rows.push(half_w);
    rows.push(half_h);
    rows.push(four as i64);
    proof {
        let v = unshuffle_plan(handle, size@)->Ok_0;
        assert(columns@ =~= v.1);
        assert(rows@ =~= v.2);
    }
    Ok(UnshufflePlan { tensor: handle, columns, rows })
}

/// Folding pixels keeps their number: both shapes hold as many as the tensor.
pub proof fn law_unshuffle_keeps_count(tensor: i64, size: Seq<i64>)
    requires
        unshuffle_plan(tensor, size) is Ok,
    ensures
        ({
            let (_, columns, rows) = unshuffle_plan(tensor, size)->Ok_0;
            let count = size[0] * size[1] * size[2] * size[3];
            &&& columns[0] * columns[1] * columns[2] * columns[3] == count
            &&& rows[0] * rows[1] * rows[2] * rows[3] == count
        }),
{
    let n = size[0] as int;
    let h = size[1] as int;
    let w = size[2] as int;
    let c = size[3] as int;
    let a = h / 2;
    let b = w / 2;
    assert(n * h * b * (c * 2) == n * h * (b * 2) * c) by (nonlinear_arith);
    assert(n * b * a * (c * 4) == n * (a * 2) * (b * 2) * c) by (nonlinear_arith);
    assert(b * 2 == w && a * 2 == h);
}

/// A picture is cut into squares of sixteen by sixteen pixels, row by row of squares; each square
/// holds its own pixels, row by row, with their three colours.
pub proof fn law_patch_pixels(patch_y: int, patch_x: int, y: int, x: int, channel: int)
    requires
        0 <= patch_y < 32,
        0 <= patch_x < 32,
        0 <= y < 16,
        0 <= x < 16,
        0 <= channel < 3,
    ensures
        patch_offset((patch_y * 32 + patch_x) * 768 + (y * 16 + x) * 3 + channel) == ((patch_y * 16
            + y) * 512 + (patch_x * 16 + x)) * 3 + channel,
{
    lemma_offset_of(channel, x, y, patch_x, patch_y);
}

/// What a script gets of a picture that was read are its bytes in the order of the squares; of one
/// that was not, the reason.
pub proof fn law_picture_is_cut(
    path: Seq<char>,
    picture: PictureView,
    r: VmResult<Vec<u8>>,
    patch_y: int,
    patch_x: int,
    y: int,
    x: int,
    channel: int,
)
    requires
        cut_in_patches(path, picture, r),
        0 <= patch_y < 32,
        0 <= patch_x < 32,
        0 <= y < 16,
        0 <= x < 16,
        0 <= channel < 3,
    ensures
        r is Ok <==> picture is Ok,
        r is Ok ==> r->Ok_0@.len() == 512 * 512 * 3 && r->Ok_0@[(patch_y * 32 + patch_x) * 768 + (y
            * 16 + x) * 3 + channel] == picture->Ok_0[((patch_y * 16 + y) * 512 + (patch_x * 16
            + x)) * 3 + channel],
        picture is Err ==> r->Err_0@ == ErrorView::Host(
            "failed to read image "@ + path + ": "@ + picture->Err_0,
        ),
{
    law_patch_pixels(patch_y, patch_x, y, x, channel);
}

/// A number has a root where it is a square, and that root.
pub proof fn law_square_root(s: int, n: int)
    requires
        0 <= s,
    ensures
        square_root(s * s) == Some(s),
        square_root(n) matches Some(root) ==> root >= 0 && root * root == n,
{
    assert(s * s == s * s);
    assert(exists|t: int| 0 <= t && #[trigger] (t * t) == s * s);
    let t = choose|t: int| 0 <= t && #[trigger] (t * t) == s * s;
    if t < s {
        lemma_square_monotone(t, s);
    } else if s < t {
        lemma_square_monotone(s, t);
    }
}

/// The positions of a picture are planned for its own height and width, from a square of known
/// ones, and filled up to the length asked for.
pub proof fn law_positions_are_planned(
    weight: i64,
    side: i64,
    dim: i64,
    height: i64,
    width: i64,
    max_len: i64,
    tokens: i64,
)
    requires
        0 <= side,
        tokens == side * side,
    ensures
        ({
            let plan = position_plan(weight, seq![tokens, dim], height, width, max_len);
            &&& plan is Ok <==> height > 0 && width > 0 && height * width <= max_len
            &&& plan matches Ok(p) ==> {
                &&& p.weight == weight
                &&& p.source == side
                &&& p.dim == dim
                &&& p.height == height
                &&& p.width == width
                &&& p.max_len == max_len
                &&& p.area == height * width
                &&& p.filled == max_len - height * width
            }
        }),
{
    law_square_root(side as int, tokens as int);
    if height > 0 && width > 0 {
        assert(0 < height * width) by (nonlinear_arith)
            requires
                height > 0,
                width > 0,
        ;
    }
}

/// Unshuffling gathers two by two pixels: the height and the width become half, in turned places,
/// and the channels four times as many.
pub proof fn law_unshuffle_sizes(tensor: i64, n: i64, h: i64, w: i64, c: i64)
    requires
        0 <= c <= i64::MAX / 4,
    ensures
        ({
            let plan = unshuffle_plan(tensor, seq![n, h, w, c]);
            &&& plan is Ok <==> h % 2 == 0 && w % 2 == 0
            &&& plan matches Ok((t, columns, rows)) ==> {
                &&& t == tensor
                &&& columns.len() == 4
                &&& columns[0] == n && columns[1] == h && columns[2] + columns[2] == w
                    && columns[3] == c + c
                &&& rows.len() == 4
                &&& rows[0] == n && rows[1] + rows[1] == w && rows[2] + rows[2] == h && rows[3]
                    == c + c + c + c
            }
        }),
{
}

/// Positions are planned with the weight and the numbers that a script gives, each as what it was
/// given for.
pub proof fn law_position_request<T>(
    c: ContextView<T>,
    args: Seq<Value>,
    weight: i64,
    height: i64,
    width: i64,
    max_len: i64,
)
    requires
        c.wf(),
        args.len() >= 4,
        args[0] == Value::Int(weight),
        c.tensors.contains_key(weight),
        args[1] == Value::Int(height),
        args[2] == Value::Int(width),
        args[3] == Value::Int(max_len),
    ensures
        position_outcome(c, args) == position_plan(
            weight,
            c.tensors[weight].size@,
            height,
            width,
            max_len,
        ),
{
}

} // verus!
