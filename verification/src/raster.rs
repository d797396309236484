//! Rasters of 8-bit RGB samples and the assembly of the square thumbnail:
//! decode, resize, centre on a black canvas, encode.

use vstd::prelude::*;
use crate::error::{SaveError, SaveErrorView};
use crate::thumbnail::{lemma_round_div_nearest, lemma_scaled_short_bounds, place, Placement};

verus! {

/// Number of samples of the canvas: 512 rows of 512 pixels of 3 samples.
pub const CANVAS_SAMPLES: usize = 786432;

/// An image in memory: rows from top to bottom, pixels from left to right,
/// three samples (red, green, blue) to the pixel.
#[derive(Debug, PartialEq, Eq)]
pub struct Raster {
    pub width: u32,
    pub height: u32,
    pub pixels: Vec<u8>,
}

/// A raster as a value.
pub struct RasterView {
    pub width: u32,
    pub height: u32,
    pub pixels: Seq<u8>,
}

impl View for Raster {
    type V = RasterView;

    open spec fn view(&self) -> RasterView {
        RasterView { width: self.width, height: self.height, pixels: self.pixels@ }
    }
}

impl RasterView {
    /// The samples are exactly those of `width` x `height` pixels.
    pub open spec fn wf(self) -> bool {
        self.pixels.len() == 3 * self.width * self.height
    }

    /// Sample `c` of the pixel in column `x` of row `y`.
    pub open spec fn sample(self, x: int, y: int, c: int) -> u8 {
        self.pixels[3 * (y * self.width + x) + c]
    }

    /// The raster without what its buffer holds beyond its pixels.
    pub open spec fn trimmed(self) -> RasterView {
        RasterView {
            width: self.width,
            height: self.height,
            pixels: self.pixels.take(3 * self.width * self.height),
        }
    }
}

/// Sample `c` of the canvas pixel in column `x` of row `y`, when `img` lies
/// on a black canvas at the offsets of `p`.
pub open spec fn canvas_sample(img: RasterView, p: Placement, x: int, y: int, c: int) -> u8 {
    if p.offset_x <= x < p.offset_x + img.width && p.offset_y <= y < p.offset_y + img.height {
        img.sample(x - p.offset_x, y - p.offset_y, c)
    } else {
        0
    }
}

/// The 512 x 512 canvas: black, with `img` pasted at the offsets of `p`.
pub open spec fn letterboxed(img: RasterView, p: Placement) -> RasterView {
    RasterView {
        width: 512,
        height: 512,
        pixels: Seq::new(
            786432,
            |k: int| canvas_sample(img, p, (k / 3) % 512, k / 1536, k % 3),
        ),
    }
}

/// Pastes `img` on a black 512 x 512 canvas at the offsets of `p`.
pub fn letterbox(img: &Raster, p: Placement) -> (canvas: Raster)
    requires
        img@.wf(),
        img.width == p.width,
        img.height == p.height,
        p.fits(),
    ensures
        canvas@ == letterboxed(img@, p),
        canvas@.wf(),
{
    let w: usize = img.width as usize;
    let h: usize = img.height as usize;
    let ox: usize = p.offset_x as usize;
    let oy: usize = p.offset_y as usize;
    assert(img.pixels@.len() == img.pixels.len());
    let mut out: Vec<u8> = Vec::with_capacity(CANVAS_SAMPLES);
    let mut k: usize = 0;
    while k < CANVAS_SAMPLES
        invariant
            k <= CANVAS_SAMPLES,
            out@.len() == k,
            img@.wf(),
            img.pixels@.len() <= usize::MAX,
            w == img.width,
            h == img.height,
            ox == p.offset_x,
            oy == p.offset_y,
            ox + w <= 512,
            oy + h <= 512,
            forall|j: int| 0 <= j < k ==> out@[j] == letterboxed(img@, p).pixels[j],
        decreases CANVAS_SAMPLES - k,
    {
        let y: usize = k / 1536;
        let x: usize = (k / 3) % 512;
        let c: usize = k % 3;
        let v: u8 = if x >= ox && x < ox + w && y >= oy && y < oy + h {
            let row: usize = y - oy;
            let col: usize = x - ox;
            assert(row * w + col < h * w) by (nonlinear_arith)
                requires
                    0 <= row < h,
                    0 <= col < w,
            ;
            assert(3 * img.width * img.height == 3 * (h * w)) by (nonlinear_arith)
                requires
                    w == img.width,
                    h == img.height,
            ;
            assert(row * w <= row * w + col);
            img.pixels[3 * (row * w + col) + c]
        } else {
            0
        };
        out.push(v);
        k += 1;
    }
    let canvas = Raster { width: 512, height: 512, pixels: out };
    assert(canvas@.pixels =~= letterboxed(img@, p).pixels);
    canvas
}

/// The baseline JPEG encoding of `img`, or the encoder's message where it
/// rejects the image.
pub uninterp spec fn jpeg_encoded(img: RasterView) -> Result<Seq<u8>, Seq<char>>;

/// The view of encoded bytes or of the encoder's message.
pub open spec fn encode_view(r: Result<Vec<u8>, String>) -> Result<Seq<u8>, Seq<char>> {
    match r {
        Ok(bytes) => Ok(bytes@),
        Err(detail) => Err(detail@),
    }
}

/// A decoded image of the `image` crate. Nothing of it is known here.
#[verifier::external_type_specification]
#[verifier::external_body]
pub struct ExDynamicImage(image::DynamicImage);

/// Decodes `bytes` with `image::load_from_memory`, which guesses the format
/// from the bytes, and hands back the image or the decoder's message.
/// Nothing is promised of either: some decoders pick their arithmetic by
/// the machine they run on, so the same bytes need not give the same
/// samples everywhere.
#[verifier::external_body]
fn load_image(bytes: &[u8]) -> (r: Result<image::DynamicImage, String>) {
    match image::load_from_memory(bytes) {
        Ok(img) => Ok(img),
        Err(e) => Err(e.to_string()),
    }
}

/// Takes a decoded image as 8-bit RGB with `DynamicImage::into_rgb8`. The
/// buffer that comes back holds at least the samples of all its pixels.
#[verifier::external_body]
fn into_rgb(img: image::DynamicImage) -> (raster: Raster)
    ensures
        3 * raster.width * raster.height <= raster.pixels@.len(),
{
    let rgb = img.into_rgb8();
    Raster { width: rgb.width(), height: rgb.height(), pixels: rgb.into_raw() }
}

/// Resizes `src` to `width` x `height` with `image::imageops::resize` and
/// the Catmull-Rom filter. The result has exactly the size asked for, and
/// exactly the samples of its pixels; which samples they are is left open,
/// since the filter works in floating point. The result and the
/// intermediate image of `src.width` x `height` pixels of four samples
/// must each fit a vector: the outside function panics otherwise. It is
/// only ever handed a source that has pixels.
#[verifier::external_body]
fn resize_smooth(src: Raster, width: u32, height: u32) -> (out: Raster)
    requires
        src@.wf(),
        src.width > 0,
        src.height > 0,
        3 * width * height <= usize::MAX,
        4 * src.width * height <= usize::MAX,
    ensures
        out.width == width,
        out.height == height,
        out@.wf(),
{
    let img = image::RgbImage::from_raw(src.width, src.height, src.pixels).unwrap();
    let filter = image::imageops::FilterType::CatmullRom;
    let out = image::imageops::resize(&img, width, height, filter);
    Raster { width: out.width(), height: out.height(), pixels: out.into_raw() }
}

/// Encodes `img` as a baseline JPEG at the encoder's default quality, with
/// `image::codecs::jpeg::JpegEncoder::encode` writing into a vector. The
/// outside function panics where the buffer's length is not that of the
/// image's pixels.
#[verifier::external_body]
fn encode_jpeg(img: &Raster) -> (r: Result<Vec<u8>, String>)
    requires
        img@.wf(),
    ensures
        encode_view(r) == jpeg_encoded(img@),
{
    let mut out = Vec::new();
    let mut encoder = image::codecs::jpeg::JpegEncoder::new(&mut out);
    let done = encoder.encode(&img.pixels, img.width, img.height, image::ColorType::Rgb8);
    drop(encoder);
    match done {
        Ok(()) => Ok(out),
        Err(e) => Err(e.to_string()),
    }
}

/// The message for an image without pixels.
pub open spec fn no_pixels() -> Seq<char> {
    "image has no pixels"@
}

/// The encoding of `img`, or the failure to encode it.
pub open spec fn encoded(img: RasterView) -> Result<Seq<u8>, SaveErrorView> {
    match jpeg_encoded(img) {
        Ok(bytes) => Ok(bytes),
        Err(detail) => Err(SaveErrorView::Encode { detail }),
    }
}

/// The thumbnail made of the resized image `resized`, placed as `p` says:
/// the canvas with the image on it, encoded.
pub open spec fn framed(resized: RasterView, p: Placement) -> Result<Seq<u8>, SaveErrorView> {
    encoded(letterboxed(resized, p))
}

/// `out` is a thumbnail of the decoded image `img`. An image without
/// pixels has none. Otherwise `out` is what framing gives for some image of
/// the size that `img` is resized to; the samples of that image are the
/// resize filter's and are left open.
pub open spec fn is_thumbnail_of(img: RasterView, out: Result<Seq<u8>, SaveErrorView>) -> bool {
    if img.width == 0 || img.height == 0 {
        out == Err::<Seq<u8>, SaveErrorView>(SaveErrorView::Decode { detail: no_pixels() })
    } else {
        let p = Placement::of(img.width as int, img.height as int);
        exists|resized: RasterView|
            resized.wf() && resized.width == p.width && resized.height == p.height && out
                == #[trigger] framed(resized, p)
    }
}

/// `out` is what making a thumbnail of some bytes can give: the failure to
/// decode them, or a thumbnail of the image they decode to.
pub open spec fn is_thumbnail_outcome(out: Result<Seq<u8>, SaveErrorView>) -> bool {
    ||| out matches Err(SaveErrorView::Decode { .. })
    ||| exists|img: RasterView| img.wf() && #[trigger] is_thumbnail_of(img, out)
}

/// The view of a thumbnail or of the reason why there is none.
pub open spec fn thumbnail_view(r: Result<Vec<u8>, SaveError>) -> Result<
    Seq<u8>,
    SaveErrorView,
> {
    match r {
        Ok(bytes) => Ok(bytes@),
        Err(e) => Err(e@),
    }
}

/// Every thumbnail is the encoding of a well-formed 512 x 512 canvas, and
/// making one fails only in decoding or in encoding.
pub proof fn lemma_thumbnail_is_square(out: Result<Seq<u8>, SaveErrorView>)
    requires
        is_thumbnail_outcome(out),
    ensures
        out matches Ok(bytes) ==> exists|canvas: RasterView|
            canvas.wf() && canvas.width == 512 && canvas.height == 512 && #[trigger] jpeg_encoded(
                canvas,
            ) == Ok::<Seq<u8>, Seq<char>>(bytes),
        out matches Err(e) ==> e is Decode || e is Encode,
{
    if !(out matches Err(SaveErrorView::Decode { .. })) {
        let img = choose|img: RasterView| img.wf() && #[trigger] is_thumbnail_of(img, out);
        let p = Placement::of(img.width as int, img.height as int);
        let resized = choose|resized: RasterView|
            resized.wf() && resized.width == p.width && resized.height == p.height && out
                == #[trigger] framed(resized, p);
        let canvas = letterboxed(resized, p);
        assert(canvas.wf());
        if out is Ok {
            assert(jpeg_encoded(canvas) == Ok::<Seq<u8>, Seq<char>>(out->Ok_0));
        }
    }
}

/// The intermediate image of a resize fits a vector whenever the source
/// itself does.
proof fn lemma_intermediate_fits(width: u32, height: u32)
    requires
        width > 0,
        height > 0,
        3 * width * height <= usize::MAX,
    ensures
        4 * width * Placement::of(width as int, height as int).height <= usize::MAX,
{
    let w = width as int;
    let h = height as int;
    let nh = Placement::of(w, h).height as int;
    assert(usize::MAX >= 0xffff_ffff);
    if w > h {
        lemma_scaled_short_bounds(h, w);
        lemma_round_div_nearest(512 * h, w);
        assert(4 * (w * nh) <= 2048 * h + 2 * w) by (nonlinear_arith)
            requires
                -w <= 2 * (512 * h - nh * w),
        ;
        if w >= 0x10_0000 {
            assert(2048 * h + 2 * w <= 3 * (w * h)) by (nonlinear_arith)
                requires
                    w >= 0x10_0000,
                    h >= 1,
            ;
        }
    } else {
        assert(nh == 512);
        if w >= 0x10_0000 {
            assert(2048 * w <= 3 * (w * h)) by (nonlinear_arith)
                requires
                    w >= 0x10_0000,
                    h >= w,
            ;
        }
    }
    assert(4 * width * nh == 4 * (w * nh)) by (nonlinear_arith)
        requires
            w == width,
    ;
    assert(3 * width * height == 3 * (w * h)) by (nonlinear_arith)
        requires
            w == width,
            h == height,
    ;
}

/// Cuts the buffer of `raw` down to the samples of its pixels.
pub fn trim_raster(raw: Raster) -> (img: Raster)
    requires
        3 * raw.width * raw.height <= raw.pixels@.len(),
    ensures
        img@ == raw@.trimmed(),
        img@.wf(),
{
    let Raster { width, height, pixels } = raw;
    let mut pixels = pixels;
    assert(pixels@.len() == pixels.len());
    assert((width as u64) * (height as u64) <= 0xffff_ffff * 0xffff_ffff) by (nonlinear_arith);
    let area: u64 = (width as u64) * (height as u64);
    assert(3 * width * height == 3 * area) by (nonlinear_arith)
        requires
            area == width * height,
    ;
    let needed: usize = (3 * area) as usize;
    pixels.truncate(needed);
    Raster { width, height, pixels }
}

/// Decodes an image and keeps it as 8-bit RGB, with exactly the samples of
/// its pixels. Whether the bytes decode, and to which samples, is the
/// decoder's to say; a failure is always a `Decode` failure.
pub fn decode_image(bytes: &[u8]) -> (r: Result<Raster, SaveError>)
    ensures
        r matches Ok(img) ==> img@.wf(),
        r matches Err(e) ==> e is Decode,
{
    match load_image(bytes) {
        Err(detail) => Err(SaveError::Decode { detail }),
        Ok(img) => Ok(trim_raster(into_rgb(img))),
    }
}

/// Encodes an image as a baseline JPEG.
pub fn encode_raster(img: &Raster) -> (r: Result<Vec<u8>, SaveError>)
    requires
        img@.wf(),
    ensures
        thumbnail_view(r) == encoded(img@),
{
    match encode_jpeg(img) {
        Ok(bytes) => Ok(bytes),
        Err(detail) => Err(SaveError::Encode { detail }),
    }
}

/// Places a resized image on the black canvas as `p` says and encodes the
/// canvas.
pub fn frame_thumbnail(resized: &Raster, p: Placement) -> (r: Result<Vec<u8>, SaveError>)
    requires
        resized@.wf(),
        resized.width == p.width,
        resized.height == p.height,
        p.fits(),
    ensures
        thumbnail_view(r) == framed(resized@, p),
{
    let canvas = letterbox(resized, p);
    encode_raster(&canvas)
}

/// Makes the thumbnail of a decoded image: resized so that its longer axis
/// is 512, centred on a black 512 x 512 canvas, and encoded. An image
/// without pixels, and only such an image, is refused as undecodable.
pub fn thumbnail_from_raster(img: Raster) -> (r: Result<Vec<u8>, SaveError>)
    requires
        img@.wf(),
    ensures
        is_thumbnail_of(img@, thumbnail_view(r)),
        (img.width == 0 || img.height == 0) <==> thumbnail_view(r) == Err::<
            Seq<u8>,
            SaveErrorView,
        >(SaveErrorView::Decode { detail: no_pixels() }),
{
    if img.width == 0 || img.height == 0 {
        return Err(SaveError::Decode { detail: "image has no pixels".to_string() });
    }
    let p = place(img.width, img.height);
    proof {
        assert(img.pixels@.len() == img.pixels.len());
        lemma_intermediate_fits(img.width, img.height);
        assert(3 * p.width * p.height <= 3 * 512 * 512) by (nonlinear_arith)
            requires
                p.width <= 512,
                p.height <= 512,
        ;
    }
    let resized = resize_smooth(img, p.width, p.height);
    frame_thumbnail(&resized, p)
}

/// Makes the thumbnail of the image that `bytes` encode: the encoding of a
/// 512 x 512 canvas, or the reason why there is none, which is a failure
/// to decode or to encode.
pub fn make_thumbnail(bytes: &[u8]) -> (r: Result<Vec<u8>, SaveError>)
    ensures
        is_thumbnail_outcome(thumbnail_view(r)),
        r matches Err(e) ==> e is Decode || e is Encode,
{
    match decode_image(bytes) {
        Err(e) => Err(e),
        Ok(img) => {
            let ghost decoded = img@;
            let r = thumbnail_from_raster(img);
            assert(is_thumbnail_of(decoded, thumbnail_view(r)));
            r
        },
    }
}

} // verus!
