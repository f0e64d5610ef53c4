//! Pixel art from photos: center-crop to a square, shrink to a `grid × grid` mosaic by
//! area averaging, snap the mosaic to an adaptive palette of at most `colors` entries
//! (NeuQuant), then blow it up with nearest-neighbour sampling to the output size.
use vstd::prelude::*;

verus! {

/// An RGBA image, 8 bits per channel, rows top to bottom, pixels left to right.
#[derive(Clone, Debug, PartialEq, Eq)]
pub struct RgbaImage {
    pub width: u32,
    pub height: u32,
    /// `width * height` pixels of four bytes: red, green, blue, alpha.
    pub data: Vec<u8>,
}

impl RgbaImage {
    /// The buffer holds exactly four bytes per pixel.
    pub open spec fn wf(&self) -> bool {
        self.data@.len() == (self.width as int) * (self.height as int) * 4
    }

    /// Number of pixels.
    pub open spec fn pixel_count(&self) -> int {
        (self.data@.len() / 4) as int
    }

    /// The four bytes of pixel `i` (counted row by row).
    pub open spec fn pixel(&self, i: int) -> Seq<u8> {
        pixel_of(self.data@, i)
    }

    /// The four bytes of the pixel at column `x`, row `y`.
    pub open spec fn pixel_xy(&self, x: int, y: int) -> Seq<u8> {
        pixel_of(self.data@, y * (self.width as int) + x)
    }
}

/// The four bytes of pixel `i` of a raw RGBA buffer.
pub open spec fn pixel_of(data: Seq<u8>, i: int) -> Seq<u8> {
    data.subrange(4 * i, 4 * i + 4)
}

/// Resampling filters.
#[derive(Clone, Copy, Debug, PartialEq, Eq, Structural)]
pub enum Filter {
    Nearest,
    Triangle,
    Lanczos3,
}

pub open spec fn filter_code(f: Filter) -> int {
    match f {
        Filter::Nearest => 0,
        Filter::Triangle => 1,
        Filter::Lanczos3 => 2,
    }
}

/// What `image::imageops::resize` makes of a `w × h` RGBA buffer when resampling it to
/// `nw × nh` with the filter numbered `filter` (see `filter_code`).
pub uninterp spec fn resized(data: Seq<u8>, w: int, h: int, nw: int, nh: int, filter: int) -> Seq<u8>;

/// `image::imageops::resize` on an RGBA buffer; the result has the requested size.
#[verifier::external_body]
pub(crate) fn resize(img: &RgbaImage, nw: u32, nh: u32, filter: Filter) -> (r: RgbaImage)
    requires
        img.wf(),
        (nw as int) * (nh as int) * 4 <= usize::MAX,
    ensures
        r.width == nw,
        r.height == nh,
        r.wf(),
        r.data@ == resized(img.data@, img.width as int, img.height as int, nw as int, nh as int, filter_code(filter)),
{
    let buf = image::RgbaImage::from_raw(img.width, img.height, img.data.clone()).unwrap();
    let kind = match filter {
        Filter::Nearest => image::imageops::FilterType::Nearest,
        Filter::Triangle => image::imageops::FilterType::Triangle,
        Filter::Lanczos3 => image::imageops::FilterType::Lanczos3,
    };
    let out = image::imageops::resize(&buf, nw, nh, kind);
    RgbaImage { width: out.width(), height: out.height(), data: out.into_raw() }
}

/// `image::imageops::crop_imm(..).to_image()`: the `w × h` block whose top-left corner
/// is at column `x`, row `y`, copied pixel for pixel.
#[verifier::external_body]
pub(crate) fn crop(img: &RgbaImage, x: u32, y: u32, w: u32, h: u32) -> (r: RgbaImage)
    requires
        img.wf(),
        x as int + w as int <= img.width as int,
        y as int + h as int <= img.height as int,
    ensures
        r.width == w,
        r.height == h,
        r.wf(),
        forall|i: int, j: int|
            0 <= i < w && 0 <= j < h ==> #[trigger] r.pixel_xy(i, j) == img.pixel_xy(x + i, y + j),
{
    let buf = image::RgbaImage::from_raw(img.width, img.height, img.data.clone()).unwrap();
    let out = image::imageops::crop_imm(&buf, x, y, w, h).to_image();
    RgbaImage { width: out.width(), height: out.height(), data: out.into_raw() }
}

/// A NeuQuant palette learnt from a sample of RGBA pixels, with the arguments it was
/// learnt from; only `Quantizer::learn` makes one.
pub struct Quantizer {
    net: color_quant::NeuQuant,
    sample_factor: i32,
    colors: usize,
    sample: Vec<u8>,
}

#[verifier::external_type_specification]
#[verifier::external_body]
pub struct ExNeuQuant(color_quant::NeuQuant);

/// The colour `color_quant::NeuQuant::map_pixel` gives `px` (RGBA) with the network
/// learnt by `NeuQuant::new(sample_factor, colors, sample)`.
pub uninterp spec fn neuquant_mapped(sample_factor: int, colors: int, sample: Seq<u8>, px: Seq<u8>) -> Seq<u8>;

/// The palette (RGBA colours, in colour-map order) of the network learnt by
/// `color_quant::NeuQuant::new(sample_factor, colors, sample)`: what `color_map_rgba`
/// lists, four bytes per entry.
pub uninterp spec fn neuquant_palette(sample_factor: int, colors: int, sample: Seq<u8>) -> Seq<Seq<u8>>;

impl Quantizer {
    pub closed spec fn sample_factor(&self) -> int {
        self.sample_factor as int
    }

    pub closed spec fn colors(&self) -> int {
        self.colors as int
    }

    pub closed spec fn sample(&self) -> Seq<u8> {
        self.sample@
    }

    /// `color_quant::NeuQuant::new(sample_factor, colors, sample)`: learns a palette of
    /// `colors` entries (its colour map has one per neuron), looking at every
    /// `sample_factor`-th pixel.
    #[verifier::external_body]
    pub(crate) fn learn(sample_factor: i32, colors: usize, sample: &[u8]) -> (r: Quantizer)
        requires
            1 <= sample_factor <= 30,
            1 <= colors <= 256,
        ensures
            r.sample_factor() == sample_factor as int,
            r.colors() == colors as int,
            r.sample() == sample@,
            neuquant_palette(r.sample_factor(), r.colors(), r.sample()).len() == r.colors(),
    {
        Quantizer {
            net: color_quant::NeuQuant::new(sample_factor, colors, sample),
            sample_factor,
            colors,
            sample: sample.to_vec(),
        }
    }

    /// `color_quant::NeuQuant::map_pixel`: the palette colour nearest to `px`, one of
    /// the colour map's entries.
    #[verifier::external_body]
    pub(crate) fn map(&self, px: [u8; 4]) -> (r: [u8; 4])
        ensures
            r@ == neuquant_mapped(self.sample_factor(), self.colors(), self.sample(), px@),
            neuquant_palette(self.sample_factor(), self.colors(), self.sample()).contains(r@),
    {
        let mut p = px;
        self.net.map_pixel(&mut p);
        p
    }
}

/// Parameters for `pixelate`.
#[derive(Clone, Copy, Debug, PartialEq, Eq, Structural)]
pub struct Options {
    /// Number of cells along each axis of the mosaic. Clamped to `1..=1024`.
    pub grid: u32,
    /// Maximum palette size. Clamped to `2..=256`.
    pub colors: usize,
    /// Side length of the square output image. `0` keeps the `grid` size (no upscale).
    pub output_size: u32,
}

impl Default for Options {
    /// A 32 × 32 mosaic in 32 colours, shown at 256 × 256.
    fn default() -> (r: Options)
        ensures
            r == (Options { grid: 32, colors: 32, output_size: 256 }),
    {
        Options { grid: 32, colors: 32, output_size: 256 }
    }
}

impl Options {
    pub fn grid(self, grid: u32) -> (r: Options)
        ensures
            r == (Options { grid, ..self }),
    {
        Options { grid, ..self }
    }

    pub fn colors(self, colors: usize) -> (r: Options)
        ensures
            r == (Options { colors, ..self }),
    {
        Options { colors, ..self }
    }

    pub fn output_size(self, size: u32) -> (r: Options)
        ensures
            r == (Options { output_size: size, ..self }),
    {
        Options { output_size: size, ..self }
    }
}

pub open spec fn clamp_int(v: int, lo: int, hi: int) -> int {
    if v < lo {
        lo
    } else if v > hi {
        hi
    } else {
        v
    }
}

/// The side of the centered square cut out of a `w × h` image (at least one pixel).
pub open spec fn crop_side(w: int, h: int) -> int {
    let m = if w < h { w } else { h };
    if m < 1 { 1 } else { m }
}

/// `sq` is the centered square of `img` (cut to the image when that is empty).
pub open spec fn is_center_crop(img: RgbaImage, sq: RgbaImage) -> bool {
    let w = img.width as int;
    let h = img.height as int;
    let side = crop_side(w, h);
    let x = if w >= side { (w - side) / 2 } else { 0 };
    let y = if h >= side { (h - side) / 2 } else { 0 };
    &&& sq.width as int == if w >= side { side } else { w }
    &&& sq.height as int == if h >= side { side } else { h }
    &&& sq.wf()
    &&& forall|i: int, j: int|
        0 <= i < sq.width && 0 <= j < sq.height ==> #[trigger] sq.pixel_xy(i, j) == img.pixel_xy(x + i, y + j)
}

/// `r` is the centered square of `img` shrunk to `grid × grid` by area averaging.
pub open spec fn is_downsampled(img: RgbaImage, grid: int, r: RgbaImage) -> bool {
    &&& r.wf()
    &&& r.width == grid
    &&& r.height == grid
    &&& exists|sq: RgbaImage|
        #![trigger is_center_crop(img, sq)]
        is_center_crop(img, sq) && r.data@ == resized(sq.data@, sq.width as int, sq.height as int, grid, grid, 1)
}

/// Two images of one size that agree on every pixel have the same bytes.
pub proof fn lemma_same_pixels_same_data(a: RgbaImage, b: RgbaImage)
    requires
        a.wf(),
        b.wf(),
        a.width == b.width,
        a.height == b.height,
        forall|i: int, j: int|
            0 <= i < a.width && 0 <= j < a.height ==> #[trigger] a.pixel_xy(i, j) == b.pixel_xy(i, j),
    ensures
        a.data@ == b.data@,
{
    let w = a.width as int;
    let h = a.height as int;
    assert forall|t: int| 0 <= t < a.data@.len() implies a.data@[t] == b.data@[t] by {
        let p = t / 4;
        let off = t % 4;
        assert(0 <= p < w * h && 4 * p + off == t && 0 <= off < 4) by (nonlinear_arith)
            requires
                0 <= t < w * h * 4,
                p == t / 4,
                off == t % 4,
        ;
        assert(w > 0) by (nonlinear_arith)
            requires
                0 <= p < w * h,
                0 <= h,
        ;
        let i = p % w;
        let j = p / w;
        assert(0 <= i < w && 0 <= j < h && j * w + i == p) by (nonlinear_arith)
            requires
                0 <= p < w * h,
                w > 0,
                i == p % w,
                j == p / w,
        ;
        assert(4 * p + 4 <= w * h * 4);
        assert(a.pixel_xy(i, j) == b.pixel_xy(i, j));
        assert(a.pixel_xy(i, j)[off] == a.data@[t]);
        assert(b.pixel_xy(i, j)[off] == b.data@[t]);
    }
    assert(a.data@ =~= b.data@);
}

/// Only the centred square matters: for an image at least one pixel wide and high,
/// whatever downsampling it gives is what downsampling its centred square gives, and
/// the other way round.
pub proof fn lemma_downsample_center_square(img: RgbaImage, sq: RgbaImage, grid: int, r: RgbaImage)
    requires
        img.wf(),
        img.width >= 1,
        img.height >= 1,
        is_center_crop(img, sq),
    ensures
        is_downsampled(img, grid, r) <==> is_downsampled(sq, grid, r),
{
    assert(sq.width == sq.height);
    assert(is_center_crop(sq, sq));
    if is_downsampled(img, grid, r) {
        let s2 = choose|s2: RgbaImage|
            is_center_crop(img, s2) && r.data@ == resized(s2.data@, s2.width as int, s2.height as int, grid, grid, 1);
        lemma_same_pixels_same_data(s2, sq);
    }
    if is_downsampled(sq, grid, r) {
        let s2 = choose|s2: RgbaImage|
            is_center_crop(sq, s2) && r.data@ == resized(s2.data@, s2.width as int, s2.height as int, grid, grid, 1);
        assert forall|i: int, j: int| 0 <= i < s2.width && 0 <= j < s2.height implies #[trigger] s2.pixel_xy(i, j)
            == sq.pixel_xy(i, j) by {
            assert(s2.pixel_xy(i, j) == sq.pixel_xy(0 + i, 0 + j));
        }
        lemma_same_pixels_same_data(s2, sq);
    }
}

/// Center-crops `img` to a square and shrinks it to `grid × grid` with area averaging.
/// An empty image counts as one pixel wide and high, as the crop box is then cut to the
/// image.
pub fn downsample(img: &RgbaImage, grid: u32) -> (r: RgbaImage)
    requires
        img.wf(),
        (grid as int) * (grid as int) * 4 <= usize::MAX,
    ensures
        is_downsampled(*img, grid as int, r),
{
    let (w, h) = (img.width, img.height);
    let m = if w < h { w } else { h };
    let side = if m < 1 { 1 } else { m };
    // An empty image cannot hold the one-pixel box: cut it to the image, as a crop does.
    let (x, cw) = if w >= side { ((w - side) / 2, side) } else { (0, w) };
    let (y, ch) = if h >= side { ((h - side) / 2, side) } else { (0, h) };
    let square = crop(img, x, y, cw, ch);
    let r = resize(&square, grid, grid, Filter::Triangle);
    proof {
        assert(is_center_crop(*img, square));
    }
    r
}

/// Whether pixel bytes `px` are fully transparent.
pub open spec fn transparent(px: Seq<u8>) -> bool {
    px[3] == 0
}

/// `r` is `img` with every pixel that is not fully transparent replaced by its
/// NeuQuant palette colour, the palette of `colors` entries learnt from all of `img`.
pub open spec fn is_quantized(img: RgbaImage, colors: int, r: RgbaImage) -> bool {
    &&& neuquant_palette(1, colors, img.data@).len() == colors
    &&& forall|i: int|
        0 <= i < img.pixel_count() && !transparent(img.pixel(i)) ==> neuquant_palette(1, colors, img.data@).contains(
            #[trigger] neuquant_mapped(1, colors, img.data@, img.pixel(i)),
        )
    &&& r.wf()
    &&& r.width == img.width
    &&& r.height == img.height
    &&& forall|i: int|
        0 <= i < img.pixel_count() ==> #[trigger] r.pixel(i) == if transparent(img.pixel(i)) {
            img.pixel(i)
        } else {
            neuquant_mapped(1, colors, img.data@, img.pixel(i))
        }
}

/// Snaps every pixel of `img` to an adaptive palette of at most `colors` entries
/// (clamped to `2..=256`), learnt from the whole image. Fully transparent pixels stay
/// as they are.
pub fn quantize(img: &RgbaImage, colors: usize) -> (r: RgbaImage)
    requires
        img.wf(),
    ensures
        is_quantized(*img, clamp_int(colors as int, 2, 256), r),
{
    let colors = if colors < 2 {
        2
    } else if colors > 256 {
        256
    } else {
        colors
    };
    let q = Quantizer::learn(1, colors, img.data.as_slice());
    let total = img.data.len();
    let n = total / 4;
    let mut out: Vec<u8> = Vec::new();
    let mut i: usize = 0;
    proof {
        assert(img.data@.len() % 4 == 0) by (nonlinear_arith)
            requires
                img.data@.len() == (img.width as int) * (img.height as int) * 4,
        ;
    }
    while i < n
        invariant
            total == img.data@.len(),
            n == img.data@.len() / 4,
            img.data@.len() % 4 == 0,
            i <= n,
            out@.len() == 4 * i,
            q.sample_factor() == 1,
            q.colors() == clamp_int(colors as int, 2, 256),
            q.sample() == img.data@,
            neuquant_palette(1, clamp_int(colors as int, 2, 256), img.data@).len() == clamp_int(colors as int, 2, 256),
            forall|k: int|
                0 <= k < i && !transparent(img.pixel(k)) ==> neuquant_palette(1, clamp_int(colors as int, 2, 256), img.data@).contains(
                    #[trigger] neuquant_mapped(1, clamp_int(colors as int, 2, 256), img.data@, img.pixel(k)),
                ),
            forall|k: int|
                0 <= k < i ==> #[trigger] pixel_of(out@, k) == if transparent(img.pixel(k)) {
                    img.pixel(k)
                } else {
                    neuquant_mapped(1, clamp_int(colors as int, 2, 256), img.data@, img.pixel(k))
                },
        decreases n - i,
    {
        assert(4 * i + 4 <= img.data@.len());
        let b = 4 * i;
        let px: [u8; 4] = [img.data[b], img.data[b + 1], img.data[b + 2], img.data[b + 3]];
        let ghost before = out@;
        proof {
            assert(px@ =~= img.pixel(i as int));
        }
        let mapped: [u8; 4] = if px[3] == 0 {
            px
        } else {
            q.map(px)
        };
        out.push(mapped[0]);
        out.push(mapped[1]);
        out.push(mapped[2]);
        out.push(mapped[3]);
        proof {
            assert(pixel_of(out@, i as int) =~= mapped@);
            assert forall|k: int| 0 <= k < i implies #[trigger] pixel_of(out@, k) == pixel_of(before, k) by {
                assert(pixel_of(out@, k) =~= pixel_of(before, k));
            }
        }
        i = i + 1;
    }
    let r = RgbaImage { width: img.width, height: img.height, data: out };
    proof {
        assert(r.data@.len() == img.data@.len());
        assert forall|k: int| 0 <= k < img.pixel_count() implies #[trigger] r.pixel(k) == if transparent(img.pixel(k)) {
            img.pixel(k)
        } else {
            neuquant_mapped(1, clamp_int(colors as int, 2, 256), img.data@, img.pixel(k))
        } by {
            assert(pixel_of(out@, k) == r.pixel(k));
        }
    }
    r
}

/// The colours of the pixels of `img` that are not fully transparent.
pub open spec fn opaque_colors(img: RgbaImage) -> Set<Seq<u8>> {
    Set::new(
        |c: Seq<u8>|
            exists|i: int| 0 <= i < img.pixel_count() && !transparent(#[trigger] img.pixel(i)) && img.pixel(i) == c,
    )
}

/// A quantized image shows at most `colors` different colours in its pixels that are
/// not fully transparent: they all come from the learnt palette.
pub proof fn lemma_quantized_palette_bound(img: RgbaImage, colors: int, r: RgbaImage)
    requires
        img.wf(),
        is_quantized(img, colors, r),
    ensures
        opaque_colors(r).finite(),
        opaque_colors(r).len() <= colors,
{
    let palette = neuquant_palette(1, colors, img.data@);
    assert(r.pixel_count() == img.pixel_count());
    assert forall|c: Seq<u8>| opaque_colors(r).contains(c) implies palette.to_set().contains(c) by {
        let i = choose|i: int| 0 <= i < r.pixel_count() && !transparent(#[trigger] r.pixel(i)) && r.pixel(i) == c;
        if transparent(img.pixel(i)) {
            assert(r.pixel(i) == img.pixel(i));
        } else {
            assert(r.pixel(i) == neuquant_mapped(1, colors, img.data@, img.pixel(i)));
            assert(palette.contains(neuquant_mapped(1, colors, img.data@, img.pixel(i))));
        }
    }
    vstd::seq_lib::seq_to_set_is_finite(palette);
    palette.lemma_cardinality_of_set();
    vstd::set_lib::lemma_len_subset(opaque_colors(r), palette.to_set());
}

/// Side length of what `pixelate` makes with `opts`.
pub open spec fn pixelate_size(opts: Options) -> int {
    if opts.output_size == 0 {
        clamp_int(opts.grid as int, 1, 1024)
    } else {
        opts.output_size as int
    }
}

/// `r` is the pixel art `pixelate` makes of `img` with `opts`: the downsampled,
/// quantized mosaic, scaled up with nearest-neighbour sampling unless the output size
/// is 0.
pub open spec fn is_pixelated(img: RgbaImage, opts: Options, r: RgbaImage) -> bool {
    exists|small: RgbaImage, mosaic: RgbaImage|
        #![trigger is_downsampled(img, clamp_int(opts.grid as int, 1, 1024), small), is_quantized(small, clamp_int(opts.colors as int, 2, 256), mosaic)]
        is_downsampled(img, clamp_int(opts.grid as int, 1, 1024), small) && is_quantized(
            small,
            clamp_int(opts.colors as int, 2, 256),
            mosaic,
        ) && if opts.output_size == 0 {
            r == mosaic
        } else {
            r.data@ == resized(
                mosaic.data@,
                mosaic.width as int,
                mosaic.height as int,
                opts.output_size as int,
                opts.output_size as int,
                0,
            )
        }
}

/// Converts `img` into pixel art: a `grid × grid` mosaic of the center square, snapped
/// to at most `colors` colours, then scaled with nearest-neighbour sampling to
/// `output_size × output_size` (or kept at the grid size when that is 0). Grid and
/// palette size are clamped to their ranges first.
pub fn pixelate(img: &RgbaImage, opts: Options) -> (r: RgbaImage)
    requires
        img.wf(),
        (opts.output_size as int) * (opts.output_size as int) * 4 <= usize::MAX,
    ensures
        r.wf(),
        r.width as int == pixelate_size(opts),
        r.height as int == pixelate_size(opts),
        is_pixelated(*img, opts, r),
{
    let grid = if opts.grid < 1 {
        1
    } else if opts.grid > 1024 {
        1024
    } else {
        opts.grid
    };
    let colors = if opts.colors < 2 {
        2
    } else if opts.colors > 256 {
        256
    } else {
        opts.colors
    };
    assert((grid as int) * (grid as int) * 4 <= 1024 * 1024 * 4) by (nonlinear_arith)
        requires
            1 <= grid <= 1024,
    ;
    let small = downsample(img, grid);
    let mosaic = quantize(&small, colors);
    let r = if opts.output_size == 0 {
        mosaic
    } else {
        resize(&mosaic, opts.output_size, opts.output_size, Filter::Nearest)
    };
    proof {
        assert(is_downsampled(*img, clamp_int(opts.grid as int, 1, 1024), small));
        assert(is_quantized(small, clamp_int(opts.colors as int, 2, 256), mosaic));
    }
    r
}

} // verus!
