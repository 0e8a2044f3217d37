//! Render configuration and the rasterizer.
use vstd::prelude::*;
use vstd::arithmetic::div_mod::lemma_fundamental_div_mod_converse;
use crate::canvas::{Canvas, height_of, sample_index, samples_of, width_of};
use crate::color::{channel_of, pixel_color};
use crate::kind::RenderType;

verus! {

/// Why a configuration cannot be finalized.
#[derive(Clone, Copy, Debug, PartialEq, Eq, Structural)]
pub enum ConfigError {
    /// The image dimensions were never given.
    MissingSize,
    /// A dimension is zero, or the image holds more samples than memory can address.
    InvalidSize,
    /// The fractal variant cannot be rendered.
    UnsupportedVariant,
}

impl ConfigError {
    /// A sentence that describes the error.
    pub fn message(&self) -> (r: String)
        ensures
            r@ == match self {
                ConfigError::MissingSize => "need to specify the size of the image"@,
                ConfigError::InvalidSize => "the image size is zero or too large"@,
                ConfigError::UnsupportedVariant => "this fractal type cannot be rendered"@,
            },
    {
        match self {
            ConfigError::MissingSize => "need to specify the size of the image".to_string(),
            ConfigError::InvalidSize => "the image size is zero or too large".to_string(),
            ConfigError::UnsupportedVariant => "this fractal type cannot be rendered".to_string(),
        }
    }
}

/// Dimensions that an image buffer can be made with: both positive, and four
/// samples per pixel within what memory can address.
pub open spec fn valid_size(width: u32, height: u32) -> bool {
    &&& width > 0
    &&& height > 0
    &&& 4 * (width as int) * (height as int) <= isize::MAX
}

/// The samples of a `width` by `height` image whose pixel in row `row` and column
/// `col` escaped as `escapes[row * width + col]`: every pixel's four samples, row by row.
pub open spec fn rendered(width: u32, height: u32, escapes: Seq<Option<u32>>) -> Seq<u8> {
    Seq::new(
        (4 * (width as int) * (height as int)) as nat,
        |i: int|
            {
                let p = i / 4;
                channel_of((p / width as int) as u32, (p % width as int) as u32, escapes[p], i % 4)
            },
    )
}

/// The samples of pixel `(col, row)` of an image `width` wide start at `4 * p`, where
/// `p = row * width + col`; sample `4 * p + k` is channel `k` of pixel `p`, and
/// pixel `p` lies in row `p / width` and column `p % width`.
proof fn lemma_pixel_position(width: u32, row: u32, col: u32, k: int)
    requires
        col < width,
        0 <= k < 4,
    ensures
        ({
            let p = row as int * width as int + col as int;
            &&& sample_index(width, col, row) == 4 * p
            &&& (4 * p + k) / 4 == p
            &&& (4 * p + k) % 4 == k
            &&& p / width as int == row as int
            &&& p % width as int == col as int
        }),
{
    let p = row as int * width as int + col as int;
    assert(p >= 0) by (nonlinear_arith)
        requires row >= 0, width >= 0, col >= 0, p == row as int * width as int + col as int;
    lemma_fundamental_div_mod_converse(4 * p + k, 4, p, k);
    lemma_fundamental_div_mod_converse(p, width as int, row as int, col as int);
}

/// Channel `k` of the pixel in row `row` and column `col` of samples `s`, in an
/// image `width` wide.
pub open spec fn sample_at(s: Seq<u8>, width: u32, row: u32, col: u32, k: int) -> u8 {
    s[sample_index(width, col, row) + k]
}

/// A rendered image covers every pixel exactly once: pixel `(col, row)` owns the four
/// samples from `sample_index(width, col, row)`, they hold that pixel's colour, and no
/// two pixels own the same samples.
pub proof fn lemma_rendered_covers_each_pixel_once(width: u32, height: u32, escapes: Seq<Option<u32>>)
    requires
        escapes.len() == width as int * height as int,
    ensures
        rendered(width, height, escapes).len() == 4 * (width as int) * (height as int),
        forall|row: u32, col: u32|
            row < height && col < width ==> 0 <= #[trigger] sample_index(width, col, row) && sample_index(
                width,
                col,
                row,
            ) + 4 <= rendered(width, height, escapes).len(),
        forall|row: u32, col: u32, k: int|
            row < height && col < width && 0 <= k < 4 ==> #[trigger] sample_at(
                rendered(width, height, escapes),
                width,
                row,
                col,
                k,
            ) == channel_of(row, col, escapes[row as int * width as int + col as int], k),
        forall|r1: u32, c1: u32, r2: u32, c2: u32|
            r1 < height && c1 < width && r2 < height && c2 < width && #[trigger] sample_index(
                width,
                c1,
                r1,
            ) == #[trigger] sample_index(width, c2, r2) ==> r1 == r2 && c1 == c2,
{
    assert forall|row: u32, col: u32, k: int| row < height && col < width && 0 <= k < 4 implies {
        &&& 0 <= sample_index(width, col, row) + k < rendered(width, height, escapes).len()
        &&& #[trigger] sample_at(rendered(width, height, escapes), width, row, col, k) == channel_of(
            row,
            col,
            escapes[row as int * width as int + col as int],
            k,
        )
    } by {
        lemma_pixel_position(width, row, col, k);
        assert((row as int * width as int + col as int) < width as int * height as int)
            by (nonlinear_arith)
            requires row < height, col < width;
        assert(4 * (width as int) * (height as int) == 4 * (width as int * height as int))
            by (nonlinear_arith);
    }
    assert forall|row: u32, col: u32| row < height && col < width implies 0 <= #[trigger] sample_index(
        width,
        col,
        row,
    ) && sample_index(width, col, row) + 4 <= rendered(width, height, escapes).len() by {
        assert(sample_at(rendered(width, height, escapes), width, row, col, 3) == channel_of(
            row,
            col,
            escapes[row as int * width as int + col as int],
            3,
        ));
    }
    assert forall|r1: u32, c1: u32, r2: u32, c2: u32|
        r1 < height && c1 < width && r2 < height && c2 < width && #[trigger] sample_index(
            width,
            c1,
            r1,
        ) == #[trigger] sample_index(width, c2, r2) implies r1 == r2 && c1 == c2 by {
        lemma_pixel_position(width, r1, c1, 0);
        lemma_pixel_position(width, r2, c2, 0);
    }
}

/// Accumulates the options of one render.
#[derive(Clone, Debug)]
pub struct RenderBuilder {
    size: Option<(u32, u32)>,
    filename: String,
    render_type: RenderType,
    bail_out: u32,
}

impl RenderBuilder {
    /// The image dimensions, width then height, if they were given.
    pub closed spec fn size_spec(&self) -> Option<(u32, u32)> {
        self.size
    }

    pub closed spec fn filename_spec(&self) -> Seq<char> {
        self.filename@
    }

    pub closed spec fn render_type_spec(&self) -> RenderType {
        self.render_type
    }

    pub closed spec fn bail_out_spec(&self) -> u32 {
        self.bail_out
    }

    /// No size, a Julia render to `julia.png`, bail-out 255.
    pub fn new() -> (r: Self)
        ensures
            r.size_spec() is None,
            r.filename_spec() == "julia.png"@,
            r.render_type_spec() == RenderType::Julia,
            r.bail_out_spec() == 255,
    {
        RenderBuilder {
            size: None,
            filename: "julia.png".to_string(),
            render_type: RenderType::Julia,
            bail_out: 255,
        }
    }

    /// Sets the image dimensions in pixels.
    pub fn size_image(self, width: u32, height: u32) -> (r: Self)
        ensures
            r.size_spec() == Some((width, height)),
            r.filename_spec() == self.filename_spec(),
            r.render_type_spec() == self.render_type_spec(),
            r.bail_out_spec() == self.bail_out_spec(),
    {
        RenderBuilder { size: Some((width, height)), ..self }
    }

    /// Sets the fractal variant.
    pub fn set_type(self, render_type: RenderType) -> (r: Self)
        ensures
            r.size_spec() == self.size_spec(),
            r.filename_spec() == self.filename_spec(),
            r.render_type_spec() == render_type,
            r.bail_out_spec() == self.bail_out_spec(),
    {
        RenderBuilder { render_type, ..self }
    }

    /// Sets the largest number of steps an orbit takes.
    pub fn set_bailout(self, bail_out: u32) -> (r: Self)
        ensures
            r.size_spec() == self.size_spec(),
            r.filename_spec() == self.filename_spec(),
            r.render_type_spec() == self.render_type_spec(),
            r.bail_out_spec() == bail_out,
    {
        RenderBuilder { bail_out, ..self }
    }

    /// Sets the name of the file the image is meant for.
    pub fn set_filename(self, filename: &str) -> (r: Self)
        ensures
            r.size_spec() == self.size_spec(),
            r.filename_spec() == filename@,
            r.render_type_spec() == self.render_type_spec(),
            r.bail_out_spec() == self.bail_out_spec(),
    {
        RenderBuilder { filename: filename.to_string(), ..self }
    }

    /// Finalizes the configuration and makes its image buffer, all samples zero.
    /// Fails with `MissingSize` where no size was given, else with `InvalidSize`
    /// where the size is not `valid_size`, else with `UnsupportedVariant` where the
    /// variant cannot be rendered.
    pub fn build(self) -> (r: Result<Render, ConfigError>)
        ensures
            match self.size_spec() {
                None => r == Err::<Render, ConfigError>(ConfigError::MissingSize),
                Some((width, height)) => if !valid_size(width, height) {
                    r == Err::<Render, ConfigError>(ConfigError::InvalidSize)
                } else if !self.render_type_spec().supported_spec() {
                    r == Err::<Render, ConfigError>(ConfigError::UnsupportedVariant)
                } else {
                    &&& r is Ok
                    &&& r->Ok_0.wf()
                    &&& r->Ok_0.width_spec() == width
                    &&& r->Ok_0.height_spec() == height
                    &&& r->Ok_0.render_type_spec() == self.render_type_spec()
                    &&& r->Ok_0.bail_out_spec() == self.bail_out_spec()
                    &&& r->Ok_0.filename_spec() == self.filename_spec()
                    &&& r->Ok_0.image() == Seq::new(
                        (4 * (width as int) * (height as int)) as nat,
                        |i: int| 0u8,
                    )
                },
            },
    {
        match self.size {
            None => Err(ConfigError::MissingSize),
            Some((width, height)) => {
                assert(width as int * height as int <= u64::MAX) by (nonlinear_arith)
                    requires width <= u32::MAX, height <= u32::MAX;
                let pixels: u64 = width as u64 * height as u64;
                let limit: u64 = (isize::MAX as u64) / 4;
                if width == 0 || height == 0 || pixels > limit {
                    assert(pixels > limit ==> 4 * (width as int) * (height as int) > isize::MAX)
                        by (nonlinear_arith)
                        requires pixels == width as int * height as int, limit == isize::MAX / 4;
                    return Err(ConfigError::InvalidSize);
                }
                assert(4 * (width as int) * (height as int) <= isize::MAX) by (nonlinear_arith)
                    requires pixels == width as int * height as int, pixels <= isize::MAX / 4;
                if !self.render_type.is_supported() {
                    return Err(ConfigError::UnsupportedVariant);
                }
                let canvas = Canvas::blank(width, height);
                Ok(Render {
                    canvas,
                    width,
                    height,
                    filename: self.filename,
                    render_type: self.render_type,
                    bail_out: self.bail_out,
                })
            },
        }
    }
}

/// A finalized configuration together with its image buffer.
pub struct Render {
    canvas: Canvas,
    width: u32,
    height: u32,
    filename: String,
    render_type: RenderType,
    bail_out: u32,
}

impl Render {
    /// The buffer has the configured size, the size is valid and the variant can
    /// be rendered.
    pub closed spec fn wf(&self) -> bool {
        &&& width_of(self.canvas) == self.width
        &&& height_of(self.canvas) == self.height
        &&& valid_size(self.width, self.height)
        &&& samples_of(self.canvas).len() == 4 * (self.width as int) * (self.height as int)
        &&& self.render_type.supported_spec()
    }

    pub closed spec fn width_spec(&self) -> u32 {
        self.width
    }

    pub closed spec fn height_spec(&self) -> u32 {
        self.height
    }

    pub closed spec fn filename_spec(&self) -> Seq<char> {
        self.filename@
    }

    pub closed spec fn render_type_spec(&self) -> RenderType {
        self.render_type
    }

    pub closed spec fn bail_out_spec(&self) -> u32 {
        self.bail_out
    }

    /// The samples of the image, row by row, four per pixel.
    pub closed spec fn image(&self) -> Seq<u8> {
        samples_of(self.canvas)
    }

    /// The image width in pixels.
    pub fn width(&self) -> (r: u32)
        ensures
            r == self.width_spec(),
    {
        self.width
    }

    /// The image height in pixels.
    pub fn height(&self) -> (r: u32)
        ensures
            r == self.height_spec(),
    {
        self.height
    }

    /// The fractal variant.
    pub fn render_type(&self) -> (r: RenderType)
        ensures
            r == self.render_type_spec(),
    {
        self.render_type
    }

    /// The largest number of steps an orbit takes.
    pub fn bail_out(&self) -> (r: u32)
        ensures
            r == self.bail_out_spec(),
    {
        self.bail_out
    }

    /// The name of the file the image is meant for.
    pub fn filename(&self) -> (r: &str)
        ensures
            r@ == self.filename_spec(),
    {
        self.filename.as_str()
    }

    /// The samples of the image, row by row, four per pixel (red, green, blue, alpha).
    pub fn samples(&self) -> (r: Vec<u8>)
        ensures
            r@ == self.image(),
    {
        self.canvas.samples()
    }

    /// The colour of the pixel in row `row` and column `col`, or `None` outside the image.
    pub fn pixel(&self, row: u32, col: u32) -> (r: Option<[u8; 4]>)
        requires
            self.wf(),
        ensures
            row < self.height_spec() && col < self.width_spec() <==> r is Some,
            r is Some ==> forall|k: int|
                0 <= k < 4 ==> #[trigger] r->0@[k] == self.image()[sample_index(self.width_spec(), col, row) + k],
    {
        if row < self.height && col < self.width {
            Some(self.canvas.get(col, row))
        } else {
            None
        }
    }

    /// Colours every pixel once: the pixel in row `row` and column `col` gets the
    /// colour of `escapes[row * width + col]`, the escape time of its orbit.
    pub fn run(&mut self, escapes: &Vec<Option<u32>>)
        requires
            old(self).wf(),
            escapes@.len() == old(self).width_spec() as int * old(self).height_spec() as int,
        ensures
            final(self).wf(),
            final(self).width_spec() == old(self).width_spec(),
            final(self).height_spec() == old(self).height_spec(),
            final(self).render_type_spec() == old(self).render_type_spec(),
            final(self).bail_out_spec() == old(self).bail_out_spec(),
            final(self).filename_spec() == old(self).filename_spec(),
            final(self).image() == rendered(old(self).width_spec(), old(self).height_spec(), escapes@),
    {
        let w = self.width;
        let h = self.height;
        let ghost target = rendered(w, h, escapes@);
        let ghost fname = self.filename@;
        let ghost kind = self.render_type;
        let ghost bound = self.bail_out;
        let mut row: u32 = 0;
        while row < h
            invariant
                self.wf(),
                self.width == w,
                self.height == h,
                self.filename@ == fname,
                self.render_type == kind,
                self.bail_out == bound,
                escapes@.len() == w as int * h as int,
                target == rendered(w, h, escapes@),
                row <= h,
                forall|i: int|
                    0 <= i < 4 * (row as int * w as int) ==> #[trigger] samples_of(self.canvas)[i] == target[i],
            decreases h - row,
        {
            let mut col: u32 = 0;
            while col < w
                invariant
                    self.wf(),
                    self.width == w,
                    self.height == h,
                    self.filename@ == fname,
                    self.render_type == kind,
                    self.bail_out == bound,
                    escapes@.len() == w as int * h as int,
                    target == rendered(w, h, escapes@),
                    row < h,
                    col <= w,
                    forall|i: int|
                        0 <= i < 4 * (row as int * w as int + col as int) ==> #[trigger] samples_of(self.canvas)[i]
                            == target[i],
                decreases w - col,
            {
                assert((row as int * w as int + col as int) < w as int * h as int) by (nonlinear_arith)
                    requires row < h, col < w;
                assert(4 * (w as int) * (h as int) == 4 * (w as int * h as int)) by (nonlinear_arith);
                assert(4 * (w as int) * (h as int) <= isize::MAX);
                let p: usize = row as usize * w as usize + col as usize;
                let px = pixel_color(row, col, escapes[p]);
                let ghost before = samples_of(self.canvas);
                self.canvas.put(col, row, px);
                proof {
                    assert forall|k: int| 0 <= k < 4 implies #[trigger] target[4 * p + k] == px@[k] by {
                        lemma_pixel_position(w, row, col, k);
                    }
                    lemma_pixel_position(w, row, col, 0);
                    assert forall|i: int| 0 <= i < 4 * (row as int * w as int + col as int + 1) implies
                        #[trigger] samples_of(self.canvas)[i] == target[i] by {
                        if i >= 4 * p {
                            assert(target[4 * p + (i - 4 * p)] == px@[i - 4 * p]);
                        }
                    }
                }
                col = col + 1;
            }
            assert(row as int * w as int + w as int == (row as int + 1) * w as int) by (nonlinear_arith);
            row = row + 1;
        }
        assert(4 * (h as int * w as int) == 4 * (w as int) * (h as int)) by (nonlinear_arith);
        assert(samples_of(self.canvas) =~= target);
    }
}

} // verus!
