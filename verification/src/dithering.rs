use vstd::prelude::*;

verus! {

/// The 4 by 4 Bayer matrix, in sixteenths: row `r`, column `c`.
pub open spec fn bayer_matrix(r: int, c: int) -> u8 {
    if r == 0 {
        if c == 0 { 0 } else if c == 1 { 8 } else if c == 2 { 2 } else { 10 }
    } else if r == 1 {
        if c == 0 { 12 } else if c == 1 { 4 } else if c == 2 { 14 } else { 6 }
    } else if r == 2 {
        if c == 0 { 3 } else if c == 1 { 11 } else if c == 2 { 1 } else { 9 }
    } else {
        if c == 0 { 15 } else if c == 1 { 7 } else if c == 2 { 13 } else { 5 }
    }
}

/// The Bayer threshold, in sixteenths, of the pixel in row `row` and column `col`.
pub open spec fn bayer_threshold(row: int, col: int) -> u8 {
    bayer_matrix(row % 4, col % 4)
}

/// Ordered dithering with the 4 by 4 Bayer matrix: a pixel turns white where its luminance
/// exceeds the matrix entry at its position, in sixteenths.
#[derive(Debug, Clone, Copy)]
pub struct BayerDithering;

impl BayerDithering {
    /// The threshold, in sixteenths, for the pixel in row `row` and column `col`.
    pub fn threshold(row: usize, col: usize) -> (t: u8)
        ensures
            t == bayer_threshold(row as int, col as int),
            t < 16,
    {
        let r = row % 4;
        let c = col % 4;
        if r == 0 {
            if c == 0 { 0 } else if c == 1 { 8 } else if c == 2 { 2 } else { 10 }
        } else if r == 1 {
            if c == 0 { 12 } else if c == 1 { 4 } else if c == 2 { 14 } else { 6 }
        } else if r == 2 {
            if c == 0 { 3 } else if c == 1 { 11 } else if c == 2 { 1 } else { 9 }
        } else {
            if c == 0 { 15 } else if c == 1 { 7 } else if c == 2 { 13 } else { 5 }
        }
    }
}

/// The 2 by 2 Bayer matrix.
pub open spec fn bayer2(r: int, c: int) -> int {
    if r == 0 {
        if c == 0 { 0 } else { 2 }
    } else {
        if c == 0 { 3 } else { 1 }
    }
}

/// Whether `v` is a threshold somewhere in a 4 by 4 tile.
pub open spec fn bayer_has_threshold(v: int) -> bool {
    exists|r: int, c: int| 0 <= r < 4 && 0 <= c < 4 && #[trigger] bayer_matrix(r, c) == v
}

/// Each 4 by 4 tile of thresholds holds every sixteenth from 0 to 15 exactly once, and the
/// matrix is the recursive Bayer construction from the 2 by 2 matrix.
pub proof fn law_bayer_matrix_is_a_permutation()
    ensures
        forall|v: int| 0 <= v < 16 ==> #[trigger] bayer_has_threshold(v),
        forall|r1: int, c1: int, r2: int, c2: int|
            0 <= r1 < 4 && 0 <= c1 < 4 && 0 <= r2 < 4 && 0 <= c2 < 4 && bayer_matrix(r1, c1)
                == bayer_matrix(r2, c2) ==> r1 == r2 && c1 == c2,
        forall|r: int, c: int|
            0 <= r < 4 && 0 <= c < 4 ==> bayer_matrix(r, c) == 4 * bayer2(r % 2, c % 2) + bayer2(
                r / 2,
                c / 2,
            ),
{
    assert forall|v: int| 0 <= v < 16 implies #[trigger] bayer_has_threshold(v) by {
        if v == 0 {
            assert(bayer_matrix(0, 0) == v);
        } else if v == 1 {
            assert(bayer_matrix(2, 2) == v);
        } else if v == 2 {
            assert(bayer_matrix(0, 2) == v);
        } else if v == 3 {
            assert(bayer_matrix(2, 0) == v);
        } else if v == 4 {
            assert(bayer_matrix(1, 1) == v);
        } else if v == 5 {
            assert(bayer_matrix(3, 3) == v);
        } else if v == 6 {
            assert(bayer_matrix(1, 3) == v);
        } else if v == 7 {
            assert(bayer_matrix(3, 1) == v);
        } else if v == 8 {
            assert(bayer_matrix(0, 1) == v);
        } else if v == 9 {
            assert(bayer_matrix(2, 3) == v);
        } else if v == 10 {
            assert(bayer_matrix(0, 3) == v);
        } else if v == 11 {
            assert(bayer_matrix(2, 1) == v);
        } else if v == 12 {
            assert(bayer_matrix(1, 0) == v);
        } else if v == 13 {
            assert(bayer_matrix(3, 2) == v);
        } else if v == 14 {
            assert(bayer_matrix(1, 2) == v);
        } else {
            assert(bayer_matrix(3, 0) == v);
        }
    }
}

/// The Bayer threshold repeats every four rows and every four columns.
pub proof fn law_bayer_threshold_is_periodic(row: int, col: int)
    ensures
        bayer_threshold(row + 4, col) == bayer_threshold(row, col),
        bayer_threshold(row, col + 4) == bayer_threshold(row, col),
{
    vstd::arithmetic::div_mod::lemma_mod_add_multiples_vanish(row, 4);
    vstd::arithmetic::div_mod::lemma_mod_add_multiples_vanish(col, 4);
}

/// Dithering against random thresholds: a pixel turns white where its luminance exceeds a
/// fresh random number between 0 and 1.
#[derive(Debug, Clone, Copy)]
pub struct WhiteNoiseDithering;

/// Dithering against a tiled blue-noise texture: a pixel turns white where its luminance
/// exceeds the texture's red value, in 255ths, at its position modulo the texture's size.
pub struct BlueNoiseDithering {
    blue_noise: Vec<u8>,
    width: usize,
    height: usize,
}

/// What a blue-noise texture denotes: its red values row by row, and its size.
pub struct BlueNoiseView {
    pub noise: Seq<u8>,
    pub width: nat,
    pub height: nat,
}

/// The red values of a `width` by `height` RGBA image with the samples `rgba`, row by row.
pub open spec fn red_channel(rgba: Seq<u8>, width: nat, height: nat) -> Seq<u8> {
    Seq::new(width * height, |i: int| rgba[4 * i])
}

/// The decoded form of a PNG file as the `png` crate gives it: the samples, the width and the
/// height; `None` where the crate rejects the file.
pub uninterp spec fn png_decoded(bytes: Seq<u8>) -> Option<(Seq<u8>, u32, u32)>;

/// Decodes the first frame of a PNG file with `png::Decoder`. Trusted: the result is the
/// `png` crate's decoding of exactly these bytes (the samples cut to the frame's size);
/// nothing is stated of its layout or length.
#[verifier::external_body]
fn decode_png(bytes: &[u8]) -> (r: Option<(Vec<u8>, u32, u32)>)
    ensures
        r matches Some((data, w, h)) ==> png_decoded(bytes@) == Some((data@, w, h)),
        r is None ==> png_decoded(bytes@) is None,
{
    let decoder = png::Decoder::new(std::io::Cursor::new(bytes));
    let mut reader = decoder.read_info().ok()?;
    let mut buf = vec![0; reader.output_buffer_size()?];
    let info = reader.next_frame(&mut buf).ok()?;
    buf.truncate(info.buffer_size());
    Some((buf, info.width, info.height))
}

/// The threshold, in 255ths, that the texture `d` gives the pixel in row `row` and column
/// `col`: its value at that position modulo its size.
pub open spec fn blue_noise_threshold(d: BlueNoiseView, row: int, col: int) -> u8 {
    d.noise[(row % d.height as int) * d.width + (col % d.width as int)]
}

impl View for BlueNoiseDithering {
    type V = BlueNoiseView;

    closed spec fn view(&self) -> BlueNoiseView {
        BlueNoiseView {
            noise: self.blue_noise@,
            width: self.width as nat,
            height: self.height as nat,
        }
    }
}

impl BlueNoiseDithering {
    /// A texture is usable: it has a positive size and one value per pixel.
    pub closed spec fn wf(&self) -> bool {
        &&& self.width > 0
        &&& self.height > 0
        &&& self.blue_noise@.len() == self.width * self.height
    }

    /// The texture of the red values of a `width` by `height` RGBA image with the samples
    /// `rgba`; `None` where the size is zero or the samples are fewer than four per pixel.
    pub fn from_rgba(rgba: &[u8], width: usize, height: usize) -> (r: Option<Self>)
        ensures
            width > 0 && height > 0 && 4 * width * height <= rgba@.len() <==> r is Some,
            r matches Some(d) ==> d.wf() && d@ == (BlueNoiseView {
                noise: red_channel(rgba@, width as nat, height as nat),
                width: width as nat,
                height: height as nat,
            }),
    {
        if width == 0 || height == 0 {
            return None;
        }
        if width > rgba.len() / 4 / height {
            proof {
                assert(4 * width * height > rgba@.len()) by (nonlinear_arith)
                    requires
                        width > rgba@.len() as int / 4 / height as int,
                        height > 0,
                        width > 0,
                ;
            }
            return None;
        }
        let len = rgba.len();
        proof {
            assert(4 * (width * height) <= len) by (nonlinear_arith)
                requires
                    width <= len as int / 4 / height as int,
                    height > 0,
            ;
            assert(4 * width * height == 4 * (width * height)) by (nonlinear_arith);
        }
        let n = width * height;
        let mut data: Vec<u8> = Vec::new();
        let mut i: usize = 0;
        while i < n
            invariant
                i <= n,
                4 * n <= len,
                len == rgba@.len(),
                data@.len() == i,
                forall|j: int| 0 <= j < i ==> #[trigger] data@[j] == rgba@[4 * j],
            decreases n - i,
        {
            data.push(rgba[4 * i]);
            i = i + 1;
        }
        proof {
            assert(data@ =~= red_channel(rgba@, width as nat, height as nat));
        }
        Some(BlueNoiseDithering { blue_noise: data, width, height })
    }

    /// The texture of the red values of the RGBA PNG image `png_bytes`; `None` where the
    /// image does not decode or has fewer than four samples per pixel.
    pub fn from_png(png_bytes: &[u8]) -> (r: Option<Self>)
        ensures
            r matches Some(d) ==> d.wf() && (png_decoded(png_bytes@) matches Some((data, w, h))
                && d@ == (BlueNoiseView {
                noise: red_channel(data, w as nat, h as nat),
                width: w as nat,
                height: h as nat,
            })),
            png_decoded(png_bytes@) matches Some((data, w, h)) ==> (w > 0 && h > 0 && 4 * w * h
                <= data.len() <==> r is Some),
            png_decoded(png_bytes@) is None ==> r is None,
    {
        match decode_png(png_bytes) {
            None => None,
            Some((data, w, h)) => Self::from_rgba(data.as_slice(), w as usize, h as usize),
        }
    }

    /// The texture's width.
    pub fn width(&self) -> (w: usize)
        ensures
            w == self@.width,
    {
        self.width
    }

    /// The texture's height.
    pub fn height(&self) -> (h: usize)
        ensures
            h == self@.height,
    {
        self.height
    }

    /// The threshold, in 255ths, for the pixel in row `row` and column `col`: the texture
    /// value at that position modulo the texture's size.
    pub fn threshold(&self, row: usize, col: usize) -> (t: u8)
        requires
            self.wf(),
        ensures
            t == blue_noise_threshold(self@, row as int, col as int),
    {
        let r = row % self.height;
        let c = col % self.width;
        let len = self.blue_noise.len();
        proof {
            assert(r * self.width + c < self.width * self.height) by (nonlinear_arith)
                requires
                    r < self.height,
                    c < self.width,
            ;
            assert(r * self.width + c < len);
        }
        self.blue_noise[r * self.width + c]
    }
}

/// The blue-noise threshold repeats with the texture's size.
pub proof fn law_blue_noise_is_periodic(d: BlueNoiseView, row: int, col: int)
    requires
        d.width > 0,
        d.height > 0,
    ensures
        blue_noise_threshold(d, row + d.height, col) == blue_noise_threshold(d, row, col),
        blue_noise_threshold(d, row, col + d.width) == blue_noise_threshold(d, row, col),
{
    vstd::arithmetic::div_mod::lemma_mod_add_multiples_vanish(row, d.height as int);
    vstd::arithmetic::div_mod::lemma_mod_add_multiples_vanish(col, d.width as int);
}

} // verus!
