use vstd::prelude::*;

use vstd::string::StringSliceAdditionalSpecFns;

use crate::color::ColorU8;
use crate::error::SceneError;
use crate::text::{is_digit, digit_value, parse_uint_spec, scan_digits};

verus! {

/// The file format of a rendered image.
#[derive(Debug, Clone, Copy, PartialEq, Eq, Structural)]
pub enum ImageType {
    /// Binary portable pixmap (`P6`).
    Ppm,
    /// Portable network graphics, 8-bit RGB.
    Png,
}

/// The decimal digits of `n`, most significant first, without leading zeros.
pub open spec fn decimal(n: nat) -> Seq<char>
    decreases n,
{
    if n < 10 {
        seq![(n + '0' as nat) as char]
    } else {
        decimal(n / 10).push(((n % 10) + '0' as nat) as char)
    }
}

/// The ASCII bytes of a text made of ASCII characters.
pub open spec fn ascii_bytes(s: Seq<char>) -> Seq<u8> {
    s.map_values(|c: char| c as u8)
}

/// The bytes of a binary portable pixmap of `width` by `height` pixels with the samples
/// `pixels`: the header `P6`, the size and the largest sample value 255, each on a line of its
/// own, then the samples.
pub open spec fn ppm_bytes(width: u16, height: u16, pixels: Seq<u8>) -> Seq<u8> {
    ascii_bytes("P6\n"@ + decimal(width as nat) + " "@ + decimal(height as nat) + "\n255\n"@)
        + pixels
}

/// The decimal digits of `n` as ASCII bytes.
pub fn decimal_bytes(n: u32) -> (r: Vec<u8>)
    ensures
        r@ == ascii_bytes(decimal(n as nat)),
    decreases n,
{
    if n < 10 {
        let mut v: Vec<u8> = Vec::new();
        v.push(n as u8 + 48);
        proof {
            assert(v@ =~= ascii_bytes(decimal(n as nat)));
        }
        v
    } else {
        let mut v = decimal_bytes(n / 10);
        v.push((n % 10) as u8 + 48);
        proof {
            assert(v@ =~= ascii_bytes(decimal(n as nat)));
        }
        v
    }
}

fn push_ascii(out: &mut Vec<u8>, s: &str)
    requires
        vstd::string::is_ascii(s),
    ensures
        final(out)@ == old(out)@ + ascii_bytes(s@),
{
    let bytes = s.as_bytes();
    proof {
        vstd::string::is_ascii_spec_bytes(s);
    }
    let mut i: usize = 0;
    while i < bytes.len()
        invariant
            i <= bytes@.len(),
            bytes@ == s.spec_bytes(),
            bytes@.len() == s@.len(),
            forall|j: int| 0 <= j < s@.len() ==> #[trigger] bytes@[j] == s@[j] as u8,
            out@ == old(out)@ + ascii_bytes(s@.take(i as int)),
        decreases bytes@.len() - i,
    {
        out.push(bytes[i]);
        i = i + 1;
        proof {
            assert(ascii_bytes(s@.take(i as int)) =~= ascii_bytes(s@.take(i - 1)).push(
                s@[i - 1] as u8,
            ));
        }
    }
    proof {
        assert(s@.take(s@.len() as int) == s@);
    }
}

fn append_bytes(out: &mut Vec<u8>, bytes: &[u8])
    ensures
        final(out)@ == old(out)@ + bytes@,
{
    let mut i: usize = 0;
    while i < bytes.len()
        invariant
            i <= bytes@.len(),
            out@ == old(out)@ + bytes@.take(i as int),
        decreases bytes@.len() - i,
    {
        out.push(bytes[i]);
        i = i + 1;
        proof {
            assert(bytes@.take(i as int) == bytes@.take(i - 1).push(bytes@[i - 1]));
        }
    }
    proof {
        assert(bytes@.take(bytes@.len() as int) == bytes@);
    }
}

/// The binary portable pixmap of `width` by `height` pixels with the samples `pixels`.
pub fn encode_ppm(width: u16, height: u16, pixels: &[u8]) -> (r: Vec<u8>)
    ensures
        r@ == ppm_bytes(width, height, pixels@),
{
    let mut out: Vec<u8> = Vec::new();
    proof {
        reveal_strlit("P6\n");
        reveal_strlit(" ");
        reveal_strlit("\n255\n");
    }
    push_ascii(&mut out, "P6\n");
    let w = decimal_bytes(width as u32);
    append_bytes(&mut out, w.as_slice());
    push_ascii(&mut out, " ");
    let h = decimal_bytes(height as u32);
    append_bytes(&mut out, h.as_slice());
    push_ascii(&mut out, "\n255\n");
    append_bytes(&mut out, pixels);
    proof {
        let parts = "P6\n"@ + decimal(width as nat) + " "@ + decimal(height as nat) + "\n255\n"@;
        assert(ascii_bytes(parts) =~= ascii_bytes("P6\n"@) + ascii_bytes(decimal(width as nat))
            + ascii_bytes(" "@) + ascii_bytes(decimal(height as nat)) + ascii_bytes("\n255\n"@));
    }
    out
}

/// The samples of the colors `colors`, red, green and blue of each in turn.
pub open spec fn color_samples(colors: Seq<ColorU8>) -> Seq<u8> {
    Seq::new(
        3 * colors.len(),
        |i: int|
            if i % 3 == 0 {
                colors[i / 3].red
            } else if i % 3 == 1 {
                colors[i / 3].green
            } else {
                colors[i / 3].blue
            },
    )
}

/// The samples of `colors`, three per color; see `color_samples`.
pub fn samples_of(colors: &[ColorU8]) -> (r: Vec<u8>)
    requires
        3 * colors@.len() <= usize::MAX,
    ensures
        r@ == color_samples(colors@),
{
    let mut out: Vec<u8> = Vec::new();
    let mut i: usize = 0;
    while i < colors.len()
        invariant
            i <= colors@.len(),
            3 * colors@.len() <= usize::MAX,
            out@.len() == 3 * i,
            forall|j: int| 0 <= j < 3 * i ==> #[trigger] out@[j] == color_samples(colors@)[j],
        decreases colors@.len() - i,
    {
        let c = colors[i];
        out.push(c.red);
        out.push(c.green);
        out.push(c.blue);
        proof {
            assert forall|j: int| 0 <= j < 3 * (i + 1) implies #[trigger] out@[j] == color_samples(
                colors@,
            )[j] by {
                if j >= 3 * i {
                    assert(j / 3 == i as int);
                }
            }
        }
        i = i + 1;
    }
    proof {
        assert(out@ =~= color_samples(colors@));
    }
    out
}

/// The PNG file that the `png` crate writes for an 8-bit RGB image of `width` by `height`
/// pixels with the samples `data`, unfiltered and uncompressed.
pub uninterp spec fn png_rgb8_encoding(width: u16, height: u16, data: Seq<u8>) -> Seq<u8>;

/// Encodes an 8-bit RGB image as PNG with `png::Encoder`, without filtering or compression.
/// Trusted: a success holds the `png` crate's encoding of exactly these arguments. The encoder
/// refuses a zero width or height and a sample count other than three per pixel, and nothing
/// else: the header, the stored-only compression and the end chunk write into a `Vec`, which
/// cannot fail. The image size must fit in `usize`, where the encoder computes it.
#[verifier::external_body]
fn encode_png_rgb8(width: u16, height: u16, data: &[u8]) -> (r: Result<Vec<u8>, png::EncodingError>)
    requires
        3 * width * height <= usize::MAX,
    ensures
        r matches Ok(bytes) ==> bytes@ == png_rgb8_encoding(width, height, data@),
        width == 0 || height == 0 || data@.len() != 3 * width * height ==> r is Err,
        width > 0 && height > 0 && data@.len() == 3 * width * height ==> r is Ok,
{
    let mut out: Vec<u8> = Vec::new();
    let mut encoder = png::Encoder::new(&mut out, width as u32, height as u32);
    encoder.set_color(png::ColorType::Rgb);
    encoder.set_depth(png::BitDepth::Eight);
    encoder.set_compression(png::Compression::NoCompression);
    encoder.set_filter(png::Filter::NoFilter);
    let mut writer = encoder.write_header()?;
    writer.write_image_data(data)?;
    writer.finish()?;
    Ok(out)
}

/// The image file of the given type for `width` by `height` pixels with the samples `pixels`.
/// A portable pixmap always succeeds; a PNG succeeds exactly where the size is positive and
/// there are three samples per pixel, and fails with the encoder's error otherwise.
pub fn encode_image(img_type: ImageType, width: u16, height: u16, pixels: &[u8]) -> (r: Result<
    Vec<u8>,
    SceneError,
>)
    requires
        3 * width * height <= usize::MAX,
    ensures
        img_type == ImageType::Ppm ==> (r matches Ok(bytes) && bytes@ == ppm_bytes(
            width,
            height,
            pixels@,
        )),
        img_type == ImageType::Png ==> (r matches Ok(bytes) ==> bytes@ == png_rgb8_encoding(
            width,
            height,
            pixels@,
        )),
        img_type == ImageType::Png ==> (r is Err ==> r matches Err(SceneError::PngEncoding(_))),
        img_type == ImageType::Png && (width == 0 || height == 0 || pixels@.len() != 3 * width
            * height) ==> r is Err,
        img_type == ImageType::Png && width > 0 && height > 0 && pixels@.len() == 3 * width
            * height ==> r is Ok,
{
    match img_type {
        ImageType::Ppm => Ok(encode_ppm(width, height, pixels)),
        ImageType::Png => match encode_png_rgb8(width, height, pixels) {
            Ok(bytes) => Ok(bytes),
            Err(e) => Err(SceneError::PngEncoding(e)),
        },
    }
}

/// The digits of a number read back give the number: the size in a pixmap header reads back
/// as the size that was written.
pub proof fn law_decimal_reads_back(n: nat, max: int)
    requires
        n <= max,
    ensures
        parse_uint_spec(decimal(n), max) == Ok::<int, crate::text::IntErrorKind>(n as int),
{
    lemma_decimal_scans(n, max);
    lemma_decimal_first_is_digit(n);
}

proof fn lemma_decimal_first_is_digit(n: nat)
    ensures
        decimal(n).len() >= 1,
        is_digit(decimal(n)[0]),
    decreases n,
{
    if n >= 10 {
        lemma_decimal_first_is_digit(n / 10);
    }
}

proof fn lemma_decimal_scans(n: nat, max: int)
    requires
        n <= max,
    ensures
        scan_digits(decimal(n), max) == Ok::<int, crate::text::IntErrorKind>(n as int),
    decreases n,
{
    let d = decimal(n);
    if n < 10 {
        assert(d.drop_last() == Seq::<char>::empty());
        let c = (n + '0' as nat) as char;
        assert(d.last() == c);
        assert(c as int == n + 48);
        assert(is_digit(c));
        assert(digit_value(d.last()) == n);
        assert(scan_digits(d.drop_last(), max) == Ok::<int, crate::text::IntErrorKind>(0));
    } else {
        lemma_decimal_scans(n / 10, max);
        assert(d.drop_last() == decimal(n / 10));
        let c = ((n % 10) + '0' as nat) as char;
        assert(d.last() == c);
        assert(c as int == (n % 10) + 48);
        assert(is_digit(c));
        assert(digit_value(c) == n % 10);
        assert((n / 10) * 10 + n % 10 == n);
        assert(scan_digits(d.drop_last(), max) == Ok::<int, crate::text::IntErrorKind>(
            (n / 10) as int,
        ));
    }
}

} // verus!
