use vstd::prelude::*;
use image::ImageFormat as CodecFormat;
use image::{ColorType, DynamicImage, ImageError};

verus! {

/// The image formats a conversion can target.
#[derive(Clone, Copy, Debug, PartialEq, Eq, Structural)]
pub enum ImageFormat {
    Png,
    /// Another name for `Jpeg`.
    Jpg,
    Jpeg,
    Gif,
    WebP,
    Pnm,
    Tiff,
    Tga,
    Bmp,
    Ico,
    Hdr,
    /// Another name for `OpenEXR`.
    Exr,
    OpenEXR,
    /// Another name for `Farbfeld`.
    FF,
    Farbfeld,
    Qoi,
    Pcx,
}

/// The format that another name stands for; a format without another name
/// stands for itself.
pub open spec fn canonical_format(f: ImageFormat) -> ImageFormat {
    match f {
        ImageFormat::Jpg => ImageFormat::Jpeg,
        ImageFormat::Exr => ImageFormat::OpenEXR,
        ImageFormat::FF => ImageFormat::Farbfeld,
        _ => f,
    }
}

impl ImageFormat {
    /// The format this one is another name for, or this one.
    pub fn canonical(self) -> (r: ImageFormat)
        ensures
            r == canonical_format(self),
    {
        match self {
            ImageFormat::Jpg => ImageFormat::Jpeg,
            ImageFormat::Exr => ImageFormat::OpenEXR,
            ImageFormat::FF => ImageFormat::Farbfeld,
            _ => self,
        }
    }
}

/// image::ImageFormat, the codec's formats: a fieldless enum, declared with
/// its variants so that conversions can match on them.
#[verifier::external_type_specification]
pub struct ExCodecFormat(CodecFormat);

/// The codec's format for each of ours; another name goes to the format it
/// stands for.
pub open spec fn codec_format_of(f: ImageFormat) -> CodecFormat {
    match canonical_format(f) {
        ImageFormat::Png => CodecFormat::Png,
        ImageFormat::Jpeg => CodecFormat::Jpeg,
        ImageFormat::Gif => CodecFormat::Gif,
        ImageFormat::WebP => CodecFormat::WebP,
        ImageFormat::Pnm => CodecFormat::Pnm,
        ImageFormat::Tiff => CodecFormat::Tiff,
        ImageFormat::Tga => CodecFormat::Tga,
        ImageFormat::Bmp => CodecFormat::Bmp,
        ImageFormat::Ico => CodecFormat::Ico,
        ImageFormat::Hdr => CodecFormat::Hdr,
        ImageFormat::OpenEXR => CodecFormat::OpenExr,
        ImageFormat::Farbfeld => CodecFormat::Farbfeld,
        ImageFormat::Qoi => CodecFormat::Qoi,
        _ => CodecFormat::Pcx,
    }
}

/// Our format for one the codec recognised, by the name it is known under;
/// `None` for those a conversion cannot target.
pub open spec fn format_from_codec(f: CodecFormat) -> Option<ImageFormat> {
    match f {
        CodecFormat::Png => Some(ImageFormat::Png),
        CodecFormat::Jpeg => Some(ImageFormat::Jpeg),
        CodecFormat::Gif => Some(ImageFormat::Gif),
        CodecFormat::WebP => Some(ImageFormat::WebP),
        CodecFormat::Pnm => Some(ImageFormat::Pnm),
        CodecFormat::Tiff => Some(ImageFormat::Tiff),
        CodecFormat::Tga => Some(ImageFormat::Tga),
        CodecFormat::Bmp => Some(ImageFormat::Bmp),
        CodecFormat::Ico => Some(ImageFormat::Ico),
        CodecFormat::Hdr => Some(ImageFormat::Hdr),
        CodecFormat::OpenExr => Some(ImageFormat::OpenEXR),
        CodecFormat::Farbfeld => Some(ImageFormat::Farbfeld),
        CodecFormat::Qoi => Some(ImageFormat::Qoi),
        CodecFormat::Pcx => Some(ImageFormat::Pcx),
        _ => None,
    }
}

/// Converting a recognised format and back is the identity, and a format
/// of ours goes to the codec and back as the name it is known under.
pub proof fn lemma_codec_round_trip(f: CodecFormat, g: ImageFormat)
    ensures
        format_from_codec(f) matches Some(h) ==> codec_format_of(h) == f && canonical_format(h) == h,
        format_from_codec(codec_format_of(g)) == Some(canonical_format(g)),
{
}

impl ImageFormat {
    /// The codec's format for this one.
    pub fn to_codec(self) -> (r: CodecFormat)
        ensures
            r == codec_format_of(self),
    {
        match self.canonical() {
            ImageFormat::Png => CodecFormat::Png,
            ImageFormat::Jpeg => CodecFormat::Jpeg,
            ImageFormat::Gif => CodecFormat::Gif,
            ImageFormat::WebP => CodecFormat::WebP,
            ImageFormat::Pnm => CodecFormat::Pnm,
            ImageFormat::Tiff => CodecFormat::Tiff,
            ImageFormat::Tga => CodecFormat::Tga,
            ImageFormat::Bmp => CodecFormat::Bmp,
            ImageFormat::Ico => CodecFormat::Ico,
            ImageFormat::Hdr => CodecFormat::Hdr,
            ImageFormat::OpenEXR => CodecFormat::OpenExr,
            ImageFormat::Farbfeld => CodecFormat::Farbfeld,
            ImageFormat::Qoi => CodecFormat::Qoi,
            _ => CodecFormat::Pcx,
        }
    }

    /// Our format for one the codec recognised; `None` for those a
    /// conversion cannot target.
    pub fn from_codec(f: CodecFormat) -> (r: Option<ImageFormat>)
        ensures
            r == format_from_codec(f),
    {
        match f {
            CodecFormat::Png => Some(ImageFormat::Png),
            CodecFormat::Jpeg => Some(ImageFormat::Jpeg),
            CodecFormat::Gif => Some(ImageFormat::Gif),
            CodecFormat::WebP => Some(ImageFormat::WebP),
            CodecFormat::Pnm => Some(ImageFormat::Pnm),
            CodecFormat::Tiff => Some(ImageFormat::Tiff),
            CodecFormat::Tga => Some(ImageFormat::Tga),
            CodecFormat::Bmp => Some(ImageFormat::Bmp),
            CodecFormat::Ico => Some(ImageFormat::Ico),
            CodecFormat::Hdr => Some(ImageFormat::Hdr),
            CodecFormat::OpenExr => Some(ImageFormat::OpenEXR),
            CodecFormat::Farbfeld => Some(ImageFormat::Farbfeld),
            CodecFormat::Qoi => Some(ImageFormat::Qoi),
            CodecFormat::Pcx => Some(ImageFormat::Pcx),
            _ => None,
        }
    }
}

/// image::DynamicImage, a decoded image, carried through unopened.
#[verifier::external_type_specification]
#[verifier::external_body]
pub struct ExDynamicImage(DynamicImage);

/// image::ImageError, why decoding failed, carried through unopened.
#[verifier::external_type_specification]
#[verifier::external_body]
pub struct ExImageError(ImageError);

/// image::ColorType, the pixel layout of a decoded image: a fieldless enum,
/// declared with its variants.
#[verifier::external_type_specification]
pub struct ExColorType(ColorType);

/// Bytes in one pixel of each colour type.
pub open spec fn color_bytes(c: ColorType) -> u8 {
    match c {
        ColorType::L8 => 1,
        ColorType::L16 | ColorType::La8 => 2,
        ColorType::Rgb8 => 3,
        ColorType::Rgba8 | ColorType::La16 => 4,
        ColorType::Rgb16 => 6,
        ColorType::Rgba16 => 8,
        ColorType::Rgb32F => 12,
        ColorType::Rgba32F => 16,
        _ => 0,
    }
}

/// Relies on image::ColorType::bytes_per_pixel: the table of `color_bytes`.
pub assume_specification[ ColorType::bytes_per_pixel ](c: ColorType) -> (r: u8)
    ensures
        r == color_bytes(c),
;

/// Relies on image::DynamicImage::width, a plain accessor: nothing is
/// assumed of what it returns.
pub assume_specification[ DynamicImage::width ](img: &DynamicImage) -> u32;

/// Relies on image::DynamicImage::height, a plain accessor.
pub assume_specification[ DynamicImage::height ](img: &DynamicImage) -> u32;

/// Relies on image::DynamicImage::color, a plain accessor.
pub assume_specification[ DynamicImage::color ](img: &DynamicImage) -> ColorType;

/// The format the codec takes the bytes to be in, from their first bytes.
pub uninterp spec fn guessed_format(bytes: Seq<u8>) -> Option<CodecFormat>;

/// Whether the codec decodes the bytes as an image of the format.
pub uninterp spec fn decodes(bytes: Seq<u8>, f: CodecFormat) -> bool;

/// Relies on image::guess_format: a guess from the leading magic bytes,
/// which depends on the bytes alone.
#[verifier::external_body]
fn guess_format(buffer: &[u8]) -> (r: Option<CodecFormat>)
    ensures
        r == guessed_format(buffer@),
{
    image::guess_format(buffer).ok()
}

/// Relies on image::load_from_memory_with_format: decoding the bytes as the
/// format, which succeeds or fails on the bytes and the format alone.
#[verifier::external_body]
fn decode(buffer: &[u8], f: CodecFormat) -> (r: Result<DynamicImage, ImageError>)
    ensures
        r is Ok <==> decodes(buffer@, f),
{
    image::load_from_memory_with_format(buffer, f)
}

/// Relies on image::ImageError's `Display`: the error's text.
#[verifier::external_body]
fn error_text(e: &ImageError) -> String {
    e.to_string()
}

/// A decoded image with what a report shows of it.
pub struct ImageWithMeta {
    pub format: ImageFormat,
    pub width: u32,
    pub height: u32,
    pub color_type: ColorType,
    pub bit_depth: u8,
    pub dynamic_image: DynamicImage,
}

/// A requested output size, as given in `<width>x<height>`, where either
/// side may be left out.
#[derive(Clone, Copy, Debug, PartialEq, Eq, Structural)]
pub enum ImageSize {
    /// Both width and height are given.
    Both(u32, u32),
    /// Only the width is given.
    Width(u32),
    /// Only the height is given.
    Height(u32),
    /// Neither is given.
    Neither,
}

pub open spec fn is_digit(c: char) -> bool {
    '0' <= c && c <= '9'
}

/// The value of a text of decimal digits.
pub open spec fn digits_value(s: Seq<char>) -> nat
    decreases s.len(),
{
    if s.len() == 0 {
        0
    } else {
        digits_value(s.drop_last()) * 10 + (s.last() as nat - '0' as nat) as nat
    }
}

/// The digits of a number text: all but a leading `+`.
pub open spec fn unsigned_digits(s: Seq<char>) -> Seq<char> {
    if s.len() > 0 && s[0] == '+' {
        s.drop_first()
    } else {
        s
    }
}

/// A text read as a decimal `u32`: an optional `+` and at least one digit,
/// nothing else, of a value that fits.
pub open spec fn parsed_u32(s: Seq<char>) -> Option<u32> {
    let d = unsigned_digits(s);
    if d.len() > 0 && (forall|i: int| 0 <= i < d.len() ==> is_digit(#[trigger] d[i]))
        && digits_value(d) <= u32::MAX {
        Some(digits_value(d) as u32)
    } else {
        None
    }
}

/// The size a text asks for: it must hold exactly one `x`; each side of it
/// that reads as a `u32` is given.
pub open spec fn size_of_text(s: Seq<char>) -> ImageSize {
    if exists|k: int| is_sole_x(s, k) {
        let k = choose|k: int| is_sole_x(s, k);
        match (parsed_u32(s.take(k)), parsed_u32(s.skip(k + 1))) {
            (Some(w), Some(h)) => ImageSize::Both(w, h),
            (Some(w), None) => ImageSize::Width(w),
            (None, Some(h)) => ImageSize::Height(h),
            (None, None) => ImageSize::Neither,
        }
    } else {
        ImageSize::Neither
    }
}

/// `a` scaled by `num / den`, rounded down and capped at `u32::MAX`; with
/// `den` zero the ratio is unbounded, so a non-zero product gives the cap.
pub open spec fn scaled(a: u32, num: u32, den: u32) -> u32 {
    if den == 0 {
        if a == 0 || num == 0 {
            0
        } else {
            u32::MAX
        }
    } else if (a as int) * (num as int) / (den as int) > u32::MAX {
        u32::MAX
    } else {
        ((a as int) * (num as int) / (den as int)) as u32
    }
}

/// The output size that `size` asks for of an image of `width` by `height`:
/// a side left out keeps the image's aspect ratio.
pub open spec fn dimensions(size: ImageSize, width: u32, height: u32) -> Option<(u32, u32)> {
    match size {
        ImageSize::Both(w, h) => Some((w, h)),
        ImageSize::Width(w) => Some((w, scaled(w, height, width))),
        ImageSize::Height(h) => Some((scaled(h, width, height), h)),
        ImageSize::Neither => None,
    }
}

/// The text holds exactly one `x`, at `k`.
pub open spec fn is_sole_x(s: Seq<char>, k: int) -> bool {
    0 <= k < s.len() && s[k] == 'x' && (forall|j: int| 0 <= j < s.len() && j != k ==> s[j] != 'x')
}

/// Where the text's only `x` stands; `None` when it holds none or several.
fn sole_x(text: &str) -> (r: Option<usize>)
    ensures
        match r {
            Some(k) => is_sole_x(text@, k as int),
            None => !(exists|k: int| is_sole_x(text@, k)),
        },
{
    let n = text.unicode_len();
    let mut found: Option<usize> = None;
    let mut i: usize = 0;
    while i < n
        invariant
            n == text@.len(),
            i <= n,
            match found {
                Some(k) => k < i && text@[k as int] == 'x' && forall|j: int|
                    0 <= j < i && j != k ==> text@[j] != 'x',
                None => forall|j: int| 0 <= j < i ==> text@[j] != 'x',
            },
        decreases n - i,
    {
        if text.get_char(i) == 'x' {
            if let Some(k) = found {
                proof {
                    assert forall|m: int| !is_sole_x(text@, m) by {
                        if 0 <= m < text@.len() && text@[m] == 'x' {
                            if m == k {
                                assert(text@[i as int] == 'x');
                            } else {
                                assert(text@[k as int] == 'x');
                            }
                        }
                    }
                }
                return None;
            }
            found = Some(i);
        }
        i += 1;
    }
    found
}

proof fn lemma_digits_value_grows(s: Seq<char>, i: int, j: int)
    requires
        0 <= i <= j <= s.len(),
        forall|k: int| 0 <= k < s.len() ==> is_digit(#[trigger] s[k]),
    ensures
        digits_value(s.take(i)) <= digits_value(s.take(j)),
    decreases j - i,
{
    if i < j {
        lemma_digits_value_grows(s, i, j - 1);
        assert(s.take(j).drop_last() =~= s.take(j - 1));
    }
}

/// Reads a decimal `u32` as `str::parse` does: an optional `+`, then at
/// least one digit and nothing else, of a value that fits.
pub fn parse_u32(s: &str) -> (r: Option<u32>)
    ensures
        r == parsed_u32(s@),
{
    let n = s.unicode_len();
    let mut start: usize = 0;
    if n > 0 && s.get_char(0) == '+' {
        start = 1;
    }
    let ghost d = unsigned_digits(s@);
    proof {
        assert(d =~= s@.skip(start as int));
    }
    if start == n {
        return None;
    }
    let mut value: u64 = 0;
    let mut i: usize = start;
    proof {
        assert(d.take(0) =~= Seq::<char>::empty());
    }
    while i < n
        invariant
            n == s@.len(),
            start <= i <= n,
            d == s@.skip(start as int),
            d == unsigned_digits(s@),
            value <= u32::MAX,
            value == digits_value(d.take(i - start)),
            forall|k: int| 0 <= k < i - start ==> is_digit(#[trigger] d[k]),
        decreases n - i,
    {
        let c = s.get_char(i);
        let ghost k = i - start;
        proof {
            assert(d[k] == c);
            assert(d.take(k + 1).drop_last() =~= d.take(k));
            assert(d.take(k + 1).last() == c);
        }
        if !('0' <= c && c <= '9') {
            proof {
                assert(!is_digit(d[k]));
            }
            return None;
        }
        let next = value * 10 + (c as u64 - '0' as u64);
        if next > u32::MAX as u64 {
            proof {
                if forall|m: int| 0 <= m < d.len() ==> is_digit(#[trigger] d[m]) {
                    lemma_digits_value_grows(d, k + 1, d.len() as int);
                    assert(d.take(d.len() as int) =~= d);
                }
            }
            return None;
        }
        value = next;
        i += 1;
    }
    proof {
        assert(d.take(n - start) =~= d);
    }
    Some(value as u32)
}

fn scale(a: u32, num: u32, den: u32) -> (r: u32)
    ensures
        r == scaled(a, num, den),
{
    if den == 0 {
        if a == 0 || num == 0 {
            0
        } else {
            u32::MAX
        }
    } else {
        assert((a as int) * (num as int) <= 0xffff_fffe_0000_0001int) by (nonlinear_arith)
            requires
                a <= u32::MAX,
                num <= u32::MAX,
        ;
        let product: u64 = (a as u64) * (num as u64);
        let q = product / (den as u64);
        if q > u32::MAX as u64 {
            u32::MAX
        } else {
            q as u32
        }
    }
}

impl ImageSize {
    /// The output size this asks for of an image of `width` by `height`: a
    /// side left out is scaled to keep the aspect ratio (rounded down);
    /// `None` when no side is given.
    pub fn to_wh(self, width: u32, height: u32) -> (r: Option<(u32, u32)>)
        ensures
            r == dimensions(self, width, height),
    {
        match self {
            ImageSize::Both(w, h) => Some((w, h)),
            ImageSize::Width(w) => Some((w, scale(w, height, width))),
            ImageSize::Height(h) => Some((scale(h, width, height), h)),
            ImageSize::Neither => None,
        }
    }

    /// Reads a size from `<width>x<height>` text.
    pub fn parse(text: &str) -> (r: ImageSize)
        ensures
            r == size_of_text(text@),
    {
        let n = text.unicode_len();
        let found = sole_x(text);
        let k = match found {
            Some(k) => k,
            None => {
                return ImageSize::Neither;
            },
        };
        let ghost s = text@;
        proof {
            let c = choose|c: int| is_sole_x(s, c);
            assert(s[c] == 'x');
            assert(c == k);
        }
        let w = parse_u32(text.substring_char(0, k));
        let h = parse_u32(text.substring_char(k + 1, n));
        proof {
            assert(s.subrange(0, k as int) =~= s.take(k as int));
            assert(s.subrange(k + 1, n as int) =~= s.skip(k + 1));
        }
        match (w, h) {
            (Some(w), Some(h)) => ImageSize::Both(w, h),
            (Some(w), None) => ImageSize::Width(w),
            (None, Some(h)) => ImageSize::Height(h),
            (None, None) => ImageSize::Neither,
        }
    }
}

impl<'a> From<&'a str> for ImageSize {
    fn from(text: &'a str) -> (r: ImageSize)
        ensures
            r == size_of_text(text@),
    {
        ImageSize::parse(text)
    }
}

impl<'a> vstd::std_specs::convert::FromSpecImpl<&'a str> for ImageSize {
    open spec fn obeys_from_spec() -> bool {
        true
    }

    open spec fn from_spec(text: &'a str) -> ImageSize {
        size_of_text(text@)
    }
}

/// The decimal digits of `n`, without leading zeros.
pub open spec fn decimal(n: nat) -> Seq<char>
    decreases n,
{
    if n < 10 {
        seq!["0123456789"@[n as int]]
    } else {
        decimal(n / 10) + seq!["0123456789"@[(n % 10) as int]]
    }
}

fn push_decimal(text: &mut String, n: u32)
    ensures
        final(text)@ == old(text)@ + decimal(n as nat),
    decreases n,
{
    if n >= 10 {
        push_decimal(text, n / 10);
    }
    let digits = "0123456789";
    proof {
        reveal_strlit("0123456789");
    }
    let d = (n % 10) as usize;
    text.append(digits.substring_char(d, d + 1));
    proof {
        assert(digits@.subrange(d as int, d + 1) =~= seq![digits@[d as int]]);
        if n >= 10 {
            assert(old(text)@ + decimal(n as nat) =~= old(text)@ + decimal((n / 10) as nat) + seq![digits@[d as int]]);
        } else {
            assert(decimal(n as nat) =~= seq![digits@[d as int]]);
        }
    }
}

/// Image conversions.
pub struct ImageImpl;

impl ImageImpl {
    /// Decodes an image: its format is guessed from its first bytes and must
    /// be one a conversion can target; the report gives the pixel size in
    /// bytes as `bit_depth`.
    pub fn parse(buffer: &[u8]) -> (r: Result<ImageWithMeta, String>)
        ensures
            match guessed_format(buffer@) {
                None => r matches Err(m) && m@ == "unknown format"@,
                Some(f) => match format_from_codec(f) {
                    None => r matches Err(m) && m@ == "unsupported format"@,
                    Some(g) => {
                        &&& r is Ok <==> decodes(buffer@, f)
                        &&& r matches Ok(meta) ==> meta.format == g && meta.bit_depth == color_bytes(
                            meta.color_type,
                        )
                    },
                },
            },
    {
        let f = match guess_format(buffer) {
            Some(f) => f,
            None => return Err(String::from_str("unknown format")),
        };
        let format = match ImageFormat::from_codec(f) {
            Some(format) => format,
            None => return Err(String::from_str("unsupported format")),
        };
        match decode(buffer, f) {
            Ok(dynamic_image) => {
                let color_type = dynamic_image.color();
                Ok(
                    ImageWithMeta {
                        format,
                        width: dynamic_image.width(),
                        height: dynamic_image.height(),
                        color_type,
                        bit_depth: color_type.bytes_per_pixel(),
                        dynamic_image,
                    },
                )
            },
            Err(e) => Err(error_text(&e)),
        }
    }

    /// Whether a conversion writes a new image: a target format is given, or
    /// a size with at least one side.
    pub fn needs_output(format: Option<ImageFormat>, size: Option<ImageSize>) -> (r: bool)
        ensures
            r == (format is Some || (size matches Some(s) && s != ImageSize::Neither)),
    {
        match (format, size) {
            (Some(_), _) => true,
            (None, Some(ImageSize::Neither)) => false,
            (None, Some(_)) => true,
            (None, None) => false,
        }
    }

    /// The format a conversion writes: the one asked for, else the source's,
    /// by the name it is known under.
    pub fn target_format(format: Option<ImageFormat>, source: ImageFormat) -> (r: ImageFormat)
        ensures
            r == canonical_format(
                match format {
                    Some(f) => f,
                    None => source,
                },
            ),
    {
        match format {
            Some(f) => f.canonical(),
            None => source.canonical(),
        }
    }

    /// The file name of a resized image, from the source's stem:
    /// `<stem>@<width>x<height>`.
    pub fn resized_file_name(stem: &str, width: u32, height: u32) -> (r: String)
        ensures
            r@ == stem@ + "@"@ + decimal(width as nat) + "x"@ + decimal(height as nat),
    {
        let mut name = String::from_str(stem);
        name.append("@");
        push_decimal(&mut name, width);
        name.append("x");
        push_decimal(&mut name, height);
        name
    }

    /// The size a conversion resizes to, for a source of `width` by
    /// `height`; `None` keeps the source's size.
    pub fn output_size(size: Option<ImageSize>, width: u32, height: u32) -> (r: Option<(u32, u32)>)
        ensures
            r == match size {
                Some(s) => dimensions(s, width, height),
                None => None,
            },
    {
        match size {
            Some(s) => s.to_wh(width, height),
            None => None,
        }
    }
}

} // verus!
