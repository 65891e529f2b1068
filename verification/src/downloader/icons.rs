use vstd::prelude::*;
use usvg::TreeParsing;
use crate::text::{append_chars, chars_of, decimal, decimal_of, string_of};

verus! {

broadcast use vstd::string::group_string_axioms;

/// Width and height to which large icons are scaled down.
pub const ICON_CONVERT_TO_WIDTH: u32 = 48;
/// Size above which an icon is reported as big.
pub const ICON_WARNING_SIZE_BYTES: usize = 20000;

/// The image format of downloaded icon bytes.
#[derive(Clone, Copy, Debug, PartialEq, Eq, Structural)]
pub enum IconKind {
    /// Not determined (yet).
    Unchecked,
    TooSmall,
    Ico,
    Png,
    Jpg,
    Gif,
    Webp,
    Bmp,
    Svg,
    /// Every format was tried, none fits.
    AnalyseDoneUnknown,
}

/// Outcomes of checking bytes for one image format, as bit values.
#[derive(Clone, Copy, Debug, PartialEq, Eq, Structural)]
pub enum IsIconResult {
    IsIcon,
    TooSmall,
    NotIco,
    NotPng,
    NotBmp,
    NotJpg,
    NotSvg,
    NotWebp,
    IsWebp,
}

/// The bit value of an outcome.
pub open spec fn is_icon_code(r: IsIconResult) -> u8 {
    match r {
        IsIconResult::IsIcon => 0,
        IsIconResult::TooSmall => 1,
        IsIconResult::NotIco => 2,
        IsIconResult::NotPng => 4,
        IsIconResult::NotBmp => 8,
        IsIconResult::NotJpg => 16,
        IsIconResult::NotSvg => 32,
        IsIconResult::NotWebp => 64,
        IsIconResult::IsWebp => 128,
    }
}

impl IsIconResult {
    /// The bit value of this outcome.
    pub fn code(&self) -> (r: u8)
        ensures
            r == is_icon_code(*self),
    {
        match self {
            IsIconResult::IsIcon => 0,
            IsIconResult::TooSmall => 1,
            IsIconResult::NotIco => 2,
            IsIconResult::NotPng => 4,
            IsIconResult::NotBmp => 8,
            IsIconResult::NotJpg => 16,
            IsIconResult::NotSvg => 32,
            IsIconResult::NotWebp => 64,
            IsIconResult::IsWebp => 128,
        }
    }
}

/// What a check of icon bytes found: the format, the size of the image where the decoder
/// gives it, why formats did not fit, and whether an ICO holds a PNG image.
#[derive(Debug)]
pub struct IconAnalyseResult {
    pub kind: IconKind,
    pub width_orig: u32,
    pub height_orig: u32,
    pub message: String,
    pub icon_disguised_as_png: bool,
}

/// The values of an analysis: format, width, height, message, ICO holding a PNG.
pub type Analysis = (IconKind, u32, u32, Seq<char>, bool);

/// The values of a result, for comparison with an `Analysis`.
pub open spec fn analysis_of(r: IconAnalyseResult) -> Analysis {
    (r.kind, r.width_orig, r.height_orig, r.message@, r.icon_disguised_as_png)
}

impl Default for IconAnalyseResult {
    /// Not determined, no size, no message.
    fn default() -> (r: IconAnalyseResult)
        ensures
            analysis_of(r) == (IconKind::Unchecked, 0u32, 0u32, Seq::<char>::empty(), false),
    {
        IconAnalyseResult {
            kind: IconKind::Unchecked,
            width_orig: 0,
            height_orig: 0,
            message: String::new(),
            icon_disguised_as_png: false,
        }
    }
}

impl IconAnalyseResult {
    /// A result of the given format, with no size and no message.
    pub fn new(k: IconKind) -> (r: IconAnalyseResult)
        ensures
            analysis_of(r) == (k, 0u32, 0u32, Seq::<char>::empty(), false),
    {
        IconAnalyseResult { kind: k, width_orig: 0, height_orig: 0, message: String::new(), icon_disguised_as_png: false }
    }

    /// A result of the given format with a message.
    pub fn with_msg(k: IconKind, msg: String) -> (r: IconAnalyseResult)
        ensures
            analysis_of(r) == (k, 0u32, 0u32, msg@, false),
    {
        IconAnalyseResult { kind: k, width_orig: 0, height_orig: 0, message: msg, icon_disguised_as_png: false }
    }
}

/// What the ICO reader (`ico::IconDir::read`) makes of the bytes: the width, height and
/// PNG flag of the first image (none where it holds no image), or its error as `Display`
/// prints it.
pub uninterp spec fn ico_read(bytes: Seq<u8>) -> Result<Option<(u32, u32, bool)>, Seq<char>>;

/// What the PNG decoder (`png::Decoder::read_info`, then `next_frame`) makes of the bytes:
/// the size of the first frame (none where that frame does not decode), or its error as
/// `Display` prints it.
pub uninterp spec fn png_read(bytes: Seq<u8>) -> Result<Option<(u32, u32)>, Seq<char>>;

/// The error of the JPEG decoder (`jpeg_decoder::Decoder::decode`) as `Display` prints it,
/// none where the bytes decode.
pub uninterp spec fn jpg_error(bytes: Seq<u8>) -> Option<Seq<char>>;

/// What the GIF decoder (`gif::DecodeOptions::read_info`, then `read_next_frame`) makes
/// of the bytes: whether the first frame reads, or its error as `Debug` prints it.
pub uninterp spec fn gif_read(bytes: Seq<u8>) -> Result<bool, Seq<char>>;

/// The error of the WebP loader (`libwebp_image::webp_load_from_memory`) as `Debug` prints
/// it, none where the bytes load.
pub uninterp spec fn webp_error(bytes: Seq<u8>) -> Option<Seq<char>>;

/// The error of the BMP reader (`bmp::from_reader`) as `Debug` prints it, none where the
/// bytes read.
pub uninterp spec fn bmp_error(bytes: Seq<u8>) -> Option<Seq<char>>;

/// The error of the SVG parser (`usvg::Tree::from_data`) as `Debug` prints it, none where
/// the bytes parse.
pub uninterp spec fn svg_error(bytes: Seq<u8>) -> Option<Seq<char>>;

/// Reads the bytes as ICO (`ico::IconDir::read`); on success the width, height and PNG
/// flag of the first entry. The result is named by `ico_read`.
#[verifier::external_body]
fn probe_ico(bytes: &[u8]) -> (r: Result<Option<(u32, u32, bool)>, String>)
    ensures
        match r {
            Ok(x) => ico_read(bytes@) == Ok::<Option<(u32, u32, bool)>, Seq<char>>(x),
            Err(m) => ico_read(bytes@) == Err::<Option<(u32, u32, bool)>, Seq<char>>(m@),
        },
{
    match ico::IconDir::read(std::io::Cursor::new(bytes)) {
        Ok(dir) => Ok(dir.entries().first().map(|e| (e.width(), e.height(), e.is_png()))),
        Err(e) => Err(format!("{e}")),
    }
}

/// Reads the bytes as PNG (`png::Decoder::read_info`, then `next_frame` into a buffer of
/// `output_buffer_size`); on success the size of the first frame where it decodes. The
/// result is named by `png_read`.
#[verifier::external_body]
fn probe_png(bytes: &[u8]) -> (r: Result<Option<(u32, u32)>, String>)
    ensures
        match r {
            Ok(x) => png_read(bytes@) == Ok::<Option<(u32, u32)>, Seq<char>>(x),
            Err(m) => png_read(bytes@) == Err::<Option<(u32, u32)>, Seq<char>>(m@),
        },
{
    match png::Decoder::new(std::io::Cursor::new(bytes)).read_info() {
        Ok(mut reader) => {
            let mut buf = vec![0; reader.output_buffer_size()];
            Ok(reader.next_frame(&mut buf).ok().map(|info| (info.width, info.height)))
        },
        Err(e) => Err(format!("{e}")),
    }
}

/// Decodes the bytes as JPEG (`jpeg_decoder::Decoder::decode`); the error text, if any.
/// Named by `jpg_error`.
#[verifier::external_body]
fn probe_jpg(bytes: &[u8]) -> (r: Option<String>)
    ensures
        match r {
            Some(m) => jpg_error(bytes@) == Some(m@),
            None => jpg_error(bytes@) is None,
        },
{
    match jpeg_decoder::Decoder::new(std::io::Cursor::new(bytes)).decode() {
        Ok(_) => None,
        Err(e) => Some(format!("{e}")),
    }
}

/// Reads the bytes as GIF (`gif::DecodeOptions::read_info`, then `read_next_frame`):
/// whether the first frame reads, or the error text. Named by `gif_read`.
#[verifier::external_body]
fn probe_gif(bytes: &[u8]) -> (r: Result<bool, String>)
    ensures
        match r {
            Ok(b) => gif_read(bytes@) == Ok::<bool, Seq<char>>(b),
            Err(m) => gif_read(bytes@) == Err::<bool, Seq<char>>(m@),
        },
{
    match gif::DecodeOptions::new().read_info(std::io::Cursor::new(bytes)) {
        Ok(mut decoder) => Ok(decoder.read_next_frame().is_ok()),
        Err(e) => Err(format!("{e:?}")),
    }
}

/// Loads the bytes as WebP (`libwebp_image::webp_load_from_memory`); the error text, if
/// any. Named by `webp_error`.
#[verifier::external_body]
fn probe_webp(bytes: &[u8]) -> (r: Option<String>)
    ensures
        match r {
            Some(m) => webp_error(bytes@) == Some(m@),
            None => webp_error(bytes@) is None,
        },
{
    match libwebp_image::webp_load_from_memory(bytes) {
        Ok(_) => None,
        Err(e) => Some(format!("{e:?}")),
    }
}

/// Reads the bytes as BMP (`bmp::from_reader`); the error text, if any. Named by
/// `bmp_error`.
#[verifier::external_body]
fn probe_bmp(bytes: &[u8]) -> (r: Option<String>)
    ensures
        match r {
            Some(m) => bmp_error(bytes@) == Some(m@),
            None => bmp_error(bytes@) is None,
        },
{
    match bmp::from_reader(&mut std::io::Cursor::new(bytes)) {
        Ok(_) => None,
        Err(e) => Some(format!("{e:?}")),
    }
}

/// Parses the bytes as SVG (`usvg::Tree::from_data` with default options); the error
/// text, if any. Named by `svg_error`.
#[verifier::external_body]
fn probe_svg(bytes: &[u8]) -> (r: Option<String>)
    ensures
        match r {
            Some(m) => svg_error(bytes@) == Some(m@),
            None => svg_error(bytes@) is None,
        },
{
    match usvg::Tree::from_data(bytes, &usvg::Options::default()) {
        Ok(_) => None,
        Err(e) => Some(format!("{e:?}")),
    }
}

/// The check by size: fewer than 10 bytes are too small.
pub open spec fn by_size(bytes: Seq<u8>) -> Analysis {
    if bytes.len() < 10 {
        (IconKind::TooSmall, 0u32, 0u32, "too small, length:"@ + decimal(bytes.len()) + " "@, false)
    } else {
        (IconKind::Unchecked, 0u32, 0u32, Seq::<char>::empty(), false)
    }
}

/// The check for one format: its kind where the decoder accepts the bytes, else no kind
/// and the decoder's error after the format's prefix (as `not_jpg: `).
pub open spec fn simple_check(kind: IconKind, prefix: Seq<char>, err: Option<Seq<char>>) -> Analysis {
    match err {
        None => (kind, 0u32, 0u32, Seq::<char>::empty(), false),
        Some(m) => (IconKind::Unchecked, 0u32, 0u32, prefix + m, false),
    }
}

/// The checks in the order they are tried: size, JPEG, PNG, ICO, GIF, WebP, BMP, SVG
/// (some ICO files hold a PNG, so PNG goes first).
pub open spec fn check(k: int, bytes: Seq<u8>) -> Analysis {
    if k == 0 {
        by_size(bytes)
    } else if k == 1 {
        simple_check(IconKind::Jpg, "not_jpg: "@, jpg_error(bytes))
    } else if k == 2 {
        match png_read(bytes) {
            Ok(Some((w, h))) => (IconKind::Png, w, h, Seq::<char>::empty(), false),
            Ok(None) => (IconKind::Png, 0u32, 0u32, Seq::<char>::empty(), false),
            Err(m) => (IconKind::Unchecked, 0u32, 0u32, "not_png: "@ + m, false),
        }
    } else if k == 3 {
        match ico_read(bytes) {
            Ok(Some((w, h, p))) => (IconKind::Ico, w, h, Seq::<char>::empty(), p),
            Ok(None) => (IconKind::Ico, 0u32, 0u32, Seq::<char>::empty(), false),
            Err(m) => (IconKind::Unchecked, 0u32, 0u32, "not_ico: "@ + m, false),
        }
    } else if k == 4 {
        match gif_read(bytes) {
            Ok(true) => (IconKind::Gif, 0u32, 0u32, Seq::<char>::empty(), false),
            Ok(false) => (IconKind::Unchecked, 0u32, 0u32, Seq::<char>::empty(), false),
            Err(m) => (IconKind::Unchecked, 0u32, 0u32, "not_gif: "@ + m, false),
        }
    } else if k == 5 {
        simple_check(IconKind::Webp, "not_webp: "@, webp_error(bytes))
    } else if k == 6 {
        simple_check(IconKind::Bmp, "not_bmp: "@, bmp_error(bytes))
    } else {
        simple_check(IconKind::Svg, "not_svg: "@, svg_error(bytes))
    }
}

/// The messages of the first `k` checks, each followed by a space but the last.
pub open spec fn joined_messages(k: int, bytes: Seq<u8>) -> Seq<char>
    decreases k,
{
    if k <= 0 {
        Seq::empty()
    } else if k == 1 {
        check(0, bytes).3
    } else {
        joined_messages(k - 1, bytes) + " "@ + check(k - 1, bytes).3
    }
}

/// The first check of `k` onwards that names a format, if any.
pub open spec fn first_found(k: int, bytes: Seq<u8>) -> Option<int>
    decreases 8 - k,
{
    if k >= 8 {
        None
    } else if check(k, bytes).0 != IconKind::Unchecked {
        Some(k)
    } else {
        first_found(k + 1, bytes)
    }
}

/// What the analysis of icon bytes gives: the result of the first check that names a
/// format; where none does, "unknown" with the messages of all checks.
pub open spec fn icon_analysis(bytes: Seq<u8>) -> Analysis {
    match first_found(0, bytes) {
        Some(k) => check(k, bytes),
        None => (IconKind::AnalyseDoneUnknown, 0u32, 0u32, joined_messages(8, bytes), false),
    }
}

/// A decoder's error after the prefix that names the format.
fn prefixed(prefix: &str, m: String) -> (r: String)
    ensures
        r@ == prefix@ + m@,
{
    let mut v = chars_of(prefix);
    append_chars(&mut v, &chars_of(m.as_str()));
    string_of(&v)
}

/// Runs the check number `k`.
fn run_check(k: usize, bytes: &[u8]) -> (r: IconAnalyseResult)
    requires
        k < 8,
    ensures
        analysis_of(r) == check(k as int, bytes@),
{
    if k == 0 {
        if bytes.len() < 10 {
            let mut m = chars_of("too small, length:");
            let d = decimal_of(bytes.len() as u64);
            append_chars(&mut m, &d);
            let sp = chars_of(" ");
            append_chars(&mut m, &sp);
            proof {
                reveal_strlit("too small, length:");
                reveal_strlit(" ");
            }
            return IconAnalyseResult::with_msg(IconKind::TooSmall, string_of(&m));
        }
        return IconAnalyseResult::default();
    } else if k == 1 {
        match probe_jpg(bytes) {
            None => IconAnalyseResult::new(IconKind::Jpg),
            Some(m) => IconAnalyseResult::with_msg(IconKind::Unchecked, prefixed("not_jpg: ", m)),
        }
    } else if k == 2 {
        match probe_png(bytes) {
            Ok(Some((w, h))) => IconAnalyseResult { kind: IconKind::Png, width_orig: w, height_orig: h, message: String::new(), icon_disguised_as_png: false },
            Ok(None) => IconAnalyseResult::new(IconKind::Png),
            Err(m) => IconAnalyseResult::with_msg(IconKind::Unchecked, prefixed("not_png: ", m)),
        }
    } else if k == 3 {
        match probe_ico(bytes) {
            Ok(Some((w, h, p))) => IconAnalyseResult { kind: IconKind::Ico, width_orig: w, height_orig: h, message: String::new(), icon_disguised_as_png: p },
            Ok(None) => IconAnalyseResult::new(IconKind::Ico),
            Err(m) => IconAnalyseResult::with_msg(IconKind::Unchecked, prefixed("not_ico: ", m)),
        }
    } else if k == 4 {
        match probe_gif(bytes) {
            Ok(true) => IconAnalyseResult::new(IconKind::Gif),
            Ok(false) => IconAnalyseResult::default(),
            Err(m) => IconAnalyseResult::with_msg(IconKind::Unchecked, prefixed("not_gif: ", m)),
        }
    } else if k == 5 {
        match probe_webp(bytes) {
            None => IconAnalyseResult::new(IconKind::Webp),
            Some(m) => IconAnalyseResult::with_msg(IconKind::Unchecked, prefixed("not_webp: ", m)),
        }
    } else if k == 6 {
        match probe_bmp(bytes) {
            None => IconAnalyseResult::new(IconKind::Bmp),
            Some(m) => IconAnalyseResult::with_msg(IconKind::Unchecked, prefixed("not_bmp: ", m)),
        }
    } else {
        match probe_svg(bytes) {
            None => IconAnalyseResult::new(IconKind::Svg),
            Some(m) => IconAnalyseResult::with_msg(IconKind::Unchecked, prefixed("not_svg: ", m)),
        }
    }
}

/// Finds the image format of icon bytes by trying the decoders in turn (see
/// `icon_analysis`).
pub fn icon_analyser(vec_u8: &[u8]) -> (r: IconAnalyseResult)
    ensures
        analysis_of(r) == icon_analysis(vec_u8@),
{
    let mut msgs: Vec<char> = Vec::new();
    let mut k: usize = 0;
    while k < 8
        invariant
            k <= 8,
            first_found(0, vec_u8@) == first_found(k as int, vec_u8@),
            msgs@ == joined_messages(k as int, vec_u8@),
        decreases 8 - k,
    {
        let r = run_check(k, vec_u8);
        if r.kind != IconKind::Unchecked {
            return r;
        }
        if k > 0 {
            msgs.push(' ');
        }
        let m = chars_of(r.message.as_str());
        append_chars(&mut msgs, &m);
        proof {
            reveal_strlit(" ");
            if k > 0 {
                assert(msgs@ =~= joined_messages(k as int, vec_u8@) + " "@ + check(k as int, vec_u8@).3);
            } else {
                assert(msgs@ =~= check(0, vec_u8@).3);
            }
        }
        k = k + 1;
    }
    IconAnalyseResult::with_msg(IconKind::AnalyseDoneUnknown, string_of(&msgs))
}

/// Whether an analysed icon is to be scaled down: wider or higher than the target, larger
/// than `size_limit_bytes`, WebP, or an ICO holding a PNG; never where the format is
/// unknown.
pub fn decide_downscale(length: usize, an_res: &IconAnalyseResult, size_limit_bytes: usize) -> (r: bool)
    ensures
        r == ((an_res.width_orig > ICON_CONVERT_TO_WIDTH || an_res.height_orig > ICON_CONVERT_TO_WIDTH
            || length > size_limit_bytes || an_res.kind == IconKind::Webp || an_res.icon_disguised_as_png)
            && an_res.kind != IconKind::AnalyseDoneUnknown),
{
    (an_res.width_orig > ICON_CONVERT_TO_WIDTH || an_res.height_orig > ICON_CONVERT_TO_WIDTH
        || length > size_limit_bytes || an_res.kind == IconKind::Webp || an_res.icon_disguised_as_png)
        && an_res.kind != IconKind::AnalyseDoneUnknown
}

} // verus!
