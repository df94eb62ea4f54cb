//! Screenshot formats and the manager that owns the output directory.

use vstd::prelude::*;
use vstd::string::StringExecFns;
use base64::Engine;

verus! {

/// Declares `std::path::PathBuf` so that it can stand in fields; its contents are opaque.
#[verifier::external_type_specification]
#[verifier::external_body]
pub struct ExPathBuf(std::path::PathBuf);

/// Image formats a screenshot can be encoded in.
#[derive(Debug, Clone, Copy, PartialEq, Eq, Structural, Default)]
pub enum ScreenshotFormat {
    #[default]
    Png,
    Jpeg,
    WebP,
}

/// File extension of a format.
pub open spec fn extension_of(f: ScreenshotFormat) -> Seq<char> {
    match f {
        ScreenshotFormat::Png => seq!['p', 'n', 'g'],
        ScreenshotFormat::Jpeg => seq!['j', 'p', 'g'],
        ScreenshotFormat::WebP => seq!['w', 'e', 'b', 'p'],
    }
}

/// MIME type of a format.
pub open spec fn mime_type_of(f: ScreenshotFormat) -> Seq<char> {
    match f {
        ScreenshotFormat::Png => "image/png"@,
        ScreenshotFormat::Jpeg => "image/jpeg"@,
        ScreenshotFormat::WebP => "image/webp"@,
    }
}

impl ScreenshotFormat {
    /// File extension for the format, without the dot.
    pub fn extension(&self) -> (r: &'static str)
        ensures
            r@ == extension_of(*self),
    {
        match self {
            ScreenshotFormat::Png => {
                proof { reveal_strlit("png"); }
                "png"
            },
            ScreenshotFormat::Jpeg => {
                proof { reveal_strlit("jpg"); }
                "jpg"
            },
            ScreenshotFormat::WebP => {
                proof { reveal_strlit("webp"); }
                "webp"
            },
        }
    }

    /// MIME type for the format.
    pub fn mime_type(&self) -> (r: &'static str)
        ensures
            r@ == mime_type_of(*self),
    {
        match self {
            ScreenshotFormat::Png => "image/png",
            ScreenshotFormat::Jpeg => "image/jpeg",
            ScreenshotFormat::WebP => "image/webp",
        }
    }
}

/// A rectangle of the page to capture, in CSS pixels.
#[derive(Debug, Clone, Copy, PartialEq, Eq, Structural)]
pub struct ScreenshotClip {
    pub x: u32,
    pub y: u32,
    pub width: u32,
    pub height: u32,
}

/// How to capture a screenshot.
#[derive(Debug, Clone, Copy, PartialEq, Eq, Structural)]
pub struct ScreenshotOptions {
    pub format: ScreenshotFormat,
    /// Encoding quality from 0 to 100, for JPEG and WebP.
    pub quality: u8,
    pub full_page: bool,
    pub clip: Option<ScreenshotClip>,
    pub omit_background: bool,
}

impl Default for ScreenshotOptions {
    /// PNG at quality 90 of the viewport, unclipped, with its background.
    fn default() -> (r: Self)
        ensures
            r == (ScreenshotOptions {
                format: ScreenshotFormat::Png,
                quality: 90,
                full_page: false,
                clip: None,
                omit_background: false,
            }),
    {
        ScreenshotOptions {
            format: ScreenshotFormat::Png,
            quality: 90,
            full_page: false,
            clip: None,
            omit_background: false,
        }
    }
}

/// Standard, padded Base64 text of some bytes.
pub uninterp spec fn base64_of(b: Seq<u8>) -> Seq<char>;

/// Length of the padded Base64 text of `n` bytes: four characters per started group of three.
pub open spec fn base64_len(n: nat) -> nat {
    4 * ((n + 2) / 3)
}

/// Relies on `base64::engine::general_purpose::STANDARD.encode`: the padded standard
/// Base64 text of the bytes, of length `4 * ceil(n / 3)`; it panics only when that
/// length overflows `usize`.
#[verifier::external_body]
pub(crate) fn encode_base64(b: &Vec<u8>) -> (r: String)
    requires
        base64_len(b@.len()) <= usize::MAX,
    ensures
        r@ == base64_of(b@),
        r@.len() == base64_len(b@.len()),
{
    base64::engine::general_purpose::STANDARD.encode(b)
}

/// The `data:` URL of an image in `format` whose Base64 text is `encoded`.
pub open spec fn data_url_of(format: ScreenshotFormat, encoded: Seq<char>) -> Seq<char> {
    "data:"@ + mime_type_of(format) + ";base64,"@ + encoded
}

/// The `data:` URL of an image in `format` whose Base64 text is `encoded`.
pub fn data_url(format: ScreenshotFormat, encoded: &str) -> (r: String)
    ensures
        r@ == data_url_of(format, encoded@),
{
    let mut s = <String as StringExecFns>::from_str("data:");
    s.append(format.mime_type());
    s.append(";base64,");
    s.append(encoded);
    s
}

/// A captured image.
#[derive(Debug, Clone)]
pub struct ScreenshotResult {
    pub data: Vec<u8>,
    pub format: ScreenshotFormat,
    pub width: u32,
    pub height: u32,
    /// Capture time, in seconds since the Unix epoch.
    pub captured_at: i64,
}

impl ScreenshotResult {
    /// The image as Base64 text.
    pub fn to_base64(&self) -> (r: String)
        requires
            base64_len(self.data@.len()) <= usize::MAX,
        ensures
            r@ == base64_of(self.data@),
            r@.len() == base64_len(self.data@.len()),
    {
        encode_base64(&self.data)
    }

    /// The image as a `data:` URL.
    pub fn to_data_url(&self) -> (r: String)
        requires
            base64_len(self.data@.len()) <= usize::MAX,
        ensures
            r@ == data_url_of(self.format, base64_of(self.data@)),
    {
        let encoded = self.to_base64();
        data_url(self.format, encoded.as_str())
    }
}

/// Owns the directory that captured screenshots are written to.
pub struct ScreenshotManager {
    pub output_dir: std::path::PathBuf,
}

/// Relies on `chrono::Utc::now().format("%Y%m%d_%H%M%S")`: the current UTC time as
/// text; nothing is assumed of it.
#[verifier::external_body]
fn utc_stamp() -> (r: String) {
    chrono::Utc::now().format("%Y%m%d_%H%M%S").to_string()
}

/// File name of a screenshot: the prefix, an underscore, the time stamp, a dot and the
/// format's extension.
pub open spec fn file_name_of(prefix: Seq<char>, stamp: Seq<char>, format: ScreenshotFormat) -> Seq<char> {
    prefix + "_"@ + stamp + "."@ + extension_of(format)
}

/// File name of a screenshot taken at `stamp` (see `file_name_of`).
pub fn file_name(prefix: &str, stamp: &str, format: ScreenshotFormat) -> (r: String)
    ensures
        r@ == file_name_of(prefix@, stamp@, format),
{
    let mut s = <String as StringExecFns>::from_str(prefix);
    s.append("_");
    s.append(stamp);
    s.append(".");
    s.append(format.extension());
    s
}

impl ScreenshotManager {
    /// Path of a new screenshot file in the output directory, named after `prefix`, the
    /// current UTC time and the format.
    pub fn generate_filename(&self, prefix: &str, format: ScreenshotFormat) -> (r: std::path::PathBuf) {
        let stamp = utc_stamp();
        let name = file_name(prefix, stamp.as_str(), format);
        crate::profile::join_path(&self.output_dir, &name)
    }

    /// A manager that writes into `output_dir`.
    pub fn new(output_dir: std::path::PathBuf) -> (r: Self)
        ensures
            r.output_dir == output_dir,
    {
        ScreenshotManager { output_dir }
    }
}

} // verus!
