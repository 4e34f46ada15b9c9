//! The decisions of a capture: which window or display, which file format, and
//! how the pixels of a mapped texture are packed for the encoder.

use vstd::prelude::*;
use vstd::string::*;

use crate::cli::{CaptureDisplayArgs, CaptureWindowArgs, WindowHandle};
use crate::text::{contains_seq, nat_decimal, push_u64, str_eq};
use crate::window_query::WindowInfo;

verus! {

/// The pixel format in which a capture is taken.
#[derive(Copy, Clone, Debug, PartialEq, Eq, Structural)]
pub enum PixelFormat {
    /// 8-bit BGRA, for PNG files.
    B8G8R8A8UIntNormalized,
    /// 16-bit floating-point RGBA, for JPEG XR files.
    R16G16B16A16Float,
}

/// The capture format that a file extension asks for: `png` or `jxr`.
pub open spec fn pixel_format_for(extension: Option<Seq<char>>) -> Option<PixelFormat> {
    match extension {
        Some(e) => if e == "png"@ {
            Some(PixelFormat::B8G8R8A8UIntNormalized)
        } else if e == "jxr"@ {
            Some(PixelFormat::R16G16B16A16Float)
        } else {
            None
        },
        None => None,
    }
}

/// The capture format that a file extension asks for.
pub fn pixel_format_for_extension(extension: Option<&str>) -> (f: Option<PixelFormat>)
    ensures
        f == pixel_format_for(
            match extension {
                Some(e) => Some(e@),
                None => None,
            },
        ),
{
    match extension {
        Some(e) => {
            if str_eq(e, "png") {
                Some(PixelFormat::B8G8R8A8UIntNormalized)
            } else if str_eq(e, "jxr") {
                Some(PixelFormat::R16G16B16A16Float)
            } else {
                None
            }
        },
        None => None,
    }
}

/// A path that is one plain file name on every platform: not empty, not `.` or
/// `..`, and free of the characters that separate components or start a prefix
/// (`/`, `\\`, `:`).
pub open spec fn is_plain_file_name(path: Seq<char>) -> bool {
    &&& path.len() > 0
    &&& !path.contains('/')
    &&& !path.contains('\\')
    &&& !path.contains(':')
    &&& path != seq!['.']
    &&& path != seq!['.', '.']
}

/// The extension of a file name: what follows its last `.`, unless there is no
/// `.` or the only one begins the name.
pub open spec fn extension_of_name(name: Seq<char>) -> Option<Seq<char>>
    decreases name.len(),
{
    if name.len() == 0 {
        None
    } else if name.last() == '.' {
        if name.len() == 1 {
            None
        } else {
            Some(Seq::empty())
        }
    } else {
        match extension_of_name(name.drop_last()) {
            Some(e) => Some(e.push(name.last())),
            None => None,
        }
    }
}

/// Whether `c` may end a path component on some platform: `/` everywhere, `\\`
/// and a drive's `:` on Windows.
pub open spec fn is_component_boundary(c: char) -> bool {
    c == '/' || c == '\\' || c == ':'
}

/// The text after the last component boundary of a path (all of it when there is none).
pub open spec fn last_component(path: Seq<char>) -> Seq<char>
    decreases path.len(),
{
    if path.len() == 0 {
        path
    } else if is_component_boundary(path.last()) {
        Seq::empty()
    } else {
        last_component(path.drop_last()).push(path.last())
    }
}

/// A path whose last component names an extension the same way on every platform:
/// it does not start with two slashes or backslashes (a network or device prefix on
/// Windows), and its last component is not `..` and has a `.` that is not its first
/// character.
pub open spec fn has_dotted_last_component(path: Seq<char>) -> bool {
    &&& !(path.len() >= 2 && (path[0] == '/' || path[0] == '\\') && (path[1] == '/' || path[1]
        == '\\'))
    &&& last_component(path) != seq!['.', '.']
    &&& extension_of_name(last_component(path)) is Some
}

/// The path with trailing separators and trailing `.` components taken off, as
/// `Path::components` normalises them (`a/b.png/./` names the file `b.png`).
pub open spec fn trim_trailing_current(path: Seq<char>) -> Seq<char>
    decreases path.len(),
{
    if path.len() == 0 {
        path
    } else if path.last() == '/' {
        trim_trailing_current(path.drop_last())
    } else if path.len() >= 2 && path.last() == '.' && path[path.len() - 2] == '/' {
        trim_trailing_current(path.drop_last())
    } else {
        path
    }
}

/// The file name of a path whose only separator is `/`: its last component once
/// trailing separators and `.` components are taken off.
pub open spec fn slash_path_file_name(path: Seq<char>) -> Seq<char> {
    last_component(trim_trailing_current(path))
}

/// A path that every platform splits at `/` alone, with no prefix, and that ends
/// in a file name: it holds no `\\` and no `:`, does not start with `//`, and its
/// file name is neither empty, `.` nor `..`.
pub open spec fn is_slash_path(path: Seq<char>) -> bool {
    &&& !path.contains('\\')
    &&& !path.contains(':')
    &&& !(path.len() >= 2 && path[0] == '/' && path[1] == '/')
    &&& slash_path_file_name(path).len() > 0
    &&& slash_path_file_name(path) != seq!['.']
    &&& slash_path_file_name(path) != seq!['.', '.']
}

/// `Path::extension` of `path`, as text: the part of the file name after its last
/// `.`, if any. Which characters separate path components depends on the platform,
/// so the result is not given a name; stated is that an extension holds no `.` and
/// stands in the path right after a `.`, and, for a path that is one plain file
/// name on every platform, what the documentation gives: nothing when the name
/// has no `.` or only a leading one, otherwise what follows the last `.`. For a
/// path whose last component has a `.` past its first character, the extension is
/// what follows that component's last `.`: the separators in use can only move
/// where the file name starts, never past that `.`. For a path split at `/` alone
/// (no `\\`, no `:`, no leading `//`, so no prefix on any platform), the file name
/// is the last component once trailing separators and `.` components are taken off,
/// and the extension is that of the file name, as above.
#[verifier::external_body]
fn path_extension(path: &str) -> (ext: Option<String>)
    ensures
        ext matches Some(e) ==> !e@.contains('.') && contains_seq(path@, seq!['.'] + e@),
        is_plain_file_name(path@) ==> match extension_of_name(path@) {
            Some(x) => ext matches Some(e) && e@ == x,
            None => ext is None,
        },
        has_dotted_last_component(path@) ==> match extension_of_name(last_component(path@)) {
            Some(x) => ext matches Some(e) && e@ == x,
            None => ext is None,
        },        is_slash_path(path@) ==> match extension_of_name(slash_path_file_name(path@)) {
            Some(x) => ext matches Some(e) && e@ == x,
            None => ext is None,
        },
{
    match std::path::Path::new(path).extension() {
        Some(e) => match e.to_str() {
            Some(text) => Some(text.to_string()),
            None => None,
        },
        None => None,
    }
}

/// The capture format that the extension of an output path asks for.
pub fn validate_path(path: &str) -> (f: Option<PixelFormat>)
    ensures
        f == Some(PixelFormat::B8G8R8A8UIntNormalized) ==> contains_seq(path@, ".png"@),
        f == Some(PixelFormat::R16G16B16A16Float) ==> contains_seq(path@, ".jxr"@),
        is_plain_file_name(path@) ==> f == pixel_format_for(extension_of_name(path@)),
        has_dotted_last_component(path@) ==> f == pixel_format_for(
            extension_of_name(last_component(path@)),
        ),        is_slash_path(path@) ==> f == pixel_format_for(
            extension_of_name(slash_path_file_name(path@)),
        ),
{
    let extension = path_extension(path);
    match extension {
        Some(e) => {
            let f = pixel_format_for_extension(Some(e.as_str()));
            proof {
                reveal_strlit(".png");
                reveal_strlit(".jxr");
                reveal_strlit("png");
                reveal_strlit("jxr");
                assert(seq!['.'] + "png"@ =~= ".png"@);
                assert(seq!['.'] + "jxr"@ =~= ".jxr"@);
            }
            f
        },
        None => None,
    }
}

/// The DXGI code of 8-bit BGRA textures.
pub const DXGI_FORMAT_B8G8R8A8_UNORM: i32 = 87;

/// The DXGI code of 16-bit floating-point RGBA textures.
pub const DXGI_FORMAT_R16G16B16A16_FLOAT: i32 = 10;

/// Why a captured texture could not be saved.
#[derive(Copy, Clone, Debug, PartialEq, Eq, Structural)]
pub enum CaptureError {
    /// The texture has a pixel format other than the two the tool captures in.
    UnsupportedPixelFormat,
    /// The encoder would not take the pixel format of the texture.
    UnsupportedWicPixelFormat,
}

pub open spec fn capture_error_message(e: CaptureError) -> Seq<char> {
    match e {
        CaptureError::UnsupportedPixelFormat => "Unsupported pixel format!"@,
        CaptureError::UnsupportedWicPixelFormat => "Unsupported WIC pixel format!"@,
    }
}

impl CaptureError {
    /// The message of the error.
    pub fn message(&self) -> (m: String)
        ensures
            m@ == capture_error_message(*self),
    {
        match self {
            CaptureError::UnsupportedPixelFormat => String::from_str("Unsupported pixel format!"),
            CaptureError::UnsupportedWicPixelFormat => String::from_str(
                "Unsupported WIC pixel format!",
            ),
        }
    }
}

/// The number of bytes of one pixel of a texture format.
pub fn bytes_per_pixel(format: i32) -> (r: Result<u32, CaptureError>)
    ensures
        r == (if format == DXGI_FORMAT_B8G8R8A8_UNORM {
            Ok::<u32, CaptureError>(4)
        } else if format == DXGI_FORMAT_R16G16B16A16_FLOAT {
            Ok::<u32, CaptureError>(8)
        } else {
            Err::<u32, CaptureError>(CaptureError::UnsupportedPixelFormat)
        }),
{
    if format == DXGI_FORMAT_B8G8R8A8_UNORM {
        Ok(4)
    } else if format == DXGI_FORMAT_R16G16B16A16_FLOAT {
        Ok(8)
    } else {
        Err(CaptureError::UnsupportedPixelFormat)
    }
}

/// The file container that a capture is encoded in.
#[derive(Copy, Clone, Debug, PartialEq, Eq, Structural)]
pub enum ContainerFormat {
    Png,
    /// JPEG XR (Windows Media Photo).
    Wmp,
}

/// The pixel layout handed to the encoder.
#[derive(Copy, Clone, Debug, PartialEq, Eq, Structural)]
pub enum WicPixelFormat {
    Bgra32bpp,
    RgbaHalf64bpp,
}

/// The container and encoder pixel layout for a texture format: PNG with 32-bit
/// BGRA for 8-bit BGRA textures, JPEG XR with 64-bit half-float RGBA for 16-bit
/// float textures.
pub fn encoding_for_format(format: i32) -> (r: Result<(ContainerFormat, WicPixelFormat), CaptureError>)
    ensures
        r == (if format == DXGI_FORMAT_B8G8R8A8_UNORM {
            Ok::<(ContainerFormat, WicPixelFormat), CaptureError>(
                (ContainerFormat::Png, WicPixelFormat::Bgra32bpp),
            )
        } else if format == DXGI_FORMAT_R16G16B16A16_FLOAT {
            Ok::<(ContainerFormat, WicPixelFormat), CaptureError>(
                (ContainerFormat::Wmp, WicPixelFormat::RgbaHalf64bpp),
            )
        } else {
            Err::<(ContainerFormat, WicPixelFormat), CaptureError>(
                CaptureError::UnsupportedPixelFormat,
            )
        }),
{
    if format == DXGI_FORMAT_B8G8R8A8_UNORM {
        Ok((ContainerFormat::Png, WicPixelFormat::Bgra32bpp))
    } else if format == DXGI_FORMAT_R16G16B16A16_FLOAT {
        Ok((ContainerFormat::Wmp, WicPixelFormat::RgbaHalf64bpp))
    } else {
        Err(CaptureError::UnsupportedPixelFormat)
    }
}

/// Accepts the pixel layout that the encoder settled on only when it is the one
/// asked for (`None` stands for a layout the tool does not know).
pub fn check_negotiated_pixel_format(
    requested: WicPixelFormat,
    negotiated: Option<WicPixelFormat>,
) -> (r: Result<(), CaptureError>)
    ensures
        r is Ok <==> negotiated == Some(requested),
        r matches Err(e) ==> e == CaptureError::UnsupportedWicPixelFormat,
{
    match negotiated {
        Some(f) => if f == requested {
            Ok(())
        } else {
            Err(CaptureError::UnsupportedWicPixelFormat)
        },
        None => Err(CaptureError::UnsupportedWicPixelFormat),
    }
}

/// The number of bytes in one row of packed pixels.
pub fn row_stride(width: u32, bytes_per_pixel: u32) -> (stride: u32)
    requires
        bytes_per_pixel * width <= u32::MAX,
    ensures
        stride == bytes_per_pixel * width,
{
    bytes_per_pixel * width
}

/// The position of byte `col` of row `row` in a buffer whose rows are `stride` bytes apart.
pub open spec fn pack_index(row: int, col: int, stride: int) -> int {
    row * stride + col
}

proof fn lemma_earlier_index(rr: int, cc: int, r: int, c: int, stride: int)
    by (nonlinear_arith)
    requires
        0 <= rr,
        0 <= cc,
        0 <= c,
        0 <= stride,
        (rr < r && cc < stride) || (rr == r && cc < c),
    ensures
        pack_index(rr, cc, stride) < r * stride + c,
        0 <= pack_index(rr, cc, stride),
{
    if rr < r {
        assert(rr * stride + stride <= r * stride);
    }
}

proof fn lemma_source_index(r: int, c: int, height: int, pitch: int, row_bytes: int)
    by (nonlinear_arith)
    requires
        0 <= r < height,
        0 <= c < row_bytes,
        row_bytes <= pitch,
    ensures
        0 <= r * pitch + c < height * pitch,
{
    assert(r * pitch + pitch <= height * pitch);
}

/// Packs the rows of a mapped texture, which lie `row_pitch` bytes apart, into a
/// buffer with no gap between rows: row `r` of the result is the first
/// `width * bytes_per_pixel` bytes of row `r` of the texture.
pub fn pack_rows(mapped: &[u8], width: u32, height: u32, bytes_per_pixel: u32, row_pitch: u32) -> (bytes: Vec<u8>)
    requires
        width * height <= u32::MAX,
        width * height * bytes_per_pixel <= u32::MAX,
        height * row_pitch <= u32::MAX,
        mapped@.len() == height * row_pitch,
        height > 0 ==> width * bytes_per_pixel <= row_pitch,
    ensures
        bytes@.len() == width * height * bytes_per_pixel,
        forall|r: int, c: int|
            0 <= r < height && 0 <= c < width * bytes_per_pixel ==> #[trigger] bytes@[pack_index(
                r,
                c,
                width * bytes_per_pixel,
            )] == mapped@[pack_index(r, c, row_pitch as int)],
{
    let mut bytes: Vec<u8> = Vec::new();
    if height == 0 {
        assert(width * height * bytes_per_pixel == 0) by (nonlinear_arith)
            requires
                height == 0,
        ;
        return bytes;
    }
    let row_bytes: u32 = width * bytes_per_pixel;
    let ghost rb = row_bytes as int;
    let mut r: u32 = 0;
    while r < height
        invariant
            0 < height,
            row_bytes == width * bytes_per_pixel,
            rb == row_bytes as int,
            row_bytes <= row_pitch,
            height * row_pitch <= u32::MAX,
            mapped@.len() == height * row_pitch,
            r <= height,
            bytes@.len() == r * rb,
            forall|rr: int, cc: int|
                0 <= rr < r && 0 <= cc < rb ==> #[trigger] bytes@[pack_index(rr, cc, rb)]
                    == mapped@[pack_index(rr, cc, row_pitch as int)],
        decreases height - r,
    {
        let mut c: u32 = 0;
        while c < row_bytes
            invariant
                0 < height,
                row_bytes == width * bytes_per_pixel,
                rb == row_bytes as int,
                row_bytes <= row_pitch,
                height * row_pitch <= u32::MAX,
                mapped@.len() == height * row_pitch,
                r < height,
                c <= row_bytes,
                bytes@.len() == r * rb + c,
                forall|rr: int, cc: int|
                    ((0 <= rr < r && 0 <= cc < rb) || (rr == r && 0 <= cc < c))
                        ==> #[trigger] bytes@[pack_index(rr, cc, rb)] == mapped@[pack_index(
                        rr,
                        cc,
                        row_pitch as int,
                    )],
            decreases row_bytes - c,
        {
            proof {
                lemma_source_index(r as int, c as int, height as int, row_pitch as int, rb);
            }
            let source: u64 = (r as u64) * (row_pitch as u64) + (c as u64);
            let value = mapped[source as usize];
            let ghost before = bytes@;
            bytes.push(value);
            proof {
                assert forall|rr: int, cc: int|
                    ((0 <= rr < r && 0 <= cc < rb) || (rr == r && 0 <= cc < c + 1)) implies #[trigger] bytes@[pack_index(
                    rr,
                    cc,
                    rb,
                )] == mapped@[pack_index(rr, cc, row_pitch as int)] by {
                    if rr == r && cc == c {
                        assert(pack_index(rr, cc, rb) == r * rb + c);
                    } else {
                        lemma_earlier_index(rr, cc, r as int, c as int, rb);
                        assert(bytes@[pack_index(rr, cc, rb)] == before[pack_index(rr, cc, rb)]);
                    }
                }
            }
            c = c + 1;
        }
        assert(r * rb + rb == (r + 1) * rb) by (nonlinear_arith);
        r = r + 1;
    }
    assert(height * rb == width * height * bytes_per_pixel) by (nonlinear_arith)
        requires
            rb == width * bytes_per_pixel,
    ;
    bytes
}

/// The packed buffer holds exactly `height` rows of the row stride: what the
/// encoder is told it receives.
pub proof fn lemma_packed_rows_fill_stride(width: u32, height: u32, bytes_per_pixel: u32)
    ensures
        width * height * bytes_per_pixel == (bytes_per_pixel * width) * height,
        forall|r: int, c: int|
            0 <= r < height && 0 <= c < width * bytes_per_pixel ==> 0 <= #[trigger] pack_index(
                r,
                c,
                width * bytes_per_pixel,
            ) < width * height * bytes_per_pixel,
{
    assert(width * height * bytes_per_pixel == (bytes_per_pixel * width) * height)
        by (nonlinear_arith);
    assert forall|r: int, c: int|
        0 <= r < height && 0 <= c < width * bytes_per_pixel implies 0 <= #[trigger] pack_index(
        r,
        c,
        width * bytes_per_pixel,
    ) < width * height * bytes_per_pixel by {
        let rb = width * bytes_per_pixel;
        assert(0 <= r * rb + c < height * rb) by (nonlinear_arith)
            requires
                0 <= r < height,
                0 <= c < rb,
        ;
        assert(height * rb == width * height * bytes_per_pixel) by (nonlinear_arith)
            requires
                rb == width * bytes_per_pixel,
        ;
    }
}

/// Why the tool cannot tell what to capture, or where.
#[derive(Copy, Clone, Debug, PartialEq, Eq, Structural)]
pub enum SelectionError {
    /// No window has the exact title asked for.
    NoWindowMatched,
    /// Several windows (their number given) have the exact title asked for.
    AmbiguousWindowTitle(usize),
    /// Neither a title nor a handle names the window.
    MissingWindowSelector,
    /// Monitor numbers start at 1.
    MonitorIdZero,
    /// The monitor number is higher than the number of displays.
    MonitorIdTooHigh,
    /// Neither a monitor number nor the primary monitor names the display.
    MissingDisplaySelector,
    /// The output file is neither `.png` nor `.jxr`.
    InvalidFileExtension,
}

pub open spec fn selection_message(e: SelectionError) -> Seq<char> {
    match e {
        SelectionError::NoWindowMatched => "No window matched title!"@,
        SelectionError::AmbiguousWindowTitle(n) => "More than one window ("@ + nat_decimal(n as nat)
            + ") matched the given title! Use the `enum-windows` subcommand to find the desired window handle instead."@,
        SelectionError::MissingWindowSelector => "Must specify either an exact title (--title) or a window handle (--handle)!"@,
        SelectionError::MonitorIdZero => "Invalid input, ids start with 1."@,
        SelectionError::MonitorIdTooHigh => "Invalid input, id is higher than the number of displays!"@,
        SelectionError::MissingDisplaySelector => "Must specify either a monitor number (--monitor) or the primary (--primary)!"@,
        SelectionError::InvalidFileExtension => "Invalid file extension! Expecting 'png' or 'jxr'."@,
    }
}

impl SelectionError {
    /// The message of the error.
    pub fn message(&self) -> (m: String)
        ensures
            m@ == selection_message(*self),
    {
        match self {
            SelectionError::NoWindowMatched => String::from_str("No window matched title!"),
            SelectionError::AmbiguousWindowTitle(n) => {
                let mut m = String::from_str("More than one window (");
                push_u64(&mut m, *n as u64);
                m.append(
                    ") matched the given title! Use the `enum-windows` subcommand to find the desired window handle instead.",
                );
                m
            },
            SelectionError::MissingWindowSelector => String::from_str(
                "Must specify either an exact title (--title) or a window handle (--handle)!",
            ),
            SelectionError::MonitorIdZero => String::from_str("Invalid input, ids start with 1."),
            SelectionError::MonitorIdTooHigh => String::from_str(
                "Invalid input, id is higher than the number of displays!",
            ),
            SelectionError::MissingDisplaySelector => String::from_str(
                "Must specify either a monitor number (--monitor) or the primary (--primary)!",
            ),
            SelectionError::InvalidFileExtension => String::from_str(
                "Invalid file extension! Expecting 'png' or 'jxr'.",
            ),
        }
    }
}

/// How the window to capture is named.
pub enum WindowTarget {
    /// By its exact title.
    Title(String),
    /// By its handle.
    Handle(WindowHandle),
}

impl CaptureWindowArgs {
    /// The window the arguments name: the title when one is given, the handle otherwise.
    pub fn target(&self) -> (t: Result<WindowTarget, SelectionError>)
        ensures
            match self.title {
                Some(title) => t matches Ok(WindowTarget::Title(x)) && x@ == title@,
                None => match self.handle {
                    Some(h) => t matches Ok(WindowTarget::Handle(x)) && x == h,
                    None => t == Err::<WindowTarget, SelectionError>(
                        SelectionError::MissingWindowSelector,
                    ),
                },
            },
    {
        match &self.title {
            Some(title) => Ok(WindowTarget::Title(title.clone())),
            None => match self.handle {
                Some(handle) => Ok(WindowTarget::Handle(handle)),
                None => Err(SelectionError::MissingWindowSelector),
            },
        }
    }
}

/// The window to capture among those with the exact title asked for: the one
/// when there is exactly one.
pub fn select_window(windows: &Vec<WindowInfo>) -> (r: Result<WindowHandle, SelectionError>)
    ensures
        windows@.len() == 0 ==> r == Err::<WindowHandle, SelectionError>(
            SelectionError::NoWindowMatched,
        ),
        windows@.len() == 1 ==> r == Ok::<WindowHandle, SelectionError>(windows@[0].handle),
        windows@.len() > 1 ==> r == Err::<WindowHandle, SelectionError>(
            SelectionError::AmbiguousWindowTitle(windows@.len() as usize),
        ),
{
    if windows.len() == 0 {
        Err(SelectionError::NoWindowMatched)
    } else if windows.len() > 1 {
        Err(SelectionError::AmbiguousWindowTitle(windows.len()))
    } else {
        Ok(windows[0].handle)
    }
}

/// How the display to capture is named.
#[derive(Copy, Clone, Debug, PartialEq, Eq, Structural)]
pub enum DisplayTarget {
    /// By its number, starting at 1.
    Monitor(usize),
    /// The primary monitor.
    Primary,
}

impl CaptureDisplayArgs {
    /// The display the arguments name: the monitor number when one is given, the
    /// primary monitor otherwise when asked for.
    pub fn target(&self) -> (t: Result<DisplayTarget, SelectionError>)
        ensures
            t == match self.monitor {
                Some(m) => Ok::<DisplayTarget, SelectionError>(DisplayTarget::Monitor(m)),
                None => if self.primary {
                    Ok::<DisplayTarget, SelectionError>(DisplayTarget::Primary)
                } else {
                    Err::<DisplayTarget, SelectionError>(SelectionError::MissingDisplaySelector)
                },
            },
    {
        match self.monitor {
            Some(m) => Ok(DisplayTarget::Monitor(m)),
            None => if self.primary {
                Ok(DisplayTarget::Primary)
            } else {
                Err(SelectionError::MissingDisplaySelector)
            },
        }
    }
}

/// The position in the display list of monitor number `monitor` (numbers start at 1).
pub fn select_display(monitor: usize, display_count: usize) -> (r: Result<usize, SelectionError>)
    ensures
        r == (if monitor == 0 {
            Err::<usize, SelectionError>(SelectionError::MonitorIdZero)
        } else if monitor - 1 >= display_count {
            Err::<usize, SelectionError>(SelectionError::MonitorIdTooHigh)
        } else {
            Ok::<usize, SelectionError>((monitor - 1) as usize)
        }),
{
    if monitor == 0 {
        return Err(SelectionError::MonitorIdZero);
    }
    let index = monitor - 1;
    if index >= display_count {
        return Err(SelectionError::MonitorIdTooHigh);
    }
    Ok(index)
}

} // verus!
