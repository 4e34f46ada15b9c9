use screenshot::capture::{
    bytes_per_pixel, check_negotiated_pixel_format, encoding_for_format, pack_rows,
    pixel_format_for_extension, row_stride, select_display, select_window, validate_path,
    CaptureError, ContainerFormat, DisplayTarget, PixelFormat, SelectionError, WicPixelFormat,
    WindowTarget, DXGI_FORMAT_B8G8R8A8_UNORM, DXGI_FORMAT_R16G16B16A16_FLOAT,
};
use screenshot::cli::{CaptureDisplayArgs, CaptureWindowArgs, WindowHandle};
use screenshot::window_query::WindowInfo;

#[test]
fn extensions_choose_pixel_format() {
    assert_eq!(
        pixel_format_for_extension(Some("png")),
        Some(PixelFormat::B8G8R8A8UIntNormalized)
    );
    assert_eq!(
        pixel_format_for_extension(Some("jxr")),
        Some(PixelFormat::R16G16B16A16Float)
    );
    assert_eq!(pixel_format_for_extension(Some("PNG")), None);
    assert_eq!(pixel_format_for_extension(None), None);
    assert_eq!(validate_path("shot.png"), Some(PixelFormat::B8G8R8A8UIntNormalized));
    assert_eq!(validate_path("dir/shot.jxr"), Some(PixelFormat::R16G16B16A16Float));
    assert_eq!(validate_path("shot.bmp"), None);
    assert_eq!(validate_path(".png"), None);
    assert_eq!(validate_path("shot"), None);
    assert_eq!(validate_path("archive.png.bmp"), None);
    assert_eq!(validate_path("archive.bmp.png"), Some(PixelFormat::B8G8R8A8UIntNormalized));
    assert_eq!(validate_path(".hidden.jxr"), Some(PixelFormat::R16G16B16A16Float));
    assert_eq!(validate_path("shot."), None);
    assert_eq!(validate_path("C:/out/hdr.jxr"), Some(PixelFormat::R16G16B16A16Float));
    assert_eq!(validate_path("out/a.jxr"), Some(PixelFormat::R16G16B16A16Float));
    assert_eq!(validate_path("C:\\shots\\a.png"), Some(PixelFormat::B8G8R8A8UIntNormalized));
    assert_eq!(validate_path("out/a.bmp"), None);
    assert_eq!(validate_path("my.png/out"), None);
    assert_eq!(validate_path("a.jxr/shot"), None);
    assert_eq!(validate_path("out/shot.png/"), Some(PixelFormat::B8G8R8A8UIntNormalized));
    assert_eq!(validate_path("out/shot.png/."), Some(PixelFormat::B8G8R8A8UIntNormalized));
    assert_eq!(validate_path("out/shot.png/.."), None);
}

#[test]
fn texture_formats() {
    assert_eq!(bytes_per_pixel(DXGI_FORMAT_B8G8R8A8_UNORM), Ok(4));
    assert_eq!(bytes_per_pixel(DXGI_FORMAT_R16G16B16A16_FLOAT), Ok(8));
    assert_eq!(bytes_per_pixel(28), Err(CaptureError::UnsupportedPixelFormat));
    assert_eq!(
        encoding_for_format(87),
        Ok((ContainerFormat::Png, WicPixelFormat::Bgra32bpp))
    );
    assert_eq!(
        encoding_for_format(10),
        Ok((ContainerFormat::Wmp, WicPixelFormat::RgbaHalf64bpp))
    );
    assert_eq!(encoding_for_format(0), Err(CaptureError::UnsupportedPixelFormat));
    assert_eq!(CaptureError::UnsupportedPixelFormat.message(), "Unsupported pixel format!");
    assert_eq!(
        check_negotiated_pixel_format(WicPixelFormat::Bgra32bpp, Some(WicPixelFormat::Bgra32bpp)),
        Ok(())
    );
    assert_eq!(
        check_negotiated_pixel_format(WicPixelFormat::Bgra32bpp, None),
        Err(CaptureError::UnsupportedWicPixelFormat)
    );
    assert_eq!(
        CaptureError::UnsupportedWicPixelFormat.message(),
        "Unsupported WIC pixel format!"
    );
    assert_eq!(row_stride(1920, 4), 7680);
}

#[test]
fn rows_are_packed_without_padding() {
    // 2 pixels of 2 bytes per row, rows 6 bytes apart, 3 rows.
    let mapped: Vec<u8> = (0u8..18).collect();
    let bytes = pack_rows(&mapped, 2, 3, 2, 6);
    assert_eq!(bytes, vec![0, 1, 2, 3, 6, 7, 8, 9, 12, 13, 14, 15]);
    assert_eq!(pack_rows(&[], 5, 0, 4, 0), Vec::<u8>::new());
    let tight: Vec<u8> = (0u8..8).collect();
    assert_eq!(pack_rows(&tight, 1, 2, 4, 4), tight);
}

fn window(handle: isize, title: &str) -> WindowInfo {
    WindowInfo {
        handle: WindowHandle(handle),
        title: title.to_string(),
    }
}

#[test]
fn window_selection() {
    assert_eq!(select_window(&vec![]), Err(SelectionError::NoWindowMatched));
    assert_eq!(select_window(&vec![window(9, "A")]), Ok(WindowHandle(9)));
    let err = select_window(&vec![window(1, "A"), window(2, "A")]).unwrap_err();
    assert_eq!(err, SelectionError::AmbiguousWindowTitle(2));
    assert_eq!(
        err.message(),
        "More than one window (2) matched the given title! Use the `enum-windows` subcommand to find the desired window handle instead."
    );
    assert_eq!(SelectionError::NoWindowMatched.message(), "No window matched title!");

    let args = CaptureWindowArgs {
        title: Some("Notepad".to_string()),
        handle: Some(WindowHandle(3)),
        output: "a.png".to_string(),
    };
    match args.target() {
        Ok(WindowTarget::Title(t)) => assert_eq!(t, "Notepad"),
        _ => panic!("expected a title"),
    }
    let args = CaptureWindowArgs {
        title: None,
        handle: Some(WindowHandle(3)),
        output: "a.png".to_string(),
    };
    assert!(matches!(args.target(), Ok(WindowTarget::Handle(WindowHandle(3)))));
    let args = CaptureWindowArgs {
        title: None,
        handle: None,
        output: "a.png".to_string(),
    };
    assert!(matches!(args.target(), Err(SelectionError::MissingWindowSelector)));
}

#[test]
fn display_selection() {
    assert_eq!(select_display(0, 2), Err(SelectionError::MonitorIdZero));
    assert_eq!(select_display(1, 2), Ok(0));
    assert_eq!(select_display(2, 2), Ok(1));
    assert_eq!(select_display(3, 2), Err(SelectionError::MonitorIdTooHigh));
    assert_eq!(SelectionError::MonitorIdZero.message(), "Invalid input, ids start with 1.");
    assert_eq!(
        SelectionError::MonitorIdTooHigh.message(),
        "Invalid input, id is higher than the number of displays!"
    );
    let args = CaptureDisplayArgs {
        monitor: Some(2),
        primary: true,
        output: "a.png".to_string(),
    };
    assert_eq!(args.target(), Ok(DisplayTarget::Monitor(2)));
    let args = CaptureDisplayArgs {
        monitor: None,
        primary: true,
        output: "a.png".to_string(),
    };
    assert_eq!(args.target(), Ok(DisplayTarget::Primary));
    let args = CaptureDisplayArgs {
        monitor: None,
        primary: false,
        output: "a.png".to_string(),
    };
    assert_eq!(args.target(), Err(SelectionError::MissingDisplaySelector));
    assert_eq!(
        SelectionError::InvalidFileExtension.message(),
        "Invalid file extension! Expecting 'png' or 'jxr'."
    );
}
