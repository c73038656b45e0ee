//! Captured pixels.

use capscr::capture::convert::{capture_serial, par_convert};
use capscr::capture::cursor::{composite_cursor_shot, cursor_image, cursor_size, CursorShot};
use capscr::capture::frame::{crop, from_raw, paste, raw_of, turn_left, turn_right, Rgba, RgbaImage};
use capscr::capture::hdr::{
    check_hdr_source, device_names_match, f16_to_f32_bits, hdr_signal, peak_rank, peak_stride,
    pick_adapter_output, pick_sdr_white, pixels_per_thread, plan_readback, read_bgra, read_rows,
    tonemap_input, tonemap_size, AcquireAction, AcquireEvent, AcquireLoop, DisplayPath,
    HdrCapture, HdrFormat, OutputEdges, ReadbackError, TextureFormat, TonemapInput, TonemapSize,
};
use capscr::capture::hdr_grab::{
    GrabEvent, GrabFault, GrabRoute, GrabStep, HdrGrab, HdrSource, RawFault,
};
use capscr::capture::hdr_png::{
    encode_hdr_png, parse_cicp, unpack_rgb10a2, HdrBitmap, HdrPngError, HdrTransfer,
};
use capscr::capture::kwin::{
    check_area, decode, decode_reply, exclude_own_windows_from_capture, exclusion_file,
    exclusion_script, match_handle, match_handles, own_windows, parse_stacking_order,
    pickable_windows, stacking_order, BusValue, KwinError, ReplyField,
    ScreenshotReply, WindowEntry, WindowGeometry,
};
use capscr::capture::monitor::{
    fallback_source, first_source, MonitorShot, MonitorSource, ShotEvent, ShotStep,
};
use capscr::capture::region::{
    crop_region, desktop_is_addressable, Crop, RegionCapture, RegionError,
};
use capscr::capture::screen::{display_for, ScreenCapture, ScreenError};
use capscr::capture::wayland_chain::{
    compute_order, monitor_by_name, still_order, Chain, ChainAction, ChainError, SourceAnswer,
    SourceKind, WaylandGlobals,
};
use capscr::capture::wgc::{
    judge_frame, WgcAttempt, WgcEvent, WgcFault, WgcFrame, WgcGrab, WgcStep,
};
use capscr::capture::window::{
    frame_center, frame_rect, geometry_rect, window_sources, WindowCapture, WindowError,
    WindowFacts, WindowSource,
};
use capscr::capture::x11_grab::{clamp_to_root, X11Error};
use capscr::capture::{
    ensure_opaque_if_fully_transparent, is_black_frame,
    orient_captured_image, settle_monitor, switch_enabled, MonitorInfo, MonitorRotation,
    Rectangle,
};

fn f16_to_f32(bits: u16) -> f32 {
    f32::from_bits(f16_to_f32_bits(bits))
}

fn solid(width: u32, height: u32, p: Rgba) -> RgbaImage {
    RgbaImage::from_pixel(width, height, p).unwrap()
}

/// A frame whose pixels tell their place.
fn numbered(width: u32, height: u32) -> RgbaImage {
    let mut pixels = Vec::new();
    for y in 0..height {
        for x in 0..width {
            pixels.push(Rgba::new(x as u8, y as u8, 7, 255));
        }
    }
    RgbaImage::from_pixels(width, height, pixels).unwrap()
}

fn monitor(id: u32, name: &str, x: i32, y: i32, width: u32, height: u32) -> MonitorInfo {
    MonitorInfo { id, name: name.to_string(), x, y, width, height, is_primary: id == 1 }
}

// ---- half floats ---------------------------------------------------------------

#[test]
fn zero() {
    assert_eq!(f16_to_f32(0x0000), 0.0);
}

#[test]
fn one() {
    assert!((f16_to_f32(0x3C00) - 1.0).abs() < 1e-6);
}

#[test]
fn two() {
    assert!((f16_to_f32(0x4000) - 2.0).abs() < 1e-6);
}

#[test]
fn negative_one() {
    assert!((f16_to_f32(0xBC00) - -1.0).abs() < 1e-6);
}

#[test]
fn half() {
    assert!((f16_to_f32(0x3800) - 0.5).abs() < 1e-6);
}

#[test]
fn srgb_white_on_hdr_display_via_scrgb() {
    let bits = 0x4240;
    let v = f16_to_f32(bits);
    assert!((v - 3.125).abs() < 1e-3, "{v}");
}

#[test]
fn half_floats_at_the_edges() {
    assert_eq!(f16_to_f32_bits(0x8000), 0x8000_0000);
    assert_eq!(f16_to_f32_bits(0x7C00), f32::INFINITY.to_bits());
    assert!(f32::from_bits(f16_to_f32_bits(0x7E00)).is_nan());
    // the smallest number above zero, and the largest below one of full precision
    assert_eq!(f16_to_f32(0x0001), 2f32.powi(-24));
    assert_eq!(f16_to_f32(0x03FF), 1023.0 * 2f32.powi(-24));
    assert_eq!(f16_to_f32(0x7BFF), 65504.0);
}

// ---- HDR ------------------------------------------------------------------------

#[test]
fn test_hdr_capture_creation() {
    let _capture = HdrCapture::new();
    let _is_available = HdrCapture::is_hdr_available(&[]);
}

#[test]
fn hdr_displays_are_found_by_their_color_space() {
    assert!(!HdrCapture::is_hdr_available(&[0, 0]));
    assert!(HdrCapture::is_hdr_available(&[0, 12]));
    assert_eq!(HdrCapture::first_hdr(&[0, 12, 12]), Some((1, HdrFormat::Hdr10)));
    assert_eq!(hdr_signal(0), None);
}

#[test]
fn unpack_widens_full_range() {
    assert_eq!(unpack_rgb10a2(0), [0, 0, 0, 0]);
    let word = 1023 | (512 << 10) | (1 << 20) | (3u32 << 30);
    let [r, g, b, a] = unpack_rgb10a2(word);
    assert_eq!(r, 65535);
    assert_eq!(g, (512 << 6) | (512 >> 4));
    assert_eq!(b, 64);
    assert_eq!(a, 65535);
}

fn black_bitmap() -> HdrBitmap {
    HdrBitmap { width: 2, height: 2, format: HdrFormat::Hdr10, data: vec![0u8; 16] }
}

#[test]
fn cicp_chunk_roundtrips() {
    let table = vec![0u16; 65536];
    let bytes = encode_hdr_png(&black_bitmap(), HdrTransfer::Pq, &table).unwrap();
    let info = parse_cicp(&bytes).expect("cICP chunk should be present");
    assert_eq!(info.colour_primaries, 9);
    assert_eq!(info.transfer, 16);
    assert_eq!(info.matrix, 0);
    assert_eq!(info.full_range, 1);
    assert!(info.is_hdr());
}

#[test]
fn hlg_output_writes_cicp_9_18() {
    let table = vec![0u16; 65536];
    let bytes = encode_hdr_png(&black_bitmap(), HdrTransfer::Hlg, &table).unwrap();
    let info = parse_cicp(&bytes).expect("cICP chunk should be present");
    assert_eq!(info.colour_primaries, 9);
    assert_eq!(info.transfer, 18);
    assert_eq!(info.matrix, 0);
    assert_eq!(info.full_range, 1);
    assert!(info.is_hdr());
}

#[test]
fn cicp_absent_returns_none() {
    let img = image::RgbaImage::from_pixel(4, 4, image::Rgba([128, 64, 200, 255]));
    let mut out = std::io::Cursor::new(Vec::new());
    img.write_to(&mut out, image::ImageFormat::Png).unwrap();
    assert!(parse_cicp(&out.into_inner()).is_none());
}

#[test]
fn hdr_png_holds_the_samples() {
    let mut data = Vec::new();
    for level in [0u32, 517, 778, 1023] {
        let word = level | (level << 10) | (level << 20) | (3 << 30);
        data.extend_from_slice(&word.to_le_bytes());
    }
    let bitmap = HdrBitmap { width: 4, height: 1, format: HdrFormat::Hdr10, data };
    let table: Vec<u16> = (0..65536u32).map(|i| (65535 - i) as u16).collect();

    let pq = encode_hdr_png(&bitmap, HdrTransfer::Pq, &table).unwrap();
    let image = image::load_from_memory(&pq).unwrap().into_rgba16();
    assert_eq!(image.dimensions(), (4, 1));
    assert_eq!(image.get_pixel(0, 0).0, [0, 0, 0, 65535]);
    let mid = (517u16 << 6) | (517 >> 4);
    assert_eq!(image.get_pixel(1, 0).0, [mid, mid, mid, 65535]);
    assert_eq!(image.get_pixel(3, 0).0, [65535, 65535, 65535, 65535]);

    let hlg = encode_hdr_png(&bitmap, HdrTransfer::Hlg, &table).unwrap();
    let image = image::load_from_memory(&hlg).unwrap().into_rgba16();
    assert_eq!(image.get_pixel(0, 0).0, [65535, 65535, 65535, 65535]);
    assert_eq!(image.get_pixel(3, 0).0, [0, 0, 0, 65535]);
}

#[test]
fn hdr_png_refuses_what_it_cannot_write() {
    let table = vec![0u16; 65536];
    let mut b = black_bitmap();
    b.format = HdrFormat::ScRgb;
    assert_eq!(encode_hdr_png(&b, HdrTransfer::Pq, &table), Err(HdrPngError::ScRgb));
    b.format = HdrFormat::Hlg;
    assert_eq!(encode_hdr_png(&b, HdrTransfer::Pq, &table), Err(HdrPngError::Hlg));
    b.format = HdrFormat::Sdr;
    assert_eq!(encode_hdr_png(&b, HdrTransfer::Pq, &table), Err(HdrPngError::Sdr));
    b.format = HdrFormat::Hdr10;
    b.data.truncate(15);
    assert_eq!(
        encode_hdr_png(&b, HdrTransfer::Pq, &table),
        Err(HdrPngError::BufferTooSmall { have: 15, need: 16 })
    );
    b.width = 0;
    assert_eq!(encode_hdr_png(&b, HdrTransfer::Pq, &table), Err(HdrPngError::Empty));
    b.width = u32::MAX;
    b.height = u32::MAX;
    assert_eq!(encode_hdr_png(&b, HdrTransfer::Pq, &table), Err(HdrPngError::Overflow));
}

#[test]
fn frames_are_acquired_within_thirty_attempts() {
    let mut l = AcquireLoop::new(false);
    let stale = AcquireEvent::Frame { last_present: 0, accumulated: 0, has_resource: true };
    assert_eq!(l.step(stale), AcquireAction::Release { sleep_ms: 2 });
    assert!(l.running());
    assert_eq!(l.step(AcquireEvent::AccessLost), AcquireAction::Rebuild { sleep_ms: 10 });
    assert_eq!(l.step(AcquireEvent::Timeout), AcquireAction::Sleep { sleep_ms: 2 });
    assert_eq!(l.step(AcquireEvent::Failed), AcquireAction::Sleep { sleep_ms: 5 });
    assert_eq!(l.step(stale), AcquireAction::Take);
    assert!(!l.running());

    let mut l = AcquireLoop::new(false);
    let mut steps = 0;
    while l.running() {
        l.step(AcquireEvent::Timeout);
        steps += 1;
    }
    assert_eq!(steps, 30);
    assert!(!l.acquired);
}

#[test]
fn readbacks_are_planned_by_the_texture() {
    let r = plan_readback(10, 4, TextureFormat::Rgba16Float).unwrap();
    assert_eq!(r.format, HdrFormat::ScRgb);
    assert_eq!(r.row_bytes, 80);
    assert_eq!(r.total_bytes, 320);
    assert!(matches!(
        plan_readback(0, 4, TextureFormat::Bgra8),
        Err(ReadbackError::NoDimensions)
    ));
    assert!(matches!(
        plan_readback(16385, 4, TextureFormat::Bgra8),
        Err(ReadbackError::TooLarge)
    ));
    assert_eq!(check_hdr_source(TextureFormat::Bgra8), Err(ReadbackError::SdrSource));
    assert_eq!(check_hdr_source(TextureFormat::Rgb10A2), Ok(()));
}

#[test]
fn padding_is_left_out_of_rows() {
    let raw = [1u8, 2, 3, 4, 9, 9, 5, 6, 7, 8, 9, 9];
    assert_eq!(read_rows(&raw, 6, 4, 2).unwrap(), vec![1, 2, 3, 4, 5, 6, 7, 8]);
    assert_eq!(read_rows(&raw, 3, 4, 2), Err(ReadbackError::ShortPitch));
    let image = read_bgra(&raw, 1, 2, 6).unwrap();
    assert_eq!(image.get_pixel(0, 0), Rgba::new(3, 2, 1, 4));
    assert_eq!(image.get_pixel(0, 1), Rgba::new(7, 6, 5, 8));
}

#[test]
fn the_output_under_the_point_is_picked() {
    let left = OutputEdges { left: 0, top: 0, right: 100, bottom: 100 };
    let right = OutputEdges { left: 100, top: 0, right: 200, bottom: 100 };
    let adapters = vec![vec![Some(left)], vec![None, Some(right)]];
    assert_eq!(pick_adapter_output(&adapters, Some((150, 50))), (1, 1));
    assert_eq!(pick_adapter_output(&adapters, Some((99, 0))), (0, 0));
    assert_eq!(pick_adapter_output(&adapters, Some((500, 0))), (0, 0));
    assert_eq!(pick_adapter_output(&adapters, None), (0, 0));
}

#[test]
fn the_white_level_of_the_device_is_picked() {
    let name: Vec<u16> = "A".encode_utf16().chain(vec![0u16, 7]).collect();
    assert!(device_names_match(&name, &[65, 0, 0]));
    assert!(!device_names_match(&name, &[66, 0, 0]));
    let paths = vec![
        DisplayPath { name: None, white_level: Some(2000) },
        DisplayPath { name: Some(vec![66, 0]), white_level: Some(2000) },
        DisplayPath { name: Some(vec![65, 0]), white_level: Some(0) },
        DisplayPath { name: Some(vec![65, 0]), white_level: Some(3000) },
    ];
    assert_eq!(pick_sdr_white(&paths, &[65, 0]), Some(3000));
    assert_eq!(pick_sdr_white(&paths[..3], &[65, 0]), None);
}

#[test]
fn tone_mapping_gets_what_the_format_holds() {
    let word: u32 = 1023;
    match tonemap_input(&word.to_le_bytes(), 1, 1, HdrFormat::Hdr10) {
        TonemapInput::Hdr10 { samples } => assert_eq!(samples, vec![65535, 0, 0, 0]),
        _ => panic!("ten bits to a sample"),
    }
    let raw = [0x00u8, 0x3C, 0x00, 0x40, 0x00, 0x38, 0x00, 0x3C];
    match tonemap_input(&raw, 1, 1, HdrFormat::ScRgb) {
        TonemapInput::ScRgb { floats } => {
            let f: Vec<f32> = floats.iter().map(|b| f32::from_bits(*b)).collect();
            assert_eq!(f, vec![1.0, 2.0, 0.5, 1.0]);
        }
        _ => panic!("half floats"),
    }
}

// ---- the desktop ----------------------------------------------------------------

#[test]
fn test_rectangle_normalize() {
    let rect = Rectangle::normalize(100, 200, 50, 100);
    assert_eq!(rect.x, 50);
    assert_eq!(rect.y, 100);
    assert_eq!(rect.width, 50);
    assert_eq!(rect.height, 100);
}

#[test]
fn test_screen_capture_with_monitor() {
    let capture = ScreenCapture::with_monitor(1);
    assert!(capture.get_monitor_info(&[]).is_err() || capture.get_monitor_info(&[]).is_ok());
}

#[test]
fn displays_are_found() {
    let monitors = [monitor(7, "a", 0, 0, 100, 100), monitor(1, "b", 100, 0, 100, 100)];
    assert_eq!(ScreenCapture::with_monitor(1).get_monitor_info(&monitors), Ok(1));
    assert_eq!(
        ScreenCapture::with_monitor(9).get_monitor_info(&monitors),
        Err(ScreenError::NoMonitor)
    );
    assert_eq!(ScreenCapture::new().get_monitor_info(&monitors), Ok(0));
    assert_eq!(display_for(Some((5, 5)), &monitors), ScreenCapture::with_monitor(7));
    assert_eq!(display_for(Some((500, 5)), &monitors), ScreenCapture::with_monitor(1));
    assert_eq!(display_for(None, &monitors[..1]), ScreenCapture::new());
    assert_eq!(ScreenCapture::at_point(100, 0, &monitors), Ok(ScreenCapture::with_monitor(1)));
    assert_eq!(monitor_by_name(&monitors, "b").unwrap().id, 1);
    assert!(monitor_by_name(&monitors, "c").is_none());
}

#[test]
fn test_region_capture_new() {
    let rect = Rectangle::new(0, 0, 100, 100);
    let capture = RegionCapture::new(rect);
    let region = capture.region();
    assert_eq!(region.width, 100);
}

#[test]
fn test_region_capture_from_coords() {
    let capture = RegionCapture::from_coords(0, 0, 100, 100);
    let region = capture.region();
    assert_eq!(region.width, 100);
}

#[test]
fn a_region_is_put_together_from_its_displays() {
    let monitors = [monitor(1, "a", 0, 0, 4, 4), monitor(2, "b", 4, 0, 4, 4)];
    let shots = [
        Some(solid(4, 4, Rgba::new(1, 1, 1, 255))),
        Some(solid(4, 4, Rgba::new(2, 2, 2, 255))),
    ];
    let region = RegionCapture::new(Rectangle::new(3, 1, 2, 2));
    let img = region.compose(&monitors, &shots).unwrap();
    assert_eq!((img.width(), img.height()), (2, 2));
    assert_eq!(img.get_pixel(0, 0), Rgba::new(1, 1, 1, 255));
    assert_eq!(img.get_pixel(1, 0), Rgba::new(2, 2, 2, 255));
    assert_eq!(
        RegionCapture::new(Rectangle::new(0, 0, 1, 1)).compose(&[], &[]).unwrap_err(),
        RegionError::NoMonitors
    );
    assert_eq!(
        RegionCapture::new(Rectangle::new(90, 90, 5, 5)).compose(&monitors, &shots).unwrap_err(),
        RegionError::InvalidDimensions
    );
}

#[test]
fn a_region_is_cut_out_of_a_frame() {
    assert_eq!(
        crop_region(Rectangle::new(110, 20, 30, 40), (100, 0), 200, 100),
        Some(Crop { x: 10, y: 20, width: 30, height: 40 })
    );
    assert_eq!(
        crop_region(Rectangle::new(190, 20, 300, 40), (100, 0), 100, 100),
        Some(Crop { x: 90, y: 20, width: 10, height: 40 })
    );
    assert_eq!(crop_region(Rectangle::new(900, 20, 30, 40), (100, 0), 200, 100), None);
}

// ---- windows ----------------------------------------------------------------------

fn window(id: u32, title: &str) -> WindowFacts {
    WindowFacts {
        id: Some(id),
        title: Some(title.to_string()),
        app_name: Some("app".to_string()),
        x: Some(1),
        y: Some(2),
        width: Some(300),
        height: Some(400),
        minimized: Some(false),
    }
}

#[test]
fn test_window_capture_methods() {
    let _ = WindowCapture::focused(&[]);
    let _ = WindowCapture::from_title("nonexistent", &[]);
    let windows = WindowCapture::list_application_windows(&[]);
    assert!(windows.is_empty() || !windows.is_empty());
}

#[test]
fn windows_are_found_by_title_and_id() {
    let windows = [window(3, "Terminal"), window(5, "My Editor")];
    assert_eq!(WindowCapture::from_title("Editor", &windows).unwrap().window_id, 5);
    assert_eq!(
        WindowCapture::from_title("nonexistent", &windows),
        Err(WindowError::NoSuchTitle)
    );
    assert_eq!(WindowCapture::focused(&[]), Err(WindowError::NoneFocused));
    assert_eq!(WindowCapture::new(5).find_window(&windows), Ok(1));
    assert_eq!(WindowCapture::new(6).find_window(&windows), Err(WindowError::NoSuchId));
    let listed = WindowCapture::list_application_windows(&windows);
    let titles: Vec<&str> = listed.iter().map(|w| w.title.as_str()).collect();
    assert_eq!(titles, vec!["My Editor", "Terminal"]);
    let mut small = window(9, "Small");
    small.width = Some(50);
    assert!(WindowCapture::list_application_windows(&[small]).is_empty());
}

#[test]
fn window_rectangles() {
    assert_eq!(frame_center(0, 0, 10, 20), (5, 10));
    assert_eq!(frame_rect(1, 2, 11, 22), Rectangle::new(1, 2, 10, 20));
    assert_eq!(geometry_rect(-3, 4, 10, 20), Rectangle::new(-3, 4, 10, 20));
    assert!(window_sources(false, false, true, false).contains(&WindowSource::Listed));
}

// ---- frames -----------------------------------------------------------------------

#[test]
fn opaque_forces_alpha_when_fully_transparent() {
    let mut img = solid(4, 4, Rgba::new(10, 20, 30, 0));
    ensure_opaque_if_fully_transparent(&mut img);
    for y in 0..4 {
        for x in 0..4 {
            assert_eq!(img.get_pixel(x, y), Rgba::new(10, 20, 30, 255));
        }
    }
}

#[test]
fn opaque_leaves_mixed_alpha_untouched() {
    let mut img = solid(4, 4, Rgba::new(10, 20, 30, 0));
    img.put_pixel(1, 1, Rgba::new(1, 2, 3, 128));
    ensure_opaque_if_fully_transparent(&mut img);
    assert_eq!(img.get_pixel(0, 0), Rgba::new(10, 20, 30, 0));
    assert_eq!(img.get_pixel(1, 1), Rgba::new(1, 2, 3, 128));
}

#[test]
fn black_frame_detects_zero_rgb_even_with_opaque_alpha() {
    let img = solid(8, 8, Rgba::new(0, 0, 0, 255));
    assert!(is_black_frame(&img));
}

#[test]
fn black_frame_false_on_any_nonzero_color() {
    let mut img = solid(8, 8, Rgba::new(0, 0, 0, 0));
    img.put_pixel(3, 7, Rgba::new(0, 0, 1, 0));
    assert!(!is_black_frame(&img));
}

#[test]
fn black_frame_true_on_all_zero() {
    let img = solid(8, 8, Rgba::new(0, 0, 0, 0));
    assert!(is_black_frame(&img));
}

#[test]
fn par_convert_small_buffer_is_exact() {
    let src = [1u8, 2, 3, 4, 5, 6, 7, 8];
    let mut got = [0u8; 8];
    par_convert(&src, &mut got, |s| [s[2], s[1], s[0], 255]);
    assert_eq!(got, [3, 2, 1, 255, 7, 6, 5, 255]);
}

#[test]
fn par_convert_matches_serial_across_chunk_boundaries() {
    let px = 400_000usize;
    let mut src = vec![0u8; px * 4];
    for (i, b) in src.iter_mut().enumerate() {
        *b = (i % 251) as u8;
    }
    let mut got = vec![0u8; px * 4];
    par_convert(&src, &mut got, |s| [s[2], s[1], s[0], s[3]]);

    let mut want = vec![0u8; px * 4];
    for (d, s) in want.chunks_exact_mut(4).zip(src.chunks_exact(4)) {
        d[0] = s[2];
        d[1] = s[1];
        d[2] = s[0];
        d[3] = s[3];
    }
    assert_eq!(got, want, "parallel output must match the serial swap byte-for-byte");
}

#[test]
fn capture_serial_path_is_identical_to_parallel() {
    let px = 400_000usize;
    let mut src = vec![0u8; px * 4];
    for (i, b) in src.iter_mut().enumerate() {
        *b = (i % 251) as u8;
    }
    let mut parallel = vec![0u8; px * 4];
    par_convert(&src, &mut parallel, |s| [s[2], s[1], s[0], 255]);

    let mut serial = vec![0u8; px * 4];
    capture_serial(|| par_convert(&src, &mut serial, |s| [s[2], s[1], s[0], 255]));

    assert_eq!(parallel, serial, "capture_serial must not change the output bytes");
}

#[test]
fn frames_are_cut_turned_and_pasted() {
    let img = numbered(3, 2);
    let part = crop(&img, 1, 0, 2, 2);
    assert_eq!((part.width(), part.height()), (2, 2));
    assert_eq!(part.get_pixel(0, 1), Rgba::new(1, 1, 7, 255));

    let right = turn_right(&img);
    assert_eq!((right.width(), right.height()), (2, 3));
    // the lower left corner goes to the upper left one
    assert_eq!(right.get_pixel(0, 0), Rgba::new(0, 1, 7, 255));
    let left = turn_left(&img);
    // the upper right corner goes to the upper left one
    assert_eq!(left.get_pixel(0, 0), Rgba::new(2, 0, 7, 255));

    let mut dst = solid(4, 4, Rgba::new(9, 9, 9, 255));
    assert!(paste(&mut dst, &img, 1, 2));
    assert_eq!(dst.get_pixel(1, 2), Rgba::new(0, 0, 7, 255));
    assert_eq!(dst.get_pixel(3, 3), Rgba::new(2, 1, 7, 255));
    assert_eq!(dst.get_pixel(0, 0), Rgba::new(9, 9, 9, 255));
    assert!(!paste(&mut dst, &img, 2, 2));
}

#[test]
fn frames_and_their_bytes() {
    let img = numbered(2, 2);
    let raw = raw_of(&img);
    assert_eq!(&raw[..8], &[0, 0, 7, 255, 1, 0, 7, 255]);
    let back = from_raw(2, 2, &raw).unwrap();
    assert_eq!(raw_of(&back), raw);
    assert!(from_raw(2, 2, &raw[..15]).is_none());
}

#[test]
fn turned_displays_are_turned_back() {
    let img = numbered(2, 4);
    let kept = orient_captured_image(numbered(2, 4), 2, 4, MonitorRotation::Rotate90);
    assert_eq!((kept.width(), kept.height()), (2, 4));
    let turned = orient_captured_image(img, 4, 2, MonitorRotation::Rotate270);
    assert_eq!((turned.width(), turned.height()), (4, 2));
}

#[test]
fn a_black_capture_is_tried_again() {
    let black = solid(2, 2, Rgba::new(0, 0, 0, 0));
    let lit = solid(2, 2, Rgba::new(5, 5, 5, 255));
    let r = settle_monitor(black, Some(lit));
    assert_eq!(r.get_pixel(0, 0), Rgba::new(5, 5, 5, 255));
    assert_eq!(first_source(true, true), MonitorSource::Wgc);
    assert_eq!(first_source(true, false), MonitorSource::Hdr);
    assert_eq!(first_source(false, true), MonitorSource::Gdi);
    assert_eq!(fallback_source(MonitorSource::Hdr), Some(MonitorSource::Gdi));
    assert_eq!(fallback_source(MonitorSource::Gdi), Some(MonitorSource::Listed));
    assert_eq!(fallback_source(MonitorSource::Listed), None);
}

#[test]
fn switches_in_the_environment() {
    assert!(switch_enabled(Some("1")));
    assert!(!switch_enabled(Some("0")));
}

// ---- the pointer ------------------------------------------------------------------

#[test]
fn the_pointer_is_painted_with_its_alpha() {
    let mut img = solid(4, 4, Rgba::new(0, 0, 0, 255));
    let shot = CursorShot::at(solid(2, 2, Rgba::new(200, 100, 50, 128)), (12, 22), (1, 1));
    assert_eq!(shot.screen_pos(), (11, 21));
    assert!(composite_cursor_shot(&mut img, &shot, (10, 20)));
    assert_eq!(img.get_pixel(1, 1), Rgba::new(100, 50, 25, 255));
    assert_eq!(img.get_pixel(0, 0), Rgba::new(0, 0, 0, 255));
    assert_eq!(img.get_pixel(3, 3), Rgba::new(0, 0, 0, 255));
    let far = CursorShot::at(solid(2, 2, Rgba::new(200, 100, 50, 255)), (500, 500), (0, 0));
    let before = raw_of(&img);
    composite_cursor_shot(&mut img, &far, (10, 20));
    assert_eq!(raw_of(&img), before);
}

#[test]
fn pointers_without_alpha_are_masked() {
    assert_eq!(cursor_size(32, 32, true), Some((32, 32)));
    assert_eq!(cursor_size(32, 64, false), Some((32, 32)));
    assert_eq!(cursor_size(0, 32, true), None);
    assert_eq!(cursor_size(1000, 32, true), None);
    let raw = [3u8, 2, 1, 0, 0, 0, 0, 0];
    let img = cursor_image(&raw, 2, 1);
    assert_eq!(img.get_pixel(0, 0), Rgba::new(1, 2, 3, 255));
    assert_eq!(img.get_pixel(1, 0).a, 0);
}

// ---- KWin -------------------------------------------------------------------------

#[test]
fn decodes_padded_argb32_rows() {
    let raw = [3, 2, 1, 255, 0, 0, 0, 0];
    let image = decode(&raw, 1, 1, 8, 5).unwrap();
    assert_eq!(image.get_pixel(0, 0), Rgba::new(1, 2, 3, 255));
}

#[test]
fn rejects_short_stride() {
    assert!(decode(&[0; 4], 2, 1, 4, 5).is_err());
}

#[test]
fn rejects_unknown_qimage_format() {
    assert!(decode(&[0; 4], 1, 1, 4, 99).is_err());
}

#[test]
fn replies_are_checked_before_they_are_decoded() {
    let reply = ScreenshotReply {
        width: Some(BusValue::U32(1)),
        height: Some(BusValue::I32(1)),
        stride: Some(BusValue::U32(4)),
        format: Some(BusValue::U32(5)),
    };
    let image = decode_reply(&reply, &[3, 2, 1, 0]).unwrap();
    assert_eq!(image.get_pixel(0, 0), Rgba::new(1, 2, 3, 255));
    let mut missing = reply;
    missing.height = None;
    assert_eq!(
        decode_reply(&missing, &[3, 2, 1, 0]).unwrap_err(),
        KwinError::Missing(ReplyField::Height)
    );
    let mut odd = reply;
    odd.stride = Some(BusValue::Other);
    assert_eq!(
        decode_reply(&odd, &[3, 2, 1, 0]).unwrap_err(),
        KwinError::NotAnInteger(ReplyField::Stride)
    );
    // the last row need not be padded, and what is refused is not read
    let image = decode(&[3, 2, 1, 0, 9, 9, 9, 9, 6, 5, 4, 0], 1, 2, 8, 5).unwrap();
    assert_eq!(image.get_pixel(0, 1), Rgba::new(4, 5, 6, 255));
    assert_eq!(decode(&[], 1, 1, 4, 99).unwrap_err(), KwinError::UnsupportedFormat(99));
    assert_eq!(
        decode(&[], 2, 1, 4, 5).unwrap_err(),
        KwinError::ShortStride { stride: 4, width: 2 }
    );
    let mut wide = reply;
    wide.width = Some(BusValue::U32(0x4000_0000));
    wide.height = Some(BusValue::U32(0));
    wide.stride = Some(BusValue::U32(u32::MAX));
    let image = decode_reply(&wide, &[]).unwrap();
    assert_eq!((image.width(), image.height()), (0x4000_0000, 0));
    wide.format = Some(BusValue::U32(99));
    assert_eq!(decode_reply(&wide, &[]).unwrap_err(), KwinError::UnsupportedFormat(99));
    assert_eq!(check_area(0, 5), Err(KwinError::ZeroSized));
    assert_eq!(check_area(3, 5), Ok(()));
}

fn entry(handle: &str, pid: i32, layer: i32) -> WindowEntry {
    WindowEntry {
        handle: handle.to_string(),
        pid: Some(pid),
        minimized: false,
        skip_switcher: false,
        skip_taskbar: false,
        exclude_from_capture: false,
        geometry: Some(WindowGeometry { x: 0, y: 0, width: 100, height: 100, tiny: false }),
        layer: Some(layer),
    }
}

#[test]
fn windows_are_listed_from_the_top() {
    let entries = [entry("{a}", 1, 2), entry("{b}", 1, 2), entry("{own}", 9, 2)];
    let order = vec!["{b}".to_string(), "{a}".to_string()];
    let names: Vec<String> =
        pickable_windows(&entries, 9, Some(&order)).into_iter().map(|w| w.handle).collect();
    assert_eq!(names, vec!["{a}", "{b}"]);
    let order = vec!["{a}".to_string(), "{b}".to_string()];
    let names: Vec<String> =
        pickable_windows(&entries, 9, Some(&order)).into_iter().map(|w| w.handle).collect();
    assert_eq!(names, vec!["{b}", "{a}"]);
}

#[test]
fn handles_scripts_and_stacking() {
    assert_eq!(parse_stacking_order("a;;b;"), vec!["a", "b"]);
    assert_eq!(match_handle("0_{1234}"), "{1234}");
    assert_eq!(exclusion_file(42), "capscr_kwin_42.js");
    let guard = exclude_own_windows_from_capture(3, "/tmp/a.js".to_string()).unwrap();
    assert_eq!(guard.script_path, "/Scripting/Script3");
    assert_eq!(guard.file, "/tmp/a.js");
    let refused = exclude_own_windows_from_capture(-1, "/tmp/a.js".to_string()).unwrap_err();
    assert_eq!(refused, KwinError::ScriptRefused);
    assert_eq!(refused.message(), "kwin refused the capture-exclusion script");
    assert!(exclusion_script(42, "mark").contains("42"));
    let own = own_windows(
        &[
            (Some(5), Some("capscr — pinned".to_string())),
            (Some(5), Some("other".to_string())),
            (Some(6), Some("capscr — pinned".to_string())),
        ],
        5,
        "capscr — pinned",
    );
    assert_eq!(own, vec![0]);
}

// ---- the chain of sources ---------------------------------------------------------

#[test]
fn order_follows_capabilities() {
    let none = WaylandGlobals { ext_image_copy: false, wlr_screencopy: false };
    let kde = compute_order(true, none);
    assert_eq!(kde, vec![SourceKind::KwinScreenshot2, SourceKind::PortalScreenshot]);
    let wlroots =
        compute_order(false, WaylandGlobals { ext_image_copy: true, wlr_screencopy: true });
    assert_eq!(
        wlroots,
        vec![
            SourceKind::ExtImageCopy,
            SourceKind::WlrScreencopy,
            SourceKind::PortalScreenshot,
        ],
    );
    let gnome = compute_order(false, none);
    assert_eq!(gnome, vec![SourceKind::PortalScreenshot]);
}

#[test]
fn sources_have_names() {
    for kind in [
        SourceKind::KwinScreenshot2,
        SourceKind::ExtImageCopy,
        SourceKind::WlrScreencopy,
        SourceKind::PortalScreenshot,
    ] {
        assert_eq!(SourceKind::from_name(kind.name()), Some(kind));
    }
    assert_eq!(SourceKind::from_name("nothing"), None);
    let caps = WaylandGlobals { ext_image_copy: true, wlr_screencopy: false };
    let forced = SourceKind::PortalScreenshot.name();
    assert_eq!(still_order(Some(forced), true, caps), vec![SourceKind::PortalScreenshot]);
}

#[test]
fn the_chain_asks_in_turn() {
    let mut chain = Chain::new(
        vec![SourceKind::ExtImageCopy, SourceKind::WlrScreencopy, SourceKind::PortalScreenshot],
        false,
    );
    assert_eq!(chain.advance(), ChainAction::Ask(SourceKind::ExtImageCopy));
    assert_eq!(
        chain.answer(SourceKind::ExtImageCopy, SourceAnswer::Failed),
        ChainAction::Ask(SourceKind::WlrScreencopy)
    );
    assert_eq!(
        chain.answer(SourceKind::WlrScreencopy, SourceAnswer::Picture),
        ChainAction::Accept(SourceKind::WlrScreencopy)
    );
    let mut empty = Chain::new(vec![], false);
    assert_eq!(empty.advance(), ChainAction::GiveUp(ChainError::NoSource));
    let mut failing = Chain::new(vec![SourceKind::ExtImageCopy], false);
    failing.advance();
    assert_eq!(
        failing.answer(SourceKind::ExtImageCopy, SourceAnswer::Failed),
        ChainAction::GiveUp(ChainError::SourceFailed(SourceKind::ExtImageCopy))
    );
    let mut dark = Chain::new(vec![SourceKind::WlrScreencopy], false);
    dark.advance();
    assert_eq!(
        dark.answer(SourceKind::WlrScreencopy, SourceAnswer::Black),
        ChainAction::GiveUp(ChainError::AllBlack(SourceKind::WlrScreencopy))
    );
}

// ---- X11 and graphics capture -----------------------------------------------------

#[test]
fn grabs_stay_on_the_root_window() {
    let r = clamp_to_root(-10, 5, 50, 1000, 100, 80);
    assert_eq!((r.x, r.y, r.width, r.height), (0, 5, 50, 75));
    assert!(matches!(
        capscr::capture::x11_grab::decode_reply(&[0; 4], 16, 1, 1),
        Err(X11Error::UnsupportedDepth(16))
    ));
    assert!(matches!(
        capscr::capture::x11_grab::decode_reply(&[0; 3], 24, 1, 1),
        Err(X11Error::ShortReply { got: 3, expected: 4 })
    ));
    let img = capscr::capture::x11_grab::decode_reply(&[3, 2, 1, 0], 24, 1, 1).unwrap();
    assert_eq!(img.get_pixel(0, 0), Rgba::new(1, 2, 3, 255));
}

#[test]
fn undrawn_frames_are_tried_again() {
    let raw = vec![0u8; 64];
    assert!(matches!(judge_frame(&raw, 4, 4, 16), WgcFrame::Black));
    assert!(matches!(judge_frame(&raw, 4, 4, 15), WgcFrame::BadPitch));
    let mut lit = raw.clone();
    lit[0] = 9;
    assert!(matches!(judge_frame(&lit, 4, 4, 16), WgcFrame::Picture { .. }));
}

#[test]
fn a_service_capture_waits_for_a_picture() {
    let mut g = WgcGrab::new();
    assert_eq!(g.capture_item(WgcEvent::Waited), WgcStep::Ignore);
    assert_eq!(g.capture_item(WgcEvent::Sized { width: 10, height: 4 }), WgcStep::Start);
    assert_eq!(g.capture_item(WgcEvent::Started), WgcStep::Poll);
    assert_eq!(g.capture_item(WgcEvent::Polled { got: false }), WgcStep::Wait { ms: 2 });
    assert_eq!(g.capture_item(WgcEvent::Waited), WgcStep::Poll);
    assert_eq!(g.capture_item(WgcEvent::Polled { got: true }), WgcStep::Read);
    assert_eq!(
        g.capture_item(WgcEvent::Came { attempt: WgcAttempt::Black }),
        WgcStep::Wait { ms: 10 }
    );
    assert_eq!(g.capture_item(WgcEvent::Waited), WgcStep::Poll);
    assert_eq!(g.attempt, 1);
    assert_eq!(g.capture_item(WgcEvent::Polled { got: true }), WgcStep::Read);
    assert_eq!(g.capture_item(WgcEvent::Came { attempt: WgcAttempt::Nothing }), WgcStep::Poll);
    assert_eq!(g.capture_item(WgcEvent::Polled { got: true }), WgcStep::Read);
    assert_eq!(
        g.capture_item(WgcEvent::Came { attempt: WgcAttempt::Picture }),
        WgcStep::Accept
    );
    assert_eq!(g.capture_item(WgcEvent::Polled { got: true }), WgcStep::Ignore);
}

#[test]
fn a_service_capture_gives_up() {
    let mut g = WgcGrab::new();
    let none = g.capture_item(WgcEvent::Sized { width: 0, height: 4 });
    assert_eq!(none, WgcStep::Fail { fault: WgcFault::NoSize, close: false });
    assert_eq!(WgcFault::NoSize.message(""), "monitor item has zero size");

    let mut g = WgcGrab::new();
    g.capture_item(WgcEvent::Sized { width: 1, height: 1 });
    assert_eq!(
        g.capture_item(WgcEvent::Failed),
        WgcStep::Fail { fault: WgcFault::Refused, close: false }
    );
    assert_eq!(WgcFault::Refused.message("StartCapture: no"), "StartCapture: no");

    let mut g = WgcGrab::new();
    g.capture_item(WgcEvent::Sized { width: 1, height: 1 });
    let mut step = g.capture_item(WgcEvent::Started);
    let mut polls = 0;
    while step == WgcStep::Poll {
        polls += 1;
        g.capture_item(WgcEvent::Polled { got: false });
        step = g.capture_item(WgcEvent::Waited);
    }
    assert_eq!(polls, 300);
    assert_eq!(step, WgcStep::Fail { fault: WgcFault::NoPicture, close: true });
    assert_eq!(
        WgcFault::NoPicture.message(""),
        "WGC: failed to acquire non-black frame after 10 attempts"
    );
}

fn acquiring(route: GrabRoute) -> HdrGrab {
    let mut g = HdrGrab::new(route);
    g.advance(GrabEvent::Begin { modern: true });
    assert_eq!(g.advance(GrabEvent::Duplicated { ok: true }), GrabStep::Wait { ms: 10 });
    assert_eq!(g.advance(GrabEvent::Waited), GrabStep::Acquire);
    g
}

#[test]
fn raw_samples_are_grabbed() {
    let mut g = HdrGrab::new(GrabRoute::Raw);
    assert_eq!(
        g.advance(GrabEvent::Begin { modern: true }),
        GrabStep::DuplicateHdr { plain: true }
    );
    assert_eq!(g.advance(GrabEvent::Duplicated { ok: false }), GrabStep::Duplicate);
    assert_eq!(
        g.advance(GrabEvent::Duplicated { ok: false }),
        GrabStep::Fail { fault: GrabFault::NoDuplication { modern: false } }
    );

    let frame = AcquireEvent::Frame { last_present: 0, accumulated: 0, has_resource: true };
    let mut g = acquiring(GrabRoute::Raw);
    assert_eq!(
        g.advance(GrabEvent::Acquired { event: AcquireEvent::AccessLost }),
        GrabStep::Retry { action: AcquireAction::Rebuild { sleep_ms: 10 } }
    );
    assert_eq!(g.advance(GrabEvent::Waited), GrabStep::Acquire);
    assert_eq!(g.advance(GrabEvent::Acquired { event: frame }), GrabStep::Describe);
    let texture = TextureFormat::Rgba16Float;
    let step = g.advance(GrabEvent::Described { texture, width: 10, height: 4 });
    let plan = match step {
        GrabStep::MapTexture { plan } => plan,
        other => panic!("{:?}", other),
    };
    assert_eq!(plan.row_bytes, 80);
    assert_eq!(plan.format, HdrFormat::ScRgb);
    let mut short = g;
    assert_eq!(
        short.advance(GrabEvent::Mapped { pitch: 79, null: false }),
        GrabStep::Fail { fault: GrabFault::ShortPitch { pitch: 79, row_bytes: 80 } }
    );
    let mut null = g;
    assert_eq!(
        null.advance(GrabEvent::Mapped { pitch: 80, null: true }),
        GrabStep::Fail { fault: GrabFault::NullPointer }
    );
    assert_eq!(
        g.advance(GrabEvent::Mapped { pitch: 96, null: false }),
        GrabStep::Read { plan, pitch: 96 }
    );
    assert_eq!(g.advance(GrabEvent::Failed), GrabStep::Ignore);
}

#[test]
fn hdr_textures_are_tone_mapped_and_no_others() {
    let mut g = HdrGrab::new(GrabRoute::Mapped);
    assert_eq!(
        g.advance(GrabEvent::Begin { modern: true }),
        GrabStep::DuplicateHdr { plain: false }
    );
    assert_eq!(
        g.advance(GrabEvent::Duplicated { ok: false }),
        GrabStep::Fail { fault: GrabFault::NoDuplication { modern: true } }
    );

    let frame = AcquireEvent::Frame { last_present: 7, accumulated: 0, has_resource: true };
    let stale = AcquireEvent::Frame { last_present: 0, accumulated: 0, has_resource: true };
    let mut g = acquiring(GrabRoute::Mapped);
    assert_eq!(
        g.advance(GrabEvent::Acquired { event: stale }),
        GrabStep::Retry { action: AcquireAction::Release { sleep_ms: 2 } }
    );
    g.advance(GrabEvent::Waited);
    assert_eq!(g.advance(GrabEvent::Acquired { event: frame }), GrabStep::Describe);
    let mut none = g;
    assert_eq!(
        none.advance(GrabEvent::NoResource),
        GrabStep::Fail { fault: GrabFault::NoResource }
    );
    let mut empty = g;
    let texture = TextureFormat::Bgra8;
    assert_eq!(
        empty.advance(GrabEvent::Described { texture, width: 0, height: 4 }),
        GrabStep::Fail { fault: GrabFault::NoDimensions }
    );
    let mut plain = g;
    assert_eq!(
        plain.advance(GrabEvent::Described { texture, width: 3, height: 4 }),
        GrabStep::Measure
    );
    assert_eq!(
        plain.advance(GrabEvent::Measured),
        GrabStep::Fail { fault: GrabFault::SdrSource }
    );
    let texture = TextureFormat::Rgb10A2;
    g.advance(GrabEvent::Described { texture, width: 3, height: 4 });
    let plan = match g.advance(GrabEvent::Measured) {
        GrabStep::Draw { plan } => plan,
        other => panic!("{:?}", other),
    };
    assert_eq!(plan.row_bytes, 12);
    assert_eq!(g.advance(GrabEvent::Drawn), GrabStep::MapTexture { plan });
    assert_eq!(
        g.advance(GrabEvent::Mapped { pitch: 16, null: false }),
        GrabStep::Read { plan, pitch: 16 }
    );
}

#[test]
fn a_grab_gives_up_after_thirty_attempts() {
    let mut g = acquiring(GrabRoute::Raw);
    let mut attempts = 0;
    let mut step = GrabStep::Acquire;
    while step == GrabStep::Acquire {
        attempts += 1;
        g.advance(GrabEvent::Acquired { event: AcquireEvent::Timeout });
        step = g.advance(GrabEvent::Waited);
    }
    assert_eq!(attempts, 30);
    assert_eq!(step, GrabStep::Fail { fault: GrabFault::NoFrame });

    let mut g = HdrGrab::new(GrabRoute::Raw);
    assert_eq!(
        g.advance(GrabEvent::Failed),
        GrabStep::Fail { fault: GrabFault::Refused }
    );
    let mut g = acquiring(GrabRoute::Raw);
    g.advance(GrabEvent::Acquired {
        event: AcquireEvent::Frame { last_present: 1, accumulated: 0, has_resource: true },
    });
    assert_eq!(
        g.advance(GrabEvent::Described {
            texture: TextureFormat::Bgra8,
            width: 16385,
            height: 4,
        }),
        GrabStep::Fail { fault: GrabFault::TooLarge }
    );
}

#[test]
fn grab_faults_are_told_in_words() {
    let raw = GrabRoute::Raw;
    let mapped = GrabRoute::Mapped;
    assert_eq!(
        GrabFault::NoDuplication { modern: true }.message(mapped, "x"),
        "DuplicateOutput1 failed: x"
    );
    assert_eq!(
        GrabFault::NoDuplication { modern: false }.message(raw, "x"),
        "DuplicateOutput failed: x"
    );
    assert_eq!(
        GrabFault::NoFrame.message(raw, ""),
        "Failed to acquire HDR frame after 30 attempts — display may be sleeping or no recent updates"
    );
    assert_eq!(
        GrabFault::NoFrame.message(mapped, ""),
        "D2D: no frame acquired after 30 attempts"
    );
    assert_eq!(GrabFault::NoResource.message(raw, ""), "No desktop resource");
    assert_eq!(GrabFault::NoResource.message(mapped, ""), "no desktop resource");
    assert_eq!(GrabFault::NoDimensions.message(raw, ""), "Invalid texture dimensions");
    assert_eq!(
        GrabFault::NoDimensions.message(mapped, ""),
        "desktop texture has zero dimensions"
    );
    assert_eq!(GrabFault::TooLarge.message(raw, ""), "Texture dimensions exceed maximum");
    assert_eq!(
        GrabFault::SdrSource.message(mapped, "DXGI_FORMAT(87)"),
        "D2D tonemap: source is SDR (DXGI_FORMAT(87)), fall back to GDI"
    );
    let short = GrabFault::ShortPitch { pitch: 79, row_bytes: 80 };
    assert_eq!(short.message(raw, ""), "Invalid row pitch from GPU");
    assert_eq!(short.message(mapped, ""), "row_pitch 79 < row_bytes 80");
    assert_eq!(GrabFault::NullPointer.message(raw, ""), "Null pointer from GPU mapping");
    assert_eq!(GrabFault::NullPointer.message(mapped, ""), "staging Map null pointer");
    assert_eq!(GrabFault::Refused.message(raw, "no device"), "no device");
}

#[test]
fn hdr_samples_are_kept_beside_the_picture() {
    let c = HdrCapture::new();
    assert_eq!(c.capture_with_hdr_at(true, true), HdrSource::Raw);
    assert_eq!(c.capture_with_hdr_at(true, false), HdrSource::Plain);
    assert_eq!(c.capture_with_hdr_at(false, true), HdrSource::Plain);
    assert_eq!(c.settle_raw(2, 2, HdrFormat::ScRgb), Ok(true));
    assert_eq!(c.settle_raw(2, 2, HdrFormat::Sdr), Ok(false));
    assert_eq!(c.settle_raw(0, 2, HdrFormat::Sdr), Err(RawFault::NoDimensions));
    assert_eq!(c.settle_raw(2, 16385, HdrFormat::Sdr), Err(RawFault::TooLarge));
    assert_eq!(RawFault::NoDimensions.message(), "Invalid capture dimensions");
    assert_eq!(RawFault::TooLarge.message(), "Capture dimensions exceed maximum");
}

#[test]
fn the_work_of_the_tone_mapper() {
    assert_eq!(tonemap_size(0, 4, 100), TonemapSize::OnePixel);
    assert_eq!(tonemap_size(16385, 1, 1 << 20), TonemapSize::OnePixel);
    assert_eq!(tonemap_size(2, 2, 15), TonemapSize::Blank);
    assert_eq!(tonemap_size(2, 2, 16), TonemapSize::Whole { pixels: 4 });
    assert_eq!(peak_stride(99_999), 1);
    assert_eq!(peak_stride(8_294_400), 82);
    assert_eq!(peak_rank(0, true), None);
    assert_eq!(peak_rank(4, true), Some(3));
    assert_eq!(peak_rank(200, true), Some(197));
    assert_eq!(peak_rank(200, false), Some(199));
    assert_eq!(pixels_per_thread(10, 4), 3);
    assert_eq!(pixels_per_thread(64, 40), 4);
    assert_eq!(pixels_per_thread(0, 3), 0);
}

#[test]
fn displays_and_their_desktop() {
    assert_eq!(MonitorRotation::from_setting(3), MonitorRotation::Rotate270);
    assert_eq!(MonitorRotation::from_setting(9), MonitorRotation::Unknown);
    let m = monitor(1, "A", -100, 20, 201, 101);
    assert_eq!(m.center(), (0, 70));
    assert!(desktop_is_addressable(&[m]));
}

#[test]
fn handles_of_matches_stand_once() {
    let ids = ["0_{a}".to_string(), "1_{b}".to_string(), "2_{a}".to_string()];
    assert_eq!(match_handles(&ids), vec!["{a}", "{b}"]);
}

#[test]
fn capture_errors_are_told_in_words() {
    assert_eq!(KwinError::ZeroSized.message(), "refusing to capture a zero-sized area");
    assert_eq!(
        KwinError::Missing(ReplyField::Width).message(),
        "ScreenShot2 result missing 'width'"
    );
    assert_eq!(
        KwinError::NotAnInteger(ReplyField::Stride).message(),
        "ScreenShot2 result 'stride' is not an integer"
    );
    assert_eq!(
        KwinError::ShortRead { got: 3, expected: 16 }.message(),
        "ScreenShot2 short read: got 3 bytes, expected 16"
    );
    assert_eq!(
        KwinError::ShortStride { stride: 3, width: 2 }.message(),
        "ScreenShot2 stride 3 is too short for 2 pixels"
    );
    assert_eq!(
        KwinError::UnsupportedFormat(9).message(),
        "unsupported ScreenShot2 QImage format 9"
    );
    assert_eq!(ReplyField::Height.name(), "height");
    assert_eq!(X11Error::UnsupportedDepth(16).message(), "unsupported root depth 16");
    assert_eq!(
        X11Error::ShortReply { got: 3, expected: 4 }.message(),
        "short GetImage reply: 3 < 4"
    );
    assert_eq!(
        ChainError::NoSource.message(false, ""),
        "no wayland pixel source available"
    );
    assert_eq!(
        ChainError::NoSource.message(true, ""),
        "no wayland recording source available"
    );
    let black = ChainError::AllBlack(SourceKind::ExtImageCopy);
    assert_eq!(black.message(false, ""), "ext-image-copy returned an all-black frame");
    assert_eq!(black.message(true, ""), "ext-image-copy probe frame is all-black");
    let failed = ChainError::SourceFailed(SourceKind::WlrScreencopy);
    assert_eq!(failed.message(false, "why"), "why");
    assert_eq!(
        WindowError::NoSuchTitle.message("a", 7, ""),
        "Window with title 'a' not found"
    );
    assert_eq!(WindowError::NoneFocused.message("a", 7, ""), "No focused window found");
    assert_eq!(WindowError::NoSuchId.message("a", 7, ""), "Window 7 not found");
    assert_eq!(WindowError::Unreadable.message("a", 7, "why"), "why");
    assert_eq!(
        HdrPngError::ScRgb.message(""),
        "scRGB HDR encoding not supported (needs matrix + PQ pass); falling back to SDR"
    );
    assert_eq!(
        HdrPngError::Hlg.message(""),
        "HLG HDR encoding not supported (needs upsample to 16-bit); falling back to SDR"
    );
    assert_eq!(
        HdrPngError::Sdr.message(""),
        "encode_hdr_png called with SDR bitmap — programmer error"
    );
    assert_eq!(HdrPngError::Overflow.message(""), "hdr10 dimensions overflow byte count");
    assert_eq!(
        HdrPngError::BufferTooSmall { have: 3, need: 8 }.message(""),
        "hdr10 source buffer too small: have 3, need 8"
    );
    assert_eq!(HdrPngError::Empty.message("why"), "why");
}

#[test]
fn black_displays_are_asked_again() {
    let (mut shot, first) = MonitorShot::new(true, true);
    assert_eq!(first, MonitorSource::Wgc);
    assert_eq!(
        shot.capture_one_monitor(ShotEvent::Failed),
        ShotStep::Ask { source: MonitorSource::Gdi }
    );
    assert_eq!(
        shot.capture_one_monitor(ShotEvent::Came { black: true }),
        ShotStep::Ask { source: MonitorSource::Gdi }
    );
    let mut lit = shot;
    assert_eq!(
        lit.capture_one_monitor(ShotEvent::Came { black: false }),
        ShotStep::Take { second: true }
    );
    let mut dark = shot;
    assert_eq!(
        dark.capture_one_monitor(ShotEvent::Came { black: true }),
        ShotStep::Take { second: false }
    );
    assert_eq!(
        shot.capture_one_monitor(ShotEvent::Failed),
        ShotStep::Ask { source: MonitorSource::Listed }
    );
    assert_eq!(
        shot.capture_one_monitor(ShotEvent::Failed),
        ShotStep::Take { second: false }
    );
    assert_eq!(shot.capture_one_monitor(ShotEvent::Failed), ShotStep::Ignore);

    let (mut shot, first) = MonitorShot::new(false, true);
    assert_eq!(first, MonitorSource::Gdi);
    shot.capture_one_monitor(ShotEvent::Failed);
    assert_eq!(shot.capture_one_monitor(ShotEvent::Failed), ShotStep::Fail);
    let (mut shot, _) = MonitorShot::new(false, false);
    assert_eq!(
        shot.capture_one_monitor(ShotEvent::Came { black: false }),
        ShotStep::Take { second: false }
    );
}

#[test]
fn the_stacking_order_is_asked_for_four_times() {
    assert_eq!(stacking_order(1, None), Ok(None));
    assert_eq!(stacking_order(3, None), Ok(None));
    assert_eq!(stacking_order(4, None), Err(KwinError::NoStackingOrder));
    assert_eq!(
        stacking_order(4, Some("a;;b;")),
        Ok(Some(vec!["a".to_string(), "b".to_string()]))
    );
    assert_eq!(KwinError::NoStackingOrder.message(), "compositor sent no stacking order");
}
