//! Frames that other programs hand over.

use capscr::capture::color_probe::{
    report, ColorDetails, ColorEvent, DescriptionState, Luminance,
};
use capscr::capture::ext_copy::{
    buffer_size, can_reuse, frame_outcome, pick_format, plan_frame, read_buffer, rebuild_once,
    BufferShape, ExtCopyError, FrameStatus, SessionConstraints, SessionEvent, ShmFormat,
};
use capscr::capture::frame::{raw_of, Rgba, RgbaImage};
use capscr::capture::gdi::{list_monitors, read_bitmap, EnumeratedMonitor};
use capscr::capture::pipewire_stream::{
    await_frame, convert_frame, frame_patience_ms, offered_formats, pack_hdr10, FrameWait,
    PipeWireFrameStream, StreamFault, StreamInfo, VideoFormat,
};
use capscr::capture::portal::{
    check_cast_step, choose_stream, cursor_mode, gui_is_wayland, is_wayland_session, request_path,
    request_token, restore_token, screenshot_path, token_path, CastStep, CastStream, PortalError,
};
use capscr::capture::region::Crop;

#[test]
fn formats_are_picked_and_read() {
    assert_eq!(
        pick_format(&[ShmFormat::Other(7), ShmFormat::Abgr8888, ShmFormat::Xrgb8888]),
        Some(ShmFormat::Xrgb8888)
    );
    assert_eq!(pick_format(&[ShmFormat::Other(7)]), None);
    let shape = BufferShape { width: 1, height: 1, format: ShmFormat::Xrgb8888 };
    let img = read_buffer(&[3, 2, 1, 0], shape).unwrap();
    assert_eq!(img.get_pixel(0, 0), Rgba::new(1, 2, 3, 255));
    let shape = BufferShape { width: 1, height: 1, format: ShmFormat::Other(7) };
    assert_eq!(read_buffer(&[3, 2, 1, 0], shape).unwrap_err(), ExtCopyError::UnhandledFormat);
}

#[test]
fn a_session_settles_before_a_frame_is_asked_for() {
    let mut c = SessionConstraints::new();
    assert!(!c.settled());
    c.on_event(SessionEvent::BufferSize { width: 4, height: 2 });
    c.on_event(SessionEvent::ShmFormat(ShmFormat::Argb8888));
    c.on_event(SessionEvent::Done);
    assert!(c.settled());
    let plan = plan_frame(&c, None).unwrap();
    assert!(plan.allocate);
    assert_eq!(plan.shape, BufferShape { width: 4, height: 2, format: ShmFormat::Argb8888 });
    assert!(!plan_frame(&c, Some(plan.shape)).unwrap().allocate);
    assert_eq!(buffer_size(4, 2), Ok((16, 32)));
    assert_eq!(buffer_size(u32::MAX, 2), Err(ExtCopyError::Overflow));
    c.on_event(SessionEvent::Stopped);
    assert_eq!(plan_frame(&c, None), Err(ExtCopyError::SessionStopped));
    assert_eq!(frame_outcome(FrameStatus::Ready), Ok(()));
    assert_eq!(
        frame_outcome(FrameStatus::FailedConstraints),
        Err(ExtCopyError::ConstraintsChanged)
    );
    assert!(rebuild_once(true, ExtCopyError::ConstraintsChanged));
    assert!(!rebuild_once(false, ExtCopyError::ConstraintsChanged));
    assert!(can_reuse(true, Some(false), true));
    assert!(!can_reuse(true, Some(true), true));
}

#[test]
fn screencast_frames_are_converted() {
    let raw = [1u8, 2, 3, 0, 9, 9, 9, 9, 4, 5, 6, 0, 9, 9, 9, 9];
    let img = convert_frame(&raw, 8, 1, 2, VideoFormat::Rgbx).unwrap();
    assert_eq!(img.get_pixel(0, 0), Rgba::new(1, 2, 3, 255));
    assert_eq!(img.get_pixel(0, 1), Rgba::new(4, 5, 6, 255));
    let img = convert_frame(&raw, 8, 1, 2, VideoFormat::Bgrx).unwrap();
    assert_eq!(img.get_pixel(0, 0), Rgba::new(3, 2, 1, 255));
    assert!(convert_frame(&raw, 8, 1, 2, VideoFormat::Other).is_none());
    // the last row is not all there
    assert!(convert_frame(&raw, 16, 1, 2, VideoFormat::Rgba).is_none());
}

#[test]
fn screencast_frames_are_awaited() {
    assert_eq!(await_frame(Some(2), Some(1), false), FrameWait::Take);
    assert_eq!(await_frame(Some(1), Some(1), false), FrameWait::Wait);
    assert_eq!(await_frame(None, None, true), FrameWait::NoFrames);
    assert!(frame_patience_ms(true) >= frame_patience_ms(false));
}

#[test]
fn ten_bit_frames_are_packed() {
    let word: u32 = 0x1234_5678;
    let raw = word.to_le_bytes();
    let packed = pack_hdr10(&raw, 4, 1, 1, VideoFormat::Abgr210, 16);
    let opaque = pack_hdr10(&raw, 4, 1, 1, VideoFormat::Xbgr210, 16);
    match (packed, opaque) {
        (Some(a), Some(b)) => {
            assert_eq!(u32::from_le_bytes([a[0], a[1], a[2], a[3]]), word);
            assert_eq!(u32::from_le_bytes([b[0], b[1], b[2], b[3]]), word | 0xC000_0000);
        }
        (None, None) => {
            // the stream does not say that its frames are HDR
            assert!(pack_hdr10(&raw, 4, 1, 1, VideoFormat::Rgba, 16).is_none());
        }
        _ => panic!("both formats hold ten bits"),
    }
    assert!(pack_hdr10(&raw, 4, 1, 1, VideoFormat::Rgba, 16).is_none());
}

#[test]
fn a_part_of_a_frame_is_cut_out() {
    let img = RgbaImage::from_pixel(8, 8, Rgba::new(1, 2, 3, 255)).unwrap();
    let part = shared_display((8, 8)).grab(&img, Crop { x: 6, y: 6, width: 2, height: 2 }).unwrap();
    assert_eq!((part.width(), part.height()), (2, 2));
    assert_eq!(raw_of(&part).len(), 16);
}

#[test]
fn portal_answers() {
    assert_eq!(
        screenshot_path(0, Some("file:///tmp/a%20b.png")).unwrap(),
        b"/tmp/a b.png".to_vec()
    );
    assert_eq!(
        screenshot_path(0, Some("file:///tmp/%FF.png")).unwrap(),
        b"/tmp/\xff.png".to_vec()
    );
    assert_eq!(screenshot_path(1, Some("file:///tmp/a.png")).unwrap_err(), PortalError::Denied);
    assert_eq!(screenshot_path(0, None).unwrap_err(), PortalError::NoUri);
    assert_eq!(screenshot_path(0, Some("not a url")).unwrap_err(), PortalError::NotAUrl);
    assert_eq!(
        screenshot_path(0, Some("https://example.com/a.png")).unwrap_err(),
        PortalError::NotALocalFile
    );
}

#[test]
fn portal_requests() {
    assert!(is_wayland_session(true, None));
    assert!(is_wayland_session(false, Some("wayland")));
    assert!(!is_wayland_session(false, Some("x11")));
    assert!(!gui_is_wayland(Some("x11"), true, Some("wayland")));
    assert_eq!(request_token(12, 3), "capscr_12_3");
    assert_eq!(
        request_path(":1.42", "tok"),
        "/org/freedesktop/portal/desktop/request/1_42/tok"
    );
    assert_eq!(check_cast_step(CastStep::Start, 0), Ok(()));
    assert_eq!(check_cast_step(CastStep::CreateSession, 1), Err(PortalError::SessionDenied));
    assert_eq!(
        check_cast_step(CastStep::SelectSources, 1),
        Err(PortalError::SelectionCancelled)
    );
    assert_eq!(check_cast_step(CastStep::Start, 2), Err(PortalError::StartCancelled));
    assert_ne!(cursor_mode(true), cursor_mode(false));
    assert_eq!(restore_token("  abc \n"), Some("abc".to_string()));
    assert_eq!(restore_token(" \n"), None);
    assert!(token_path(None, '/').is_none());
    let streams = [CastStream { node_id: 5, position: Some((1, 2)), size: Some((3, 4)) }];
    let s = choose_stream(&streams).unwrap();
    assert_eq!((s.node_id, s.position, s.size), (5, (1, 2), (3, 4)));
    assert_eq!(choose_stream(&[]).unwrap_err(), PortalError::NoStream);
}

#[test]
fn colors_of_an_output_are_reported() {
    let mut d = ColorDetails::new();
    d.on_event(ColorEvent::Transfer { name: "ST2084".to_string() });
    d.on_event(ColorEvent::Luminances { min: 50, max: 1000, reference: 203 });
    d.on_event(ColorEvent::TargetMaxCll { max_cll: 900 });
    d.on_event(ColorEvent::Done);
    assert!(d.done);
    let info = report(Some("DP-1".to_string()), DescriptionState::Ready, d);
    assert_eq!(info.output, "DP-1");
    assert_eq!(info.luminance, Some(Luminance { min: 50, max: 10_000_000, reference: 2_030_000 }));
    assert_eq!(info.target_max_cll, Some(900));
    assert!(info.is_hdr_signal());
    assert!(info.failed.is_none());
    let failed = report(
        None,
        DescriptionState::Failed { cause: "no luck".to_string() },
        ColorDetails::new(),
    );
    assert!(failed.failed.unwrap().contains("no luck"));
}

#[test]
fn displays_of_the_system_are_listed() {
    let mut device: Vec<u16> = "\\\\.\\DISPLAY1".encode_utf16().collect();
    device.push(0);
    device.push(65);
    let found = [EnumeratedMonitor {
        left: -100,
        top: 0,
        right: 0,
        bottom: 50,
        primary: true,
        device,
    }];
    let list = list_monitors(&found);
    assert_eq!(list.len(), 1);
    assert_eq!(list[0].name, "\\\\.\\DISPLAY1");
    assert_eq!((list[0].x, list[0].y, list[0].width, list[0].height), (-100, 0, 100, 50));
    assert!(list[0].is_primary);
    let img = read_bitmap(&[3, 2, 1, 0], 1, 1);
    assert_eq!(img.get_pixel(0, 0), Rgba::new(1, 2, 3, 255));
}

#[test]
fn stream_errors_are_told_in_words() {
    assert_eq!(
        frame_outcome(FrameStatus::FailedStopped),
        Err(ExtCopyError::StoppedMidFrame)
    );
    assert!(rebuild_once(true, ExtCopyError::StoppedMidFrame));
    let told = [
        (ExtCopyError::SessionStopped, "session stopped by compositor"),
        (ExtCopyError::StoppedMidFrame, "session stopped mid-frame"),
        (ExtCopyError::ConstraintsChanged, "buffer constraints changed"),
        (ExtCopyError::ZeroSized, "compositor advertised a zero-sized capture buffer"),
        (ExtCopyError::NoSupportedFormat, "no supported shm format among [x]"),
        (ExtCopyError::Overflow, "buffer width overflow"),
        (ExtCopyError::CaptureFailed, "capture failed: [x]"),
        (ExtCopyError::UnhandledFormat, "unhandled shm format [x]"),
    ];
    for (e, words) in told {
        assert_eq!(e.message("[x]"), words);
    }
    let told = [
        (PortalError::Denied, "screenshot request was denied or cancelled"),
        (PortalError::NoUri, "portal response carried no uri"),
        (PortalError::NotAUrl, "why"),
        (PortalError::NotALocalFile, "portal uri is not a local file: http://a"),
        (PortalError::SessionDenied, "screencast session was denied"),
        (PortalError::NoSession, "portal returned no session handle"),
        (PortalError::SelectionCancelled, "screencast source selection was cancelled"),
        (PortalError::StartCancelled, "screencast start was cancelled"),
        (PortalError::NoStream, "portal returned no screencast stream"),
    ];
    for (e, words) in told {
        assert_eq!(e.message("http://a", "why"), words);
    }
}

fn shared_display(size: (i32, i32)) -> PipeWireFrameStream {
    PipeWireFrameStream::new(StreamInfo { node_id: 1, position: (-10, 20), size })
}

#[test]
fn frames_of_a_screencast_are_waited_for() {
    let mut stream = shared_display((8, 8));
    assert_eq!(stream.patience_ms(), 5000);
    assert_eq!(stream.look(None, false), FrameWait::Wait);
    assert_eq!(stream.look(None, true), FrameWait::NoFrames);
    assert_eq!(stream.look(Some(7), false), FrameWait::Take);
    assert_eq!(stream.last_consumed, Some(7));
    assert_eq!(stream.patience_ms(), 500);
    assert_eq!(stream.look(Some(7), false), FrameWait::Wait);
    assert_eq!(stream.look(Some(7), true), FrameWait::Take);
    assert_eq!(stream.look(Some(8), false), FrameWait::Take);
}

#[test]
fn parts_of_a_screencast_are_cut_out() {
    let stream = shared_display((8, 8));
    assert_eq!(stream.offset(-5, 10), (5, 0));
    assert_eq!(stream.offset(-30, 23), (0, 3));
    let img = RgbaImage::from_pixel(4, 4, Rgba::new(1, 2, 3, 4)).unwrap();
    let cut = stream.grab(&img, Crop { x: 2, y: 3, width: 9, height: 9 }).unwrap();
    assert_eq!((cut.width(), cut.height()), (2, 1));
    let outside = stream.grab(&img, Crop { x: 4, y: 0, width: 1, height: 1 });
    assert_eq!(outside.unwrap_err(), StreamFault::Outside);
    let nowhere = shared_display((0, 8)).grab(&img, Crop { x: 0, y: 0, width: 1, height: 1 });
    assert_eq!(nowhere.unwrap_err(), StreamFault::NoGeometry);
    let told = [
        (StreamFault::NoSetup, false, "pipewire stream produced no setup result in time"),
        (StreamFault::NoSetup, true, "hdr screencast produced no setup result in time"),
        (StreamFault::NoFrames, false, "screencast delivered no frames"),
        (StreamFault::NoFrames, true, "hdr screencast delivered no frames"),
        (StreamFault::NoGeometry, false, "portal reported no stream geometry"),
        (StreamFault::Outside, false, "capture region lies outside the shared monitor"),
    ];
    for (fault, hdr, words) in told {
        assert_eq!(fault.message(hdr), words);
    }
    for format in offered_formats(false) {
        assert!(convert_frame(&[0; 4], 0, 1, 1, format).is_some());
    }
    for format in offered_formats(true) {
        assert!(pack_hdr10(&[0; 4], 0, 1, 1, format, 14).is_some());
    }
}

#[test]
fn inverted_displays_wrap() {
    let found = [EnumeratedMonitor {
        left: 10,
        top: 0,
        right: 7,
        bottom: 5,
        primary: false,
        device: vec![65, 0xD83D, 0xDE00, 0xD800, 66, 0xDC00, 0, 67],
    }];
    let list = list_monitors(&found);
    assert_eq!(list[0].width, u32::MAX - 2);
    assert_eq!(list[0].height, 5);
    assert_eq!(list[0].name, "A\u{1F600}\u{FFFD}B\u{FFFD}");
}
