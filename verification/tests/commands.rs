//! What the user can ask for.

use capscr::capture::frame::{Rgba, RgbaImage};
use capscr::capture::hdr_png::HdrTransfer;
use capscr::capture::Rectangle;
use capscr::clipboard::CopyFault;
use capscr::commands::after::{
    announce, capture_failed, color_hex, history_dir, humanize_capture_error,
    maybe_write_hdr_sidecar, pipeline_panicked, save_failed, sidecar_name, task_failed, text_read,
    Sound,
};
use capscr::commands::diagnostics::{
    evdev_status, hook_snapshot, hotkey_backend_name, hotkey_diagnostics, portal_rebind_shortcuts,
    portal_rebound,
    record_hotkey_status, set_hotkeys_disabled, sftp_known_hosts, HotkeyStatus, SftpKnownHost,
    System,
};
use capscr::commands::edited::{
    copy_edited_image_to_clipboard, upload_edited_image, EditedFault,
};
use capscr::commands::ffmpeg::{
    check_download, download_notice, handle_missing_ffmpeg, perform_ffmpeg_download,
    read_checksum, DownloadFault, DownloadNews, MissingStep,
};
use capscr::commands::history::{
    copy_capture_to_clipboard, delete_capture, is_hdr_capture, is_path_allowed, list_captures,
    open_editor, open_in_explorer, save_edited_image, CaptureFault, CopyKind, DirEntry,
};
use capscr::commands::ocr::{
    desired_tess_langs, installed_tess_langs, locale_to_tess, ocr_capture, ocr_image_bytes,
    run_ocr, tesseract_args, tesseract_lang_args, Recognition,
};
use capscr::commands::pipeline::{Point, Selection};
use capscr::commands::plugins::{
    find_in_registry, flatten_capabilities, list_installed_plugins, plugins_dir,
    read_plugin_listing, toggle_plugin_enabled, with_enabled, Capability,
    FoundManifest,
};
use capscr::commands::post_action::{after_write, FileTarget, PostEvent, PostRun, PostStep};
use capscr::commands::recording::{
    already_recording, apply_gif_post_action, early_stop_note, encoder_failure, find_task,
    keep_draining, recording_media_type, recording_name, recording_saved, recording_settings,
    recording_tooltip, region_to_record, resolve_path, run_task, save_error_kind, trim_args,
    trim_mp4, trimmed_name, RecordStep, Recorder, RecordingAction, RecordingFormat,
    RecordingState, StopReason, TaskRun, TrimFault, VideoSettings,
};
use capscr::commands::uploads::{
    build_ftp_service, build_imgur_service, build_upload_service, build_upload_service_for_target,
    report_connection, reupload_capture, test_upload_connection, upload_file, uploaded,
    OpenedSecrets, TestStep, UploadFault, UploadResponse, UploadService,
};
use capscr::commands::windows::{
    active_monitor_origin, canonical_app_url, capture_active_monitor_with_hdr, check_for_updates,
    heal_wait_ms, install_update, intercept_hub_close, keep_above_step, pin_label,
    remember_canonical_url, shows_page, update_install_kind, update_to_install,
    wait_before_restart,
    watch_navigation, watch_wait_ms, window_bounds, window_screen_origin, CloseStep, KeepAbove,
    MonitorPlace, MonitorSource, PinnedImages, WatchStep, WindowBounds, WindowPlace,
};
use capscr::commands::{CaptureModeArg, PostActionArg};
use capscr::config::{
    CaptureTask, CloseBehavior, Config, HdrOutputFormat, PostCaptureAction, TaskCaptureMode,
    TaskPostAction, TaskUploadTarget,
};
use capscr::hotkeys::ll_hook::{HookBinding, HookTelemetry};
use capscr::hotkeys::portal_linux::{
    PortalBinding, PortalFault, PortalShortcuts, PortalStep, Told,
};
use capscr::hotkeys::HotkeyRegistrationError;

fn strings(list: &[&str]) -> Vec<String> {
    list.iter().map(|s| s.to_string()).collect()
}

fn task(mode: TaskCaptureMode, post: TaskPostAction) -> CaptureTask {
    CaptureTask {
        id: "t".to_string(),
        name: "T".to_string(),
        hotkey: String::new(),
        capture_mode: mode,
        post_action: post,
        target_destination: Some(TaskUploadTarget::Ftp),
        delay_ms: Some(5),
    }
}

fn no_secrets() -> OpenedSecrets {
    OpenedSecrets {
        ftp_password: None,
        sftp_password: None,
        sftp_passphrase: None,
        s3_secret: None,
    }
}

// ---- reading text -----------------------------------------------------------------

#[test]
fn maps_a_plain_lang_locale() {
    assert_eq!(desired_tess_langs(None, None, Some("de_DE.UTF-8")), vec!["deu"]);
}

#[test]
fn language_priority_list_wins_and_dedupes() {
    assert_eq!(
        desired_tess_langs(Some("de_DE:en_US:de_AT"), Some("fr_FR.UTF-8"), None),
        vec!["deu", "eng"]
    );
}

#[test]
fn c_and_posix_locales_yield_nothing() {
    assert!(desired_tess_langs(None, Some("C"), Some("POSIX")).is_empty());
}

#[test]
fn chinese_splits_by_region() {
    assert_eq!(
        desired_tess_langs(Some("zh_TW:zh_CN"), None, None),
        vec!["chi_tra", "chi_sim"]
    );
}

#[test]
fn unknown_codes_are_skipped() {
    assert_eq!(desired_tess_langs(Some("xx_YY:ja_JP"), None, None), vec!["jpn"]);
}

#[test]
fn modifiers_and_encodings_are_stripped() {
    assert_eq!(
        desired_tess_langs(None, None, Some("sr_RS.UTF-8@latin")),
        Vec::<&str>::new()
    );
    assert_eq!(desired_tess_langs(None, None, Some("uk_UA.KOI8-U")), vec!["ukr"]);
}

#[test]
fn languages_of_the_recognizer() {
    assert_eq!(locale_to_tess("no", None), Some("nor"));
    assert_eq!(locale_to_tess("zh", Some("HK")), Some("chi_tra"));
    assert_eq!(locale_to_tess("zz", None), None);
    let installed = installed_tess_langs("List of available languages (2):\r\ndeu\r\n eng \n\n");
    assert_eq!(installed, vec!["deu", "eng"]);
    assert_eq!(
        tesseract_lang_args(&strings(&["eng", "fra", "deu"]), &installed),
        Some("eng+deu".to_string())
    );
    assert_eq!(tesseract_lang_args(&strings(&["fra"]), &installed), None);
    assert_eq!(tesseract_args(Some("eng")), vec!["stdin", "stdout", "-l", "eng"]);
    assert_eq!(tesseract_args(None), vec!["stdin", "stdout"]);
}

#[test]
fn what_the_recognizer_found() {
    assert_eq!(
        ocr_image_bytes(&Recognition::Printed { text: " a b \n".to_string() }),
        Ok("a b".to_string())
    );
    assert!(ocr_image_bytes(&Recognition::Missing).unwrap_err().contains("tesseract-ocr"));
    assert_eq!(
        ocr_image_bytes(&Recognition::Failed { status: "exit status: 1".to_string() }),
        Err("tesseract failed with status exit status: 1".to_string())
    );
    let img = RgbaImage::from_pixel(2, 1, Rgba::new(9, 8, 7, 255)).unwrap();
    let png = ocr_capture(&img).unwrap();
    let back = image::load_from_memory(&png).unwrap().into_rgba8();
    assert_eq!(back.get_pixel(1, 0).0, [9, 8, 7, 255]);
}

// ---- plugins ----------------------------------------------------------------------

#[test]
fn reads_sectioned_wasm_manifest() {
    let body = "enabled = false\n\
        [plugin]\nid = \"grayscale\"\nname = \"Grayscale\"\nversion = \"0.1.0\"\ndescription = \"gray\"\n\
        [runtime]\ntype = \"wasm\"\nfile = \"plugin.wasm\"\n\
        [hooks]\non_capture = \"capscr_on_capture\"\n\
        [capabilities]\nimage = [\"read\"]\nfetch = [\"https://api.example.com/*\"]\n";
    let listing = read_plugin_listing(body).expect("sectioned parses");
    assert_eq!(listing.name, "Grayscale");
    assert_eq!(listing.version, "0.1.0");
    assert_eq!(listing.description, "gray");
    assert!(!listing.enabled);
    assert_eq!(
        listing.capabilities,
        vec!["fetch:https://api.example.com/*", "image:read"]
    );
}

#[test]
fn reads_legacy_flat_manifest() {
    let body = "name = \"Sounds\"\nversion = \"0.1.0\"\ndescription = \"sfx\"\nenabled = true\n";
    let listing = read_plugin_listing(body).expect("flat parses");
    assert_eq!(listing.name, "Sounds");
    assert_eq!(listing.version, "0.1.0");
    assert!(listing.enabled);
    assert!(listing.capabilities.is_empty());
}

#[test]
fn rejects_garbage() {
    assert!(read_plugin_listing("not [ valid toml").is_none());
}

#[test]
fn manifests_with_gaps() {
    let listing = read_plugin_listing("name = \"A\"").unwrap();
    assert_eq!((listing.version.as_str(), listing.description.as_str()), ("", ""));
    assert!(listing.enabled);
    assert!(read_plugin_listing("version = \"1\"").is_none());
    assert!(read_plugin_listing("name = 5").is_none());
    assert!(read_plugin_listing("name = \"A\"\nenabled = \"yes\"").is_none());
    // grants of another shape
    let odd = "[plugin]\nname = \"A\"\nversion = \"1\"\n[capabilities]\nimage = \"read\"\n";
    assert!(read_plugin_listing(odd).is_none());
    let short = "[plugin]\nname = \"A\"\nversion = \"1\"\n";
    assert_eq!(read_plugin_listing(short).unwrap().description, "");
}

#[test]
fn plugins_are_listed_by_name() {
    let found = [
        FoundManifest { id: "z".to_string(), body: "name = \"Beta\"".to_string() },
        FoundManifest { id: "bad".to_string(), body: "[".to_string() },
        FoundManifest { id: "y".to_string(), body: "name = \"Alpha\"".to_string() },
    ];
    let list = list_installed_plugins(&found);
    let ids: Vec<&str> = list.iter().map(|p| p.id.as_str()).collect();
    assert_eq!(ids, vec!["y", "z"]);
    let caps = [
        Capability { area: "image".to_string(), grants: strings(&["write", "read"]) },
        Capability { area: "fetch".to_string(), grants: strings(&["x"]) },
    ];
    assert_eq!(flatten_capabilities(&caps), vec!["fetch:x", "image:read", "image:write"]);
    assert_eq!(plugins_dir("/data", '/'), "/data/plugins");
}

#[test]
fn plugins_are_switched_off_and_on() {
    assert!(toggle_plugin_enabled("p", true, true).is_ok());
    assert_eq!(
        toggle_plugin_enabled("p", false, true).unwrap_err(),
        "plugin 'p' not found"
    );
    assert_eq!(
        toggle_plugin_enabled("p", true, false).unwrap_err(),
        "plugin path escapes plugins dir"
    );
    let off = with_enabled("name = \"A\"\n", false).unwrap();
    assert!(off.reads_back);
    let off = off.body;
    let listing = read_plugin_listing(&off).unwrap();
    assert_eq!(listing.name, "A");
    assert!(!listing.enabled);
    let on = with_enabled(&off, true).unwrap().body;
    assert!(read_plugin_listing(&on).unwrap().enabled);
    assert!(with_enabled("[", true).is_none());
    let body = "enabled = true\n[plugin]\nid = \"g\"\nname = \"G\"\nversion = \"1\"\n\
        [runtime]\ntype = \"wasm\"\nfile = \"p.wasm\"\n[hooks]\n\
        [capabilities]\nimage = [\"write\", \"read\"]\n";
    let was = read_plugin_listing(body).unwrap();
    let switched = with_enabled(body, false).unwrap();
    assert!(switched.reads_back);
    let is = read_plugin_listing(&switched.body).unwrap();
    assert!(was.enabled && !is.enabled);
    assert_eq!((is.name, is.version), (was.name, was.version));
    assert_eq!(is.capabilities, vec!["image:read", "image:write"]);
    assert_eq!(find_in_registry(&strings(&["a", "b"]), "b"), Ok(1));
    assert_eq!(
        find_in_registry(&strings(&["a"]), "c").unwrap_err(),
        "plugin 'c' not in registry"
    );
}

// ---- the encoder ------------------------------------------------------------------

/// An archive whose entries are stored as they are.
fn archive(entries: &[(&str, &[u8])]) -> Vec<u8> {
    let mut w = zip::ZipWriter::new(std::io::Cursor::new(Vec::new()));
    for (name, data) in entries {
        let options = zip::write::SimpleFileOptions::default();
        w.start_file(*name, options).unwrap();
        std::io::Write::write_all(&mut w, data).unwrap();
    }
    w.finish().unwrap().into_inner()
}

fn checksum(bytes: &[u8]) -> String {
    hex::encode(<sha2::Sha256 as sha2::Digest>::digest(bytes))
}

#[test]
fn only_a_download_with_its_checksum_is_kept() {
    let zip = archive(&[("ffmpeg/readme.txt", b"hi"), ("ffmpeg/bin/ffmpeg.exe", b"program")]);
    let sum = checksum(&zip);
    let line = format!("{}  ffmpeg.zip\n", sum.to_uppercase());
    assert_eq!(read_checksum(&line), Some(sum.clone()));
    assert_eq!(check_download(&zip, &line), Ok(()));
    assert_eq!(perform_ffmpeg_download(&zip, &line).unwrap(), b"program".to_vec());
    let mut bent = zip.clone();
    bent[40] ^= 1;
    assert_eq!(perform_ffmpeg_download(&bent, &line), Err(DownloadFault::Mismatch.message().to_string()));
    assert_eq!(perform_ffmpeg_download(&zip, ""), Err(DownloadFault::NoChecksum.message().to_string()));
    assert_eq!(perform_ffmpeg_download(&zip, &sum[..63]), Err(DownloadFault::NoChecksum.message().to_string()));
    assert_eq!(
        perform_ffmpeg_download(&zip, &"g".repeat(64)),
        Err(DownloadFault::NoChecksum.message().to_string())
    );
}

#[test]
fn the_program_must_be_in_the_archive() {
    let zip = archive(&[("readme.txt", b"hi")]);
    assert_eq!(
        perform_ffmpeg_download(&zip, &checksum(&zip)),
        Err(DownloadFault::NotFound.message().to_string())
    );
    let junk = b"no archive".to_vec();
    assert_eq!(
        perform_ffmpeg_download(&junk, &checksum(&junk)),
        Err(zip::ZipArchive::new(std::io::Cursor::new(&junk)).err().unwrap().to_string())
    );
    assert_eq!(
        DownloadFault::NotFound.message(),
        "ffmpeg binary not found in zip archive"
    );
    assert_eq!(handle_missing_ffmpeg(false, false), MissingStep::Explain);
    assert_eq!(handle_missing_ffmpeg(true, true), MissingStep::Wait);
    assert_eq!(handle_missing_ffmpeg(true, false), MissingStep::Ask);
}

#[test]
fn the_digest_is_the_known_one() {
    let empty_sum = "e3b0c44298fc1c149afbf4c8996fb92427ae41e4649b934ca495991b7852b855";
    assert_eq!(check_download(b"", empty_sum), Ok(()));
}

// ---- recordings -------------------------------------------------------------------

#[test]
fn one_recording_at_a_time() {
    let mut r = Recorder::new();
    assert_eq!(r.run_gif_task("a", false, true, true, false), RecordStep::CancelSelection);
    assert_eq!(r.run_gif_task("a", true, false, false, false), RecordStep::MissingEncoder);
    assert_eq!(r.run_gif_task("a", false, false, false, true), RecordStep::Skip);
    assert_eq!(r.run_gif_task("a", false, false, false, false), RecordStep::Select);
    r.start_gif_recording("a");
    assert_eq!(r.run_gif_task("a", false, false, true, false), RecordStep::Stop);
    assert_eq!(r.run_gif_task("b", false, false, true, false), RecordStep::Refuse);
    assert!(!r.is_over(true));
    r.stop_gif_recording();
    assert!(r.is_over(true));
    r.finalize_gif_recording();
    assert_eq!(r.state(), RecordingState::Processing);
    assert_eq!(r.run_gif_task("a", false, false, true, false), RecordStep::Skip);
    r.saved();
    assert_eq!(r.state(), RecordingState::Idle);
    assert_eq!(
        already_recording(Some("GIF")),
        "already recording 'GIF' — press its hotkey again to stop first"
    );
    assert_eq!(
        already_recording(None),
        "already recording 'another task' — press its hotkey again to stop first"
    );
}

#[test]
fn recordings_are_set_up_and_saved() {
    let c = Config::default().capture;
    let v = VideoSettings { fps: 48, crf: 20, record_audio: true };
    let s = recording_settings(true, c, 80, v);
    assert_eq!((s.fps, s.video_crf, s.format), (48, 20, RecordingFormat::Mp4));
    let s = recording_settings(false, c, 80, v);
    assert_eq!((s.fps, s.format), (c.gif_fps, RecordingFormat::Gif));
    assert_eq!(recording_name("shot.png", true), "shot.mp4");
    assert_eq!(recording_name("shot.png", false), "shot.gif");
    assert_eq!(save_error_kind(true), "mp4-save");
    assert!(keep_draining(false, 4999));
    assert!(!keep_draining(false, 5000));
    assert!(!keep_draining(true, 0));
    let saved = recording_saved(true, true, Some(StopReason::MaxDuration), 30, true, true);
    assert_eq!(saved.title, Some("Video saved"));
    assert_eq!(saved.notes.len(), 2);
    assert_eq!(
        saved.notes[1],
        "hit the 30s max duration — raise it under settings → capture"
    );
    assert!(early_stop_note(Some(StopReason::User), 30).is_none());
    assert!(early_stop_note(Some(StopReason::DiskFull), 30).unwrap().contains("disk"));
    assert_eq!(recording_tooltip("GIF"), "capscr · recording 'GIF'");
    let rect = Rectangle::new(1, 2, 3, 4);
    assert_eq!(region_to_record(Selection::FrozenRegion { rect }), Some(rect));
    assert_eq!(region_to_record(Selection::FullScreen), None);
    assert_eq!(recording_media_type("a.mp4"), ("video/mp4", "capture.mp4"));
    assert_eq!(recording_media_type("a.gif"), ("image/gif", "capture.gif"));
}

#[test]
fn tasks_run() {
    let shot = task(TaskCaptureMode::Window, TaskPostAction::Upload);
    match run_task(&shot) {
        TaskRun::Capture { mode, post, target, delay_ms } => {
            assert_eq!(mode, CaptureModeArg::Window);
            assert_eq!(post, PostActionArg::Upload);
            assert_eq!(target, Some(TaskUploadTarget::Ftp));
            assert_eq!(delay_ms, Some(5));
        }
        TaskRun::Record { .. } => panic!("it captures"),
    }
    let gif = task(TaskCaptureMode::RegionGif, TaskPostAction::Clipboard);
    assert_eq!(run_task(&gif), TaskRun::Record { mp4: false });
    assert_eq!(apply_gif_post_action(&gif), RecordingAction::CopyFile);
    let edited = task(TaskCaptureMode::RegionMp4, TaskPostAction::OpenEditor);
    assert_eq!(apply_gif_post_action(&edited), RecordingAction::Reveal);
    let read = task(TaskCaptureMode::RegionMp4, TaskPostAction::CopyText);
    assert_eq!(apply_gif_post_action(&read), RecordingAction::Nothing);
    assert_eq!(
        apply_gif_post_action(&task(TaskCaptureMode::RegionMp4, TaskPostAction::Upload)),
        RecordingAction::Upload { target: Some(TaskUploadTarget::Ftp) }
    );
    assert_eq!(find_task(&[gif], "t"), Some(0));
    assert_eq!(find_task(&[], "t"), None);
}

#[test]
fn recordings_are_trimmed() {
    assert_eq!(trim_mp4("/v/a.mp4", "a.mp4", true, true, false), Ok(()));
    assert_eq!(trim_mp4("/v/a.MP4", "a.MP4", true, true, false), Ok(()));
    assert_eq!(trim_mp4("/v/../a.mp4", "a.mp4", true, true, false), Err(TrimFault::Traversal));
    assert_eq!(trim_mp4("\\\\h\\a.mp4", "a.mp4", true, true, true), Err(TrimFault::Network));
    assert_eq!(trim_mp4("/v/a.mp4", "a.mp4", true, false, false), Err(TrimFault::NotFound));
    assert_eq!(trim_mp4("/v/a.gif", "a.gif", true, true, false), Err(TrimFault::NotMp4));
    assert_eq!(trim_mp4("/v/a.mp4", "a.mp4", false, true, false), Err(TrimFault::Outside));
    assert_eq!(TrimFault::NotMp4.message(), "not an mp4 file");
    assert_eq!(trimmed_name("a.mp4"), "a_trim.mp4");
    assert_eq!(resolve_path("\\\\?\\C:\\a.mp4"), "C:\\a.mp4");
    assert_eq!(resolve_path("\\\\?\\UNC\\h\\a.mp4"), "\\\\h\\a.mp4");
    assert_eq!(resolve_path("C:\\a.mp4"), "C:\\a.mp4");
    assert_eq!(
        trim_args(true, "in", "1.000", "2.000", "out"),
        vec!["-ss", "1.000", "-i", "in", "-t", "2.000", "-c", "copy", "-an", "-y", "out"]
    );
    assert_eq!(trim_args(false, "in", "1.000", "2.000", "out").len(), 15);
    assert_eq!(encoder_failure("a\nb: bad\n\n"), "ffmpeg failed: b: bad");
    assert_eq!(encoder_failure(" \n"), "ffmpeg failed: ffmpeg error");
}

// ---- after a capture --------------------------------------------------------------

#[test]
fn errors_are_put_into_words() {
    assert!(humanize_capture_error("D3D11 broke").contains("graphics driver"));
    assert!(humanize_capture_error("No Monitor here").contains("display"));
    assert!(humanize_capture_error("Access is DENIED").contains("blocked"));
    assert!(humanize_capture_error("hdr thing").contains("HDR capture failed"));
    assert!(humanize_capture_error("shader bad").contains("Shader"));
    assert!(humanize_capture_error("clipboard busy").contains("clipboard"));
    assert!(humanize_capture_error("region is zero").contains("too small"));
    assert!(humanize_capture_error("window 5 not found").contains("vanished"));
    assert_eq!(humanize_capture_error("Something Else"), "Something Else");
    let (event, notice) = capture_failed("Something Else", true);
    assert_eq!(event.kind, "capture");
    assert_eq!(notice.unwrap().title, "Capture failed");
    let (event, notice) = task_failed("GIF", "why", false);
    assert_eq!(event.msg, "GIF: why");
    assert!(notice.is_none());
    assert_eq!(pipeline_panicked(Some("oops")), "capture pipeline panicked: oops");
    assert_eq!(
        pipeline_panicked(None),
        "capture pipeline panicked: internal panic (no message)"
    );
}

#[test]
fn what_is_done_with_a_capture() {
    assert_eq!(color_hex(255, 0, 16), "#FF0010");
    let (copied, _) = text_read("");
    assert!(copied.is_none());
    let (copied, _) = text_read("abc");
    assert_eq!(copied, Some("abc".to_string()));
    let n = announce(PostCaptureAction::CopyToClipboard, true, "x");
    assert!(!n.title.is_empty());
    assert_eq!(sidecar_name("shot.png"), "shot.hdr.png");
    assert_eq!(
        maybe_write_hdr_sidecar(true, true, HdrOutputFormat::Hlg, "shot.png"),
        Some(("shot.hdr.png".to_string(), HdrTransfer::Hlg))
    );
    assert!(maybe_write_hdr_sidecar(true, false, HdrOutputFormat::Pq, "shot.png").is_none());
    assert!(maybe_write_hdr_sidecar(false, true, HdrOutputFormat::Pq, "shot.png").is_none());
    assert_eq!(history_dir(Some("/c"), '/'), Some("/c/history".to_string()));
}

// ---- uploads ----------------------------------------------------------------------

#[test]
fn files_are_checked_before_they_are_uploaded() {
    assert_eq!(upload_file("a.PNG", true, true, false, 5), Ok("image/png"));
    assert_eq!(upload_file("a.mp4", true, false, true, 5), Ok("video/mp4"));
    assert_eq!(upload_file("a.png", false, true, true, 5), Err(UploadFault::NotAFile));
    assert_eq!(upload_file("a.png", true, false, false, 5), Err(UploadFault::Outside));
    assert_eq!(upload_file("a", true, true, true, 5), Err(UploadFault::NoExtension));
    assert_eq!(upload_file("a.exe", true, true, true, 5), Err(UploadFault::Unsupported));
    assert_eq!(
        upload_file("a.png", true, true, true, 104_857_601),
        Err(UploadFault::TooLarge)
    );
    assert_eq!(
        UploadFault::Unsupported.message("exe"),
        "unsupported file type: .exe"
    );
    assert_eq!(reupload_capture("a.png", false), Err(UploadFault::Outside));
    assert!(reupload_capture("a.png", true).is_ok());
}

#[test]
fn services_are_built_from_the_settings() {
    let mut config = Config::default();
    config.upload.ftp.host = "h".to_string();
    config.upload.ftp.password_encrypted = "sealed".to_string();
    let mut opened = no_secrets();
    opened.ftp_password = Some("SECRET-REDACTED".to_string());
    match build_upload_service_for_target(&config, Some(TaskUploadTarget::Ftp), opened) {
        UploadService::Ftp { target } => {
            assert_eq!(target.host, "h");
            assert_eq!(target.password, "SECRET-REDACTED");
        }
        _ => panic!("the task has its own target"),
    }
    assert!(test_upload_connection("nowhere", &config, no_secrets())
        .unwrap_err()
        .contains("no test-connection probe"));
    assert!(matches!(
        test_upload_connection("sftp", &config, no_secrets()),
        Ok(UploadService::Sftp { .. })
    ));
    for id in ["546c25a59c58ad7", "", " own "] {
        config.upload.imgur_client_id = id.to_string();
        match test_upload_connection("imgur", &config, no_secrets()) {
            Ok(UploadService::ImgurWithClientId { id: tried }) => assert_eq!(tried, id),
            _ => panic!("the client id is tried as it stands"),
        }
    }
    let step = |ok: bool| TestStep { name: "n".to_string(), ok, detail: String::new() };
    assert!(report_connection("S3".to_string(), vec![step(true)]).overall_ok);
    assert!(!report_connection("S3".to_string(), vec![step(true), step(false)]).overall_ok);
    assert!(!report_connection("S3".to_string(), vec![]).overall_ok);
    let response = UploadResponse { url: "u".to_string(), delete_url: None };
    let (payload, copy) = uploaded(&response, true);
    assert_eq!(payload.url, "u");
    assert_eq!(copy, Some("u".to_string()));
    assert_eq!(uploaded(&response, false).1, None);
}

// ---- history ----------------------------------------------------------------------

fn entry(dir: &str, name: &str, modified: u64) -> DirEntry {
    DirEntry {
        path: format!("{dir}/{name}"),
        name: Some(name.to_string()),
        bare_extension: None,
        is_file: true,
        size: Some(9),
        modified,
    }
}

#[test]
fn captures_are_listed_newest_first() {
    let output = [
        entry("/o", "old.png", 1),
        entry("/o", "new.gif", 9),
        entry("/o", "notes.txt", 5),
        entry("/o", "old.hdr.png", 1),
    ];
    let history = [entry("/h", "old.png", 7), entry("/h", "mid.mp4", 5)];
    let list = list_captures(&output, &history);
    let names: Vec<&str> = list.iter().map(|e| e.filename.as_str()).collect();
    assert_eq!(names[0], "new.gif");
    assert!(names.contains(&"mid.mp4"));
    assert_eq!(names.iter().filter(|n| **n == "old.png").count(), 1);
    assert!(!names.contains(&"notes.txt"));
    let gif = &list[0];
    assert!(gif.is_gif && !gif.is_mp4);
}

#[test]
fn only_captures_are_touched() {
    assert!(is_path_allowed("/o/a.png", Some("/o"), None, '/'));
    assert!(is_path_allowed("/h/a.png", Some("/o"), Some("/h"), '/'));
    assert!(!is_path_allowed("/other/a.png", Some("/o"), Some("/h"), '/'));
    assert!(!is_path_allowed("/ox/a.png", Some("/o"), None, '/'));
    assert_eq!(delete_capture("a.png", false).unwrap_err(), CaptureFault::Outside);
    assert_eq!(delete_capture("a.png", true).unwrap(), Some("a.hdr.png".to_string()));
    assert_eq!(copy_capture_to_clipboard("a.gif", true), Ok(CopyKind::File));
    assert_eq!(copy_capture_to_clipboard("a.png", true), Ok(CopyKind::Image));
    assert_eq!(open_editor("a.mp4", true), Err(CaptureFault::Recording));
    assert_eq!(open_editor("a.png", true), Ok(()));
    assert_eq!(open_in_explorer(true), Ok(()));
    assert_eq!(open_in_explorer(false), Err(CaptureFault::OutsideCaptures));
    let plan = save_edited_image("a.png", true, 5).unwrap();
    assert_eq!(plan.staging, ".a.png.editing.tmp");
    assert_eq!(plan.sidecar, "a.hdr.png");
    assert_eq!(save_edited_image("a.png", true, 0).unwrap_err(), CaptureFault::Empty);
    assert_eq!(
        save_edited_image("a.png", true, 104_857_601).unwrap_err(),
        CaptureFault::TooLarge
    );
    assert!(!is_hdr_capture(b"no png"));
}

#[test]
fn edited_images_are_decoded() {
    let img = image::RgbaImage::from_pixel(3, 2, image::Rgba([1, 2, 3, 4]));
    let mut out = std::io::Cursor::new(Vec::new());
    img.write_to(&mut out, image::ImageFormat::Png).unwrap();
    let bytes = out.into_inner();
    let raw = copy_edited_image_to_clipboard(&bytes).unwrap();
    assert_eq!(raw, img.into_raw());
    let back = upload_edited_image(&bytes).unwrap();
    assert_eq!((back.width(), back.height()), (3, 2));
    assert_eq!(back.get_pixel(2, 1), Rgba::new(1, 2, 3, 4));
    assert_eq!(
        copy_edited_image_to_clipboard(b"junk").unwrap_err(),
        EditedFault::NotAnImage
    );
    assert!(upload_edited_image(b"junk").is_none());
    let wide = image::RgbaImage::from_pixel(16385, 1, image::Rgba([1, 2, 3, 4]));
    let mut out = std::io::Cursor::new(Vec::new());
    wide.write_to(&mut out, image::ImageFormat::Png).unwrap();
    assert_eq!(
        copy_edited_image_to_clipboard(&out.into_inner()).unwrap_err(),
        EditedFault::Clipboard(CopyFault::TooLarge)
    );
}

// ---- diagnostics ------------------------------------------------------------------

fn failed(id: &str, reason: &str) -> HotkeyRegistrationError {
    HotkeyRegistrationError {
        task_id: id.to_string(),
        hotkey: "X".to_string(),
        reason: reason.to_string(),
    }
}

#[test]
fn each_task_has_one_status() {
    let statuses = record_hotkey_status(
        &strings(&["a", "b", "a"]),
        &[failed("b", "first"), failed("c", "why"), failed("b", "last")],
    );
    let ids: Vec<&str> = statuses.iter().map(|s| s.task_id.as_str()).collect();
    assert_eq!(ids, vec!["a", "b", "c"]);
    assert!(matches!(statuses[0].status, HotkeyStatus::Live));
    match &statuses[1].status {
        HotkeyStatus::Failed { reason } => assert_eq!(reason, "last"),
        HotkeyStatus::Live => panic!("it failed"),
    }
    let told = [
        Told { task_id: "a".to_string(), text: "Ctrl+A".to_string() },
        Told { task_id: "b".to_string(), text: "Ctrl+B".to_string() },
    ];
    let d = hotkey_diagnostics(true, "portal", &statuses, &told, None);
    assert!(d.disabled_globally);
    assert_eq!(d.backend, "portal");
    assert_eq!(d.statuses[0].status, "live");
    assert_eq!(d.statuses[0].effective_trigger, Some("Ctrl+A".to_string()));
    assert_eq!(d.statuses[1].status, "failed");
    assert_eq!(d.statuses[1].reason, Some("last".to_string()));
    assert_eq!(d.statuses[1].effective_trigger, None);
}

#[test]
fn backends_and_devices() {
    assert_eq!(hotkey_backend_name(System::Windows, true, true, true), "ll_hook");
    assert_eq!(hotkey_backend_name(System::Linux, false, true, true), "x11");
    assert_eq!(hotkey_backend_name(System::Linux, true, true, true), "portal");
    assert_eq!(hotkey_backend_name(System::Linux, true, false, true), "evdev");
    assert_eq!(hotkey_backend_name(System::Linux, true, false, false), "none");
    assert_eq!(hotkey_backend_name(System::Other, true, true, true), "none");
    assert_eq!(evdev_status(System::Linux, true, 3, true).readable_device_count, 3);
    assert_eq!(evdev_status(System::Windows, true, 3, true).readable_device_count, 0);
    let tasks = vec![task(TaskCaptureMode::Region, TaskPostAction::SaveFile)];
    assert!(set_hotkeys_disabled(true, true, &tasks).is_none());
    let off = set_hotkeys_disabled(false, true, &tasks).unwrap();
    assert!(off.disabled_globally && !off.hook_enabled && off.tasks.is_empty());
    let on = set_hotkeys_disabled(true, false, &tasks).unwrap();
    assert!(!on.disabled_globally && on.hook_enabled);
    assert_eq!(on.tasks.len(), 1);
}

#[test]
fn shortcuts_are_bound_anew_on_linux() {
    let tasks = vec![task(TaskCaptureMode::Region, TaskPostAction::SaveFile)];
    let mut shortcuts = PortalShortcuts::new();
    assert_eq!(
        portal_rebind_shortcuts(System::Windows, &mut shortcuts).unwrap_err(),
        "the shortcuts portal only exists on Linux"
    );
    assert_eq!(
        portal_rebind_shortcuts(System::Linux, &mut shortcuts).unwrap_err(),
        "no keyboard shortcuts are configured"
    );
    shortcuts.sync(vec![PortalBinding {
        task_id: "a".to_string(),
        label: "A".to_string(),
        trigger: None,
    }]);
    assert!(matches!(
        portal_rebind_shortcuts(System::Linux, &mut shortcuts),
        Ok(PortalStep::Open)
    ));
    assert_eq!(portal_rebound(None, &tasks).unwrap().len(), 1);
    assert_eq!(
        portal_rebound(Some(PortalFault::NotApproved), &tasks).unwrap_err(),
        "shortcut binding was not approved — retry from Settings once ready"
    );
}

#[test]
fn the_hook_is_shown() {
    let t = HookTelemetry {
        installed: true,
        enabled: false,
        registered_count: 1,
        registered: vec![(HookBinding { vk: 44, mods: 3 }, "shot".to_string())],
        calls_total: 1,
        keydown_calls: 2,
        matched_calls: 3,
        dispatch_sent: 4,
        dispatch_dropped: 5,
        last_vk: 6,
        last_mods: 7,
    };
    let s = hook_snapshot(&t);
    assert!(s.installed && !s.enabled);
    assert_eq!(s.registered[0].task_id, "shot");
    assert_eq!((s.registered[0].vk, s.registered[0].mods), (44, 3));
    assert_eq!((s.calls_total, s.dispatch_dropped, s.last_mods), (1, 5, 7));
}

#[test]
fn known_hosts_are_sorted() {
    let host = |name: &str| SftpKnownHost {
        host_port: name.to_string(),
        fingerprint: format!("f-{name}"),
        first_seen_unix: 7,
    };
    let list = sftp_known_hosts(&[host("b:22"), host("a:22"), host("a:2222")]);
    let names: Vec<&str> = list.iter().map(|h| h.host_port.as_str()).collect();
    assert_eq!(names, vec!["a:22", "a:2222", "b:22"]);
    assert_eq!(list[2].fingerprint, "f-b:22");
}

// ---- windows ----------------------------------------------------------------------

#[test]
fn pages_of_the_windows() {
    let c = canonical_app_url(Some("http://x/"), Some("http://y/"), false, None);
    assert_eq!(c.url, Some("http://x/".to_string()));
    assert_eq!(c.remember, Some("http://x/".to_string()));
    let c = canonical_app_url(Some("about:blank"), Some("http://y/"), false, None);
    assert_eq!(c.url, Some("http://y/".to_string()));
    assert_eq!(c.remember, None);
    let c = canonical_app_url(None, None, true, Some("http://dev/"));
    assert_eq!(c.url, Some("http://dev/".to_string()));
    let c = canonical_app_url(None, None, false, Some("http://dev/"));
    assert_eq!(c.url, Some("tauri://localhost".to_string()));
    assert_eq!(remember_canonical_url("ABOUT:blank"), None);
    assert_eq!(
        remember_canonical_url("tauri://localhost"),
        Some("tauri://localhost".to_string())
    );
    assert!(matches!(watch_navigation(None), WatchStep::Gone));
    assert!(matches!(watch_navigation(Some("about:blank")), WatchStep::Navigate));
    assert!(matches!(watch_navigation(Some("http://x/")), WatchStep::Loaded { .. }));
    assert!(shows_page(Some("http")));
    assert!(!shows_page(Some("about")));
    assert_eq!(
        (0..4).map(watch_wait_ms).collect::<Vec<_>>(),
        vec![Some(500), Some(1500), Some(3000), None]
    );
    assert_eq!((heal_wait_ms(0), heal_wait_ms(1), heal_wait_ms(2)), (Some(3000), Some(8000), None));
}

#[test]
fn windows_are_closed_and_programs_updated() {
    assert_eq!(intercept_hub_close(CloseBehavior::MinimizeToTray, true), CloseStep::Destroy);
    assert_eq!(intercept_hub_close(CloseBehavior::MinimizeToTray, false), CloseStep::Hide);
    assert_eq!(intercept_hub_close(CloseBehavior::Exit, true), CloseStep::Exit);
    assert_eq!(update_install_kind(true, false), "external");
    assert_eq!(update_install_kind(true, true), "in-place");
    assert_eq!(update_install_kind(false, false), "in-place");
    assert!(install_update(true, false).is_err());
    assert!(install_update(false, false).is_ok());
    let info = check_for_updates("2", "1", None, true, false);
    assert_eq!((info.version.as_str(), info.install_kind), ("2", "external"));
    assert!(wait_before_restart(true, 49));
    assert!(!wait_before_restart(true, 50));
    assert!(!wait_before_restart(false, 0));
}

#[test]
fn images_are_pinned() {
    let mut pins = PinnedImages::new();
    assert_eq!(pins.get_pinned_image_path("pin_1"), None);
    assert_eq!(pins.pin_image("pin_1", "/a.png", true), Ok(()));
    assert_eq!(pins.pin_image("pin_2", "/b.png", true), Ok(()));
    assert_eq!(pins.pin_image("pin_1", "/c.png", true), Ok(()));
    assert_eq!(pins.get_pinned_image_path("pin_1"), Some("/c.png".to_string()));
    assert_eq!(pins.get_pinned_image_path("pin_2"), Some("/b.png".to_string()));
    assert_eq!(pins.pin_image("pin_2", "/etc/x.png", false), Err(CaptureFault::Outside));
    assert_eq!(pins.get_pinned_image_path("pin_2"), Some("/b.png".to_string()));
    assert_eq!(pin_label("x"), "pin_x");
    assert_eq!(keep_above_step(0, Some(2)), KeepAbove::Done);
    assert_eq!(keep_above_step(0, Some(0)), KeepAbove::Retry);
    assert_eq!(keep_above_step(9, Some(0)), KeepAbove::GiveUp);
    assert_eq!(keep_above_step(0, None), KeepAbove::GiveUp);
}

#[test]
fn places_of_windows_and_monitors() {
    let w = WindowPlace {
        id: Some(4),
        x: Some(1),
        y: Some(2),
        width: Some(3),
        height: None,
    };
    assert_eq!(window_screen_origin(&[w], 4), Some(Point { x: 1, y: 2 }));
    assert_eq!(window_screen_origin(&[w], 5), None);
    assert_eq!(window_bounds(&[w], 4), None);
    let full = WindowPlace { height: Some(9), ..w };
    assert_eq!(
        window_bounds(&[full], 4),
        Some(WindowBounds { x: 1, y: 2, width: 3, height: 9 })
    );
    let here = Some(Point { x: 0, y: 0 });
    let under = MonitorPlace { x: Some(7), y: Some(8), is_primary: Some(false) };
    let main = MonitorPlace { x: Some(0), y: Some(0), is_primary: Some(true) };
    assert_eq!(
        active_monitor_origin(here, Some(under), &[main]),
        Some(Point { x: 7, y: 8 })
    );
    assert_eq!(active_monitor_origin(here, None, &[under, main]), Some(Point { x: 0, y: 0 }));
    assert_eq!(active_monitor_origin(None, Some(under), &[main]), None);
    let at = Point { x: 5, y: 5 };
    assert_eq!(
        capture_active_monitor_with_hdr(true, false, true, true, Some(at)),
        vec![MonitorSource::DesktopArea]
    );
    assert_eq!(
        capture_active_monitor_with_hdr(false, true, true, false, Some(at)),
        vec![MonitorSource::Hdr { at }, MonitorSource::AtPoint { at }]
    );
    assert_eq!(
        capture_active_monitor_with_hdr(false, true, true, true, None),
        vec![MonitorSource::Primary]
    );
}

#[test]
fn files_outside_are_refused() {
    assert_eq!(run_ocr(true), Ok(()));
    assert_eq!(run_ocr(false), Err(CaptureFault::Outside));
    assert_eq!(CaptureFault::Outside.message(), "Path is outside the allowed directories");
    assert_eq!(
        CaptureFault::OutsideCaptures.message(),
        "Path is outside the allowed capture directories"
    );
    let (payload, notice) = save_failed(true);
    assert_eq!(payload.kind, "save");
    assert_eq!(notice.unwrap().title, "Capture failed");
    assert!(save_failed(false).1.is_none());
}

#[test]
fn uploads_without_a_task_follow_the_settings() {
    let opened = OpenedSecrets {
        ftp_password: None,
        sftp_password: None,
        sftp_passphrase: None,
        s3_secret: None,
    };
    let mut config = Config::default();
    config.upload.imgur_client_id = " mine ".to_string();
    match build_upload_service(&config, opened) {
        UploadService::ImgurWithClientId { id } => assert_eq!(id, "mine"),
        _ => panic!("the settings ask for Imgur"),
    }
}

#[test]
fn a_capture_is_copied_and_then_saved() {
    let mut run = PostRun::new(PostCaptureAction::SaveAndCopy, true, true, true);
    assert_eq!(run.run_post_action(PostEvent::Told), PostStep::Ignore);
    assert_eq!(run.run_post_action(PostEvent::Begin { has_history: true }), PostStep::Copy);
    // an occupied clipboard does not stop it
    assert_eq!(
        run.run_post_action(PostEvent::Copied { ok: false }),
        PostStep::Write { target: FileTarget::Output }
    );
    assert_eq!(
        run.run_post_action(PostEvent::WriteStarted),
        PostStep::Finish { file: FileTarget::Output }
    );
    let end = after_write(run, FileTarget::Output, "/a.png", true);
    assert!(end.sidecar && end.remember && end.announce && !end.remove);
    assert_eq!(end.sound, Some(Sound::Screenshot));
    let notice = end.notice.unwrap();
    assert_eq!(notice.title, "Capture saved (clipboard busy)");
    assert_eq!(notice.body, "/a.png");
    let end = after_write(run, FileTarget::Output, "/a.png", false);
    assert!(!end.sidecar && !end.remember && !end.announce && end.remove);
    assert_eq!(end.notice.unwrap().title, "Capture failed");
    assert_eq!(end.error.unwrap().kind, "save");
}

#[test]
fn a_copied_capture_goes_to_the_history() {
    let mut run = PostRun::new(PostCaptureAction::CopyToClipboard, true, false, true);
    assert_eq!(run.run_post_action(PostEvent::Begin { has_history: true }), PostStep::MakeHistory);
    assert_eq!(
        run.run_post_action(PostEvent::HistoryMade { ok: true }),
        PostStep::Write { target: FileTarget::History }
    );
    assert_eq!(run.run_post_action(PostEvent::WriteStarted), PostStep::Copy);
    assert_eq!(
        run.run_post_action(PostEvent::Copied { ok: true }),
        PostStep::Tell { sound: None, notice: true }
    );
    assert_eq!(
        run.run_post_action(PostEvent::Told),
        PostStep::Finish { file: FileTarget::History }
    );
    let end = after_write(run, FileTarget::History, "/h/a.png", true);
    assert!(end.announce && !end.remember && end.notice.is_none() && end.sound.is_none());
    let mut off = PostRun::new(PostCaptureAction::CopyToClipboard, false, false, true);
    assert_eq!(off.run_post_action(PostEvent::Begin { has_history: true }), PostStep::Copy);
}

#[test]
fn an_upload_that_fails_tells_nothing() {
    let mut run = PostRun::new(PostCaptureAction::Upload, true, true, true);
    run.run_post_action(PostEvent::Begin { has_history: true });
    assert_eq!(run.run_post_action(PostEvent::HistoryMade { ok: false }), PostStep::Upload);
    let mut good = run;
    assert_eq!(run.run_post_action(PostEvent::Uploaded { ok: false }), PostStep::Fail);
    assert_eq!(
        good.run_post_action(PostEvent::Uploaded { ok: true }),
        PostStep::Tell { sound: Some(Sound::Upload), notice: true }
    );
    assert_eq!(
        good.run_post_action(PostEvent::Told),
        PostStep::Finish { file: FileTarget::Nowhere }
    );
}

#[test]
fn doing_nothing_tells_the_user() {
    let mut run = PostRun::new(PostCaptureAction::DoNothing, false, true, false);
    assert_eq!(
        run.run_post_action(PostEvent::Begin { has_history: false }),
        PostStep::Tell { sound: Some(Sound::Screenshot), notice: false }
    );
    let mut save = PostRun::new(PostCaptureAction::SaveToFile, true, true, true);
    assert_eq!(
        save.run_post_action(PostEvent::Begin { has_history: true }),
        PostStep::Write { target: FileTarget::Output }
    );
}

#[test]
fn downloads_are_announced() {
    let n = download_notice(DownloadNews::Began, "");
    assert_eq!(n.title, "FFmpeg Download");
    assert_eq!(n.body, "Starting FFmpeg download (approx. 90MB)...");
    let n = download_notice(DownloadNews::Configured, "");
    assert_eq!(n.title, "FFmpeg Configured");
    assert_eq!(
        n.body,
        "FFmpeg has been downloaded and configured. You can now record MP4 videos."
    );
    let n = download_notice(DownloadNews::Failed, DownloadFault::Mismatch.message());
    assert_eq!(n.title, "FFmpeg Download Failed");
    assert_eq!(
        n.body,
        "Could not configure FFmpeg: ffmpeg download failed its integrity check (sha256 mismatch)"
    );
}

#[test]
fn deep_manifests_do_not_read_back() {
    let mut value = "1".to_string();
    for i in (1..80).rev() {
        value = format!("{{ k{i} = {value} }}");
    }
    let deep = format!("name = \"A\"\n[x]\nk = {value}\n");
    assert!(read_plugin_listing(&deep).is_some());
    let switched = with_enabled(&deep, false).unwrap();
    assert!(!switched.reads_back);
    assert!(read_plugin_listing(&switched.body).is_none());
}

#[test]
fn only_a_newer_release_is_installed() {
    assert_eq!(update_to_install(None).unwrap_err(), "no update available");
    let found = check_for_updates("2.0", "1.0", None, false, false);
    assert_eq!(update_to_install(Some(found)).unwrap().version, "2.0");
}

#[test]
fn plain_ftp_is_disabled() {
    let mut upload = Config::default().upload;
    upload.ftp.use_tls = false;
    assert!(!build_ftp_service(&upload, no_secrets()).may_send());
    upload.ftp.use_tls = true;
    assert!(build_ftp_service(&upload, no_secrets()).may_send());
    assert!(build_imgur_service(&upload).may_send());
}
