//! Settings.

use capscr::config::files::{
    backup_name, check_directory, check_place, config_path, name_from, set_config, settle_loaded,
    DirectoryFault, LoadStep, LocalTime,
};
use capscr::config::rules::{ConfigFault, TaskFault};
use capscr::config::secrets::SealedSecrets;
use capscr::config::{
    default_capture_tasks, default_ftp_port, default_imgur_client_id,
    default_marketplace_registry_url, default_sftp_port, CaptureTask, Config, HdrCompressionMode,
    ImageFormat, PostCaptureAction, RendererBackend, TaskCaptureMode, TaskPostAction, Theme,
    UploadDestination,
};

fn task(id: &str, hotkey: &str) -> CaptureTask {
    CaptureTask {
        id: id.to_string(),
        name: id.to_string(),
        hotkey: hotkey.to_string(),
        capture_mode: TaskCaptureMode::Region,
        post_action: TaskPostAction::SaveFile,
        target_destination: None,
        delay_ms: None,
    }
}

/// The second of June 2024, 12:34:56 in a zone two hours ahead.
fn june() -> LocalTime {
    LocalTime::new(1_717_324_496, 0, 7200).unwrap()
}

#[test]
fn test_default_performance_config() {
    let config = Config::default();
    assert_eq!(config.performance.tick_interval_ms, 100);
    assert_eq!(config.performance.renderer, RendererBackend::TinySkia);
    assert!(config.performance.lazy_init_upload);
    assert!(config.performance.lazy_init_plugins);
}

#[test]
fn test_validate_rejects_invalid_tick_interval() {
    let mut config = Config::default();
    config.performance.tick_interval_ms = 10;
    assert!(config.validate().is_err());
    config.performance.tick_interval_ms = 700;
    assert!(config.validate().is_err());
}

#[test]
fn the_default_is_valid() {
    let config = Config::default();
    assert_eq!(config.validate(), Ok(()));
    assert_eq!(default_ftp_port(), 21);
    assert_eq!(default_sftp_port(), 22);
    assert!(!default_imgur_client_id().is_empty());
    assert!(default_marketplace_registry_url().starts_with("https://"));
    assert!(!default_capture_tasks().is_empty());
}

fn broken(f: impl Fn(&mut Config)) -> ConfigFault {
    let mut config = Config::default();
    f(&mut config);
    config.validate().unwrap_err()
}

#[test]
fn each_fault_of_the_settings() {
    assert_eq!(broken(|c| c.output.quality = 101), ConfigFault::Quality);
    assert_eq!(broken(|c| c.capture.gif_fps = 0), ConfigFault::GifFps);
    assert_eq!(broken(|c| c.capture.gif_fps = 61), ConfigFault::GifFps);
    assert_eq!(broken(|c| c.capture.gif_max_duration_secs = 301), ConfigFault::GifDuration);
    assert_eq!(broken(|c| c.capture.delay_ms = 30001), ConfigFault::Delay);
    assert_eq!(broken(|c| c.output.filename_template = "a".repeat(129)), ConfigFault::LongTemplate);
    assert_eq!(broken(|c| c.output.filename_template = "../x".to_string()), ConfigFault::TemplatePath);
    assert_eq!(broken(|c| c.hotkeys.screenshot = "a".repeat(65)), ConfigFault::LongHotkey);
    assert_eq!(broken(|c| c.hotkeys.record_gif = "Ctrl;rm".to_string()), ConfigFault::BadHotkey);
    assert_eq!(broken(|c| c.upload.custom_url = format!("https://{}", "a".repeat(600))), ConfigFault::LongUrl);
    assert_eq!(broken(|c| c.upload.custom_url = "http://example.com".to_string()), ConfigFault::InsecureUrl);
    assert_eq!(broken(|c| c.upload.custom_form_name = "a".repeat(65)), ConfigFault::LongFormName);
    assert_eq!(broken(|c| c.upload.custom_form_name = "a b".to_string()), ConfigFault::BadFormName);
    assert_eq!(broken(|c| c.upload.custom_response_path = "a".repeat(129)), ConfigFault::LongResponsePath);
    assert_eq!(broken(|c| c.upload.custom_response_path = "a/b".to_string()), ConfigFault::BadResponsePath);
    assert_eq!(broken(|c| c.upload.custom_response_path = "a..b".to_string()), ConfigFault::ResponsePathDots);
    assert_eq!(broken(|c| c.performance.tick_interval_ms = 15), ConfigFault::TickInterval);
    assert_eq!(broken(|c| c.capture.hdr.brightness_nits_bits = (-1.0f32).to_bits()), ConfigFault::Brightness);
    assert_eq!(broken(|c| c.capture.hdr.brightness_nits_bits = f32::NAN.to_bits()), ConfigFault::Brightness);
    assert_eq!(broken(|c| c.capture.hdr.user_brightness_scale_bits = 0f32.to_bits()), ConfigFault::BrightnessScale);
}

fn broken_tasks(tasks: Vec<CaptureTask>) -> ConfigFault {
    let mut config = Config::default();
    config.capture_tasks = tasks;
    config.validate().unwrap_err()
}

#[test]
fn each_fault_of_a_task() {
    let at = |index: usize, fault: TaskFault| ConfigFault::Task { index, fault };
    assert_eq!(broken_tasks(vec![task("", "")]), at(0, TaskFault::BadId));
    assert_eq!(broken_tasks(vec![task(&"a".repeat(65), "")]), at(0, TaskFault::LongId));
    assert_eq!(broken_tasks(vec![task("a", ""), task("a", "")]), at(1, TaskFault::DuplicateId));
    assert_eq!(
        broken_tasks(vec![task("a", "Ctrl+S"), task("b", "Ctrl+S")]),
        at(1, TaskFault::DuplicateHotkey)
    );
    let mut nameless = task("a", "");
    nameless.name = String::new();
    assert_eq!(broken_tasks(vec![nameless]), at(0, TaskFault::BadName));
    assert_eq!(broken_tasks(vec![task("a", &"a".repeat(65))]), at(0, TaskFault::LongHotkey));
    assert_eq!(broken_tasks(vec![task("a", "Ctrl;S")]), at(0, TaskFault::BadHotkey));
}

#[test]
fn faults_are_described() {
    let mut config = Config::default();
    config.output.quality = 101;
    let fault = config.validate().unwrap_err();
    assert!(config.describe_fault(fault).to_lowercase().contains("quality"));
}

#[test]
fn sanitizing_mends_and_is_stable() {
    let mut config = Config::default();
    config.output.quality = 200;
    config.capture.gif_fps = 0;
    config.capture.delay_ms = 99999;
    config.performance.tick_interval_ms = 1;
    config.output.filename_template = "../x".to_string();
    config.sanitize();
    assert_eq!(config.output.quality, 100);
    assert_eq!(config.capture.gif_fps, 1);
    assert_eq!(config.capture.delay_ms, 30000);
    assert_eq!(config.performance.tick_interval_ms, 16);
    assert_eq!(config.validate(), Ok(()));
    let template = config.output.filename_template.clone();
    config.sanitize();
    assert_eq!(config.output.filename_template, template);
    assert_eq!(config.output.quality, 100);
}

#[test]
fn secrets_are_sealed_once() {
    let mut config = Config::default();
    config.upload.ftp.password = "SECRET-REDACTED".to_string();
    assert!(config.needs_secret_migration());
    config.migrate_secrets(SealedSecrets {
        ftp_password: Some("sealed".to_string()),
        sftp_password: None,
        sftp_passphrase: None,
        s3_secret: None,
    });
    assert_eq!(config.upload.ftp.password, "");
    assert_eq!(config.upload.ftp.password_encrypted, "sealed");
    assert!(!config.needs_secret_migration());
    assert_eq!(
        config.upload.ftp.password_plaintext(Some("SECRET-REDACTED".to_string())),
        "SECRET-REDACTED"
    );
}

#[test]
fn stored_secrets_survive_a_save_without_them() {
    let mut stored = Config::default();
    stored.upload.sftp.password_encrypted = "vault".to_string();
    let mut incoming = Config::default();
    incoming.upload.keep_stored_secrets(&stored.upload);
    assert_eq!(incoming.upload.sftp.password_encrypted, "vault");
}

#[test]
fn names_of_captures() {
    assert_eq!(june().format("%Y-%m-%d_%H-%M-%S"), Some("2024-06-02_12-34-56".to_string()));
    assert_eq!(june().format("%Q"), None);
    assert_eq!(june().timestamp(), 1_717_324_496);
    assert!(LocalTime::new(0, 1_000_000_000, 0).is_none());
    assert!(LocalTime::new(0, 0, 86_400).is_none());
    assert!(LocalTime::new(0, 0, -86_400).is_none());
    let far = LocalTime::new(253_402_300_800, 0, 0).unwrap();
    assert_eq!(far.format("%Y-%m-%d"), Some("+10000-01-01".to_string()));
    let old = LocalTime::new(-62_167_219_201, 0, 0).unwrap();
    assert_eq!(old.format("%Y-%m-%d"), Some("-0001-12-31".to_string()));
    let last = LocalTime::new(8_210_266_876_799, 0, 86_399).unwrap();
    assert_eq!(last.format("%Y-%m-%d"), Some("+262143-01-01".to_string()));
    assert_eq!(LocalTime::new(i64::MAX, 0, 0).unwrap().format("%Y"), None);
    assert_eq!(name_from("shot", 5, "png"), "shot.png");
    let mut config = Config::default();
    config.output.filename_template = "cap_%Y".to_string();
    config.output.format = ImageFormat::Jpeg;
    config.output.directory = "/pics".to_string();
    assert_eq!(config.generate_filename(june()), Some("cap_2024.jpg".to_string()));
    assert_eq!(config.output_path(june(), '/'), Some("/pics/cap_2024.jpg".to_string()));
    assert!(backup_name(june()).unwrap().contains("20240602"));
    assert_eq!(config_path(Some("/c"), '/'), Some("/c/config.toml".to_string()));
    assert_eq!(config_path(None, '/'), None);
}

#[test]
fn names_stay_inside() {
    let name = name_from("a/b\\c:..", 5, "png");
    assert!(!name.contains('/') && !name.contains('\\') && !name.contains(':'));
}

#[test]
fn output_directories_are_checked() {
    assert_eq!(check_directory("", false), Err(DirectoryFault::Empty));
    assert_eq!(check_directory("/a/../b", false), Err(DirectoryFault::Traversal));
    assert_eq!(check_directory("\\\\host\\share", true), Err(DirectoryFault::Network));
    assert_eq!(check_directory("/a/b", false), Ok(()));
    assert_eq!(
        check_place("/etc", Some("/home/u"), Some("/home/u/Pictures"), false, '/'),
        Err(DirectoryFault::Outside)
    );
    assert_eq!(
        check_place("/home/u/x", Some("/home/u"), Some("/home/u/Pictures"), false, '/'),
        Ok(())
    );
}

#[test]
fn settings_are_loaded() {
    let (_, step) = settle_loaded(None, Config::default());
    assert_eq!(step, LoadStep::Backup);
    let (_, step) = settle_loaded(Some(Config::default()), Config::default());
    assert_eq!(step, LoadStep::Ready);
    let mut old = Config::default();
    old.upload.ftp.password = "SECRET-REDACTED".to_string();
    let (_, step) = settle_loaded(Some(old), Config::default());
    assert_eq!(step, LoadStep::Migrate);
}

#[test]
fn settings_are_taken_over() {
    let mut config = Config::default();
    config.ui.auto_start = true;
    let change = set_config(config, &Config::default(), true, false).unwrap();
    assert_eq!(change.autostart, Some(true));
    assert!(change.tasks.is_empty());
    assert!(change.config.hotkeys.disabled_globally);
    let change = set_config(Config::default(), &Config::default(), false, false).unwrap();
    assert_eq!(change.tasks.len(), Config::default().capture_tasks.len());
    let mut bad = Config::default();
    bad.output.quality = 101;
    assert_eq!(
        set_config(bad, &Config::default(), false, false).unwrap_err(),
        ConfigFault::Quality
    );
}

#[test]
fn choices_have_names() {
    assert_eq!(ImageFormat::all().len(), 5);
    assert_eq!(ImageFormat::Jpeg.extension(), "jpg");
    assert_eq!(ImageFormat::Png.display_name(), "PNG");
    assert_eq!(HdrCompressionMode::all().len(), 2);
    assert_eq!(Theme::all().len(), 2);
    assert_eq!(Theme::Dark.display_name(), "Dark");
    assert_eq!(RendererBackend::all().len(), 2);
    assert_eq!(RendererBackend::TinySkia.iced_backend_value(), "tiny-skia");
    for a in PostCaptureAction::all() {
        assert!(!a.display_name().is_empty());
    }
    assert_eq!(
        UploadDestination::all(),
        [
            UploadDestination::Imgur,
            UploadDestination::Custom,
            UploadDestination::Ftp,
            UploadDestination::Sftp,
        ]
    );
    for d in UploadDestination::all() {
        assert!(!d.display_name().is_empty());
    }
    assert!(!TaskCaptureMode::RegionGif.display_name().is_empty());
    assert!(!TaskPostAction::OpenEditor.display_name().is_empty());
}

#[test]
fn settings_are_saved_with_their_secrets_sealed() {
    let sealed = || SealedSecrets {
        ftp_password: Some("blob".to_string()),
        sftp_password: None,
        sftp_passphrase: None,
        s3_secret: None,
    };
    let mut config = Config::default();
    config.upload.ftp.password = "open".to_string();
    config.upload.sftp.password = "stays".to_string();
    let saved = config.save(sealed()).unwrap();
    assert_eq!(saved.upload.ftp.password, "");
    assert_eq!(saved.upload.ftp.password_encrypted, "blob");
    assert_eq!(saved.upload.sftp.password, "stays");
    assert_eq!(saved.upload.sftp.password_encrypted, "");
    assert!(saved.validate().is_ok());
    let mut broken = Config::default();
    broken.capture.delay_ms = 30_001;
    assert_eq!(broken.save(sealed()).unwrap_err(), ConfigFault::Delay);
}

#[test]
fn new_secrets_replace_sealed_ones() {
    let sealed = || SealedSecrets {
        ftp_password: Some("ftp".to_string()),
        sftp_password: Some("sftp".to_string()),
        sftp_passphrase: Some("phrase".to_string()),
        s3_secret: Some("s3".to_string()),
    };
    let mut config = Config::default();
    config.upload.ftp.password = "new".to_string();
    config.upload.ftp.password_encrypted = "old".to_string();
    config.upload.sftp.password = "new".to_string();
    config.upload.sftp.password_encrypted = "old".to_string();
    config.upload.sftp.private_key_passphrase = "new".to_string();
    config.upload.sftp.private_key_passphrase_encrypted = "old".to_string();
    config.upload.s3.secret_access_key_encrypted = "old".to_string();
    assert!(!config.needs_secret_migration());
    let saved = config.save(sealed()).unwrap().upload;
    assert_eq!((saved.ftp.password.as_str(), saved.ftp.password_encrypted.as_str()), ("", "ftp"));
    assert_eq!(
        (saved.sftp.password.as_str(), saved.sftp.password_encrypted.as_str()),
        ("", "sftp")
    );
    assert_eq!(saved.sftp.private_key_passphrase, "");
    assert_eq!(saved.sftp.private_key_passphrase_encrypted, "phrase");
    assert_eq!(saved.s3.secret_access_key_encrypted, "old");
}
