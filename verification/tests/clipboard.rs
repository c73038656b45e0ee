//! The clipboard, files and notifications.

use capscr::capture::frame::{Rgba, RgbaImage};
use capscr::clipboard::{
    check_image_size, copy_file_path, copy_file_to_clipboard, copy_image, copy_text, file_list,
    retry_with_backoff,
    sanitize_notification_text, save_image, strip_verbatim, validate_filename, ClaimStep,
    ClipboardReply, CopyFault, FileFault, FilenameFault, NotificationGate, RetryStep, SaveFault,
    UniquePath,
};
use capscr::config::ImageFormat;

fn picture() -> RgbaImage {
    let mut img = RgbaImage::from_pixel(4, 2, Rgba::new(10, 20, 30, 255)).unwrap();
    img.put_pixel(3, 1, Rgba::new(200, 100, 50, 255));
    img
}

#[test]
fn an_occupied_clipboard_is_tried_again() {
    assert_eq!(retry_with_backoff(0, ClipboardReply::Done), RetryStep::Done);
    assert_eq!(retry_with_backoff(0, ClipboardReply::Failed), RetryStep::Failed);
    assert!(matches!(
        retry_with_backoff(0, ClipboardReply::Occupied),
        RetryStep::Again { .. }
    ));
    assert_eq!(retry_with_backoff(19, ClipboardReply::Occupied), RetryStep::GiveUp);
}

#[test]
fn images_go_on_the_clipboard_as_bytes() {
    let raw = copy_image(&picture()).unwrap();
    assert_eq!(raw.len(), 32);
    assert_eq!(&raw[28..], &[200, 100, 50, 255]);
    assert_eq!(check_image_size(16384, 16384), Ok(()));
    assert_eq!(check_image_size(16385, 1), Err(CopyFault::TooLarge));
    assert_eq!(check_image_size(0, 1), Err(CopyFault::ZeroDimension));
    assert_eq!(copy_text(&"a".repeat(4097)), Err(CopyFault::TextTooLong));
    assert_eq!(copy_text("a"), Ok(()));
    assert_eq!(copy_file_path(&"a".repeat(4097)), Err(CopyFault::PathTooLong));
}

#[test]
fn files_go_on_the_clipboard_as_a_list() {
    assert_eq!(strip_verbatim("\\\\?\\C:\\a.png"), "C:\\a.png");
    assert_eq!(strip_verbatim("C:\\a.png"), "C:\\a.png");
    let list = file_list("C:\\a");
    // the header, the path and two zeros
    assert_eq!(list.len(), 20 + (4 + 2) * 2);
    assert_eq!(list[0], 20);
    assert_eq!(&list[20..22], &[b'C', 0]);
    assert_eq!(&list[list.len() - 4..], &[0, 0, 0, 0]);
}

#[test]
fn a_taken_name_gets_a_number() {
    let (mut unique, first) = UniquePath::new("/pics", "shot.png", '/');
    assert_eq!(first, "/pics/shot.png");
    let second = match unique.get_unique_filepath(false, 77) {
        ClaimStep::Try { path } => path,
        ClaimStep::Take { .. } => panic!("the name is taken"),
    };
    assert_eq!(second, "/pics/shot_1.png");
    match unique.get_unique_filepath(true, 77) {
        ClaimStep::Take { path } => assert_eq!(path, "/pics/shot_1.png"),
        ClaimStep::Try { .. } => panic!("the name is free"),
    }
}

#[test]
fn names_are_checked() {
    assert_eq!(validate_filename("shot.png"), Ok(()));
    assert_eq!(validate_filename(""), Err(FilenameFault::Empty));
    assert_eq!(validate_filename(&"a".repeat(256)), Err(FilenameFault::TooLong));
    assert_eq!(validate_filename("a..b"), Err(FilenameFault::DotDot));
    assert_eq!(validate_filename("a/b"), Err(FilenameFault::InvalidChar { c: '/' }));
    assert_eq!(validate_filename("a\u{1}b"), Err(FilenameFault::Control));
    assert_eq!(validate_filename("a."), Err(FilenameFault::BadEnd));
    assert_eq!(validate_filename("con.png"), Err(FilenameFault::Reserved));
    let told = [
        (FilenameFault::Empty, "Empty filename"),
        (FilenameFault::TooLong, "Filename too long (max 255 characters)"),
        (FilenameFault::DotDot, "Invalid filename: contains '..'"),
        (FilenameFault::InvalidChar { c: '/' }, "Invalid character '/' in filename"),
        (FilenameFault::Control, "Control characters not allowed in filename"),
        (FilenameFault::BadEnd, "Filename cannot end with '.' or space"),
        (FilenameFault::Reserved, "'con' is a reserved filename on Windows"),
    ];
    for (fault, words) in told {
        assert_eq!(fault.message("con.png"), words);
        assert_eq!(SaveFault::Name { fault }.message("con.png", ""), words);
    }
}

#[test]
fn images_are_saved_in_each_format() {
    for (name, format) in [
        ("a.png", ImageFormat::Png),
        ("a.jpg", ImageFormat::Jpeg),
        ("a.gif", ImageFormat::Gif),
        ("a.webp", ImageFormat::Webp),
        ("a.bmp", ImageFormat::Bmp),
    ] {
        let bytes = save_image(&picture(), name, format, 90).unwrap();
        let img = image::load_from_memory(&bytes).unwrap();
        assert_eq!((img.width(), img.height()), (4, 2), "{name}");
    }
    let png = save_image(&picture(), "a.png", ImageFormat::Png, 90).unwrap();
    let img = image::load_from_memory(&png).unwrap().into_rgba8();
    assert_eq!(img.get_pixel(3, 1).0, [200, 100, 50, 255]);
    // the quality of a JPEG counts
    let fine = save_image(&picture(), "a.jpg", ImageFormat::Jpeg, 100).unwrap();
    let coarse = save_image(&picture(), "a.jpg", ImageFormat::Jpeg, 5).unwrap();
    assert_ne!(fine, coarse);
    assert_eq!(
        save_image(&picture(), "a/b.png", ImageFormat::Png, 90).unwrap_err(),
        SaveFault::Name { fault: FilenameFault::InvalidChar { c: '/' } }
    );
    let empty = RgbaImage::from_pixels(0, 0, Vec::new()).unwrap();
    assert_eq!(
        save_image(&empty, "a.png", ImageFormat::Png, 90).unwrap_err(),
        SaveFault::Size { fault: CopyFault::ZeroDimension }
    );
    assert_eq!(
        save_image(&picture(), "a.unknown", ImageFormat::Png, 90).unwrap_err(),
        SaveFault::Encode
    );
}

#[test]
fn notifications_are_cleaned_and_not_repeated() {
    assert_eq!(sanitize_notification_text("a\u{7}b"), "ab");
    assert_eq!(sanitize_notification_text(&"x".repeat(300)).len(), 256);
    let mut gate = NotificationGate::new();
    let ms = 1_000_000u64;
    assert!(gate.should_emit("t", "b", 1000 * ms));
    assert!(!gate.should_emit("t", "b", 2499 * ms));
    assert!(gate.should_emit("t", "other", 2499 * ms));
    assert!(gate.should_emit("t", "b", 2499 * ms));
    assert!(gate.should_emit("t", "b", 3999 * ms));
    let mut gate = NotificationGate::new();
    assert_eq!(
        gate.show_notification("t\u{1}", "b", 5),
        Some(("t".to_string(), "b".to_string()))
    );
    assert_eq!(gate.show_notification("t", "b", 6), None);
}

#[test]
fn clipboard_faults_are_told_in_words() {
    assert_eq!(CopyFault::TooLarge.message(false), "Image too large for clipboard");
    assert_eq!(CopyFault::TooLarge.message(true), "Image too large to save");
    assert_eq!(CopyFault::ZeroDimension.message(true), "Image has zero dimension");
    assert_eq!(CopyFault::PathTooLong.message(false), "Path too long for clipboard");
    assert_eq!(CopyFault::TextTooLong.message(false), "Text too long for clipboard");
    let size = SaveFault::Size { fault: CopyFault::TooLarge };
    assert_eq!(size.message("a.png", ""), "Image too large to save");
    assert_eq!(SaveFault::Encode.message("a.png", "why"), "why");
    assert_eq!(
        RetryStep::GiveUp.message("Some(ClipboardOccupied)").unwrap(),
        "Clipboard occupied after 20 retries: Some(ClipboardOccupied)"
    );
    assert_eq!(RetryStep::Failed.message("x").unwrap(), "Clipboard error: x");
    assert_eq!(RetryStep::Done.message("x"), None);
}

#[test]
fn only_files_that_are_there_go_on_the_clipboard() {
    let path = "C:\\a";
    assert_eq!(copy_file_to_clipboard(path, false, true), Err(FileFault::NotAbsolute));
    assert_eq!(copy_file_to_clipboard(path, true, false), Err(FileFault::Missing));
    assert_eq!(copy_file_to_clipboard(path, true, true), Ok(file_list(path)));
    assert_eq!(
        FileFault::NotAbsolute.message(path),
        "Clipboard file copy requires an absolute path"
    );
    assert_eq!(FileFault::Missing.message(path), "File does not exist: C:\\a");
}
