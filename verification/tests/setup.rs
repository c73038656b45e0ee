//! The installer.

use capscr::jumplist::{tasks, wide, APP_USER_MODEL_ID};
use capscr::setup::engine::{
    arp_value, extract_msi, find_product, has_payload, install, install_args, installed_exe,
    pack_msi, package_name, read_registry_text, read_sub_value, uninstall, uninstall_args,
    Product,
};
use capscr::setup::paint::{button_inks, paint, Align, Draw};
use capscr::setup::png_file::{crc32, opaque_rgba, png_file, write_png};
use capscr::setup::ui::{
    error_lines, hit_at, hit_rects, in_caption, pointer_at, rgb, setup_mode, sweep_segment,
    ClickStep, Hit, Ink, Page, SetupMode, State, WIN_H, WIN_W,
};

fn args(list: &[&str]) -> Vec<String> {
    list.iter().map(|s| s.to_string()).collect()
}

#[test]
fn what_is_carried_comes_out() {
    let package: Vec<u8> = (0..5000u32).map(|i| (i % 7) as u8).collect();
    let blob = pack_msi(Some(&package));
    assert!(has_payload(&blob));
    assert!(blob.len() < package.len());
    assert_eq!(extract_msi(&blob).unwrap(), package);
    let none = pack_msi(None);
    assert_eq!(none, vec![0u8; 8]);
    assert!(!has_payload(&none));
    assert_eq!(extract_msi(&none).unwrap_err(), "this build carries no MSI (dev binary)");
    let broken = [5u8, 0, 0, 0, 0, 0, 0, 0, 0xFF, 0xFF];
    assert!(has_payload(&broken));
    let said = extract_msi(&broken).unwrap_err();
    let why = miniz_oxide::inflate::decompress_to_vec(&broken[8..]).unwrap_err();
    assert_eq!(said, format!("decompress MSI: {:?}", why));
    assert_eq!(package_name("1.2.3"), "capscr-1.2.3.msi");
}

#[test]
fn codes_of_the_systems_installer() {
    assert_eq!(install(Some(0)), Ok(()));
    assert_eq!(install(Some(3010)), Ok(()));
    assert_eq!(install(Some(1602)), Err("installation was cancelled".to_string()));
    assert_eq!(uninstall(Some(1602)), Err("removal was cancelled".to_string()));
    assert_eq!(install(Some(1603)), Err("msiexec exited with code 1603".to_string()));
    assert_eq!(uninstall(Some(-5)), Err("msiexec exited with code -5".to_string()));
    assert_eq!(install(None), Err("msiexec was terminated".to_string()));
    assert_eq!(install_args("p.msi"), vec!["/i", "p.msi", "/qn", "/norestart"]);
    assert_eq!(
        uninstall_args(Some("{1}")).unwrap(),
        vec!["/x", "{1}", "/qn", "/norestart"]
    );
    assert_eq!(uninstall_args(None).unwrap_err(), "capscr is not installed");
}

fn product(key: &str, name: &str, place: Option<&str>) -> Product {
    Product {
        key: key.to_string(),
        display_name: name.to_string(),
        install_location: place.map(|p| p.to_string()),
    }
}

#[test]
fn the_installed_product_is_found() {
    let list = [
        product("capscr", "capscr", Some("C:\\other")),
        product("{0}", "something", None),
        product("{1}", "capscr", None),
        product("{2}", "capscr", Some("C:\\capscr\\\\")),
    ];
    assert_eq!(find_product(&list), Some("{1}".to_string()));
    assert_eq!(arp_value(&list), Some("C:\\capscr\\\\".to_string()));
    assert_eq!(installed_exe("C:\\capscr\\\\"), "C:\\capscr\\capscr.exe");
    assert_eq!(find_product(&list[..2]), None);
    assert_eq!(arp_value(&list[..3]), None);
    assert_eq!(
        read_sub_value(&[None, Some(String::new()), Some("x".to_string())]),
        Some("x".to_string())
    );
    assert_eq!(read_sub_value(&[None]), None);
}

#[test]
fn values_of_the_registry() {
    let units: Vec<u16> = "abc\0\0zz".encode_utf16().collect();
    assert_eq!(read_registry_text(&units, 10), "abc");
    assert_eq!(read_registry_text(&units, 2), "a");
    assert_eq!(read_registry_text(&units, 1000), "abc\0\0zz");
}

#[test]
fn units_end_with_a_zero() {
    assert_eq!(wide("aé𝄞"), vec![0x61, 0xE9, 0xD834, 0xDD1E, 0]);
    assert_eq!(wide(APP_USER_MODEL_ID).len(), APP_USER_MODEL_ID.len() + 1);
}

#[test]
fn the_menu_of_the_taskbar() {
    let list = tasks();
    assert_eq!(list.len(), 5);
    assert_eq!(list[0].arg, "--jump=region");
    assert_eq!(list[0].title, "Capture region");
    assert_eq!(list[4].desc, "Open the capscr hub window");
}

// ---- the window -------------------------------------------------------------------

#[test]
fn buttons_are_hit() {
    let rects = hit_rects(Page::Welcome);
    assert_eq!(hit_at(&rects, 180, 266), Some(Hit::Install));
    assert_eq!(hit_at(&rects, 379, 305), Some(Hit::Install));
    assert_eq!(hit_at(&rects, 380, 306), None);
    assert_eq!(hit_at(&rects, 520, 20), Some(Hit::Close));
    assert_eq!(hit_at(&hit_rects(Page::Done), 140, 240), Some(Hit::Launch));
    assert_eq!(hit_at(&hit_rects(Page::Done), 300, 240), Some(Hit::Quit));
    assert_eq!(hit_at(&hit_rects(Page::Progress), 300, 240), None);
    assert_eq!(pointer_at(0xFFFF_0005), (5, -1));
    assert!(in_caption(5, 5, 508, 64));
    assert!(!in_caption(508, 5, 508, 64));
}

#[test]
fn clicks_change_the_page() {
    let mut s = State::new(Page::Welcome);
    assert_eq!(s.on_click(None), ClickStep::Nothing);
    assert!(s.on_mouse_move(Some(Hit::Install)));
    assert!(!s.on_mouse_move(Some(Hit::Install)));
    assert_eq!(s.on_click(Some(Hit::Install)), ClickStep::Install);
    assert_eq!(s.page, Page::Progress);
    assert!(s.on_timer());
    // it cannot be closed while it works
    assert_eq!(s.on_click(Some(Hit::Close)), ClickStep::Repaint);
    s.engine_done(Ok(()));
    assert_eq!(s.page, Page::Done);
    assert!(!s.on_timer());
    assert_eq!(s.on_click(Some(Hit::Launch)), ClickStep::Launch);
    assert_eq!(s.on_click(Some(Hit::Close)), ClickStep::Quit);

    let mut s = State::new(Page::RemoveConfirm);
    assert_eq!(s.on_click(Some(Hit::Remove)), ClickStep::Remove);
    assert!(s.removing);
    s.engine_done(Ok(()));
    assert_eq!(s.page, Page::Removed);

    let mut s = State::new(Page::Welcome);
    s.start_engine(false);
    s.engine_done(Err("no".to_string()));
    assert_eq!(s.page, Page::Error);
    assert_eq!(s.error, "no");
}

#[test]
fn errors_are_broken_into_lines() {
    assert_eq!(
        error_lines("msiexec  exited with\ncode 1603"),
        vec!["msiexec exited with code 1603"]
    );
    let word = "a".repeat(31);
    let long = format!("{word} {word} {word}");
    assert_eq!(error_lines(&long), vec![format!("{word} {word}"), word.clone()]);
    let huge = "b".repeat(80);
    assert_eq!(error_lines(&huge), vec![String::new(), huge.clone()]);
    assert!(error_lines("  ").is_empty());
}

#[test]
fn pages_are_painted() {
    let mut s = State::new(Page::Error);
    s.error = "no luck".to_string();
    let d = paint(&s, "v1.0");
    assert!(matches!(d[0], Draw::Fill { x: 0, y: 0, w: 560, h: 380, ink: Ink::Background }));
    let texts: Vec<(String, i32, Align)> = d
        .iter()
        .filter_map(|x| match x {
            Draw::Text { text, y, align, .. } => Some((text.clone(), *y, *align)),
            _ => None,
        })
        .collect();
    assert!(texts.contains(&("V1.0".to_string(), 80, Align::Ends)));
    assert!(texts.contains(&("INSTALL FAILED".to_string(), 134, Align::Centered)));
    assert!(texts.contains(&("no luck".to_string(), 166, Align::Centered)));
    assert!(matches!(
        d[d.len() - 1],
        Draw::Button { x: 210, y: 280, w: 140, h: 40, label: "CLOSE", primary: false, hovered: false }
    ));
    let mut s = State::new(Page::Welcome);
    s.hover = Some(Hit::Install);
    let d = paint(&s, "dev");
    assert!(matches!(
        d[d.len() - 1],
        Draw::Button { x: 180, y: 266, w: 200, h: 40, label: "INSTALL", primary: true, hovered: true }
    ));
    assert_eq!(button_inks(true, true), (Ink::Paper, Ink::Ink0));
    assert_eq!(button_inks(false, false), (Ink::Rule2, Ink::Mute));
    assert_eq!(Ink::Paper.color(), 0xF5F5F5);
    assert_eq!(rgb(1, 2, 3), 0x030201);
    assert_eq!((WIN_W, WIN_H), (560, 380));
}

#[test]
fn the_mark_of_progress_moves() {
    assert_eq!(sweep_segment(0), None);
    assert_eq!(sweep_segment(10), Some((60, 10)));
    assert_eq!(sweep_segment(110), Some((60, 110)));
    assert_eq!(sweep_segment(200), Some((150, 110)));
    assert_eq!(sweep_segment(549), Some((499, 1)));
}

#[test]
fn arguments_of_the_installer() {
    assert!(matches!(setup_mode(&[]), SetupMode::Window { page: Page::Welcome }));
    assert!(matches!(setup_mode(&args(&["/s"])), SetupMode::Silent));
    assert!(matches!(
        setup_mode(&args(&["--UNINSTALL"])),
        SetupMode::Window { page: Page::RemoveConfirm }
    ));
    match setup_mode(&args(&["--preview", "p.png", "--page", "done", "--scale", "3"])) {
        SetupMode::Preview { out, page, scale } => {
            assert_eq!(out, "p.png");
            assert_eq!(page, Page::Done);
            assert_eq!(scale, Some("3".to_string()));
        }
        _ => panic!("a picture was asked for"),
    }
    // nothing stands behind the flag
    assert!(matches!(
        setup_mode(&args(&["--preview"])),
        SetupMode::Window { page: Page::Welcome }
    ));
}

// ---- pictures ---------------------------------------------------------------------

#[test]
fn checksums_of_bytes() {
    assert_eq!(crc32(b"123456789"), 0xCBF4_3926);
    assert_eq!(crc32(b""), 0);
    assert_eq!(crc32(b"IEND"), 0xAE42_6082);
}

#[test]
fn pictures_can_be_read() {
    let rgba = vec![1u8, 2, 3, 255, 4, 5, 6, 255, 7, 8, 9, 255, 10, 11, 12, 128];
    let png = write_png(2, 2, &rgba);
    let img = image::load_from_memory(&png).unwrap().into_rgba8();
    assert_eq!(img.dimensions(), (2, 2));
    assert_eq!(img.into_raw(), rgba);
    assert_eq!(&png[..8], b"\x89PNG\r\n\x1a\n");
    let framed = png_file(2, 2, &[]);
    assert_eq!(framed.len(), 8 + 25 + 12 + 12);
    assert_eq!(opaque_rgba(&[3, 2, 1, 0, 9]), vec![1, 2, 3, 255]);
}
