//! Images in files.

use capscr::capture::frame::{Rgba, RgbaImage};
use capscr::clipboard::save_image;
use capscr::commands::edited::read_picture;
use capscr::commands::history::CaptureFault;
use capscr::commands::thumbs::{
    can_shrink, first_frame_only, history_thumbnail, still_of, thumb_name, thumbnail_for,
};
use capscr::config::ImageFormat;

fn two_halves(width: u32, height: u32) -> RgbaImage {
    let mut pixels = Vec::new();
    for _ in 0..height {
        for x in 0..width {
            let level = if x < width / 2 { 0 } else { 255 };
            pixels.push(Rgba::new(level, level, level, 255));
        }
    }
    RgbaImage::from_pixels(width, height, pixels).unwrap()
}

#[test]
fn a_written_image_is_read_back() {
    let img = two_halves(4, 2);
    let png = save_image(&img, "a.png", ImageFormat::Png, 90).unwrap();
    let back = read_picture(&png, "a.png").unwrap();
    assert_eq!((back.width(), back.height()), (4, 2));
    assert_eq!(back.get_pixel(0, 1), Rgba::new(0, 0, 0, 255));
    assert_eq!(back.get_pixel(3, 0), Rgba::new(255, 255, 255, 255));
    // the name tells the format
    assert!(read_picture(&png, "a.bmp").is_none());
    assert!(read_picture(&png, "a").is_none());
    assert!(read_picture(b"nothing", "a.png").is_none());
}

#[test]
fn a_small_picture_is_made_of_the_first_frame() {
    assert!(first_frame_only("a.GIF"));
    assert!(!first_frame_only("a.png"));
    let img = two_halves(8, 4);
    let gif = save_image(&img, "a.gif", ImageFormat::Gif, 90).unwrap();
    let still = still_of(&gif, "a.gif").unwrap();
    assert_eq!((still.width(), still.height()), (8, 4));
    assert!(still_of(b"GIF89a", "a.gif").is_none());
    assert!(can_shrink(8, 4, 4, 2));
    let jpeg = thumbnail_for(&still, 4, 2).unwrap();
    let small = read_picture(&jpeg, "t.jpg").unwrap();
    assert_eq!((small.width(), small.height()), (4, 2));
    assert!(small.get_pixel(0, 0).r < 64);
    assert!(small.get_pixel(3, 1).r > 192);
}

#[test]
fn small_pictures_and_their_names() {
    assert_eq!(thumb_name(0x1f), "000000000000001f.jpg");
    assert_eq!(thumb_name(u64::MAX), "ffffffffffffffff.jpg");
    assert_eq!(history_thumbnail(true), Ok(()));
    assert_eq!(history_thumbnail(false), Err(CaptureFault::Outside));
    assert!(!can_shrink(4, 4, 5, 4));
    assert!(!can_shrink(4, 4, 0, 4));
    assert!(!can_shrink(0x100_0000, 0x100_0000, 1, 1));
    assert!(can_shrink(3840, 2160, 480, 270));
}
