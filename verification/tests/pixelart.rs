use std::collections::HashSet;

use ages::avatar::{import, probe, AvatarError, PIXEL_COLORS, SIZE};
use ages::i18n::Lang;
use ages::pixelart::{downsample, pixelate, quantize, Options, RgbaImage};

fn gradient(w: u32, h: u32) -> RgbaImage {
    let mut data = Vec::new();
    for y in 0..h {
        for x in 0..w {
            data.extend_from_slice(&[x as u8, y as u8, 128, 255]);
        }
    }
    RgbaImage { width: w, height: h, data }
}

fn px(img: &RgbaImage, x: u32, y: u32) -> [u8; 4] {
    let i = ((y * img.width + x) * 4) as usize;
    [img.data[i], img.data[i + 1], img.data[i + 2], img.data[i + 3]]
}

fn distinct(img: &RgbaImage) -> usize {
    img.data.chunks(4).map(|c| [c[0], c[1], c[2], c[3]]).collect::<HashSet<_>>().len()
}

fn png_bytes(w: u32, h: u32, f: impl Fn(u32, u32) -> [u8; 3]) -> Vec<u8> {
    let img = image::RgbImage::from_fn(w, h, |x, y| image::Rgb(f(x, y)));
    let mut out = std::io::Cursor::new(Vec::new());
    img.write_to(&mut out, image::ImageFormat::Png).unwrap();
    out.into_inner()
}

#[test]
fn output_size_and_palette_bound() {
    let out = pixelate(&gradient(256, 256), Options::default());
    assert_eq!((out.width, out.height), (256, 256));
    assert!(distinct(&out) <= 32, "{}", distinct(&out));
    assert!(distinct(&out) > 4, "palette collapsed: {}", distinct(&out));
}

#[test]
fn cells_are_uniform_blocks() {
    let opts = Options::default().grid(16).output_size(64);
    let out = pixelate(&gradient(256, 256), opts);
    let cell = 64 / 16;
    for cy in 0..16 {
        for cx in 0..16 {
            let first = px(&out, cx * cell, cy * cell);
            for dy in 0..cell {
                for dx in 0..cell {
                    assert_eq!(px(&out, cx * cell + dx, cy * cell + dy), first);
                }
            }
        }
    }
    assert_ne!(px(&out, 0, 0), px(&out, 63, 63));
}

#[test]
fn non_square_is_center_cropped() {
    let out = pixelate(&gradient(300, 100), Options::default().grid(10));
    assert_eq!((out.width, out.height), (256, 256));
}

#[test]
fn zero_output_size_keeps_grid() {
    let out = pixelate(&gradient(64, 64), Options::default().grid(8).output_size(0));
    assert_eq!((out.width, out.height), (8, 8));
}

#[test]
fn transparent_pixels_survive() {
    let mut img = RgbaImage { width: 8, height: 8, data: [200u8, 10, 10, 255].repeat(64) };
    img.data[3] = 0;
    img.data[0] = 0;
    img.data[1] = 0;
    img.data[2] = 0;
    let out = quantize(&img, 4);
    assert_eq!(px(&out, 0, 0), [0, 0, 0, 0]);
    assert_eq!(px(&out, 7, 7)[3], 255);
}

#[test]
fn options_are_clamped() {
    let out = pixelate(&gradient(32, 32), Options { grid: 0, colors: 0, output_size: 0 });
    assert_eq!((out.width, out.height), (1, 1));
    let many = pixelate(&gradient(8, 8), Options { grid: 4, colors: 1000, output_size: 0 });
    assert_eq!((many.width, many.height), (4, 4));
}

#[test]
fn default_options() {
    let o = Options::default();
    assert_eq!((o.grid, o.colors, o.output_size), (32, 32, 256));
    let p = o.grid(4).colors(8).output_size(16);
    assert_eq!((p.grid, p.colors, p.output_size), (4, 8, 16));
}

#[test]
fn downsample_takes_the_center_square() {
    // Left third red, middle third green, right third blue.
    let (w, h) = (30u32, 10u32);
    let mut data = Vec::new();
    for _y in 0..h {
        for x in 0..w {
            let c = if x < 10 { [255, 0, 0, 255] } else if x < 20 { [0, 255, 0, 255] } else { [0, 0, 255, 255] };
            data.extend_from_slice(&c);
        }
    }
    let small = downsample(&RgbaImage { width: w, height: h, data }, 2);
    assert_eq!((small.width, small.height), (2, 2));
    for c in small.data.chunks(4) {
        assert_eq!(c, [0, 255, 0, 255]);
    }
}

#[test]
fn quantize_keeps_size_and_bounds_palette() {
    let out = quantize(&gradient(16, 16), 2);
    assert_eq!((out.width, out.height), (16, 16));
    assert!(distinct(&out) <= 2, "{}", distinct(&out));
    assert_ne!(out.data, gradient(16, 16).data);
}

#[test]
fn import_non_square_jpeg() {
    let img = image::RgbImage::from_fn(300, 100, |x, _| image::Rgb([x as u8, 0, 0]));
    let mut buf = std::io::Cursor::new(Vec::new());
    img.write_to(&mut buf, image::ImageFormat::Jpeg).unwrap();
    let src = buf.into_inner();
    let png = import("in.jpg", Some(&src), "avatars/anne.png", None).unwrap();
    let out = image::load_from_memory(&png).unwrap();
    assert_eq!((out.width(), out.height()), (256, 256));
    assert_eq!(image::guess_format(&png).unwrap(), image::ImageFormat::Png);
}

#[test]
fn import_non_square_png() {
    let src = png_bytes(300, 100, |x, _| [x as u8, 0, 0]);
    let png = import("in.png", Some(&src), "avatars/anne.png", None).unwrap();
    let out = image::load_from_memory(&png).unwrap();
    assert_eq!((out.width(), out.height()), (256, 256));
}

#[test]
fn import_rejects_bytes_under_a_wrong_extension() {
    let src = png_bytes(8, 8, |_, _| [1, 2, 3]);
    assert!(matches!(
        import("in.jpg", Some(&src), "a.png", None),
        Err(AvatarError::BadImage(s)) if s == "in.jpg"
    ));
}

#[test]
fn import_text_file_fails() {
    assert!(matches!(
        import("x.txt", Some(b"hi"), "a.png", None),
        Err(AvatarError::BadImage(_))
    ));
    assert!(matches!(
        import("x.png", Some(b"hi"), "a.png", None),
        Err(AvatarError::BadImage(_))
    ));
}

#[test]
fn probe_accepts_image_rejects_text() {
    let png = png_bytes(4, 4, |_, _| [0, 0, 0]);
    assert!(probe("a.png", Some(&png[..16])).is_ok());
    assert!(probe("renamed.dat", Some(&png[..16])).is_ok());
    assert!(matches!(probe("a.txt", Some(b"hello")), Err(AvatarError::BadImage(_))));
    assert!(probe("/nope.png", None).is_err());
}

#[test]
fn import_pixel_stores_blocky_low_color_png() {
    let src = png_bytes(200, 200, |x, y| [x as u8, y as u8, 90]);
    let png = import("in.png", Some(&src), "a.png", Some(16)).unwrap();
    let out = image::load_from_memory(&png).unwrap().to_rgba8();
    assert_eq!((out.width(), out.height()), (SIZE, SIZE));
    let colors: HashSet<[u8; 4]> = out.pixels().map(|p| p.0).collect();
    assert!(colors.len() <= PIXEL_COLORS, "{}", colors.len());
    let cell = SIZE / 16;
    for x in 0..cell {
        assert_eq!(out.get_pixel(x, 0), out.get_pixel(0, 0));
    }
}

#[test]
fn import_missing_fails() {
    assert!(import("/nope/none.png", None, "x.png", None).is_err());
}

#[test]
fn avatar_error_message() {
    assert_eq!(
        AvatarError::BadImage("x.txt".into()).message(Lang::En),
        "Cannot open x.txt as an image."
    );
}

#[test]
fn downsample_depends_only_on_the_center_square() {
    let img = gradient(30, 10);
    let mut sq = Vec::new();
    for y in 0..10u32 {
        for x in 10..20u32 {
            sq.extend_from_slice(&px(&img, x, y));
        }
    }
    let square = RgbaImage { width: 10, height: 10, data: sq };
    for grid in [1u32, 3, 4, 10] {
        assert_eq!(downsample(&img, grid), downsample(&square, grid));
    }
}
