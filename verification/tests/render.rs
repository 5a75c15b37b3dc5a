use byos_rust::bitmap::pack_bitmap;
use byos_rust::raster::{ColorRaster, GrayRaster};
use byos_rust::render::{
    artifacts, conversion_result, converter_arguments, monochrome, process, RenderError,
    RenderedImage, CONVERTER, DISPLAY_HEIGHT, DISPLAY_WIDTH,
};
use image::ImageEncoder;

const WRONG_DIMENSIONS: &str = "the raster is not 800 by 480 pixels";

fn rgba_png(width: u32, height: u32, pixels: &[u8]) -> Vec<u8> {
    let mut data = Vec::new();
    image::codecs::png::PngEncoder::new(&mut data)
        .write_image(pixels, width, height, image::ExtendedColorType::Rgba8)
        .expect("the raster encodes");
    data
}

fn uniform(width: u32, height: u32, colour: [u8; 4]) -> Vec<u8> {
    let mut pixels = Vec::new();
    for _ in 0..(width * height) {
        pixels.extend_from_slice(&colour);
    }
    pixels
}

fn gradient() -> Vec<u8> {
    let mut pixels = Vec::new();
    for y in 0..480u32 {
        for x in 0..800u32 {
            pixels.extend_from_slice(&[(x * 255 / 799) as u8, (y * 255 / 479) as u8, ((x + y) % 256) as u8, 255]);
        }
    }
    pixels
}

fn stored_bit(bmp: &[u8], x: usize, y: usize) -> u8 {
    let row = 479 - y;
    (bmp[62 + row * 100 + x / 8] >> (7 - x % 8)) & 1
}

#[test]
fn process_turns_a_white_screenshot_into_white_files() {
    let files = process(&rgba_png(800, 480, &uniform(800, 480, [255, 255, 255, 255]))).unwrap();
    assert_eq!(files.bmp.len(), 48062);
    assert_eq!(&files.bmp[0..2], b"BM");
    assert_eq!(&files.bmp[2..6], &48062u32.to_le_bytes());
    assert_eq!(&files.bmp[6..10], &[0, 0, 0, 0]);
    assert_eq!(&files.bmp[10..14], &62u32.to_le_bytes());
    assert_eq!(&files.bmp[14..18], &40u32.to_le_bytes());
    assert_eq!(&files.bmp[18..22], &800u32.to_le_bytes());
    assert_eq!(&files.bmp[22..26], &480u32.to_le_bytes());
    assert_eq!(&files.bmp[26..28], &1u16.to_le_bytes());
    assert_eq!(&files.bmp[28..30], &1u16.to_le_bytes());
    assert_eq!(&files.bmp[30..34], &0u32.to_le_bytes());
    assert_eq!(&files.bmp[34..38], &48000u32.to_le_bytes());
    assert_eq!(&files.bmp[54..62], &[0, 0, 0, 0, 255, 255, 255, 0]);
    assert!(files.bmp[62..].iter().all(|b| *b == 0xff));
    let png = image::load_from_memory_with_format(&files.png, image::ImageFormat::Png).unwrap();
    assert_eq!((png.width(), png.height()), (800, 480));
    assert_eq!(png.color(), image::ColorType::L8);
    assert!(png.into_luma8().into_raw().iter().all(|p| *p == 255));
}

#[test]
fn process_turns_a_black_screenshot_into_black_files() {
    let files = process(&rgba_png(800, 480, &uniform(800, 480, [0, 0, 0, 255]))).unwrap();
    assert_eq!(files.bmp.len(), 48062);
    assert!(files.bmp[62..].iter().all(|b| *b == 0));
    let png = image::load_from_memory_with_format(&files.png, image::ImageFormat::Png).unwrap();
    assert!(png.into_luma8().into_raw().iter().all(|p| *p == 0));
}

#[test]
fn both_files_show_the_same_two_level_picture() {
    let files = process(&rgba_png(800, 480, &gradient())).unwrap();
    let png = image::load_from_memory_with_format(&files.png, image::ImageFormat::Png).unwrap().into_luma8();
    assert_eq!(png.dimensions(), (800, 480));
    let mut white = 0usize;
    for y in 0..480usize {
        for x in 0..800usize {
            let level = png.get_pixel(x as u32, y as u32).0[0];
            assert!(level == 0 || level == 255);
            assert_eq!(stored_bit(&files.bmp, x, y) == 1, level == 255);
            white += (level == 255) as usize;
        }
    }
    assert!(white > 0 && white < 800 * 480);
    // The bitmap is read back by the image crate as the same picture.
    let bmp = image::load_from_memory_with_format(&files.bmp, image::ImageFormat::Bmp).unwrap().into_luma8();
    assert_eq!(bmp.dimensions(), (800, 480));
    assert_eq!(bmp.into_raw(), png.into_raw());
}

#[test]
fn process_is_a_function_of_the_screenshot() {
    let screenshot = rgba_png(800, 480, &gradient());
    assert_eq!(process(&screenshot), process(&screenshot));
}

#[test]
fn reduction_is_that_of_the_image_crate() {
    let pixels = gradient();
    let reduced = monochrome(ColorRaster { width: 800, height: 480, pixels: pixels.clone() }).unwrap();
    let colour = image::RgbaImage::from_raw(800, 480, pixels.clone()).unwrap();
    let mut expected = image::imageops::grayscale(&colour);
    // The luminance is the weighted sum of red, green and blue, alpha left out.
    for (i, level) in expected.as_raw().iter().enumerate() {
        let (r, g, b) = (pixels[4 * i] as u32, pixels[4 * i + 1] as u32, pixels[4 * i + 2] as u32);
        assert_eq!(*level as u32, (2126 * r + 7152 * g + 722 * b) / 10000);
    }
    image::imageops::dither(&mut expected, &image::imageops::BiLevel);
    assert_eq!((reduced.width, reduced.height), (800, 480));
    assert_eq!(reduced.pixels, expected.into_raw());
    assert!(reduced.pixels.iter().all(|p| *p == 0 || *p == 255));
}

#[test]
fn dithering_keeps_the_brightness_of_a_region() {
    // Pure green has luminance 182, pure blue 18, pure red 54.
    for (colour, luminance) in [([0u8, 255, 0, 7], 182u32), ([0, 0, 255, 255], 18), ([255, 0, 0, 0], 54)] {
        let reduced = monochrome(ColorRaster { width: 800, height: 480, pixels: uniform(800, 480, colour) }).unwrap();
        let white = reduced.pixels.iter().filter(|p| **p == 255).count() as u32;
        let mean = white * 255 / (800 * 480);
        assert!(mean + 2 >= luminance && mean <= luminance + 2, "{} against {}", mean, luminance);
    }
}

#[test]
fn screenshot_of_other_dimensions_is_refused() {
    let expected = Err(RenderError::Conversion { cause: WRONG_DIMENSIONS.to_string() });
    assert_eq!(process(&rgba_png(10, 10, &uniform(10, 10, [1, 2, 3, 255]))), expected);
    assert_eq!(process(&rgba_png(480, 800, &uniform(480, 800, [1, 2, 3, 255]))), expected);
    assert_eq!(process(&rgba_png(1, 1, &uniform(1, 1, [1, 2, 3, 255]))), expected);
    let short = ColorRaster { width: 800, height: 480, pixels: vec![0; 800 * 480 * 3] };
    assert_eq!(monochrome(short), Err(RenderError::Conversion { cause: WRONG_DIMENSIONS.to_string() }));
    let none = GrayRaster { width: 800, height: 480, pixels: Vec::new() };
    assert_eq!(artifacts(&none), Err(RenderError::Conversion { cause: WRONG_DIMENSIONS.to_string() }));
    let small = GrayRaster { width: 8, height: 1, pixels: vec![0; 8] };
    assert_eq!(artifacts(&small), Err(RenderError::Conversion { cause: WRONG_DIMENSIONS.to_string() }));
}

#[test]
fn data_that_is_no_picture_is_not_decoded() {
    assert_eq!(process(b""), Err(RenderError::Decode));
    assert_eq!(process(b"not a picture"), Err(RenderError::Decode));
    let mut cut = rgba_png(800, 480, &uniform(800, 480, [9, 9, 9, 255]));
    cut.truncate(40);
    assert_eq!(process(&cut), Err(RenderError::Decode));
}

#[test]
fn screenshot_without_alpha_or_colour_is_processed() {
    let mut rgb = Vec::new();
    image::codecs::png::PngEncoder::new(&mut rgb)
        .write_image(&vec![255u8; 800 * 480 * 3], 800, 480, image::ExtendedColorType::Rgb8)
        .unwrap();
    assert!(process(&rgb).unwrap().bmp[62..].iter().all(|b| *b == 0xff));
    let mut gray = Vec::new();
    image::codecs::png::PngEncoder::new(&mut gray)
        .write_image(&vec![0u8; 800 * 480], 800, 480, image::ExtendedColorType::L8)
        .unwrap();
    assert!(process(&gray).unwrap().bmp[62..].iter().all(|b| *b == 0));
}

#[test]
fn bitmap_of_a_small_raster_byte_by_byte() {
    // Ten pixels a row: two bytes of pixels, padded to four. Rows are stored from the bottom.
    let raster = GrayRaster {
        width: 10,
        height: 2,
        pixels: vec![
            255, 0, 0, 0, 0, 0, 0, 255, 255, 0, // first row
            0, 128, 127, 255, 0, 0, 0, 0, 0, 255, // second row
        ],
    };
    let file = pack_bitmap(&raster);
    assert_eq!(file.len(), 62 + 8);
    assert_eq!(&file[0..2], b"BM");
    assert_eq!(&file[2..6], &70u32.to_le_bytes());
    assert_eq!(&file[10..14], &62u32.to_le_bytes());
    assert_eq!(&file[18..22], &10u32.to_le_bytes());
    assert_eq!(&file[22..26], &2u32.to_le_bytes());
    assert_eq!(&file[28..30], &1u16.to_le_bytes());
    assert_eq!(&file[34..38], &8u32.to_le_bytes());
    assert_eq!(&file[46..54], &[2, 0, 0, 0, 2, 0, 0, 0]);
    assert_eq!(&file[62..66], &[0b0101_0000, 0b0100_0000, 0, 0]);
    assert_eq!(&file[66..70], &[0b1000_0001, 0b1000_0000, 0, 0]);
    let read = image::load_from_memory_with_format(&file, image::ImageFormat::Bmp).unwrap().into_luma8();
    assert_eq!(read.dimensions(), (10, 2));
    assert_eq!(
        read.into_raw(),
        vec![255, 0, 0, 0, 0, 0, 0, 255, 255, 0, 0, 255, 0, 255, 0, 0, 0, 0, 0, 255]
    );
}

#[test]
fn bitmap_of_an_empty_raster_is_its_header() {
    let file = pack_bitmap(&GrayRaster { width: 0, height: 0, pixels: Vec::new() });
    assert_eq!(file.len(), 62);
    let wide = pack_bitmap(&GrayRaster { width: 33, height: 1, pixels: vec![255; 33] });
    assert_eq!(wide.len(), 62 + 8);
    assert_eq!(&wide[62..70], &[255, 255, 255, 255, 0b1000_0000, 0, 0, 0]);
}

#[test]
fn display_is_800_by_480() {
    assert_eq!((DISPLAY_WIDTH, DISPLAY_HEIGHT), (800, 480));
}

#[test]
fn rendered_image_paths_share_their_stem() {
    let image = RenderedImage::from_id("abc");
    assert_eq!(image.png_path, "assets/images/generated/abc.png");
    assert_eq!(image.bmp_path, "assets/images/generated/abc.bmp");
    let expected = std::path::Path::new("assets/images/generated").join("abc");
    assert_eq!(std::path::Path::new(&image.png_path), expected.with_extension("png"));
    assert_eq!(std::path::Path::new(&image.bmp_path), expected.with_extension("bmp"));
}

#[test]
fn fresh_render_has_a_fresh_identifier() {
    let first = RenderedImage::default();
    let second = RenderedImage::default();
    assert_ne!(first, second);
    for image in [first, second] {
        let stem = image.png_path.strip_suffix(".png").unwrap();
        assert_eq!(image.bmp_path.strip_suffix(".bmp"), Some(stem));
        let id = stem.strip_prefix("assets/images/generated/").unwrap();
        assert_eq!(id.len(), 36);
        for (i, c) in id.chars().enumerate() {
            if i == 8 || i == 13 || i == 18 || i == 23 {
                assert_eq!(c, '-');
            } else {
                assert!(c.is_ascii_digit() || ('a'..='f').contains(&c));
            }
        }
        assert_eq!(image, RenderedImage::from_id(id));
    }
}

#[test]
fn converter_is_asked_for_a_one_bit_bitmap() {
    let image = RenderedImage::from_id("abc");
    assert_eq!(CONVERTER, "magick");
    assert_eq!(
        converter_arguments(&image),
        vec![
            "assets/images/generated/abc.png",
            "-monochrome",
            "-depth",
            "1",
            "-strip",
            "bmp3:assets/images/generated/abc.bmp"
        ]
    );
    assert_eq!(conversion_result(true, "ignored".to_string()), Ok(()));
    assert_eq!(
        conversion_result(false, "magick: no such file".to_string()),
        Err(RenderError::Conversion { cause: "magick: no such file".to_string() })
    );
}

#[test]
fn served_file_is_one_of_the_rendered_files() {
    let image = RenderedImage::from_id("abc");
    for (firmware, path) in [(None, &image.bmp_path), (Some("1.4.0"), &image.bmp_path), (Some("1.6.0"), &image.png_path)] {
        let device = byos_rust::device::Device {
            current_screen_image: Some("abc".to_string()),
            last_firmware_version: firmware.map(|v| v.to_string()),
            default_refresh_interval: 60,
        };
        let directive = byos_rust::display::DisplayResponse::from_device(&device, "http://h");
        assert_eq!(path, &format!("assets/images/generated/{}", directive.filename));
    }
}

#[test]
fn fresh_render_comes_with_its_identifier() {
    let (id, image) = RenderedImage::fresh();
    assert_eq!(id.len(), 36);
    assert_eq!(image, RenderedImage::from_id(&id));
    assert_eq!(RenderedImage::png_filename(&id), format!("{}.png", id));
    assert_eq!(image.png_path, format!("assets/images/generated/{}", RenderedImage::png_filename(&id)));
    assert_eq!(RenderedImage::png_filename("abc"), "abc.png");
}
