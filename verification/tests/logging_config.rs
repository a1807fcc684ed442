use std::io::Cursor;

use rsgss::bitmap::Bitmap;
use rsgss::color::Color;
use rsgss::config::{AppConfiguration, ColorConfig, Config, LogConfig, PowerPreference};
use rsgss::result::Error;
use rsgss::rlog::{init, max_target_width, parse_format_string, LogLevel};
use rsgss::scene::Scene;
use rsgss::shader::{shader_label, ShaderType};

#[test]
fn format_string_expansion() {
    let line = parse_format_string("%l | %t > %m", "INFO ", "core", "hello");
    assert_eq!(line, "INFO  | core > hello");
    // unknown directives and stray percents pass through
    assert_eq!(parse_format_string("%x %l%", "E", "t", "m"), "%x E%");
    assert_eq!(parse_format_string("", "E", "t", "m"), "");
    assert_eq!(parse_format_string("%m%m", "E", "t", "mm"), "mmmm");
}

#[test]
fn target_width_tracks_maximum() {
    let mut width = 0usize;
    assert_eq!(max_target_width(&mut width, "abc"), 3);
    assert_eq!(max_target_width(&mut width, "a"), 3);
    assert_eq!(max_target_width(&mut width, "abcdef"), 6);
    assert_eq!(width, 6);
}

#[test]
fn logger_filters_and_styles() {
    let mut logger = init(LogConfig::default());
    logger.max_level = LogLevel::Info;

    assert!(logger.log(LogLevel::Debug, "core", "dropped").is_none());

    let line = logger.log(LogLevel::Error, "core", "boom").unwrap();
    // the level label is styled with a real escape sequence, so the line
    // cannot be the unstyled expansion
    assert!(line.contains('\u{1b}'));
    assert!(line.contains("ERROR"));
    assert!(line.ends_with("| core > boom"));

    // a wider target raises the padding for later lines
    logger.log(LogLevel::Info, "core::render", "x").unwrap();
    let padded = logger.log(LogLevel::Info, "core", "y").unwrap();
    assert!(padded.contains("core         >"));
}

#[test]
fn level_labels_align() {
    assert_eq!(LogLevel::Error.label(), "ERROR");
    assert_eq!(LogLevel::Warn.label(), "WARN ");
    assert_eq!(LogLevel::Info.label(), "INFO ");
    assert_eq!(LogLevel::Debug.label(), "DEBUG");
    assert_eq!(LogLevel::Trace.label(), "TRACE");
}

#[test]
fn config_defaults() {
    let c = Config::default();
    assert_eq!(c.log.format, "%l | %t > %m");
    assert_eq!(c.app.title, "rsgss game");
    let colors = ColorConfig::default();
    assert_eq!((colors.debug.red, colors.debug.green, colors.debug.blue), (0, 128, 0));
    assert_eq!((colors.error.red, colors.error.green, colors.error.blue), (255, 0, 0));

    let a = AppConfiguration::default();
    assert_eq!(a.window.title, "Game");
    assert_eq!((a.window.width, a.window.height), (640, 480));
    assert_eq!(a.renderer.power_preference, PowerPreference::HighPerformance);
}

#[test]
fn color_constructors() {
    let c = Color::from_rgb(1, 2, 3);
    assert_eq!((c.red, c.blue, c.green, c.alpha), (1, 2, 3, 255));
    let c = Color::from_rgba(4, 5, 6, 7);
    assert_eq!((c.red, c.blue, c.green, c.alpha), (4, 5, 6, 7));
    let w = Color::white();
    assert_eq!((w.red, w.blue, w.green, w.alpha), (255, 255, 255, 255));
}

#[test]
fn shader_stage_decisions() {
    assert!(ShaderType::Fragment.has_fragment_stage());
    assert!(!ShaderType::Vertex.has_fragment_stage());
    assert_eq!(ShaderType::Vertex.entry_point(), "vs_main");
    assert_eq!(ShaderType::Fragment.entry_point(), "fs_main");
    assert_eq!(shader_label("bitmap", "Shader"), "`bitmap` Shader");
    assert_eq!(
        shader_label("bitmap", "Render Pipeline Layout"),
        "`bitmap` Render Pipeline Layout"
    );
}

#[test]
fn blank_bitmap_is_zeroed_to_size() {
    let mut scene = Scene::new();
    let b = Bitmap::new(&mut scene, 3, 2);
    let bm = scene.bitmaps[b].value.as_ref().unwrap();
    assert_eq!((bm.width, bm.height), (3, 2));
    assert_eq!(bm.pixels.len(), 24);
    assert!(bm.pixels.iter().all(|&p| p == 0));
}

#[test]
fn decode_roundtrip_and_failure() {
    // encode a 2 by 3 image with a recognisable pixel pattern
    let mut img = image::RgbaImage::new(2, 3);
    for (x, y, p) in img.enumerate_pixels_mut() {
        *p = image::Rgba([x as u8 + 1, y as u8 + 1, 9, 255]);
    }
    let mut bytes: Vec<u8> = Vec::new();
    img.write_to(&mut Cursor::new(&mut bytes), image::ImageFormat::Png).unwrap();

    let mut scene = Scene::new();
    let b = Bitmap::from_bytes(&mut scene, &bytes).unwrap();
    let bm = scene.bitmaps[b].value.as_ref().unwrap();
    assert_eq!((bm.width, bm.height), (2, 3));
    assert_eq!(bm.pixels.len(), 24);
    // the decoder hands back pixels, not the container bytes
    assert_eq!(&bm.pixels[0..4], &[1, 1, 9, 255]);
    assert_eq!(&bm.pixels[4..8], &[2, 1, 9, 255]);

    let err = Bitmap::from_bytes(&mut scene, b"not an image").unwrap_err();
    assert_eq!(err, Error::Decode);
    assert_eq!(scene.bitmaps.len(), 1);
}
