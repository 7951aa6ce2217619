use raytracer::config::ImageConfig;
use raytracer::decimal::write_decimal;
use raytracer::ppm::{render, write_color, write_header, Rgb};

fn text(bytes: Vec<u8>) -> String {
    String::from_utf8(bytes).unwrap()
}

fn color_line(color: Rgb) -> String {
    let mut out = Vec::new();
    write_color(&mut out, color);
    text(out)
}

#[test]
fn decimal_zero_and_large() {
    let mut out = Vec::new();
    write_decimal(&mut out, 0);
    out.push(b'|');
    write_decimal(&mut out, 9);
    out.push(b'|');
    write_decimal(&mut out, 10);
    out.push(b'|');
    write_decimal(&mut out, 4294967295);
    assert_eq!(text(out), "0|9|10|4294967295");
}

#[test]
fn standard_config_height() {
    let c = ImageConfig::standard();
    assert_eq!(c.image_width, 400);
    assert_eq!(c.image_height, 225);
    assert_eq!(c.pixel_count(), 90000);
    assert_eq!(ImageConfig::new(16, 9, 400), Some(c));
}

#[test]
fn height_is_floored() {
    let c = ImageConfig::new(16, 9, 401).unwrap();
    assert_eq!(c.image_height, 225);
    let c = ImageConfig::new(4, 3, 100).unwrap();
    assert_eq!(c.image_height, 75);
    let c = ImageConfig::new(3, 1, 10).unwrap();
    assert_eq!(c.image_height, 3);
}

#[test]
fn height_has_at_least_one_row() {
    let c = ImageConfig::new(16, 9, 1).unwrap();
    assert_eq!(c.image_height, 1);
    assert_eq!(c.pixel_count(), 1);
}

#[test]
fn invalid_configs_rejected() {
    assert_eq!(ImageConfig::new(0, 9, 400), None);
    assert_eq!(ImageConfig::new(16, 0, 400), None);
    assert_eq!(ImageConfig::new(16, 9, 0), None);
    assert_eq!(ImageConfig::new(1, 2, u32::MAX), None);
    assert!(ImageConfig::new(1, 1, u32::MAX).is_some());
}

#[test]
fn pixel_writer_white() {
    assert_eq!(color_line(Rgb { r: 255, g: 255, b: 255 }), "255 255 255\n");
}

#[test]
fn pixel_writer_black() {
    assert_eq!(color_line(Rgb { r: 0, g: 0, b: 0 }), "0 0 0\n");
}

#[test]
fn pixel_writer_red_no_overflow() {
    assert_eq!(color_line(Rgb { r: 255, g: 0, b: 0 }), "255 0 0\n");
}

#[test]
fn pixel_writer_sky() {
    assert_eq!(color_line(Rgb { r: 127, g: 178, b: 255 }), "127 178 255\n");
}

#[test]
fn header_lines() {
    let mut out = Vec::new();
    write_header(&mut out, 400, 225);
    assert_eq!(text(out), "P3\n400 225\n255\n");
}

#[test]
fn render_standard_layout() {
    let c = ImageConfig::standard();
    let shade = |i: u32, j: u32| Rgb { r: (i % 256) as u8, g: (j % 256) as u8, b: 200 };
    let out = text(render(&c, shade));
    let lines: Vec<&str> = out.lines().collect();
    assert_eq!(lines.len(), 3 + 400 * 225);
    assert_eq!(lines[0], "P3");
    assert_eq!(lines[1], "400 225");
    assert_eq!(lines[2], "255");
    assert_eq!(format!("{}\n", lines[3]), color_line(shade(0, 0)));
    assert_eq!(lines[3], "0 0 200");
    assert!(out.ends_with('\n'));
    assert_eq!(out.matches('\n').count(), 3 + 400 * 225);
}

#[test]
fn render_row_major_order() {
    let c = ImageConfig::new(2, 1, 4).unwrap();
    assert_eq!(c.image_height, 2);
    let out = text(render(&c, |i: u32, j: u32| Rgb { r: i as u8, g: j as u8, b: 9 }));
    assert_eq!(
        out,
        "P3\n4 2\n255\n0 0 9\n1 0 9\n2 0 9\n3 0 9\n0 1 9\n1 1 9\n2 1 9\n3 1 9\n"
    );
}

#[test]
fn render_single_pixel() {
    let c = ImageConfig::new(16, 9, 1).unwrap();
    let out = text(render(&c, |_i: u32, _j: u32| Rgb { r: 1, g: 2, b: 3 }));
    assert_eq!(out, "P3\n1 1\n255\n1 2 3\n");
}

#[test]
fn render_twice_identical() {
    let c = ImageConfig::standard();
    let shade = |i: u32, j: u32| Rgb { r: (i * 7 % 256) as u8, g: (j * 3 % 256) as u8, b: 255 };
    let first = render(&c, shade);
    let second = render(&c, shade);
    assert_eq!(first, second);
}
