use raytracer::canvas::Canvas;
use raytracer::colour::Colour;
use raytracer::fixed::ONE;

fn fx(v: f64) -> i64 {
    (v * ONE as f64).round() as i64
}

fn rgb(r: f64, g: f64, b: f64) -> Colour {
    Colour::new(fx(r), fx(g), fx(b))
}

#[test]
fn canvas_construction() {
    let m = vec![vec![rgb(0.0, 0.0, 0.0); 5]; 5];
    let mut canvas = Canvas::new(5, 5);
    assert_eq!(m, canvas.data);
    canvas.write(2, 2, rgb(1.0, 0.0, 0.0));
    assert_eq!(canvas.data[2][2], rgb(1.0, 0.0, 0.0));
}

#[test]
fn output_ppm() {
    let mut canvas = Canvas::new(5, 3);
    let ppm_str = "0 0 0\n0 0 0\n0 0 0\n0 0 0\n0 0 0\n0 0 0\n0 0 0\n0 0 0\n0 0 0\n0 0 0\n0 0 0\n0 0 0\n255 0 0\n0 0 0\n0 0 0\n";
    canvas.write(2, 2, rgb(1.0, 0.0, 0.0));
    let header = canvas.ppm_header();
    let data = canvas.ppm_data();
    assert_eq!(header, "P3\n5 3\n256\n");
    assert_eq!(data, ppm_str);
}

#[test]
fn write_changes_one_line_at_row_major_offset() {
    let mut canvas = Canvas::new(4, 3);
    canvas.write(3, 1, rgb(0.5, 1.0, 0.25));
    let data = canvas.ppm_data();
    let lines: Vec<&str> = data.lines().collect();
    assert_eq!(lines.len(), 12);
    for (k, line) in lines.iter().enumerate() {
        if k == 1 * 4 + 3 {
            assert_eq!(*line, "127 255 63");
        } else {
            assert_eq!(*line, "0 0 0");
        }
    }
}

#[test]
fn fresh_canvas_is_all_zero() {
    let data = Canvas::new(3, 2).ppm_data();
    assert_eq!(data, "0 0 0\n".repeat(6));
}

#[test]
fn serializing_twice_is_identical() {
    let mut canvas = Canvas::new(3, 3);
    canvas.write(0, 2, rgb(0.2, 0.4, 0.6));
    assert_eq!(canvas.ppm_data(), canvas.ppm_data());
    assert_eq!(canvas.ppm_header(), canvas.ppm_header());
}

#[test]
fn empty_canvas() {
    let canvas = Canvas::new(0, 0);
    assert_eq!(canvas.ppm_header(), "P3\n0 0\n256\n");
    assert_eq!(canvas.ppm_data(), "");
}

#[test]
fn out_of_range_channels_are_not_clamped() {
    let mut canvas = Canvas::new(1, 1);
    canvas.write(0, 0, rgb(1.5, -0.2, 0.0));
    assert_eq!(canvas.ppm_data(), "382 -51 0\n");
}

#[test]
fn ppm_text_is_header_then_body() {
    let mut canvas = Canvas::new(2, 1);
    canvas.write(1, 0, rgb(0.0, 1.0, 0.0));
    assert_eq!(canvas.ppm_text(), "P3\n2 1\n256\n0 0 0\n0 255 0\n");
}
