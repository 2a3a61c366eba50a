use raytracer::render::run;

fn pixel_lines(text: &str) -> Vec<String> {
    text.lines().skip(3).map(|l| l.to_string()).collect()
}

#[test]
fn small_render_lights_the_pixels_facing_the_sphere() {
    let text = run(3);
    assert!(text.starts_with("P3\n3 3\n256\n"));
    let lines = pixel_lines(&text);
    assert_eq!(lines.len(), 9);
    for (k, line) in lines.iter().enumerate() {
        if k == 4 || k == 5 || k == 7 || k == 8 {
            assert_ne!(line, "0 0 0");
        } else {
            assert_eq!(line, "0 0 0");
        }
    }
}

#[test]
fn last_pixel_is_traced() {
    let text = run(2);
    assert!(text.starts_with("P3\n2 2\n256\n"));
    let lines = pixel_lines(&text);
    assert_eq!(lines.len(), 4);
    assert_eq!(&lines[0..3], &["0 0 0", "0 0 0", "0 0 0"]);
    let channels: Vec<i64> = lines[3].split(' ').map(|c| c.parse().unwrap()).collect();
    assert_eq!(channels.len(), 3);
    assert!(channels[0] >= 25);
    assert!(channels[0] == channels[1] && channels[1] == channels[2]);
}

#[test]
fn single_pixel_render_is_black() {
    assert_eq!(run(1), "P3\n1 1\n256\n0 0 0\n");
}
