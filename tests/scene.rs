use blobs::scene::{fill_color, scene_entries, Entry};

#[test]
fn scene_of_forty_blobs() {
    let e = scene_entries(40);
    assert_eq!(e.len(), 40);
    assert_eq!(e[0], Entry { vertex_count: 0, hue: 0 });
    assert_eq!(e[1], Entry { vertex_count: 10, hue: 9 });
    assert_eq!(e[39], Entry { vertex_count: 390, hue: 351 });
}

#[test]
fn hue_rounds_down() {
    let e = scene_entries(7);
    let hues: Vec<usize> = e.iter().map(|x| x.hue).collect();
    assert_eq!(hues, vec![0, 51, 102, 154, 205, 257, 308]);
}

#[test]
fn empty_scene() {
    assert!(scene_entries(0).is_empty());
}

#[test]
fn fill_colors() {
    assert_eq!(fill_color(0), "hsla(0,80%,50%,0.05)");
    assert_eq!(fill_color(9), "hsla(9,80%,50%,0.05)");
    assert_eq!(fill_color(351), "hsla(351,80%,50%,0.05)");
    assert_eq!(fill_color(1200), "hsla(1200,80%,50%,0.05)");
}
