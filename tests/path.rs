use blobs::path::{outline_indices, point_to_string, to_path};

fn texts(points: &[(f32, f32)]) -> Vec<String> {
    points
        .iter()
        .map(|(x, y)| point_to_string(&x.to_string(), &y.to_string()))
        .collect()
}

#[test]
fn triangle_outline() {
    let p = texts(&[(0.0, 0.0), (1.0, 0.0), (0.0, 1.0)]);
    assert_eq!(to_path(&p), "M 0 0 1 0 0 1 0 0");
    let pairs = to_path(&p).split(' ').filter(|t| *t != "M").count() / 2;
    assert_eq!(pairs, 4);
}

#[test]
fn single_point_outline_closes_on_itself() {
    let p = texts(&[(2.5, -1.0)]);
    assert_eq!(to_path(&p), "M 2.5 -1 2.5 -1");
}

#[test]
fn empty_ring_outline_is_empty() {
    assert_eq!(to_path(&Vec::new()), "");
}

#[test]
fn outline_is_repeatable() {
    let p = texts(&[(500.0, 400.0), (586.6, 550.0), (413.4, 550.0)]);
    let first = to_path(&p);
    let second = to_path(&p);
    assert_eq!(first, second);
    assert_eq!(first, "M 500 400 586.6 550 413.4 550 500 400");
}

#[test]
fn point_text_joins_with_one_space() {
    assert_eq!(point_to_string("1.5", "-2"), "1.5 -2");
}

#[test]
fn outline_indices_close_the_ring() {
    assert_eq!(outline_indices(3), vec![0, 1, 2, 0]);
    assert_eq!(outline_indices(1), vec![0, 0]);
    assert!(outline_indices(0).is_empty());
}
