use blobs::topology::{successor, tick_schedule, Interaction};

fn apply(v: &mut Vec<(i64, i64)>, x: Interaction, d: (i64, i64)) {
    let (p, q) = match x {
        Interaction::Repel { a, b } => (a, b),
        Interaction::Tension { i, next } => (i, next),
    };
    v[p].0 += d.0;
    v[p].1 += d.1;
    v[q].0 -= d.0;
    v[q].1 -= d.1;
}

fn total(v: &[(i64, i64)]) -> (i64, i64) {
    v.iter().fold((0, 0), |t, p| (t.0 + p.0, t.1 + p.1))
}

#[test]
fn successor_wraps_last_to_first() {
    assert_eq!(successor(0, 3), 1);
    assert_eq!(successor(1, 3), 2);
    assert_eq!(successor(2, 3), 0);
}

#[test]
fn successor_of_single_particle_is_itself() {
    assert_eq!(successor(0, 1), 0);
}

#[test]
fn schedule_of_three_particles() {
    let s = tick_schedule(3);
    assert_eq!(
        s,
        vec![
            Interaction::Tension { i: 0, next: 1 },
            Interaction::Repel { a: 1, b: 0 },
            Interaction::Tension { i: 1, next: 2 },
            Interaction::Repel { a: 2, b: 0 },
            Interaction::Repel { a: 2, b: 1 },
            Interaction::Tension { i: 2, next: 0 },
        ]
    );
}

#[test]
fn schedule_of_single_particle_is_a_self_loop() {
    assert_eq!(tick_schedule(1), vec![Interaction::Tension { i: 0, next: 0 }]);
}

#[test]
fn schedule_of_empty_ring_is_empty() {
    assert!(tick_schedule(0).is_empty());
}

#[test]
fn schedule_covers_every_pair_once() {
    let n = 7;
    let s = tick_schedule(n);
    assert_eq!(s.len(), n * (n + 1) / 2);
    for a in 0..n {
        for b in 0..n {
            let count = s
                .iter()
                .filter(|x| match **x {
                    Interaction::Repel { a: p, b: q } => (p == a && q == b) || (p == b && q == a),
                    _ => false,
                })
                .count();
            assert_eq!(count, if a == b { 0 } else { 1 });
        }
        let edges = s
            .iter()
            .filter(|x| **x == Interaction::Tension { i: a, next: (a + 1) % n })
            .count();
        assert_eq!(edges, 1);
    }
}

#[test]
fn pair_impulses_are_opposite() {
    let mut v = vec![(0, 0); 2];
    apply(&mut v, Interaction::Repel { a: 1, b: 0 }, (3, -4));
    assert_eq!(v[1], (3, -4));
    assert_eq!(v[0], (-3, 4));
    let mut w = vec![(5, 5); 2];
    apply(&mut w, Interaction::Tension { i: 0, next: 1 }, (2, 7));
    assert_eq!(w[0], (7, 12));
    assert_eq!(w[1], (3, -2));
}

#[test]
fn tick_terms_sum_to_zero() {
    let n = 6;
    let s = tick_schedule(n);
    let mut v: Vec<(i64, i64)> = (0..n as i64).map(|k| (k * 3, -k)).collect();
    let before = total(&v);
    for (k, x) in s.iter().enumerate() {
        let k = k as i64;
        apply(&mut v, *x, (k * 7 - 11, 13 - k * k));
    }
    assert_eq!(total(&v), before);
}

#[test]
fn single_particle_tick_terms_leave_velocity() {
    let mut v = vec![(4, -2)];
    for x in tick_schedule(1) {
        apply(&mut v, x, (9, 9));
    }
    assert_eq!(v, vec![(4, -2)]);
}
