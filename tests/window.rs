use itamaraca::window::SeedWindow;

fn step(bound: f64, scale: f64) -> impl Fn(f64, f64) -> f64 {
    move |oldest: f64, newest: f64| (bound - (newest - oldest).abs() * scale).abs()
}

#[test]
fn new_keeps_seeds_verbatim() {
    let w = SeedWindow::new([800.0, 25.0, 3005.0]);
    assert_eq!(w.seeds(), [800.0, 25.0, 3005.0]);
}

#[test]
fn golden_vector_first_two_steps() {
    let f = step(10000.0, 1.97);
    let mut w = SeedWindow::new([800.0, 25.0, 3005.0]);
    let first = w.advance(&f);
    assert_eq!(format!("{:.4}", first), "5656.1500");
    assert_eq!(w.seeds(), [25.0, 3005.0, first]);
    let second = w.advance(&f);
    assert_eq!(format!("{:.4}", second), "1093.3655");
    assert_eq!(w.seeds(), [3005.0, first, second]);
}

#[test]
fn every_step_shifts_the_window() {
    let f = step(10000.0, 1.97);
    let mut w = SeedWindow::new([800.0, 25.0, 3005.0]);
    for _ in 0..50 {
        let before = w.seeds();
        let out = w.advance(&f);
        assert_eq!(w.seeds(), [before[1], before[2], out]);
        assert_eq!(out, f(before[0], before[2]));
    }
}

#[test]
fn outputs_are_non_negative() {
    let f = step(10000.0, 1.97);
    let mut w = SeedWindow::new([-800.0, 25.0, -3005.0]);
    let outs = w.generate(1000, &f);
    assert!(outs.iter().all(|v| *v >= 0.0));
}

#[test]
fn two_runs_agree() {
    let f = step(10000.0, 1.97);
    let mut a = SeedWindow::new([800.0, 25.0, 3005.0]);
    let mut b = SeedWindow::new([800.0, 25.0, 3005.0]);
    let ra = a.generate(10000, &f);
    let rb = b.generate(10000, &f);
    assert_eq!(ra.len(), 10000);
    let bits_a: Vec<u64> = ra.iter().map(|v| v.to_bits()).collect();
    let bits_b: Vec<u64> = rb.iter().map(|v| v.to_bits()).collect();
    assert_eq!(bits_a, bits_b);
}

#[test]
fn generate_matches_repeated_advance() {
    let f = step(10000.0, 1.97);
    let mut a = SeedWindow::new([800.0, 25.0, 3005.0]);
    let mut b = SeedWindow::new([800.0, 25.0, 3005.0]);
    let outs = a.generate(20, &f);
    for v in outs.iter() {
        assert_eq!(*v, b.advance(&f));
    }
    assert_eq!(a.seeds(), [outs[17], outs[18], outs[19]]);
    assert_eq!(a.seeds(), b.seeds());
}

#[test]
fn generate_zero_leaves_window() {
    let f = step(10000.0, 1.97);
    let mut w = SeedWindow::new([800.0, 25.0, 3005.0]);
    let outs = w.generate(0, &f);
    assert!(outs.is_empty());
    assert_eq!(w.seeds(), [800.0, 25.0, 3005.0]);
}

#[test]
fn output_may_exceed_bound() {
    let f = step(100.0, 1.97);
    let mut w = SeedWindow::new([0.0, 0.0, 1000.0]);
    let out = w.advance(&f);
    assert_eq!(out, (100.0f64 - 1970.0).abs());
    assert!(out > 100.0);
}

#[test]
fn integer_windows_shift_too() {
    let mut w = SeedWindow::new([1u32, 2, 3]);
    let out = w.advance(&|a: u32, c: u32| a.wrapping_mul(10).wrapping_add(c));
    assert_eq!(out, 13);
    assert_eq!(w.seeds(), [2, 3, 13]);
}
