use fourier_waves::{sample_len, synthesize_with, PeriodicFunction};

#[test]
fn sample_count_over_positive_range() {
    let n = sample_len(1000, 3.14 > 0.0);
    assert!(n == 999 || n == 1000);
    assert_eq!(n, 1000);
}

#[test]
fn no_samples_without_count_or_range() {
    assert_eq!(sample_len(0, true), 0);
    assert_eq!(sample_len(64, false), 0);
    assert_eq!(sample_len(1, true), 1);
}

#[test]
fn wave_kind_labels() {
    assert_eq!(PeriodicFunction::Sin.label(), "Sin");
    assert_eq!(PeriodicFunction::Cos.label(), "Cos");
}

#[test]
fn new_component_is_sine() {
    assert_eq!(PeriodicFunction::default(), PeriodicFunction::Sin);
}

#[derive(Clone, Copy)]
struct Wave {
    kind: PeriodicFunction,
    amplitude: f64,
    frequency: f64,
    offset: f64,
}

fn add_wave(sum: f64, w: Wave, x: f64) -> f64 {
    let f = match w.kind {
        PeriodicFunction::Sin => f64::sin,
        PeriodicFunction::Cos => f64::cos,
    };
    sum + f(x * w.frequency) * w.amplitude + w.offset
}

fn synthesize(waves: &Vec<Wave>, n: usize, range: f64) -> Vec<(f64, f64)> {
    let step = range / n as f64;
    let position = |i: usize| i as f64 * step;
    synthesize_with(waves, n, range > 0.0, &position, &add_wave, 0.0)
}

fn sine() -> Wave {
    Wave { kind: PeriodicFunction::Sin, amplitude: 1.0, frequency: 1.0, offset: 0.0 }
}

#[test]
fn synthesis_length_over_pi() {
    let out = synthesize(&vec![sine()], 1000, 3.14);
    assert!(out.len() == 999 || out.len() == 1000);
    assert!(out.iter().all(|(x, _)| *x < 3.14));
    assert!(out.windows(2).all(|w| w[0].0 < w[1].0));
}

#[test]
fn synthesis_without_components_is_zero() {
    let out = synthesize(&Vec::new(), 64, 2.0);
    assert_eq!(out.len(), 64);
    assert!(out.iter().all(|(_, y)| *y == 0.0));
}

#[test]
fn synthesis_of_empty_or_negative_range() {
    assert!(synthesize(&vec![sine()], 16, 0.0).is_empty());
    assert!(synthesize(&vec![sine()], 16, -1.0).is_empty());
    assert!(synthesize(&vec![sine()], 0, 1.0).is_empty());
}

#[test]
fn synthesis_values_follow_the_formula() {
    let waves = vec![
        Wave { kind: PeriodicFunction::Sin, amplitude: 2.0, frequency: 3.0, offset: 0.5 },
        Wave { kind: PeriodicFunction::Cos, amplitude: -1.0, frequency: 0.5, offset: 1.0 },
    ];
    let out = synthesize(&waves, 8, 4.0);
    assert_eq!(out.len(), 8);
    for (i, (x, y)) in out.iter().enumerate() {
        assert_eq!(*x, i as f64 * 0.5);
        let want = (x * 3.0).sin() * 2.0 + 0.5 + (x * 0.5).cos() * -1.0 + 1.0;
        assert!((y - want).abs() < 1e-12);
    }
    assert_eq!(out[0], (0.0, 0.5 - 1.0 + 1.0));
}

#[test]
fn synthesis_is_linear_in_components() {
    let a = Wave { kind: PeriodicFunction::Sin, amplitude: 1.5, frequency: 2.0, offset: 0.25 };
    let b = Wave { kind: PeriodicFunction::Cos, amplitude: 0.5, frequency: 7.0, offset: -1.0 };
    let sa = synthesize(&vec![a], 32, 6.0);
    let sb = synthesize(&vec![b], 32, 6.0);
    let sab = synthesize(&vec![a, b], 32, 6.0);
    for i in 0..32 {
        assert!((sa[i].1 + sb[i].1 - sab[i].1).abs() < 1e-12);
    }
}
