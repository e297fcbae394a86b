use shrimp::audio::{AudioMonitor, Level, MAX_MAGNITUDE};

fn percent(l: Level) -> f64 {
    (l.total as f64) / (l.count as f64) / (MAX_MAGNITUDE as f64) * 100.0
}

fn ring_from_cursor(m: &AudioMonitor) -> Vec<i16> {
    let cap = m.capacity();
    (0..cap).map(|j| m.sample((m.position() + j) % cap)).collect()
}

#[test]
fn level_of_alternating_hundreds() {
    let mut m = AudioMonitor::new(4);
    m.on_samples(&[100, -100, 100, -100]);
    let l = m.level();
    assert_eq!(l, Level { total: 400, count: 4 });
    let p = percent(l);
    assert!((p - 100.0 / 32767.0 * 100.0).abs() < 1e-9);
    assert!((p - 0.305).abs() < 0.001);
}

#[test]
fn silent_ring_has_level_zero() {
    let m = AudioMonitor::new(16);
    assert_eq!(m.level(), Level { total: 0, count: 16 });
    assert_eq!(percent(m.level()), 0.0);
}

#[test]
fn full_scale_ring_has_level_hundred() {
    let mut m = AudioMonitor::new(8);
    m.on_samples(&[32767, -32767, -32768, 32767, 32767, -32768, 32767, -32767]);
    assert_eq!(m.level(), Level { total: 8 * 32767, count: 8 });
    assert!((percent(m.level()) - 100.0).abs() < 1e-9);
}

#[test]
fn louder_constant_batch_has_higher_level() {
    let mut a = AudioMonitor::new(64);
    let mut b = AudioMonitor::new(64);
    a.on_samples(&vec![-300i16; 64]);
    b.on_samples(&vec![301i16; 64]);
    assert_eq!(a.level().total, 64 * 300);
    assert!(percent(a.level()) < percent(b.level()));
}

#[test]
fn ring_keeps_latest_capacity_samples() {
    let cap = 5usize;
    let k = 3usize;
    let samples: Vec<i16> = (1..=(cap + k) as i16).collect();
    let mut m = AudioMonitor::new(cap);
    m.on_samples(&samples);
    assert_eq!(m.position(), (cap + k) % cap);
    assert_eq!(ring_from_cursor(&m), vec![4, 5, 6, 7, 8]);
    assert_eq!(m.level().total, (4..=8).sum::<u64>());
    m.on_samples(&[0]);
    assert_eq!(ring_from_cursor(&m), vec![5, 6, 7, 8, 0]);
}

#[test]
fn batches_wrap_across_calls() {
    let mut m = AudioMonitor::new(3);
    m.on_samples(&[10, 20]);
    m.on_samples(&[30, 40]);
    // 40 replaced 10.
    assert_eq!(m.level().total, 20 + 30 + 40);
}

#[test]
fn set_capacity_keeps_prefix_and_zero_fills() {
    let mut m = AudioMonitor::new(4);
    m.on_samples(&[1, 2, 3, 4]);
    m.set_capacity(2);
    assert_eq!(m.capacity(), 2);
    assert_eq!(m.level(), Level { total: 3, count: 2 });
    m.set_capacity(6);
    assert_eq!(m.level(), Level { total: 3, count: 6 });
    m.on_samples(&[7]);
    assert_eq!(m.level().total, 7 + 2);
}
