use light_monitor::measurements::Measurements;

#[test]
fn new_buffer_is_empty_with_default_capacity() {
    let m: Measurements<u32> = Measurements::new();
    assert!(m.values.is_empty());
    assert_eq!(m.max_data_points, 300);
}

#[test]
fn append_below_capacity_keeps_everything() {
    let mut m: Measurements<u32> = Measurements::new();
    m.set_max_data_points(5);
    for v in 0..3u32 {
        m.add_value(v);
    }
    assert_eq!(m.values, vec![0, 1, 2]);
}

#[test]
fn eviction_under_load_keeps_the_latest() {
    let cap = 4usize;
    let k = 3usize;
    let mut m: Measurements<usize> = Measurements::new();
    m.set_max_data_points(cap);
    for v in 0..cap + k {
        m.add_value(v);
        assert!(m.values.len() <= cap);
    }
    assert_eq!(m.values.len(), cap);
    assert_eq!(m.values, (k..cap + k).collect::<Vec<usize>>());
}

#[test]
fn shrinking_capacity_evicts_oldest() {
    let mut m: Measurements<u32> = Measurements::new();
    for v in 0..10u32 {
        m.add_value(v);
    }
    m.set_max_data_points(3);
    assert_eq!(m.values, vec![7, 8, 9]);
    assert_eq!(m.max_data_points, 3);
}

#[test]
fn zero_capacity_drains_and_stays_empty() {
    let mut m: Measurements<u32> = Measurements::new();
    m.add_value(1);
    m.add_value(2);
    m.set_max_data_points(0);
    assert!(m.values.is_empty());
    m.add_value(3);
    assert!(m.values.is_empty());
}

#[test]
fn clear_keeps_capacity() {
    let mut m: Measurements<u32> = Measurements::new();
    m.set_max_data_points(2);
    m.add_value(1);
    m.add_value(2);
    m.clear_values();
    assert!(m.values.is_empty());
    assert_eq!(m.max_data_points, 2);
    m.add_value(5);
    assert_eq!(m.values, vec![5]);
}

#[test]
fn interleaved_appends_and_resizes_keep_most_recent() {
    let mut m: Measurements<u32> = Measurements::new();
    m.set_max_data_points(4);
    let mut appended: Vec<u32> = Vec::new();
    for v in 0..20u32 {
        m.add_value(v);
        appended.push(v);
        if v % 5 == 4 {
            let cap = m.max_data_points - 1;
            m.set_max_data_points(cap);
        }
        assert!(m.values.len() <= m.max_data_points);
        let keep = m.max_data_points.min(appended.len());
        assert_eq!(m.values, appended[appended.len() - keep..].to_vec());
    }
    assert_eq!(m.max_data_points, 0);
}

#[test]
fn samples_with_float_fields_are_kept_in_order() {
    let mut m: Measurements<(f64, f64)> = Measurements::new();
    m.set_max_data_points(2);
    m.add_value((0.0, 1.5));
    m.add_value((0.1, 2.5));
    m.add_value((0.2, 3.5));
    assert_eq!(m.values, vec![(0.1, 2.5), (0.2, 3.5)]);
}
