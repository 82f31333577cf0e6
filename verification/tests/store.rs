use wind_field::norm::NormMap;
use wind_field::{DataError, WindData};

/// The normalization table a host derives from a real-valued bound.
fn bound_table(bound: f32) -> NormMap {
    let mut levels: Vec<u8> = Vec::new();
    let mut i: i32 = -128;
    while i <= 127 {
        let val = i as f32;
        levels.push((127.5 * (val / bound + 1.0)) as u8);
        i += 1;
    }
    NormMap::new(levels)
}

/// Samples for the store's fixed 360 by 181 grid.
fn full_grid(seed: i32) -> Vec<i8> {
    (0..360 * 181).map(|i| ((i * 31 + seed) % 256 - 128) as i8).collect()
}

#[test]
fn cycle_name_round_trip() {
    let store = WindData::new("2021-03-14T06Z".to_string(), bound_table(30.0));
    assert_eq!(store.cycle(), "2021-03-14T06Z");
}

#[test]
fn raw_round_trip() {
    let mut store = WindData::new("c".to_string(), bound_table(30.0));
    let u = vec![5i8, -6, 7, -8];
    let v = vec![-1i8, 2, -3, 4];
    assert_eq!(store.set_data(6, u.clone(), v.clone()), Ok(()));
    assert_eq!(store.u_data(6).unwrap(), &u);
    assert_eq!(store.v_data(6).unwrap(), &v);
}

#[test]
fn has_tau_membership() {
    let mut store = WindData::new("c".to_string(), bound_table(30.0));
    assert!(!store.has_tau(0));
    store.set_data(0, vec![1i8, 2], vec![3i8, 4]).unwrap();
    assert!(store.has_tau(0));
    assert!(!store.has_tau(3));
}

#[test]
fn insert_overwrites_same_tau() {
    let mut store = WindData::new("c".to_string(), bound_table(30.0));
    store.set_data(9, vec![1i8, 2], vec![3i8, 4]).unwrap();
    store.set_data(9, vec![5i8, 6], vec![7i8, 8]).unwrap();
    assert_eq!(store.u_data(9).unwrap(), &vec![5i8, 6]);
    assert_eq!(store.v_data(9).unwrap(), &vec![7i8, 8]);
}

#[test]
fn size_mismatch_rejected_and_store_intact() {
    let mut store = WindData::new("c".to_string(), bound_table(30.0));
    let u1 = vec![1i8; 100];
    let v1 = vec![2i8; 100];
    assert_eq!(store.set_data(0, u1.clone(), v1.clone()), Ok(()));
    let r = store.set_data(3, vec![9i8; 50], vec![9i8; 50]);
    assert_eq!(r, Err(DataError::SizeMismatch { tau: 3 }));
    // The refused snapshot left no trace, and the first is unharmed.
    assert!(!store.has_tau(3));
    assert_eq!(store.u_data(0).unwrap(), &u1);
    assert_eq!(store.v_data(0).unwrap(), &v1);
}

#[test]
fn size_mismatch_on_one_component() {
    let mut store = WindData::new("c".to_string(), bound_table(30.0));
    store.set_data(0, vec![1i8; 10], vec![2i8; 10]).unwrap();
    let r = store.set_data(1, vec![1i8; 10], vec![2i8; 9]);
    assert_eq!(r, Err(DataError::SizeMismatch { tau: 1 }));
}

#[test]
fn first_insert_records_u_length() {
    // The first insertion is accepted as it stands, even with unequal
    // components, and the U array's length becomes the expected count.
    let mut store = WindData::new("c".to_string(), bound_table(30.0));
    assert_eq!(store.set_data(0, vec![1i8; 4], vec![2i8; 5]), Ok(()));
    assert!(store.has_tau(0));
    assert_eq!(store.v_data(0).unwrap(), &vec![2i8; 5]);
    // Later insertions are held to U's length, four.
    assert_eq!(store.set_data(1, vec![3i8; 4], vec![4i8; 4]), Ok(()));
    assert_eq!(
        store.set_data(2, vec![5i8; 5], vec![6i8; 5]),
        Err(DataError::SizeMismatch { tau: 2 })
    );
}

#[test]
fn missing_tau_is_reported() {
    let mut store = WindData::new("c".to_string(), bound_table(30.0));
    assert_eq!(store.u_data(7).unwrap_err(), DataError::TauMissing { tau: 7 });
    assert_eq!(store.v_data(7).unwrap_err(), DataError::TauMissing { tau: 7 });
    assert_eq!(store.u_data_for_gpu(7).unwrap_err(), DataError::TauMissing { tau: 7 });
    assert_eq!(store.v_data_for_gpu(7).unwrap_err(), DataError::TauMissing { tau: 7 });
}

#[test]
fn undersized_snapshot_gets_no_texture() {
    let mut store = WindData::new("c".to_string(), bound_table(30.0));
    store.set_data(2, vec![1i8; 100], vec![2i8; 100]).unwrap();
    assert_eq!(store.u_data_for_gpu(2).unwrap_err(), DataError::GridTooSmall { tau: 2 });
    assert_eq!(store.v_data_for_gpu(2).unwrap_err(), DataError::GridTooSmall { tau: 2 });
    // The snapshot itself is still there for raw access.
    assert_eq!(store.u_data(2).unwrap(), &vec![1i8; 100]);
}

#[test]
fn texture_fetch_idempotent() {
    let mut store = WindData::new("c".to_string(), bound_table(30.0));
    store.set_data(12, full_grid(3), full_grid(8)).unwrap();
    let t1 = store.u_data_for_gpu(12).unwrap();
    let t2 = store.u_data_for_gpu(12).unwrap();
    assert_eq!(t1, t2);
    assert_eq!(t1.len(), 512 * 512);
    let s1 = store.v_data_for_gpu(12).unwrap();
    let s2 = store.v_data_for_gpu(12).unwrap();
    assert_eq!(s1, s2);
}

#[test]
fn all_zero_grid_normalizes_to_midpoint() {
    // Zero samples under bound 10.0: every texel is
    // (127.5 * (0 / 10 + 1)) narrowed to a byte, which is 127 here.
    let mut store = WindData::new("c".to_string(), bound_table(10.0));
    store.set_data(0, vec![0i8; 360 * 181], vec![0i8; 360 * 181]).unwrap();
    let t = store.u_data_for_gpu(0).unwrap();
    assert_eq!(t.len(), 512 * 512);
    assert!(t.iter().all(|&b| b == 127));
}

#[test]
fn u_and_v_textures_are_independent() {
    let mut store = WindData::new("c".to_string(), bound_table(30.0));
    let u: Vec<i8> = vec![20i8; 360 * 181];
    let v: Vec<i8> = vec![-20i8; 360 * 181];
    store.set_data(1, u, v).unwrap();
    let tu = store.u_data_for_gpu(1).unwrap();
    let tv = store.v_data_for_gpu(1).unwrap();
    assert_ne!(tu, tv);
    assert!(tu.iter().all(|&b| b == tu[0]));
    assert!(tv.iter().all(|&b| b == tv[0]));
}
