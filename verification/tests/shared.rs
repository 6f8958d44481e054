use std::sync::{Arc, Mutex};

use progressor_sonify::shared::{RunningFlag, SharedWeightCell};

#[test]
fn shared_weight_cell_holds_the_last_write() {
    let mut cell = SharedWeightCell::new();
    assert_eq!(cell.read(), 0);
    assert_eq!(f32::from_bits(cell.read()), 0.0);
    cell.write(1.5f32.to_bits());
    cell.write(7.25f32.to_bits());
    assert_eq!(cell.read(), 7.25f32.to_bits());
    assert_eq!(cell.read(), 7.25f32.to_bits());
    cell.write(u32::MAX);
    assert_eq!(cell.read(), u32::MAX);
}

#[test]
fn running_flag_goes_down_once_and_stays_down() {
    let mut flag = RunningFlag::new();
    assert!(flag.is_running());
    flag.stop();
    assert!(!flag.is_running());
    flag.stop();
    assert!(!flag.is_running());
}

#[test]
fn shared_weight_cell_behind_a_lock_gives_whole_weights() {
    let weights: [f32; 4] = [0.0, -1.5, 123456.79, f32::MAX];
    let cell = Arc::new(Mutex::new(SharedWeightCell::new()));
    let writer = cell.clone();
    let reader = cell.clone();
    for round in 0..1_000usize {
        let weight = weights[round % weights.len()];
        writer.lock().unwrap().write(weight.to_bits());
        let seen = reader.lock().unwrap().read();
        assert_eq!(seen, weight.to_bits());
        assert_eq!(f32::from_bits(seen), weight);
    }
}

#[test]
fn running_flag_behind_a_lock_is_seen_down_by_every_holder() {
    let flag = Arc::new(Mutex::new(RunningFlag::new()));
    let holders = [flag.clone(), flag.clone(), flag.clone()];
    assert!(holders.iter().all(|h| h.lock().unwrap().is_running()));
    flag.lock().unwrap().stop();
    assert!(holders.iter().all(|h| !h.lock().unwrap().is_running()));
}
