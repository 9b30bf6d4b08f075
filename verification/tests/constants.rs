use trails::constants::{since, Constants};
use trails::settings::Settings;

fn settings() -> Settings {
    Settings {
        width: 640,
        height: 480,
        num_agents: 1000,
        steps_per_tick: 3,
        seed: 9,
        sensor_size: 2,
        density: 4.0f32.to_bits(),
    }
}

#[test]
fn the_parameters_copy_the_configuration() {
    let c: Constants = Constants::new(&settings(), 0, 0, 0);
    assert_eq!(c.width, 640);
    assert_eq!(c.height, 480);
    assert_eq!(c.num_agents, 1000);
    assert_eq!(c.steps_per_tick, 3);
    assert_eq!(c.sensor_size, 2);
}

#[test]
fn time_runs_from_the_start_and_delta_time_from_the_last_frame() {
    let c: Constants = Constants::new(&settings(), 1_000, 5_000_000, 21_666_667);
    assert_eq!(c.time, 21_665_667);
    assert_eq!(c.delta_time, 16_666_667);
}

#[test]
fn the_first_frame_has_no_duration() {
    let c: Constants = Constants::new(&settings(), 123_456, 123_456, 123_456);
    assert_eq!(c.time, 0);
    assert_eq!(c.delta_time, 0);
}

#[test]
fn a_clock_that_ran_backwards_gives_zero() {
    let c: Constants = Constants::new(&settings(), 500, 900, 700);
    assert_eq!(c.time, 200);
    assert_eq!(c.delta_time, 0);
    let d: Constants = Constants::new(&settings(), 500, 300, 100);
    assert_eq!(d.time, 0);
    assert_eq!(d.delta_time, 0);
}

#[test]
fn the_longest_times_fit() {
    let c: Constants = Constants::new(&settings(), 0, 1, u64::MAX);
    assert_eq!(c.time, u64::MAX);
    assert_eq!(c.delta_time, u64::MAX - 1);
}

#[test]
fn the_same_inputs_give_the_same_parameters() {
    let first: Constants = Constants::new(&settings(), 10, 20, 30);
    let second: Constants = Constants::new(&settings(), 10, 20, 30);
    assert_eq!(first, second);
    let later: Constants = Constants::new(&settings(), 10, 20, 31);
    assert_ne!(first, later);
}

#[test]
fn since_is_the_difference_or_zero() {
    assert_eq!(since(3, 10), 7);
    assert_eq!(since(10, 10), 0);
    assert_eq!(since(10, 3), 0);
    assert_eq!(since(0, u64::MAX), u64::MAX);
    assert_eq!(since(u64::MAX, 0), 0);
}
