use comp76fx_core::dsp::Delay;

fn impulse_at(delay: &mut Delay<f64>) -> Option<usize> {
    (0..64).position(|n| delay.process(if n == 0 { 1.0 } else { 0.0 }) == 1.0)
}

#[test]
fn a_delay_delays_by_exactly_its_length() {
    for len in [0, 1, 5, 32] {
        let mut delay = Delay::new(len, 32);
        assert_eq!(impulse_at(&mut delay), Some(len));
    }
}

#[test]
fn changing_the_length_takes_effect_without_growing() {
    let mut delay = Delay::new(10, 10);
    delay.set_delay(3);
    assert_eq!(impulse_at(&mut delay), Some(3));
    delay.set_delay(0);
    assert_eq!(impulse_at(&mut delay), Some(0));
    // Past the capacity it stops at the capacity rather than reallocate.
    delay.set_delay(40);
    assert_eq!(delay.delay(), 10);
    assert_eq!(impulse_at(&mut delay), Some(10));
}

/// Every sample comes out exactly `len` samples later, silence first.
#[test]
fn a_run_comes_out_behind_its_silence() {
    let mut delay: Delay<i64> = Delay::new(3, 8);
    let out: Vec<i64> = (1..=6).map(|x| delay.process(x)).collect();
    assert_eq!(out, vec![0, 0, 0, 1, 2, 3]);
}

/// A capacity smaller than the length grows to the length.
#[test]
fn the_capacity_is_at_least_the_length() {
    let mut delay: Delay<i64> = Delay::new(5, 2);
    assert_eq!(delay.delay(), 5);
    let out: Vec<i64> = (1..=7).map(|x| delay.process(x)).collect();
    assert_eq!(out, vec![0, 0, 0, 0, 0, 1, 2]);
}

/// Setting the same length keeps what is in flight; a new one clears it.
#[test]
fn only_a_new_length_clears_the_line() {
    let mut delay: Delay<i64> = Delay::new(2, 4);
    delay.process(7);
    delay.process(8);
    delay.set_delay(2);
    assert_eq!(delay.process(9), 7);
    delay.set_delay(1);
    assert_eq!(delay.process(10), 0);
    assert_eq!(delay.process(11), 10);
}

#[test]
fn a_reset_clears_what_is_in_flight() {
    let mut delay: Delay<i64> = Delay::new(2, 2);
    delay.process(5);
    delay.process(6);
    delay.reset();
    assert_eq!(delay.delay(), 2);
    assert_eq!(delay.process(1), 0);
    assert_eq!(delay.process(2), 0);
    assert_eq!(delay.process(3), 1);
}
