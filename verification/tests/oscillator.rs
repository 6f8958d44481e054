use progressor_sonify::oscillator::{ticks_per_sample, Oscillator};
use progressor_sonify::tone::weight_to_frequency;

fn sample_at(phase: u32, sample_rate: u32) -> f64 {
    (2.0 * std::f64::consts::PI * phase as f64 / sample_rate as f64).sin()
}

#[test]
fn oscillator_needs_a_sample_rate() {
    assert!(Oscillator::new(0).is_none());
    assert!(Oscillator::new(1).is_some());
    assert!(Oscillator::new(u32::MAX).is_some());
}

#[test]
fn oscillator_starts_at_rest() {
    let oscillator = Oscillator::new(48_000).unwrap();
    assert_eq!(oscillator.sample_rate(), 48_000);
    assert_eq!(oscillator.clock(), 0);
    assert_eq!(oscillator.phase(), 0);
    assert_eq!(oscillator.phase_offset(), 0);
    assert_eq!(oscillator.frequency(), 0);
}

#[test]
fn oscillator_steps_by_the_frequency() {
    let mut oscillator = Oscillator::new(48_000).unwrap();
    assert_eq!(oscillator.advance(110), 110);
    assert_eq!(oscillator.clock(), 1);
    assert_eq!(oscillator.phase_offset(), 0);
    assert_eq!(oscillator.frequency(), 110);
    assert_eq!(oscillator.advance(110), 220);
    assert_eq!(oscillator.clock(), 2);
    assert_eq!(oscillator.advance(110), 330);
    assert_eq!(oscillator.phase(), 330);
}

#[test]
fn oscillator_keeps_its_phase_when_the_frequency_changes() {
    let mut oscillator = Oscillator::new(48_000).unwrap();
    oscillator.advance(110);
    oscillator.advance(110);
    assert_eq!(oscillator.advance(440), 660);
    assert_eq!(oscillator.clock(), 1);
    assert_eq!(oscillator.phase_offset(), 220);
    assert_eq!(oscillator.frequency(), 440);
    assert_eq!(oscillator.advance(440), 1_100);
    assert_eq!(oscillator.clock(), 2);
    assert_eq!(oscillator.phase_offset(), 220);
    assert_eq!(oscillator.advance(220), 1_320);
    assert_eq!(oscillator.phase_offset(), 1_100);
}

#[test]
fn oscillator_wraps_clock_and_phase() {
    let mut oscillator = Oscillator::new(8).unwrap();
    let mut phases = Vec::new();
    let mut clocks = Vec::new();
    for _ in 0..10 {
        phases.push(oscillator.advance(3));
        clocks.push(oscillator.clock());
    }
    assert_eq!(phases, vec![3, 6, 1, 4, 7, 2, 5, 0, 3, 6]);
    assert_eq!(clocks, vec![1, 2, 3, 4, 5, 6, 7, 0, 1, 2]);
}

#[test]
fn oscillator_runs_backward_on_a_negative_frequency() {
    let mut oscillator = Oscillator::new(10).unwrap();
    assert_eq!(oscillator.advance(-3), 7);
    assert_eq!(oscillator.advance(-3), 4);
    assert_eq!(oscillator.advance(-3), 1);
    assert_eq!(oscillator.advance(-3), 8);
    assert_eq!(oscillator.advance(3), 1);
}

#[test]
fn oscillator_at_frequency_zero_stands_still() {
    let mut oscillator = Oscillator::new(100).unwrap();
    for step in 1..=5u32 {
        assert_eq!(oscillator.advance(0), 0);
        assert_eq!(oscillator.clock(), step);
    }
    oscillator.advance(30);
    oscillator.advance(30);
    assert_eq!(oscillator.advance(0), 60);
    assert_eq!(oscillator.advance(0), 60);
}

#[test]
fn oscillator_with_one_tick_a_cycle() {
    let mut oscillator = Oscillator::new(1).unwrap();
    assert_eq!(oscillator.advance(110), 0);
    assert_eq!(oscillator.clock(), 1);
    assert_eq!(oscillator.advance(110), 0);
    assert_eq!(oscillator.clock(), 0);
    assert_eq!(oscillator.advance(220), 0);
    assert_eq!(oscillator.clock(), 1);
}

#[test]
fn oscillator_takes_every_frequency() {
    let mut oscillator = Oscillator::new(u32::MAX).unwrap();
    let rate = u32::MAX as i128;
    let mut phase: i128 = 0;
    for frequency in [i128::MAX, i128::MIN, -1, 1, i128::MIN, i128::MAX, 0, 1_100_000_000_110] {
        for _ in 0..3 {
            phase = (phase + frequency.rem_euclid(rate)) % rate;
            assert_eq!(oscillator.advance(frequency) as i128, phase);
        }
    }
}

#[test]
fn ticks_per_sample_is_the_euclidean_remainder() {
    assert_eq!(ticks_per_sample(110, 48_000), 110);
    assert_eq!(ticks_per_sample(48_000, 48_000), 0);
    assert_eq!(ticks_per_sample(48_110, 48_000), 110);
    assert_eq!(ticks_per_sample(-1, 48_000), 47_999);
    assert_eq!(ticks_per_sample(-48_000, 48_000), 0);
    assert_eq!(ticks_per_sample(-48_001, 48_000), 47_999);
    assert_eq!(ticks_per_sample(0, 7), 0);
    for rate in [1u32, 2, 3, 44_100, u32::MAX] {
        for frequency in [i128::MIN, i128::MIN + 1, -110, -1, 0, 1, 110, i128::MAX] {
            let expected = frequency.rem_euclid(rate as i128);
            assert_eq!(ticks_per_sample(frequency, rate) as i128, expected);
        }
    }
}

#[test]
fn phase_advances_by_the_frequency_in_force_whatever_came_before() {
    let rate = 44_100u32;
    let mut oscillator = Oscillator::new(rate).unwrap();
    let plan: [(i128, usize); 6] =
        [(110, 50_000), (220, 3), (110, 1), (880, 44_100), (0, 7), (-330, 1_000)];
    let mut phase = 0u64;
    for (frequency, samples) in plan {
        let step = frequency.rem_euclid(rate as i128) as u64;
        for _ in 0..samples {
            phase = (phase + step) % rate as u64;
            assert_eq!(oscillator.advance(frequency) as u64, phase);
        }
    }
}

#[test]
fn waveform_has_no_jump_when_the_frequency_changes() {
    let rate = 48_000u32;
    let weights: [(f32, usize); 5] = [(0.0, 700), (3.9, 900), (1.2, 650), (7.0, 333), (0.4, 500)];
    let mut oscillator = Oscillator::new(rate).unwrap();
    let mut previous = 0.0f64;
    let mut largest = 0.0f64;
    for (weight, samples) in weights {
        let frequency = weight_to_frequency(weight.to_bits());
        let slope = 2.0 * std::f64::consts::PI * frequency as f64 / rate as f64;
        for _ in 0..samples {
            let sample = sample_at(oscillator.advance(frequency), rate);
            let jump = (sample - previous).abs();
            assert!(jump <= slope + 1e-12, "jump {} at {} Hz", jump, frequency);
            largest = largest.max(jump);
            previous = sample;
        }
    }
    assert!(largest > 0.0);
}

#[test]
fn waveform_falling_to_a_lower_frequency_stays_within_its_slope() {
    let rate = 48_000u32;
    let mut oscillator = Oscillator::new(rate).unwrap();
    let mut previous = 0.0f64;
    for _ in 0..1_234 {
        previous = sample_at(oscillator.advance(440), rate);
    }
    let lower_slope = 2.0 * std::f64::consts::PI * 110.0 / rate as f64;
    for _ in 0..1_000 {
        let sample = sample_at(oscillator.advance(110), rate);
        assert!((sample - previous).abs() <= lower_slope + 1e-12);
        previous = sample;
    }
}

#[test]
fn waveform_matches_the_formula_in_floats() {
    let rate = 48_000u32;
    let sample_rate = rate as f64;
    let tau = 2.0 * std::f64::consts::PI;
    let mut sample_clock = 0.0f64;
    let mut phase = 0.0f64;
    let mut phase_offset = 0.0f64;
    let mut prev_freq = 0.0f64;
    let mut oscillator = Oscillator::new(rate).unwrap();
    let weights: [(f32, usize); 4] = [(0.0, 60_000), (2.5, 500), (1.0, 48_000), (5.5, 2_000)];
    for (weight, samples) in weights {
        let hertz = weight_to_frequency(weight.to_bits());
        let freq = 110.0 * ((weight as f64).trunc() + 1.0);
        assert_eq!(hertz as f64, freq);
        for _ in 0..samples {
            sample_clock = (sample_clock + 1.0) % sample_rate;
            if freq != prev_freq {
                prev_freq = freq;
                sample_clock = 1.0;
                phase_offset = phase % tau;
            }
            phase = sample_clock * freq * tau / sample_rate + phase_offset;
            let expected = phase.sin();
            let made = sample_at(oscillator.advance(hertz), rate);
            assert!((made - expected).abs() < 1e-9, "{} against {}", made, expected);
        }
    }
}

#[test]
fn a_second_of_samples_is_a_whole_number_of_cycles() {
    for (rate, frequency) in [(8_000u32, 110i128), (44_100, 440), (48_000, -330), (7, 3), (1, 5)] {
        let mut oscillator = Oscillator::new(rate).unwrap();
        oscillator.advance(17);
        oscillator.advance(17);
        let start = oscillator.phase();
        for _ in 0..rate {
            oscillator.advance(frequency);
        }
        assert_eq!(oscillator.phase(), start);
    }
}
