use maeror_delay::{max_delay_in_samples, Delay, DelayTime, DelayTiming};

fn impulse_response(delay: &mut Delay<f32>, len: usize) -> Vec<f32> {
    let mut out = Vec::new();
    for i in 0..len {
        out.push(delay.process(if i == 0 { 1.0 } else { 0.0 }));
    }
    out
}

fn assert_single_impulse_at(out: &[f32], at: usize) {
    for (i, y) in out.iter().enumerate() {
        if i == at {
            assert_eq!(*y, 1.0, "expected the impulse at {}", i);
        } else {
            assert_eq!(*y, 0.0, "expected silence at {}", i);
        }
    }
}

#[test]
fn set_delay_gives_quarter_note_length() {
    let mut d = Delay::new(0.0f32);
    d.set_delay(DelayTime::_1_4, DelayTiming::Straight, 44100, 120_000);
    assert_eq!(d.get_delay_samples(), 22050);
}

#[test]
fn impulse_after_one_sample() {
    // One eighth of a beat is one sample at 8 Hz and 60 bpm.
    let mut d = Delay::new(0.0f32);
    d.set_delay(DelayTime::_1_32, DelayTiming::Straight, 8, 60_000);
    assert_eq!(d.get_delay_samples(), 1);
    let out = impulse_response(&mut d, 50);
    assert_single_impulse_at(&out, 1);
}

#[test]
fn impulse_after_capacity_minus_one() {
    // At 1 Hz and 720 bpm the buffer holds 2 samples and four bars last 1.
    let mut d = Delay::new(0.0f32);
    d.set_delay(DelayTime::_4, DelayTiming::Straight, 1, 720_000);
    assert_eq!(max_delay_in_samples(1, 720_000), 2);
    assert_eq!(d.get_delay_samples(), 1);
    let out = impulse_response(&mut d, 2);
    assert_single_impulse_at(&out, 1);
}

#[test]
fn impulse_after_whole_capacity() {
    let mut d = Delay::new(0.0f32);
    d.set_delay(DelayTime::_4, DelayTiming::Dotted, 8, 60_000);
    let cap = max_delay_in_samples(8, 60_000);
    assert_eq!(cap, 192);
    assert_eq!(d.get_delay_samples(), cap);
    let out = impulse_response(&mut d, cap + 1);
    assert_single_impulse_at(&out, cap);
}

#[test]
fn zero_delay_reads_before_writing() {
    // A delay of zero reads the sample about to be replaced: the one written
    // a whole buffer ago.
    let mut d = Delay::new(0.0f32);
    d.set_delay(DelayTime::_1_32, DelayTiming::Straight, 1, 60_000);
    assert_eq!(d.get_delay_samples(), 0);
    let cap = max_delay_in_samples(1, 60_000);
    assert_eq!(cap, 24);
    let out = impulse_response(&mut d, cap + 1);
    assert_single_impulse_at(&out, cap);
}

#[test]
fn repeated_set_delay_keeps_buffer() {
    let mut d = Delay::new(0.0f32);
    d.set_delay(DelayTime::_1_32, DelayTiming::Straight, 24, 60_000);
    assert_eq!(d.get_delay_samples(), 3);
    let mut out = Vec::new();
    out.push(d.process(1.0));
    d.set_delay(DelayTime::_1_32, DelayTiming::Straight, 24, 60_000);
    for _ in 0..5 {
        out.push(d.process(0.0));
        d.set_delay(DelayTime::_1_32, DelayTiming::Straight, 24, 60_000);
    }
    assert_single_impulse_at(&out, 3);
}

#[test]
fn changing_division_keeps_buffer() {
    let mut d = Delay::new(0.0f32);
    d.set_delay(DelayTime::_1_32, DelayTiming::Straight, 24, 60_000);
    d.process(5.0);
    d.process(6.0);
    d.set_delay(DelayTime::_1_16, DelayTiming::Straight, 24, 60_000);
    assert_eq!(d.get_delay_samples(), 6);
    let mut out = Vec::new();
    for _ in 0..6 {
        out.push(d.process(0.0));
    }
    assert_eq!(out, vec![0.0, 0.0, 0.0, 0.0, 5.0, 6.0]);
}

#[test]
fn tempo_change_clears_buffer() {
    let mut d = Delay::new(0.0f32);
    d.set_delay(DelayTime::_1_32, DelayTiming::Straight, 24, 60_000);
    d.process(1.0);
    d.set_delay(DelayTime::_1_32, DelayTiming::Straight, 24, 120_000);
    assert_eq!(d.get_delay_samples(), 1);
    for _ in 0..max_delay_in_samples(24, 120_000) + 5 {
        assert_eq!(d.process(0.0), 0.0);
    }
}

#[test]
fn resize_fills_with_silence() {
    let mut d = Delay::new(0.0f32);
    d.set_delay(DelayTime::_1_32, DelayTiming::Straight, 8, 60_000);
    for i in 0..100 {
        d.process(i as f32 + 1.0);
    }
    d.resize_buffers(8, 60_000);
    assert_eq!(d.get_delay_samples(), 1);
    let cap = max_delay_in_samples(8, 60_000);
    for _ in 0..cap {
        assert_eq!(d.process(0.0), 0.0);
    }
}

#[test]
fn resize_follows_held_division() {
    let mut d = Delay::new(0.0f32);
    d.set_delay(DelayTime::_1_4, DelayTiming::Dotted, 44100, 120_000);
    d.resize_buffers(48000, 120_000);
    assert_eq!(d.get_delay_samples(), 36000);
}

#[test]
fn new_line_has_no_delay() {
    let mut d = Delay::new(0.0f32);
    assert_eq!(d.get_delay_samples(), 0);
    assert_eq!(d.process(3.0), 0.0);
}

#[test]
fn custom_silence_value() {
    let mut d = Delay::new(-1i32);
    d.set_delay(DelayTime::_1_32, DelayTiming::Straight, 16, 60_000);
    assert_eq!(d.get_delay_samples(), 2);
    assert_eq!(d.process(10), -1);
    assert_eq!(d.process(11), -1);
    assert_eq!(d.process(12), 10);
}
