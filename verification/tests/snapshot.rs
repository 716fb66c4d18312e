use spectrum_monitor::axis::{channel_ticks, F_MAX, F_SPAN, TICKS_PER_UNIT, Y_HIGH, Y_LOW};
use spectrum_monitor::frame::{DecodeError, CHANNELS, PAYLOAD_SIZE};
use spectrum_monitor::snapshot::{Measurements, PlotPoint};

fn frame_filled_with(sample: f32) -> Vec<u8> {
    let mut bytes = Vec::with_capacity(PAYLOAD_SIZE);
    for _ in 0..CHANNELS {
        bytes.extend_from_slice(&sample.to_le_bytes());
    }
    bytes
}

fn frame_of_ramp(start: f32) -> Vec<u8> {
    let mut bytes = Vec::with_capacity(PAYLOAD_SIZE);
    for i in 0..CHANNELS {
        bytes.extend_from_slice(&(start + i as f32).to_le_bytes());
    }
    bytes
}

fn x_of(p: &PlotPoint) -> f32 {
    p.x_ticks as f32 / TICKS_PER_UNIT as f32
}

fn y_of(p: &PlotPoint) -> f32 {
    10f32 * f32::from_bits(p.power_bits).log10()
}

#[test]
fn new_snapshot_is_all_zero() {
    let m = Measurements::new();
    assert_eq!(m.stokes().len(), CHANNELS);
    assert!(m.stokes().iter().all(|w| *w == 0));
    assert!(m.stokes().iter().all(|w| f32::from_bits(*w) == 0.0));
}

#[test]
fn update_replaces_every_sample() {
    let mut m = Measurements::new();
    assert_eq!(m.update_from_buf(&frame_of_ramp(3.0)), Ok(()));
    for i in 0..CHANNELS {
        assert_eq!(m.stokes()[i], (3.0 + i as f32).to_bits());
    }
}

#[test]
fn last_publish_wins() {
    let mut m = Measurements::new();
    for n in 0..5 {
        assert_eq!(m.update_from_buf(&frame_of_ramp(n as f32 * 10000.0)), Ok(()));
        for i in 0..CHANNELS {
            assert_eq!(m.stokes()[i], (n as f32 * 10000.0 + i as f32).to_bits());
        }
    }
    let points = m.values();
    for i in 0..CHANNELS {
        assert_eq!(points[i].power_bits, (40000.0 + i as f32).to_bits());
    }
}

#[test]
fn refused_payload_leaves_the_snapshot_intact() {
    let mut m = Measurements::new();
    m.update_from_buf(&frame_of_ramp(1.0)).unwrap();
    let before: Vec<u32> = m.stokes().to_vec();
    assert_eq!(m.update_from_buf(&vec![9u8; 8191]), Err(DecodeError::Unpacked { len: 8191 }));
    assert_eq!(m.stokes(), &before[..]);
    assert_eq!(
        m.update_from_buf(&vec![9u8; 8196]),
        Err(DecodeError::ChannelCount { channels: 2049 })
    );
    assert_eq!(m.stokes(), &before[..]);
    assert_eq!(m.update_from_buf(&[]), Err(DecodeError::ChannelCount { channels: 0 }));
    assert_eq!(m.stokes(), &before[..]);
}

#[test]
fn refused_payload_leaves_a_new_snapshot_zero() {
    let mut m = Measurements::new();
    assert!(m.update_from_buf(&vec![9u8; 100]).is_err());
    assert!(m.stokes().iter().all(|w| *w == 0));
}

#[test]
fn axis_constants() {
    assert_eq!(F_MAX, 1530);
    assert_eq!(F_SPAN, 250);
    assert_eq!(TICKS_PER_UNIT as usize, CHANNELS);
    assert_eq!(Y_LOW, 45);
    assert_eq!(Y_HIGH, 55);
}

#[test]
fn axis_ends() {
    assert_eq!(channel_ticks(0), 3_133_440);
    assert_eq!(channel_ticks(1), 3_133_190);
    assert_eq!(channel_ticks(1024), 2_877_440);
    assert_eq!(channel_ticks(2047), 2_621_690);
    assert_eq!(channel_ticks(0) as f32 / 2048.0, 1530.0);
    assert_eq!(channel_ticks(2047) as f32 / 2048.0, 1530.0 - 2047.0 * (250.0 / 2048.0));
    assert_eq!(channel_ticks(2047) as f64 / 2048.0, 1280.1220703125);
}

#[test]
fn axis_falls_in_equal_steps() {
    for i in 0..CHANNELS - 1 {
        assert!(channel_ticks(i) > channel_ticks(i + 1));
        assert_eq!(channel_ticks(i) - channel_ticks(i + 1), F_SPAN);
    }
}

#[test]
fn axis_equals_the_formula_in_single_precision() {
    for i in 0..CHANNELS {
        let x = channel_ticks(i) as f32 / TICKS_PER_UNIT as f32;
        assert_eq!(x, 1530f32 - (i as f32 * (250f32 / 2048f32)));
    }
}

#[test]
fn values_pair_each_channel_with_its_place() {
    let mut m = Measurements::new();
    m.update_from_buf(&frame_of_ramp(2.0)).unwrap();
    let points = m.values();
    assert_eq!(points.len(), CHANNELS);
    for i in 0..CHANNELS {
        assert_eq!(
            points[i],
            PlotPoint { x_ticks: channel_ticks(i), power_bits: (2.0 + i as f32).to_bits() }
        );
    }
}

#[test]
fn values_are_the_same_on_every_call() {
    let mut m = Measurements::new();
    m.update_from_buf(&frame_of_ramp(7.0)).unwrap();
    let first = m.values();
    for _ in 0..10 {
        assert_eq!(m.values(), first);
    }
}

#[test]
fn zero_power_plots_at_negative_infinity() {
    let m = Measurements::new();
    let points = m.values();
    assert_eq!(points.len(), CHANNELS);
    for p in &points {
        assert_eq!(p.power_bits, 0);
        assert_eq!(y_of(p), f32::NEG_INFINITY);
    }
    assert_eq!(x_of(&points[0]), 1530.0);
}

#[test]
fn frame_of_hundreds_plots_at_twenty_decibels() {
    let mut m = Measurements::new();
    assert_eq!(m.update_from_buf(&frame_filled_with(100.0)), Ok(()));
    let points = m.values();
    assert_eq!(points.len(), 2048);
    for (i, p) in points.iter().enumerate() {
        assert_eq!(y_of(p), 20.0);
        assert_eq!(x_of(p), 1530.0 - i as f32 * (250.0 / 2048.0));
    }
    assert_eq!(x_of(&points[0]), 1530.0);
    assert_eq!(x_of(&points[2047]), 1530.0 - 2047.0 * (250.0 / 2048.0));
    for i in 0..2047 {
        assert_eq!(x_of(&points[i]) - x_of(&points[i + 1]), 250.0 / 2048.0);
    }
}
