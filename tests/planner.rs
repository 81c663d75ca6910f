use led_streams::color::{Color, ColorStep};
use led_streams::stream::{
    Config, ConfigError, ColorStepIterator, Hz, StreamConfig, StreamConfigError, MAX_STREAMS,
};
use led_streams::time::{Duration, Instant};

const RED: Color = Color(255, 0, 0);
const GREEN: Color = Color(0, 255, 0);
const BLUE: Color = Color(0, 0, 255);

fn stream(color: Color, hertz: u32, burst_micros: u64, offset_micros: u64) -> StreamConfig {
    StreamConfig::new(
        color,
        Hz::from_hertz(hertz),
        Duration::from_micros(burst_micros),
        Some(Duration::from_micros(offset_micros)),
    )
    .unwrap()
}

fn planner(streams: &[StreamConfig]) -> ColorStepIterator {
    Config::new(streams, 64, 5).unwrap().into_iter()
}

fn steps(it: &mut ColorStepIterator, n: usize) -> Vec<(Color, u32)> {
    (0..n)
        .map(|_| {
            let s = it.next().unwrap();
            (s.color, s.delay)
        })
        .collect()
}

#[test]
fn single_stream_no_offset() {
    let mut it = planner(&[stream(RED, 100, 1_000, 0)]);
    let got = steps(&mut it, 7);
    // The first edge lies at the start of time, so the first step holds for no time.
    assert_eq!(got[0], (RED, 0));
    assert_eq!(got[1], (RED, 10));
    assert_eq!(got[2], (Color(0, 0, 0), 135));
    assert_eq!(got[3], (RED, 10));
    assert_eq!(got[4], (Color(0, 0, 0), 135));
    assert_eq!(got[5], (RED, 10));
    assert_eq!(got[6], (Color(0, 0, 0), 135));
}

#[test]
fn single_stream_red_byte_alternates() {
    let mut it = planner(&[stream(RED, 100, 1_000, 0)]);
    it.next().unwrap();
    for k in 0..10 {
        let s = it.next().unwrap();
        let expected = if k % 2 == 0 { 0xFF00_0000 } else { 0 };
        assert_eq!(s.encode_red() & 0xFF00_0000, expected);
    }
}

#[test]
fn two_streams_in_anti_phase() {
    let mut it = planner(&[stream(RED, 100, 5_000, 0), stream(GREEN, 100, 5_000, 5_000)]);
    let got = steps(&mut it, 21);
    assert_eq!(got[0], (RED, 0));
    for (k, step) in got[1..].iter().enumerate() {
        let expected = if k % 2 == 0 { RED } else { GREEN };
        assert_eq!(*step, (expected, 73));
    }
}

#[test]
fn overlap_without_normalization() {
    let mut it = planner(&[stream(RED, 10, 10_000, 0), stream(BLUE, 10, 10_000, 0)]);
    let got = steps(&mut it, 4);
    assert_eq!(got[1], (Color(255, 0, 255), 151));
    assert_eq!(got[2], (Color(0, 0, 0), 1401));
    assert_eq!(got[3], (Color(255, 0, 255), 151));
}

#[test]
fn overlap_of_three_primaries_is_white() {
    let mut it = planner(&[
        stream(RED, 10, 10_000, 0),
        stream(BLUE, 10, 10_000, 0),
        stream(GREEN, 10, 10_000, 0),
    ]);
    let got = steps(&mut it, 3);
    assert_eq!(got[1], (Color(255, 255, 255), 151));
    assert_eq!(got[2], (Color(0, 0, 0), 1401));
}

#[test]
fn overlap_beyond_a_byte_is_scaled() {
    let mut it = planner(&[stream(RED, 10, 10_000, 0), stream(Color(255, 255, 0), 10, 10_000, 0)]);
    let got = steps(&mut it, 2);
    // Sums (510, 255, 0): the brightest channel becomes 255, the others keep their share.
    assert_eq!(got[1].0, Color(255, 127, 0));
}

#[test]
fn late_offset() {
    let mut it = planner(&[stream(Color(128, 128, 128), 1, 100_000, 500_000)]);
    let got = steps(&mut it, 3);
    assert_eq!(got[0], (Color(0, 0, 0), 7807));
    assert_eq!(got[1], (Color(128, 128, 128), 1557));
    assert_eq!(got[2], (Color(0, 0, 0), 14057));
}

#[test]
fn burst_equal_to_period() {
    let solid = Color(10, 10, 10);
    let config = StreamConfig::new(solid, Hz::from_hertz(1), Duration::from_secs(1), None);
    assert!(config.is_ok());
    let mut it = planner(&[config.unwrap()]);
    let got = steps(&mut it, 6);
    assert_eq!(got[0], (solid, 0));
    for step in &got[1..] {
        assert_eq!(*step, (solid, 15620));
    }
}

#[test]
fn current_time_advances_strictly() {
    let mut it = planner(&[
        stream(RED, 60, 3_000, 0),
        stream(Color(0, 255, 255), 61, 3_000, 500),
        stream(GREEN, 59, 3_000, 2_500),
    ]);
    assert_eq!(it.current_time(), None);
    it.next().unwrap();
    let mut last = it.current_time().unwrap().as_micros();
    assert_eq!(last, 0);
    for _ in 0..200 {
        it.next().unwrap();
        let now = it.current_time().unwrap().as_micros();
        assert!(now > last);
        last = now;
    }
}

#[test]
fn delays_account_for_elapsed_time() {
    let mut it = planner(&[stream(RED, 100, 1_000, 0), stream(BLUE, 7, 20_000, 3_333)]);
    it.next().unwrap();
    for _ in 0..100 {
        let before = it.current_time().unwrap().as_micros();
        let step = it.next().unwrap();
        let after = it.current_time().unwrap().as_micros();
        let span = after - before;
        if span / 64 >= 5 {
            let held = (step.delay as u64 + 5) * 64;
            assert!(held <= span && span < held + 64);
        } else {
            assert_eq!(step.delay, 0);
        }
    }
}

#[test]
fn short_intervals_clamp_delay_to_zero() {
    // Edges 100 us apart: one tick, less than the overhead.
    let mut it = planner(&[stream(RED, 100, 1_000, 0), stream(BLUE, 100, 1_000, 1_100)]);
    let got = steps(&mut it, 4);
    assert_eq!(got[1], (RED, 10));
    assert_eq!(got[2], (Color(0, 0, 0), 0));
}

#[test]
fn stream_color_at_instant() {
    let s = stream(RED, 100, 1_000, 2_500);
    assert_eq!(s.get_color_at_instant(Instant::from_micros(0)), Color::black());
    assert_eq!(s.get_color_at_instant(Instant::from_micros(2_499)), Color::black());
    assert_eq!(s.get_color_at_instant(Instant::from_micros(2_500)), RED);
    assert_eq!(s.get_color_at_instant(Instant::from_micros(3_499)), RED);
    assert_eq!(s.get_color_at_instant(Instant::from_micros(3_500)), Color::black());
    assert_eq!(s.get_color_at_instant(Instant::from_micros(12_500)), RED);
}

#[test]
fn stream_alignment_at_every_cycle() {
    let s = stream(GREEN, 100, 1_000, 2_500);
    for k in 0..50u64 {
        let start = 2_500 + k * 10_000;
        assert_eq!(s.get_color_at_instant(Instant::from_micros(start)), GREEN);
        assert_eq!(s.get_color_at_instant(Instant::from_micros(start + 1_000)), Color::black());
    }
}

#[test]
fn stream_next_change() {
    let s = stream(RED, 100, 1_000, 2_500);
    let at = |t: u64| s.get_next_change_after(Some(Instant::from_micros(t))).as_micros();
    assert_eq!(s.get_next_change_after(None).as_micros(), 2_500);
    assert_eq!(at(0), 2_500);
    assert_eq!(at(2_500), 3_500);
    assert_eq!(at(3_000), 3_500);
    assert_eq!(at(3_500), 12_500);
    assert_eq!(at(12_499), 12_500);
}

#[test]
fn next_change_is_an_edge_and_color_holds_until_it() {
    let s = stream(BLUE, 100, 1_000, 2_500);
    for t in (0..40_000u64).step_by(97) {
        let now = s.get_color_at_instant(Instant::from_micros(t));
        let next = s.get_next_change_after(Some(Instant::from_micros(t))).as_micros();
        assert!(next > t);
        assert_ne!(s.get_color_at_instant(Instant::from_micros(next)), now);
        for u in t..next {
            assert_eq!(s.get_color_at_instant(Instant::from_micros(u)), now);
        }
    }
}

#[test]
fn burst_longer_than_period_is_rejected() {
    let r = StreamConfig::new(RED, Hz::from_hertz(100), Duration::from_micros(10_001), None);
    assert_eq!(r.err(), Some(StreamConfigError::BurstLongerThanPeriod));
}

#[test]
fn frequency_above_a_megahertz_is_rejected() {
    let r = StreamConfig::new(
        RED,
        Hz::from_millihertz(2_000_000_000),
        Duration::from_micros(0),
        None,
    );
    assert_eq!(r.err(), Some(StreamConfigError::ZeroPeriod));
}

#[test]
fn period_of_frequencies() {
    assert_eq!(Hz::from_hertz(100).as_duration().as_micros(), 10_000);
    assert_eq!(Hz::from_millihertz(60_500).as_duration().as_micros(), 16_528);
    assert_eq!(Hz::from_millihertz(59_500).as_duration().as_micros(), 16_806);
    assert_eq!(Hz::from_hertz(0).as_duration().as_micros(), u64::MAX);
}

#[test]
fn empty_plan_is_rejected() {
    assert_eq!(Config::new(&[], 64, 5).err(), Some(ConfigError::NoStreams));
}

#[test]
fn plan_holds_at_most_max_streams() {
    let many = vec![stream(RED, 100, 1_000, 0); MAX_STREAMS + 1];
    assert_eq!(Config::new(&many, 64, 5).err(), Some(ConfigError::TooManyStreams));
    let mut it = Config::new(&many[..MAX_STREAMS], 64, 5).unwrap().into_iter();
    it.next().unwrap();
    // Sixteen full-red streams overlap: the sum is scaled back to full red.
    assert_eq!(it.next().unwrap().color, RED);
}

#[test]
fn tick_grid_is_checked() {
    let one = [stream(RED, 100, 1_000, 0)];
    assert_eq!(Config::new(&one, 0, 5).err(), Some(ConfigError::NonPositiveTickLength));
    assert_eq!(Config::new(&one, -64, 5).err(), Some(ConfigError::NonPositiveTickLength));
    assert_eq!(Config::new(&one, 64, -1).err(), Some(ConfigError::NegativeTickOverhead));
    assert!(Config::new(&one, 64, 0).is_ok());
}

#[test]
fn iterator_from_new_matches_into_iter() {
    let one = [stream(RED, 100, 1_000, 0)];
    let mut a = ColorStepIterator::new(Config::new(&one, 64, 5).unwrap());
    let mut b = Config::new(&one, 64, 5).unwrap().into_iter();
    for _ in 0..10 {
        let x: ColorStep = a.next().unwrap();
        let y: ColorStep = b.next().unwrap();
        assert_eq!(x, y);
    }
}

#[test]
fn planner_ends_at_the_last_instant() {
    // A cycle of about 1000 s: the next change after the last start lies past u64.
    let s = StreamConfig::new(
        RED,
        Hz::from_millihertz(1),
        Duration::from_micros(1),
        Some(Duration::from_micros(u64::MAX - 10)),
    )
    .unwrap();
    let mut it = planner(&[s]);
    let first = it.next().unwrap();
    assert_eq!(first.color, Color::black());
    assert_eq!(it.current_time().unwrap().as_micros(), u64::MAX - 10);
    // One more change fits: the end of the burst.
    let second = it.next().unwrap();
    assert_eq!(second.color, RED);
    assert_eq!(it.current_time().unwrap().as_micros(), u64::MAX - 9);
    assert!(it.next().is_none());
    assert_eq!(it.current_time().unwrap().as_micros(), u64::MAX - 9);
}
