use led_streams::buffer::{StepBuffers, STEP_BUFFER_LEN};
use led_streams::color::{Color, ColorStep};
use led_streams::stream::{Config, Hz, StreamConfig};
use led_streams::time::Duration;

fn planner_500hz() -> led_streams::stream::ColorStepIterator {
    let s = StreamConfig::new(
        Color(255, 0, 0),
        Hz::from_hertz(500),
        Duration::from_millis(1),
        None,
    )
    .unwrap();
    Config::new(&[s], 64, 5).unwrap().into_iter()
}

#[test]
fn new_buffers_are_empty() {
    let b = StepBuffers::new();
    assert!(!b.is_full());
    assert_eq!(b.red().len(), 0);
    assert_eq!(b.green().len(), 0);
    assert_eq!(b.blue().len(), 0);
}

#[test]
fn push_encodes_each_channel() {
    let mut b = StepBuffers::new();
    let step = ColorStep { color: Color(1, 2, 3), delay: 99 };
    assert!(b.push(step).is_ok());
    assert_eq!(b.red().as_slice(), &[0x0100_0063]);
    assert_eq!(b.green().as_slice(), &[0x0200_0063]);
    assert_eq!(b.blue().as_slice(), &[0x0300_0063]);
}

#[test]
fn full_buffers_hand_the_step_back() {
    let mut b = StepBuffers::new();
    let step = ColorStep { color: Color(9, 8, 7), delay: 1 };
    for _ in 0..STEP_BUFFER_LEN {
        assert!(b.push(step).is_ok());
    }
    assert!(b.is_full());
    let other = ColorStep { color: Color(1, 1, 1), delay: 2 };
    assert_eq!(b.push(other), Err(other));
    assert_eq!(b.red().len(), STEP_BUFFER_LEN);
}

#[test]
fn buffers_fill_from_the_planner_in_lock_step() {
    let mut it = planner_500hz();
    let mut b = StepBuffers::new();
    let mut pulled = 0;
    while b.push_next_step(&mut it) {
        pulled += 1;
    }
    assert_eq!(pulled, STEP_BUFFER_LEN);
    assert!(b.is_full());
    assert!(!b.push_next_step(&mut it));
    let mut check = planner_500hz();
    for i in 0..STEP_BUFFER_LEN {
        let step = check.next().unwrap();
        assert_eq!(b.red()[i], step.encode_red());
        assert_eq!(b.green()[i], step.encode_green());
        assert_eq!(b.blue()[i], step.encode_blue());
        assert_eq!(b.red()[i] & 0x00FF_FFFF, b.blue()[i] & 0x00FF_FFFF);
    }
    // The planner was not advanced once the buffers were full.
    assert_eq!(it.next(), check.next());
}

#[test]
fn buffer_of_millisecond_steps_lasts_about_two_seconds() {
    let mut it = planner_500hz();
    let mut b = StepBuffers::new();
    while b.push_next_step(&mut it) {}
    let micros: u64 = b.red().iter().map(|w| ((w & 0x00FF_FFFF) as u64 + 5) * 64).sum();
    assert!(micros >= 1_900_000 && micros <= 2_100_000, "{micros}");
}
