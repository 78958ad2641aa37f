use ledring::PulsePair;
use ledring::PulseTiming;
use ledring::color::Color;
use ledring::encode_pixels;
use ledring::ns;

fn bit_of(pair: &PulsePair, t: &PulseTiming) -> bool {
    if pair.high_ns == t.one_high_ns && pair.low_ns == t.one_low_ns {
        true
    } else {
        assert_eq!(pair.high_ns, t.zero_high_ns);
        assert_eq!(pair.low_ns, t.zero_low_ns);
        false
    }
}

fn byte_of(pairs: &[PulsePair], t: &PulseTiming) -> u8 {
    assert_eq!(pairs.len(), 8);
    let mut x: u8 = 0;
    for pair in pairs {
        x = (x << 1) | (bit_of(pair, t) as u8);
    }
    x
}

#[test]
fn datasheet_timing_values() {
    let t = PulseTiming::datasheet();
    assert_eq!(t.zero_high_ns, 350);
    assert_eq!(t.zero_low_ns, 800);
    assert_eq!(t.one_high_ns, 700);
    assert_eq!(t.one_low_ns, 600);
}

#[test]
fn empty_input_is_a_noop_signal() {
    let t = PulseTiming::datasheet();
    let signal = encode_pixels(&t, &Vec::new());
    assert!(signal.is_empty());
}

#[test]
fn single_led_frame_is_green_red_blue_msb_first() {
    let t = PulseTiming::datasheet();
    let color = Color { r: 0xAB, g: 0xCD, b: 0xEF };
    let signal = encode_pixels(&t, &vec![color]);
    assert_eq!(signal.len(), 24);
    assert_eq!(byte_of(&signal[0..8], &t), 0xCD);
    assert_eq!(byte_of(&signal[8..16], &t), 0xAB);
    assert_eq!(byte_of(&signal[16..24], &t), 0xEF);
}

#[test]
fn frames_are_back_to_back() {
    let t = PulseTiming::datasheet();
    let first = Color { r: 1, g: 2, b: 3 };
    let second = Color { r: 250, g: 128, b: 7 };
    let signal = encode_pixels(&t, &vec![first, second]);
    assert_eq!(signal.len(), 48);
    assert_eq!(byte_of(&signal[0..8], &t), 2);
    assert_eq!(byte_of(&signal[8..16], &t), 1);
    assert_eq!(byte_of(&signal[16..24], &t), 3);
    assert_eq!(byte_of(&signal[24..32], &t), 128);
    assert_eq!(byte_of(&signal[32..40], &t), 250);
    assert_eq!(byte_of(&signal[40..48], &t), 7);
}

#[test]
fn full_ring_signal_length() {
    let t = PulseTiming::datasheet();
    let colors: Vec<Color> = (0..12).map(|i| Color { r: i as u8, g: 0, b: 255 - i as u8 }).collect();
    let signal = encode_pixels(&t, &colors);
    assert_eq!(signal.len(), 12 * 24);
}

#[test]
fn all_zero_color_encodes_only_zero_bits() {
    let t = PulseTiming::datasheet();
    let signal = encode_pixels(&t, &vec![Color { r: 0, g: 0, b: 0 }]);
    for pair in &signal {
        assert!(!bit_of(pair, &t));
    }
}

#[test]
fn all_ones_color_encodes_only_one_bits() {
    let t = PulseTiming::datasheet();
    let signal = encode_pixels(&t, &vec![Color { r: 255, g: 255, b: 255 }]);
    for pair in &signal {
        assert!(bit_of(pair, &t));
    }
}

#[test]
fn ns_builds_the_duration() {
    assert_eq!(ns(350), core::time::Duration::from_nanos(350));
    assert_eq!(ns(0), core::time::Duration::from_nanos(0));
    assert_eq!(ns(1_000_000_000), core::time::Duration::from_nanos(1_000_000_000));
}
