use ledring::PulsePair;
use ledring::PulseTiming;
use ledring::color::Color;
use ledring::coordinator::LedCoordinator;
use ledring::encode_pixels;

#[test]
fn chase_yields_36_full_ring_signals() {
    let mut coordinator = LedCoordinator::new(PulseTiming::datasheet());
    let colors = vec![Color { r: 1, g: 2, b: 3 }, Color { r: 4, g: 5, b: 6 }];
    let signals = coordinator.render_chase(&colors);
    assert_eq!(signals.len(), 36);
    for signal in &signals {
        assert_eq!(signal.len(), 12 * 24);
    }
}

#[test]
fn chase_signals_match_the_encoder_frame_by_frame() {
    let timing = PulseTiming::datasheet();
    let mut coordinator = LedCoordinator::new(timing);
    let colors = vec![Color { r: 200, g: 100, b: 50 }];
    let signals = coordinator.render_single_spin(Color { r: 200, g: 100, b: 50 });
    // frame 0 lights position 0 only
    let mut frame0 = vec![Color { r: 0, g: 0, b: 0 }; 12];
    frame0[0] = colors[0];
    assert_eq!(signals[0], encode_pixels(&timing, &frame0));
    // frame 7 lights position 7 only
    let mut frame7 = vec![Color { r: 0, g: 0, b: 0 }; 12];
    frame7[7] = colors[0];
    assert_eq!(signals[7], encode_pixels(&timing, &frame7));
}

#[test]
fn spin_encodes_a_dark_ring_between_lit_positions() {
    let timing = PulseTiming::datasheet();
    let mut coordinator = LedCoordinator::new(timing);
    let signals = coordinator.render_single_spin(Color { r: 255, g: 255, b: 255 });
    assert_eq!(signals.len(), 36);
    let zero: PulsePair = encode_pixels(&timing, &vec![Color { r: 0, g: 0, b: 0 }])[0];
    // in frame 0, every pulse of LEDs 1..12 encodes a zero bit
    for pair in &signals[0][24..] {
        assert_eq!(*pair, zero);
    }
}
