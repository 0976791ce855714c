use icue_kb_games::compositor::{
    blend_channel, blink_on, color_for_urgency, compose, lerp_color, sequence_reveal, Animation,
    HighlightRequest, Paint,
};
use icue_kb_games::directory::{build_led_map, KeyMap};
use icue_kb_games::frame::{LedColor, Rgb};

const GREEN: Rgb = Rgb { r: 0, g: 255, b: 0 };
const YELLOW: Rgb = Rgb { r: 255, g: 255, b: 0 };
const ORANGE: Rgb = Rgb { r: 255, g: 128, b: 0 };
const RED: Rgb = Rgb { r: 255, g: 0, b: 0 };
const WHITE: Rgb = Rgb { r: 255, g: 255, b: 255 };

fn keys() -> KeyMap {
    let names: Vec<String> =
        ["Key: Q", "Key: W", "space", "Key: 1"].iter().map(|s| s.to_string()).collect();
    build_led_map(&names, &Vec::new())
}

fn still(key: char, color: Rgb, priority: u32) -> HighlightRequest {
    HighlightRequest { key, paint: Paint::Color(color), priority, animation: Animation::Static }
}

fn led(id: u32, c: Rgb) -> LedColor {
    LedColor { id, r: c.r, g: c.g, b: c.b }
}

#[test]
fn gradient_ends_are_pure() {
    assert_eq!(color_for_urgency(0), GREEN);
    assert_eq!(color_for_urgency(1000), RED);
    assert_eq!(color_for_urgency(1001), RED);
    assert_eq!(color_for_urgency(u32::MAX), RED);
}

#[test]
fn gradient_segments_meet() {
    assert_eq!(color_for_urgency(330), YELLOW);
    assert_eq!(color_for_urgency(660), ORANGE);
    assert_eq!(color_for_urgency(329), Rgb { r: 254, g: 255, b: 0 });
    assert_eq!(color_for_urgency(659), Rgb { r: 255, g: 128, b: 0 });
    assert_eq!(color_for_urgency(999), Rgb { r: 255, g: 0, b: 0 });
}

#[test]
fn gradient_values_inside_the_segments() {
    assert_eq!(color_for_urgency(165), Rgb { r: 127, g: 255, b: 0 });
    assert_eq!(color_for_urgency(500), Rgb { r: 255, g: 189, b: 0 });
    assert_eq!(color_for_urgency(830), Rgb { r: 255, g: 64, b: 0 });
    assert_eq!(color_for_urgency(1), Rgb { r: 0, g: 255, b: 0 });
    assert_eq!(color_for_urgency(2), Rgb { r: 1, g: 255, b: 0 });
}

#[test]
fn gradient_never_turns_back() {
    let mut last = color_for_urgency(0);
    for u in 1..=1000u32 {
        let c = color_for_urgency(u);
        assert!(c.r >= last.r && c.r - last.r <= 1, "red at {u}");
        assert!(c.g <= last.g && last.g - c.g <= 1, "green at {u}");
        assert_eq!(c.b, 0);
        last = c;
    }
}

#[test]
fn blend_rounds_down() {
    assert_eq!(blend_channel(0, 255, 1, 2), 127);
    assert_eq!(blend_channel(255, 0, 1, 2), 127);
    assert_eq!(blend_channel(255, 128, 1, 3), 212);
    assert_eq!(blend_channel(10, 10, 7, 9), 10);
    assert_eq!(blend_channel(3, 200, 0, 5), 3);
    assert_eq!(blend_channel(3, 200, 5, 5), 200);
    assert_eq!(blend_channel(0, 255, u32::MAX, u32::MAX), 255);
    assert_eq!(lerp_color(GREEN, RED, 1, 4), Rgb { r: 63, g: 191, b: 0 });
}

#[test]
fn blink_toggles_every_period() {
    assert!(blink_on(0, 700));
    assert!(blink_on(699, 700));
    assert!(!blink_on(700, 700));
    assert!(!blink_on(1399, 700));
    assert!(blink_on(1400, 700));
    assert!(blink_on(u64::MAX, u64::MAX - 1) == false);
}

#[test]
fn sequence_shows_each_item_then_pauses() {
    let at = |ms: u64| sequence_reveal(3, 220, 120, 2000, ms);
    assert_eq!(at(0), Some(0));
    assert_eq!(at(119), Some(0));
    assert_eq!(at(120), None);
    assert_eq!(at(219), None);
    assert_eq!(at(220), Some(1));
    assert_eq!(at(440), Some(2));
    assert_eq!(at(559), Some(2));
    assert_eq!(at(560), None);
    assert_eq!(at(660), None);
    assert_eq!(at(2659), None);
    assert_eq!(at(2660), Some(0));
    assert_eq!(at(2660 + 225), Some(1));
}

#[test]
fn sequence_without_pause_wraps_at_once() {
    assert_eq!(sequence_reveal(2, 10, 10, 0, 19), Some(1));
    assert_eq!(sequence_reveal(2, 10, 10, 0, 20), Some(0));
    assert_eq!(sequence_reveal(1, 5, 0, 0, 3), None);
    assert_eq!(sequence_reveal(u64::MAX, u64::MAX, u64::MAX, u64::MAX, u64::MAX), Some(1));
}

#[test]
fn higher_priority_wins_in_either_order() {
    let keys = keys();
    let high = still('q', GREEN, 3);
    let low = still('q', RED, 1);
    assert_eq!(compose(&[high, low], 0, &keys), vec![led(0, GREEN)]);
    assert_eq!(compose(&[low, high], 0, &keys), vec![led(0, GREEN)]);
}

#[test]
fn equal_priority_is_decided_by_the_later_request() {
    let keys = keys();
    let a = still('w', GREEN, 2);
    let b = still('W', RED, 2);
    assert_eq!(compose(&[a, b], 0, &keys), vec![led(1, RED)]);
    assert_eq!(compose(&[b, a], 0, &keys), vec![led(1, GREEN)]);
}

#[test]
fn keys_without_an_led_are_dropped() {
    let keys = keys();
    let frame = compose(&[still('x', RED, 9), still(' ', WHITE, 0), still('?', RED, 9)], 0, &keys);
    assert_eq!(frame, vec![led(2, WHITE)]);
    assert!(compose(&[still('x', RED, 9)], 0, &keys).is_empty());
    assert!(compose(&[], 0, &keys).is_empty());
    assert!(compose(&[still('q', RED, 9)], 0, &KeyMap::new()).is_empty());
}

#[test]
fn frame_lists_each_led_once_in_order_of_first_mention() {
    let keys = keys();
    let frame = compose(
        &[
            still('1', RED, 0),
            still('q', GREEN, 0),
            still('1', WHITE, 5),
            still('w', YELLOW, 0),
            still('Q', ORANGE, 0),
            still('1', GREEN, 4),
        ],
        0,
        &keys,
    );
    assert_eq!(frame, vec![led(3, WHITE), led(0, ORANGE), led(1, YELLOW)]);
}

#[test]
fn urgency_is_painted_through_the_gradient() {
    let keys = keys();
    let request = HighlightRequest {
        key: 'q',
        paint: Paint::Urgency(500),
        priority: 500,
        animation: Animation::Static,
    };
    assert_eq!(compose(&[request], 0, &keys), vec![led(0, Rgb { r: 255, g: 189, b: 0 })]);
    assert_eq!(Paint::Urgency(0).to_color(), GREEN);
    assert_eq!(Paint::Color(WHITE).to_color(), WHITE);
}

#[test]
fn blinking_request_takes_no_part_while_dark() {
    let keys = keys();
    let blink = HighlightRequest {
        key: '1',
        paint: Paint::Color(WHITE),
        priority: 9,
        animation: Animation::Blink { period_ms: 700 },
    };
    let under = still('1', RED, 1);
    assert_eq!(compose(&[under, blink], 100, &keys), vec![led(3, WHITE)]);
    assert_eq!(compose(&[under, blink], 800, &keys), vec![led(3, RED)]);
    assert!(compose(&[blink], 800, &keys).is_empty());
}

#[test]
fn sequence_request_shows_only_in_its_own_window() {
    let keys = keys();
    let item = |key: char, position: u64| HighlightRequest {
        key,
        paint: Paint::Color(Rgb { r: 0, g: 0, b: 0 }),
        priority: 9,
        animation: Animation::SequenceReveal {
            position,
            step_count: 2,
            step_ms: 220,
            on_ms: 120,
            pause_ms: 2000,
        },
    };
    let requests = [still('q', WHITE, 0), still('w', WHITE, 0), item('q', 0), item('w', 1)];
    let black = Rgb { r: 0, g: 0, b: 0 };
    assert_eq!(compose(&requests, 50, &keys), vec![led(0, black), led(1, WHITE)]);
    assert_eq!(compose(&requests, 150, &keys), vec![led(0, WHITE), led(1, WHITE)]);
    assert_eq!(compose(&requests, 230, &keys), vec![led(0, WHITE), led(1, black)]);
    assert_eq!(compose(&requests, 1000, &keys), vec![led(0, WHITE), led(1, WHITE)]);
}

#[test]
fn animation_validity_is_checked() {
    assert!(Animation::Static.is_valid());
    assert!(Animation::Blink { period_ms: 1 }.is_valid());
    assert!(!Animation::Blink { period_ms: 0 }.is_valid());
    let seq = |step_count, step_ms| Animation::SequenceReveal {
        position: 0,
        step_count,
        step_ms,
        on_ms: 1,
        pause_ms: 0,
    };
    assert!(seq(1, 1).is_valid());
    assert!(!seq(0, 1).is_valid());
    assert!(!seq(1, 0).is_valid());
    assert!(Animation::Static.is_shown(12345));
    assert!(!seq(3, 10).is_shown(15));
    assert!(seq(3, 10).is_shown(30));
}
