use icue_kb_games::controller::{ControllerDescriptor, DeviceType};
use icue_kb_games::frame::{LedColor, Rgb};
use icue_kb_games::games::typing::{
    ansi_color, count_missed, count_typed, next_spawn_time, render_row, word_row, Cell, build_leds, collect_requests, expire_words, field_size, find_typed, handle_key,
    is_level_over, lives_after_misses, matches_prefix, new_word, set_finish_leds, spawn_due,
    spawn_word, starts_with, word_typed, word_urgency, ActiveWord, Progress, Stats, Word,
};
use icue_kb_games::games::Key;
use icue_kb_games::session::Keyboard;

fn chars(s: &str) -> Vec<char> {
    s.chars().collect()
}

fn keyboard() -> Keyboard {
    let mut names: Vec<String> = ('a'..='z').map(|c| format!("Key: {}", c)).collect();
    names.extend((0..=9).map(|d| format!("Key: {}", d)));
    names.push("Key: Space".to_string());
    Keyboard::open(ControllerDescriptor {
        index: 2,
        device_type: DeviceType::Keyboard,
        display_name: "Board".to_string(),
        vendor: String::new(),
        led_names: names,
        led_alt_names: Vec::new(),
    })
    .unwrap()
}

fn color_at(frame: &[LedColor], kb: &Keyboard, key: char) -> Option<Rgb> {
    let id = kb.led_for_char(key).unwrap();
    frame.iter().find(|l| l.id == id).map(|l| Rgb { r: l.r, g: l.g, b: l.b })
}

fn word(text: &str, spawned_at_ms: u64, ttl_ms: u64) -> Word {
    new_word(text, 0, spawned_at_ms, ttl_ms, false)
}

fn stats() -> Stats {
    Stats { words_typed: 0, words_missed: 0, keystrokes: 0, backspaces: 0 }
}

#[test]
fn urgency_is_age_over_time_to_live() {
    assert_eq!(word_urgency(0, 1000), 0);
    assert_eq!(word_urgency(1, 1000), 1);
    assert_eq!(word_urgency(500, 1000), 500);
    assert_eq!(word_urgency(999, 1000), 999);
    assert_eq!(word_urgency(1000, 1000), 1000);
    assert_eq!(word_urgency(5000, 1000), 1000);
    assert_eq!(word_urgency(0, 0), 1000);
    assert_eq!(word_urgency(1, 3), 333);
    assert_eq!(word_urgency(u64::MAX - 1, u64::MAX), 999);
}

#[test]
fn letters_show_the_urgency_of_their_word() {
    let kb = keyboard();
    let words = vec![
        ActiveWord { text: chars("ab"), urgency: 0 },
        ActiveWord { text: chars("cd"), urgency: 1000 },
        ActiveWord { text: chars("ef"), urgency: 500 },
    ];
    let frame = build_leds(&kb, &words, 5);
    assert_eq!(color_at(&frame, &kb, 'a'), Some(Rgb { r: 0, g: 255, b: 0 }));
    assert_eq!(color_at(&frame, &kb, 'd'), Some(Rgb { r: 255, g: 0, b: 0 }));
    assert_eq!(color_at(&frame, &kb, 'e'), Some(Rgb { r: 255, g: 189, b: 0 }));
    assert_eq!(color_at(&frame, &kb, 'z'), None);
}

#[test]
fn letter_shared_by_two_words_shows_the_more_urgent() {
    let kb = keyboard();
    let calm = ActiveWord { text: chars("tea"), urgency: 100 };
    let hot = ActiveWord { text: chars("eat"), urgency: 900 };
    let expected = Some(Rgb { r: 255, g: 37, b: 0 });
    for words in [vec![calm.clone(), hot.clone()], vec![hot, calm]] {
        let frame = build_leds(&kb, &words, 5);
        assert_eq!(color_at(&frame, &kb, 't'), expected);
        assert_eq!(color_at(&frame, &kb, 'e'), expected);
        assert_eq!(color_at(&frame, &kb, 'a'), expected);
    }
}

#[test]
fn lives_are_shown_on_the_keys_one_to_five() {
    let kb = keyboard();
    let frame = build_leds(&kb, &vec![], 3);
    let red = Some(Rgb { r: 255, g: 0, b: 0 });
    let off = Some(Rgb { r: 0, g: 0, b: 0 });
    assert_eq!(color_at(&frame, &kb, '1'), red);
    assert_eq!(color_at(&frame, &kb, '3'), red);
    assert_eq!(color_at(&frame, &kb, '4'), off);
    assert_eq!(color_at(&frame, &kb, '5'), off);
    assert_eq!(color_at(&frame, &kb, '6'), None);
    assert_eq!(color_at(&frame, &kb, '0'), None);
    assert_eq!(frame.len(), 5);
    let requests = collect_requests(&vec![ActiveWord { text: chars("hi"), urgency: 2000 }], 0);
    assert_eq!(requests.len(), 7);
    assert_eq!(requests[0].priority, 1000);
    assert_eq!(requests[2].key, '1');
    assert_eq!(requests[6].key, '5');
    assert_eq!(requests[6].priority, 2000);
}

#[test]
fn end_of_level_shows_lives_and_space() {
    let mut kb = keyboard();
    let space = kb.led_for_char(' ').unwrap() as usize;
    let one = kb.led_for_char('1').unwrap() as usize;
    let bytes = set_finish_leds(&mut kb, 2);
    let colors: Vec<u32> = bytes[22..]
        .chunks(4)
        .map(|c| u32::from_le_bytes([c[0], c[1], c[2], c[3]]))
        .collect();
    assert_eq!(colors.len(), 37);
    for (i, c) in colors.iter().enumerate() {
        let expected = if i == space {
            0x0000_D7FF
        } else if i == one || i == one + 1 {
            0x0000_00FF
        } else {
            0
        };
        assert_eq!(*c, expected, "led {i}");
    }
}

#[test]
fn typed_text_matches_the_start_of_a_word() {
    let words = vec![
        ActiveWord { text: chars("alpha"), urgency: 0 },
        ActiveWord { text: chars("beta"), urgency: 0 },
    ];
    assert!(matches_prefix(&chars("al"), &words));
    assert!(matches_prefix(&chars("beta"), &words));
    assert!(matches_prefix(&chars(""), &words));
    assert!(!matches_prefix(&chars("betas"), &words));
    assert!(!matches_prefix(&chars("lp"), &words));
    assert!(!matches_prefix(&chars(""), &vec![]));
    assert!(starts_with(&chars("alpha"), &chars("alp")));
    assert!(!starts_with(&chars("alp"), &chars("alpha")));
}

#[test]
fn field_is_the_terminal_less_its_frame() {
    assert_eq!(field_size(80, 24), (78, 16));
    assert_eq!(field_size(120, 50), (118, 22));
    assert_eq!(field_size(80, 10), (78, 8));
    assert_eq!(field_size(80, 16), (78, 8));
    assert_eq!(field_size(80, 17), (78, 9));
    assert_eq!(field_size(80, 30), (78, 22));
    assert_eq!(field_size(12, 24), (10, 16));
    assert_eq!(field_size(11, 24), (10, 16));
    assert_eq!(field_size(10, 24), (10, 16));
    assert_eq!(field_size(9, 24), (9, 16));
    assert_eq!(field_size(1, 0), (1, 8));
    assert_eq!(field_size(0, 0), (10, 8));
    assert_eq!(field_size(u16::MAX, u16::MAX), (65533, 22));
}

#[test]
fn level_ends_with_its_time_or_the_last_life() {
    assert!(!is_level_over(0, 5));
    assert!(!is_level_over(59_999, 1));
    assert!(is_level_over(60_000, 5));
    assert!(is_level_over(10, 0));
}

#[test]
fn keys_edit_what_was_typed() {
    let mut buffer = Vec::new();
    let mut s = stats();
    for c in "Ab1c".chars() {
        assert!(!handle_key(&mut buffer, &mut s, Key::Char(c)));
    }
    assert_eq!(buffer, chars("abc"));
    assert_eq!(s.keystrokes, 3);
    assert!(!handle_key(&mut buffer, &mut s, Key::Backspace));
    assert_eq!(buffer, chars("ab"));
    assert_eq!(s.backspaces, 1);
    assert!(!handle_key(&mut buffer, &mut s, Key::Left));
    assert!(!handle_key(&mut buffer, &mut s, Key::Other));
    assert_eq!(buffer, chars("ab"));
    assert!(!handle_key(&mut buffer, &mut s, Key::Enter));
    assert!(buffer.is_empty());
    assert!(!handle_key(&mut buffer, &mut s, Key::Backspace));
    assert!(buffer.is_empty());
    assert_eq!(s, Stats { words_typed: 0, words_missed: 0, keystrokes: 3, backspaces: 2 });
    assert!(handle_key(&mut buffer, &mut s, Key::Escape));
    assert!(handle_key(&mut buffer, &mut s, Key::Interrupt));
}

#[test]
fn counters_stop_at_their_highest() {
    let mut buffer = Vec::new();
    let mut s = Stats { words_typed: 0, words_missed: 0, keystrokes: u32::MAX, backspaces: u32::MAX };
    handle_key(&mut buffer, &mut s, Key::Char('a'));
    handle_key(&mut buffer, &mut s, Key::Backspace);
    assert_eq!(s.keystrokes, u32::MAX);
    assert_eq!(s.backspaces, u32::MAX);
}

#[test]
fn words_whose_time_is_up_are_taken_away_in_order() {
    let mut words = vec![
        word("one", 0, 1000),
        word("two", 500, 400),
        word("three", 900, 200),
        word("four", 0, 900),
        word("five", 2000, 10),
    ];
    assert_eq!(expire_words(&mut words, 899), 0);
    assert_eq!(words.len(), 5);
    assert_eq!(expire_words(&mut words, 900), 2);
    let left: Vec<String> = words.iter().map(|w| w.text.iter().collect()).collect();
    assert_eq!(left, vec!["one", "three", "five"]);
    assert_eq!(expire_words(&mut words, 1100), 2);
    assert_eq!(words, vec![word("five", 2000, 10)]);
    assert_eq!(expire_words(&mut words, 2010), 1);
    assert!(words.is_empty());
    assert_eq!(expire_words(&mut words, 5000), 0);
}

#[test]
fn each_missed_word_costs_a_life() {
    assert_eq!(lives_after_misses(5, 0), 5);
    assert_eq!(lives_after_misses(5, 2), 3);
    assert_eq!(lives_after_misses(2, 2), 0);
    assert_eq!(lives_after_misses(2, 7), 0);
    assert_eq!(lives_after_misses(0, usize::MAX), 0);
    assert_eq!(lives_after_misses(255, 300), 0);
}

#[test]
fn typed_word_is_found_whole() {
    let words = vec![word("alpha", 0, 1), word("beta", 0, 1), word("alpha", 0, 1)];
    assert_eq!(find_typed(&words, &chars("alpha")), Some(0));
    assert_eq!(find_typed(&words, &chars("beta")), Some(1));
    assert_eq!(find_typed(&words, &chars("bet")), None);
    assert_eq!(find_typed(&words, &chars("")), None);
    assert_eq!(find_typed(&vec![word("", 0, 1)], &chars("")), None);
}

#[test]
fn tenth_word_makes_a_bonus_word_due() {
    let mut p = Progress { lives: 3, words_since_bonus: 0, bonus_ready: false };
    for i in 1..=9 {
        p = word_typed(p, false);
        assert_eq!(p, Progress { lives: 3, words_since_bonus: i, bonus_ready: false });
    }
    p = word_typed(p, false);
    assert_eq!(p, Progress { lives: 3, words_since_bonus: 0, bonus_ready: true });
    p = word_typed(p, true);
    assert_eq!(p, Progress { lives: 4, words_since_bonus: 0, bonus_ready: true });
    p = word_typed(p, true);
    p = word_typed(p, true);
    assert_eq!(p.lives, 5);
    let odd = Progress { lives: 9, words_since_bonus: u32::MAX, bonus_ready: false };
    assert_eq!(word_typed(odd, true).lives, 5);
    assert_eq!(word_typed(odd, false), Progress { lives: 9, words_since_bonus: 0, bonus_ready: true });
}

#[test]
fn word_is_spawned_on_an_empty_screen_or_when_due() {
    assert!(spawn_due(0, 0, 1000));
    assert!(!spawn_due(1, 999, 1000));
    assert!(spawn_due(1, 1000, 1000));
    assert!(spawn_due(4, 1000, 1000));
    assert!(!spawn_due(5, 5000, 1000));
}

#[test]
fn bonus_word_is_gold() {
    let w = new_word("comet", 7, 100, 3000, true);
    assert_eq!(w.text, chars("comet"));
    assert_eq!((w.column, w.spawned_at_ms, w.ttl_ms, w.is_bonus), (7, 100, 3000, true));
    assert_eq!(w.color, Some(Rgb { r: 255, g: 215, b: 0 }));
    assert_eq!(new_word("comet", 7, 100, 3000, false).color, None);
}

#[test]
fn spawned_word_is_from_its_list_and_fits_the_field() {
    let words = ["alpha", "be", "gamma"];
    let bonus = ["constellation", "xylophone"];
    let mut rng = rand::thread_rng();
    let mut columns = std::collections::HashSet::new();
    for _ in 0..300 {
        let w = spawn_word(&mut rng, 5, 9, 20, false, &words, &bonus);
        let text: String = w.text.iter().collect();
        assert!(words.contains(&text.as_str()));
        assert!(w.column + text.len() <= 20);
        assert_eq!((w.spawned_at_ms, w.ttl_ms, w.is_bonus, w.color), (5, 9, false, None));
        columns.insert(w.column);
        let b = spawn_word(&mut rng, 5, 9, 20, true, &words, &bonus);
        let text: String = b.text.iter().collect();
        assert!(bonus.contains(&text.as_str()));
        assert!(b.column + text.len() <= 20);
        assert!(b.is_bonus);
    }
    assert!(columns.len() > 1);
}

#[test]
fn spawned_word_has_a_fallback_and_a_column_in_any_field() {
    let mut rng = rand::thread_rng();
    let w = spawn_word(&mut rng, 0, 1, 3, false, &[], &[]);
    assert_eq!(w.text, chars("alpha"));
    assert_eq!(w.column, 0);
    let b = spawn_word(&mut rng, 0, 1, 13, true, &[], &[]);
    assert_eq!(b.text, chars("constellation"));
    assert_eq!(b.column, 0);
    let c = spawn_word(&mut rng, 0, 1, 6, false, &["alpha"], &[]);
    assert!(c.column <= 1);
}

fn text(chars: Vec<char>) -> String {
    chars.into_iter().collect()
}

#[test]
fn colour_sequence_names_the_three_channels() {
    assert_eq!(text(ansi_color(Rgb { r: 255, g: 215, b: 0 })), "\x1b[38;2;255;215;0m");
    assert_eq!(text(ansi_color(Rgb { r: 0, g: 9, b: 10 })), "\x1b[38;2;0;9;10m");
    assert_eq!(text(ansi_color(Rgb { r: 99, g: 100, b: 101 })), "\x1b[38;2;99;100;101m");
}

#[test]
fn row_changes_colour_only_where_the_cells_do() {
    let gold = Some(Rgb { r: 255, g: 215, b: 0 });
    let green = Some(Rgb { r: 0, g: 255, b: 0 });
    let cell = |ch, color| Cell { ch, color };
    assert_eq!(text(render_row(&[])), "");
    assert_eq!(text(render_row(&[cell(' ', None), cell('a', None)])), " a");
    assert_eq!(
        text(render_row(&[cell('a', green), cell('b', green), cell('c', gold), cell(' ', None)])),
        "\x1b[38;2;0;255;0mab\x1b[38;2;255;215;0mc\x1b[0m "
    );
    assert_eq!(
        text(render_row(&[cell(' ', None), cell('x', gold)])),
        " \x1b[38;2;255;215;0mx\x1b[0m"
    );
}

#[test]
fn next_spawn_moves_on_when_a_word_was_due() {
    assert_eq!(next_spawn_time(0, 10, 1000, 1400), 1410);
    assert_eq!(next_spawn_time(2, 10, 1000, 1400), 1000);
    assert_eq!(next_spawn_time(2, 1000, 1000, 1400), 2400);
    assert_eq!(next_spawn_time(5, 1500, 1000, 1400), 2900);
    assert_eq!(next_spawn_time(0, u64::MAX, 0, 5), u64::MAX);
}

#[test]
fn words_are_counted() {
    let s = stats();
    assert_eq!(count_missed(s, 0), s);
    assert_eq!(count_missed(s, 3).words_missed, 3);
    assert_eq!(count_missed(count_missed(s, 3), usize::MAX).words_missed, u32::MAX);
    assert_eq!(count_typed(s).words_typed, 1);
    assert_eq!(count_typed(Stats { words_typed: u32::MAX, ..s }).words_typed, u32::MAX);
    assert_eq!(count_typed(s).keystrokes, 0);
}

#[test]
fn word_falls_with_its_urgency() {
    assert_eq!(word_row(16, 0), 0);
    assert_eq!(word_row(16, 500), 7);
    assert_eq!(word_row(16, 999), 14);
    assert_eq!(word_row(16, 1000), 15);
    assert_eq!(word_row(16, 4000), 15);
    assert_eq!(word_row(1, 777), 0);
}
