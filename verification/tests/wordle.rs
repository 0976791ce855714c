use icue_kb_games::compositor::{compose, Animation, HighlightRequest, Paint};
use icue_kb_games::controller::{ControllerDescriptor, DeviceType};
use icue_kb_games::frame::{LedColor, Rgb};
use icue_kb_games::text::{push_decimal, push_text};
use icue_kb_games::games::wordle::{
    render_attempt, render_current_guess, attempt_key_char, attempt_status_color, blink_sequence_char, build_keyboard_leds,
    choose_secret, collect_requests, evaluate_guess, is_game_over, priority, set_finish_leds,
    Attempt, Game, LetterState, Notice,
};
use icue_kb_games::games::{char_is_letter, same_text, Key};
use icue_kb_games::session::Keyboard;

const GREEN: Rgb = Rgb { r: 0, g: 255, b: 0 };
const GOLD: Rgb = Rgb { r: 255, g: 215, b: 0 };
const RED: Rgb = Rgb { r: 255, g: 0, b: 0 };
const AMBER: Rgb = Rgb { r: 255, g: 140, b: 0 };
const WHITE: Rgb = Rgb { r: 255, g: 255, b: 255 };
const BLACK: Rgb = Rgb { r: 0, g: 0, b: 0 };
const BLUE: Rgb = Rgb { r: 80, g: 140, b: 255 };

use LetterState::{Absent, Correct, Present};

fn chars(s: &str) -> Vec<char> {
    s.chars().collect()
}

fn judge(secret: &str, guess: &str) -> Vec<LetterState> {
    evaluate_guess(&chars(secret), &chars(guess))
}

fn attempt(secret: &str, guess: &str) -> Attempt {
    Attempt { guess: chars(guess), states: judge(secret, guess), is_win: secret == guess }
}

fn keyboard() -> Keyboard {
    let mut names: Vec<String> = ('a'..='z').map(|c| format!("Key: {}", c)).collect();
    names.extend((1..=6).map(|d| format!("Key: {}", d)));
    names.push("Key: Space".to_string());
    Keyboard::open(ControllerDescriptor {
        index: 0,
        device_type: DeviceType::Keyboard,
        display_name: "Board".to_string(),
        vendor: String::new(),
        led_names: names,
        led_alt_names: Vec::new(),
    })
    .unwrap()
}

fn color_at(frame: &[LedColor], kb: &Keyboard, key: char) -> Option<Rgb> {
    let id = kb.led_for_char(key).unwrap();
    frame.iter().find(|l| l.id == id).map(|l| Rgb { r: l.r, g: l.g, b: l.b })
}

/// The judgement as the two-pass count of remaining letters gives it.
fn judge_by_counting(secret: &str, guess: &str) -> Vec<LetterState> {
    let s = chars(secret);
    let g = chars(guess);
    let mut states = vec![Absent; g.len()];
    let mut remaining = std::collections::HashMap::new();
    for (i, c) in s.iter().enumerate() {
        if i < g.len() && g[i] == *c {
            states[i] = Correct;
        } else {
            *remaining.entry(*c).or_insert(0usize) += 1;
        }
    }
    for i in 0..g.len() {
        if states[i] == Correct {
            continue;
        }
        if let Some(count) = remaining.get_mut(&g[i]) {
            if *count > 0 {
                states[i] = Present;
                *count -= 1;
            }
        }
    }
    states
}

#[test]
fn guess_is_judged_letter_by_letter() {
    assert_eq!(judge("crane", "crane"), vec![Correct; 5]);
    assert_eq!(judge("crane", "slots"), vec![Absent; 5]);
    assert_eq!(judge("crane", "nacre"), vec![Present, Present, Present, Present, Correct]);
    assert_eq!(judge("abcd", "bxxa"), vec![Present, Absent, Absent, Present]);
}

#[test]
fn repeated_letters_are_present_only_as_often_as_the_secret_has_them() {
    assert_eq!(judge("apple", "paper"), vec![Present, Present, Correct, Present, Absent]);
    assert_eq!(judge("abide", "eerie"), vec![Absent, Absent, Absent, Present, Correct]);
    assert_eq!(judge("sassy", "essay"), vec![Absent, Present, Correct, Present, Correct]);
    assert_eq!(judge("aabb", "bbba"), vec![Present, Absent, Correct, Present]);
}

#[test]
fn guess_and_secret_may_differ_in_length() {
    assert_eq!(judge("planet", "plan"), vec![Correct; 4]);
    assert_eq!(judge("plan", "planet"), vec![Correct, Correct, Correct, Correct, Absent, Absent]);
    assert_eq!(judge("abcdef", "fab"), vec![Present, Present, Present]);
    assert_eq!(judge("", "abc"), vec![Absent; 3]);
    assert_eq!(judge("abc", ""), vec![]);
}

#[test]
fn judgement_agrees_with_counting_what_is_left_of_the_secret() {
    let words = ["", "a", "ab", "ba", "aab", "aba", "abb", "bab", "bba", "abab", "baab", "aabb",
        "abca", "cabac", "bbbbb", "aaaaa", "abcab", "cacab"];
    for secret in words {
        for guess in words {
            assert_eq!(judge(secret, guess), judge_by_counting(secret, guess), "{secret} {guess}");
        }
    }
}

#[test]
fn game_is_over_after_a_win_or_six_attempts() {
    assert!(!is_game_over(&vec![]));
    assert!(is_game_over(&vec![attempt("crane", "crane")]));
    assert!(!is_game_over(&vec![attempt("crane", "slots")]));
    assert!(!is_game_over(&vec![attempt("crane", "crane"), attempt("crane", "slots")]));
    assert!(!is_game_over(&vec![attempt("crane", "slots"); 5]));
    assert!(is_game_over(&vec![attempt("crane", "slots"); 6]));
}

#[test]
fn attempts_have_the_keys_one_to_six() {
    let keys: Vec<char> = (0..8).map(attempt_key_char).collect();
    assert_eq!(keys, vec!['1', '2', '3', '4', '5', '6', '0', '0']);
}

#[test]
fn green_ranks_above_gold_above_red() {
    assert_eq!(priority(GREEN), 3);
    assert_eq!(priority(GOLD), 2);
    assert_eq!(priority(RED), 1);
    assert_eq!(priority(WHITE), 0);
    assert_eq!(priority(BLACK), 0);
    assert_eq!(priority(AMBER), 0);
    assert_eq!(priority(Rgb { r: 0, g: 255, b: 1 }), 0);
}

#[test]
fn status_of_a_win_is_green() {
    for t in [0u64, 700, 2099, 123456] {
        assert_eq!(attempt_status_color(&attempt("crane", "crane"), t), GREEN);
    }
}

#[test]
fn status_without_a_correct_letter_is_amber_or_red() {
    assert_eq!(attempt_status_color(&attempt("crane", "slots"), 5), RED);
    assert_eq!(attempt_status_color(&attempt("crane", "nylon"), 5), AMBER);
    assert_eq!(attempt_status_color(&Attempt { guess: vec![], states: vec![], is_win: false }, 5), RED);
}

#[test]
fn status_shows_the_shares_of_correct_and_present_letters_as_time() {
    let a = Attempt {
        guess: chars("abcdef"),
        states: vec![Correct, Correct, Present, Present, Present, Absent],
        is_win: false,
    };
    assert_eq!(attempt_status_color(&a, 0), GREEN);
    assert_eq!(attempt_status_color(&a, 699), GREEN);
    assert_eq!(attempt_status_color(&a, 700), GOLD);
    assert_eq!(attempt_status_color(&a, 1749), GOLD);
    assert_eq!(attempt_status_color(&a, 1750), BLACK);
    assert_eq!(attempt_status_color(&a, 2099), BLACK);
    assert_eq!(attempt_status_color(&a, 2100), GREEN);
    let b = Attempt { guess: chars("abc"), states: vec![Correct, Absent, Absent], is_win: false };
    assert_eq!(attempt_status_color(&b, 699), GREEN);
    assert_eq!(attempt_status_color(&b, 700), BLACK);
}

#[test]
fn word_is_spelled_out_letter_by_letter() {
    let word = chars("cab");
    assert_eq!(blink_sequence_char(&word, 0), Some('c'));
    assert_eq!(blink_sequence_char(&word, 119), Some('c'));
    assert_eq!(blink_sequence_char(&word, 120), None);
    assert_eq!(blink_sequence_char(&word, 220), Some('a'));
    assert_eq!(blink_sequence_char(&word, 440), Some('b'));
    assert_eq!(blink_sequence_char(&word, 660), None);
    assert_eq!(blink_sequence_char(&word, 2659), None);
    assert_eq!(blink_sequence_char(&word, 2660), Some('c'));
    assert_eq!(blink_sequence_char(&vec![], 0), None);
}

#[test]
fn fresh_game_shows_white_letters_and_a_blinking_one() {
    let kb = keyboard();
    let frame = build_keyboard_leds(&kb, &vec![], &vec![], 0, 150);
    for c in 'a'..='z' {
        assert_eq!(color_at(&frame, &kb, c), Some(WHITE));
    }
    assert_eq!(color_at(&frame, &kb, '1'), Some(WHITE));
    assert_eq!(color_at(&frame, &kb, '2'), Some(BLACK));
    assert_eq!(color_at(&frame, &kb, ' '), None);
    let dark = build_keyboard_leds(&kb, &vec![], &vec![], 0, 800);
    assert_eq!(color_at(&dark, &kb, '1'), Some(BLACK));
}

#[test]
fn last_attempt_and_typed_guess_colour_the_letters() {
    let kb = keyboard();
    let attempts = vec![attempt("crane", "nacho")];
    let frame = build_keyboard_leds(&kb, &attempts, &chars("zo"), 1, 1000);
    assert_eq!(color_at(&frame, &kb, 'n'), Some(GOLD));
    assert_eq!(color_at(&frame, &kb, 'a'), Some(GOLD));
    assert_eq!(color_at(&frame, &kb, 'c'), Some(GOLD));
    assert_eq!(color_at(&frame, &kb, 'h'), Some(RED));
    assert_eq!(color_at(&frame, &kb, 'o'), Some(BLUE));
    assert_eq!(color_at(&frame, &kb, 'z'), Some(BLUE));
    assert_eq!(color_at(&frame, &kb, 'q'), Some(WHITE));
    assert_eq!(color_at(&frame, &kb, '1'), Some(AMBER));
    assert_eq!(color_at(&frame, &kb, '2'), Some(BLACK));
}

#[test]
fn best_judgement_of_a_repeated_letter_is_shown() {
    let kb = keyboard();
    let attempts = vec![attempt("sassy", "essay")];
    let frame = build_keyboard_leds(&kb, &attempts, &vec![], 1, 1000);
    assert_eq!(color_at(&frame, &kb, 's'), Some(GREEN));
    assert_eq!(color_at(&frame, &kb, 'e'), Some(RED));
    assert_eq!(color_at(&frame, &kb, 'a'), Some(GOLD));
}

#[test]
fn looking_at_an_attempt_shows_only_its_letters() {
    let kb = keyboard();
    let attempts = vec![attempt("crane", "slots"), attempt("crane", "crank")];
    let frame = build_keyboard_leds(&kb, &attempts, &chars("zz"), 0, 1000);
    assert_eq!(color_at(&frame, &kb, 's'), Some(RED));
    assert_eq!(color_at(&frame, &kb, 'c'), None);
    assert_eq!(color_at(&frame, &kb, 'z'), None);
    assert_eq!(color_at(&frame, &kb, '1'), Some(WHITE));
    assert_eq!(color_at(&frame, &kb, '2'), Some(GREEN));
    assert_eq!(color_at(&frame, &kb, '3'), Some(BLACK));
}

#[test]
fn spelled_letter_goes_dark_in_its_window() {
    let kb = keyboard();
    let frame = build_keyboard_leds(&kb, &vec![], &chars("hi"), 0, 50);
    assert_eq!(color_at(&frame, &kb, 'h'), Some(BLACK));
    assert_eq!(color_at(&frame, &kb, 'i'), Some(BLUE));
    let frame = build_keyboard_leds(&kb, &vec![], &chars("hi"), 0, 250);
    assert_eq!(color_at(&frame, &kb, 'h'), Some(BLUE));
    assert_eq!(color_at(&frame, &kb, 'i'), Some(BLACK));
    let frame = build_keyboard_leds(&kb, &vec![], &chars("hi"), 0, 400);
    assert_eq!(color_at(&frame, &kb, 'h'), Some(BLUE));
    assert_eq!(color_at(&frame, &kb, 'i'), Some(BLUE));
}

#[test]
fn requests_come_in_layers() {
    let attempts = vec![attempt("crane", "slots")];
    let requests = collect_requests(&attempts, &chars("ab"), 1, 0);
    assert_eq!(requests.len(), 6 + 1 + 0 + 26 + 5 + 2 + 2);
    assert_eq!(
        requests[0],
        HighlightRequest {
            key: '1',
            paint: Paint::Color(RED),
            priority: 4,
            animation: Animation::Static
        }
    );
    assert_eq!(
        requests[6],
        HighlightRequest {
            key: '2',
            paint: Paint::Color(WHITE),
            priority: 5,
            animation: Animation::Blink { period_ms: 700 }
        }
    );
    assert_eq!(requests[7].key, 'a');
    assert_eq!(requests[32].key, 'z');
    assert_eq!(
        requests[41],
        HighlightRequest {
            key: 'b',
            paint: Paint::Color(BLACK),
            priority: 8,
            animation: Animation::SequenceReveal {
                position: 1,
                step_count: 2,
                step_ms: 220,
                on_ms: 120,
                pause_ms: 2000
            }
        }
    );
    let kb = keyboard();
    assert_eq!(
        compose(&requests, 0, kb.keys()),
        build_keyboard_leds(&kb, &attempts, &chars("ab"), 1, 0)
    );
}

#[test]
fn letters_are_typed_in_lower_case_up_to_ten() {
    let mut game = Game::new(chars("crane"));
    for c in "AbCdEfGhIjKl".chars() {
        assert!(!game.press(Key::Char(c)));
    }
    assert_eq!(game.current_guess, chars("abcdefghij"));
    assert!(!game.press(Key::Char('1')));
    assert!(!game.press(Key::Char(' ')));
    assert!(!game.press(Key::Char('\u{e9}')));
    assert!(!game.press(Key::Other));
    assert_eq!(game.current_guess, chars("abcdefghij"));
    assert!(!game.press(Key::Backspace));
    assert_eq!(game.current_guess, chars("abcdefghi"));
}

#[test]
fn escape_and_interrupt_end_the_game() {
    let mut game = Game::new(chars("crane"));
    game.press(Key::Char('a'));
    let before = game.clone();
    assert!(game.press(Key::Escape));
    assert!(game.press(Key::Interrupt));
    assert_eq!(game, before);
}

#[test]
fn guess_of_wrong_length_is_not_taken() {
    let mut game = Game::new(chars("crane"));
    for c in "abc".chars() {
        game.press(Key::Char(c));
    }
    assert!(!game.press(Key::Enter));
    assert_eq!(game.message, Some(Notice::GuessLength));
    assert!(game.attempts.is_empty());
    assert_eq!(game.current_guess, chars("abc"));
    game.press(Key::Char('d'));
    game.press(Key::Enter);
    assert_eq!(game.message, None);
    assert_eq!(game.attempts.len(), 1);
    assert_eq!(game.attempts[0], attempt("crane", "abcd"));
    assert!(game.current_guess.is_empty());
    assert_eq!(game.selected_attempt, 1);
    let mut empty = Game::new(chars("crane"));
    empty.press(Key::Enter);
    assert_eq!(empty.message, Some(Notice::GuessLength));
}

#[test]
fn the_secret_wins() {
    let mut game = Game::new(chars("crane"));
    for c in "CRANE".chars() {
        game.press(Key::Char(c));
    }
    game.press(Key::Enter);
    assert!(game.attempts[0].is_win);
    assert_eq!(game.attempts[0].states, vec![Correct; 5]);
    assert!(is_game_over(&game.attempts));
}

#[test]
fn arrows_move_between_attempts_and_typing_waits() {
    let mut game = Game::new(chars("crane"));
    for word in ["slots", "crank"] {
        for c in word.chars() {
            game.press(Key::Char(c));
        }
        game.press(Key::Enter);
    }
    game.press(Key::Char('x'));
    assert_eq!(game.selected_attempt, 2);
    game.press(Key::Right);
    assert_eq!(game.selected_attempt, 2);
    game.press(Key::Left);
    assert_eq!(game.selected_attempt, 1);
    game.press(Key::Char('y'));
    game.press(Key::Backspace);
    game.press(Key::Enter);
    assert_eq!(game.current_guess, chars("x"));
    assert_eq!(game.attempts.len(), 2);
    assert_eq!(game.message, None);
    game.press(Key::Left);
    game.press(Key::Left);
    assert_eq!(game.selected_attempt, 0);
    game.press(Key::Right);
    game.press(Key::Right);
    assert_eq!(game.selected_attempt, 2);
    game.press(Key::Char('y'));
    assert_eq!(game.current_guess, chars("xy"));
}

#[test]
fn seventh_guess_is_not_taken() {
    let mut game = Game::new(chars("crane"));
    for _ in 0..7 {
        for c in "slots".chars() {
            game.press(Key::Char(c));
        }
        game.press(Key::Enter);
    }
    assert_eq!(game.attempts.len(), 6);
    assert_eq!(game.current_guess, chars("slots"));
    assert_eq!(game.message, None);
}

#[test]
fn selection_behind_the_guess_is_pulled_back() {
    let mut game = Game::new(chars("crane"));
    game.selected_attempt = 3;
    game.clamp_selection();
    assert_eq!(game.selected_attempt, 0);
    game.attempts.push(attempt("crane", "slots"));
    game.selected_attempt = 1;
    game.clamp_selection();
    assert_eq!(game.selected_attempt, 1);
}

#[test]
fn end_of_game_lights_the_space_bar() {
    let mut kb = keyboard();
    let space = kb.led_for_char(' ').unwrap() as usize;
    let bytes = set_finish_leds(&mut kb).unwrap();
    let colors: Vec<u32> = bytes[22..]
        .chunks(4)
        .map(|c| u32::from_le_bytes([c[0], c[1], c[2], c[3]]))
        .collect();
    assert_eq!(colors.len(), 33);
    for (i, c) in colors.iter().enumerate() {
        assert_eq!(*c, if i == space { 0x0000_D7FF } else { 0 });
    }
    let mut bare = Keyboard::open(ControllerDescriptor {
        index: 0,
        device_type: DeviceType::Keyboard,
        display_name: "Bare".to_string(),
        vendor: String::new(),
        led_names: vec!["Key: Q".to_string()],
        led_alt_names: Vec::new(),
    })
    .unwrap();
    assert!(set_finish_leds(&mut bare).is_none());
}

#[test]
fn secret_is_one_of_the_words() {
    let words = ["crane", "slots", "nacho"];
    let mut rng = rand::thread_rng();
    let mut seen = std::collections::HashSet::new();
    for _ in 0..200 {
        let secret: String = choose_secret(&words, &mut rng).unwrap().into_iter().collect();
        assert!(words.contains(&secret.as_str()));
        seen.insert(secret);
    }
    assert!(seen.len() > 1);
    assert_eq!(choose_secret(&[], &mut rng), None);
    assert_eq!(choose_secret(&["only"], &mut rng), Some(chars("only")));
}

#[test]
fn letters_and_texts_are_told_apart() {
    assert!(char_is_letter('a') && char_is_letter('Z'));
    assert!(!char_is_letter('1') && !char_is_letter('@') && !char_is_letter('[') && !char_is_letter('\u{e9}'));
    assert!(same_text(&chars("abc"), &chars("abc")));
    assert!(!same_text(&chars("abc"), &chars("abd")));
    assert!(!same_text(&chars("abc"), &chars("ab")));
    assert!(same_text(&vec![], &vec![]));
}

#[test]
fn attempt_is_written_as_tiles() {
    let row: String = render_attempt(&attempt("crane", "nab")).into_iter().collect();
    assert_eq!(
        row,
        "\x1b[48;2;180;130;0m N \x1b[0m\x1b[48;2;180;130;0m A \x1b[0m\x1b[48;2;90;20;20m B \x1b[0m"
    );
    let win: String = render_attempt(&attempt("c", "c")).into_iter().collect();
    assert_eq!(win, "\x1b[48;2;0;150;70m C \x1b[0m");
    let uneven = Attempt { guess: chars("abc"), states: vec![Correct], is_win: false };
    let row: String = render_attempt(&uneven).into_iter().collect();
    assert_eq!(row, "\x1b[48;2;0;150;70m A \x1b[0m");
    let typed: String = render_current_guess(&chars("hi")).into_iter().collect();
    assert_eq!(typed, "\x1b[48;2;40;40;40m H \x1b[0m\x1b[48;2;40;40;40m I \x1b[0m");
    let empty: String = render_current_guess(&vec![]).into_iter().collect();
    assert_eq!(empty, "(type a guess)");
}

#[test]
fn numbers_are_written_in_decimal() {
    for n in 0..=255u8 {
        let mut out = vec!['<'];
        push_decimal(&mut out, n);
        push_text(&mut out, ">");
        let s: String = out.into_iter().collect();
        assert_eq!(s, format!("<{}>", n));
    }
}
