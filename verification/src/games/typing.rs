//! The typing game: words fall, and grow more urgent as they fall; the
//! keys of their letters show how urgent.

use vstd::prelude::*;
use crate::compositor::{compose, frame_for, Animation, HighlightRequest, Paint, URGENCY_FULL};
use crate::frame::{frame_of, LedColor, Rgb};
use crate::chance::{choose_one, draw_upto};
use crate::games::wordle::all_valid;
use crate::games::{char_is_letter, is_letter, same_text, Key};
use crate::text::{char_lower, chars_of, decimal, lower, push_decimal, push_text};
use rand::rngs::ThreadRng;
use crate::session::{update_packet, Keyboard};
use crate::text::upper;

verus! {

/// The lives with which a level begins, and the most that a player has.
pub const START_LIVES: u8 = 5;

/// The most words that are on the screen at once.
pub const MAX_WORDS: usize = 5;

/// The number of ordinary words after which a bonus word is due.
pub const BONUS_INTERVAL: u32 = 10;

/// The length of a level.
pub const LEVEL_DURATION_MS: u64 = 60_000;

/// The time between two frames.
pub const TICK_MS: u64 = 33;

/// The rank of the keys that show the lives: above every urgency.
pub const RANK_LIVES: u32 = 2000;

/// A word on the screen.
#[derive(Clone, Debug, PartialEq, Eq)]
pub struct ActiveWord {
    pub text: Vec<char>,
    /// How far the word's time has run out, in thousandths.
    pub urgency: u32,
}

/// A word on the screen as a mathematical value.
pub struct ActiveWordView {
    pub text: Seq<char>,
    pub urgency: u32,
}

impl View for ActiveWord {
    type V = ActiveWordView;

    open spec fn view(&self) -> ActiveWordView {
        ActiveWordView { text: self.text@, urgency: self.urgency }
    }
}

/// The words as mathematical values.
pub open spec fn word_views(words: Seq<ActiveWord>) -> Seq<ActiveWordView> {
    Seq::new(words.len(), |i: int| words[i]@)
}

/// How far a word's time has run out after `age_ms` of `ttl_ms`, in
/// thousandths and at most a thousand. A word without time is out of time.
pub open spec fn urgency_of(age_ms: u64, ttl_ms: u64) -> u32 {
    if ttl_ms == 0 || age_ms >= ttl_ms {
        URGENCY_FULL
    } else {
        (age_ms as int * 1000 / ttl_ms as int) as u32
    }
}

/// How far a word's time has run out, in thousandths.
pub fn word_urgency(age_ms: u64, ttl_ms: u64) -> (urgency: u32)
    ensures
        urgency == urgency_of(age_ms, ttl_ms),
        urgency <= URGENCY_FULL,
{
    if ttl_ms == 0 || age_ms >= ttl_ms {
        URGENCY_FULL
    } else {
        let scaled: u128 = (age_ms as u128) * 1000 / (ttl_ms as u128);
        assert(scaled < 1000) by (nonlinear_arith)
            requires
                scaled == (age_ms as int * 1000) / ttl_ms as int,
                0 <= age_ms < ttl_ms,
        ;
        scaled as u32
    }
}

/// The request of a letter of a word: the colour of the word's urgency,
/// ranked by the urgency.
pub open spec fn letter_request(key: char, urgency: u32) -> HighlightRequest {
    HighlightRequest {
        key,
        paint: Paint::Urgency(urgency),
        priority: if urgency > URGENCY_FULL {
            URGENCY_FULL
        } else {
            urgency
        },
        animation: Animation::Static,
    }
}

/// The requests of the letters of one word.
pub open spec fn word_requests(word: ActiveWordView) -> Seq<HighlightRequest> {
    Seq::new(word.text.len(), |i: int| letter_request(word.text[i], word.urgency))
}

/// The requests of the letters of all the words, word by word.
pub open spec fn words_requests(words: Seq<ActiveWordView>) -> Seq<HighlightRequest>
    decreases words.len(),
{
    if words.len() == 0 {
        Seq::empty()
    } else {
        words_requests(words.drop_last()) + word_requests(words.last())
    }
}

/// The key that shows life `life`, counted from 1.
pub open spec fn life_key(life: int) -> char {
    (48 + life) as u8 as char
}

/// The request of the key that shows life `life`: red while the player has
/// the life, dark once it is lost.
pub open spec fn life_request(life: int, lives: u8) -> HighlightRequest {
    HighlightRequest {
        key: life_key(life),
        paint: Paint::Color(
            if life <= lives {
                Rgb { r: 255, g: 0, b: 0 }
            } else {
                Rgb { r: 0, g: 0, b: 0 }
            },
        ),
        priority: RANK_LIVES,
        animation: Animation::Static,
    }
}

/// The requests of the keys `1` to `5`, which show the lives.
pub open spec fn lives_requests(lives: u8) -> Seq<HighlightRequest> {
    Seq::new(START_LIVES as nat, |i: int| life_request(i + 1, lives))
}

/// What the game asks of the keyboard: the letters of the words in the
/// colours of their urgency, and the lives.
pub open spec fn typing_requests(words: Seq<ActiveWordView>, lives: u8) -> Seq<HighlightRequest> {
    words_requests(words) + lives_requests(lives)
}

fn add_word_requests(all: &mut Vec<HighlightRequest>, word: &ActiveWord)
    requires
        all_valid(old(all)@),
    ensures
        final(all)@ == old(all)@ + word_requests(word@),
        all_valid(final(all)@),
{
    let ghost wanted = word_requests(word@);
    let rank: u32 = if word.urgency > URGENCY_FULL {
        URGENCY_FULL
    } else {
        word.urgency
    };
    let mut i: usize = 0;
    assert(all@ =~= old(all)@ + wanted.take(0));
    while i < word.text.len()
        invariant
            i <= word.text@.len(),
            wanted == word_requests(word@),
            rank == letter_request(' ', word.urgency).priority,
            all@ == old(all)@ + wanted.take(i as int),
            all_valid(all@),
        decreases word.text@.len() - i,
    {
        let request = HighlightRequest {
            key: word.text[i],
            paint: Paint::Urgency(word.urgency),
            priority: rank,
            animation: Animation::Static,
        };
        assert(request == wanted[i as int]);
        all.push(request);
        i += 1;
        assert(all@ =~= old(all)@ + wanted.take(i as int));
    }
    assert(wanted.take(word.text@.len() as int) =~= wanted);
}

fn add_lives_requests(all: &mut Vec<HighlightRequest>, lives: u8)
    requires
        all_valid(old(all)@),
    ensures
        final(all)@ == old(all)@ + lives_requests(lives),
        all_valid(final(all)@),
{
    let ghost wanted = lives_requests(lives);
    let mut i: u8 = 0;
    assert(all@ =~= old(all)@ + wanted.take(0));
    while i < START_LIVES
        invariant
            i <= START_LIVES,
            wanted == lives_requests(lives),
            all@ == old(all)@ + wanted.take(i as int),
            all_valid(all@),
        decreases START_LIVES - i,
    {
        let life: u8 = i + 1;
        let request = HighlightRequest {
            key: (48u8 + life) as char,
            paint: Paint::Color(
                if life <= lives {
                    Rgb { r: 255, g: 0, b: 0 }
                } else {
                    Rgb { r: 0, g: 0, b: 0 }
                },
            ),
            priority: RANK_LIVES,
            animation: Animation::Static,
        };
        assert(request == wanted[i as int]);
        all.push(request);
        i += 1;
        assert(all@ =~= old(all)@ + wanted.take(i as int));
    }
    assert(wanted.take(START_LIVES as int) =~= wanted);
}

/// Collects what the game asks of the keyboard.
pub fn collect_requests(words: &Vec<ActiveWord>, lives: u8) -> (requests: Vec<HighlightRequest>)
    ensures
        requests@ == typing_requests(word_views(words@), lives),
        all_valid(requests@),
{
    let ghost views = word_views(words@);
    let mut all: Vec<HighlightRequest> = Vec::new();
    let mut i: usize = 0;
    assert(views.take(0) =~= Seq::<ActiveWordView>::empty());
    while i < words.len()
        invariant
            i <= words@.len(),
            views == word_views(words@),
            all@ == words_requests(views.take(i as int)),
            all_valid(all@),
        decreases words@.len() - i,
    {
        assert(views.take(i + 1).drop_last() =~= views.take(i as int));
        assert(views.take(i + 1).last() == words@[i as int]@);
        add_word_requests(&mut all, &words[i]);
        i += 1;
    }
    assert(views.take(words@.len() as int) =~= views);
    add_lives_requests(&mut all, lives);
    all
}

/// The frame that the game shows on the keyboard.
pub fn build_leds(keyboard: &Keyboard, words: &Vec<ActiveWord>, lives: u8) -> (frame: Vec<
    LedColor,
>)
    ensures
        frame@ == frame_for(typing_requests(word_views(words@), lives), 0, keyboard@.keys),
{
    let requests = collect_requests(words, lives);
    compose(requests.as_slice(), 0, keyboard.keys())
}

/// The entries that show the lives that are left and light the space bar
/// in gold, for the keys that have an LED.
pub open spec fn finish_entries(keys: Map<char, u32>, lives: u8, shown: int) -> Seq<LedColor>
    decreases shown,
{
    if shown <= 0 {
        Seq::empty()
    } else if shown <= START_LIVES {
        let earlier = finish_entries(keys, lives, shown - 1);
        if keys.contains_key(life_key(shown)) {
            earlier.push(
                LedColor {
                    id: keys[life_key(shown)],
                    r: if shown <= lives {
                        255
                    } else {
                        0
                    },
                    g: 0,
                    b: 0,
                },
            )
        } else {
            earlier
        }
    } else {
        let earlier = finish_entries(keys, lives, START_LIVES as int);
        if keys.contains_key(' ') {
            earlier.push(LedColor { id: keys[' '], r: 255, g: 215, b: 0 })
        } else {
            earlier
        }
    }
}

/// Shows the end of a level: the lives that are left in red, the lost ones
/// dark, and the space bar, which ends the game, in gold. Returns the bytes
/// of the packet that shows it.
pub fn set_finish_leds(keyboard: &mut Keyboard, lives: u8) -> (bytes: Vec<u8>)
    ensures
        final(keyboard)@.frame == frame_of(
            finish_entries(old(keyboard)@.keys, lives, START_LIVES + 1),
            old(keyboard)@.frame.len(),
        ),
        final(keyboard)@.device_index == old(keyboard)@.device_index,
        final(keyboard)@.device_name == old(keyboard)@.device_name,
        final(keyboard)@.keys == old(keyboard)@.keys,
        bytes@ == update_packet(final(keyboard)@.device_index, final(keyboard)@.frame),
{
    let mut leds: Vec<LedColor> = Vec::new();
    let mut i: u8 = 1;
    while i <= START_LIVES
        invariant
            1 <= i <= START_LIVES + 1,
            keyboard@ == old(keyboard)@,
            leds@ == finish_entries(keyboard@.keys, lives, i - 1),
        decreases START_LIVES + 1 - i,
    {
        let key = (48u8 + i) as char;
        assert(upper(key) == key);
        match keyboard.led_for_char(key) {
            Some(id) => {
                leds.push(
                    LedColor {
                        id,
                        r: if i <= lives {
                            255
                        } else {
                            0
                        },
                        g: 0,
                        b: 0,
                    },
                );
            },
            None => {},
        }
        i += 1;
    }
    assert(upper(' ') == ' ');
    match keyboard.led_for_char(' ') {
        Some(id) => {
            leds.push(LedColor { id, r: 255, g: 215, b: 0 });
        },
        None => {},
    }
    keyboard.set_leds(leds.as_slice())
}

/// Whether `prefix` is the start of `word`.
pub open spec fn is_prefix(prefix: Seq<char>, word: Seq<char>) -> bool {
    prefix.len() <= word.len() && word.subrange(0, prefix.len() as int) == prefix
}

/// Whether what was typed is the start of `word`.
pub fn starts_with(word: &Vec<char>, typed: &Vec<char>) -> (r: bool)
    ensures
        r == is_prefix(typed@, word@),
{
    if typed.len() > word.len() {
        return false;
    }
    let mut i: usize = 0;
    while i < typed.len()
        invariant
            i <= typed@.len() <= word@.len(),
            forall|k: int| 0 <= k < i ==> word@[k] == typed@[k],
        decreases typed@.len() - i,
    {
        if word[i] != typed[i] {
            assert(word@.subrange(0, typed@.len() as int)[i as int] != typed@[i as int]);
            return false;
        }
        i += 1;
    }
    assert(word@.subrange(0, typed@.len() as int) =~= typed@);
    true
}

/// Whether what was typed is the start of one of the words.
pub fn matches_prefix(buffer: &Vec<char>, words: &Vec<ActiveWord>) -> (r: bool)
    ensures
        r == exists|i: int| 0 <= i < words@.len() && is_prefix(buffer@, (#[trigger] words@[i]).text@),
{
    let mut i: usize = 0;
    while i < words.len()
        invariant
            i <= words@.len(),
            forall|k: int| 0 <= k < i ==> !is_prefix(buffer@, (#[trigger] words@[k]).text@),
        decreases words@.len() - i,
    {
        if starts_with(&words[i].text, buffer) {
            return true;
        }
        i += 1;
    }
    false
}

/// The width and height of the field in which the words fall, on a
/// terminal of `cols` columns and `rows` rows: two columns less than the
/// terminal but at least ten, or all the columns of a terminal that has
/// fewer than ten; and eight rows less, but at least eight and at most
/// twenty-two.
pub open spec fn field_of(cols: u16, rows: u16) -> (int, int) {
    (
        if cols >= 12 {
            cols - 2
        } else if cols >= 10 || cols == 0 {
            10
        } else {
            cols as int
        },
        if rows <= 16 {
            8
        } else if rows >= 30 {
            22
        } else {
            rows - 8
        },
    )
}

/// The width and height of the field in which the words fall.
pub fn field_size(cols: u16, rows: u16) -> (size: (usize, usize))
    ensures
        size.0 == field_of(cols, rows).0,
        size.1 == field_of(cols, rows).1,
{
    let width: usize = cols as usize;
    let height: usize = rows as usize;
    let extra: usize = 8;
    let mut field_height: usize = if height > extra {
        height - extra
    } else {
        6
    };
    if field_height < 8 {
        field_height = 8;
    }
    if field_height > 22 {
        field_height = 22;
    }
    let mut field_width: usize = if width >= 2 {
        width - 2
    } else {
        0
    };
    if field_width < 10 {
        field_width = 10;
    }
    if field_width > width && width > 0 {
        field_width = width;
    }
    (field_width, field_height)
}

/// A word that falls.
#[derive(Clone, Debug, PartialEq, Eq)]
pub struct Word {
    pub text: Vec<char>,
    pub spawned_at_ms: u64,
    pub ttl_ms: u64,
    pub column: usize,
    pub color: Option<Rgb>,
    pub is_bonus: bool,
}

/// What the player has done so far.
#[derive(Clone, Copy, Debug, PartialEq, Eq, Structural)]
pub struct Stats {
    pub words_typed: u32,
    pub words_missed: u32,
    pub keystrokes: u32,
    pub backspaces: u32,
}

/// One more, as far as a `u32` counts.
pub open spec fn one_more(n: u32) -> u32 {
    if n < u32::MAX {
        (n + 1) as u32
    } else {
        n
    }
}

/// Whether the level is over: its time is up or no life is left.
pub fn is_level_over(elapsed_ms: u64, lives: u8) -> (over: bool)
    ensures
        over == (elapsed_ms >= LEVEL_DURATION_MS || lives == 0),
{
    elapsed_ms >= LEVEL_DURATION_MS || lives == 0
}

/// Takes a key press. Returns whether the game is to end.
///
/// Escape and control-c end the game. A letter is added to what was
/// typed, in lower case, and counted. Backspace takes the last letter and
/// is counted. Enter clears what was typed.
pub fn handle_key(buffer: &mut Vec<char>, stats: &mut Stats, key: Key) -> (quit: bool)
    ensures
        quit == (key == Key::Escape || key == Key::Interrupt),
        final(stats).words_typed == old(stats).words_typed,
        final(stats).words_missed == old(stats).words_missed,
        match key {
            Key::Backspace => {
                &&& final(buffer)@ == (if old(buffer)@.len() > 0 {
                    old(buffer)@.drop_last()
                } else {
                    old(buffer)@
                })
                &&& final(stats).backspaces == one_more(old(stats).backspaces)
                &&& final(stats).keystrokes == old(stats).keystrokes
            },
            Key::Enter => final(buffer)@.len() == 0 && *final(stats) == *old(stats),
            Key::Char(c) => if is_letter(c) {
                &&& final(buffer)@ == old(buffer)@.push(lower(c))
                &&& final(stats).keystrokes == one_more(old(stats).keystrokes)
                &&& final(stats).backspaces == old(stats).backspaces
            } else {
                final(buffer)@ == old(buffer)@ && *final(stats) == *old(stats)
            },
            _ => final(buffer)@ == old(buffer)@ && *final(stats) == *old(stats),
        },
{
    match key {
        Key::Escape => true,
        Key::Interrupt => true,
        Key::Backspace => {
            stats.backspaces = stats.backspaces.saturating_add(1);
            let _ = buffer.pop();
            false
        },
        Key::Enter => {
            buffer.clear();
            false
        },
        Key::Char(c) => {
            if char_is_letter(c) {
                stats.keystrokes = stats.keystrokes.saturating_add(1);
                buffer.push(char_lower(c));
            }
            false
        },
        _ => false,
    }
}

/// Whether a word's time is up at `now_ms`.
pub open spec fn is_expired(word: Word, now_ms: u64) -> bool {
    now_ms >= word.spawned_at_ms && now_ms - word.spawned_at_ms >= word.ttl_ms
}

/// The words whose time is not up at `now_ms`, in their order.
pub open spec fn still_falling(words: Seq<Word>, now_ms: u64) -> Seq<Word>
    decreases words.len(),
{
    if words.len() == 0 {
        Seq::empty()
    } else if is_expired(words.last(), now_ms) {
        still_falling(words.drop_last(), now_ms)
    } else {
        still_falling(words.drop_last(), now_ms).push(words.last())
    }
}

/// Takes away the words whose time is up and returns how many they were.
pub fn expire_words(words: &mut Vec<Word>, now_ms: u64) -> (expired: usize)
    ensures
        final(words)@ == still_falling(old(words)@, now_ms),
        expired == old(words)@.len() - final(words)@.len(),
{
    let mut kept: Vec<Word> = Vec::new();
    let mut all: Vec<Word> = Vec::new();
    all.append(words);
    let ghost before = all@;
    assert(before =~= old(words)@);
    let total: usize = all.len();
    let mut expired: usize = 0;
    let mut pending: Vec<Word> = Vec::new();
    // The words are taken from the back, so they are put back in two steps.
    while all.len() > 0
        invariant
            all@.len() <= total,
            total == before.len(),
            all@ == before.take(all@.len() as int),
            pending@.len() + expired == total - all@.len(),
            still_falling(before, now_ms) == still_falling(all@, now_ms) + pending@.reverse(),
        decreases all@.len(),
    {
        let ghost upto = all@;
        let word = all.pop().unwrap();
        let ghost rest = all@;
        assert(rest =~= upto.drop_last());
        assert(all@ =~= before.take(all@.len() as int));
        let age_up = now_ms >= word.spawned_at_ms && now_ms - word.spawned_at_ms >= word.ttl_ms;
        if age_up {
            expired += 1;
        } else {
            let ghost held = pending@;
            pending.push(word);
            assert(pending@.reverse() =~= seq![word] + held.reverse());
            assert(still_falling(rest, now_ms).push(word) + held.reverse() =~= still_falling(
                rest,
                now_ms,
            ) + (seq![word] + held.reverse()));
        }
    }
    assert(still_falling(before, now_ms) =~= pending@.reverse());
    while pending.len() > 0
        invariant
            kept@ + pending@.reverse() == still_falling(before, now_ms),
            kept@.len() + pending@.len() + expired == total,
        decreases pending@.len(),
    {
        let ghost held = pending@;
        let word = pending.pop().unwrap();
        let ghost had = kept@;
        kept.push(word);
        assert(held.reverse() =~= seq![word] + pending@.reverse());
        assert(had + (seq![word] + pending@.reverse()) =~= kept@ + pending@.reverse());
    }
    assert(kept@ =~= still_falling(before, now_ms));
    words.append(&mut kept);
    assert(words@ =~= still_falling(before, now_ms));
    expired
}

/// The lives that are left when `expired` words have run out: one life
/// less for each, down to none.
pub fn lives_after_misses(lives: u8, expired: usize) -> (left: u8)
    ensures
        left == (if expired >= lives {
            0
        } else {
            lives - expired
        }),
{
    if expired >= lives as usize {
        0
    } else {
        lives - (expired as u8)
    }
}

/// The place of the first word that is what was typed.
pub open spec fn typed_word(words: Seq<Word>, buffer: Seq<char>, from: int) -> Option<int>
    decreases words.len() - from,
{
    if from < 0 || from >= words.len() {
        None
    } else if words[from].text@ == buffer {
        Some(from)
    } else {
        typed_word(words, buffer, from + 1)
    }
}

/// Finds the first word that is what was typed, if anything was typed.
pub fn find_typed(words: &Vec<Word>, buffer: &Vec<char>) -> (found: Option<usize>)
    ensures
        found == (if buffer@.len() == 0 {
            None
        } else {
            match typed_word(words@, buffer@, 0) {
                Some(i) => Some(i as usize),
                None => None,
            }
        }),
        found matches Some(i) ==> i < words@.len(),
{
    if buffer.len() == 0 {
        return None;
    }
    let mut i: usize = 0;
    while i < words.len()
        invariant
            i <= words@.len(),
            buffer@.len() > 0,
            typed_word(words@, buffer@, 0) == typed_word(words@, buffer@, i as int),
        decreases words@.len() - i,
    {
        if same_text(&words[i].text, buffer) {
            return Some(i);
        }
        i += 1;
    }
    None
}

/// How the player stands.
#[derive(Clone, Copy, Debug, PartialEq, Eq, Structural)]
pub struct Progress {
    pub lives: u8,
    /// The ordinary words typed since the last bonus word came due.
    pub words_since_bonus: u32,
    /// Whether the next word is a bonus word.
    pub bonus_ready: bool,
}

/// How the player stands after a word was typed. A bonus word gives a
/// life back, up to the lives of the start. Every tenth ordinary word
/// makes a bonus word due.
pub open spec fn after_word(progress: Progress, is_bonus: bool) -> Progress {
    if is_bonus {
        Progress {
            lives: if progress.lives >= START_LIVES {
                START_LIVES
            } else {
                (progress.lives + 1) as u8
            },
            ..progress
        }
    } else if progress.words_since_bonus + 1 >= BONUS_INTERVAL {
        Progress { words_since_bonus: 0, bonus_ready: true, ..progress }
    } else {
        Progress { words_since_bonus: (progress.words_since_bonus + 1) as u32, ..progress }
    }
}

/// Counts a typed word.
pub fn word_typed(progress: Progress, is_bonus: bool) -> (next: Progress)
    ensures
        next == after_word(progress, is_bonus),
{
    if is_bonus {
        Progress {
            lives: if progress.lives >= START_LIVES {
                START_LIVES
            } else {
                progress.lives + 1
            },
            words_since_bonus: progress.words_since_bonus,
            bonus_ready: progress.bonus_ready,
        }
    } else if progress.words_since_bonus >= BONUS_INTERVAL - 1 {
        Progress { lives: progress.lives, words_since_bonus: 0, bonus_ready: true }
    } else {
        Progress {
            lives: progress.lives,
            words_since_bonus: progress.words_since_bonus + 1,
            bonus_ready: progress.bonus_ready,
        }
    }
}

/// Whether a word is to be spawned at `now_ms`: always on an empty
/// screen; else when the next spawn is due and the screen is not full.
pub fn spawn_due(on_screen: usize, now_ms: u64, next_spawn_ms: u64) -> (due: bool)
    ensures
        due == (on_screen == 0 || (now_ms >= next_spawn_ms && on_screen < MAX_WORDS)),
{
    on_screen == 0 || (now_ms >= next_spawn_ms && on_screen < MAX_WORDS)
}

/// When the next word is due, seen from `now_ms`: one interval on where a
/// word was due now, spawned or not; else when it was due before.
pub fn next_spawn_time(on_screen: usize, now_ms: u64, next_spawn_ms: u64, interval_ms: u64) -> (next:
    u64)
    ensures
        next == (if on_screen == 0 || now_ms >= next_spawn_ms {
            if now_ms + interval_ms > u64::MAX {
                u64::MAX
            } else {
                (now_ms + interval_ms) as u64
            }
        } else {
            next_spawn_ms
        }),
{
    if on_screen == 0 || now_ms >= next_spawn_ms {
        now_ms.saturating_add(interval_ms)
    } else {
        next_spawn_ms
    }
}

/// What the player has done, with `expired` more words missed.
pub fn count_missed(stats: Stats, expired: usize) -> (counted: Stats)
    ensures
        counted == (Stats {
            words_missed: if stats.words_missed + expired > u32::MAX {
                u32::MAX
            } else {
                (stats.words_missed + expired) as u32
            },
            ..stats
        }),
{
    let more: u32 = if expired > 0xFFFF_FFFF {
        0xFFFF_FFFF
    } else {
        expired as u32
    };
    Stats {
        words_typed: stats.words_typed,
        words_missed: stats.words_missed.saturating_add(more),
        keystrokes: stats.keystrokes,
        backspaces: stats.backspaces,
    }
}

/// What the player has done, with one more word typed.
pub fn count_typed(stats: Stats) -> (counted: Stats)
    ensures
        counted == (Stats { words_typed: one_more(stats.words_typed), ..stats }),
{
    Stats {
        words_typed: stats.words_typed.saturating_add(1),
        words_missed: stats.words_missed,
        keystrokes: stats.keystrokes,
        backspaces: stats.backspaces,
    }
}

/// The row of the field in which a word of this urgency is written: the
/// top row for a new word, the bottom row for one whose time is up.
pub fn word_row(field_height: usize, urgency: u32) -> (row: usize)
    requires
        field_height > 0,
    ensures
        row == (field_height - 1) * (if urgency > URGENCY_FULL {
            URGENCY_FULL as int
        } else {
            urgency as int
        }) / 1000,
        row < field_height,
{
    let u: u128 = if urgency > URGENCY_FULL {
        URGENCY_FULL as u128
    } else {
        urgency as u128
    };
    let last: u128 = (field_height - 1) as u128;
    assert(last * u <= last * 1000) by (nonlinear_arith)
        requires
            u <= 1000,
            last >= 0,
    ;
    (last * u / 1000) as usize
}

/// The colour in which a bonus word is written.
pub open spec fn bonus_color() -> Rgb {
    Rgb { r: 255, g: 215, b: 0 }
}

/// The rightmost column at which a word of `len` columns can begin in a
/// field of `field_width` columns.
pub open spec fn last_column(field_width: int, len: int) -> int {
    if field_width >= len {
        field_width - len
    } else {
        0
    }
}

/// The word that falls from `column`, spawned at `now_ms` with `ttl_ms`
/// to live. A bonus word is written in gold.
pub fn new_word(text: &str, column: usize, now_ms: u64, ttl_ms: u64, is_bonus: bool) -> (word:
    Word)
    ensures
        word.text@ == text@,
        word.column == column,
        word.spawned_at_ms == now_ms,
        word.ttl_ms == ttl_ms,
        word.is_bonus == is_bonus,
        word.color == (if is_bonus {
            Some(bonus_color())
        } else {
            None
        }),
{
    Word {
        text: chars_of(text),
        spawned_at_ms: now_ms,
        ttl_ms,
        column,
        color: if is_bonus {
            Some(Rgb { r: 255, g: 215, b: 0 })
        } else {
            None
        },
        is_bonus,
    }
}

/// Spawns a word: one of `bonus_words` if it is to be a bonus word, else
/// one of `words`, at a column from which it fits the field, its length
/// counted in bytes. Where the list is empty the word is `constellation` or
/// `alpha`.
pub fn spawn_word(
    rng: &mut ThreadRng,
    now_ms: u64,
    ttl_ms: u64,
    field_width: usize,
    is_bonus: bool,
    words: &[&'static str],
    bonus_words: &[&'static str],
) -> (word: Word)
    ensures
        word.spawned_at_ms == now_ms,
        word.ttl_ms == ttl_ms,
        word.is_bonus == is_bonus,
        word.color == (if is_bonus {
            Some(bonus_color())
        } else {
            None
        }),
        is_bonus && bonus_words@.len() > 0 ==> exists|i: int|
            0 <= i < bonus_words@.len() && word.text@ == (#[trigger] bonus_words@[i])@,
        is_bonus && bonus_words@.len() == 0 ==> word.text@ == "constellation"@,
        !is_bonus && words@.len() > 0 ==> exists|i: int|
            0 <= i < words@.len() && word.text@ == (#[trigger] words@[i])@,
        !is_bonus && words@.len() == 0 ==> word.text@ == "alpha"@,
        word.column <= last_column(
            field_width as int,
            vstd::utf8::encode_utf8(word.text@).len() as usize as int,
        ),
{
    let text: &'static str = if is_bonus {
        match choose_one(bonus_words, rng) {
            Some(t) => t,
            None => "constellation",
        }
    } else {
        match choose_one(words, rng) {
            Some(t) => t,
            None => "alpha",
        }
    };
    let len: usize = text.len();
    assert(len == vstd::utf8::encode_utf8(text@).len() as usize);
    let max_col: usize = if field_width >= len {
        field_width - len
    } else {
        0
    };
    let column: usize = if max_col == 0 {
        0
    } else {
        draw_upto(max_col, rng)
    };
    new_word(text, column, now_ms, ttl_ms, is_bonus)
}

/// A character on the screen and the colour in which it is written; no
/// colour is the terminal's own.
#[derive(Clone, Copy, Debug, PartialEq, Eq)]
pub struct Cell {
    pub ch: char,
    pub color: Option<Rgb>,
}

/// The sequence that makes a terminal write in `color` from then on.
pub open spec fn color_sequence(color: Rgb) -> Seq<char> {
    "\x1b[38;2;"@ + decimal(color.r as nat) + ";"@ + decimal(color.g as nat) + ";"@ + decimal(
        color.b as nat,
    ) + "m"@
}

/// The sequence that makes a terminal write in its own colour again.
pub open spec fn reset_sequence() -> Seq<char> {
    "\x1b[0m"@
}

/// The text that writes `cells` in their colours on a terminal that writes
/// in `active`: a sequence wherever the colour changes, and a reset at the
/// end unless the last colour is the terminal's own.
pub open spec fn row_text(cells: Seq<Cell>, active: Option<Rgb>) -> Seq<char>
    decreases cells.len(),
{
    if cells.len() == 0 {
        if active is Some {
            reset_sequence()
        } else {
            Seq::empty()
        }
    } else {
        let cell = cells[0];
        (if cell.color == active {
            Seq::empty()
        } else {
            match cell.color {
                Some(color) => color_sequence(color),
                None => reset_sequence(),
            }
        }) + seq![cell.ch] + row_text(cells.drop_first(), cell.color)
    }
}

/// Writes the sequence that makes a terminal write in `color`.
pub fn ansi_color(color: Rgb) -> (text: Vec<char>)
    ensures
        text@ == color_sequence(color),
{
    let mut text: Vec<char> = Vec::new();
    push_text(&mut text, "\x1b[38;2;");
    push_decimal(&mut text, color.r);
    push_text(&mut text, ";");
    push_decimal(&mut text, color.g);
    push_text(&mut text, ";");
    push_decimal(&mut text, color.b);
    push_text(&mut text, "m");
    assert(text@ =~= color_sequence(color));
    text
}

/// Whether two colours of cells are the same.
fn same_color(a: Option<Rgb>, b: Option<Rgb>) -> (same: bool)
    ensures
        same == (a == b),
{
    match (a, b) {
        (None, None) => true,
        (Some(x), Some(y)) => x.r == y.r && x.g == y.g && x.b == y.b,
        _ => false,
    }
}

/// Writes one row of the field as text for the terminal.
pub fn render_row(row: &[Cell]) -> (line: Vec<char>)
    ensures
        line@ == row_text(row@, None),
{
    let mut line: Vec<char> = Vec::new();
    let mut active: Option<Rgb> = None;
    let mut i: usize = 0;
    assert(row@.skip(0) =~= row@);
    while i < row.len()
        invariant
            i <= row@.len(),
            row_text(row@, None) == line@ + row_text(row@.skip(i as int), active),
        decreases row@.len() - i,
    {
        let cell = row[i];
        let ghost rest = row@.skip(i as int);
        let ghost before = line@;
        let ghost was = active;
        assert(rest[0] == cell);
        assert(rest.drop_first() =~= row@.skip(i + 1));
        if !same_color(cell.color, active) {
            match cell.color {
                Some(color) => {
                    let mut sequence = ansi_color(color);
                    line.append(&mut sequence);
                },
                None => {
                    push_text(&mut line, "\x1b[0m");
                },
            }
            active = cell.color;
        }
        line.push(cell.ch);
        i += 1;
        assert(line@ + row_text(rest.drop_first(), cell.color) =~= before + row_text(rest, was));
    }
    assert(row@.skip(row@.len() as int) =~= Seq::<Cell>::empty());
    if active.is_some() {
        push_text(&mut line, "\x1b[0m");
    }
    assert(line@ =~= row_text(row@, None));
    line
}

} // verus!
