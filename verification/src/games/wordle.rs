//! The word-guessing game: how a guess is judged, and what the keyboard
//! shows while the game is played.

use vstd::prelude::*;
use crate::compositor::{
    compose, frame_for, sequence_item, sequence_reveal, Animation, HighlightRequest, Paint,
};
use crate::chance::choose_one;
use crate::frame::{LedColor, Rgb};
use crate::games::{char_is_letter, is_letter, same_text, Key};
use crate::session::Keyboard;
use crate::text::{
    char_lower, char_upper, chars_of, decimal, lower, push_decimal, push_text, upper,
};
use rand::rngs::ThreadRng;

verus! {

/// The shortest guess that is taken.
pub const MIN_LEN: usize = 4;

/// The longest guess that is taken.
pub const MAX_LEN: usize = 10;

/// The number of guesses that a game allows.
pub const MAX_ATTEMPTS: usize = 6;

/// The period with which the key of the current attempt blinks.
pub const BLINK_MS: u64 = 700;

/// The time that each letter of a word has when the word is spelled out on
/// the keyboard.
pub const SEQ_STEP_MS: u64 = 220;

/// The part of a letter's time in which its key is dark.
pub const SEQ_OFF_MS: u64 = 120;

/// The pause before a word is spelled out again.
pub const SEQ_PAUSE_MS: u64 = 2000;

/// How a letter of a guess stands to the secret word.
#[derive(Clone, Copy, Debug, PartialEq, Eq, Structural)]
pub enum LetterState {
    /// The secret has this letter at this place.
    Correct,
    /// The secret has this letter at another place.
    Present,
    /// The secret has no such letter left.
    Absent,
}

/// A guess that was made, with its judgement.
#[derive(Clone, Debug, PartialEq, Eq)]
pub struct Attempt {
    pub guess: Vec<char>,
    pub states: Vec<LetterState>,
    pub is_win: bool,
}

/// An attempt as a mathematical value.
pub struct AttemptView {
    pub guess: Seq<char>,
    pub states: Seq<LetterState>,
    pub is_win: bool,
}

impl View for Attempt {
    type V = AttemptView;

    open spec fn view(&self) -> AttemptView {
        AttemptView { guess: self.guess@, states: self.states@, is_win: self.is_win }
    }
}

/// The attempts as mathematical values.
pub open spec fn attempt_views(attempts: Seq<Attempt>) -> Seq<AttemptView> {
    Seq::new(attempts.len(), |i: int| attempts[i]@)
}

/// Whether the game is over: the last guess was the secret, or no guess is
/// left.
pub fn is_game_over(attempts: &Vec<Attempt>) -> (over: bool)
    ensures
        over == ((attempts@.len() > 0 && attempts@.last().is_win) || attempts@.len()
            >= MAX_ATTEMPTS),
{
    let n: usize = attempts.len();
    (n > 0 && attempts[n - 1].is_win) || n >= MAX_ATTEMPTS
}

/// Whether the guess has the secret's letter at place `i`.
pub open spec fn is_hit(secret: Seq<char>, guess: Seq<char>, i: int) -> bool {
    0 <= i < secret.len() && i < guess.len() && guess[i] == secret[i]
}

/// How many of the first `n` letters of the secret are `c` and are not hit
/// by the guess.
pub open spec fn unmatched(secret: Seq<char>, guess: Seq<char>, c: char, n: int) -> nat
    decreases n,
{
    if n <= 0 {
        0
    } else {
        unmatched(secret, guess, c, n - 1) + if n <= secret.len() && secret[n - 1] == c && !is_hit(
            secret,
            guess,
            n - 1,
        ) {
            1nat
        } else {
            0nat
        }
    }
}

/// How many of the first `n` letters of the guess are `c` and are no hits.
pub open spec fn claims(secret: Seq<char>, guess: Seq<char>, c: char, n: int) -> nat
    decreases n,
{
    if n <= 0 {
        0
    } else {
        claims(secret, guess, c, n - 1) + if n <= guess.len() && guess[n - 1] == c && !is_hit(
            secret,
            guess,
            n - 1,
        ) {
            1nat
        } else {
            0nat
        }
    }
}

/// The judgement of letter `i` of the guess. A hit is correct. Any other
/// letter is present as long as the secret has more unmatched letters of
/// its kind than the guess has claimed before it, and absent after that.
pub open spec fn letter_state(secret: Seq<char>, guess: Seq<char>, i: int) -> LetterState {
    if is_hit(secret, guess, i) {
        LetterState::Correct
    } else if claims(secret, guess, guess[i], i) < unmatched(
        secret,
        guess,
        guess[i],
        secret.len() as int,
    ) {
        LetterState::Present
    } else {
        LetterState::Absent
    }
}

/// Counts the letters `c` among the first `n` of the secret that the guess
/// does not hit.
fn count_unmatched(secret: &Vec<char>, guess: &Vec<char>, c: char) -> (count: usize)
    ensures
        count == unmatched(secret@, guess@, c, secret@.len() as int),
{
    let mut count: usize = 0;
    let mut k: usize = 0;
    while k < secret.len()
        invariant
            k <= secret@.len(),
            count <= k,
            count == unmatched(secret@, guess@, c, k as int),
        decreases secret@.len() - k,
    {
        let hit = k < guess.len() && guess[k] == secret[k];
        if secret[k] == c && !hit {
            count += 1;
        }
        k += 1;
    }
    count
}

/// Counts the letters `c` among the first `n` of the guess that are no
/// hits.
fn count_claims(secret: &Vec<char>, guess: &Vec<char>, c: char, n: usize) -> (count: usize)
    requires
        n <= guess@.len(),
    ensures
        count == claims(secret@, guess@, c, n as int),
{
    let mut count: usize = 0;
    let mut j: usize = 0;
    while j < n
        invariant
            j <= n <= guess@.len(),
            count <= j,
            count == claims(secret@, guess@, c, j as int),
        decreases n - j,
    {
        let hit = j < secret.len() && guess[j] == secret[j];
        if guess[j] == c && !hit {
            count += 1;
        }
        j += 1;
    }
    count
}

/// Judges a guess against the secret, letter by letter.
pub fn evaluate_guess(secret: &Vec<char>, guess: &Vec<char>) -> (states: Vec<LetterState>)
    ensures
        states@.len() == guess@.len(),
        forall|i: int| 0 <= i < guess@.len() ==> states@[i] == letter_state(secret@, guess@, i),
{
    let mut states: Vec<LetterState> = Vec::new();
    let mut i: usize = 0;
    while i < guess.len()
        invariant
            i <= guess@.len(),
            states@.len() == i,
            forall|k: int| 0 <= k < i ==> states@[k] == letter_state(secret@, guess@, k),
        decreases guess@.len() - i,
    {
        let state = if i < secret.len() && guess[i] == secret[i] {
            LetterState::Correct
        } else if count_claims(secret, guess, guess[i], i) < count_unmatched(
            secret,
            guess,
            guess[i],
        ) {
            LetterState::Present
        } else {
            LetterState::Absent
        };
        states.push(state);
        i += 1;
    }
    states
}

/// The key that stands for attempt `index`: `1` for the first, up to `6`.
pub open spec fn attempt_key(index: int) -> char {
    if index == 0 {
        '1'
    } else if index == 1 {
        '2'
    } else if index == 2 {
        '3'
    } else if index == 3 {
        '4'
    } else if index == 4 {
        '5'
    } else if index == 5 {
        '6'
    } else {
        '0'
    }
}

/// The key that stands for attempt `index`.
pub fn attempt_key_char(index: usize) -> (key: char)
    ensures
        key == attempt_key(index as int),
{
    match index {
        0 => '1',
        1 => '2',
        2 => '3',
        3 => '4',
        4 => '5',
        5 => '6',
        _ => '0',
    }
}

pub open spec fn green() -> Rgb {
    Rgb { r: 0, g: 255, b: 0 }
}

pub open spec fn gold() -> Rgb {
    Rgb { r: 255, g: 215, b: 0 }
}

pub open spec fn red() -> Rgb {
    Rgb { r: 255, g: 0, b: 0 }
}

pub open spec fn amber() -> Rgb {
    Rgb { r: 255, g: 140, b: 0 }
}

pub open spec fn white() -> Rgb {
    Rgb { r: 255, g: 255, b: 255 }
}

pub open spec fn black() -> Rgb {
    Rgb { r: 0, g: 0, b: 0 }
}

pub open spec fn blue() -> Rgb {
    Rgb { r: 80, g: 140, b: 255 }
}

/// The rank of a judgement's colour: green above gold above red above any
/// other colour.
pub open spec fn color_rank(color: Rgb) -> u8 {
    if color == green() {
        3
    } else if color == gold() {
        2
    } else if color == red() {
        1
    } else {
        0
    }
}

/// The rank of a judgement's colour.
pub fn priority(color: Rgb) -> (rank: u8)
    ensures
        rank == color_rank(color),
{
    if color.r == 0 && color.g == 255 && color.b == 0 {
        3
    } else if color.r == 255 && color.g == 215 && color.b == 0 {
        2
    } else if color.r == 255 && color.g == 0 && color.b == 0 {
        1
    } else {
        0
    }
}

/// The colour in which a judgement is shown.
pub open spec fn state_color(state: LetterState) -> Rgb {
    match state {
        LetterState::Correct => green(),
        LetterState::Present => gold(),
        LetterState::Absent => red(),
    }
}

/// How many of `states` are `which`.
pub open spec fn count_of(states: Seq<LetterState>, which: LetterState) -> nat
    decreases states.len(),
{
    if states.len() == 0 {
        0
    } else {
        count_of(states.drop_last(), which) + if states.last() == which {
            1nat
        } else {
            0nat
        }
    }
}

/// The colour of an attempt's key after `elapsed_ms`.
///
/// A win is green. An attempt without a correct letter is amber if a
/// letter is present and red if none is. Any other attempt shows its share
/// of correct letters as green time and its share of present letters as
/// gold time in a cycle of three blink periods, and is dark for the rest.
pub open spec fn status_color(attempt: AttemptView, elapsed_ms: u64) -> Rgb {
    let greens = count_of(attempt.states, LetterState::Correct);
    let yellows = count_of(attempt.states, LetterState::Present);
    let cycle = 3 * BLINK_MS as int;
    let at = elapsed_ms as int % cycle;
    if attempt.is_win {
        green()
    } else if greens == 0 {
        if yellows > 0 {
            amber()
        } else {
            red()
        }
    } else if at < cycle * greens / (attempt.states.len() as int) {
        green()
    } else if at < cycle * greens / (attempt.states.len() as int) + cycle * yellows / (
    attempt.states.len() as int) {
        gold()
    } else {
        black()
    }
}

/// Counts the judgements of one kind.
fn count_states(states: &Vec<LetterState>, which: LetterState) -> (count: usize)
    ensures
        count == count_of(states@, which),
        count <= states@.len(),
{
    let mut count: usize = 0;
    let mut i: usize = 0;
    while i < states.len()
        invariant
            i <= states@.len(),
            count <= i,
            count == count_of(states@.take(i as int), which),
        decreases states@.len() - i,
    {
        assert(states@.take(i + 1).drop_last() =~= states@.take(i as int));
        if states[i] == which {
            count += 1;
        }
        i += 1;
    }
    assert(states@.take(states@.len() as int) =~= states@);
    count
}

/// The colour of an attempt's key after `elapsed_ms`.
pub fn attempt_status_color(attempt: &Attempt, elapsed_ms: u64) -> (color: Rgb)
    ensures
        color == status_color(attempt@, elapsed_ms),
{
    if attempt.is_win {
        return Rgb { r: 0, g: 255, b: 0 };
    }
    let greens = count_states(&attempt.states, LetterState::Correct);
    let yellows = count_states(&attempt.states, LetterState::Present);
    if greens == 0 {
        if yellows > 0 {
            return Rgb { r: 255, g: 140, b: 0 };
        }
        return Rgb { r: 255, g: 0, b: 0 };
    }
    let total: u128 = attempt.states.len() as u128;
    let cycle: u128 = 3 * (BLINK_MS as u128);
    let at: u128 = (elapsed_ms as u128) % cycle;
    let green_window: u128 = cycle * (greens as u128) / total;
    let yellow_window: u128 = cycle * (yellows as u128) / total;
    if at < green_window {
        Rgb { r: 0, g: 255, b: 0 }
    } else if at < green_window + yellow_window {
        Rgb { r: 255, g: 215, b: 0 }
    } else {
        Rgb { r: 0, g: 0, b: 0 }
    }
}

/// The letter of `word` whose key is dark after `elapsed_ms`, while the
/// word is spelled out on the keyboard.
pub open spec fn spelled_letter(word: Seq<char>, elapsed_ms: u64) -> Option<char> {
    if word.len() == 0 {
        None
    } else {
        match sequence_item(
            word.len() as u64,
            SEQ_STEP_MS,
            SEQ_OFF_MS,
            SEQ_PAUSE_MS,
            elapsed_ms,
        ) {
            Some(i) => Some(word[i as int]),
            None => None,
        }
    }
}

/// The letter of `word` whose key is dark after `elapsed_ms`, if any.
pub fn blink_sequence_char(word: &Vec<char>, elapsed_ms: u64) -> (letter: Option<char>)
    ensures
        letter == spelled_letter(word@, elapsed_ms),
{
    if word.len() == 0 {
        return None;
    }
    match sequence_reveal(word.len() as u64, SEQ_STEP_MS, SEQ_OFF_MS, SEQ_PAUSE_MS, elapsed_ms) {
        Some(i) => Some(word[i as usize]),
        None => None,
    }
}

/// The rank of the white that every letter key has until something else
/// is asked of it.
pub const RANK_BASELINE: u32 = 0;

/// The rank of the colours of the attempts' keys.
pub const RANK_STATUS: u32 = 4;

/// The rank of the blinking key of the current attempt.
pub const RANK_CURSOR: u32 = 5;

/// The rank of the key of the attempt that is looked at.
pub const RANK_SELECTED: u32 = 6;

/// The rank of the letters of the guess that is being typed.
pub const RANK_GUESS: u32 = 7;

/// The rank of the dark key that spells out a word.
pub const RANK_SPELLING: u32 = 8;

/// A request that always shows.
pub open spec fn still(key: char, color: Rgb, priority: u32) -> HighlightRequest {
    HighlightRequest { key, paint: Paint::Color(color), priority, animation: Animation::Static }
}

/// The requests for the keys `1` to `6`: each attempt's key in the
/// attempt's status colour, the keys of attempts to come dark.
pub open spec fn status_requests(attempts: Seq<AttemptView>, elapsed_ms: u64) -> Seq<
    HighlightRequest,
> {
    Seq::new(
        MAX_ATTEMPTS as nat,
        |i: int|
            still(
                attempt_key(i),
                if i < attempts.len() {
                    status_color(attempts[i], elapsed_ms)
                } else {
                    black()
                },
                RANK_STATUS,
            ),
    )
}

/// The request that lets the key of the current attempt blink white, as
/// long as an attempt is left.
pub open spec fn cursor_requests(made: nat) -> Seq<HighlightRequest> {
    if made < MAX_ATTEMPTS {
        seq![
            HighlightRequest {
                key: attempt_key(made as int),
                paint: Paint::Color(white()),
                priority: RANK_CURSOR,
                animation: Animation::Blink { period_ms: BLINK_MS },
            },
        ]
    } else {
        Seq::empty()
    }
}

/// The request that shows the key of the attempt that is looked at in
/// white.
pub open spec fn selection_requests(selected: nat, made: nat) -> Seq<HighlightRequest> {
    if selected < made {
        seq![still(attempt_key(selected as int), white(), RANK_SELECTED)]
    } else {
        Seq::empty()
    }
}

/// The number of letters of an attempt that have a judgement.
pub open spec fn judged_len(attempt: AttemptView) -> nat {
    if attempt.guess.len() <= attempt.states.len() {
        attempt.guess.len()
    } else {
        attempt.states.len()
    }
}

/// The requests that show each letter of an attempt in the colour of its
/// judgement, ranked by the judgement.
pub open spec fn judged_requests(attempt: AttemptView) -> Seq<HighlightRequest> {
    Seq::new(
        judged_len(attempt),
        |i: int|
            still(
                attempt.guess[i],
                state_color(attempt.states[i]),
                color_rank(state_color(attempt.states[i])) as u32,
            ),
    )
}

/// The requests that show every letter key from `a` to `z` in white.
pub open spec fn baseline_requests() -> Seq<HighlightRequest> {
    Seq::new(26, |i: int| still((97 + i) as u8 as char, white(), RANK_BASELINE))
}

/// The requests that show the letters of the guess that is being typed in
/// blue.
pub open spec fn guess_requests(guess: Seq<char>) -> Seq<HighlightRequest> {
    Seq::new(guess.len(), |i: int| still(guess[i], blue(), RANK_GUESS))
}

/// The request that lets the key of letter `position` of a word of
/// `step_count` letters go dark in its turn.
pub open spec fn spelling_step(key: char, position: u64, step_count: u64) -> HighlightRequest {
    HighlightRequest {
        key,
        paint: Paint::Color(black()),
        priority: RANK_SPELLING,
        animation: Animation::SequenceReveal {
            position,
            step_count,
            step_ms: SEQ_STEP_MS,
            on_ms: SEQ_OFF_MS,
            pause_ms: SEQ_PAUSE_MS,
        },
    }
}

/// The requests that spell out a word: the key of each letter goes dark in
/// its turn.
pub open spec fn spelling_requests(word: Seq<char>) -> Seq<HighlightRequest> {
    Seq::new(word.len(), |i: int| spelling_step(word[i], i as u64, word.len() as u64))
}

/// The word that is spelled out: the attempt that is looked at, else the
/// guess that is being typed, else the last attempt.
pub open spec fn spelled_word(
    attempts: Seq<AttemptView>,
    current_guess: Seq<char>,
    selected: nat,
) -> Seq<char> {
    if selected < attempts.len() {
        attempts[selected as int].guess
    } else if current_guess.len() > 0 {
        current_guess
    } else if attempts.len() > 0 {
        attempts.last().guess
    } else {
        Seq::empty()
    }
}

/// The requests for the letter keys. While an attempt is looked at, its
/// judgements. Else white on every letter, the judgements of the last
/// attempt over that, and the guess that is being typed over those.
pub open spec fn letter_requests(
    attempts: Seq<AttemptView>,
    current_guess: Seq<char>,
    selected: nat,
) -> Seq<HighlightRequest> {
    if selected < attempts.len() {
        judged_requests(attempts[selected as int])
    } else {
        baseline_requests() + (if attempts.len() > 0 {
            judged_requests(attempts.last())
        } else {
            Seq::empty()
        }) + guess_requests(current_guess)
    }
}

/// What the game asks of the keyboard after `elapsed_ms`.
pub open spec fn keyboard_requests(
    attempts: Seq<AttemptView>,
    current_guess: Seq<char>,
    selected: nat,
    elapsed_ms: u64,
) -> Seq<HighlightRequest> {
    status_requests(attempts, elapsed_ms) + cursor_requests(attempts.len()) + selection_requests(
        selected,
        attempts.len(),
    ) + letter_requests(attempts, current_guess, selected) + spelling_requests(
        spelled_word(attempts, current_guess, selected),
    )
}

/// Whether every request's animation makes sense.
pub open spec fn all_valid(requests: Seq<HighlightRequest>) -> bool {
    forall|i: int| 0 <= i < requests.len() ==> (#[trigger] requests[i]).animation.wf()
}

/// Moves the requests of `part` behind those of `all`.
fn add_requests(all: &mut Vec<HighlightRequest>, part: Vec<HighlightRequest>)
    requires
        all_valid(old(all)@),
        all_valid(part@),
    ensures
        final(all)@ == old(all)@ + part@,
        all_valid(final(all)@),
{
    let mut part = part;
    all.append(&mut part);
}

fn still_request(key: char, color: Rgb, priority: u32) -> (request: HighlightRequest)
    ensures
        request == still(key, color, priority),
{
    HighlightRequest { key, paint: Paint::Color(color), priority, animation: Animation::Static }
}

fn add_status_requests(
    all: &mut Vec<HighlightRequest>,
    attempts: &Vec<Attempt>,
    elapsed_ms: u64,
)
    requires
        all_valid(old(all)@),
    ensures
        final(all)@ == old(all)@ + status_requests(attempt_views(attempts@), elapsed_ms),
        all_valid(final(all)@),
{
    let ghost wanted = status_requests(attempt_views(attempts@), elapsed_ms);
    let mut i: usize = 0;
    assert(all@ =~= old(all)@ + wanted.take(0));
    while i < MAX_ATTEMPTS
        invariant
            i <= MAX_ATTEMPTS,
            wanted == status_requests(attempt_views(attempts@), elapsed_ms),
            all@ == old(all)@ + wanted.take(i as int),
            all_valid(all@),
        decreases MAX_ATTEMPTS - i,
    {
        let color = if i < attempts.len() {
            attempt_status_color(&attempts[i], elapsed_ms)
        } else {
            Rgb { r: 0, g: 0, b: 0 }
        };
        all.push(still_request(attempt_key_char(i), color, RANK_STATUS));
        i += 1;
        assert(all@ =~= old(all)@ + wanted.take(i as int));
    }
    assert(wanted.take(MAX_ATTEMPTS as int) =~= wanted);
}

fn add_judged_requests(all: &mut Vec<HighlightRequest>, attempt: &Attempt)
    requires
        all_valid(old(all)@),
    ensures
        final(all)@ == old(all)@ + judged_requests(attempt@),
        all_valid(final(all)@),
{
    let ghost wanted = judged_requests(attempt@);
    let n: usize = if attempt.guess.len() <= attempt.states.len() {
        attempt.guess.len()
    } else {
        attempt.states.len()
    };
    let mut i: usize = 0;
    assert(all@ =~= old(all)@ + wanted.take(0));
    while i < n
        invariant
            i <= n,
            n == judged_len(attempt@),
            wanted == judged_requests(attempt@),
            all@ == old(all)@ + wanted.take(i as int),
            all_valid(all@),
        decreases n - i,
    {
        let color = match attempt.states[i] {
            LetterState::Correct => Rgb { r: 0, g: 255, b: 0 },
            LetterState::Present => Rgb { r: 255, g: 215, b: 0 },
            LetterState::Absent => Rgb { r: 255, g: 0, b: 0 },
        };
        all.push(still_request(attempt.guess[i], color, priority(color) as u32));
        i += 1;
        assert(all@ =~= old(all)@ + wanted.take(i as int));
    }
    assert(wanted.take(n as int) =~= wanted);
}

fn add_baseline_requests(all: &mut Vec<HighlightRequest>)
    requires
        all_valid(old(all)@),
    ensures
        final(all)@ == old(all)@ + baseline_requests(),
        all_valid(final(all)@),
{
    let ghost wanted = baseline_requests();
    let mut i: u8 = 0;
    assert(all@ =~= old(all)@ + wanted.take(0));
    while i < 26
        invariant
            i <= 26,
            wanted == baseline_requests(),
            all@ == old(all)@ + wanted.take(i as int),
            all_valid(all@),
        decreases 26 - i,
    {
        let key = (97u8 + i) as char;
        all.push(still_request(key, Rgb { r: 255, g: 255, b: 255 }, RANK_BASELINE));
        i += 1;
        assert(all@ =~= old(all)@ + wanted.take(i as int));
    }
    assert(wanted.take(26) =~= wanted);
}

fn add_guess_requests(all: &mut Vec<HighlightRequest>, guess: &Vec<char>)
    requires
        all_valid(old(all)@),
    ensures
        final(all)@ == old(all)@ + guess_requests(guess@),
        all_valid(final(all)@),
{
    let ghost wanted = guess_requests(guess@);
    let mut i: usize = 0;
    assert(all@ =~= old(all)@ + wanted.take(0));
    while i < guess.len()
        invariant
            i <= guess@.len(),
            wanted == guess_requests(guess@),
            all@ == old(all)@ + wanted.take(i as int),
            all_valid(all@),
        decreases guess@.len() - i,
    {
        all.push(still_request(guess[i], Rgb { r: 80, g: 140, b: 255 }, RANK_GUESS));
        i += 1;
        assert(all@ =~= old(all)@ + wanted.take(i as int));
    }
    assert(wanted.take(guess@.len() as int) =~= wanted);
}

fn add_spelling_requests(all: &mut Vec<HighlightRequest>, word: &Vec<char>)
    requires
        all_valid(old(all)@),
    ensures
        final(all)@ == old(all)@ + spelling_requests(word@),
        all_valid(final(all)@),
{
    let ghost wanted = spelling_requests(word@);
    let mut i: usize = 0;
    assert(all@ =~= old(all)@ + wanted.take(0));
    while i < word.len()
        invariant
            i <= word@.len(),
            wanted == spelling_requests(word@),
            all@ == old(all)@ + wanted.take(i as int),
            all_valid(all@),
        decreases word@.len() - i,
    {
        let request = HighlightRequest {
            key: word[i],
            paint: Paint::Color(Rgb { r: 0, g: 0, b: 0 }),
            priority: RANK_SPELLING,
            animation: Animation::SequenceReveal {
                position: i as u64,
                step_count: word.len() as u64,
                step_ms: SEQ_STEP_MS,
                on_ms: SEQ_OFF_MS,
                pause_ms: SEQ_PAUSE_MS,
            },
        };
        assert(request == wanted[i as int]);
        all.push(request);
        i += 1;
        assert(all@ =~= old(all)@ + wanted.take(i as int));
    }
    assert(wanted.take(word@.len() as int) =~= wanted);
}

/// Collects what the game asks of the keyboard after `elapsed_ms`.
pub fn collect_requests(
    attempts: &Vec<Attempt>,
    current_guess: &Vec<char>,
    selected_attempt: usize,
    elapsed_ms: u64,
) -> (requests: Vec<HighlightRequest>)
    ensures
        requests@ == keyboard_requests(
            attempt_views(attempts@),
            current_guess@,
            selected_attempt as nat,
            elapsed_ms,
        ),
        all_valid(requests@),
{
    let ghost views = attempt_views(attempts@);
    let made: usize = attempts.len();
    let mut all: Vec<HighlightRequest> = Vec::new();
    add_status_requests(&mut all, attempts, elapsed_ms);
    assert(all@ =~= status_requests(views, elapsed_ms));

    let ghost before_cursor = all@;
    if made < MAX_ATTEMPTS {
        all.push(
            HighlightRequest {
                key: attempt_key_char(made),
                paint: Paint::Color(Rgb { r: 255, g: 255, b: 255 }),
                priority: RANK_CURSOR,
                animation: Animation::Blink { period_ms: BLINK_MS },
            },
        );
    }
    assert(all@ =~= before_cursor + cursor_requests(made as nat));

    let ghost before_selection = all@;
    if selected_attempt < made {
        all.push(
            still_request(
                attempt_key_char(selected_attempt),
                Rgb { r: 255, g: 255, b: 255 },
                RANK_SELECTED,
            ),
        );
    }
    assert(all@ =~= before_selection + selection_requests(selected_attempt as nat, made as nat));

    let ghost before_letters = all@;
    if selected_attempt < made {
        assert(views[selected_attempt as int] == attempts@[selected_attempt as int]@);
        add_judged_requests(&mut all, &attempts[selected_attempt]);
    } else {
        add_baseline_requests(&mut all);
        let ghost with_baseline = all@;
        if made > 0 {
            assert(views.last() == attempts@[made - 1]@);
            add_judged_requests(&mut all, &attempts[made - 1]);
        }
        assert(all@ =~= with_baseline + (if made > 0 {
            judged_requests(views.last())
        } else {
            Seq::empty()
        }));
        add_guess_requests(&mut all, current_guess);
    }
    assert(all@ =~= before_letters + letter_requests(
        views,
        current_guess@,
        selected_attempt as nat,
    ));

    let ghost before_spelling = all@;
    if selected_attempt < made {
        add_spelling_requests(&mut all, &attempts[selected_attempt].guess);
    } else if current_guess.len() > 0 {
        add_spelling_requests(&mut all, current_guess);
    } else if made > 0 {
        add_spelling_requests(&mut all, &attempts[made - 1].guess);
    }
    assert(all@ =~= before_spelling + spelling_requests(
        spelled_word(views, current_guess@, selected_attempt as nat),
    ));
    all
}

/// The frame that the game shows on the keyboard after `elapsed_ms`.
pub fn build_keyboard_leds(
    keyboard: &Keyboard,
    attempts: &Vec<Attempt>,
    current_guess: &Vec<char>,
    selected_attempt: usize,
    elapsed_ms: u64,
) -> (frame: Vec<LedColor>)
    ensures
        frame@ == frame_for(
            keyboard_requests(
                attempt_views(attempts@),
                current_guess@,
                selected_attempt as nat,
                elapsed_ms,
            ),
            elapsed_ms,
            keyboard@.keys,
        ),
{
    let requests = collect_requests(attempts, current_guess, selected_attempt, elapsed_ms);
    compose(requests.as_slice(), elapsed_ms, keyboard.keys())
}

/// What the game tells the player.
#[derive(Clone, Copy, Debug, PartialEq, Eq, Structural)]
pub enum Notice {
    /// The guess is shorter or longer than a guess may be.
    GuessLength,
}

/// A game in progress.
#[derive(Clone, Debug, PartialEq, Eq)]
pub struct Game {
    pub secret: Vec<char>,
    pub attempts: Vec<Attempt>,
    pub current_guess: Vec<char>,
    /// The attempt that is looked at; the number of attempts while the
    /// guess that is being typed is.
    pub selected_attempt: usize,
    pub message: Option<Notice>,
}

/// Whether the press of `key` ends the game.
pub open spec fn quits(key: Key) -> bool {
    key == Key::Escape || key == Key::Interrupt
}

impl Game {
    /// A game with nothing guessed yet.
    pub fn new(secret: Vec<char>) -> (game: Game)
        ensures
            game.secret == secret,
            game.attempts@.len() == 0,
            game.current_guess@.len() == 0,
            game.selected_attempt == 0,
            game.message is None,
    {
        Game {
            secret,
            attempts: Vec::new(),
            current_guess: Vec::new(),
            selected_attempt: 0,
            message: None,
        }
    }

    /// Whether the guess that is being typed is looked at, and not an
    /// attempt that was made.
    pub open spec fn at_guess(&self) -> bool {
        self.selected_attempt == self.attempts@.len()
    }

    /// Whether the guess that is being typed can be handed in.
    pub open spec fn can_submit(&self) -> bool {
        &&& self.at_guess()
        &&& MIN_LEN <= self.current_guess@.len() <= MAX_LEN
        &&& self.attempts@.len() < MAX_ATTEMPTS
    }

    /// Looks at the guess that is being typed if the attempt that was
    /// looked at is no more.
    pub fn clamp_selection(&mut self)
        ensures
            final(self).selected_attempt == (if old(self).selected_attempt > old(self).attempts@.len() {
                old(self).attempts@.len() as usize
            } else {
                old(self).selected_attempt
            }),
            final(self).secret == old(self).secret,
            final(self).attempts == old(self).attempts,
            final(self).current_guess == old(self).current_guess,
            final(self).message == old(self).message,
    {
        if self.selected_attempt > self.attempts.len() {
            self.selected_attempt = self.attempts.len();
        }
    }

    /// Hands in the guess that is being typed: judges it, and begins a new
    /// guess.
    pub fn submit(&mut self)
        requires
            old(self).can_submit(),
        ensures
            final(self).secret == old(self).secret,
            final(self).attempts@.len() == old(self).attempts@.len() + 1,
            final(self).attempts@.drop_last() == old(self).attempts@,
            final(self).attempts@.last().guess@ == old(self).current_guess@,
            final(self).attempts@.last().is_win == (old(self).current_guess@ == old(self).secret@),
            final(self).attempts@.last().states@.len() == old(self).current_guess@.len(),
            forall|i: int|
                0 <= i < old(self).current_guess@.len() ==> final(self).attempts@.last().states@[i]
                    == letter_state(old(self).secret@, old(self).current_guess@, i),
            final(self).current_guess@.len() == 0,
            final(self).message is None,
            final(self).at_guess(),
    {
        let states = evaluate_guess(&self.secret, &self.current_guess);
        let is_win = same_text(&self.current_guess, &self.secret);
        let mut guess: Vec<char> = Vec::new();
        let ghost typed = self.current_guess@;
        guess.append(&mut self.current_guess);
        assert(guess@ =~= typed);
        let ghost before = self.attempts@;
        self.attempts.push(Attempt { guess, states, is_win });
        assert(self.attempts@.drop_last() =~= before);
        self.message = None;
        self.selected_attempt = self.attempts.len();
    }

    /// Takes a key press. Returns whether the game is to end.
    ///
    /// Escape and control-c end the game. The arrows move between the
    /// attempts and the guess that is being typed. The other keys count
    /// only while the guess is looked at: a letter is added to it, in lower
    /// case, as long as it is not full; backspace takes its last letter;
    /// enter hands it in if it has a length that a guess may have and an
    /// attempt is left, and says so if its length is wrong.
    pub fn press(&mut self, key: Key) -> (quit: bool)
        ensures
            quit == quits(key),
            final(self).secret == old(self).secret,
            match key {
                Key::Left => {
                    &&& final(self).selected_attempt == (if old(self).selected_attempt > 0 {
                        (old(self).selected_attempt - 1) as usize
                    } else {
                        0
                    })
                    &&& final(self).attempts == old(self).attempts
                    &&& final(self).current_guess == old(self).current_guess
                    &&& final(self).message == old(self).message
                },
                Key::Right => {
                    &&& final(self).selected_attempt == (if old(self).selected_attempt < old(self).attempts@.len() {
                        (old(self).selected_attempt + 1) as usize
                    } else {
                        old(self).selected_attempt
                    })
                    &&& final(self).attempts == old(self).attempts
                    &&& final(self).current_guess == old(self).current_guess
                    &&& final(self).message == old(self).message
                },
                Key::Backspace => {
                    &&& final(self).current_guess@ == (if old(self).at_guess() && old(self).current_guess@.len() > 0 {
                        old(self).current_guess@.drop_last()
                    } else {
                        old(self).current_guess@
                    })
                    &&& final(self).attempts == old(self).attempts
                    &&& final(self).selected_attempt == old(self).selected_attempt
                    &&& final(self).message == old(self).message
                },
                Key::Char(c) => {
                    &&& final(self).current_guess@ == (if old(self).at_guess() && is_letter(c)
                        && old(self).current_guess@.len() < MAX_LEN {
                        old(self).current_guess@.push(lower(c))
                    } else {
                        old(self).current_guess@
                    })
                    &&& final(self).attempts == old(self).attempts
                    &&& final(self).selected_attempt == old(self).selected_attempt
                    &&& final(self).message == old(self).message
                },
                Key::Enter => if old(self).can_submit() {
                    &&& final(self).attempts@.len() == old(self).attempts@.len() + 1
                    &&& final(self).attempts@.drop_last() == old(self).attempts@
                    &&& final(self).attempts@.last().guess@ == old(self).current_guess@
                    &&& final(self).attempts@.last().is_win == (old(self).current_guess@ == old(self).secret@)
                    &&& final(self).attempts@.last().states@.len() == old(self).current_guess@.len()
                    &&& forall|i: int|
                        0 <= i < old(self).current_guess@.len() ==> final(self).attempts@.last().states@[i] == letter_state(
                            old(self).secret@,
                            old(self).current_guess@,
                            i,
                        )
                    &&& final(self).current_guess@.len() == 0
                    &&& final(self).message is None
                    &&& final(self).at_guess()
                } else {
                    &&& final(self).attempts == old(self).attempts
                    &&& final(self).current_guess == old(self).current_guess
                    &&& final(self).selected_attempt == old(self).selected_attempt
                    &&& final(self).message == (if old(self).at_guess() && !(MIN_LEN <= old(self).current_guess@.len() <= MAX_LEN) {
                        Some(Notice::GuessLength)
                    } else {
                        old(self).message
                    })
                },
                _ => {
                    &&& final(self).attempts == old(self).attempts
                    &&& final(self).current_guess == old(self).current_guess
                    &&& final(self).selected_attempt == old(self).selected_attempt
                    &&& final(self).message == old(self).message
                },
            },
    {
        match key {
            Key::Escape => true,
            Key::Interrupt => true,
            Key::Left => {
                if self.selected_attempt > 0 {
                    self.selected_attempt -= 1;
                }
                false
            },
            Key::Right => {
                if self.selected_attempt < self.attempts.len() {
                    self.selected_attempt += 1;
                }
                false
            },
            Key::Backspace => {
                if self.selected_attempt == self.attempts.len() {
                    let _ = self.current_guess.pop();
                }
                false
            },
            Key::Enter => {
                if self.selected_attempt == self.attempts.len() {
                    if self.current_guess.len() < MIN_LEN || self.current_guess.len() > MAX_LEN {
                        self.message = Some(Notice::GuessLength);
                    } else if self.attempts.len() < MAX_ATTEMPTS {
                        self.submit();
                    }
                }
                false
            },
            Key::Char(c) => {
                if self.selected_attempt == self.attempts.len() && char_is_letter(c)
                    && self.current_guess.len() < MAX_LEN {
                    self.current_guess.push(char_lower(c));
                }
                false
            },
            Key::Other => false,
        }
    }
}

/// Shows the end of a game: the space bar, which ends it, in gold. Returns
/// the bytes of the packet that shows it, if the keyboard has a space bar.
pub fn set_finish_leds(keyboard: &mut Keyboard) -> (bytes: Option<Vec<u8>>)
    ensures
        final(keyboard)@.device_index == old(keyboard)@.device_index,
        final(keyboard)@.device_name == old(keyboard)@.device_name,
        final(keyboard)@.keys == old(keyboard)@.keys,
        match bytes {
            Some(bytes) => old(keyboard)@.keys.contains_key(' ') && final(keyboard)@.frame
                == crate::frame::frame_of(
                seq![LedColor { id: old(keyboard)@.keys[' '], r: 255, g: 215, b: 0 }],
                old(keyboard)@.frame.len(),
            ) && bytes@ == crate::session::update_packet(
                final(keyboard)@.device_index,
                final(keyboard)@.frame,
            ),
            None => !old(keyboard)@.keys.contains_key(' ') && final(keyboard)@ == old(keyboard)@,
        },
{
    assert(crate::text::upper(' ') == ' ');
    match keyboard.led_for_char(' ') {
        Some(id) => {
            let mut leds: Vec<LedColor> = Vec::new();
            leds.push(LedColor { id, r: 255, g: 215, b: 0 });
            assert(leds@ =~= seq![LedColor { id, r: 255, g: 215, b: 0 }]);
            Some(keyboard.set_leds(leds.as_slice()))
        },
        None => None,
    }
}

/// Picks the secret word of a game from `words`. There is none to pick
/// exactly when the list is empty.
pub fn choose_secret(words: &[&'static str], rng: &mut ThreadRng) -> (secret: Option<Vec<char>>)
    ensures
        secret is None <==> words@.len() == 0,
        secret matches Some(text) ==> exists|i: int|
            0 <= i < words@.len() && text@ == (#[trigger] words@[i])@,
{
    match choose_one(words, rng) {
        Some(word) => Some(chars_of(word)),
        None => None,
    }
}

/// The text that writes the letter `ch`, in upper case and with a blank on
/// either side, on the background `color`.
pub open spec fn tile(color: Rgb, ch: char) -> Seq<char> {
    "\x1b[48;2;"@ + decimal(color.r as nat) + ";"@ + decimal(color.g as nat) + ";"@ + decimal(
        color.b as nat,
    ) + "m "@ + seq![upper(ch)] + " \x1b[0m"@
}

/// The background on which a judged letter is written on the screen.
pub open spec fn tile_color(state: LetterState) -> Rgb {
    match state {
        LetterState::Correct => Rgb { r: 0, g: 150, b: 70 },
        LetterState::Present => Rgb { r: 180, g: 130, b: 0 },
        LetterState::Absent => Rgb { r: 90, g: 20, b: 20 },
    }
}

/// The background on which the letters of the guess that is being typed
/// are written.
pub open spec fn typing_color() -> Rgb {
    Rgb { r: 40, g: 40, b: 40 }
}

/// The tiles of the first `n` judged letters of an attempt.
pub open spec fn attempt_tiles(attempt: AttemptView, n: int) -> Seq<char>
    decreases n,
{
    if n <= 0 {
        Seq::empty()
    } else {
        attempt_tiles(attempt, n - 1) + tile(
            tile_color(attempt.states[n - 1]),
            attempt.guess[n - 1],
        )
    }
}

/// The tiles of the first `n` letters of a guess that is being typed.
pub open spec fn guess_tiles(guess: Seq<char>, n: int) -> Seq<char>
    decreases n,
{
    if n <= 0 {
        Seq::empty()
    } else {
        guess_tiles(guess, n - 1) + tile(typing_color(), guess[n - 1])
    }
}

/// The text that stands for a guess that is being typed: its tiles, or an
/// invitation to type while it is empty.
pub open spec fn guess_text(guess: Seq<char>) -> Seq<char> {
    if guess.len() == 0 {
        "(type a guess)"@
    } else {
        guess_tiles(guess, guess.len() as int)
    }
}

/// Writes the tile of a letter behind `out`.
fn push_tile(out: &mut Vec<char>, color: Rgb, ch: char)
    ensures
        final(out)@ == old(out)@ + tile(color, ch),
{
    push_text(out, "\x1b[48;2;");
    push_decimal(out, color.r);
    push_text(out, ";");
    push_decimal(out, color.g);
    push_text(out, ";");
    push_decimal(out, color.b);
    push_text(out, "m ");
    out.push(char_upper(ch));
    push_text(out, " \x1b[0m");
    assert(out@ =~= old(out)@ + tile(color, ch));
}

/// Writes an attempt as text for the terminal: each judged letter on the
/// background of its judgement.
pub fn render_attempt(attempt: &Attempt) -> (row: Vec<char>)
    ensures
        row@ == attempt_tiles(attempt@, judged_len(attempt@) as int),
{
    let mut row: Vec<char> = Vec::new();
    let n: usize = if attempt.guess.len() <= attempt.states.len() {
        attempt.guess.len()
    } else {
        attempt.states.len()
    };
    let mut i: usize = 0;
    while i < n
        invariant
            i <= n,
            n == judged_len(attempt@),
            row@ == attempt_tiles(attempt@, i as int),
        decreases n - i,
    {
        let color = match attempt.states[i] {
            LetterState::Correct => Rgb { r: 0, g: 150, b: 70 },
            LetterState::Present => Rgb { r: 180, g: 130, b: 0 },
            LetterState::Absent => Rgb { r: 90, g: 20, b: 20 },
        };
        push_tile(&mut row, color, attempt.guess[i]);
        i += 1;
    }
    row
}

/// Writes the guess that is being typed as text for the terminal.
pub fn render_current_guess(guess: &Vec<char>) -> (row: Vec<char>)
    ensures
        row@ == guess_text(guess@),
{
    let mut row: Vec<char> = Vec::new();
    if guess.len() == 0 {
        push_text(&mut row, "(type a guess)");
        assert(row@ =~= "(type a guess)"@);
        return row;
    }
    let mut i: usize = 0;
    while i < guess.len()
        invariant
            i <= guess@.len(),
            row@ == guess_tiles(guess@, i as int),
        decreases guess@.len() - i,
    {
        push_tile(&mut row, Rgb { r: 40, g: 40, b: 40 }, guess[i]);
        i += 1;
    }
    row
}

} // verus!
