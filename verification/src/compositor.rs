//! The compositor: from the highlight requests of one tick to one colour
//! for each LED that any of them lights.
//!
//! A request names a key, a colour or an urgency, a priority and an
//! animation. A request whose key has no LED, or whose animation is in its
//! dark phase, takes no part. Among the requests for one LED the one with the
//! highest priority wins, and among equals the last.

use vstd::prelude::*;
use crate::directory::KeyMap;
use crate::frame::{LedColor, Rgb};
use crate::text::{char_upper, upper};

verus! {

/// The urgency that stands for 1: urgencies are counted in thousandths.
pub const URGENCY_FULL: u32 = 1000;

/// Where green has turned yellow.
pub const URGENCY_YELLOW: u32 = 330;

/// Where yellow has turned orange.
pub const URGENCY_ORANGE: u32 = 660;

pub open spec fn green() -> Rgb {
    Rgb { r: 0, g: 255, b: 0 }
}

pub open spec fn yellow() -> Rgb {
    Rgb { r: 255, g: 255, b: 0 }
}

pub open spec fn orange() -> Rgb {
    Rgb { r: 255, g: 128, b: 0 }
}

pub open spec fn red() -> Rgb {
    Rgb { r: 255, g: 0, b: 0 }
}

/// The value `n/d` of the way from `from` to `to`, rounded down.
pub open spec fn blend(from: int, to: int, n: int, d: int) -> int {
    (from * d + (to - from) * n) / d
}

/// The colour `n/d` of the way from `from` to `to`, channel by channel.
pub open spec fn mix(from: Rgb, to: Rgb, n: int, d: int) -> Rgb {
    Rgb {
        r: blend(from.r as int, to.r as int, n, d) as u8,
        g: blend(from.g as int, to.g as int, n, d) as u8,
        b: blend(from.b as int, to.b as int, n, d) as u8,
    }
}

/// The colour of an urgency given in thousandths, anything above a thousand
/// counting as a thousand: from green to yellow over the first 330, from
/// yellow to orange over the next 330, from orange to red over the last 340.
pub open spec fn gradient(urgency: u32) -> Rgb {
    let u = if urgency > URGENCY_FULL {
        URGENCY_FULL as int
    } else {
        urgency as int
    };
    if u < 330 {
        mix(green(), yellow(), u, 330)
    } else if u < 660 {
        mix(yellow(), orange(), u - 330, 330)
    } else {
        mix(orange(), red(), u - 660, 340)
    }
}

/// A blend lies between its two ends.
pub proof fn lemma_blend_between(from: int, to: int, n: int, d: int)
    requires
        0 <= n <= d,
        0 < d,
    ensures
        from <= to ==> from <= blend(from, to, n, d) <= to,
        to <= from ==> to <= blend(from, to, n, d) <= from,
{
    let v = from * d + (to - from) * n;
    if from <= to {
        assert(from * d <= v <= to * d) by (nonlinear_arith)
            requires
                v == from * d + (to - from) * n,
                0 <= n <= d,
                from <= to,
        ;
        assert(from <= v / d <= to) by (nonlinear_arith)
            requires
                from * d <= v <= to * d,
                0 < d,
        ;
    }
    if to <= from {
        assert(to * d <= v <= from * d) by (nonlinear_arith)
            requires
                v == from * d + (to - from) * n,
                0 <= n <= d,
                to <= from,
        ;
        assert(to <= v / d <= from) by (nonlinear_arith)
            requires
                to * d <= v <= from * d,
                0 < d,
        ;
    }
}

/// The green channel of the gradient at `u` thousandths, `u` at most 1000.
pub open spec fn gradient_green(u: int) -> int {
    if u < 330 {
        255
    } else if u < 660 {
        (126060 - 127 * u) / 330
    } else {
        (128000 - 128 * u) / 340
    }
}

/// The red channel of the gradient at `u` thousandths, `u` at most 1000.
pub open spec fn gradient_red(u: int) -> int {
    if u < 330 {
        255 * u / 330
    } else {
        255
    }
}

/// The red and green channels of the gradient in closed form.
proof fn lemma_gradient_channels(urgency: u32)
    ensures
        gradient(urgency).r == gradient_red(
            if urgency > URGENCY_FULL {
                URGENCY_FULL as int
            } else {
                urgency as int
            },
        ),
        gradient(urgency).g == gradient_green(
            if urgency > URGENCY_FULL {
                URGENCY_FULL as int
            } else {
                urgency as int
            },
        ),
{
    let u = if urgency > URGENCY_FULL {
        URGENCY_FULL as int
    } else {
        urgency as int
    };
    if u < 330 {
        lemma_blend_between(255, 255, u, 330);
        lemma_blend_between(0, 255, u, 330);
    } else if u < 660 {
        lemma_blend_between(255, 128, u - 330, 330);
        assert(255 * 330 + (128 - 255) * (u - 330) == 126060 - 127 * u);
    } else {
        lemma_blend_between(128, 0, u - 660, 340);
        assert(128 * 340 + (0 - 128) * (u - 660) == 128000 - 128 * u);
    }
}

/// No urgency is green, full urgency is red, and more than full is full.
pub proof fn lemma_gradient_ends(urgency: u32)
    ensures
        gradient(0) == green(),
        gradient(URGENCY_FULL) == red(),
        urgency >= URGENCY_FULL ==> gradient(urgency) == red(),
{
}

/// As urgency grows the colour moves from green towards red and never back:
/// red never falls, green never rises, and there is no blue.
pub proof fn lemma_gradient_monotone(low: u32, high: u32)
    requires
        low <= high,
    ensures
        gradient(low).r <= gradient(high).r,
        gradient(low).g >= gradient(high).g,
        gradient(low).b == 0,
        gradient(high).b == 0,
{
    lemma_gradient_channels(low);
    lemma_gradient_channels(high);
}

/// The gradient has no jumps: one thousandth more urgency moves each channel
/// by one step at most.
pub proof fn lemma_gradient_continuous(urgency: u32)
    requires
        urgency < u32::MAX,
    ensures
        gradient(urgency).r <= gradient((urgency + 1) as u32).r <= gradient(urgency).r + 1,
        gradient(urgency).g - 1 <= gradient((urgency + 1) as u32).g <= gradient(urgency).g,
{
    lemma_gradient_channels(urgency);
    lemma_gradient_channels((urgency + 1) as u32);
}

/// One channel `n/d` of the way from `from` to `to`, rounded down.
pub fn blend_channel(from: u8, to: u8, n: u32, d: u32) -> (v: u8)
    requires
        0 < d,
        n <= d,
    ensures
        v == blend(from as int, to as int, n as int, d as int),
{
    proof {
        lemma_blend_between(from as int, to as int, n as int, d as int);
    }
    let a: u64 = from as u64;
    let b: u64 = to as u64;
    let n: u64 = n as u64;
    let d: u64 = d as u64;
    assert(a * d <= 255 * 0xFFFF_FFFF && b * d <= 255 * 0xFFFF_FFFF) by (nonlinear_arith)
        requires
            a <= 255,
            b <= 255,
            d <= 0xFFFF_FFFF,
    ;
    if from <= to {
        assert((b - a) * n <= (b - a) * d) by (nonlinear_arith)
            requires
                n <= d,
                a <= b,
        ;
        assert((b - a) * d + a * d == b * d) by (nonlinear_arith);
        ((a * d + (b - a) * n) / d) as u8
    } else {
        assert((a - b) * n <= (a - b) * d) by (nonlinear_arith)
            requires
                n <= d,
                b <= a,
        ;
        assert((a - b) * d + b * d == a * d) by (nonlinear_arith);
        assert(a * d - (a - b) * n == a * d + (b - a) * n) by (nonlinear_arith);
        ((a * d - (a - b) * n) / d) as u8
    }
}

/// The colour `n/d` of the way from `start` to `end`.
pub fn lerp_color(start: Rgb, end: Rgb, n: u32, d: u32) -> (c: Rgb)
    requires
        0 < d,
        n <= d,
    ensures
        c == mix(start, end, n as int, d as int),
{
    Rgb {
        r: blend_channel(start.r, end.r, n, d),
        g: blend_channel(start.g, end.g, n, d),
        b: blend_channel(start.b, end.b, n, d),
    }
}

/// The colour of an urgency given in thousandths.
pub fn color_for_urgency(urgency: u32) -> (c: Rgb)
    ensures
        c == gradient(urgency),
{
    let u: u32 = if urgency > URGENCY_FULL {
        URGENCY_FULL
    } else {
        urgency
    };
    let green = Rgb { r: 0, g: 255, b: 0 };
    let yellow = Rgb { r: 255, g: 255, b: 0 };
    let orange = Rgb { r: 255, g: 128, b: 0 };
    let red = Rgb { r: 255, g: 0, b: 0 };
    if u < URGENCY_YELLOW {
        lerp_color(green, yellow, u, 330)
    } else if u < URGENCY_ORANGE {
        lerp_color(yellow, orange, u - 330, 330)
    } else {
        lerp_color(orange, red, u - 660, 340)
    }
}

/// Whether a light that is on for one period and off for the next, starting
/// on, is on after `elapsed_ms`.
pub open spec fn blink_phase(elapsed_ms: u64, period_ms: u64) -> bool {
    (elapsed_ms / period_ms) % 2 == 0
}

/// Whether a light that blinks with `period_ms` is on after `elapsed_ms`.
pub fn blink_on(elapsed_ms: u64, period_ms: u64) -> (on: bool)
    requires
        period_ms > 0,
    ensures
        on == blink_phase(elapsed_ms, period_ms),
{
    (elapsed_ms / period_ms) % 2 == 0
}

/// Which item of a sequence is shown after `elapsed_ms`.
///
/// The items are shown in turn, each for `on_ms` at the start of its step of
/// `step_ms`; behind the last step comes a pause of `pause_ms`, and then the
/// sequence starts again. Between the items and in the pause none is shown.
pub open spec fn sequence_item(
    step_count: u64,
    step_ms: u64,
    on_ms: u64,
    pause_ms: u64,
    elapsed_ms: u64,
) -> Option<u64> {
    let steps = step_count as int * step_ms as int;
    let at = elapsed_ms as int % (steps + pause_ms as int);
    if at < steps && at % (step_ms as int) < on_ms {
        Some((at / (step_ms as int)) as u64)
    } else {
        None
    }
}

/// Which item of a sequence is shown after `elapsed_ms`, if any.
pub fn sequence_reveal(
    step_count: u64,
    step_ms: u64,
    on_ms: u64,
    pause_ms: u64,
    elapsed_ms: u64,
) -> (item: Option<u64>)
    requires
        step_count > 0,
        step_ms > 0,
    ensures
        item == sequence_item(step_count, step_ms, on_ms, pause_ms, elapsed_ms),
        item matches Some(i) ==> i < step_count,
{
    let count: u128 = step_count as u128;
    let step: u128 = step_ms as u128;
    assert(0 < count * step <= 0xFFFF_FFFF_FFFF_FFFF * 0xFFFF_FFFF_FFFF_FFFF) by (nonlinear_arith)
        requires
            0 < count <= 0xFFFF_FFFF_FFFF_FFFF,
            0 < step <= 0xFFFF_FFFF_FFFF_FFFF,
    ;
    let steps: u128 = count * step;
    let cycle: u128 = steps + pause_ms as u128;
    let at: u128 = (elapsed_ms as u128) % cycle;
    if at < steps && at % step < on_ms as u128 {
        assert(at / step < count) by (nonlinear_arith)
            requires
                at < count * step,
                0 < step,
        ;
        Some((at / step) as u64)
    } else {
        None
    }
}

/// What a request paints its key with.
#[derive(Clone, Copy, Debug, PartialEq, Eq, Structural)]
pub enum Paint {
    /// This colour.
    Color(Rgb),
    /// The colour that the gradient gives this urgency, in thousandths.
    Urgency(u32),
}

/// When a request shows.
#[derive(Clone, Copy, Debug, PartialEq, Eq, Structural)]
pub enum Animation {
    /// Always.
    Static,
    /// For one period, then not for one period, and so on.
    Blink { period_ms: u64 },
    /// As item `position` of a sequence that is shown item by item.
    SequenceReveal { position: u64, step_count: u64, step_ms: u64, on_ms: u64, pause_ms: u64 },
}

impl Animation {
    /// Whether the animation's periods make sense: a blink has a period, a
    /// sequence has an item and its steps take time.
    pub open spec fn wf(self) -> bool {
        match self {
            Animation::Static => true,
            Animation::Blink { period_ms } => period_ms > 0,
            Animation::SequenceReveal { position, step_count, step_ms, on_ms, pause_ms } =>
                step_count > 0 && step_ms > 0,
        }
    }

    /// Whether a request with this animation shows after `elapsed_ms`.
    pub open spec fn shows(self, elapsed_ms: u64) -> bool {
        match self {
            Animation::Static => true,
            Animation::Blink { period_ms } => blink_phase(elapsed_ms, period_ms),
            Animation::SequenceReveal { position, step_count, step_ms, on_ms, pause_ms } =>
                sequence_item(step_count, step_ms, on_ms, pause_ms, elapsed_ms) == Some(position),
        }
    }

    /// Whether the animation's periods make sense.
    pub fn is_valid(&self) -> (valid: bool)
        ensures
            valid == self.wf(),
    {
        match *self {
            Animation::Static => true,
            Animation::Blink { period_ms } => period_ms > 0,
            Animation::SequenceReveal { position, step_count, step_ms, on_ms, pause_ms } =>
                step_count > 0 && step_ms > 0,
        }
    }

    /// Whether a request with this animation shows after `elapsed_ms`.
    pub fn is_shown(&self, elapsed_ms: u64) -> (shown: bool)
        requires
            self.wf(),
        ensures
            shown == self.shows(elapsed_ms),
    {
        match *self {
            Animation::Static => true,
            Animation::Blink { period_ms } => blink_on(elapsed_ms, period_ms),
            Animation::SequenceReveal { position, step_count, step_ms, on_ms, pause_ms } => {
                match sequence_reveal(step_count, step_ms, on_ms, pause_ms, elapsed_ms) {
                    Some(item) => item == position,
                    None => false,
                }
            },
        }
    }
}

impl Paint {
    /// The colour that this paint is.
    pub open spec fn color(self) -> Rgb {
        match self {
            Paint::Color(c) => c,
            Paint::Urgency(u) => gradient(u),
        }
    }

    /// The colour that this paint is.
    pub fn to_color(&self) -> (c: Rgb)
        ensures
            c == self.color(),
    {
        match *self {
            Paint::Color(c) => c,
            Paint::Urgency(u) => color_for_urgency(u),
        }
    }
}

/// One demand on one key for the current tick.
#[derive(Clone, Copy, Debug, PartialEq, Eq, Structural)]
pub struct HighlightRequest {
    pub key: char,
    pub paint: Paint,
    pub priority: u32,
    pub animation: Animation,
}

impl HighlightRequest {
    /// The LED that the request lights after `elapsed_ms`: that of its key,
    /// letter case aside, while its animation shows.
    pub open spec fn target(self, elapsed_ms: u64, keys: Map<char, u32>) -> Option<u32> {
        if self.animation.shows(elapsed_ms) && keys.contains_key(upper(self.key)) {
            Some(keys[upper(self.key)])
        } else {
            None
        }
    }
}

/// The position of the request that decides the colour of `led`: of those
/// that light it the one with the highest priority, and among equals the
/// last.
pub open spec fn winner(
    requests: Seq<HighlightRequest>,
    elapsed_ms: u64,
    keys: Map<char, u32>,
    led: u32,
) -> Option<int>
    decreases requests.len(),
{
    if requests.len() == 0 {
        None
    } else {
        let earlier = winner(requests.drop_last(), elapsed_ms, keys, led);
        let last = requests.last();
        if last.target(elapsed_ms, keys) == Some(led) && (earlier is None || last.priority
            >= requests[earlier.unwrap()].priority) {
            Some(requests.len() - 1)
        } else {
            earlier
        }
    }
}

/// The winner lights the LED, and no request that lights it has a higher
/// priority, or the same priority and a later place. Without a winner, no
/// request lights the LED.
pub proof fn lemma_winner(
    requests: Seq<HighlightRequest>,
    elapsed_ms: u64,
    keys: Map<char, u32>,
    led: u32,
)
    ensures
        match winner(requests, elapsed_ms, keys, led) {
            Some(k) => {
                &&& 0 <= k < requests.len()
                &&& requests[k].target(elapsed_ms, keys) == Some(led)
                &&& forall|j: int|
                    0 <= j < requests.len() && (#[trigger] requests[j]).target(elapsed_ms, keys)
                        == Some(led) ==> requests[j].priority < requests[k].priority || (
                    requests[j].priority == requests[k].priority && j <= k)
            },
            None => forall|j: int|
                0 <= j < requests.len() ==> (#[trigger] requests[j]).target(elapsed_ms, keys)
                    != Some(led),
        },
    decreases requests.len(),
{
    if requests.len() > 0 {
        let rest = requests.drop_last();
        lemma_winner(rest, elapsed_ms, keys, led);
        assert forall|j: int| 0 <= j < rest.len() implies rest[j] == requests[j] by {}
        match winner(requests, elapsed_ms, keys, led) {
            Some(k) => {
                assert forall|j: int|
                    0 <= j < requests.len() && (#[trigger] requests[j]).target(elapsed_ms, keys)
                        == Some(led) implies requests[j].priority < requests[k].priority || (
                requests[j].priority == requests[k].priority && j <= k) by {
                    if j < rest.len() {
                        assert(rest[j] == requests[j]);
                    }
                }
            },
            None => {
                assert forall|j: int| 0 <= j < requests.len() implies (
                #[trigger] requests[j]).target(elapsed_ms, keys) != Some(led) by {
                    if j < rest.len() {
                        assert(rest[j] == requests[j]);
                    }
                }
            },
        }
    }
}

/// Of two requests that light the same LED the one with the higher priority
/// decides its colour, whichever of them comes first.
pub proof fn lemma_priority_beats_order(
    high: HighlightRequest,
    low: HighlightRequest,
    elapsed_ms: u64,
    keys: Map<char, u32>,
    led: u32,
)
    requires
        high.target(elapsed_ms, keys) == Some(led),
        low.target(elapsed_ms, keys) == Some(led),
        high.priority > low.priority,
    ensures
        winner(seq![high, low], elapsed_ms, keys, led) == Some(0int),
        winner(seq![low, high], elapsed_ms, keys, led) == Some(1int),
{
    reveal_with_fuel(winner, 3);
    assert(seq![high, low].drop_last() =~= seq![high]);
    assert(seq![low, high].drop_last() =~= seq![low]);
    assert(seq![high].drop_last() =~= Seq::<HighlightRequest>::empty());
    assert(seq![low].drop_last() =~= Seq::<HighlightRequest>::empty());
}

/// The LEDs that `requests` light after `elapsed_ms`, each once, in the
/// order in which the requests first name them.
pub open spec fn lit_leds(requests: Seq<HighlightRequest>, elapsed_ms: u64, keys: Map<char, u32>)
    -> Seq<u32>
    decreases requests.len(),
{
    if requests.len() == 0 {
        Seq::empty()
    } else {
        let earlier = lit_leds(requests.drop_last(), elapsed_ms, keys);
        match requests.last().target(elapsed_ms, keys) {
            Some(led) => if earlier.contains(led) {
                earlier
            } else {
                earlier.push(led)
            },
            None => earlier,
        }
    }
}

/// The frame entry that gives LED `id` the colour `color`.
pub open spec fn entry(id: u32, color: Rgb) -> LedColor {
    LedColor { id, r: color.r, g: color.g, b: color.b }
}

/// The frame that `requests` give after `elapsed_ms`: one entry for each
/// LED that a request lights, with the colour of the LED's winner.
pub open spec fn frame_for(requests: Seq<HighlightRequest>, elapsed_ms: u64, keys: Map<char, u32>)
    -> Seq<LedColor> {
    let leds = lit_leds(requests, elapsed_ms, keys);
    Seq::new(
        leds.len(),
        |i: int|
            entry(
                leds[i],
                requests[winner(requests, elapsed_ms, keys, leds[i]).unwrap()].paint.color(),
            ),
    )
}

/// A frame names no LED twice, and it names exactly the LEDs that have a
/// winner.
pub proof fn lemma_lit_leds(requests: Seq<HighlightRequest>, elapsed_ms: u64, keys: Map<char, u32>)
    ensures
        lit_leds(requests, elapsed_ms, keys).no_duplicates(),
        forall|led: u32| #[trigger]
            lit_leds(requests, elapsed_ms, keys).contains(led) <==> winner(
                requests,
                elapsed_ms,
                keys,
                led,
            ) is Some,
    decreases requests.len(),
{
    if requests.len() > 0 {
        let rest = requests.drop_last();
        lemma_lit_leds(rest, elapsed_ms, keys);
        let earlier = lit_leds(rest, elapsed_ms, keys);
        let all = lit_leds(requests, elapsed_ms, keys);
        match requests.last().target(elapsed_ms, keys) {
            Some(new) => {
                if !earlier.contains(new) {
                    assert forall|led: u32| #[trigger]
                        all.contains(led) <==> (earlier.contains(led) || led == new) by {
                        if earlier.contains(led) {
                            let i = choose|i: int| 0 <= i < earlier.len() && earlier[i] == led;
                            assert(all[i] == led);
                        }
                        if led == new {
                            assert(all[earlier.len() as int] == led);
                        }
                    }
                }
            },
            None => {},
        }
    }
}

/// Composes the frame of one tick: drops the requests whose key has no LED
/// or whose animation does not show after `elapsed_ms`, and gives each LED
/// that is left the colour of its winner.
pub fn compose(requests: &[HighlightRequest], elapsed_ms: u64, keys: &KeyMap) -> (frame: Vec<
    LedColor,
>)
    requires
        forall|i: int| 0 <= i < requests@.len() ==> (#[trigger] requests@[i]).animation.wf(),
    ensures
        frame@ == frame_for(requests@, elapsed_ms, keys@),
{
    let mut frame: Vec<LedColor> = Vec::new();
    let mut priorities: Vec<u32> = Vec::new();
    let mut k: usize = 0;
    while k < requests.len()
        invariant
            k <= requests@.len(),
            forall|i: int| 0 <= i < requests@.len() ==> (#[trigger] requests@[i]).animation.wf(),
            frame@.len() == priorities@.len(),
            frame@.len() == lit_leds(requests@.take(k as int), elapsed_ms, keys@).len(),
            forall|i: int|
                0 <= i < frame@.len() ==> {
                    let led = #[trigger] lit_leds(requests@.take(k as int), elapsed_ms, keys@)[i];
                    let w = winner(requests@.take(k as int), elapsed_ms, keys@, led);
                    &&& w is Some
                    &&& 0 <= w.unwrap() < k
                    &&& priorities@[i] == requests@[w.unwrap()].priority
                    &&& frame@[i] == entry(led, requests@[w.unwrap()].paint.color())
                },
        decreases requests@.len() - k,
    {
        let request = requests[k];
        let ghost before = requests@.take(k as int);
        let ghost upto = requests@.take(k + 1);
        let ghost leds = lit_leds(before, elapsed_ms, keys@);
        proof {
            assert(upto.drop_last() =~= before);
            assert(upto.last() == request);
            lemma_lit_leds(before, elapsed_ms, keys@);
            lemma_lit_leds(upto, elapsed_ms, keys@);
            assert forall|w: int| 0 <= w < k implies upto[w] == before[w] && before[w]
                == requests@[w] by {}
        }
        let target: Option<u32> = if request.animation.is_shown(elapsed_ms) {
            keys.get(char_upper(request.key))
        } else {
            None
        };
        assert(target == request.target(elapsed_ms, keys@));
        match target {
            None => {
                assert forall|led: u32|
                    winner(upto, elapsed_ms, keys@, led) == winner(
                        before,
                        elapsed_ms,
                        keys@,
                        led,
                    ) by {}
            },
            Some(led) => {
                let color = request.paint.to_color();
                let n: usize = frame.len();
                let mut at: usize = 0;
                while at < n && frame[at].id != led
                    invariant
                        at <= n,
                        n == frame@.len(),
                        n == leds.len(),
                        forall|i: int| 0 <= i < n ==> frame@[i].id == #[trigger] leds[i],
                        forall|i: int| 0 <= i < at ==> leds[i] != led,
                    decreases n - at,
                {
                    at += 1;
                }
                assert forall|other: u32| other != led implies winner(
                    upto,
                    elapsed_ms,
                    keys@,
                    other,
                ) == winner(before, elapsed_ms, keys@, other) by {}
                if at < n {
                    assert(leds[at as int] == led);
                    assert(leds.contains(led));
                    if request.priority >= priorities[at] {
                        frame.set(at, LedColor { id: led, r: color.r, g: color.g, b: color.b });
                        priorities.set(at, request.priority);
                    }
                } else {
                    assert(!leds.contains(led));
                    assert(winner(before, elapsed_ms, keys@, led) is None);
                    frame.push(LedColor { id: led, r: color.r, g: color.g, b: color.b });
                    priorities.push(request.priority);
                }
            },
        }
        k += 1;
    }
    proof {
        assert(requests@.take(requests@.len() as int) =~= requests@);
        assert(frame@ =~= frame_for(requests@, elapsed_ms, keys@));
    }
    frame
}

} // verus!
