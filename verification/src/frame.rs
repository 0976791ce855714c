//! The frame of LED colours that is sent to the keyboard on every tick.
//!
//! A frame is dense: one packed colour for each LED of the device, in
//! hardware order. It is never patched. Each update starts from all LEDs off
//! and writes the colours that the caller names, so an LED that the caller
//! does not name is off.

use vstd::prelude::*;
use crate::le::{push_u16_le, push_u32_le, u16_le, u32_le};

verus! {

/// A colour.
#[derive(Clone, Copy, Debug, PartialEq, Eq, Structural)]
pub struct Rgb {
    pub r: u8,
    pub g: u8,
    pub b: u8,
}

/// The colour for one LED, addressed by its hardware index.
#[derive(Clone, Copy, Debug, PartialEq, Eq, Structural)]
pub struct LedColor {
    pub id: u32,
    pub r: u8,
    pub g: u8,
    pub b: u8,
}

impl LedColor {
    /// The entry's colour.
    pub open spec fn rgb(self) -> Rgb {
        Rgb { r: self.r, g: self.g, b: self.b }
    }
}

/// A colour in the daemon's channel order: blue in the third byte, green in
/// the second, red in the lowest.
pub open spec fn packed(color: Rgb) -> u32 {
    (color.b as int * 65536 + color.g as int * 256 + color.r as int) as u32
}

/// Packs a colour into the 24 low bits of a `u32`.
pub fn rgb_to_u32(color: Rgb) -> (v: u32)
    ensures
        v == packed(color),
{
    let r: u32 = color.r as u32;
    let g: u32 = color.g as u32;
    let b: u32 = color.b as u32;
    assert((b << 16) | (g << 8) | r == b * 65536 + g * 256 + r) by (bit_vector)
        requires
            r < 256 && g < 256 && b < 256,
    ;
    (b << 16) | (g << 8) | r
}

/// What the LED at `index` shows after an update with `leds`: the colour of
/// the last entry that names it, and off when none does.
pub open spec fn led_value(leds: Seq<LedColor>, index: int) -> u32
    decreases leds.len(),
{
    if leds.len() == 0 {
        0
    } else if leds.last().id == index {
        packed(leds.last().rgb())
    } else {
        led_value(leds.drop_last(), index)
    }
}

/// The frame of `led_count` LEDs after an update with `leds`. Entries whose
/// index is not below `led_count` have no place in it.
pub open spec fn frame_of(leds: Seq<LedColor>, led_count: nat) -> Seq<u32> {
    Seq::new(led_count, |i: int| led_value(leds, i))
}

/// After an update, every LED that no entry names is off.
pub proof fn lemma_unnamed_led_is_off(leds: Seq<LedColor>, led_count: nat, index: int)
    requires
        0 <= index < led_count,
        forall|k: int| 0 <= k < leds.len() ==> leds[k].id != index,
    ensures
        frame_of(leds, led_count)[index] == 0,
    decreases leds.len(),
{
    if leds.len() > 0 {
        let rest = leds.drop_last();
        assert forall|k: int| 0 <= k < rest.len() implies rest[k].id != index by {
            assert(rest[k] == leds[k]);
        }
        lemma_unnamed_led_is_off(rest, led_count, index);
    }
}

/// After an update, an LED that entries name has the colour of the last of
/// them.
pub proof fn lemma_last_entry_stands(leds: Seq<LedColor>, led_count: nat, k: int)
    requires
        0 <= k < leds.len(),
        leds[k].id < led_count,
        forall|j: int| k < j < leds.len() ==> leds[j].id != leds[k].id,
    ensures
        frame_of(leds, led_count)[leds[k].id as int] == packed(leds[k].rgb()),
    decreases leds.len(),
{
    if k < leds.len() - 1 {
        let rest = leds.drop_last();
        assert(rest[k] == leds[k]);
        assert forall|j: int| k < j < rest.len() implies rest[j].id != rest[k].id by {
            assert(rest[j] == leds[j]);
        }
        lemma_last_entry_stands(rest, led_count, k);
    }
}

/// An update with no entries turns every LED off.
pub proof fn lemma_empty_update_is_dark(led_count: nat)
    ensures
        frame_of(Seq::empty(), led_count) == Seq::new(led_count, |i: int| 0u32),
{
    assert(frame_of(Seq::empty(), led_count) =~= Seq::new(led_count, |i: int| 0u32));
}

/// Resets `frame` to all LEDs off and writes each entry of `leds` whose
/// index is in range. The frame keeps its length.
pub fn fill_frame(frame: &mut Vec<u32>, leds: &[LedColor])
    ensures
        final(frame)@ == frame_of(leds@, old(frame)@.len()),
{
    let n: usize = frame.len();
    let mut i: usize = 0;
    while i < n
        invariant
            i <= n,
            frame@.len() == n,
            forall|k: int| 0 <= k < i ==> frame@[k] == 0,
        decreases n - i,
    {
        frame.set(i, 0);
        i += 1;
    }
    assert(frame@ =~= frame_of(leds@.take(0), n as nat));
    let mut j: usize = 0;
    while j < leds.len()
        invariant
            j <= leds@.len(),
            frame@.len() == n,
            frame@ == frame_of(leds@.take(j as int), n as nat),
        decreases leds@.len() - j,
    {
        let led = leds[j];
        let ghost before = leds@.take(j as int);
        let ghost after = leds@.take(j + 1);
        assert(after.drop_last() =~= before);
        assert(after.last() == led);
        if (led.id as usize) < n {
            let value = rgb_to_u32(Rgb { r: led.r, g: led.g, b: led.b });
            frame.set(led.id as usize, value);
        }
        j += 1;
        assert(frame@ =~= frame_of(after, n as nat));
    }
    assert(leds@.take(leds@.len() as int) =~= leds@);
}

/// The bytes of `colors`, four for each, in order.
pub open spec fn colors_le(colors: Seq<u32>) -> Seq<u8>
    decreases colors.len(),
{
    if colors.len() == 0 {
        Seq::empty()
    } else {
        colors_le(colors.drop_last()) + u32_le(colors.last())
    }
}

/// How many LEDs an update can carry: its count field has sixteen bits.
pub open spec fn sent_count(led_count: nat) -> nat {
    if led_count <= u16::MAX {
        led_count
    } else {
        u16::MAX as nat
    }
}

/// The payload of an update: its size in bytes, the number of colours, and
/// the colours. Of a longer frame only the first 65535 colours are sent.
pub open spec fn update_payload(frame: Seq<u32>) -> Seq<u8> {
    let count = sent_count(frame.len());
    u32_le((6 + 4 * count) as u32) + u16_le(count as u16) + colors_le(frame.take(count as int))
}

/// Builds the payload of the packet that sets every LED to its colour in
/// `frame`.
pub fn encode_update(frame: &Vec<u32>) -> (payload: Vec<u8>)
    ensures
        payload@ == update_payload(frame@),
        payload@.len() == 6 + 4 * sent_count(frame@.len()),
{
    let count: u16 = if frame.len() <= 0xFFFF {
        frame.len() as u16
    } else {
        0xFFFF
    };
    let data_size: u32 = 6 + (count as u32) * 4;
    let mut payload: Vec<u8> = Vec::new();
    push_u32_le(&mut payload, data_size);
    push_u16_le(&mut payload, count);
    let ghost head = payload@;
    let mut i: usize = 0;
    assert(colors_le(frame@.take(0)) =~= Seq::<u8>::empty());
    assert(payload@ =~= head + colors_le(frame@.take(0)));
    while i < count as usize
        invariant
            i <= count,
            count <= frame@.len(),
            head.len() == 6,
            payload@ == head + colors_le(frame@.take(i as int)),
            payload@.len() == 6 + 4 * i,
        decreases count - i,
    {
        let ghost before = frame@.take(i as int);
        let ghost after = frame@.take(i + 1);
        assert(after.drop_last() =~= before);
        assert(after.last() == frame@[i as int]);
        push_u32_le(&mut payload, frame[i]);
        i += 1;
        assert(payload@ =~= head + colors_le(after));
    }
    payload
}

} // verus!
