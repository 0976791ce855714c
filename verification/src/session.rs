//! A session with one keyboard: its name, its key map and its frame.
//!
//! The session owns the frame and nothing else writes it. It does not own
//! the connection: what is to be sent comes back as bytes, and the caller
//! sends them.

use vstd::prelude::*;
use crate::controller::{texts, ControllerDescriptor, ControllerView};
use crate::directory::{build_led_map, key_map_of, scan_order, KeyMap};
use crate::error::ConnectError;
use crate::frame::{encode_update, fill_frame, frame_of, update_payload, LedColor};
use crate::packet::{encode_header, frame, PACKET_ID_UPDATE_LEDS};
use crate::text::{char_upper, upper};

verus! {

/// A frame of `led_count` LEDs that are all off.
pub open spec fn dark(led_count: nat) -> Seq<u32> {
    Seq::new(led_count, |i: int| 0u32)
}

/// The packet that sets the LEDs of device `device_index` to `colors`.
pub open spec fn update_packet(device_index: u32, colors: Seq<u32>) -> Seq<u8> {
    frame(device_index, PACKET_ID_UPDATE_LEDS, update_payload(colors))
}

/// A session as a mathematical value.
pub struct KeyboardView {
    pub device_index: u32,
    pub device_name: Seq<char>,
    pub keys: Map<char, u32>,
    pub frame: Seq<u32>,
}

/// The session that begins on `device`: all LEDs off.
pub open spec fn session_on(device: ControllerView) -> KeyboardView {
    KeyboardView {
        device_index: device.index,
        device_name: device.display_name,
        keys: key_map_of(scan_order(device.led_names, device.led_alt_names)),
        frame: dark(device.led_names.len()),
    }
}

/// A session with the keyboard that was selected at connect time.
#[derive(Debug)]
pub struct Keyboard {
    device_idx: u32,
    device_name: String,
    led_map: KeyMap,
    led_buffer: Vec<u32>,
}

impl View for Keyboard {
    type V = KeyboardView;

    closed spec fn view(&self) -> KeyboardView {
        KeyboardView {
            device_index: self.device_idx,
            device_name: self.device_name@,
            keys: self.led_map@,
            frame: self.led_buffer@,
        }
    }
}

/// Builds the bytes of the packet that sets the LEDs of a device.
fn encode_update_packet(device_idx: u32, colors: &Vec<u32>) -> (bytes: Vec<u8>)
    ensures
        bytes@ == update_packet(device_idx, colors@),
{
    let mut payload = encode_update(colors);
    let mut bytes = encode_header(device_idx, PACKET_ID_UPDATE_LEDS, payload.len() as u32);
    let ghost head = bytes@;
    let ghost body = payload@;
    bytes.append(&mut payload);
    assert(bytes@ =~= head + body);
    bytes
}

impl Keyboard {
    /// Begins a session on `device`, if any of its LEDs identifies a key.
    /// Fails with `NoUsableLeds` exactly when none does.
    pub fn open(device: ControllerDescriptor) -> (r: Result<Keyboard, ConnectError>)
        requires
            device.led_names@.len() <= u32::MAX,
        ensures
            match r {
                Ok(keyboard) => keyboard@ == session_on(device@) && keyboard@.keys != Map::<
                    char,
                    u32,
                >::empty(),
                Err(e) => e == ConnectError::NoUsableLeds && session_on(device@).keys == Map::<
                    char,
                    u32,
                >::empty(),
            },
    {
        let led_map = build_led_map(&device.led_names, &device.led_alt_names);
        if led_map.is_empty() {
            return Err(ConnectError::NoUsableLeds);
        }
        let n: usize = device.led_names.len();
        let mut led_buffer: Vec<u32> = Vec::new();
        while led_buffer.len() < n
            invariant
                led_buffer@.len() <= n,
                forall|i: int| 0 <= i < led_buffer@.len() ==> led_buffer@[i] == 0,
            decreases n - led_buffer@.len(),
        {
            led_buffer.push(0);
        }
        assert(led_buffer@ =~= dark(texts(device.led_names@).len()));
        Ok(
            Keyboard {
                device_idx: device.index,
                device_name: device.display_name,
                led_map,
                led_buffer,
            },
        )
    }

    /// The name under which the keyboard is shown.
    pub fn device_name(&self) -> (name: &str)
        ensures
            name@ == self@.device_name,
    {
        self.device_name.as_str()
    }

    /// The daemon's index of the keyboard.
    pub fn device_index(&self) -> (index: u32)
        ensures
            index == self@.device_index,
    {
        self.device_idx
    }

    /// The number of the keyboard's LEDs.
    pub fn led_count(&self) -> (count: usize)
        ensures
            count == self@.frame.len(),
    {
        self.led_buffer.len()
    }

    /// The hardware index of the LED under the key `ch`, letter case aside.
    pub fn led_for_char(&self, ch: char) -> (led: Option<u32>)
        ensures
            led == (if self@.keys.contains_key(upper(ch)) {
                Some(self@.keys[upper(ch)])
            } else {
                None
            }),
    {
        self.led_map.get(char_upper(ch))
    }

    /// The key map of the keyboard.
    pub fn keys(&self) -> (keys: &KeyMap)
        ensures
            keys@ == self@.keys,
    {
        &self.led_map
    }

    /// Sets the frame to `leds`, every LED that `leds` does not name off, and
    /// returns the bytes of the packet that shows the frame.
    pub fn set_leds(&mut self, leds: &[LedColor]) -> (bytes: Vec<u8>)
        ensures
            final(self)@.frame == frame_of(leds@, old(self)@.frame.len()),
            final(self)@.device_index == old(self)@.device_index,
            final(self)@.device_name == old(self)@.device_name,
            final(self)@.keys == old(self)@.keys,
            bytes@ == update_packet(final(self)@.device_index, final(self)@.frame),
    {
        fill_frame(&mut self.led_buffer, leds);
        encode_update_packet(self.device_idx, &self.led_buffer)
    }

    /// Ends the session: returns the bytes of the packet that turns every
    /// LED off.
    pub fn release(self) -> (bytes: Vec<u8>)
        ensures
            bytes@ == update_packet(self@.device_index, dark(self@.frame.len())),
    {
        let mut keyboard = self;
        let none: Vec<LedColor> = Vec::new();
        let bytes = keyboard.set_leds(none.as_slice());
        proof {
            crate::frame::lemma_empty_update_is_dark(self@.frame.len());
            assert(none@ =~= Seq::<LedColor>::empty());
        }
        bytes
    }
}

} // verus!
