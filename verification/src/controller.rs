//! Controller descriptions, and the parser of the record in which the daemon
//! sends one.
//!
//! A record is read front to back. Most of its fields are of no use here, but
//! each has to be passed over with its exact length, which for some depends on
//! the protocol version, or everything behind it is misread.

use vstd::prelude::*;
use vstd::string::StringExecFns;
use crate::cursor::{fixed_end, string_end, text_at, Cursor};
use crate::error::ProtocolError;
use crate::le::{i32_at, u16_at};

verus! {

/// The device type that the daemon gives to keyboards.
pub const DEVICE_TYPE_KEYBOARD: i32 = 5;

/// The highest protocol version that this client speaks.
pub const CLIENT_PROTOCOL_MAX: u32 = 5;

/// The class of a controller.
#[derive(Clone, Copy, Debug, PartialEq, Eq, Structural)]
pub enum DeviceType {
    Keyboard,
    /// Any other class, with the daemon's number for it.
    Other(i32),
}

/// The class that the daemon's number `raw` stands for.
pub open spec fn device_type_of(raw: i32) -> DeviceType {
    if raw == DEVICE_TYPE_KEYBOARD {
        DeviceType::Keyboard
    } else {
        DeviceType::Other(raw)
    }
}

impl DeviceType {
    /// The class that the daemon's number `raw` stands for.
    pub fn from_raw(raw: i32) -> (t: DeviceType)
        ensures
            t == device_type_of(raw),
    {
        if raw == DEVICE_TYPE_KEYBOARD {
            DeviceType::Keyboard
        } else {
            DeviceType::Other(raw)
        }
    }
}

/// One hardware device as the daemon reports it. The position of a name in
/// `led_names` is the LED's hardware index; `led_alt_names`, where the
/// protocol version has them, are parallel to `led_names`.
#[derive(Clone, Debug, PartialEq, Eq)]
pub struct ControllerDescriptor {
    pub index: u32,
    pub device_type: DeviceType,
    pub display_name: String,
    pub vendor: String,
    pub led_names: Vec<String>,
    pub led_alt_names: Vec<String>,
}

/// A controller description as a mathematical value.
pub struct ControllerView {
    pub index: u32,
    pub device_type: DeviceType,
    pub display_name: Seq<char>,
    pub vendor: Seq<char>,
    pub led_names: Seq<Seq<char>>,
    pub led_alt_names: Seq<Seq<char>>,
}

/// The texts of a sequence of strings.
pub open spec fn texts(names: Seq<String>) -> Seq<Seq<char>> {
    Seq::new(names.len(), |i: int| names[i]@)
}

impl View for ControllerDescriptor {
    type V = ControllerView;

    open spec fn view(&self) -> ControllerView {
        ControllerView {
            index: self.index,
            device_type: self.device_type,
            display_name: self.display_name@,
            vendor: self.vendor@,
            led_names: texts(self.led_names@),
            led_alt_names: texts(self.led_alt_names@),
        }
    }
}

/// The name under which a device is shown: vendor and model, or the model
/// alone where the vendor is empty.
pub open spec fn display_name_of(vendor: Seq<char>, name: Seq<char>) -> Seq<char> {
    if vendor.len() == 0 {
        name
    } else {
        vendor + seq![' '] + name
    }
}

/// The length of the fixed-width fields of a mode record that stand between
/// its name and its colours: value, flags, speed bounds, brightness bounds
/// (from version 3), colour-count bounds, speed, brightness (from version 3),
/// direction and colour mode.
pub open spec fn mode_fixed_len(version: u32) -> int {
    if version >= 3 {
        48
    } else {
        36
    }
}

/// Where a block of 4-byte colours that starts at `pos` with its `u16` count
/// ends.
pub open spec fn colors_end(buf: Seq<u8>, pos: int) -> Option<int> {
    match fixed_end(buf, pos, 2) {
        None => None,
        Some(first) => fixed_end(buf, first, 4 * (u16_at(buf, pos) as int)),
    }
}

/// Where a mode record that starts at `pos` ends.
pub open spec fn mode_end(buf: Seq<u8>, pos: int, version: u32) -> Option<int> {
    match string_end(buf, pos) {
        None => None,
        Some(fields) => match fixed_end(buf, fields, mode_fixed_len(version)) {
            None => None,
            Some(colors) => colors_end(buf, colors),
        },
    }
}

/// Where `count` mode records that start at `pos` end.
pub open spec fn modes_end(buf: Seq<u8>, pos: int, version: u32, count: nat) -> Option<int>
    decreases count,
{
    if count == 0 {
        Some(pos)
    } else {
        match mode_end(buf, pos, version) {
            None => None,
            Some(next) => modes_end(buf, next, version, (count - 1) as nat),
        }
    }
}

/// Where an entry that starts at `pos` ends: a string followed by `trailer`
/// bytes. An LED is such an entry with its 4-byte value, a segment with its
/// type, start and count, a bare string with none.
pub open spec fn entry_end(buf: Seq<u8>, pos: int, trailer: int) -> Option<int> {
    match string_end(buf, pos) {
        None => None,
        Some(rest) => fixed_end(buf, rest, trailer),
    }
}

/// Where `count` entries that start at `pos` end.
pub open spec fn entries_end(buf: Seq<u8>, pos: int, count: nat, trailer: int) -> Option<int>
    decreases count,
{
    if count == 0 {
        Some(pos)
    } else {
        match entry_end(buf, pos, trailer) {
            None => None,
            Some(next) => entries_end(buf, next, (count - 1) as nat, trailer),
        }
    }
}

/// The texts of `count` entries that start at `pos`.
pub open spec fn entry_texts(buf: Seq<u8>, pos: int, count: nat, trailer: int) -> Seq<Seq<char>>
    decreases count,
{
    if count == 0 {
        Seq::empty()
    } else {
        seq![text_at(buf, pos)] + entry_texts(
            buf,
            entry_end(buf, pos, trailer).unwrap(),
            (count - 1) as nat,
            trailer,
        )
    }
}

/// Where a block of entries that starts at `pos` with its `u16` count ends.
pub open spec fn counted_entries_end(buf: Seq<u8>, pos: int, trailer: int) -> Option<int> {
    match fixed_end(buf, pos, 2) {
        None => None,
        Some(first) => entries_end(buf, first, u16_at(buf, pos) as nat, trailer),
    }
}

/// The length of a zone's matrix block behind its `u16` length: nothing for
/// length zero, else height and width and what the length leaves beyond them.
pub open spec fn matrix_len(declared: u16) -> int {
    if declared == 0 {
        0
    } else if declared <= 8 {
        8
    } else {
        declared as int
    }
}

/// Where a zone record that starts at `pos` ends: name, type, LED bounds and
/// count, matrix, segments (from version 4), flags (from version 5).
pub open spec fn zone_end(buf: Seq<u8>, pos: int, version: u32) -> Option<int> {
    match entry_end(buf, pos, 16) {
        None => None,
        Some(matrix) => match fixed_end(buf, matrix, 2) {
            None => None,
            Some(cells) => match fixed_end(buf, cells, matrix_len(u16_at(buf, matrix))) {
                None => None,
                Some(segments) => match (if version >= 4 {
                    counted_entries_end(buf, segments, 12)
                } else {
                    Some(segments)
                }) {
                    None => None,
                    Some(flags) => if version >= 5 {
                        fixed_end(buf, flags, 4)
                    } else {
                        Some(flags)
                    },
                },
            },
        },
    }
}

/// Where `count` zone records that start at `pos` end.
pub open spec fn zones_end(buf: Seq<u8>, pos: int, version: u32, count: nat) -> Option<int>
    decreases count,
{
    if count == 0 {
        Some(pos)
    } else {
        match zone_end(buf, pos, version) {
            None => None,
            Some(next) => zones_end(buf, next, version, (count - 1) as nat),
        }
    }
}

/// Where the vendor string of a record that starts at `start` begins: behind
/// the payload size, the device type and the name.
pub open spec fn vendor_at(buf: Seq<u8>, start: int) -> Option<int> {
    match fixed_end(buf, start, 8) {
        None => None,
        Some(name) => string_end(buf, name),
    }
}

/// Where the mode count of a record begins: behind the vendor (from version
/// 1), description, firmware version, serial and location.
pub open spec fn modes_at(buf: Seq<u8>, start: int, version: u32) -> Option<int> {
    match vendor_at(buf, start) {
        None => None,
        Some(vendor) => match (if version >= 1 {
            string_end(buf, vendor)
        } else {
            Some(vendor)
        }) {
            None => None,
            Some(description) => entries_end(buf, description, 4, 0),
        },
    }
}

/// Where the block of modes that starts at `pos` ends: the `u16` mode
/// count, the active mode, and the modes.
pub open spec fn counted_modes_end(buf: Seq<u8>, pos: int, version: u32) -> Option<int> {
    match fixed_end(buf, pos, 6) {
        None => None,
        Some(first) => modes_end(buf, first, version, u16_at(buf, pos) as nat),
    }
}

/// Where the block of zones that starts at `pos` ends: the `u16` zone count
/// and the zones.
pub open spec fn counted_zones_end(buf: Seq<u8>, pos: int, version: u32) -> Option<int> {
    match fixed_end(buf, pos, 2) {
        None => None,
        Some(first) => zones_end(buf, first, version, u16_at(buf, pos) as nat),
    }
}

/// Where the zone count of a record begins: behind the modes.
pub open spec fn zones_at(buf: Seq<u8>, start: int, version: u32) -> Option<int> {
    match modes_at(buf, start, version) {
        None => None,
        Some(modes) => counted_modes_end(buf, modes, version),
    }
}

/// Where the LED count of a record begins: behind the zones.
pub open spec fn leds_at(buf: Seq<u8>, start: int, version: u32) -> Option<int> {
    match zones_at(buf, start, version) {
        None => None,
        Some(zones) => counted_zones_end(buf, zones, version),
    }
}

/// Where what follows the colours of a record begins: behind the LEDs, each
/// a name and a 4-byte value, and the colours.
pub open spec fn alts_at(buf: Seq<u8>, start: int, version: u32) -> Option<int> {
    match leds_at(buf, start, version) {
        None => None,
        Some(leds) => match counted_entries_end(buf, leds, 4) {
            None => None,
            Some(colors) => colors_end(buf, colors),
        },
    }
}

/// Where a record that starts at `start` ends: from version 5 behind the
/// alternate LED names and the flags, before that behind the colours.
pub open spec fn record_end(buf: Seq<u8>, start: int, version: u32) -> Option<int> {
    match alts_at(buf, start, version) {
        None => None,
        Some(alts) => if version >= 5 {
            match counted_entries_end(buf, alts, 0) {
                None => None,
                Some(flags) => fixed_end(buf, flags, 4),
            }
        } else {
            Some(alts)
        },
    }
}

/// The vendor that a record states; none before version 1.
pub open spec fn record_vendor(buf: Seq<u8>, start: int, version: u32) -> Seq<char> {
    if version >= 1 {
        text_at(buf, vendor_at(buf, start).unwrap())
    } else {
        Seq::empty()
    }
}

/// The LED names that a record states, in hardware order.
pub open spec fn record_led_names(buf: Seq<u8>, start: int, version: u32) -> Seq<Seq<char>> {
    let leds = leds_at(buf, start, version).unwrap();
    entry_texts(buf, leds + 2, u16_at(buf, leds) as nat, 4)
}

/// The alternate LED names that a record states; none before version 5.
pub open spec fn record_alt_names(buf: Seq<u8>, start: int, version: u32) -> Seq<Seq<char>> {
    if version >= 5 {
        let alts = alts_at(buf, start, version).unwrap();
        entry_texts(buf, alts + 2, u16_at(buf, alts) as nat, 0)
    } else {
        Seq::empty()
    }
}

/// The controller that the record at `start` describes, if `buf` holds all of
/// the record.
pub open spec fn controller_of(buf: Seq<u8>, start: int, index: u32, version: u32) -> Option<
    ControllerView,
> {
    if record_end(buf, start, version) is None {
        None
    } else {
        let vendor = record_vendor(buf, start, version);
        Some(
            ControllerView {
                index,
                device_type: device_type_of(i32_at(buf, start + 4)),
                display_name: display_name_of(vendor, text_at(buf, start + 8)),
                vendor,
                led_names: record_led_names(buf, start, version),
                led_alt_names: record_alt_names(buf, start, version),
            },
        )
    }
}

/// Passes over a block of 4-byte colours with its count.
fn skip_colors(cursor: &mut Cursor) -> (r: Result<(), ProtocolError>)
    ensures
        final(cursor).bytes() == old(cursor).bytes(),
        match r {
            Ok(_) => colors_end(old(cursor).bytes(), old(cursor).position()) == Some(
                final(cursor).position(),
            ),
            Err(e) => e == ProtocolError::Truncated && colors_end(
                old(cursor).bytes(),
                old(cursor).position(),
            ) is None,
        },
{
    let count: u16 = cursor.read_u16()?;
    cursor.skip((count as usize) * 4)
}

/// Passes over one mode record.
pub fn skip_mode_data(cursor: &mut Cursor, protocol_version: u32) -> (r: Result<
    (),
    ProtocolError,
>)
    ensures
        final(cursor).bytes() == old(cursor).bytes(),
        match r {
            Ok(_) => mode_end(old(cursor).bytes(), old(cursor).position(), protocol_version)
                == Some(final(cursor).position()),
            Err(e) => e == ProtocolError::Truncated && mode_end(
                old(cursor).bytes(),
                old(cursor).position(),
                protocol_version,
            ) is None,
        },
{
    let _name = cursor.read_string()?;
    let _mode_value = cursor.read_i32()?;
    let _mode_flags = cursor.read_u32()?;
    let _mode_speed_min = cursor.read_u32()?;
    let _mode_speed_max = cursor.read_u32()?;
    if protocol_version >= 3 {
        let _brightness_min = cursor.read_u32()?;
        let _brightness_max = cursor.read_u32()?;
    }
    let _mode_colors_min = cursor.read_u32()?;
    let _mode_colors_max = cursor.read_u32()?;
    let _mode_speed = cursor.read_u32()?;
    if protocol_version >= 3 {
        let _brightness = cursor.read_u32()?;
    }
    let _mode_direction = cursor.read_u32()?;
    let _mode_color_mode = cursor.read_u32()?;
    skip_colors(cursor)
}

/// Passes over one segment record: name, type, start index and LED count.
pub fn skip_segment_data(cursor: &mut Cursor) -> (r: Result<(), ProtocolError>)
    ensures
        final(cursor).bytes() == old(cursor).bytes(),
        match r {
            Ok(_) => entry_end(old(cursor).bytes(), old(cursor).position(), 12) == Some(
                final(cursor).position(),
            ),
            Err(e) => e == ProtocolError::Truncated && entry_end(
                old(cursor).bytes(),
                old(cursor).position(),
                12,
            ) is None,
        },
{
    let _name = cursor.read_string()?;
    let _segment_type = cursor.read_i32()?;
    let _start_idx = cursor.read_u32()?;
    let _leds_count = cursor.read_u32()?;
    Ok(())
}

/// Passes over a zone's segments with their count.
#[verifier::loop_isolation(false)]
fn skip_segments(cursor: &mut Cursor) -> (r: Result<(), ProtocolError>)
    ensures
        final(cursor).bytes() == old(cursor).bytes(),
        match r {
            Ok(_) => counted_entries_end(old(cursor).bytes(), old(cursor).position(), 12)
                == Some(final(cursor).position()),
            Err(e) => e == ProtocolError::Truncated && counted_entries_end(
                old(cursor).bytes(),
                old(cursor).position(),
                12,
            ) is None,
        },
{
    let ghost buf = cursor.bytes();
    let num_segments: u16 = cursor.read_u16()?;
    let ghost first = cursor.position();
    let mut i: u16 = 0;
    while i < num_segments
        invariant
            i <= num_segments,
            cursor.bytes() == buf,
            entries_end(buf, first, num_segments as nat, 12) == entries_end(
                buf,
                cursor.position(),
                (num_segments - i) as nat,
                12,
            ),
        decreases num_segments - i,
    {
        skip_segment_data(cursor)?;
        i += 1;
    }
    Ok(())
}

/// Passes over one zone record.
pub fn skip_zone_data(cursor: &mut Cursor, protocol_version: u32) -> (r: Result<
    (),
    ProtocolError,
>)
    ensures
        final(cursor).bytes() == old(cursor).bytes(),
        match r {
            Ok(_) => zone_end(old(cursor).bytes(), old(cursor).position(), protocol_version)
                == Some(final(cursor).position()),
            Err(e) => e == ProtocolError::Truncated && zone_end(
                old(cursor).bytes(),
                old(cursor).position(),
                protocol_version,
            ) is None,
        },
{
    let _name = cursor.read_string()?;
    let _zone_type = cursor.read_i32()?;
    let _zone_leds_min = cursor.read_u32()?;
    let _zone_leds_max = cursor.read_u32()?;
    let _zone_leds_count = cursor.read_u32()?;
    let matrix_len: u16 = cursor.read_u16()?;
    if matrix_len > 0 {
        let _height = cursor.read_u32()?;
        let _width = cursor.read_u32()?;
        let remaining: u16 = if matrix_len > 8 {
            matrix_len - 8
        } else {
            0
        };
        cursor.skip(remaining as usize)?;
    }
    if protocol_version >= 4 {
        skip_segments(cursor)?;
    }
    if protocol_version >= 5 {
        let _zone_flags = cursor.read_u32()?;
    }
    Ok(())
}

/// Passes over the modes of a record with their count and the active mode.
#[verifier::loop_isolation(false)]
fn skip_modes(cursor: &mut Cursor, protocol_version: u32) -> (r: Result<(), ProtocolError>)
    ensures
        final(cursor).bytes() == old(cursor).bytes(),
        match r {
            Ok(_) => counted_modes_end(
                old(cursor).bytes(),
                old(cursor).position(),
                protocol_version,
            ) == Some(final(cursor).position()),
            Err(e) => e == ProtocolError::Truncated && counted_modes_end(
                old(cursor).bytes(),
                old(cursor).position(),
                protocol_version,
            ) is None,
        },
{
    let ghost buf = cursor.bytes();
    let num_modes: u16 = cursor.read_u16()?;
    let _active_mode = cursor.read_i32()?;
    let ghost first = cursor.position();
    let mut i: u16 = 0;
    while i < num_modes
        invariant
            i <= num_modes,
            cursor.bytes() == buf,
            modes_end(buf, first, protocol_version, num_modes as nat) == modes_end(
                buf,
                cursor.position(),
                protocol_version,
                (num_modes - i) as nat,
            ),
        decreases num_modes - i,
    {
        skip_mode_data(cursor, protocol_version)?;
        i += 1;
    }
    Ok(())
}

/// Passes over the zones of a record with their count.
#[verifier::loop_isolation(false)]
fn skip_zones(cursor: &mut Cursor, protocol_version: u32) -> (r: Result<(), ProtocolError>)
    ensures
        final(cursor).bytes() == old(cursor).bytes(),
        match r {
            Ok(_) => counted_zones_end(
                old(cursor).bytes(),
                old(cursor).position(),
                protocol_version,
            ) == Some(final(cursor).position()),
            Err(e) => e == ProtocolError::Truncated && counted_zones_end(
                old(cursor).bytes(),
                old(cursor).position(),
                protocol_version,
            ) is None,
        },
{
    let ghost buf = cursor.bytes();
    let num_zones: u16 = cursor.read_u16()?;
    let ghost first = cursor.position();
    let mut i: u16 = 0;
    while i < num_zones
        invariant
            i <= num_zones,
            cursor.bytes() == buf,
            zones_end(buf, first, protocol_version, num_zones as nat) == zones_end(
                buf,
                cursor.position(),
                protocol_version,
                (num_zones - i) as nat,
            ),
        decreases num_zones - i,
    {
        skip_zone_data(cursor, protocol_version)?;
        i += 1;
    }
    Ok(())
}

/// Reads a block of entries with its count, each entry a string followed by
/// `trailer` bytes, and returns the entries' texts.
#[verifier::loop_isolation(false)]
fn read_entries(cursor: &mut Cursor, trailer: usize) -> (r: Result<Vec<String>, ProtocolError>)
    ensures
        final(cursor).bytes() == old(cursor).bytes(),
        match r {
            Ok(names) => counted_entries_end(
                old(cursor).bytes(),
                old(cursor).position(),
                trailer as int,
            ) == Some(final(cursor).position()) && texts(names@) == entry_texts(
                old(cursor).bytes(),
                old(cursor).position() + 2,
                u16_at(old(cursor).bytes(), old(cursor).position()) as nat,
                trailer as int,
            ) && names@.len() == u16_at(old(cursor).bytes(), old(cursor).position()),
            Err(e) => e == ProtocolError::Truncated && counted_entries_end(
                old(cursor).bytes(),
                old(cursor).position(),
                trailer as int,
            ) is None,
        },
{
    let ghost buf = cursor.bytes();
    let count: u16 = cursor.read_u16()?;
    let ghost first = cursor.position();
    let mut names: Vec<String> = Vec::new();
    let mut i: u16 = 0;
    assert(texts(names@) =~= Seq::<Seq<char>>::empty());
    while i < count
        invariant
            i <= count,
            cursor.bytes() == buf,
            entries_end(buf, first, count as nat, trailer as int) == entries_end(
                buf,
                cursor.position(),
                (count - i) as nat,
                trailer as int,
            ),
            entry_texts(buf, first, count as nat, trailer as int) == texts(names@) + entry_texts(
                buf,
                cursor.position(),
                (count - i) as nat,
                trailer as int,
            ),
            names@.len() == i,
        decreases count - i,
    {
        let ghost at = cursor.position();
        let ghost before = names@;
        let name = cursor.read_string()?;
        cursor.skip(trailer)?;
        names.push(name);
        i += 1;
        proof {
            assert(texts(names@) =~= texts(before) + seq![text_at(buf, at)]);
            let rest = entry_texts(buf, cursor.position(), (count - i) as nat, trailer as int);
            assert(texts(before) + (seq![text_at(buf, at)] + rest) =~= texts(names@) + rest);
        }
    }
    assert(texts(names@) + Seq::<Seq<char>>::empty() =~= texts(names@));
    Ok(names)
}

/// What a record says of the device itself.
struct Identity {
    raw_type: i32,
    name: String,
    vendor: String,
}

/// Passes over the description, firmware version, serial and location of a
/// record.
fn skip_unused_strings(cursor: &mut Cursor) -> (r: Result<(), ProtocolError>)
    ensures
        final(cursor).bytes() == old(cursor).bytes(),
        match r {
            Ok(_) => entries_end(old(cursor).bytes(), old(cursor).position(), 4, 0) == Some(
                final(cursor).position(),
            ),
            Err(e) => e == ProtocolError::Truncated && entries_end(
                old(cursor).bytes(),
                old(cursor).position(),
                4,
                0,
            ) is None,
        },
{
    proof {
        reveal_with_fuel(entries_end, 5);
    }
    let _description = cursor.read_string()?;
    let _version = cursor.read_string()?;
    let _serial = cursor.read_string()?;
    let _location = cursor.read_string()?;
    Ok(())
}

/// Reads the vendor of a record; before version 1 there is none to read.
fn read_vendor(cursor: &mut Cursor, protocol_version: u32) -> (r: Result<String, ProtocolError>)
    ensures
        final(cursor).bytes() == old(cursor).bytes(),
        match r {
            Ok(vendor) => {
                &&& protocol_version >= 1 ==> string_end(
                    old(cursor).bytes(),
                    old(cursor).position(),
                ) == Some(final(cursor).position()) && vendor@ == text_at(
                    old(cursor).bytes(),
                    old(cursor).position(),
                )
                &&& protocol_version < 1 ==> final(cursor).position() == old(cursor).position()
                    && vendor@ == Seq::<char>::empty()
            },
            Err(e) => e == ProtocolError::Truncated && protocol_version >= 1 && string_end(
                old(cursor).bytes(),
                old(cursor).position(),
            ) is None,
        },
{
    if protocol_version >= 1 {
        cursor.read_string()
    } else {
        Ok(String::new())
    }
}

/// Reads a record up to its modes: payload size, device type, name, vendor
/// (from version 1), and the four strings that are of no use here.
fn read_identity(cursor: &mut Cursor, protocol_version: u32) -> (r: Result<
    Identity,
    ProtocolError,
>)
    ensures
        final(cursor).bytes() == old(cursor).bytes(),
        match r {
            Ok(id) => modes_at(old(cursor).bytes(), old(cursor).position(), protocol_version)
                == Some(final(cursor).position()) && id.raw_type == i32_at(
                old(cursor).bytes(),
                old(cursor).position() + 4,
            ) && id.name@ == text_at(old(cursor).bytes(), old(cursor).position() + 8)
                && id.vendor@ == record_vendor(
                old(cursor).bytes(),
                old(cursor).position(),
                protocol_version,
            ),
            Err(e) => e == ProtocolError::Truncated && modes_at(
                old(cursor).bytes(),
                old(cursor).position(),
                protocol_version,
            ) is None,
        },
{
    let _data_size = cursor.read_u32()?;
    let raw_type: i32 = cursor.read_i32()?;
    let name = cursor.read_string()?;
    let vendor = read_vendor(cursor, protocol_version)?;
    skip_unused_strings(cursor)?;
    Ok(Identity { raw_type, name, vendor })
}

/// Reads the alternate LED names and the flags that close a record from
/// version 5 on; before that there is nothing to read.
fn read_alt_names(cursor: &mut Cursor, protocol_version: u32) -> (r: Result<
    Vec<String>,
    ProtocolError,
>)
    ensures
        final(cursor).bytes() == old(cursor).bytes(),
        match r {
            Ok(names) => {
                &&& protocol_version >= 5 ==> counted_entries_end(
                    old(cursor).bytes(),
                    old(cursor).position(),
                    0,
                ) is Some && fixed_end(
                    old(cursor).bytes(),
                    counted_entries_end(old(cursor).bytes(), old(cursor).position(), 0).unwrap(),
                    4,
                ) == Some(final(cursor).position()) && texts(names@) == entry_texts(
                    old(cursor).bytes(),
                    old(cursor).position() + 2,
                    u16_at(old(cursor).bytes(), old(cursor).position()) as nat,
                    0,
                )
                &&& protocol_version < 5 ==> final(cursor).position() == old(cursor).position()
                    && texts(names@) == Seq::<Seq<char>>::empty()
                &&& names@.len() <= u16::MAX
            },
            Err(e) => e == ProtocolError::Truncated && protocol_version >= 5 && (
            counted_entries_end(old(cursor).bytes(), old(cursor).position(), 0) is None
                || fixed_end(
                old(cursor).bytes(),
                counted_entries_end(old(cursor).bytes(), old(cursor).position(), 0).unwrap(),
                4,
            ) is None),
        },
{
    if protocol_version >= 5 {
        let names = read_entries(cursor, 0)?;
        let _flags = cursor.read_u32()?;
        Ok(names)
    } else {
        let names: Vec<String> = Vec::new();
        assert(texts(names@) =~= Seq::<Seq<char>>::empty());
        Ok(names)
    }
}

/// Parses the record in which the daemon describes controller `idx`, as sent
/// at `protocol_version`.
///
/// Fails with `Truncated` exactly when `payload` ends before the record
/// does. Bytes behind the record are not looked at.
pub fn parse_controller_data(idx: u32, payload: &[u8], protocol_version: u32) -> (r: Result<
    ControllerDescriptor,
    ProtocolError,
>)
    ensures
        match r {
            Ok(d) => controller_of(payload@, 0, idx, protocol_version) == Some(d@)
                && d.led_names@.len() <= u16::MAX && d.led_alt_names@.len() <= u16::MAX,
            Err(e) => e == ProtocolError::Truncated && controller_of(
                payload@,
                0,
                idx,
                protocol_version,
            ) is None,
        },
{
    let mut cursor = Cursor::new(payload);
    read_controller(&mut cursor, idx, protocol_version)
}

/// Parses a controller record at the cursor and leaves the cursor behind it.
pub fn read_controller(cursor: &mut Cursor, idx: u32, protocol_version: u32) -> (r: Result<
    ControllerDescriptor,
    ProtocolError,
>)
    ensures
        final(cursor).bytes() == old(cursor).bytes(),
        match r {
            Ok(d) => controller_of(
                old(cursor).bytes(),
                old(cursor).position(),
                idx,
                protocol_version,
            ) == Some(d@) && record_end(
                old(cursor).bytes(),
                old(cursor).position(),
                protocol_version,
            ) == Some(final(cursor).position()) && d.led_names@.len() <= u16::MAX
                && d.led_alt_names@.len() <= u16::MAX,
            Err(e) => e == ProtocolError::Truncated && controller_of(
                old(cursor).bytes(),
                old(cursor).position(),
                idx,
                protocol_version,
            ) is None,
        },
{
    let identity = read_identity(cursor, protocol_version)?;
    skip_modes(cursor, protocol_version)?;
    skip_zones(cursor, protocol_version)?;
    let led_names = read_entries(cursor, 4)?;
    skip_colors(cursor)?;
    let led_alt_names = read_alt_names(cursor, protocol_version)?;
    let display_name = join_display_name(&identity.vendor, identity.name);
    Ok(
        ControllerDescriptor {
            index: idx,
            device_type: DeviceType::from_raw(identity.raw_type),
            display_name,
            vendor: identity.vendor,
            led_names,
            led_alt_names,
        },
    )
}

/// The name under which a device is shown.
fn join_display_name(vendor: &String, name: String) -> (shown: String)
    ensures
        shown@ == display_name_of(vendor@, name@),
{
    if vendor.as_str().is_empty() {
        name
    } else {
        let mut shown = vendor.clone();
        shown.append(" ");
        shown.append(name.as_str());
        proof {
            reveal_strlit(" ");
            assert(" "@ =~= seq![' ']);
        }
        shown
    }
}

} // verus!
