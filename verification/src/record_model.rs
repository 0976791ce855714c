//! What a controller record is made of, written out field by field, and the
//! proof that the parser reads back what such a record holds.
//!
//! The parser passes over most of a record by lengths alone. The model here
//! names every field in wire order and says which of them a protocol version
//! has, so that the parser's lengths can be held against it.

use vstd::prelude::*;
use crate::controller::{
    alts_at, colors_end, controller_of, counted_entries_end, counted_modes_end,
    counted_zones_end, device_type_of, display_name_of, entries_end, entry_end, entry_texts,
    leds_at, matrix_len, mode_end, mode_fixed_len, modes_at, modes_end, record_alt_names,
    record_end, record_led_names, record_vendor, zone_end, zones_end, ControllerView,
};
use crate::cursor::{fixed_end, nul_position, string_end, text_at, utf8_lossy};
use crate::frame::colors_le;
use crate::le::{
    as_signed, i32_at, lemma_u16_le_roundtrip, lemma_u32_le_roundtrip, u16_at, u16_le, u32_at,
    u32_le,
};

verus! {

/// Whether `part` stands in `buf` at `pos`.
pub open spec fn holds_at(buf: Seq<u8>, pos: int, part: Seq<u8>) -> bool {
    0 <= pos && pos + part.len() <= buf.len() && buf.subrange(pos, pos + part.len()) == part
}

/// Where two parts stand one behind the other, each of them stands.
pub proof fn lemma_holds_split(buf: Seq<u8>, pos: int, first: Seq<u8>, second: Seq<u8>)
    requires
        holds_at(buf, pos, first + second),
    ensures
        holds_at(buf, pos, first),
        holds_at(buf, pos + first.len(), second),
{
    let whole = first + second;
    let window = buf.subrange(pos, pos + whole.len());
    assert(buf.subrange(pos, pos + first.len()) =~= window.subrange(0, first.len() as int));
    assert(whole.subrange(0, first.len() as int) =~= first);
    assert(buf.subrange(pos + first.len(), pos + first.len() + second.len()) =~= window.subrange(
        first.len() as int,
        whole.len() as int,
    ));
    assert(whole.subrange(first.len() as int, whole.len() as int) =~= second);
}

/// The wire form of a string: its length and its bytes.
pub open spec fn string_le(bytes: Seq<u8>) -> Seq<u8> {
    u16_le(bytes.len() as u16) + bytes
}

/// The text that the bytes of a string stand for: what is before the first
/// zero byte, decoded permissively.
pub open spec fn text_of(bytes: Seq<u8>) -> Seq<char> {
    utf8_lossy(bytes.take(nul_position(bytes)))
}

/// A string that stands in a buffer is read back with its text, and the
/// read ends behind it.
pub proof fn lemma_string_read(buf: Seq<u8>, pos: int, bytes: Seq<u8>)
    requires
        bytes.len() <= u16::MAX,
        holds_at(buf, pos, string_le(bytes)),
    ensures
        string_end(buf, pos) == Some(pos + 2 + bytes.len()),
        text_at(buf, pos) == text_of(bytes),
{
    lemma_holds_split(buf, pos, u16_le(bytes.len() as u16), bytes);
    lemma_u16_le_roundtrip(bytes.len() as u16, buf, pos);
}

/// A `u16` that stands in a buffer is read back.
pub proof fn lemma_u16_read(buf: Seq<u8>, pos: int, v: u16)
    requires
        holds_at(buf, pos, u16_le(v)),
    ensures
        u16_at(buf, pos) == v,
        fixed_end(buf, pos, 2) == Some(pos + 2),
{
    lemma_u16_le_roundtrip(v, buf, pos);
}

/// A `u32` that stands in a buffer is read back.
pub proof fn lemma_u32_read(buf: Seq<u8>, pos: int, v: u32)
    requires
        holds_at(buf, pos, u32_le(v)),
    ensures
        u32_at(buf, pos) == v,
        fixed_end(buf, pos, 4) == Some(pos + 4),
{
    lemma_u32_le_roundtrip(v, buf, pos);
}

/// Colours take four bytes each.
pub proof fn lemma_colors_len(colors: Seq<u32>)
    ensures
        colors_le(colors).len() == 4 * colors.len(),
    decreases colors.len(),
{
    if colors.len() > 0 {
        lemma_colors_len(colors.drop_last());
    }
}

/// The wire form of a block of colours: their count and the colours.
pub open spec fn counted_colors_le(colors: Seq<u32>) -> Seq<u8> {
    u16_le(colors.len() as u16) + colors_le(colors)
}

/// A block of colours that stands in a buffer is passed over exactly.
pub proof fn lemma_colors_read(buf: Seq<u8>, pos: int, colors: Seq<u32>)
    requires
        colors.len() <= u16::MAX,
        holds_at(buf, pos, counted_colors_le(colors)),
    ensures
        colors_end(buf, pos) == Some(pos + counted_colors_le(colors).len()),
        counted_colors_le(colors).len() == 2 + 4 * colors.len(),
{
    lemma_colors_len(colors);
    lemma_holds_split(buf, pos, u16_le(colors.len() as u16), colors_le(colors));
    lemma_u16_read(buf, pos, colors.len() as u16);
}

/// An entry of a list in a record: a name and the fixed-width fields that
/// follow it, as bytes.
pub struct EntryModel {
    pub name: Seq<u8>,
    pub trailer: Seq<u8>,
}

/// The wire form of an entry.
pub open spec fn entry_le(entry: EntryModel) -> Seq<u8> {
    string_le(entry.name) + entry.trailer
}

/// The wire form of a list of entries, one behind the other.
pub open spec fn entries_le(entries: Seq<EntryModel>) -> Seq<u8>
    decreases entries.len(),
{
    if entries.len() == 0 {
        Seq::empty()
    } else {
        entry_le(entries[0]) + entries_le(entries.drop_first())
    }
}

/// Whether each entry's name fits a `u16` length and each trailer has
/// `trailer` bytes.
pub open spec fn entries_fit(entries: Seq<EntryModel>, trailer: int) -> bool {
    forall|i: int|
        0 <= i < entries.len() ==> (#[trigger] entries[i]).name.len() <= u16::MAX
            && entries[i].trailer.len() == trailer
}

/// The texts of the names of a list of entries.
pub open spec fn entry_names(entries: Seq<EntryModel>) -> Seq<Seq<char>> {
    Seq::new(entries.len(), |i: int| text_of(entries[i].name))
}

/// An entry that stands in a buffer is passed over exactly, and its name is
/// read back.
pub proof fn lemma_entry_read(buf: Seq<u8>, pos: int, entry: EntryModel)
    requires
        entry.name.len() <= u16::MAX,
        holds_at(buf, pos, entry_le(entry)),
    ensures
        entry_end(buf, pos, entry.trailer.len() as int) == Some(pos + entry_le(entry).len()),
        text_at(buf, pos) == text_of(entry.name),
{
    lemma_holds_split(buf, pos, string_le(entry.name), entry.trailer);
    lemma_string_read(buf, pos, entry.name);
}

/// A list of entries that stands in a buffer is passed over exactly, and
/// the names are read back in order.
pub proof fn lemma_entries_read(buf: Seq<u8>, pos: int, entries: Seq<EntryModel>, trailer: int)
    requires
        entries_fit(entries, trailer),
        holds_at(buf, pos, entries_le(entries)),
    ensures
        entries_end(buf, pos, entries.len(), trailer) == Some(pos + entries_le(entries).len()),
        entry_texts(buf, pos, entries.len(), trailer) == entry_names(entries),
    decreases entries.len(),
{
    if entries.len() == 0 {
        assert(entry_texts(buf, pos, 0, trailer) =~= entry_names(entries));
    } else {
        let first = entries[0];
        let rest = entries.drop_first();
        lemma_holds_split(buf, pos, entry_le(first), entries_le(rest));
        lemma_entry_read(buf, pos, first);
        assert forall|i: int| 0 <= i < rest.len() implies (#[trigger] rest[i]).name.len()
            <= u16::MAX && rest[i].trailer.len() == trailer by {
            assert(rest[i] == entries[i + 1]);
        }
        let next = pos + entry_le(first).len();
        lemma_entries_read(buf, next, rest, trailer);
        assert(entry_names(entries) =~= seq![text_of(first.name)] + entry_names(rest)) by {
            assert forall|i: int| 0 <= i < entries.len() implies entry_names(entries)[i] == (
            seq![text_of(first.name)] + entry_names(rest))[i] by {
                if i > 0 {
                    assert(rest[i - 1] == entries[i]);
                }
            }
        }
    }
}

/// The wire form of a list of entries with its count.
pub open spec fn counted_entries_le(entries: Seq<EntryModel>) -> Seq<u8> {
    u16_le(entries.len() as u16) + entries_le(entries)
}

/// A counted list of entries that stands in a buffer is passed over
/// exactly, and the names are read back in order.
pub proof fn lemma_counted_entries_read(
    buf: Seq<u8>,
    pos: int,
    entries: Seq<EntryModel>,
    trailer: int,
)
    requires
        entries.len() <= u16::MAX,
        entries_fit(entries, trailer),
        holds_at(buf, pos, counted_entries_le(entries)),
    ensures
        counted_entries_end(buf, pos, trailer) == Some(pos + counted_entries_le(entries).len()),
        u16_at(buf, pos) == entries.len(),
        entry_texts(buf, pos + 2, entries.len(), trailer) == entry_names(entries),
{
    lemma_holds_split(buf, pos, u16_le(entries.len() as u16), entries_le(entries));
    lemma_u16_read(buf, pos, entries.len() as u16);
    lemma_entries_read(buf, pos + 2, entries, trailer);
}

/// A mode of a controller, field by field in wire order.
pub struct ModeModel {
    pub name: Seq<u8>,
    pub value: u32,
    pub flags: u32,
    pub speed_min: u32,
    pub speed_max: u32,
    /// On the wire from version 3.
    pub brightness_min: u32,
    /// On the wire from version 3.
    pub brightness_max: u32,
    pub colors_min: u32,
    pub colors_max: u32,
    pub speed: u32,
    /// On the wire from version 3.
    pub brightness: u32,
    pub direction: u32,
    pub color_mode: u32,
    pub colors: Seq<u32>,
}

/// The fixed-width fields of a mode as a version writes them.
pub open spec fn mode_fields_le(mode: ModeModel, version: u32) -> Seq<u8> {
    u32_le(mode.value) + u32_le(mode.flags) + u32_le(mode.speed_min) + u32_le(mode.speed_max) + (
    if version >= 3 {
        u32_le(mode.brightness_min) + u32_le(mode.brightness_max)
    } else {
        Seq::empty()
    }) + u32_le(mode.colors_min) + u32_le(mode.colors_max) + u32_le(mode.speed) + (if version
        >= 3 {
        u32_le(mode.brightness)
    } else {
        Seq::empty()
    }) + u32_le(mode.direction) + u32_le(mode.color_mode)
}

/// The wire form of a mode.
pub open spec fn mode_le(mode: ModeModel, version: u32) -> Seq<u8> {
    string_le(mode.name) + mode_fields_le(mode, version) + counted_colors_le(mode.colors)
}

/// Whether a mode's name and colours fit their `u16` counts.
pub open spec fn mode_fits(mode: ModeModel) -> bool {
    mode.name.len() <= u16::MAX && mode.colors.len() <= u16::MAX
}

/// A mode that stands in a buffer is passed over exactly.
pub proof fn lemma_mode_read(buf: Seq<u8>, pos: int, mode: ModeModel, version: u32)
    requires
        mode_fits(mode),
        holds_at(buf, pos, mode_le(mode, version)),
    ensures
        mode_end(buf, pos, version) == Some(pos + mode_le(mode, version).len()),
{
    let name = string_le(mode.name);
    let fields = mode_fields_le(mode, version);
    let colors = counted_colors_le(mode.colors);
    assert(fields.len() == mode_fixed_len(version));
    lemma_holds_split(buf, pos, name + fields, colors);
    lemma_holds_split(buf, pos, name, fields);
    lemma_string_read(buf, pos, mode.name);
    lemma_colors_read(buf, pos + name.len() + fields.len(), mode.colors);
}

/// The wire form of a list of modes, one behind the other.
pub open spec fn modes_le(modes: Seq<ModeModel>, version: u32) -> Seq<u8>
    decreases modes.len(),
{
    if modes.len() == 0 {
        Seq::empty()
    } else {
        mode_le(modes[0], version) + modes_le(modes.drop_first(), version)
    }
}

/// A list of modes that stands in a buffer is passed over exactly.
pub proof fn lemma_modes_read(buf: Seq<u8>, pos: int, modes: Seq<ModeModel>, version: u32)
    requires
        forall|i: int| 0 <= i < modes.len() ==> mode_fits(#[trigger] modes[i]),
        holds_at(buf, pos, modes_le(modes, version)),
    ensures
        modes_end(buf, pos, version, modes.len()) == Some(pos + modes_le(modes, version).len()),
    decreases modes.len(),
{
    if modes.len() > 0 {
        let rest = modes.drop_first();
        lemma_holds_split(buf, pos, mode_le(modes[0], version), modes_le(rest, version));
        lemma_mode_read(buf, pos, modes[0], version);
        assert forall|i: int| 0 <= i < rest.len() implies mode_fits(#[trigger] rest[i]) by {
            assert(rest[i] == modes[i + 1]);
        }
        lemma_modes_read(buf, pos + mode_le(modes[0], version).len(), rest, version);
    }
}

/// A segment of a zone.
pub struct SegmentModel {
    pub name: Seq<u8>,
    pub kind: u32,
    pub start: u32,
    pub led_count: u32,
}

/// The segments of a zone as entries: each a name and three numbers.
pub open spec fn segment_entries(segments: Seq<SegmentModel>) -> Seq<EntryModel> {
    Seq::new(
        segments.len(),
        |i: int|
            EntryModel {
                name: segments[i].name,
                trailer: u32_le(segments[i].kind) + u32_le(segments[i].start) + u32_le(
                    segments[i].led_count,
                ),
            },
    )
}

/// The matrix of a zone: its height, its width and its cells.
pub struct MatrixModel {
    pub height: u32,
    pub width: u32,
    pub cells: Seq<u8>,
}

/// The wire form of a zone's matrix: the length of what follows, and for a
/// zone with a matrix the height, the width and the cells.
pub open spec fn matrix_le(matrix: Option<MatrixModel>) -> Seq<u8> {
    match matrix {
        None => u16_le(0),
        Some(m) => u16_le((8 + m.cells.len()) as u16) + u32_le(m.height) + u32_le(m.width)
            + m.cells,
    }
}

/// A zone of a controller, field by field in wire order.
pub struct ZoneModel {
    pub name: Seq<u8>,
    pub kind: u32,
    pub leds_min: u32,
    pub leds_max: u32,
    pub led_count: u32,
    pub matrix: Option<MatrixModel>,
    /// On the wire from version 4.
    pub segments: Seq<SegmentModel>,
    /// On the wire from version 5.
    pub flags: u32,
}

/// The name and fixed-width fields at the start of a zone.
pub open spec fn zone_head(zone: ZoneModel) -> EntryModel {
    EntryModel {
        name: zone.name,
        trailer: u32_le(zone.kind) + u32_le(zone.leds_min) + u32_le(zone.leds_max) + u32_le(
            zone.led_count,
        ),
    }
}

/// The wire form of a zone.
pub open spec fn zone_le(zone: ZoneModel, version: u32) -> Seq<u8> {
    entry_le(zone_head(zone)) + matrix_le(zone.matrix) + (if version >= 4 {
        counted_entries_le(segment_entries(zone.segments))
    } else {
        Seq::empty()
    }) + (if version >= 5 {
        u32_le(zone.flags)
    } else {
        Seq::empty()
    })
}

/// Whether a zone's name, matrix and segments fit their `u16` counts.
pub open spec fn zone_fits(zone: ZoneModel) -> bool {
    &&& zone.name.len() <= u16::MAX
    &&& zone.matrix matches Some(m) ==> 8 + m.cells.len() <= u16::MAX
    &&& zone.segments.len() <= u16::MAX
    &&& forall|i: int|
        0 <= i < zone.segments.len() ==> (#[trigger] zone.segments[i]).name.len() <= u16::MAX
}

/// A matrix that stands in a buffer is passed over exactly.
pub proof fn lemma_matrix_read(buf: Seq<u8>, pos: int, matrix: Option<MatrixModel>)
    requires
        matrix matches Some(m) ==> 8 + m.cells.len() <= u16::MAX,
        holds_at(buf, pos, matrix_le(matrix)),
    ensures
        fixed_end(buf, pos, 2) == Some(pos + 2),
        fixed_end(buf, pos + 2, matrix_len(u16_at(buf, pos))) == Some(
            pos + matrix_le(matrix).len(),
        ),
{
    match matrix {
        None => {
            lemma_u16_read(buf, pos, 0);
        },
        Some(m) => {
            let declared = (8 + m.cells.len()) as u16;
            lemma_holds_split(
                buf,
                pos,
                u16_le(declared) + u32_le(m.height) + u32_le(m.width),
                m.cells,
            );
            lemma_holds_split(buf, pos, u16_le(declared) + u32_le(m.height), u32_le(m.width));
            lemma_holds_split(buf, pos, u16_le(declared), u32_le(m.height));
            lemma_u16_read(buf, pos, declared);
        },
    }
}

/// What follows the matrix of a zone: the segments, from version 4, and
/// the flags, from version 5.
pub open spec fn zone_tail_le(zone: ZoneModel, version: u32) -> Seq<u8> {
    (if version >= 4 {
        counted_entries_le(segment_entries(zone.segments))
    } else {
        Seq::empty()
    }) + (if version >= 5 {
        u32_le(zone.flags)
    } else {
        Seq::empty()
    })
}

/// Where `pos` lies behind what follows the matrix of a zone, as a reader
/// at `version` passes over it.
pub open spec fn zone_tail_end(buf: Seq<u8>, pos: int, version: u32) -> Option<int> {
    match (if version >= 4 {
        counted_entries_end(buf, pos, 12)
    } else {
        Some(pos)
    }) {
        None => None,
        Some(flags) => if version >= 5 {
            fixed_end(buf, flags, 4)
        } else {
            Some(flags)
        },
    }
}

/// What follows the matrix of a zone is passed over exactly.
pub proof fn lemma_zone_tail_read(buf: Seq<u8>, pos: int, zone: ZoneModel, version: u32)
    requires
        zone_fits(zone),
        holds_at(buf, pos, zone_tail_le(zone, version)),
    ensures
        zone_tail_end(buf, pos, version) == Some(pos + zone_tail_le(zone, version).len()),
{
    let segments = if version >= 4 {
        counted_entries_le(segment_entries(zone.segments))
    } else {
        Seq::empty()
    };
    let flags = if version >= 5 {
        u32_le(zone.flags)
    } else {
        Seq::empty()
    };
    lemma_holds_split(buf, pos, segments, flags);
    if version >= 4 {
        let entries = segment_entries(zone.segments);
        assert(entries_fit(entries, 12));
        lemma_counted_entries_read(buf, pos, entries, 12);
    }
    if version >= 5 {
        lemma_u32_read(buf, pos + segments.len(), zone.flags);
    }
}

/// A zone that stands in a buffer is passed over exactly.
pub proof fn lemma_zone_read(buf: Seq<u8>, pos: int, zone: ZoneModel, version: u32)
    requires
        zone_fits(zone),
        holds_at(buf, pos, zone_le(zone, version)),
    ensures
        zone_end(buf, pos, version) == Some(pos + zone_le(zone, version).len()),
{
    let head = entry_le(zone_head(zone));
    let matrix = matrix_le(zone.matrix);
    let tail = zone_tail_le(zone, version);
    assert(zone_le(zone, version) =~= head + matrix + tail);
    lemma_holds_split(buf, pos, head + matrix, tail);
    lemma_holds_split(buf, pos, head, matrix);
    lemma_entry_read(buf, pos, zone_head(zone));
    lemma_matrix_read(buf, pos + head.len(), zone.matrix);
    lemma_zone_tail_read(buf, pos + head.len() + matrix.len(), zone, version);
    assert(zone_end(buf, pos, version) == zone_tail_end(
        buf,
        pos + head.len() + matrix.len(),
        version,
    ));
}

/// The wire form of a list of zones, one behind the other.
pub open spec fn zones_le(zones: Seq<ZoneModel>, version: u32) -> Seq<u8>
    decreases zones.len(),
{
    if zones.len() == 0 {
        Seq::empty()
    } else {
        zone_le(zones[0], version) + zones_le(zones.drop_first(), version)
    }
}

/// A list of zones that stands in a buffer is passed over exactly.
pub proof fn lemma_zones_read(buf: Seq<u8>, pos: int, zones: Seq<ZoneModel>, version: u32)
    requires
        forall|i: int| 0 <= i < zones.len() ==> zone_fits(#[trigger] zones[i]),
        holds_at(buf, pos, zones_le(zones, version)),
    ensures
        zones_end(buf, pos, version, zones.len()) == Some(pos + zones_le(zones, version).len()),
    decreases zones.len(),
{
    if zones.len() > 0 {
        let rest = zones.drop_first();
        lemma_holds_split(buf, pos, zone_le(zones[0], version), zones_le(rest, version));
        lemma_zone_read(buf, pos, zones[0], version);
        assert forall|i: int| 0 <= i < rest.len() implies zone_fits(#[trigger] rest[i]) by {
            assert(rest[i] == zones[i + 1]);
        }
        lemma_zones_read(buf, pos + zone_le(zones[0], version).len(), rest, version);
    }
}

/// An LED of a controller: its name and its value.
pub struct LedModel {
    pub name: Seq<u8>,
    pub value: u32,
}

/// The LEDs of a record as entries: each a name and a number.
pub open spec fn led_entries(leds: Seq<LedModel>) -> Seq<EntryModel> {
    Seq::new(leds.len(), |i: int| EntryModel { name: leds[i].name, trailer: u32_le(leds[i].value) })
}

/// Strings as entries: each a name and nothing else.
pub open spec fn bare_entries(names: Seq<Seq<u8>>) -> Seq<EntryModel> {
    Seq::new(names.len(), |i: int| EntryModel { name: names[i], trailer: Seq::empty() })
}

/// A controller record, field by field in wire order.
pub struct RecordModel {
    pub data_size: u32,
    pub device_type: u32,
    pub name: Seq<u8>,
    /// On the wire from version 1.
    pub vendor: Seq<u8>,
    pub description: Seq<u8>,
    pub firmware: Seq<u8>,
    pub serial: Seq<u8>,
    pub location: Seq<u8>,
    pub active_mode: u32,
    pub modes: Seq<ModeModel>,
    pub zones: Seq<ZoneModel>,
    pub leds: Seq<LedModel>,
    pub colors: Seq<u32>,
    /// On the wire from version 5.
    pub alt_names: Seq<Seq<u8>>,
    /// On the wire from version 5.
    pub flags: u32,
}

impl RecordModel {
    /// The four strings between the vendor and the modes.
    pub open spec fn unused(self) -> Seq<Seq<u8>> {
        seq![self.description, self.firmware, self.serial, self.location]
    }

    /// The record up to its modes.
    pub open spec fn identity_le(self, version: u32) -> Seq<u8> {
        u32_le(self.data_size) + u32_le(self.device_type) + string_le(self.name) + (if version
            >= 1 {
            string_le(self.vendor)
        } else {
            Seq::empty()
        }) + entries_le(bare_entries(self.unused()))
    }

    /// The modes with their count and the active mode.
    pub open spec fn modes_block_le(self, version: u32) -> Seq<u8> {
        u16_le(self.modes.len() as u16) + u32_le(self.active_mode) + modes_le(self.modes, version)
    }

    /// The zones with their count.
    pub open spec fn zones_block_le(self, version: u32) -> Seq<u8> {
        u16_le(self.zones.len() as u16) + zones_le(self.zones, version)
    }

    /// What closes the record from version 5 on: the alternate LED names
    /// and the flags.
    pub open spec fn closing_le(self, version: u32) -> Seq<u8> {
        if version >= 5 {
            counted_entries_le(bare_entries(self.alt_names)) + u32_le(self.flags)
        } else {
            Seq::empty()
        }
    }

    /// The wire form of the record as protocol version `version` writes it.
    pub open spec fn to_le(self, version: u32) -> Seq<u8> {
        self.identity_le(version) + self.modes_block_le(version) + self.zones_block_le(version)
            + counted_entries_le(led_entries(self.leds)) + counted_colors_le(self.colors)
            + self.closing_le(version)
    }

    /// Whether every string and every list of the record fits its `u16`
    /// count.
    pub open spec fn fits(self) -> bool {
        &&& self.name.len() <= u16::MAX
        &&& self.vendor.len() <= u16::MAX
        &&& self.description.len() <= u16::MAX
        &&& self.firmware.len() <= u16::MAX
        &&& self.serial.len() <= u16::MAX
        &&& self.location.len() <= u16::MAX
        &&& self.modes.len() <= u16::MAX
        &&& forall|i: int| 0 <= i < self.modes.len() ==> mode_fits(#[trigger] self.modes[i])
        &&& self.zones.len() <= u16::MAX
        &&& forall|i: int| 0 <= i < self.zones.len() ==> zone_fits(#[trigger] self.zones[i])
        &&& self.leds.len() <= u16::MAX
        &&& forall|i: int|
            0 <= i < self.leds.len() ==> (#[trigger] self.leds[i]).name.len() <= u16::MAX
        &&& self.colors.len() <= u16::MAX
        &&& self.alt_names.len() <= u16::MAX
        &&& forall|i: int|
            0 <= i < self.alt_names.len() ==> (#[trigger] self.alt_names[i]).len() <= u16::MAX
    }

    /// The vendor that a reader at `version` learns; none before version 1.
    pub open spec fn vendor_text(self, version: u32) -> Seq<char> {
        if version >= 1 {
            text_of(self.vendor)
        } else {
            Seq::empty()
        }
    }

    /// The controller that a reader at `version` learns from the record.
    pub open spec fn describes(self, index: u32, version: u32) -> ControllerView {
        ControllerView {
            index,
            device_type: device_type_of(as_signed(self.device_type)),
            display_name: display_name_of(self.vendor_text(version), text_of(self.name)),
            vendor: self.vendor_text(version),
            led_names: entry_names(led_entries(self.leds)),
            led_alt_names: if version >= 5 {
                entry_names(bare_entries(self.alt_names))
            } else {
                Seq::empty()
            },
        }
    }
}

/// The start of a record that stands in a buffer is read back: the device
/// type, the name and the vendor, and the read ends where the modes begin.
pub proof fn lemma_identity_read(buf: Seq<u8>, start: int, record: RecordModel, version: u32)
    requires
        record.fits(),
        holds_at(buf, start, record.identity_le(version)),
    ensures
        modes_at(buf, start, version) == Some(start + record.identity_le(version).len()),
        i32_at(buf, start + 4) == as_signed(record.device_type),
        text_at(buf, start + 8) == text_of(record.name),
        record_vendor(buf, start, version) == record.vendor_text(version),
{
    let size = u32_le(record.data_size);
    let kind = u32_le(record.device_type);
    let name = string_le(record.name);
    let vendor = if version >= 1 {
        string_le(record.vendor)
    } else {
        Seq::empty()
    };
    let unused = bare_entries(record.unused());
    lemma_holds_split(buf, start, size + kind + name + vendor, entries_le(unused));
    lemma_holds_split(buf, start, size + kind + name, vendor);
    lemma_holds_split(buf, start, size + kind, name);
    lemma_holds_split(buf, start, size, kind);
    lemma_u32_read(buf, start + 4, record.device_type);
    lemma_string_read(buf, start + 8, record.name);
    let at_vendor = start + 8 + name.len();
    if version >= 1 {
        lemma_string_read(buf, at_vendor, record.vendor);
    }
    assert(entries_fit(unused, 0));
    lemma_entries_read(buf, at_vendor + vendor.len(), unused, 0);
}

/// The modes of a record that stand in a buffer are passed over exactly.
pub proof fn lemma_modes_block_read(buf: Seq<u8>, pos: int, record: RecordModel, version: u32)
    requires
        record.fits(),
        holds_at(buf, pos, record.modes_block_le(version)),
    ensures
        counted_modes_end(buf, pos, version) == Some(pos + record.modes_block_le(version).len()),
{
    let count = u16_le(record.modes.len() as u16);
    let active = u32_le(record.active_mode);
    lemma_holds_split(buf, pos, count + active, modes_le(record.modes, version));
    lemma_holds_split(buf, pos, count, active);
    lemma_u16_read(buf, pos, record.modes.len() as u16);
    lemma_modes_read(buf, pos + 6, record.modes, version);
}

/// The zones of a record that stand in a buffer are passed over exactly.
pub proof fn lemma_zones_block_read(buf: Seq<u8>, pos: int, record: RecordModel, version: u32)
    requires
        record.fits(),
        holds_at(buf, pos, record.zones_block_le(version)),
    ensures
        counted_zones_end(buf, pos, version) == Some(pos + record.zones_block_le(version).len()),
{
    let count = u16_le(record.zones.len() as u16);
    lemma_holds_split(buf, pos, count, zones_le(record.zones, version));
    lemma_u16_read(buf, pos, record.zones.len() as u16);
    lemma_zones_read(buf, pos + 2, record.zones, version);
}

impl RecordModel {
    /// How far behind the start of the record its LEDs begin.
    pub open spec fn leds_offset(self, version: u32) -> int {
        (self.identity_le(version).len() + self.modes_block_le(version).len()
            + self.zones_block_le(version).len()) as int
    }

    /// How far behind the start of the record the part begins that version 5
    /// adds behind the colours.
    pub open spec fn closing_offset(self, version: u32) -> int {
        self.leds_offset(version) + counted_entries_le(led_entries(self.leds)).len()
            + counted_colors_le(self.colors).len()
    }
}

/// Where a record stands in a buffer, its LEDs stand at their offset, and
/// the reader finds them there.
pub proof fn lemma_leds_found(buf: Seq<u8>, record: RecordModel, version: u32)
    requires
        record.fits(),
        holds_at(buf, 0, record.to_le(version)),
    ensures
        modes_at(buf, 0, version) is Some,
        i32_at(buf, 4) == as_signed(record.device_type),
        text_at(buf, 8) == text_of(record.name),
        record_vendor(buf, 0, version) == record.vendor_text(version),
        leds_at(buf, 0, version) == Some(record.leds_offset(version)),
        holds_at(
            buf,
            record.leds_offset(version),
            counted_entries_le(led_entries(record.leds)) + counted_colors_le(record.colors)
                + record.closing_le(version),
        ),
{
    let identity = record.identity_le(version);
    let modes = record.modes_block_le(version);
    let zones = record.zones_block_le(version);
    let leds = counted_entries_le(led_entries(record.leds));
    let colors = counted_colors_le(record.colors);
    let closing = record.closing_le(version);
    assert(record.to_le(version) =~= identity + modes + zones + (leds + colors + closing));
    lemma_holds_split(buf, 0, identity + modes + zones, leds + colors + closing);
    lemma_holds_split(buf, 0, identity + modes, zones);
    lemma_holds_split(buf, 0, identity, modes);
    lemma_identity_read(buf, 0, record, version);
    lemma_modes_block_read(buf, identity.len() as int, record, version);
    lemma_zones_block_read(buf, (identity.len() + modes.len()) as int, record, version);
}

/// Where the LEDs, the colours and the closing part of a record stand one
/// behind the other, the reader passes over them exactly and learns the
/// names.
pub proof fn lemma_leds_read(buf: Seq<u8>, pos: int, record: RecordModel, version: u32)
    requires
        record.fits(),
        holds_at(
            buf,
            pos,
            counted_entries_le(led_entries(record.leds)) + counted_colors_le(record.colors)
                + record.closing_le(version),
        ),
    ensures
        counted_entries_end(buf, pos, 4) == Some(
            pos + counted_entries_le(led_entries(record.leds)).len(),
        ),
        entry_texts(buf, pos + 2, u16_at(buf, pos) as nat, 4) == entry_names(
            led_entries(record.leds),
        ),
        colors_end(buf, pos + counted_entries_le(led_entries(record.leds)).len()) == Some(
            pos + counted_entries_le(led_entries(record.leds)).len() + counted_colors_le(
                record.colors,
            ).len(),
        ),
        holds_at(
            buf,
            pos + counted_entries_le(led_entries(record.leds)).len() + counted_colors_le(
                record.colors,
            ).len(),
            record.closing_le(version),
        ),
{
    let leds = counted_entries_le(led_entries(record.leds));
    let colors = counted_colors_le(record.colors);
    let closing = record.closing_le(version);
    lemma_holds_split(buf, pos, leds + colors, closing);
    lemma_holds_split(buf, pos, leds, colors);
    assert(entries_fit(led_entries(record.leds), 4));
    lemma_counted_entries_read(buf, pos, led_entries(record.leds), 4);
    lemma_colors_read(buf, pos + leds.len(), record.colors);
}

/// Where the closing part of a record stands, a reader at version 5 passes
/// over it exactly and learns the alternate names.
pub proof fn lemma_closing_read(buf: Seq<u8>, pos: int, record: RecordModel, version: u32)
    requires
        record.fits(),
        version >= 5,
        holds_at(buf, pos, record.closing_le(version)),
    ensures
        counted_entries_end(buf, pos, 0) == Some(
            pos + counted_entries_le(bare_entries(record.alt_names)).len(),
        ),
        fixed_end(buf, pos + counted_entries_le(bare_entries(record.alt_names)).len(), 4) == Some(
            pos + record.closing_le(version).len(),
        ),
        entry_texts(buf, pos + 2, u16_at(buf, pos) as nat, 0) == entry_names(
            bare_entries(record.alt_names),
        ),
{
    let alts = counted_entries_le(bare_entries(record.alt_names));
    lemma_holds_split(buf, pos, alts, u32_le(record.flags));
    assert(entries_fit(bare_entries(record.alt_names), 0));
    lemma_counted_entries_read(buf, pos, bare_entries(record.alt_names), 0);
    lemma_u32_read(buf, pos + alts.len(), record.flags);
}

/// Where a record stands at the start of a buffer, the reader finds what
/// follows the colours at its offset, and has learned the LED names.
pub proof fn lemma_alts_found(buf: Seq<u8>, record: RecordModel, version: u32)
    requires
        record.fits(),
        holds_at(buf, 0, record.to_le(version)),
    ensures
        alts_at(buf, 0, version) == Some(record.closing_offset(version)),
        record_led_names(buf, 0, version) == entry_names(led_entries(record.leds)),
        holds_at(buf, record.closing_offset(version), record.closing_le(version)),
        record.to_le(version).len() == record.closing_offset(version) + record.closing_le(
            version,
        ).len(),
{
    lemma_leds_found(buf, record, version);
    lemma_leds_read(buf, record.leds_offset(version), record, version);
}

/// Where a record stands at the start of a buffer, the reader ends behind
/// it, and has learned the alternate names that its version has.
pub proof fn lemma_end_found(buf: Seq<u8>, record: RecordModel, version: u32)
    requires
        record.fits(),
        holds_at(buf, 0, record.to_le(version)),
    ensures
        record_end(buf, 0, version) == Some(record.to_le(version).len() as int),
        record_alt_names(buf, 0, version) == (if version >= 5 {
            entry_names(bare_entries(record.alt_names))
        } else {
            Seq::empty()
        }),
{
    lemma_alts_found(buf, record, version);
    if version >= 5 {
        lemma_closing_read(buf, record.closing_offset(version), record, version);
    }
}

/// Reading a record gives back what the record holds, for every protocol
/// version.
///
/// A record that fits its counts is written as `version` writes it, and
/// anything may follow it. A reader at the same version ends exactly behind
/// the record, and learns the device type, the names of the LEDs in order,
/// the vendor if the version has one, and the alternate names if the version
/// has them.
pub proof fn lemma_record_read(record: RecordModel, version: u32, index: u32, behind: Seq<u8>)
    requires
        record.fits(),
    ensures
        record_end(record.to_le(version) + behind, 0, version) == Some(
            record.to_le(version).len() as int,
        ),
        controller_of(record.to_le(version) + behind, 0, index, version) == Some(
            record.describes(index, version),
        ),
{
    let whole = record.to_le(version);
    let buf = whole + behind;
    assert(buf.subrange(0, whole.len() as int) =~= whole);
    lemma_leds_found(buf, record, version);
    lemma_alts_found(buf, record, version);
    lemma_end_found(buf, record, version);
}

} // verus!
