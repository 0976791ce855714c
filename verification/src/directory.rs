//! Which controller to drive, and which of its LEDs lies under which key.

use vstd::prelude::*;
use crate::controller::{texts, ControllerDescriptor, ControllerView, DeviceType};
use crate::error::ConnectError;
use crate::text::{
    char_is_alphanumeric, chars_contain, chars_occur_at, chars_of, contains, is_alphanumeric,
    lower_all, lower_chars, starts_with, trimmed, trimmed_upper, upper_all,
};

verus! {

/// The word that marks the space bar.
pub open spec fn space_word() -> Seq<char> {
    seq!['S', 'P', 'A', 'C', 'E']
}

/// The marker that may stand before a key's name.
pub open spec fn key_marker() -> Seq<char> {
    seq!['K', 'E', 'Y']
}

/// The marker with the colon that may follow it.
pub open spec fn key_marker_colon() -> Seq<char> {
    seq!['K', 'E', 'Y', ':']
}

/// `s` without the marker at its start, if it has one.
pub open spec fn without_marker(s: Seq<char>) -> Seq<char> {
    if starts_with(s, key_marker_colon()) {
        s.skip(4)
    } else if starts_with(s, key_marker()) {
        s.skip(3)
    } else {
        s
    }
}

/// Whether the character at `i` is a token of its own: a letter or digit
/// with no letter or digit beside it.
pub open spec fn is_lone_at(s: Seq<char>, i: int) -> bool {
    &&& 0 <= i < s.len()
    &&& is_alphanumeric(s[i])
    &&& (i == 0 || !is_alphanumeric(s[i - 1]))
    &&& (i + 1 == s.len() || !is_alphanumeric(s[i + 1]))
}

/// The first single-character token of `s` at or behind `i`.
pub open spec fn lone_from(s: Seq<char>, i: int) -> Option<char>
    decreases s.len() - i,
{
    if i < 0 || i >= s.len() {
        None
    } else if is_lone_at(s, i) {
        Some(s[i])
    } else {
        lone_from(s, i + 1)
    }
}

/// The key that an LED's name identifies.
///
/// The name is taken without the whitespace around it and in upper case. If
/// it holds the word `SPACE`, the key is the space bar. Else a marker `KEY:`
/// or `KEY` at its start is dropped, the rest is split at every character
/// that is no ASCII letter or digit, and the first piece of one character is
/// the key. A name without such a piece identifies no key.
pub open spec fn key_of(name: Seq<char>) -> Option<char> {
    let value = upper_all(trimmed(name));
    if contains(value, space_word()) {
        Some(' ')
    } else {
        lone_from(without_marker(value), 0)
    }
}

/// The key that an LED's name identifies, if any.
#[verifier::loop_isolation(false)]
pub fn extract_char(name: &str) -> (key: Option<char>)
    ensures
        key == key_of(name@),
{
    let value = trimmed_upper(name);
    let space = chars_of("SPACE");
    let marker_colon = chars_of("KEY:");
    let marker = chars_of("KEY");
    proof {
        reveal_strlit("SPACE");
        reveal_strlit("KEY:");
        reveal_strlit("KEY");
        assert(space@ =~= space_word());
        assert(marker_colon@ =~= key_marker_colon());
        assert(marker@ =~= key_marker());
    }
    if chars_contain(&value, &space) {
        return Some(' ');
    }
    let skip: usize = if chars_occur_at(&value, &marker_colon, 0) {
        4
    } else if chars_occur_at(&value, &marker, 0) {
        3
    } else {
        0
    };
    let ghost rest = without_marker(value@);
    assert(rest =~= value@.skip(skip as int));
    let n: usize = value.len();
    let mut i: usize = skip;
    while i < n
        invariant
            skip <= i <= n,
            n == value@.len(),
            rest == value@.skip(skip as int),
            lone_from(rest, 0) == lone_from(rest, i - skip),
        decreases n - i,
    {
        let c = value[i];
        let alone_before = i == skip || !char_is_alphanumeric(value[i - 1]);
        let alone_behind = i + 1 == n || !char_is_alphanumeric(value[i + 1]);
        assert(rest[i - skip] == c);
        if char_is_alphanumeric(c) && alone_before && alone_behind {
            assert(is_lone_at(rest, i - skip));
            return Some(c);
        }
        assert(!is_lone_at(rest, i - skip));
        i += 1;
    }
    None
}

/// The map from keys to hardware LED indices. Each key has at most one LED:
/// the one that was given first.
#[derive(Clone, Debug)]
pub struct KeyMap {
    entries: Vec<(char, u32)>,
}

/// The index given to `key` by the first entry that names it.
pub open spec fn first_entry(entries: Seq<(char, u32)>, key: char) -> Option<u32>
    decreases entries.len(),
{
    if entries.len() == 0 {
        None
    } else {
        match first_entry(entries.drop_last(), key) {
            Some(led) => Some(led),
            None => if entries.last().0 == key {
                Some(entries.last().1)
            } else {
                None
            },
        }
    }
}

impl View for KeyMap {
    type V = Map<char, u32>;

    closed spec fn view(&self) -> Map<char, u32> {
        Map::new(
            |key: char| first_entry(self.entries@, key) is Some,
            |key: char| first_entry(self.entries@, key).unwrap(),
        )
    }
}

impl KeyMap {
    /// A map without keys.
    pub fn new() -> (map: KeyMap)
        ensures
            map@ == Map::<char, u32>::empty(),
    {
        let map = KeyMap { entries: Vec::new() };
        assert(map@ =~= Map::<char, u32>::empty());
        map
    }

    /// The LED under `key`.
    pub fn get(&self, key: char) -> (led: Option<u32>)
        ensures
            led == (if self@.contains_key(key) {
                Some(self@[key])
            } else {
                None
            }),
    {
        let mut i: usize = 0;
        while i < self.entries.len()
            invariant
                i <= self.entries@.len(),
                first_entry(self.entries@.take(i as int), key) is None,
            decreases self.entries@.len() - i,
        {
            let ghost before = self.entries@.take(i as int);
            let ghost upto = self.entries@.take(i + 1);
            assert(upto.drop_last() =~= before);
            if self.entries[i].0 == key {
                proof {
                    lemma_first_entry_stays(self.entries@, i + 1, key);
                }
                return Some(self.entries[i].1);
            }
            i += 1;
        }
        assert(self.entries@.take(self.entries@.len() as int) =~= self.entries@);
        None
    }

    /// Whether the map has no key.
    pub fn is_empty(&self) -> (empty: bool)
        ensures
            empty == (self@ == Map::<char, u32>::empty()),
    {
        if self.entries.len() == 0 {
            assert(self@ =~= Map::<char, u32>::empty());
            true
        } else {
            proof {
                let key = self.entries@[0].0;
                lemma_first_entry_stays(self.entries@, 1, key);
                assert(self.entries@.take(1).drop_last() =~= Seq::<(char, u32)>::empty());
                assert(self@.contains_key(key));
            }
            false
        }
    }

    /// Gives `key` the LED `led`, unless the key has one already.
    pub fn insert_first(&mut self, key: char, led: u32)
        ensures
            final(self)@ == (if old(self)@.contains_key(key) {
                old(self)@
            } else {
                old(self)@.insert(key, led)
            }),
    {
        let ghost before = self.entries@;
        self.entries.push((key, led));
        proof {
            assert(self.entries@.drop_last() =~= before);
            if old(self)@.contains_key(key) {
                assert(self@ =~= old(self)@);
            } else {
                assert(self@ =~= old(self)@.insert(key, led));
            }
        }
    }
}

/// What the first `n` entries decide for a key, all the entries decide.
pub proof fn lemma_first_entry_stays(entries: Seq<(char, u32)>, n: int, key: char)
    requires
        0 <= n <= entries.len(),
        first_entry(entries.take(n), key) is Some,
    ensures
        first_entry(entries, key) == first_entry(entries.take(n), key),
    decreases entries.len() - n,
{
    if n < entries.len() {
        assert(entries.take(n + 1).drop_last() =~= entries.take(n));
        lemma_first_entry_stays(entries, n + 1, key);
    } else {
        assert(entries.take(n) =~= entries);
    }
}

/// One LED name with its hardware index.
pub struct IndexedName {
    pub name: Seq<char>,
    pub led: int,
}

/// The LED names in the order in which they are scanned: the alternate
/// names first, as far as there are primary names for their indices, then
/// the primary names.
pub open spec fn scan_order(led_names: Seq<Seq<char>>, led_alt_names: Seq<Seq<char>>) -> Seq<
    IndexedName,
> {
    let alts = if led_alt_names.len() <= led_names.len() {
        led_alt_names.len()
    } else {
        led_names.len()
    };
    Seq::new(
        alts + led_names.len(),
        |k: int|
            if k < alts {
                IndexedName { name: led_alt_names[k], led: k }
            } else {
                IndexedName { name: led_names[k - alts], led: k - alts }
            },
    )
}

/// The position in `scan` of the first name that identifies `key`.
pub open spec fn first_naming(scan: Seq<IndexedName>, key: char) -> Option<int>
    decreases scan.len(),
{
    if scan.len() == 0 {
        None
    } else {
        match first_naming(scan.drop_last(), key) {
            Some(k) => Some(k),
            None => if key_of(scan.last().name) == Some(key) {
                Some(scan.len() - 1)
            } else {
                None
            },
        }
    }
}

/// The key map that a scan gives: each key that some name identifies, with
/// the hardware index of the first name that does.
pub open spec fn key_map_of(scan: Seq<IndexedName>) -> Map<char, u32> {
    Map::new(
        |key: char| first_naming(scan, key) is Some,
        |key: char| scan[first_naming(scan, key).unwrap()].led as u32,
    )
}

/// `first_naming` is the least position whose name identifies the key.
pub proof fn lemma_first_naming(scan: Seq<IndexedName>, key: char)
    ensures
        match first_naming(scan, key) {
            Some(k) => 0 <= k < scan.len() && key_of(scan[k].name) == Some(key) && forall|j: int|
                0 <= j < k ==> key_of(#[trigger] scan[j].name) != Some(key),
            None => forall|j: int|
                0 <= j < scan.len() ==> key_of(#[trigger] scan[j].name) != Some(key),
        },
    decreases scan.len(),
{
    if scan.len() > 0 {
        let rest = scan.drop_last();
        lemma_first_naming(rest, key);
        assert forall|j: int| 0 <= j < rest.len() implies rest[j] == scan[j] by {}
        match first_naming(rest, key) {
            Some(k) => {
                assert(rest[k] == scan[k]);
                assert forall|j: int| 0 <= j < k implies key_of(#[trigger] scan[j].name) != Some(
                    key,
                ) by {
                    assert(rest[j] == scan[j]);
                }
            },
            None => {
                assert forall|j: int| 0 <= j < rest.len() implies key_of(
                    #[trigger] scan[j].name,
                ) != Some(key) by {
                    assert(rest[j] == scan[j]);
                }
            },
        }
    }
}

/// A further name never moves a key that has an LED: the first association
/// stands.
pub proof fn lemma_first_association_wins(scan: Seq<IndexedName>, more: IndexedName, key: char)
    requires
        key_map_of(scan).contains_key(key),
    ensures
        key_map_of(scan.push(more)).contains_key(key),
        key_map_of(scan.push(more))[key] == key_map_of(scan)[key],
{
    assert(scan.push(more).drop_last() =~= scan);
    lemma_first_naming(scan, key);
}

/// What the name at position `n` adds to the key map of the names before it:
/// its key with its LED, unless it identifies no key or the key has an LED.
proof fn lemma_key_map_step(scan: Seq<IndexedName>, n: int)
    requires
        0 <= n < scan.len(),
    ensures
        key_map_of(scan.take(n + 1)) == (match key_of(scan[n].name) {
            Some(key) => if key_map_of(scan.take(n)).contains_key(key) {
                key_map_of(scan.take(n))
            } else {
                key_map_of(scan.take(n)).insert(key, scan[n].led as u32)
            },
            None => key_map_of(scan.take(n)),
        }),
{
    let before = scan.take(n);
    let upto = scan.take(n + 1);
    assert(upto.drop_last() =~= before);
    assert(upto.last() == scan[n]);
    let expected = match key_of(scan[n].name) {
        Some(key) => if key_map_of(before).contains_key(key) {
            key_map_of(before)
        } else {
            key_map_of(before).insert(key, scan[n].led as u32)
        },
        None => key_map_of(before),
    };
    assert forall|key: char| #[trigger]
        key_map_of(upto).contains_key(key) == expected.contains_key(key) && (key_map_of(
            upto,
        ).contains_key(key) ==> key_map_of(upto)[key] == expected[key]) by {
        lemma_first_naming(before, key);
        if first_naming(before, key) is Some {
            let k = first_naming(before, key).unwrap();
            assert(before[k] == upto[k]);
        }
    }
    assert(key_map_of(upto) =~= expected);
}

/// Builds the key map of a device from its LED names. Alternate names are
/// scanned before primary names, and the first LED found for a key keeps it.
pub fn build_led_map(led_names: &Vec<String>, led_alt_names: &Vec<String>) -> (map: KeyMap)
    requires
        led_names@.len() <= u32::MAX,
    ensures
        map@ == key_map_of(scan_order(texts(led_names@), texts(led_alt_names@))),
{
    let ghost scan = scan_order(texts(led_names@), texts(led_alt_names@));
    let mut map = KeyMap::new();
    let alts: usize = if led_alt_names.len() <= led_names.len() {
        led_alt_names.len()
    } else {
        led_names.len()
    };
    assert(map@ =~= key_map_of(scan.take(0)));
    let mut i: usize = 0;
    while i < alts
        invariant
            i <= alts,
            alts <= led_alt_names@.len(),
            alts <= led_names@.len() <= u32::MAX,
            scan == scan_order(texts(led_names@), texts(led_alt_names@)),
            scan.len() == alts + led_names@.len(),
            map@ == key_map_of(scan.take(i as int)),
        decreases alts - i,
    {
        proof {
            lemma_key_map_step(scan, i as int);
            assert(scan[i as int].name == led_alt_names@[i as int]@);
        }
        match extract_char(led_alt_names[i].as_str()) {
            Some(key) => {
                map.insert_first(key, i as u32);
            },
            None => {},
        }
        i += 1;
    }
    let mut j: usize = 0;
    while j < led_names.len()
        invariant
            j <= led_names@.len() <= u32::MAX,
            alts <= led_alt_names@.len(),
            alts <= led_names@.len(),
            scan == scan_order(texts(led_names@), texts(led_alt_names@)),
            scan.len() == alts + led_names@.len(),
            map@ == key_map_of(scan.take(alts + j)),
        decreases led_names@.len() - j,
    {
        proof {
            lemma_key_map_step(scan, alts + j);
            assert(scan[alts + j].name == led_names@[j as int]@);
        }
        match extract_char(led_names[j].as_str()) {
            Some(key) => {
                map.insert_first(key, j as u32);
            },
            None => {},
        }
        j += 1;
    }
    assert(scan.take(scan.len() as int) =~= scan);
    map
}

/// Whether the vendor or the display name of `device` holds `hint`, letter
/// case aside.
pub open spec fn is_preferred(device: ControllerView, hint: Seq<char>) -> bool {
    contains(lower_all(device.vendor), lower_all(hint)) || contains(
        lower_all(device.display_name),
        lower_all(hint),
    )
}

/// The position of the first keyboard among `devices` at or behind `i`; with
/// `preferred_only`, of the first that the hint prefers.
pub open spec fn first_keyboard(
    devices: Seq<ControllerView>,
    hint: Seq<char>,
    preferred_only: bool,
    i: int,
) -> Option<int>
    decreases devices.len() - i,
{
    if i < 0 || i >= devices.len() {
        None
    } else if devices[i].device_type == DeviceType::Keyboard && (!preferred_only || is_preferred(
        devices[i],
        hint,
    )) {
        Some(i)
    } else {
        first_keyboard(devices, hint, preferred_only, i + 1)
    }
}

/// The position of the device to drive: the first keyboard that the hint
/// prefers, else the first keyboard.
pub open spec fn selected(devices: Seq<ControllerView>, hint: Seq<char>) -> Option<int> {
    match first_keyboard(devices, hint, true, 0) {
        Some(k) => Some(k),
        None => first_keyboard(devices, hint, false, 0),
    }
}

/// The device selected is one of the devices.
pub proof fn lemma_selected_in_range(devices: Seq<ControllerView>, hint: Seq<char>)
    ensures
        selected(devices, hint) matches Some(k) ==> 0 <= k < devices.len() && devices[k].device_type
            == DeviceType::Keyboard,
{
    lemma_first_keyboard(devices, hint, true, 0);
    lemma_first_keyboard(devices, hint, false, 0);
}

/// `first_keyboard` is the least position at or behind `i` that holds a
/// keyboard of the kind asked for.
pub proof fn lemma_first_keyboard(
    devices: Seq<ControllerView>,
    hint: Seq<char>,
    preferred_only: bool,
    i: int,
)
    requires
        0 <= i,
    ensures
        match first_keyboard(devices, hint, preferred_only, i) {
            Some(k) => i <= k < devices.len() && devices[k].device_type == DeviceType::Keyboard
                && (preferred_only ==> is_preferred(devices[k], hint)) && forall|j: int|
                i <= j < k ==> !((#[trigger] devices[j]).device_type == DeviceType::Keyboard && (
                !preferred_only || is_preferred(devices[j], hint))),
            None => forall|j: int|
                i <= j < devices.len() ==> !((#[trigger] devices[j]).device_type
                    == DeviceType::Keyboard && (!preferred_only || is_preferred(
                    devices[j],
                    hint,
                ))),
        },
    decreases devices.len() - i,
{
    if i < devices.len() {
        lemma_first_keyboard(devices, hint, preferred_only, i + 1);
    }
}

/// The controller descriptions as mathematical values.
pub open spec fn views(devices: Seq<ControllerDescriptor>) -> Seq<ControllerView> {
    Seq::new(devices.len(), |i: int| devices[i]@)
}

/// Finds the first keyboard; with `preferred_only`, the first that the hint
/// prefers. `hint_lower` is the hint in lower case.
fn find_keyboard(
    devices: &Vec<ControllerDescriptor>,
    hint_lower: &Vec<char>,
    Ghost(hint): Ghost<Seq<char>>,
    preferred_only: bool,
) -> (found: Option<usize>)
    requires
        hint_lower@ == lower_all(hint),
    ensures
        match found {
            Some(k) => first_keyboard(views(devices@), hint, preferred_only, 0) == Some(
                k as int,
            ) && k < devices@.len(),
            None => first_keyboard(views(devices@), hint, preferred_only, 0) is None,
        },
{
    let ghost all = views(devices@);
    let mut i: usize = 0;
    while i < devices.len()
        invariant
            i <= devices@.len(),
            all == views(devices@),
            hint_lower@ == lower_all(hint),
            first_keyboard(all, hint, preferred_only, 0) == first_keyboard(
                all,
                hint,
                preferred_only,
                i as int,
            ),
        decreases devices@.len() - i,
    {
        let device = &devices[i];
        assert(all[i as int] == device@);
        let is_keyboard = match device.device_type {
            DeviceType::Keyboard => true,
            DeviceType::Other(_) => false,
        };
        if is_keyboard {
            if !preferred_only {
                return Some(i);
            }
            let vendor = lower_chars(device.vendor.as_str());
            let shown = lower_chars(device.display_name.as_str());
            if chars_contain(&vendor, hint_lower) || chars_contain(&shown, hint_lower) {
                return Some(i);
            }
        }
        i += 1;
    }
    None
}

/// Picks the device to drive: among the keyboards the first whose vendor or
/// display name holds `preferred_vendor`, letter case aside, else the first
/// keyboard. Fails with `NoKeyboard` exactly when no device is a keyboard.
pub fn select_keyboard(devices: Vec<ControllerDescriptor>, preferred_vendor: &str) -> (r: Result<
    ControllerDescriptor,
    ConnectError,
>)
    ensures
        match r {
            Ok(device) => selected(views(devices@), preferred_vendor@) is Some && device@
                == devices@[selected(views(devices@), preferred_vendor@).unwrap()]@,
            Err(e) => e == ConnectError::NoKeyboard && selected(
                views(devices@),
                preferred_vendor@,
            ) is None,
        },
{
    let mut devices = devices;
    let hint = lower_chars(preferred_vendor);
    let found = match find_keyboard(&devices, &hint, Ghost(preferred_vendor@), true) {
        Some(k) => Some(k),
        None => find_keyboard(&devices, &hint, Ghost(preferred_vendor@), false),
    };
    match found {
        Some(k) => Ok(devices.swap_remove(k)),
        None => Err(ConnectError::NoKeyboard),
    }
}

} // verus!
