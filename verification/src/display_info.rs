//! Displays: the per-device metadata table and the description of each monitor.

use vstd::prelude::*;

use crate::text::str_eq;
use crate::utf16::{nul_terminated_text, utf16_to_string, InvalidUtf16};

verus! {

/// The monitor flag that marks the primary monitor.
pub const MONITORINFOF_PRIMARY: u32 = 1;

/// The advanced-color bit that says advanced color is enabled.
pub const ADVANCED_COLOR_ENABLED_BIT: u32 = 2;

/// The advanced-color bit that says wide color is enforced.
pub const WIDE_COLOR_ENFORCED_BIT: u32 = 4;

/// A rectangle in virtual-screen coordinates.
#[derive(Copy, Clone, Debug, PartialEq, Eq, Structural)]
pub struct Rect {
    pub left: i32,
    pub top: i32,
    pub right: i32,
    pub bottom: i32,
}

/// What the display configuration says of one device: its friendly name and
/// whether HDR is on.
pub struct DisplayMetadata {
    pub display_name: String,
    pub hdr_enabled: bool,
}

impl View for DisplayMetadata {
    type V = (Seq<char>, bool);

    open spec fn view(&self) -> (Seq<char>, bool) {
        (self.display_name@, self.hdr_enabled)
    }
}

/// Display metadata keyed by GDI device name; a device occurs at most once.
pub struct DeviceMetadataMap {
    entries: Vec<(String, DisplayMetadata)>,
}

spec fn keys_distinct(s: Seq<(String, DisplayMetadata)>) -> bool {
    forall|i: int, j: int|
        0 <= i < s.len() && 0 <= j < s.len() && i != j ==> #[trigger] s[i].0@ != #[trigger] s[j].0@
}

spec fn has_key(s: Seq<(String, DisplayMetadata)>, k: Seq<char>) -> bool {
    exists|i: int| 0 <= i < s.len() && #[trigger] s[i].0@ == k
}

spec fn index_of(s: Seq<(String, DisplayMetadata)>, k: Seq<char>) -> int {
    choose|i: int| 0 <= i < s.len() && #[trigger] s[i].0@ == k
}

spec fn map_of(s: Seq<(String, DisplayMetadata)>) -> Map<Seq<char>, (Seq<char>, bool)> {
    Map::new(|k: Seq<char>| has_key(s, k), |k: Seq<char>| s[index_of(s, k)].1@)
}

proof fn lemma_index_of(s: Seq<(String, DisplayMetadata)>, i: int)
    requires
        keys_distinct(s),
        0 <= i < s.len(),
    ensures
        has_key(s, s[i].0@),
        index_of(s, s[i].0@) == i,
        map_of(s).contains_key(s[i].0@),
        map_of(s)[s[i].0@] == s[i].1@,
{
    let k = s[i].0@;
    assert(s[i].0@ == k);
    let j = index_of(s, k);
    if j != i {
        assert(s[j].0@ != s[i].0@);
    }
}

proof fn lemma_map_len(s: Seq<(String, DisplayMetadata)>)
    requires
        keys_distinct(s),
    ensures
        map_of(s).dom().len() == s.len(),
        map_of(s).dom().finite(),
{
    let keys = Seq::new(s.len(), |i: int| s[i].0@);
    assert forall|i: int, j: int| 0 <= i < j < keys.len() implies keys[i] != keys[j] by {
        assert(s[i].0@ != s[j].0@);
    }
    keys.unique_seq_to_set();
    assert forall|k: Seq<char>| map_of(s).dom().contains(k) <==> keys.to_set().contains(k) by {
        if map_of(s).dom().contains(k) {
            let i = index_of(s, k);
            assert(keys[i] == k);
        }
        if keys.to_set().contains(k) {
            let i = choose|i: int| 0 <= i < keys.len() && keys[i] == k;
            assert(s[i].0@ == k);
        }
    }
    assert(map_of(s).dom() =~= keys.to_set());
}

/// Writing an entry over the one with the same key, or appending an entry with a
/// new key, is a map insert.
proof fn lemma_map_after_write(
    before: Seq<(String, DisplayMetadata)>,
    after: Seq<(String, DisplayMetadata)>,
    pos: int,
)
    requires
        keys_distinct(before),
        keys_distinct(after),
        0 <= pos < after.len(),
        (after.len() == before.len() && before[pos].0@ == after[pos].0@) || (after.len()
            == before.len() + 1 && pos == before.len() && !has_key(before, after[pos].0@)),
        forall|j: int| 0 <= j < before.len() && j != pos ==> #[trigger] after[j] == before[j],
    ensures
        map_of(after) =~= map_of(before).insert(after[pos].0@, after[pos].1@),
{
    let key = after[pos].0@;
    assert forall|k: Seq<char>|
        #[trigger] map_of(after).contains_key(k) == map_of(before).insert(
            key,
            after[pos].1@,
        ).contains_key(k) by {
        if k == key {
            lemma_index_of(after, pos);
        } else if has_key(before, k) {
            let j = index_of(before, k);
            if j == pos {
                assert(before[pos].0@ == after[pos].0@);
            }
            assert(after[j].0@ == k);
        } else if has_key(after, k) {
            let j = index_of(after, k);
            assert(j != pos);
            assert(j < before.len());
            assert(before[j] == after[j]);
            assert(before[j].0@ == k);
        }
    }
    assert forall|k: Seq<char>| #[trigger]
        map_of(after).contains_key(k) implies map_of(after)[k] == map_of(before).insert(
        key,
        after[pos].1@,
    )[k] by {
        if k == key {
            lemma_index_of(after, pos);
        } else {
            let j = index_of(after, k);
            lemma_index_of(after, j);
            assert(j != pos);
            assert(j < before.len());
            assert(before[j] == after[j]);
            lemma_index_of(before, j);
        }
    }
}

impl DeviceMetadataMap {
    #[verifier::type_invariant]
    spec fn wf(self) -> bool {
        keys_distinct(self.entries@)
    }

    /// Creates an empty table.
    pub fn new() -> (m: DeviceMetadataMap)
        ensures
            m@ == Map::<Seq<char>, (Seq<char>, bool)>::empty(),
    {
        let m = DeviceMetadataMap { entries: Vec::new() };
        assert(m@ =~= Map::<Seq<char>, (Seq<char>, bool)>::empty());
        m
    }

    /// The number of devices in the table.
    pub fn len(&self) -> (n: usize)
        ensures
            n == self@.dom().len(),
    {
        proof {
            use_type_invariant(self);
            lemma_map_len(self.entries@);
        }
        self.entries.len()
    }

    /// Looks a device up by its name (`HashMap::get`).
    pub fn get(&self, device_name: &str) -> (r: Option<&DisplayMetadata>)
        ensures
            match r {
                Some(m) => self@.contains_key(device_name@) && self@[device_name@] == m@,
                None => !self@.contains_key(device_name@),
            },
    {
        proof {
            use_type_invariant(self);
        }
        let n = self.entries.len();
        let mut i: usize = 0;
        while i < n
            invariant
                n == self.entries@.len(),
                i <= n,
                keys_distinct(self.entries@),
                forall|j: int| 0 <= j < i ==> #[trigger] self.entries@[j].0@ != device_name@,
            decreases n - i,
        {
            if str_eq(self.entries[i].0.as_str(), device_name) {
                proof {
                    lemma_index_of(self.entries@, i as int);
                }
                return Some(&self.entries[i].1);
            }
            i = i + 1;
        }
        None
    }

    /// Records the metadata of a device, replacing what the table held for it
    /// (`HashMap::insert`).
    pub fn insert(&mut self, device_name: String, metadata: DisplayMetadata)
        ensures
            final(self)@ == old(self)@.insert(device_name@, metadata@),
    {
        proof {
            use_type_invariant(&*self);
        }
        let mut entries: Vec<(String, DisplayMetadata)> = Vec::new();
        std::mem::swap(&mut entries, &mut self.entries);
        let ghost before = entries@;
        assert(before == old(self).entries@);
        let n = entries.len();
        let mut i: usize = 0;
        while i < n
            invariant
                n == entries@.len(),
                i <= n,
                entries@ == before,
                before == old(self).entries@,
                keys_distinct(before),
                forall|j: int| 0 <= j < i ==> #[trigger] before[j].0@ != device_name@,
            decreases n - i,
        {
            if str_eq(entries[i].0.as_str(), device_name.as_str()) {
                let ghost key = device_name@;
                entries.set(i, (device_name, metadata));
                proof {
                    assert forall|a: int, b: int|
                        0 <= a < entries@.len() && 0 <= b < entries@.len() && a != b
                            implies #[trigger] entries@[a].0@ != #[trigger] entries@[b].0@ by {
                        assert(before[a].0@ != before[b].0@);
                    }
                    lemma_map_after_write(before, entries@, i as int);
                }
                self.entries = entries;
                return;
            }
            i = i + 1;
        }
        entries.push((device_name, metadata));
        proof {
            assert forall|a: int, b: int|
                0 <= a < entries@.len() && 0 <= b < entries@.len() && a != b
                    implies #[trigger] entries@[a].0@ != #[trigger] entries@[b].0@ by {
                if a < n && b < n {
                    assert(before[a].0@ != before[b].0@);
                }
            }
            assert(!has_key(before, entries@[n as int].0@));
            lemma_map_after_write(before, entries@, n as int);
        }
        self.entries = entries;
    }
}

impl View for DeviceMetadataMap {
    type V = Map<Seq<char>, (Seq<char>, bool)>;

    closed spec fn view(&self) -> Map<Seq<char>, (Seq<char>, bool)> {
        map_of(self.entries@)
    }
}

/// Whether a display has HDR on, from the bits of its advanced-color state:
/// advanced color enabled and wide color not enforced.
pub open spec fn hdr_from_color_bits(bits: u32) -> bool {
    (bits & ADVANCED_COLOR_ENABLED_BIT) != 0 && (bits & WIDE_COLOR_ENFORCED_BIT) == 0
}

/// Whether a display has HDR on, from the bits of its advanced-color state.
pub fn hdr_enabled_from_color_bits(bits: u32) -> (r: bool)
    ensures
        r == hdr_from_color_bits(bits),
        r == ((bits & 0x2u32) != 0 && (bits & 0x4u32) == 0),
{
    let advanced_color_enabled = bits & ADVANCED_COLOR_ENABLED_BIT != 0;
    let wide_color_enforced = bits & WIDE_COLOR_ENFORCED_BIT != 0;
    advanced_color_enabled && !wide_color_enforced
}

/// HDR is reported on exactly when the advanced-color-enabled bit (0x2) is set
/// and the wide-color-enforced bit (0x4) is clear; the advanced-color-supported
/// bit (0x1) plays no part, so a display that supports HDR with HDR switched off
/// (bits 0x1) is reported off.
pub proof fn lemma_hdr_reported_from_bits(bits: u32)
    ensures
        hdr_from_color_bits(bits) == ((bits & 0x2u32) != 0 && (bits & 0x4u32) == 0),
        hdr_from_color_bits(bits | 0x1u32) == hdr_from_color_bits(bits & 0xFFFF_FFFEu32),
        !hdr_from_color_bits(0x1u32),
        hdr_from_color_bits(0x2u32),
        !hdr_from_color_bits(0x6u32),
{
    assert(((bits | 0x1u32) & 0x2u32) == ((bits & 0xFFFF_FFFEu32) & 0x2u32)) by (bit_vector);
    assert(((bits | 0x1u32) & 0x4u32) == ((bits & 0xFFFF_FFFEu32) & 0x4u32)) by (bit_vector);
    assert((0x1u32 & 0x2u32) == 0u32) by (bit_vector);
    assert((0x2u32 & 0x2u32) != 0u32 && (0x2u32 & 0x4u32) == 0u32) by (bit_vector);
    assert((0x6u32 & 0x4u32) != 0u32) by (bit_vector);
}

/// What the display configuration reports for one active path: the GDI name of
/// its source, its advanced-color bits and the friendly name of its target, the
/// names as NUL-terminated UTF-16 buffers.
pub struct DisplayPathReading {
    pub source_device_name: Vec<u16>,
    pub advanced_color_bits: u32,
    pub target_friendly_name: Vec<u16>,
}

/// The metadata table that a list of path readings gives, each path recording its
/// device in turn (a later path replaces an earlier one for the same device), or
/// `None` when a name is not valid UTF-16.
pub open spec fn metadata_of_paths(paths: Seq<DisplayPathReading>) -> Option<
    Map<Seq<char>, (Seq<char>, bool)>,
>
    decreases paths.len(),
{
    if paths.len() == 0 {
        Some(Map::empty())
    } else {
        let last = paths.last();
        match (
            metadata_of_paths(paths.drop_last()),
            nul_terminated_text(last.source_device_name@),
            nul_terminated_text(last.target_friendly_name@),
        ) {
            (Some(m), Some(device), Some(name)) => Some(
                m.insert(device, (name, hdr_from_color_bits(last.advanced_color_bits))),
            ),
            _ => None,
        }
    }
}

/// The table built from the display paths holds exactly the devices that the
/// paths name (each path's source name, decoded).
pub proof fn lemma_table_holds_path_devices(paths: Seq<DisplayPathReading>)
    requires
        metadata_of_paths(paths) is Some,
    ensures
        forall|i: int|
            0 <= i < paths.len() ==> ((#[trigger] nul_terminated_text(
                paths[i].source_device_name@,
            )) matches Some(d) && metadata_of_paths(paths)->0.contains_key(d)),
        forall|d: Seq<char>| #[trigger]
            metadata_of_paths(paths)->0.contains_key(d) ==> exists|i: int|
                0 <= i < paths.len() && nul_terminated_text(paths[i].source_device_name@) == Some(
                    d,
                ),
    decreases paths.len(),
{
    if paths.len() > 0 {
        let prev = paths.drop_last();
        lemma_table_holds_path_devices(prev);
        let m = metadata_of_paths(paths)->0;
        let last = paths.last();
        let device = nul_terminated_text(last.source_device_name@)->0;
        assert forall|i: int| 0 <= i < paths.len() implies ((#[trigger] nul_terminated_text(
            paths[i].source_device_name@,
        )) matches Some(d) && m.contains_key(d)) by {
            if i < paths.len() - 1 {
                assert(prev[i] == paths[i]);
                assert(nul_terminated_text(prev[i].source_device_name@) is Some);
            }
        }
        assert forall|d: Seq<char>| #[trigger] m.contains_key(d) implies exists|i: int|
            0 <= i < paths.len() && nul_terminated_text(paths[i].source_device_name@) == Some(d) by {
            if d == device {
                assert(nul_terminated_text(paths[paths.len() - 1].source_device_name@) == Some(d));
            } else {
                assert(metadata_of_paths(prev)->0.contains_key(d));
                let i = choose|i: int|
                    0 <= i < prev.len() && nul_terminated_text(prev[i].source_device_name@) == Some(
                        d,
                    );
                assert(prev[i] == paths[i]);
            }
        }
    }
}

/// A device's entry in the table comes from the last path that names it: its
/// friendly name is that path's target name, and HDR is on exactly when that
/// path's advanced-color bits have 0x2 set and 0x4 clear.
pub proof fn lemma_table_entry_from_last_path(paths: Seq<DisplayPathReading>, i: int)
    requires
        metadata_of_paths(paths) is Some,
        0 <= i < paths.len(),
        forall|j: int|
            i < j < paths.len() ==> nul_terminated_text(#[trigger] paths[j].source_device_name@)
                != nul_terminated_text(paths[i].source_device_name@),
    ensures
        nul_terminated_text(paths[i].source_device_name@) is Some,
        nul_terminated_text(paths[i].target_friendly_name@) is Some,
        metadata_of_paths(paths)->0.contains_key(nul_terminated_text(paths[i].source_device_name@)->0),
        metadata_of_paths(paths)->0[nul_terminated_text(paths[i].source_device_name@)->0] == (
            nul_terminated_text(paths[i].target_friendly_name@)->0,
            (paths[i].advanced_color_bits & 0x2u32) != 0 && (paths[i].advanced_color_bits & 0x4u32)
                == 0,
        ),
    decreases paths.len(),
{
    lemma_hdr_reported_from_bits(paths[i].advanced_color_bits);
    let prev = paths.drop_last();
    if i < paths.len() - 1 {
        assert(prev[i] == paths[i]);
        assert forall|j: int| i < j < prev.len() implies nul_terminated_text(
            #[trigger] prev[j].source_device_name@,
        ) != nul_terminated_text(prev[i].source_device_name@) by {
            assert(prev[j] == paths[j]);
        }
        lemma_table_entry_from_last_path(prev, i);
        assert(nul_terminated_text(paths[paths.len() - 1].source_device_name@)
            != nul_terminated_text(paths[i].source_device_name@));
    }
}

proof fn lemma_metadata_none_extends(paths: Seq<DisplayPathReading>, i: int)
    requires
        0 <= i <= paths.len(),
        metadata_of_paths(paths.take(i)) is None,
    ensures
        metadata_of_paths(paths) is None,
    decreases paths.len() - i,
{
    if i == paths.len() {
        assert(paths.take(i) =~= paths);
    } else {
        assert(paths.take(i + 1).drop_last() =~= paths.take(i));
        lemma_metadata_none_extends(paths, i + 1);
    }
}

/// Builds the metadata table from the readings of the active display paths.
pub fn build_device_metadata_map(paths: &Vec<DisplayPathReading>) -> (r: Result<
    DeviceMetadataMap,
    InvalidUtf16,
>)
    ensures
        match metadata_of_paths(paths@) {
            Some(m) => r matches Ok(map) && map@ == m,
            None => r is Err,
        },
{
    let mut metadata_by_device = DeviceMetadataMap::new();
    let n = paths.len();
    let mut i: usize = 0;
    proof {
        assert(paths@.take(0) =~= Seq::<DisplayPathReading>::empty());
    }
    while i < n
        invariant
            n == paths@.len(),
            i <= n,
            metadata_of_paths(paths@.take(i as int)) == Some(metadata_by_device@),
        decreases n - i,
    {
        let path = &paths[i];
        proof {
            assert(paths@.take(i + 1).drop_last() =~= paths@.take(i as int));
            assert(paths@.take(i + 1).last() == paths@[i as int]);
        }
        let device_name = match utf16_to_string(path.source_device_name.as_slice()) {
            Ok(name) => name,
            Err(e) => {
                proof {
                    lemma_metadata_none_extends(paths@, i + 1);
                }
                return Err(e);
            },
        };
        let hdr_enabled = hdr_enabled_from_color_bits(path.advanced_color_bits);
        let display_name = match utf16_to_string(path.target_friendly_name.as_slice()) {
            Ok(name) => name,
            Err(e) => {
                proof {
                    lemma_metadata_none_extends(paths@, i + 1);
                }
                return Err(e);
            },
        };
        metadata_by_device.insert(device_name, DisplayMetadata { display_name, hdr_enabled });
        i = i + 1;
    }
    proof {
        assert(paths@.take(n as int) =~= paths@);
    }
    Ok(metadata_by_device)
}

/// What the system reports for one monitor: its handle, its rectangle, its GDI
/// device name as a NUL-terminated UTF-16 buffer, its flags and its refresh rate.
pub struct MonitorReading {
    pub handle: isize,
    pub rect: Rect,
    pub device_name: Vec<u16>,
    pub flags: u32,
    pub frequency: u32,
}

/// A display as the tool lists it.
#[derive(Clone)]
pub struct DisplayInfo {
    pub handle: isize,
    pub rect: Rect,
    pub device_name: String,
    pub display_name: String,
    pub frequency: u32,
    pub is_primary: bool,
    pub hdr_enabled: Option<bool>,
}

/// `info` describes `monitor` with the metadata table `metadata`: the device name
/// is the monitor's, the display name the device's friendly name when the table
/// holds a non-empty one (the device name otherwise), and HDR is known exactly
/// when the table holds the device.
pub open spec fn describes(
    info: DisplayInfo,
    monitor: MonitorReading,
    metadata: Map<Seq<char>, (Seq<char>, bool)>,
) -> bool {
    match nul_terminated_text(monitor.device_name@) {
        Some(device) => {
            &&& info.handle == monitor.handle
            &&& info.rect == monitor.rect
            &&& info.device_name@ == device
            &&& info.frequency == monitor.frequency
            &&& info.is_primary == ((monitor.flags & MONITORINFOF_PRIMARY) != 0)
            &&& info.display_name@ == (if metadata.contains_key(device) && metadata[device].0.len()
                > 0 {
                metadata[device].0
            } else {
                device
            })
            &&& info.hdr_enabled == (if metadata.contains_key(device) {
                Some(metadata[device].1)
            } else {
                None
            })
        },
        None => false,
    }
}

impl DisplayInfo {
    /// Describes a monitor with the metadata table of the active display paths.
    pub fn new(monitor: &MonitorReading, metadata_by_device: &DeviceMetadataMap) -> (r: Result<
        DisplayInfo,
        InvalidUtf16,
    >)
        ensures
            nul_terminated_text(monitor.device_name@) is Some <==> r is Ok,
            r matches Ok(info) ==> describes(info, *monitor, metadata_by_device@),
    {
        let device_name = utf16_to_string(monitor.device_name.as_slice())?;
        let metadata = metadata_by_device.get(device_name.as_str());
        let display_name = match metadata {
            Some(m) => {
                if m.display_name.as_str().unicode_len() > 0 {
                    m.display_name.clone()
                } else {
                    device_name.clone()
                }
            },
            None => device_name.clone(),
        };
        let hdr_enabled = match metadata {
            Some(m) => Some(m.hdr_enabled),
            None => None,
        };
        Ok(DisplayInfo {
            handle: monitor.handle,
            rect: monitor.rect,
            device_name,
            display_name,
            frequency: monitor.frequency,
            is_primary: monitor.flags & MONITORINFOF_PRIMARY != 0,
            hdr_enabled,
        })
    }
}

/// Describes every monitor, in order, with the metadata table of the active display
/// paths; the first name that is not valid UTF-16 stops it.
pub fn enumerate_displays(monitors: &Vec<MonitorReading>, paths: &Vec<DisplayPathReading>) -> (r:
    Result<Vec<DisplayInfo>, InvalidUtf16>)
    ensures
        r is Ok <==> (metadata_of_paths(paths@) is Some && forall|i: int|
            0 <= i < monitors@.len() ==> (#[trigger] nul_terminated_text(
                monitors@[i].device_name@,
            )) is Some),
        r matches Ok(infos) ==> {
            &&& infos@.len() == monitors@.len()
            &&& forall|i: int|
                0 <= i < monitors@.len() ==> describes(
                    #[trigger] infos@[i],
                    monitors@[i],
                    metadata_of_paths(paths@)->0,
                )
        },
{
    let metadata_by_device = build_device_metadata_map(paths)?;
    let n = monitors.len();
    let mut infos: Vec<DisplayInfo> = Vec::new();
    let mut i: usize = 0;
    while i < n
        invariant
            n == monitors@.len(),
            i <= n,
            metadata_of_paths(paths@) == Some(metadata_by_device@),
            infos@.len() == i,
            forall|j: int| 0 <= j < i ==> (#[trigger] nul_terminated_text(
                monitors@[j].device_name@,
            )) is Some,
            forall|j: int|
                0 <= j < i ==> describes(#[trigger] infos@[j], monitors@[j], metadata_by_device@),
        decreases n - i,
    {
        let info = DisplayInfo::new(&monitors[i], &metadata_by_device)?;
        infos.push(info);
        i = i + 1;
    }
    Ok(infos)
}

} // verus!
