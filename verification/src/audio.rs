//! Audio device bookkeeping: the device records the control surface lists,
//! device selection, per-device buffer sizing, and the parsing of the
//! encoder's avfoundation device listing into an index table.

use vstd::prelude::*;
use crate::text::{
    contains_seq, lower_seq, contains_fold_lower, str_eq, str_to_chars, chars_slice, chars_to_string,
    find_sub, first_match, all_digits, digits_val, parse_decimal, trim_spec, trim_chars, str_contains,
};

verus! {

/// An audio input device as the control surface lists it.
#[derive(Clone, Debug, PartialEq)]
pub struct AudioDevice {
    pub id: String,
    pub name: String,
    pub is_default: bool,
}

/// Capture buffer size for a device, in frames: named devices get tuned
/// sizes, and names that suggest an external device get a larger buffer.
pub open spec fn spec_optimal_buffer_size(id: Seq<char>) -> int {
    if id == "Microsoft Teams Audio"@ {
        2048
    } else if id == "External Microphone"@ {
        1536
    } else if id == "MacBook Pro Microphone"@ {
        1024
    } else if contains_seq(lower_seq(id), "external"@) || contains_seq(lower_seq(id), "usb"@)
        || contains_seq(lower_seq(id), "bluetooth"@) {
        1536
    } else {
        1024
    }
}

/// Capture buffer size for a device: external devices carry more latency and
/// get larger buffers.
pub fn get_optimal_buffer_size(device_id: &str) -> (r: u32)
    ensures
        r == spec_optimal_buffer_size(device_id@),
{
    if str_eq(device_id, "Microsoft Teams Audio") {
        2048
    } else if str_eq(device_id, "External Microphone") {
        1536
    } else if str_eq(device_id, "MacBook Pro Microphone") {
        1024
    } else if contains_fold_lower(device_id, "external") || contains_fold_lower(device_id, "usb")
        || contains_fold_lower(device_id, "bluetooth") {
        1536
    } else {
        1024
    }
}

/// Build the device list the control surface shows from the enumerated
/// input-device names: each device is keyed by its enumeration index, and
/// flagged as default when its name matches the host's default device. An
/// empty enumeration yields the single fallback device.
pub fn build_device_list(names: &Vec<String>, default_name: Option<&String>) -> (r: Vec<
    AudioDevice,
>)
    ensures
        names@.len() == 0 ==> r@.len() == 1 && r@[0].id@ == "0"@ && r@[0].name@
            == "Default Audio Input"@ && r@[0].is_default,
        names@.len() > 0 ==> r@.len() == names@.len() && forall|i: int|
            0 <= i < r@.len() ==> (#[trigger] r@[i]).id@ == crate::text::dec_digits(i)
                && r@[i].name@ == names@[i]@ && r@[i].is_default == (match default_name {
                Some(d) => d@ == names@[i]@,
                None => false,
            }),
{
    let mut r: Vec<AudioDevice> = Vec::new();
    let mut i: usize = 0;
    while i < names.len()
        invariant
            i <= names@.len(),
            r@.len() == i,
            forall|j: int|
                0 <= j < i ==> (#[trigger] r@[j]).id@ == crate::text::dec_digits(j) && r@[j].name@
                    == names@[j]@ && r@[j].is_default == (match default_name {
                    Some(d) => d@ == names@[j]@,
                    None => false,
                }),
        decreases names@.len() - i,
    {
        let is_default = match default_name {
            Some(d) => str_eq(d.as_str(), names[i].as_str()),
            None => false,
        };
        r.push(
            AudioDevice {
                id: crate::text::u64_to_string(i as u64),
                name: names[i].clone(),
                is_default,
            },
        );
        i = i + 1;
    }
    if r.len() == 0 {
        r.push(
            AudioDevice {
                id: String::from_str("0"),
                name: String::from_str("Default Audio Input"),
                is_default: true,
            },
        );
    }
    r
}

/// Index of the first device flagged as the system default.
pub open spec fn spec_first_default(s: Seq<AudioDevice>) -> Option<int>
    decreases s.len(),
{
    if s.len() == 0 {
        None
    } else if s[0].is_default {
        Some(0)
    } else {
        match spec_first_default(s.subrange(1, s.len() as int)) {
            Some(i) => Some(i + 1),
            None => None,
        }
    }
}

/// The device to preselect: the first default device, else the first device,
/// else none.
pub fn choose_default_device(devices: &Vec<AudioDevice>) -> (r: Option<usize>)
    ensures
        r == match spec_first_default(devices@) {
            Some(i) => Some(i as usize),
            None => if devices@.len() > 0 {
                Some(0usize)
            } else {
                None
            },
        },
{
    proof {
        assert(devices@.subrange(0, devices@.len() as int) =~= devices@);
    }
    let mut i: usize = 0;
    while i < devices.len()
        invariant
            i <= devices@.len(),
            spec_first_default(devices@) == match spec_first_default(
                devices@.subrange(i as int, devices@.len() as int),
            ) {
                Some(k) => Some(k + i),
                None => None::<int>,
            },
        decreases devices@.len() - i,
    {
        let ghost rest = devices@.subrange(i as int, devices@.len() as int);
        proof {
            assert(rest[0] == devices@[i as int]);
            assert(rest.subrange(1, rest.len() as int) =~= devices@.subrange(
                i + 1,
                devices@.len() as int,
            ));
        }
        if devices[i].is_default {
            return Some(i);
        }
        i = i + 1;
    }
    proof {
        assert(devices@.subrange(i as int, devices@.len() as int).len() == 0);
    }
    if devices.len() > 0 {
        Some(0)
    } else {
        None
    }
}

/// The views of a device index table.
pub open spec fn table_views(t: Seq<(usize, String)>) -> Seq<(usize, Seq<char>)> {
    t.map_values(|p: (usize, String)| (p.0, p.1@))
}

/// First table row carrying this device name.
pub open spec fn spec_lookup(table: Seq<(usize, Seq<char>)>, name: Seq<char>) -> Option<usize>
    decreases table.len(),
{
    if table.len() == 0 {
        None
    } else if table[0].1 == name {
        Some(table[0].0)
    } else {
        spec_lookup(table.subrange(1, table.len() as int), name)
    }
}

/// Find a device name in the index table.
pub fn lookup_device_index(table: &Vec<(usize, String)>, name: &str) -> (r: Option<usize>)
    ensures
        r == spec_lookup(table_views(table@), name@),
{
    let ghost tv = table_views(table@);
    proof {
        assert(tv.subrange(0, tv.len() as int) =~= tv);
    }
    let mut i: usize = 0;
    while i < table.len()
        invariant
            i <= table@.len(),
            tv == table_views(table@),
            tv.len() == table@.len(),
            spec_lookup(tv, name@) == spec_lookup(tv.subrange(i as int, tv.len() as int), name@),
        decreases table@.len() - i,
    {
        let ghost rest = tv.subrange(i as int, tv.len() as int);
        proof {
            assert(rest[0] == tv[i as int]);
            assert(rest.subrange(1, rest.len() as int) =~= tv.subrange(i + 1, tv.len() as int));
        }
        if str_eq(table[i].1.as_str(), name) {
            return Some(table[i].0);
        }
        i = i + 1;
    }
    proof {
        assert(tv.subrange(i as int, tv.len() as int).len() == 0);
    }
    None
}

/// The avfoundation device index the encoder should be handed: the table row
/// matching the platform name of a numerically selected device, else the row
/// matching the identifier itself as a name, else device 0.
pub open spec fn spec_device_index(
    id: Seq<char>,
    cpal_name: Option<Seq<char>>,
    t: Seq<(usize, Seq<char>)>,
) -> usize {
    match cpal_name {
        Some(n) => match spec_lookup(t, n) {
            Some(i) => i,
            None => match spec_lookup(t, id) {
                Some(i) => i,
                None => 0,
            },
        },
        None => match spec_lookup(t, id) {
            Some(i) => i,
            None => 0,
        },
    }
}

/// Resolve a selected device to its avfoundation index. `cpal_name` is the
/// platform name of the device when `device_id` is a numeric selection that
/// the caller has already resolved against the device host.
pub fn get_ffmpeg_device_index(
    device_id: &str,
    cpal_name: Option<&String>,
    table: &Vec<(usize, String)>,
) -> (r: usize)
    ensures
        r == spec_device_index(
            device_id@,
            match cpal_name {
                Some(n) => Some(n@),
                None => None,
            },
            table_views(table@),
        ),
{
    if let Some(n) = cpal_name {
        if let Some(i) = lookup_device_index(table, n.as_str()) {
            return i;
        }
    }
    match lookup_device_index(table, device_id) {
        Some(i) => i,
        None => 0,
    }
}

/// The table entry one listing line yields: after the line's first "] ["
/// stands the device index, closed by "] ", then the device name.
pub open spec fn spec_device_entry(line: Seq<char>) -> Option<(usize, Seq<char>)> {
    let fm = first_match(line, "] ["@);
    if fm < 0 {
        None
    } else {
        let part = line.subrange(fm + 3, line.len() as int);
        let end = first_match(part, "] "@);
        if end < 0 {
            None
        } else {
            let digits = part.subrange(0, end);
            if digits.len() > 0 && all_digits(digits) && digits_val(digits) <= usize::MAX {
                Some(
                    (
                        digits_val(digits) as usize,
                        trim_spec(part.subrange(end + 2, part.len() as int)),
                    ),
                )
            } else {
                None
            }
        }
    }
}

/// Parse one line of the avfoundation device listing into a table entry.
pub fn parse_device_line(line: &str) -> (r: Option<(usize, String)>)
    ensures
        match r {
            Some(e) => spec_device_entry(line@) == Some((e.0, e.1@)),
            None => spec_device_entry(line@) is None,
        },
{
    proof {
        reveal_strlit("] [");
        reveal_strlit("] ");
        assert(("] [")@.len() == 3);
        assert(("] ")@.len() == 2);
    }
    let chars = str_to_chars(line);
    let open_marker = str_to_chars("] [");
    let fm = match find_sub(&chars, &open_marker) {
        Some(i) => i,
        None => {
            return None;
        },
    };
    let cl = chars.len();
    assert(fm + 3 <= cl);
    let part = chars_slice(&chars, fm + 3, cl);
    let close_marker = str_to_chars("] ");
    let end = match find_sub(&part, &close_marker) {
        Some(i) => i,
        None => {
            return None;
        },
    };
    let digits = chars_slice(&part, 0, end);
    let idx = match parse_decimal(&digits) {
        Some(v) => v,
        None => {
            return None;
        },
    };
    let name_chars = trim_chars(&chars_slice(&part, end + 2, part.len()));
    let name = chars_to_string(&name_chars);
    Some((idx, name))
}

/// The audio-device section of the listing opens at this line.
pub open spec fn spec_audio_marker(l: Seq<char>) -> bool {
    contains_seq(l, "AVFoundation audio devices:"@)
}

/// The video-device section of the listing opens at this line, closing the
/// audio section.
pub open spec fn spec_video_marker(l: Seq<char>) -> bool {
    contains_seq(l, "AVFoundation video devices:"@)
}

/// The line has the shape of a device entry.
pub open spec fn spec_entry_candidate(l: Seq<char>) -> bool {
    contains_seq(l, "[AVFoundation indev @"@) && contains_seq(l, "] ["@)
}

/// Fold the listing's lines into (inside-audio-section, device table).
pub open spec fn spec_device_fold(lines: Seq<Seq<char>>) -> (bool, Seq<(usize, Seq<char>)>)
    decreases lines.len(),
{
    if lines.len() == 0 {
        (false, Seq::empty())
    } else {
        let prev = spec_device_fold(lines.drop_last());
        let l = lines.last();
        if spec_audio_marker(l) {
            (true, prev.1)
        } else if spec_video_marker(l) {
            (false, prev.1)
        } else if prev.0 && spec_entry_candidate(l) {
            match spec_device_entry(l) {
                Some(e) => (prev.0, prev.1.push(e)),
                None => prev,
            }
        } else {
            prev
        }
    }
}

/// The views of a sequence of listing lines.
pub open spec fn line_views(lines: Seq<String>) -> Seq<Seq<char>> {
    lines.map_values(|s: String| s@)
}

/// Build the avfoundation audio device table from the lines of the encoder's
/// device listing: entries of the audio section, each an index and a name.
pub fn get_ffmpeg_device_mapping(lines: &Vec<String>) -> (r: Vec<(usize, String)>)
    ensures
        table_views(r@) == spec_device_fold(line_views(lines@)).1,
{
    let mut out: Vec<(usize, String)> = Vec::new();
    let mut in_audio = false;
    let mut i: usize = 0;
    while i < lines.len()
        invariant
            i <= lines@.len(),
            (in_audio, table_views(out@)) == spec_device_fold(
                line_views(lines@.subrange(0, i as int)),
            ),
        decreases lines@.len() - i,
    {
        let ghost done = line_views(lines@.subrange(0, i as int));
        let ghost next = line_views(lines@.subrange(0, i + 1 as int));
        proof {
            assert(next.drop_last() =~= done);
            assert(next.last() == lines@[i as int]@);
        }
        let line = &lines[i];
        if str_contains(line.as_str(), "AVFoundation audio devices:") {
            in_audio = true;
        } else if str_contains(line.as_str(), "AVFoundation video devices:") {
            in_audio = false;
        } else if in_audio && str_contains(line.as_str(), "[AVFoundation indev @")
            && str_contains(line.as_str(), "] [") {
            match parse_device_line(line.as_str()) {
                Some(entry) => {
                    out.push(entry);
                    proof {
                        assert(table_views(out@) =~= spec_device_fold(next).1);
                    }
                },
                None => {},
            }
        }
        i = i + 1;
    }
    proof {
        assert(lines@.subrange(0, lines@.len() as int) =~= lines@);
    }
    out
}

} // verus!
