//! Bluetooth audio devices as BlueZ describes them.
//!
//! What the D-Bus objects say is read by the caller; turning object paths
//! into device addresses, status strings into states, commands into method
//! names, and picking a device out of a list is decided here.

use vstd::prelude::*;
use crate::text::{ascii_lower, chars_of, concat2, eq_ignore_ascii_case, is_prefix, owned, push_char, str_eq, string_of, strip_prefix};

verus! {

/// Information about a Bluetooth audio device.
#[derive(Debug, Clone)]
pub struct BluetoothDeviceInfo {
    pub device_address: String,
    pub device_name: Option<String>,
    pub player_path: String,
    pub is_connected: bool,
    pub is_playing: bool,
}

/// Current track information from a Bluetooth device.
#[derive(Debug, Clone)]
pub struct BluetoothTrackInfo {
    pub title: Option<String>,
    pub artist: Option<String>,
    pub album: Option<String>,
    /// In milliseconds.
    pub duration: Option<u32>,
    /// In milliseconds.
    pub position: Option<u32>,
}

/// Playback status from the MediaPlayer1 interface.
#[derive(Debug, Clone, Copy, PartialEq, Eq, Structural)]
pub enum BluetoothPlaybackStatus {
    Playing,
    Paused,
    Stopped,
    Unknown,
}

pub open spec fn spec_playback_status(status: Seq<char>) -> BluetoothPlaybackStatus {
    if status == "playing"@ {
        BluetoothPlaybackStatus::Playing
    } else if status == "paused"@ {
        BluetoothPlaybackStatus::Paused
    } else if status == "stopped"@ {
        BluetoothPlaybackStatus::Stopped
    } else {
        BluetoothPlaybackStatus::Unknown
    }
}

/// The playback status a `Status` property names; `None` (the property
/// could not be read) is `Unknown`.
pub fn parse_playback_status(status: Option<&str>) -> (r: BluetoothPlaybackStatus)
    ensures
        r == match status {
            Some(s) => spec_playback_status(s@),
            None => BluetoothPlaybackStatus::Unknown,
        },
{
    match status {
        Some(s) => if str_eq(s, "playing") {
            BluetoothPlaybackStatus::Playing
        } else if str_eq(s, "paused") {
            BluetoothPlaybackStatus::Paused
        } else if str_eq(s, "stopped") {
            BluetoothPlaybackStatus::Stopped
        } else {
            BluetoothPlaybackStatus::Unknown
        },
        None => BluetoothPlaybackStatus::Unknown,
    }
}

/// The prefix of a device's object path on the first adapter.
pub open spec fn device_prefix() -> Seq<char> {
    "/org/bluez/hci0/dev_"@
}

/// The part of a sequence before its first `/`.
pub open spec fn before_slash(s: Seq<char>) -> Seq<char>
    decreases s.len(),
{
    if s.len() == 0 || s[0] == '/' {
        Seq::empty()
    } else {
        seq![s[0]] + before_slash(s.drop_first())
    }
}

/// The device part of a player's object path, when it is under the first
/// adapter: `AA_BB_..` in `/org/bluez/hci0/dev_AA_BB_../player0`.
pub open spec fn spec_device_part(player_path: Seq<char>) -> Option<Seq<char>> {
    if is_prefix(device_prefix(), player_path) {
        Some(before_slash(player_path.subrange(device_prefix().len() as int, player_path.len() as int)))
    } else {
        None
    }
}

/// A device part as a MAC address: `_` becomes `:`.
pub open spec fn spec_address(part: Seq<char>) -> Seq<char> {
    part.map_values(|c: char| if c == '_' { ':' } else { c })
}

/// The device part of a player's object path.
pub fn device_part(player_path: &str) -> (r: Option<String>)
    ensures
        r is None <==> spec_device_part(player_path@) is None,
        r matches Some(p) ==> spec_device_part(player_path@) == Some(p@),
{
    proof {
        reveal_strlit("/org/bluez/hci0/dev_");
    }
    let rest = match strip_prefix(player_path, "/org/bluez/hci0/dev_") {
        Some(r) => r,
        None => return None,
    };
    let cs = chars_of(rest.as_str());
    let mut out = String::new();
    let mut i: usize = 0;
    assert(cs@.subrange(0, cs@.len() as int) =~= cs@);
    assert(out@ + before_slash(cs@) =~= before_slash(cs@));
    while i < cs.len() && cs[i] != '/'
        invariant
            i <= cs.len(),
            forall|k: int| 0 <= k < i ==> cs@[k] != '/',
            out@ + before_slash(cs@.subrange(i as int, cs@.len() as int)) == before_slash(cs@),
        decreases cs.len() - i,
    {
        let ghost tail = cs@.subrange(i as int, cs@.len() as int);
        assert(tail.drop_first() =~= cs@.subrange(i + 1, cs@.len() as int));
        push_char(&mut out, cs[i]);
        assert(out@ + before_slash(cs@.subrange(i + 1, cs@.len() as int)) =~= (out@.drop_last()) + (seq![tail[0]] + before_slash(tail.drop_first())));
        i = i + 1;
    }
    proof {
        assert(cs@.subrange(0, cs@.len() as int) =~= cs@);
    }
    assert(before_slash(cs@.subrange(i as int, cs@.len() as int)) =~= Seq::<char>::empty());
    assert(out@ + Seq::<char>::empty() =~= out@);
    Some(out)
}

/// A device part as a MAC address.
pub fn address_from_part(part: &str) -> (r: String)
    ensures
        r@ == spec_address(part@),
{
    let cs = chars_of(part);
    let mut out = String::new();
    let mut i: usize = 0;
    while i < cs.len()
        invariant
            i <= cs.len(),
            cs@ == part@,
            out@ == spec_address(cs@.take(i as int)),
        decreases cs.len() - i,
    {
        let c = if cs[i] == '_' { ':' } else { cs[i] };
        push_char(&mut out, c);
        i = i + 1;
        assert(spec_address(cs@.take(i as int)) =~= spec_address(cs@.take(i - 1)).push(if cs@[i - 1] == '_' { ':' } else { cs@[i - 1] }));
    }
    assert(cs@.take(cs@.len() as int) =~= cs@);
    out
}

/// The object path of a device, from its device part.
pub fn device_path(part: &str) -> (r: String)
    ensures
        r@ == device_prefix() + part@,
{
    concat2("/org/bluez/hci0/dev_", part)
}

/// A device as the object listing describes it.
pub fn device_info(
    player_path: &str,
    part: &str,
    device_name: Option<String>,
    is_connected: bool,
    status: BluetoothPlaybackStatus,
) -> (r: BluetoothDeviceInfo)
    ensures
        r.device_address@ == spec_address(part@),
        r.device_name == device_name,
        r.player_path@ == player_path@,
        r.is_connected == is_connected,
        r.is_playing == (status == BluetoothPlaybackStatus::Playing),
{
    BluetoothDeviceInfo {
        device_address: address_from_part(part),
        device_name,
        player_path: owned(player_path),
        is_connected,
        is_playing: status == BluetoothPlaybackStatus::Playing,
    }
}

/// The MediaPlayer1 method a control command calls.
pub open spec fn spec_control_method(command: Seq<char>) -> Option<Seq<char>> {
    if command == "play"@ {
        Some("Play"@)
    } else if command == "pause"@ {
        Some("Pause"@)
    } else if command == "stop"@ {
        Some("Stop"@)
    } else if command == "next"@ {
        Some("Next"@)
    } else if command == "previous"@ {
        Some("Previous"@)
    } else {
        None
    }
}

/// The MediaPlayer1 method a control command calls, or an error naming the
/// unknown command.
pub fn control_method(command: &str) -> (r: Result<&'static str, String>)
    ensures
        r is Ok <==> spec_control_method(command@) is Some,
        r matches Ok(m) ==> spec_control_method(command@) == Some(m@),
        r matches Err(e) ==> e@ == "Unknown command: "@ + command@,
{
    if str_eq(command, "play") {
        Ok("Play")
    } else if str_eq(command, "pause") {
        Ok("Pause")
    } else if str_eq(command, "stop") {
        Ok("Stop")
    } else if str_eq(command, "next") {
        Ok("Next")
    } else if str_eq(command, "previous") {
        Ok("Previous")
    } else {
        Err(concat2("Unknown command: ", command))
    }
}

/// Track information from a player's `Track` metadata (absent when it could
/// not be read) and its `Position`. A duration is kept as the low 32 bits.
pub fn track_info(
    metadata: Option<(Option<String>, Option<String>, Option<String>, Option<u64>)>,
    position: Option<u32>,
) -> (r: BluetoothTrackInfo)
    ensures
        match metadata {
            Some((t, a, al, d)) => r.title == t && r.artist == a && r.album == al && r.duration == match d {
                Some(x) => Some(x as u32),
                None => None,
            },
            None => r.title is None && r.artist is None && r.album is None && r.duration is None,
        },
        r.position == position,
{
    match metadata {
        Some((title, artist, album, duration)) => BluetoothTrackInfo {
            title,
            artist,
            album,
            duration: match duration {
                Some(d) => Some(#[verifier::truncate] (d as u32)),
                None => None,
            },
            position,
        },
        None => BluetoothTrackInfo { title: None, artist: None, album: None, duration: None, position },
    }
}

/// The first device whose address matches, ignoring ASCII case.
pub fn find_device_by_address(devices: Vec<BluetoothDeviceInfo>, target_address: &str) -> (r: Option<BluetoothDeviceInfo>)
    ensures
        r matches Some(d) ==> exists|i: int| 0 <= i < devices@.len() && devices@[i] == d
            && ascii_lower(d.device_address@) == ascii_lower(target_address@)
            && forall|j: int| 0 <= j < i ==> ascii_lower(#[trigger] devices@[j].device_address@) != ascii_lower(target_address@),
        r is None ==> forall|j: int| 0 <= j < devices@.len() ==> ascii_lower(#[trigger] devices@[j].device_address@) != ascii_lower(target_address@),
{
    let mut list = devices;
    let ghost all = list@;
    let mut i: usize = 0;
    while i < list.len()
        invariant
            list@ == all,
            devices@ == all,
            i <= list.len(),
            forall|j: int| 0 <= j < i ==> ascii_lower(#[trigger] list@[j].device_address@) != ascii_lower(target_address@),
        decreases list.len() - i,
    {
        if eq_ignore_ascii_case(list[i].device_address.as_str(), target_address) {
            let d = list.remove(i);
            assert(all[i as int] == d);
            assert(exists|k: int| 0 <= k < all.len() && all[k] == d
                && ascii_lower(d.device_address@) == ascii_lower(target_address@)
                && forall|j: int| 0 <= j < k ==> ascii_lower(#[trigger] all[j].device_address@) != ascii_lower(target_address@));
            return Some(d);
        }
        i = i + 1;
    }
    None
}

/// The first device that is playing.
pub fn get_active_device(devices: Vec<BluetoothDeviceInfo>) -> (r: Option<BluetoothDeviceInfo>)
    ensures
        r matches Some(d) ==> exists|i: int| 0 <= i < devices@.len() && devices@[i] == d && d.is_playing
            && forall|j: int| 0 <= j < i ==> !(#[trigger] devices@[j]).is_playing,
        r is None ==> forall|j: int| 0 <= j < devices@.len() ==> !(#[trigger] devices@[j]).is_playing,
{
    let mut list = devices;
    let ghost all = list@;
    let mut i: usize = 0;
    while i < list.len()
        invariant
            list@ == all,
            devices@ == all,
            i <= list.len(),
            forall|j: int| 0 <= j < i ==> !(#[trigger] list@[j]).is_playing,
        decreases list.len() - i,
    {
        if list[i].is_playing {
            let d = list.remove(i);
            assert(all[i as int] == d);
            assert(exists|k: int| 0 <= k < all.len() && all[k] == d && d.is_playing
                && forall|j: int| 0 <= j < k ==> !(#[trigger] all[j]).is_playing);
            return Some(d);
        }
        i = i + 1;
    }
    None
}

} // verus!
