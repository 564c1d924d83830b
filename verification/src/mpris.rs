//! MPRIS media players on D-Bus.
//!
//! The bus is read by the caller, which hands over each property as the
//! plain values it could be read as; which services are players, what a
//! player's properties say, and which player a name picks are decided here.

use vstd::prelude::*;
use crate::text::{contains_str, has_sub, is_prefix, owned, starts_with, str_eq};

verus! {

/// A D-Bus bus.
#[derive(Debug, Clone, Copy, PartialEq, Eq, Structural)]
pub enum BusType {
    Session,
    System,
}

impl BusType {
    /// The bus's name: `session` or `system`.
    pub fn name(&self) -> (r: &'static str)
        ensures
            r@ == match *self {
                BusType::Session => "session"@,
                BusType::System => "system"@,
            },
    {
        match self {
            BusType::Session => "session",
            BusType::System => "system",
        }
    }
}

/// MPRIS player information.
#[derive(Debug, Clone)]
pub struct MprisPlayer {
    pub bus_name: String,
    pub bus_type: BusType,
    pub identity: Option<String>,
    pub desktop_entry: Option<String>,
    pub can_control: Option<bool>,
    pub can_play: Option<bool>,
    pub can_pause: Option<bool>,
    pub can_seek: Option<bool>,
    pub can_go_next: Option<bool>,
    pub can_go_previous: Option<bool>,
    pub playback_status: Option<String>,
    pub current_track: Option<String>,
    pub current_artist: Option<String>,
}

/// A property value as what it could be read as: text, an unsigned or a
/// signed number, and, when it is a list, the text of each item.
#[derive(Debug, Clone)]
pub struct PropertyValue {
    pub text: Option<String>,
    pub unsigned: Option<u64>,
    pub signed: Option<i64>,
    pub items: Option<Vec<Option<String>>>,
}

/// The flag a property gives: non-zero as an unsigned number, or else as a
/// signed one.
pub open spec fn spec_flag(v: Option<PropertyValue>) -> Option<bool> {
    match v {
        None => None,
        Some(p) => match p.unsigned {
            Some(u) => Some(u != 0),
            None => match p.signed {
                Some(s) => Some(s != 0),
                None => None,
            },
        },
    }
}

/// The flag a property gives.
pub fn flag_of(v: &Option<PropertyValue>) -> (r: Option<bool>)
    ensures
        r == spec_flag(*v),
{
    match v {
        None => None,
        Some(p) => match p.unsigned {
            Some(u) => Some(u != 0),
            None => match p.signed {
                Some(s) => Some(s != 0),
                None => None,
            },
        },
    }
}

pub open spec fn opt_text(o: Option<String>) -> Option<Seq<char>> {
    match o {
        Some(s) => Some(s@),
        None => None,
    }
}

/// The text a property gives.
pub open spec fn spec_text(v: Option<PropertyValue>) -> Option<Seq<char>> {
    match v {
        None => None,
        Some(p) => opt_text(p.text),
    }
}

/// The text a property gives.
pub fn text_of(v: &Option<PropertyValue>) -> (r: Option<String>)
    ensures
        opt_text(r) == spec_text(*v),
{
    match v {
        None => None,
        Some(p) => match &p.text {
            Some(t) => Some(t.clone()),
            None => None,
        },
    }
}

/// Whether a bus name is an MPRIS player.
pub open spec fn spec_is_player_service(name: Seq<char>) -> bool {
    is_prefix("org.mpris.MediaPlayer2."@, name) && name != "org.mpris.MediaPlayer2"@
}

/// Whether a bus name is an MPRIS player.
pub fn is_player_service(name: &str) -> (r: bool)
    ensures
        r == spec_is_player_service(name@),
{
    starts_with(name, "org.mpris.MediaPlayer2.") && !str_eq(name, "org.mpris.MediaPlayer2")
}

/// A player known by its bus name only.
pub fn basic_player(bus_name: &str, bus_type: BusType) -> (r: MprisPlayer)
    ensures
        r.bus_name@ == bus_name@,
        r.bus_type == bus_type,
        r.identity is None && r.desktop_entry is None && r.can_control is None && r.can_play is None,
        r.can_pause is None && r.can_seek is None && r.can_go_next is None && r.can_go_previous is None,
        r.playback_status is None && r.current_track is None && r.current_artist is None,
{
    MprisPlayer {
        bus_name: owned(bus_name),
        bus_type,
        identity: None,
        desktop_entry: None,
        can_control: None,
        can_play: None,
        can_pause: None,
        can_seek: None,
        can_go_next: None,
        can_go_previous: None,
        playback_status: None,
        current_track: None,
        current_artist: None,
    }
}

/// The properties of a player, as read.
#[derive(Debug, Clone)]
pub struct PlayerProperties {
    pub identity: Option<PropertyValue>,
    pub desktop_entry: Option<PropertyValue>,
    pub can_control: Option<PropertyValue>,
    pub can_play: Option<PropertyValue>,
    pub can_pause: Option<PropertyValue>,
    pub can_seek: Option<PropertyValue>,
    pub can_go_next: Option<PropertyValue>,
    pub can_go_previous: Option<PropertyValue>,
    pub playback_status: Option<PropertyValue>,
    /// The metadata dictionary's entries, in order.
    pub metadata: Option<Vec<(String, PropertyValue)>>,
}

/// The value of the last metadata entry with this key (a later entry
/// replaces an earlier one).
pub open spec fn metadata_value(entries: Seq<(String, PropertyValue)>, key: Seq<char>) -> Option<PropertyValue>
    decreases entries.len(),
{
    if entries.len() == 0 {
        None
    } else if entries.last().0@ == key {
        Some(entries.last().1)
    } else {
        metadata_value(entries.drop_last(), key)
    }
}

fn find_metadata(entries: &Vec<(String, PropertyValue)>, key: &str) -> (r: Option<usize>)
    ensures
        r matches Some(i) ==> i < entries@.len() && metadata_value(entries@, key@) == Some(entries@[i as int].1),
        r is None ==> metadata_value(entries@, key@) is None,
{
    let mut i: usize = entries.len();
    assert(entries@.take(entries@.len() as int) =~= entries@);
    while i > 0
        invariant
            i <= entries.len(),
            metadata_value(entries@, key@) == metadata_value(entries@.take(i as int), key@),
        decreases i,
    {
        assert(entries@.take(i as int).drop_last() =~= entries@.take(i - 1));
        assert(entries@.take(i as int).last() == entries@[i - 1]);
        if str_eq(entries[i - 1].0.as_str(), key) {
            return Some(i - 1);
        }
        i = i - 1;
    }
    None
}

/// The artist metadata names: the first item of a list, or the text itself.
pub open spec fn spec_artist(v: Option<PropertyValue>) -> Option<Seq<char>> {
    match v {
        None => None,
        Some(p) => match p.items {
            Some(items) => if items@.len() > 0 {
                opt_text(items@[0])
            } else {
                None
            },
            None => opt_text(p.text),
        },
    }
}

/// The current track and artist the metadata names.
pub open spec fn spec_track_and_artist(metadata: Option<Vec<(String, PropertyValue)>>) -> (Option<Seq<char>>, Option<Seq<char>>) {
    match metadata {
        None => (None, None),
        Some(entries) => (
            spec_text(metadata_value(entries@, "xesam:title"@)),
            spec_artist(metadata_value(entries@, "xesam:artist"@)),
        ),
    }
}

/// The text a metadata value is shown as: its text, or else the first item
/// of a list; empty when neither gives one.
pub open spec fn spec_metadata_text(p: PropertyValue) -> Seq<char> {
    match p.text {
        Some(t) => t@,
        None => match p.items {
            Some(items) => if items@.len() > 0 {
                match items@[0] {
                    Some(t) => t@,
                    None => Seq::empty(),
                }
            } else {
                Seq::empty()
            },
            None => Seq::empty(),
        },
    }
}

fn metadata_text(p: &PropertyValue) -> (r: String)
    ensures
        r@ == spec_metadata_text(*p),
{
    match &p.text {
        Some(t) => t.clone(),
        None => match &p.items {
            Some(items) => if items.len() > 0 {
                match &items[0] {
                    Some(t) => t.clone(),
                    None => String::new(),
                }
            } else {
                String::new()
            },
            None => String::new(),
        },
    }
}

/// The metadata dictionary's entries as texts, in order: each key with the
/// text its value is shown as.
pub fn extract_metadata(entries: &Vec<(String, PropertyValue)>) -> (r: Vec<(String, String)>)
    ensures
        r@.len() == entries@.len(),
        forall|i: int| 0 <= i < r@.len() ==> (#[trigger] r@[i]).0@ == entries@[i].0@ && r@[i].1@ == spec_metadata_text(
            entries@[i].1,
        ),
{
    let mut out: Vec<(String, String)> = Vec::new();
    let mut i: usize = 0;
    while i < entries.len()
        invariant
            i <= entries.len(),
            out@.len() == i,
            forall|k: int| 0 <= k < i ==> (#[trigger] out@[k]).0@ == entries@[k].0@ && out@[k].1@ == spec_metadata_text(
                entries@[k].1,
            ),
        decreases entries.len() - i,
    {
        out.push((entries[i].0.clone(), metadata_text(&entries[i].1)));
        i = i + 1;
    }
    out
}

fn artist_of(v: &PropertyValue) -> (r: Option<String>)
    ensures
        opt_text(r) == spec_artist(Some(*v)),
{
    match &v.items {
        Some(items) => if items.len() > 0 {
            match &items[0] {
                Some(t) => Some(t.clone()),
                None => None,
            }
        } else {
            None
        },
        None => match &v.text {
            Some(t) => Some(t.clone()),
            None => None,
        },
    }
}

/// A player as its properties describe it.
pub fn player_from_properties(bus_name: &str, bus_type: BusType, props: &PlayerProperties) -> (r: MprisPlayer)
    ensures
        r.bus_name@ == bus_name@,
        r.bus_type == bus_type,
        opt_text(r.identity) == spec_text(props.identity),
        opt_text(r.desktop_entry) == spec_text(props.desktop_entry),
        r.can_control == spec_flag(props.can_control),
        r.can_play == spec_flag(props.can_play),
        r.can_pause == spec_flag(props.can_pause),
        r.can_seek == spec_flag(props.can_seek),
        r.can_go_next == spec_flag(props.can_go_next),
        r.can_go_previous == spec_flag(props.can_go_previous),
        opt_text(r.playback_status) == spec_text(props.playback_status),
        (opt_text(r.current_track), opt_text(r.current_artist)) == spec_track_and_artist(props.metadata),
{
    let (track, artist) = match &props.metadata {
        None => (None, None),
        Some(entries) => {
            let track = match find_metadata(entries, "xesam:title") {
                Some(i) => match &entries[i].1.text {
                    Some(t) => Some(t.clone()),
                    None => None,
                },
                None => None,
            };
            let artist = match find_metadata(entries, "xesam:artist") {
                Some(i) => artist_of(&entries[i].1),
                None => None,
            };
            (track, artist)
        },
    };
    MprisPlayer {
        bus_name: owned(bus_name),
        bus_type,
        identity: text_of(&props.identity),
        desktop_entry: text_of(&props.desktop_entry),
        can_control: flag_of(&props.can_control),
        can_play: flag_of(&props.can_play),
        can_pause: flag_of(&props.can_pause),
        can_seek: flag_of(&props.can_seek),
        can_go_next: flag_of(&props.can_go_next),
        can_go_previous: flag_of(&props.can_go_previous),
        playback_status: text_of(&props.playback_status),
        current_track: track,
        current_artist: artist,
    }
}

/// A player matches a name when its bus name or its identity contains it.
pub open spec fn spec_matches_name(p: MprisPlayer, name: Seq<char>) -> bool {
    has_sub(p.bus_name@, name) || (p.identity matches Some(id) && has_sub(id@, name))
}

/// The first player matching `player_name`, or the first player when no
/// name is given.
pub fn find_player_by_name_or_first(players: Vec<MprisPlayer>, player_name: Option<&str>) -> (r: Option<MprisPlayer>)
    ensures
        match player_name {
            Some(name) => (r matches Some(p) ==> exists|i: int| 0 <= i < players@.len() && players@[i] == p
                    && spec_matches_name(p, name@)
                    && forall|j: int| 0 <= j < i ==> !spec_matches_name(#[trigger] players@[j], name@))
                && (r is None ==> forall|j: int| 0 <= j < players@.len() ==> !spec_matches_name(#[trigger] players@[j], name@)),
            None => (r is None <==> players@.len() == 0) && (r matches Some(p) ==> p == players@[0]),
        },
{
    let mut list = players;
    let ghost all = list@;
    match player_name {
        None => {
            if list.len() == 0 {
                None
            } else {
                Some(list.remove(0))
            }
        },
        Some(name) => {
            let mut i: usize = 0;
            while i < list.len()
                invariant
                    list@ == all,
                    players@ == all,
                    player_name == Some(name),
                    i <= list.len(),
                    forall|j: int| 0 <= j < i ==> !spec_matches_name(#[trigger] list@[j], name@),
                decreases list.len() - i,
            {
                let hit = contains_str(list[i].bus_name.as_str(), name) || match &list[i].identity {
                    Some(id) => contains_str(id.as_str(), name),
                    None => false,
                };
                if hit {
                    let p = list.remove(i);
                    assert(all[i as int] == p);
                    assert(exists|k: int| 0 <= k < all.len() && all[k] == p && spec_matches_name(p, name@)
                        && forall|j: int| 0 <= j < k ==> !spec_matches_name(#[trigger] all[j], name@));
                    return Some(p);
                }
                i = i + 1;
            }
            None
        },
    }
}

} // verus!
