//! MIDI conventions: channel numbering, the global MIDI settings and the
//! decoding of control-change messages.

use vstd::prelude::*;
use crate::text::{contains, lowercase_of, spec_contains, to_lowercase};

verus! {

/// Channel value that stands for "any channel" in a binding key.
pub const WILDCARD_CHANNEL: u8 = 255;

/// Device-level MIDI settings: which input to prefer and which channel the
/// bindings listen on when they name none themselves.
#[derive(Debug)]
pub struct MidiGlobalCfg {
    pub preferred_device_contains: Option<String>,
    pub channel: Option<u8>,
}

/// A parameter's controller binding as it is written in a definition.
#[derive(Clone, Copy, PartialEq, Eq, Structural, Debug)]
pub struct MidiBinding {
    pub cc: u8,
    pub channel: Option<u8>,
}

/// The channel a configured value denotes: `1..=16` is read as a one-based
/// channel number and shifted down, every other value is kept as it is.
pub open spec fn spec_normalize_channel(ch: u8) -> u8 {
    if 1 <= ch <= 16 {
        (ch - 1) as u8
    } else {
        ch
    }
}

/// [`spec_normalize_channel`] under an `Option`.
pub open spec fn spec_normalize_channel_opt(ch: Option<u8>) -> Option<u8> {
    match ch {
        Some(c) => Some(spec_normalize_channel(c)),
        None => None,
    }
}

/// Normalizes a configured channel number to the zero-based wire value.
pub fn normalize_midi_channel(ch: u8) -> (r: u8)
    ensures
        r == spec_normalize_channel(ch),
{
    if 1 <= ch && ch <= 16 {
        ch - 1
    } else {
        ch
    }
}

/// Normalizes an optional configured channel.
pub fn normalize_midi_channel_opt(ch: Option<u8>) -> (r: Option<u8>)
    ensures
        r == spec_normalize_channel_opt(ch),
{
    match ch {
        Some(c) => Some(normalize_midi_channel(c)),
        None => None,
    }
}

/// The settings in force when a preset's override `ov` is laid over `base`:
/// each field of the override wins where it is set.
pub open spec fn spec_merge_midi_cfg(base: MidiGlobalCfg, ov: Option<MidiGlobalCfg>) -> MidiGlobalCfg {
    match ov {
        Some(o) => MidiGlobalCfg {
            preferred_device_contains: if o.preferred_device_contains is Some {
                o.preferred_device_contains
            } else {
                base.preferred_device_contains
            },
            channel: if o.channel is Some {
                o.channel
            } else {
                base.channel
            },
        },
        None => base,
    }
}

impl Clone for MidiGlobalCfg {
    fn clone(&self) -> (r: Self)
        ensures
            r == *self,
    {
        MidiGlobalCfg {
            preferred_device_contains: match &self.preferred_device_contains {
                Some(s) => Some(s.clone()),
                None => None,
            },
            channel: self.channel,
        }
    }
}

/// Lays a preset's MIDI override over the base settings.
pub fn merge_midi_cfg(base: &MidiGlobalCfg, ov: Option<MidiGlobalCfg>) -> (r: MidiGlobalCfg)
    ensures
        r == spec_merge_midi_cfg(*base, ov),
{
    match ov {
        Some(o) => {
            let device = match o.preferred_device_contains {
                Some(d) => Some(d),
                None => match &base.preferred_device_contains {
                    Some(s) => Some(s.clone()),
                    None => None,
                },
            };
            let channel = match o.channel {
                Some(c) => Some(c),
                None => base.channel,
            };
            MidiGlobalCfg { preferred_device_contains: device, channel }
        },
        None => base.clone(),
    }
}

/// A decoded control-change message.
#[derive(Clone, Copy, PartialEq, Eq, Structural, Debug)]
pub struct ControlChange {
    pub channel: u8,
    pub controller: u8,
    pub value: u8,
}

/// What a raw MIDI message is as a control change: three bytes whose status
/// byte has the high nibble `0xB`; the low nibble is the channel.
pub open spec fn spec_decode_control_change(msg: Seq<u8>) -> Option<ControlChange> {
    if msg.len() == 3 && (msg[0] & 0xF0) == 0xB0 {
        Some(ControlChange { channel: msg[0] & 0x0F, controller: msg[1], value: msg[2] })
    } else {
        None
    }
}

/// Decodes a raw MIDI message; anything but a three-byte control change is
/// not for the parameter store.
pub fn decode_control_change(msg: &[u8]) -> (r: Option<ControlChange>)
    ensures
        r == spec_decode_control_change(msg@),
        r matches Some(m) ==> m.channel < 16,
{
    if msg.len() == 3 && (msg[0] & 0xF0) == 0xB0 {
        let status = msg[0];
        assert(status & 0x0F < 16) by (bit_vector);
        Some(ControlChange { channel: status & 0x0F, controller: msg[1], value: msg[2] })
    } else {
        None
    }
}

/// Whether a control change is written to the log: the first eighty
/// messages always are, and so is every unmapped one.
pub fn should_log_control_change(seen_before: usize, mapped: bool) -> (r: bool)
    ensures
        r == (seen_before < 80 || !mapped),
{
    seen_before < 80 || !mapped
}

/// Whether the port with the lower-cased name `name` is the preferred one:
/// it has a name and the name holds the lower-cased preference.
pub open spec fn spec_port_matches(name: Option<Seq<char>>, preference: Seq<char>) -> bool {
    match name {
        Some(n) => spec_contains(n, preference),
        None => false,
    }
}

/// The port to connect to, given the lower-cased names of the ports, in
/// order, and the lower-cased preference: none if there is no port; else
/// the first port that the preference matches; else the first port.
pub open spec fn spec_choose_port(names: Seq<Option<Seq<char>>>, preference: Option<Seq<char>>) -> Option<
    int,
> {
    if names.len() == 0 {
        None
    } else {
        match preference {
            Some(p) => if exists|i: int| 0 <= i < names.len() && spec_port_matches(names[i], p) {
                Some(spec_first_matching(names, p))
            } else {
                Some(0)
            },
            None => Some(0),
        }
    }
}

/// `i` is the first port that the preference matches.
pub open spec fn spec_first_match(names: Seq<Option<Seq<char>>>, preference: Seq<char>, i: int) -> bool {
    &&& 0 <= i < names.len()
    &&& spec_port_matches(names[i], preference)
    &&& forall|j: int| 0 <= j < i ==> !spec_port_matches(names[j], preference)
}

/// The first port that the preference matches.
pub open spec fn spec_first_matching(names: Seq<Option<Seq<char>>>, preference: Seq<char>) -> int {
    choose|i: int| spec_first_match(names, preference, i)
}

/// The names of the ports as texts.
pub open spec fn spec_port_names(names: Seq<Option<String>>) -> Seq<Option<Seq<char>>> {
    Seq::new(
        names.len(),
        |i: int|
            match names[i] {
                Some(n) => Some(n@),
                None => None,
            },
    )
}

/// The lower-cased names of the ports.
pub open spec fn spec_lowered_port_names(names: Seq<Option<String>>) -> Seq<Option<Seq<char>>> {
    Seq::new(
        names.len(),
        |i: int|
            match names[i] {
                Some(n) => Some(lowercase_of(n@)),
                None => None,
            },
    )
}

/// Chooses the port to connect to from names and a preference that are
/// already in lower case. A port whose name could not be read is `None`.
pub fn choose_port_lowered(names: &Vec<Option<String>>, preference: Option<&str>) -> (r: Option<usize>)
    ensures
        match r {
            Some(i) => spec_choose_port(
                spec_port_names(names@),
                match preference {
                    Some(p) => Some(p@),
                    None => None,
                },
            ) == Some(i as int) && i < names@.len(),
            None => names@.len() == 0,
        },
{
    if names.len() == 0 {
        return None;
    }
    let pref = match preference {
        Some(p) => p,
        None => {
            return Some(0);
        },
    };
    let ghost ns = spec_port_names(names@);
    let mut i: usize = 0;
    while i < names.len()
        invariant
            i <= names.len(),
            ns == spec_port_names(names@),
            preference == Some(pref),
            forall|j: int| 0 <= j < i ==> !spec_port_matches(ns[j], pref@),
        decreases names.len() - i,
    {
        let hit = match &names[i] {
            Some(n) => contains(n.as_str(), pref),
            None => false,
        };
        assert(hit == spec_port_matches(ns[i as int], pref@));
        if hit {
            proof {
                assert(0 <= i < ns.len() && spec_port_matches(ns[i as int], pref@));
                assert(spec_first_match(ns, pref@, i as int));
                let c = spec_first_matching(ns, pref@);
                assert(spec_first_match(ns, pref@, c));
                assert(c == i as int) by {
                    if c < i {
                        assert(!spec_port_matches(ns[c], pref@));
                    } else if c > i {
                        assert(!spec_port_matches(ns[i as int], pref@));
                    }
                }
            }
            return Some(i);
        }
        i += 1;
    }
    assert(!exists|k: int| 0 <= k < ns.len() && spec_port_matches(ns[k], pref@));
    Some(0)
}

/// Chooses the port to connect to: none if there is no port; else the
/// first port whose name, in lower case, holds the preferred text, in lower
/// case; else the first port. A port whose name could not be read is
/// `None`.
pub fn choose_port(names: &Vec<Option<String>>, preferred: Option<&str>) -> (r: Option<usize>)
    ensures
        match r {
            Some(i) => spec_choose_port(
                spec_lowered_port_names(names@),
                match preferred {
                    Some(p) => Some(lowercase_of(p@)),
                    None => None,
                },
            ) == Some(i as int) && i < names@.len(),
            None => names@.len() == 0,
        },
{
    let mut lowered: Vec<Option<String>> = Vec::new();
    let mut i: usize = 0;
    while i < names.len()
        invariant
            i <= names.len(),
            lowered@.len() == i,
            forall|j: int| 0 <= j < i ==> spec_port_names(lowered@)[j] == spec_lowered_port_names(names@)[j],
        decreases names.len() - i,
    {
        let entry = match &names[i] {
            Some(n) => Some(to_lowercase(n.as_str())),
            None => None,
        };
        lowered.push(entry);
        i += 1;
    }
    assert(spec_port_names(lowered@) =~= spec_lowered_port_names(names@));
    match preferred {
        Some(p) => {
            let lp = to_lowercase(p);
            choose_port_lowered(&lowered, Some(lp.as_str()))
        },
        None => choose_port_lowered(&lowered, None),
    }
}

} // verus!
