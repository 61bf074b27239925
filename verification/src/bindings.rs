//! The controller binding table: which parameter a (channel, controller)
//! pair drives, and how an incoming pair is resolved against it.

use vstd::prelude::*;
use crate::midi::{MidiGlobalCfg, WILDCARD_CHANNEL, normalize_midi_channel_opt, spec_normalize_channel_opt};
use crate::names::NameMap;
use crate::params::{ParamDef, Sample};

verus! {

/// What a binding drives: the parameter, the range the controller sweeps
/// and the smoothing that takes effect when it moves.
#[derive(Debug)]
pub struct ParamMapping {
    pub name: String,
    pub min: Sample,
    pub max: Sample,
    pub smoothing: Sample,
}

impl Clone for ParamMapping {
    fn clone(&self) -> (r: Self)
        ensures
            r == *self,
    {
        ParamMapping { name: self.name.clone(), min: self.min, max: self.max, smoothing: self.smoothing }
    }
}

/// A binding with its key.
pub struct MidiEntry {
    pub channel: u8,
    pub controller: u8,
    pub mapping: ParamMapping,
}

/// The binding table. A key occurs at most once.
pub struct MidiTable {
    entries: Vec<MidiEntry>,
}

/// Whether `ch` is the one and only channel on which `cc` is bound.
pub open spec fn sole_channel(t: Map<(u8, u8), ParamMapping>, cc: u8, ch: u8) -> bool {
    t.contains_key((ch, cc)) && forall|d: u8| t.contains_key((d, cc)) ==> d == ch
}

/// The key under which an incoming (channel, controller) pair is resolved:
/// the exact key if it is bound; else the wildcard key for the controller;
/// else, if the controller is bound on exactly one channel, that binding.
pub open spec fn spec_resolve(t: Map<(u8, u8), ParamMapping>, ch: u8, cc: u8) -> Option<(u8, u8)> {
    if t.contains_key((ch, cc)) {
        Some((ch, cc))
    } else if t.contains_key((WILDCARD_CHANNEL, cc)) {
        Some((WILDCARD_CHANNEL, cc))
    } else if exists|d: u8| sole_channel(t, cc, d) {
        Some((choose|d: u8| sole_channel(t, cc, d), cc))
    } else {
        None
    }
}

/// The key a definition's binding gets: its own channel, else the global
/// one, else the wildcard; its own controller unless the preset reassigns it.
pub open spec fn binding_key(
    name: Seq<char>,
    cc: u8,
    channel: Option<u8>,
    global_channel: Option<u8>,
    cc_overrides: Map<Seq<char>, u8>,
) -> (u8, u8) {
    let own = spec_normalize_channel_opt(channel);
    let global = spec_normalize_channel_opt(global_channel);
    let ch = if own is Some {
        own->0
    } else if global is Some {
        global->0
    } else {
        WILDCARD_CHANNEL
    };
    let controller = if cc_overrides.contains_key(name) {
        cc_overrides[name]
    } else {
        cc
    };
    (ch, controller)
}

/// The mapping a definition gives to its binding.
pub open spec fn mapping_of(p: ParamDef) -> ParamMapping {
    ParamMapping { name: p.name, min: p.min, max: p.max, smoothing: p.smoothing }
}

/// The table built from a list of definitions, taken in order: a later
/// definition replaces an earlier one under the same key.
pub open spec fn spec_build_mappings(
    params: Seq<ParamDef>,
    global_channel: Option<u8>,
    cc_overrides: Map<Seq<char>, u8>,
) -> Map<(u8, u8), ParamMapping>
    decreases params.len(),
{
    if params.len() == 0 {
        Map::empty()
    } else {
        let rest = spec_build_mappings(params.drop_last(), global_channel, cc_overrides);
        let p = params.last();
        match p.midi {
            Some(b) => rest.insert(
                binding_key(p.name@, b.cc, b.channel, global_channel, cc_overrides),
                mapping_of(p),
            ),
            None => rest,
        }
    }
}

impl MidiTable {
    /// No two entries share a key.
    pub closed spec fn wf(&self) -> bool {
        forall|i: int, j: int|
            0 <= i < j < self.entries@.len() ==> (self.entries@[i].channel, self.entries@[i].controller)
                != (self.entries@[j].channel, self.entries@[j].controller)
    }

    /// The keys in insertion order.
    pub closed spec fn keys(&self) -> Seq<(u8, u8)> {
        Seq::new(self.entries@.len(), |i: int| (self.entries@[i].channel, self.entries@[i].controller))
    }

    /// The mappings, in the order of [`Self::keys`].
    pub closed spec fn mappings(&self) -> Seq<ParamMapping> {
        Seq::new(self.entries@.len(), |i: int| self.entries@[i].mapping)
    }

    /// The table as a map from (channel, controller) to mapping.
    pub closed spec fn view(&self) -> Map<(u8, u8), ParamMapping> {
        Map::new(
            |k: (u8, u8)| self.keys().contains(k),
            |k: (u8, u8)| self.mappings()[self.keys().index_of(k)],
        )
    }

    /// How the ordered and the unordered view relate.
    pub proof fn lemma_keys(&self)
        requires
            self.wf(),
        ensures
            self.keys().len() == self.mappings().len(),
            self.keys().no_duplicates(),
            self@.dom() == self.keys().to_set(),
            forall|k: (u8, u8)| #[trigger] self@.contains_key(k) <==> self.keys().contains(k),
            forall|i: int|
                0 <= i < self.keys().len() ==> self@.contains_key(#[trigger] self.keys()[i])
                    && self@[self.keys()[i]] == self.mappings()[i],
    {
        assert(self@.dom() =~= self.keys().to_set());
        assert forall|i: int| 0 <= i < self.keys().len() implies self@.contains_key(
            #[trigger] self.keys()[i],
        ) && self@[self.keys()[i]] == self.mappings()[i] by {
            let k = self.keys()[i];
            assert(self.keys().contains(k));
            let j = self.keys().index_of(k);
            assert(self.keys()[j] == k);
        }
    }

    /// The empty table.
    pub fn new() -> (r: Self)
        ensures
            r.wf(),
            r@ == Map::<(u8, u8), ParamMapping>::empty(),
    {
        let r = MidiTable { entries: Vec::new() };
        assert(r@ =~= Map::<(u8, u8), ParamMapping>::empty());
        r
    }

    /// Number of bindings.
    pub fn len(&self) -> (n: usize)
        ensures
            n == self.keys().len(),
    {
        self.entries.len()
    }

    /// The `i`-th binding in insertion order.
    pub fn entry_at(&self, i: usize) -> (r: &MidiEntry)
        requires
            i < self.keys().len(),
        ensures
            (r.channel, r.controller) == self.keys()[i as int],
            r.mapping == self.mappings()[i as int],
    {
        &self.entries[i]
    }

    fn position(&self, ch: u8, cc: u8) -> (r: Option<usize>)
        ensures
            match r {
                Some(i) => i < self.entries@.len() && self.keys()[i as int] == (ch, cc),
                None => !self.keys().contains((ch, cc)),
            },
    {
        let mut i: usize = 0;
        while i < self.entries.len()
            invariant
                i <= self.entries@.len(),
                forall|j: int| 0 <= j < i ==> self.keys()[j] != (ch, cc),
            decreases self.entries@.len() - i,
        {
            if self.entries[i].channel == ch && self.entries[i].controller == cc {
                return Some(i);
            }
            i += 1;
        }
        None
    }

    /// The mapping bound to exactly this key.
    pub fn get(&self, ch: u8, cc: u8) -> (r: Option<&ParamMapping>)
        requires
            self.wf(),
        ensures
            match r {
                Some(m) => self@.contains_key((ch, cc)) && *m == self@[(ch, cc)],
                None => !self@.contains_key((ch, cc)),
            },
    {
        proof {
            self.lemma_keys();
        }
        match self.position(ch, cc) {
            Some(i) => Some(&self.entries[i].mapping),
            None => None,
        }
    }

    /// Binds `mapping` to the key, replacing what was bound there.
    pub fn insert(&mut self, ch: u8, cc: u8, mapping: ParamMapping)
        requires
            old(self).wf(),
        ensures
            final(self).wf(),
            final(self)@ == old(self)@.insert((ch, cc), mapping),
            final(self).keys() == if old(self)@.contains_key((ch, cc)) {
                old(self).keys()
            } else {
                old(self).keys().push((ch, cc))
            },
    {
        proof {
            self.lemma_keys();
        }
        let p = self.position(ch, cc);
        let ghost before = *self;
        match p {
            Some(i) => {
                self.entries.set(i, MidiEntry { channel: ch, controller: cc, mapping });
                proof {
                    assert(self.keys() =~= before.keys());
                    assert(self.wf()) by {
                        assert forall|a: int, b: int| 0 <= a < b < self.entries@.len() implies (
                            self.entries@[a].channel,
                            self.entries@[a].controller,
                        ) != (self.entries@[b].channel, self.entries@[b].controller) by {
                            assert(self.keys()[a] == before.keys()[a]);
                            assert(self.keys()[b] == before.keys()[b]);
                        }
                    }
                    self.lemma_keys();
                    assert(self@ =~= before@.insert((ch, cc), mapping)) by {
                        assert forall|k: (u8, u8)| #[trigger]
                            self@.contains_key(k) implies self@[k] == before@.insert(
                            (ch, cc),
                            mapping,
                        )[k] by {
                            let j = self.keys().index_of(k);
                            assert(self.keys()[j] == k);
                            if j != i as int {
                                assert(self.mappings()[j] == before.mappings()[j]);
                            }
                        }
                    }
                }
            },
            None => {
                self.entries.push(MidiEntry { channel: ch, controller: cc, mapping });
                proof {
                    assert(self.keys() =~= before.keys().push((ch, cc)));
                    assert(self.wf()) by {
                        assert forall|a: int, b: int| 0 <= a < b < self.entries@.len() implies (
                            self.entries@[a].channel,
                            self.entries@[a].controller,
                        ) != (self.entries@[b].channel, self.entries@[b].controller) by {
                            if b == self.entries@.len() - 1 {
                                assert(before.keys()[a] == (
                                    self.entries@[a].channel,
                                    self.entries@[a].controller,
                                ));
                            }
                        }
                    }
                    self.lemma_keys();
                    assert(self@ =~= before@.insert((ch, cc), mapping)) by {
                        assert forall|k: (u8, u8)| self@.contains_key(k) <==> before@.insert(
                            (ch, cc),
                            mapping,
                        ).contains_key(k) by {
                            if before.keys().contains(k) {
                                let j = before.keys().index_of(k);
                                assert(self.keys()[j] == k);
                            }
                            if k == (ch, cc) {
                                assert(self.keys()[self.keys().len() - 1] == k);
                            }
                        }
                        assert forall|k: (u8, u8)| #[trigger]
                            self@.contains_key(k) implies self@[k] == before@.insert(
                            (ch, cc),
                            mapping,
                        )[k] by {
                            let j = self.keys().index_of(k);
                            assert(self.keys()[j] == k);
                            if j < before.keys().len() {
                                assert(before.keys()[j] == k);
                                assert(self.mappings()[j] == before.mappings()[j]);
                            }
                        }
                    }
                }
            },
        }
    }

    /// The only binding of controller `cc`, on whatever channel it is, or
    /// `None` when the controller is bound on no channel or on several.
    fn sole_binding(&self, cc: u8) -> (r: Option<usize>)
        requires
            self.wf(),
        ensures
            match r {
                Some(i) => i < self.keys().len() && self.keys()[i as int].1 == cc && sole_channel(
                    self@,
                    cc,
                    self.keys()[i as int].0,
                ),
                None => !exists|d: u8| sole_channel(self@, cc, d),
            },
    {
        proof {
            self.lemma_keys();
        }
        let mut found: Option<usize> = None;
        let mut i: usize = 0;
        while i < self.entries.len()
            invariant
                self.wf(),
                i <= self.entries@.len(),
                match found {
                    Some(f) => f < i && self.keys()[f as int].1 == cc && forall|j: int|
                        0 <= j < i && self.keys()[j].1 == cc ==> j == f,
                    None => forall|j: int| 0 <= j < i ==> self.keys()[j].1 != cc,
                },
            decreases self.entries@.len() - i,
        {
            if self.entries[i].controller == cc {
                if let Some(f) = found {
                    proof {
                        self.lemma_keys();
                        let a = self.keys()[f as int];
                        let b = self.keys()[i as int];
                        assert(self@.contains_key(a) && self@.contains_key(b));
                        assert(a != b);
                        assert forall|d: u8| !sole_channel(self@, cc, d) by {
                            if sole_channel(self@, cc, d) {
                                assert(a.0 == d && b.0 == d);
                            }
                        }
                    }
                    return None;
                }
                found = Some(i);
            }
            i += 1;
        }
        proof {
            self.lemma_keys();
            match found {
                Some(f) => {
                    let k = self.keys()[f as int];
                    assert(self@.contains_key(k));
                    assert forall|d: u8| self@.contains_key((d, cc)) implies d == k.0 by {
                        let j = self.keys().index_of((d, cc));
                        assert(self.keys()[j] == (d, cc));
                    }
                },
                None => {
                    assert forall|d: u8| !sole_channel(self@, cc, d) by {
                        if self@.contains_key((d, cc)) {
                            let j = self.keys().index_of((d, cc));
                            assert(self.keys()[j] == (d, cc));
                        }
                    }
                },
            }
        }
        found
    }

    /// Resolves an incoming (channel, controller) pair to a binding.
    pub fn resolve(&self, ch: u8, cc: u8) -> (r: Option<&ParamMapping>)
        requires
            self.wf(),
        ensures
            match r {
                Some(m) => spec_resolve(self@, ch, cc) is Some && *m == self@[spec_resolve(
                    self@,
                    ch,
                    cc,
                )->0],
                None => spec_resolve(self@, ch, cc) is None,
            },
    {
        proof {
            self.lemma_keys();
        }
        if let Some(i) = self.position(ch, cc) {
            return Some(&self.entries[i].mapping);
        }
        if let Some(i) = self.position(WILDCARD_CHANNEL, cc) {
            return Some(&self.entries[i].mapping);
        }
        match self.sole_binding(cc) {
            Some(i) => {
                proof {
                    let d0 = self.keys()[i as int].0;
                    let d1 = choose|d: u8| sole_channel(self@, cc, d);
                    assert(sole_channel(self@, cc, d0));
                    assert(sole_channel(self@, cc, d1));
                    assert(d0 == d1);
                }
                Some(&self.entries[i].mapping)
            },
            None => None,
        }
    }
}

/// Builds the binding table for a list of definitions under the MIDI
/// settings in force and the controller numbers a preset reassigns.
pub fn build_mappings(
    params: &Vec<ParamDef>,
    effective_midi: &MidiGlobalCfg,
    cc_overrides: &NameMap<u8>,
) -> (r: MidiTable)
    requires
        cc_overrides.wf(),
    ensures
        r.wf(),
        r@ == spec_build_mappings(params@, effective_midi.channel, cc_overrides@),
{
    let mut table = MidiTable::new();
    let global = normalize_midi_channel_opt(effective_midi.channel);
    let mut i: usize = 0;
    while i < params.len()
        invariant
            i <= params.len(),
            table.wf(),
            cc_overrides.wf(),
            global == spec_normalize_channel_opt(effective_midi.channel),
            table@ == spec_build_mappings(params@.take(i as int), effective_midi.channel, cc_overrides@),
        decreases params.len() - i,
    {
        let p = &params[i];
        proof {
            assert(params@.take(i + 1).drop_last() == params@.take(i as int));
            assert(params@.take(i + 1).last() == params@[i as int]);
        }
        if let Some(b) = &p.midi {
            let own = normalize_midi_channel_opt(b.channel);
            let ch = match own {
                Some(c) => c,
                None => match global {
                    Some(c) => c,
                    None => WILDCARD_CHANNEL,
                },
            };
            let cc = match cc_overrides.get(p.name.as_str()) {
                Some(c) => *c,
                None => b.cc,
            };
            table.insert(
                ch,
                cc,
                ParamMapping { name: p.name.clone(), min: p.min, max: p.max, smoothing: p.smoothing },
            );
        }
        i += 1;
    }
    assert(params@.take(params@.len() as int) == params@);
    table
}

/// An exact binding always wins: neither a wildcard binding nor any other
/// binding of the same controller is considered when the incoming pair is
/// itself bound.
pub proof fn lemma_exact_binding_wins(t: Map<(u8, u8), ParamMapping>, ch: u8, cc: u8)
    requires
        t.contains_key((ch, cc)),
    ensures
        spec_resolve(t, ch, cc) == Some((ch, cc)),
{
}

/// A controller that is bound on two different channels, neither of them the
/// wildcard, does not resolve for a channel on which it is not bound.
pub proof fn lemma_ambiguous_controller_rejected(
    t: Map<(u8, u8), ParamMapping>,
    ch: u8,
    cc: u8,
    first: u8,
    second: u8,
)
    requires
        t.contains_key((first, cc)),
        t.contains_key((second, cc)),
        first != second,
        !t.contains_key((ch, cc)),
        !t.contains_key((WILDCARD_CHANNEL, cc)),
    ensures
        spec_resolve(t, ch, cc) is None,
{
    assert forall|d: u8| !sole_channel(t, cc, d) by {
        if sole_channel(t, cc, d) {
            assert(first == d && second == d);
        }
    }
}

/// Without an exact binding, the wildcard binding of the controller takes
/// the value, whatever else the controller is bound to.
pub proof fn lemma_wildcard_binding_is_next(t: Map<(u8, u8), ParamMapping>, ch: u8, cc: u8)
    requires
        !t.contains_key((ch, cc)),
        t.contains_key((WILDCARD_CHANNEL, cc)),
    ensures
        spec_resolve(t, ch, cc) == Some((WILDCARD_CHANNEL, cc)),
{
}

/// A controller that is bound on one channel only is taken from any
/// channel.
pub proof fn lemma_sole_binding_takes_any_channel(t: Map<(u8, u8), ParamMapping>, ch: u8, cc: u8, bound: u8)
    requires
        sole_channel(t, cc, bound),
    ensures
        spec_resolve(t, ch, cc) == Some((bound, cc)),
{
    if !t.contains_key((ch, cc)) && !t.contains_key((WILDCARD_CHANNEL, cc)) {
        let d = choose|d: u8| sole_channel(t, cc, d);
        assert(sole_channel(t, cc, d));
    }
}

/// A controller that is bound nowhere is not taken.
pub proof fn lemma_unbound_controller_rejected(t: Map<(u8, u8), ParamMapping>, ch: u8, cc: u8)
    requires
        forall|d: u8| !t.contains_key((d, cc)),
    ensures
        spec_resolve(t, ch, cc) is None,
{
}

} // verus!
