//! Hotkeys: the keys that can be bound, how their names are read, and the
//! tables from key to action that the configuration builds.

use vstd::prelude::*;
use vstd::string::*;
use crate::capture::RecHotkeyAction;
use crate::output::OutputMode;
use crate::params::ParamsFile;
use crate::profile::ProfileAction;
use crate::recording::RecordingCfg;
use crate::text::{str_eq, views};

verus! {

/// A physical key that an action can be bound to or that has a fixed
/// meaning.
#[derive(Clone, Copy, PartialEq, Eq, Structural, Debug)]
pub enum Key {
    Digit0,
    Digit1,
    Digit2,
    Digit3,
    Digit4,
    Digit5,
    Digit6,
    Digit7,
    Digit8,
    Digit9,
    Numpad0,
    Numpad1,
    Numpad2,
    Numpad3,
    Numpad4,
    Numpad5,
    Numpad6,
    Numpad7,
    Numpad8,
    Numpad9,
    Insert,
    PageUp,
    KeyT,
    KeyR,
    KeyS,
    BracketLeft,
    BracketRight,
    KeyP,
    KeyO,
    KeyL,
    KeyD,
    KeyN,
    KeyB,
    KeyM,
    Quote,
    Period,
    Backquote,
    Semicolon,
    Comma,
    IntlBackslash,
}

/// Number of keys.
pub const KEY_COUNT: usize = 40;

/// The place of a key in a table.
pub open spec fn spec_key_index(k: Key) -> int {
    match k {
        Key::Digit0 => 0,
        Key::Digit1 => 1,
        Key::Digit2 => 2,
        Key::Digit3 => 3,
        Key::Digit4 => 4,
        Key::Digit5 => 5,
        Key::Digit6 => 6,
        Key::Digit7 => 7,
        Key::Digit8 => 8,
        Key::Digit9 => 9,
        Key::Numpad0 => 10,
        Key::Numpad1 => 11,
        Key::Numpad2 => 12,
        Key::Numpad3 => 13,
        Key::Numpad4 => 14,
        Key::Numpad5 => 15,
        Key::Numpad6 => 16,
        Key::Numpad7 => 17,
        Key::Numpad8 => 18,
        Key::Numpad9 => 19,
        Key::Insert => 20,
        Key::PageUp => 21,
        Key::KeyT => 22,
        Key::KeyR => 23,
        Key::KeyS => 24,
        Key::BracketLeft => 25,
        Key::BracketRight => 26,
        Key::KeyP => 27,
        Key::KeyO => 28,
        Key::KeyL => 29,
        Key::KeyD => 30,
        Key::KeyN => 31,
        Key::KeyB => 32,
        Key::KeyM => 33,
        Key::Quote => 34,
        Key::Period => 35,
        Key::Backquote => 36,
        Key::Semicolon => 37,
        Key::Comma => 38,
        Key::IntlBackslash => 39,
    }
}

/// The place of a key in a table.
pub fn key_index(k: Key) -> (i: usize)
    ensures
        i == spec_key_index(k),
        i < KEY_COUNT,
{
    match k {
        Key::Digit0 => 0,
        Key::Digit1 => 1,
        Key::Digit2 => 2,
        Key::Digit3 => 3,
        Key::Digit4 => 4,
        Key::Digit5 => 5,
        Key::Digit6 => 6,
        Key::Digit7 => 7,
        Key::Digit8 => 8,
        Key::Digit9 => 9,
        Key::Numpad0 => 10,
        Key::Numpad1 => 11,
        Key::Numpad2 => 12,
        Key::Numpad3 => 13,
        Key::Numpad4 => 14,
        Key::Numpad5 => 15,
        Key::Numpad6 => 16,
        Key::Numpad7 => 17,
        Key::Numpad8 => 18,
        Key::Numpad9 => 19,
        Key::Insert => 20,
        Key::PageUp => 21,
        Key::KeyT => 22,
        Key::KeyR => 23,
        Key::KeyS => 24,
        Key::BracketLeft => 25,
        Key::BracketRight => 26,
        Key::KeyP => 27,
        Key::KeyO => 28,
        Key::KeyL => 29,
        Key::KeyD => 30,
        Key::KeyN => 31,
        Key::KeyB => 32,
        Key::KeyM => 33,
        Key::Quote => 34,
        Key::Period => 35,
        Key::Backquote => 36,
        Key::Semicolon => 37,
        Key::Comma => 38,
        Key::IntlBackslash => 39,
    }
}

/// The key that a name in the configuration stands for. Only the keys
/// that can be bound have a name.
pub open spec fn spec_parse_keycode(name: Seq<char>) -> Option<Key> {
    if name == "Digit0"@ {
        Some(Key::Digit0)
    } else if name == "Digit1"@ {
        Some(Key::Digit1)
    } else if name == "Digit2"@ {
        Some(Key::Digit2)
    } else if name == "Digit3"@ {
        Some(Key::Digit3)
    } else if name == "Digit4"@ {
        Some(Key::Digit4)
    } else if name == "Digit5"@ {
        Some(Key::Digit5)
    } else if name == "Digit6"@ {
        Some(Key::Digit6)
    } else if name == "Digit7"@ {
        Some(Key::Digit7)
    } else if name == "Digit8"@ {
        Some(Key::Digit8)
    } else if name == "Digit9"@ {
        Some(Key::Digit9)
    } else if name == "Numpad0"@ {
        Some(Key::Numpad0)
    } else if name == "Numpad1"@ {
        Some(Key::Numpad1)
    } else if name == "Numpad2"@ {
        Some(Key::Numpad2)
    } else if name == "Numpad3"@ {
        Some(Key::Numpad3)
    } else if name == "Numpad4"@ {
        Some(Key::Numpad4)
    } else if name == "Numpad5"@ {
        Some(Key::Numpad5)
    } else if name == "Numpad6"@ {
        Some(Key::Numpad6)
    } else if name == "Numpad7"@ {
        Some(Key::Numpad7)
    } else if name == "Numpad8"@ {
        Some(Key::Numpad8)
    } else if name == "Numpad9"@ {
        Some(Key::Numpad9)
    } else if name == "Insert"@ {
        Some(Key::Insert)
    } else if name == "PageUp"@ {
        Some(Key::PageUp)
    } else if name == "KeyT"@ {
        Some(Key::KeyT)
    } else if name == "KeyR"@ {
        Some(Key::KeyR)
    } else if name == "KeyS"@ {
        Some(Key::KeyS)
    } else if name == "BracketLeft"@ {
        Some(Key::BracketLeft)
    } else if name == "BracketRight"@ {
        Some(Key::BracketRight)
    } else if name == "KeyP"@ {
        Some(Key::KeyP)
    } else if name == "KeyO"@ {
        Some(Key::KeyO)
    } else if name == "KeyL"@ {
        Some(Key::KeyL)
    } else if name == "KeyD"@ {
        Some(Key::KeyD)
    } else if name == "KeyN"@ {
        Some(Key::KeyN)
    } else if name == "KeyB"@ {
        Some(Key::KeyB)
    } else if name == "KeyM"@ {
        Some(Key::KeyM)
    } else {
        None
    }
}

/// Reads the name of a key.
pub fn parse_keycode(name: &str) -> (r: Option<Key>)
    ensures
        r == spec_parse_keycode(name@),
{
    if str_eq(name, "Digit0") {
        Some(Key::Digit0)
    } else if str_eq(name, "Digit1") {
        Some(Key::Digit1)
    } else if str_eq(name, "Digit2") {
        Some(Key::Digit2)
    } else if str_eq(name, "Digit3") {
        Some(Key::Digit3)
    } else if str_eq(name, "Digit4") {
        Some(Key::Digit4)
    } else if str_eq(name, "Digit5") {
        Some(Key::Digit5)
    } else if str_eq(name, "Digit6") {
        Some(Key::Digit6)
    } else if str_eq(name, "Digit7") {
        Some(Key::Digit7)
    } else if str_eq(name, "Digit8") {
        Some(Key::Digit8)
    } else if str_eq(name, "Digit9") {
        Some(Key::Digit9)
    } else if str_eq(name, "Numpad0") {
        Some(Key::Numpad0)
    } else if str_eq(name, "Numpad1") {
        Some(Key::Numpad1)
    } else if str_eq(name, "Numpad2") {
        Some(Key::Numpad2)
    } else if str_eq(name, "Numpad3") {
        Some(Key::Numpad3)
    } else if str_eq(name, "Numpad4") {
        Some(Key::Numpad4)
    } else if str_eq(name, "Numpad5") {
        Some(Key::Numpad5)
    } else if str_eq(name, "Numpad6") {
        Some(Key::Numpad6)
    } else if str_eq(name, "Numpad7") {
        Some(Key::Numpad7)
    } else if str_eq(name, "Numpad8") {
        Some(Key::Numpad8)
    } else if str_eq(name, "Numpad9") {
        Some(Key::Numpad9)
    } else if str_eq(name, "Insert") {
        Some(Key::Insert)
    } else if str_eq(name, "PageUp") {
        Some(Key::PageUp)
    } else if str_eq(name, "KeyT") {
        Some(Key::KeyT)
    } else if str_eq(name, "KeyR") {
        Some(Key::KeyR)
    } else if str_eq(name, "KeyS") {
        Some(Key::KeyS)
    } else if str_eq(name, "BracketLeft") {
        Some(Key::BracketLeft)
    } else if str_eq(name, "BracketRight") {
        Some(Key::BracketRight)
    } else if str_eq(name, "KeyP") {
        Some(Key::KeyP)
    } else if str_eq(name, "KeyO") {
        Some(Key::KeyO)
    } else if str_eq(name, "KeyL") {
        Some(Key::KeyL)
    } else if str_eq(name, "KeyD") {
        Some(Key::KeyD)
    } else if str_eq(name, "KeyN") {
        Some(Key::KeyN)
    } else if str_eq(name, "KeyB") {
        Some(Key::KeyB)
    } else if str_eq(name, "KeyM") {
        Some(Key::KeyM)
    } else {
        None
    }
}

/// A table from key to action.
pub struct KeyMap<V> {
    slots: Vec<Option<V>>,
}

impl<V> KeyMap<V> {
    /// The table has a slot for each key.
    pub closed spec fn wf(&self) -> bool {
        self.slots@.len() == KEY_COUNT
    }

    /// The table as a map.
    pub closed spec fn view(&self) -> Map<Key, V> {
        Map::new(
            |k: Key| self.slots@[spec_key_index(k)] is Some,
            |k: Key| self.slots@[spec_key_index(k)]->0,
        )
    }

    /// The empty table.
    pub fn new() -> (r: Self)
        ensures
            r.wf(),
            r@ == Map::<Key, V>::empty(),
    {
        let mut slots: Vec<Option<V>> = Vec::new();
        let mut i: usize = 0;
        while i < KEY_COUNT
            invariant
                i <= KEY_COUNT,
                slots@.len() == i,
                forall|j: int| 0 <= j < i ==> slots@[j] is None,
            decreases KEY_COUNT - i,
        {
            slots.push(None);
            i += 1;
        }
        let r = KeyMap { slots };
        assert(r@ =~= Map::<Key, V>::empty());
        r
    }

    /// The action bound to a key.
    pub fn get(&self, k: Key) -> (r: Option<&V>)
        requires
            self.wf(),
        ensures
            match r {
                Some(v) => self@.contains_key(k) && *v == self@[k],
                None => !self@.contains_key(k),
            },
    {
        match &self.slots[key_index(k)] {
            Some(v) => Some(v),
            None => None,
        }
    }

    /// Whether a key is bound.
    pub fn contains_key(&self, k: Key) -> (r: bool)
        requires
            self.wf(),
        ensures
            r == self@.contains_key(k),
    {
        self.slots[key_index(k)].is_some()
    }

    /// Binds an action to a key, replacing what was bound to it.
    pub fn insert(&mut self, k: Key, v: V)
        requires
            old(self).wf(),
        ensures
            final(self).wf(),
            final(self)@ == old(self)@.insert(k, v),
    {
        let ghost before = *self;
        self.slots.set(key_index(k), Some(v));
        proof {
            assert forall|j: Key| j != k implies spec_key_index(j) != spec_key_index(k) by {}
            assert(self@ =~= before@.insert(k, v));
        }
    }
}

/// The table after each name of the list that stands for a key is bound to
/// `v`, in order.
pub open spec fn spec_bind_all<V>(m: Map<Key, V>, names: Seq<Seq<char>>, v: V) -> Map<Key, V>
    decreases names.len(),
{
    if names.len() == 0 {
        m
    } else {
        let rest = spec_bind_all(m, names.drop_last(), v);
        match spec_parse_keycode(names.last()) {
            Some(k) => rest.insert(k, v),
            None => rest,
        }
    }
}

/// Binds `v` to each key that the list names. A name that stands for no
/// key is passed over.
pub fn bind_all<V: Copy>(map: &mut KeyMap<V>, names: &Vec<String>, v: V)
    requires
        old(map).wf(),
    ensures
        final(map).wf(),
        final(map)@ == spec_bind_all(old(map)@, views(names@), v),
{
    let ghost vs = views(names@);
    let mut i: usize = 0;
    while i < names.len()
        invariant
            i <= names.len(),
            vs == views(names@),
            map.wf(),
            map@ == spec_bind_all(old(map)@, vs.take(i as int), v),
        decreases names.len() - i,
    {
        proof {
            assert(vs.take(i + 1).drop_last() == vs.take(i as int));
            assert(vs.take(i + 1).last() == vs[i as int]);
        }
        if let Some(k) = parse_keycode(names[i].as_str()) {
            map.insert(k, v);
        }
        i += 1;
    }
    assert(vs.take(vs.len() as int) == vs);
}

/// The key names that select each output mode.
pub struct HotkeysCfg {
    pub texture: Vec<String>,
    pub syphon: Vec<String>,
    pub spout: Vec<String>,
    pub stream: Vec<String>,
    pub ndi: Vec<String>,
}

/// The two names of a digit key: on the main block and on the number pad.
fn digit_pair(main: &str, pad: &str) -> (r: Vec<String>)
    ensures
        views(r@) == seq![main@, pad@],
{
    let mut v: Vec<String> = Vec::new();
    v.push(String::from_str(main));
    v.push(String::from_str(pad));
    assert(views(v@) =~= seq![main@, pad@]);
    v
}

/// The keys that select the local texture unless others are configured.
pub fn default_hotkeys_texture() -> (r: Vec<String>)
    ensures
        views(r@) == seq!["Digit1"@, "Numpad1"@],
{
    digit_pair("Digit1", "Numpad1")
}

/// The keys that select Syphon unless others are configured.
pub fn default_hotkeys_syphon() -> (r: Vec<String>)
    ensures
        views(r@) == seq!["Digit2"@, "Numpad2"@],
{
    digit_pair("Digit2", "Numpad2")
}

/// The keys that select Spout unless others are configured.
pub fn default_hotkeys_spout() -> (r: Vec<String>)
    ensures
        views(r@) == seq!["Digit3"@, "Numpad3"@],
{
    digit_pair("Digit3", "Numpad3")
}

/// The keys that select the stream unless others are configured.
pub fn default_hotkeys_stream() -> (r: Vec<String>)
    ensures
        views(r@) == seq!["Digit4"@, "Numpad4"@],
{
    digit_pair("Digit4", "Numpad4")
}

/// The keys that select NDI unless others are configured.
pub fn default_hotkeys_ndi() -> (r: Vec<String>)
    ensures
        views(r@) == seq!["Digit6"@, "Numpad6"@],
{
    digit_pair("Digit6", "Numpad6")
}

impl Default for HotkeysCfg {
    fn default() -> (r: Self)
        ensures
            views(r.texture@) == seq!["Digit1"@, "Numpad1"@],
            views(r.syphon@) == seq!["Digit2"@, "Numpad2"@],
            views(r.spout@) == seq!["Digit3"@, "Numpad3"@],
            views(r.stream@) == seq!["Digit4"@, "Numpad4"@],
            views(r.ndi@) == seq!["Digit6"@, "Numpad6"@],
    {
        HotkeysCfg {
            texture: default_hotkeys_texture(),
            syphon: default_hotkeys_syphon(),
            spout: default_hotkeys_spout(),
            stream: default_hotkeys_stream(),
            ndi: default_hotkeys_ndi(),
        }
    }
}

/// The table of the output hotkeys: the lists are bound in the order
/// texture, Syphon, Spout, stream, NDI, so that a key named in two lists
/// selects the later mode.
pub open spec fn spec_hotkey_map(cfg: HotkeysCfg) -> Map<Key, OutputMode> {
    let m0 = spec_bind_all(Map::empty(), views(cfg.texture@), OutputMode::Texture);
    let m1 = spec_bind_all(m0, views(cfg.syphon@), OutputMode::Syphon);
    let m2 = spec_bind_all(m1, views(cfg.spout@), OutputMode::Spout);
    let m3 = spec_bind_all(m2, views(cfg.stream@), OutputMode::Stream);
    spec_bind_all(m3, views(cfg.ndi@), OutputMode::Ndi)
}

/// Builds the table of the output hotkeys.
pub fn build_hotkey_map(cfg: &HotkeysCfg) -> (r: KeyMap<OutputMode>)
    ensures
        r.wf(),
        r@ == spec_hotkey_map(*cfg),
{
    let mut map: KeyMap<OutputMode> = KeyMap::new();
    bind_all(&mut map, &cfg.texture, OutputMode::Texture);
    bind_all(&mut map, &cfg.syphon, OutputMode::Syphon);
    bind_all(&mut map, &cfg.spout, OutputMode::Spout);
    bind_all(&mut map, &cfg.stream, OutputMode::Stream);
    bind_all(&mut map, &cfg.ndi, OutputMode::Ndi);
    map
}

/// How the preview scales the rendered frame into the window.
#[derive(Clone, Copy, PartialEq, Eq, Structural, Debug)]
pub enum PreviewScaleMode {
    Fit,
    Fill,
    Stretch,
    Pixel,
}

impl PreviewScaleMode {
    /// The number the presenting shader knows the mode by.
    pub open spec fn spec_as_i32(self) -> i32 {
        match self {
            PreviewScaleMode::Fit => 0,
            PreviewScaleMode::Fill => 1,
            PreviewScaleMode::Stretch => 2,
            PreviewScaleMode::Pixel => 3,
        }
    }

    /// The number the presenting shader knows the mode by.
    #[verifier::when_used_as_spec(spec_as_i32)]
    pub fn as_i32(self) -> (r: i32)
        ensures
            r == self.spec_as_i32(),
    {
        match self {
            PreviewScaleMode::Fit => 0,
            PreviewScaleMode::Fill => 1,
            PreviewScaleMode::Stretch => 2,
            PreviewScaleMode::Pixel => 3,
        }
    }

    /// The word for the mode in the configuration.
    pub fn as_str(self) -> (r: &'static str)
        ensures
            r@ == match self {
                PreviewScaleMode::Fit => "fit"@,
                PreviewScaleMode::Fill => "fill"@,
                PreviewScaleMode::Stretch => "stretch"@,
                PreviewScaleMode::Pixel => "pixel"@,
            },
    {
        match self {
            PreviewScaleMode::Fit => "fit",
            PreviewScaleMode::Fill => "fill",
            PreviewScaleMode::Stretch => "stretch",
            PreviewScaleMode::Pixel => "pixel",
        }
    }
}

/// The scale mode used when none is configured.
pub fn default_preview_scale_mode() -> (r: PreviewScaleMode)
    ensures
        r == PreviewScaleMode::Fit,
{
    PreviewScaleMode::Fit
}

/// The preview is shown unless it is configured off.
pub fn default_preview_enabled() -> (r: bool)
    ensures
        r,
{
    true
}

/// The word for a scale mode number in the log.
pub fn preview_scale_mode_name(mode: i32) -> (r: &'static str)
    ensures
        r@ == if mode == 0 {
            "FIT"@
        } else if mode == 1 {
            "FILL"@
        } else if mode == 2 {
            "STRETCH"@
        } else if mode == 3 {
            "PIXEL"@
        } else {
            "UNKNOWN"@
        },
{
    if mode == 0 {
        "FIT"
    } else if mode == 1 {
        "FILL"
    } else if mode == 2 {
        "STRETCH"
    } else if mode == 3 {
        "PIXEL"
    } else {
        "UNKNOWN"
    }
}

/// The key names that select each preview scale mode.
pub struct PreviewHotkeysCfg {
    pub fit: Vec<String>,
    pub fill: Vec<String>,
    pub stretch: Vec<String>,
    pub pixel: Vec<String>,
}

/// The keys that select fitting unless others are configured.
pub fn default_preview_hotkeys_fit() -> (r: Vec<String>)
    ensures
        views(r@) == seq!["Digit7"@, "Numpad7"@],
{
    digit_pair("Digit7", "Numpad7")
}

/// The keys that select filling unless others are configured.
pub fn default_preview_hotkeys_fill() -> (r: Vec<String>)
    ensures
        views(r@) == seq!["Digit8"@, "Numpad8"@],
{
    digit_pair("Digit8", "Numpad8")
}

/// The keys that select stretching unless others are configured.
pub fn default_preview_hotkeys_stretch() -> (r: Vec<String>)
    ensures
        views(r@) == seq!["Digit9"@, "Numpad9"@],
{
    digit_pair("Digit9", "Numpad9")
}

/// The keys that select pixel-exact display unless others are configured.
pub fn default_preview_hotkeys_pixel() -> (r: Vec<String>)
    ensures
        views(r@) == seq!["Digit0"@, "Numpad0"@],
{
    digit_pair("Digit0", "Numpad0")
}

impl Default for PreviewHotkeysCfg {
    fn default() -> (r: Self)
        ensures
            views(r.fit@) == seq!["Digit7"@, "Numpad7"@],
            views(r.fill@) == seq!["Digit8"@, "Numpad8"@],
            views(r.stretch@) == seq!["Digit9"@, "Numpad9"@],
            views(r.pixel@) == seq!["Digit0"@, "Numpad0"@],
    {
        PreviewHotkeysCfg {
            fit: default_preview_hotkeys_fit(),
            fill: default_preview_hotkeys_fill(),
            stretch: default_preview_hotkeys_stretch(),
            pixel: default_preview_hotkeys_pixel(),
        }
    }
}

/// The preview section of the output configuration.
pub struct PreviewCfg {
    pub enabled: bool,
    pub scale_mode: PreviewScaleMode,
    pub hotkeys: PreviewHotkeysCfg,
}

impl Default for PreviewCfg {
    fn default() -> (r: Self)
        ensures
            r.enabled,
            r.scale_mode == PreviewScaleMode::Fit,
            views(r.hotkeys.fit@) == seq!["Digit7"@, "Numpad7"@],
            views(r.hotkeys.fill@) == seq!["Digit8"@, "Numpad8"@],
            views(r.hotkeys.stretch@) == seq!["Digit9"@, "Numpad9"@],
            views(r.hotkeys.pixel@) == seq!["Digit0"@, "Numpad0"@],
    {
        PreviewCfg {
            enabled: default_preview_enabled(),
            scale_mode: default_preview_scale_mode(),
            hotkeys: PreviewHotkeysCfg::default(),
        }
    }
}

/// The table of the preview hotkeys: the lists are bound in the order fit,
/// fill, stretch, pixel, each to the number of its mode.
pub open spec fn spec_preview_hotkey_map(cfg: PreviewHotkeysCfg) -> Map<Key, i32> {
    let m0 = spec_bind_all(Map::empty(), views(cfg.fit@), 0i32);
    let m1 = spec_bind_all(m0, views(cfg.fill@), 1i32);
    let m2 = spec_bind_all(m1, views(cfg.stretch@), 2i32);
    spec_bind_all(m2, views(cfg.pixel@), 3i32)
}

/// Builds the table of the preview hotkeys.
pub fn build_preview_hotkey_map(cfg: &PreviewHotkeysCfg) -> (r: KeyMap<i32>)
    ensures
        r.wf(),
        r@ == spec_preview_hotkey_map(*cfg),
{
    let mut map: KeyMap<i32> = KeyMap::new();
    bind_all(&mut map, &cfg.fit, PreviewScaleMode::Fit.as_i32());
    bind_all(&mut map, &cfg.fill, PreviewScaleMode::Fill.as_i32());
    bind_all(&mut map, &cfg.stretch, PreviewScaleMode::Stretch.as_i32());
    bind_all(&mut map, &cfg.pixel, PreviewScaleMode::Pixel.as_i32());
    map
}

/// The table after `action` is bound to key `k` and to the keys that
/// stand in for it: a zero on the number pad is also the zero of the main
/// block and the insert key, a nine on the number pad also the nine of the
/// main block and the page-up key.
pub open spec fn spec_bind_with_aliases(
    m: Map<Key, RecHotkeyAction>,
    k: Key,
    action: RecHotkeyAction,
) -> Map<Key, RecHotkeyAction> {
    let m1 = m.insert(k, action);
    if k == Key::Numpad0 {
        m1.insert(Key::Digit0, action).insert(Key::Insert, action)
    } else if k == Key::Numpad9 {
        m1.insert(Key::Digit9, action).insert(Key::PageUp, action)
    } else {
        m1
    }
}

/// The table after each name of the list that stands for a key is bound to
/// `action`, with its stand-ins, in order.
pub open spec fn spec_bind_recording(
    m: Map<Key, RecHotkeyAction>,
    names: Seq<Seq<char>>,
    action: RecHotkeyAction,
) -> Map<Key, RecHotkeyAction>
    decreases names.len(),
{
    if names.len() == 0 {
        m
    } else {
        let rest = spec_bind_recording(m, names.drop_last(), action);
        match spec_parse_keycode(names.last()) {
            Some(k) => spec_bind_with_aliases(rest, k, action),
            None => rest,
        }
    }
}

fn bind_recording(map: &mut KeyMap<RecHotkeyAction>, names: &Vec<String>, action: RecHotkeyAction)
    requires
        old(map).wf(),
    ensures
        final(map).wf(),
        final(map)@ == spec_bind_recording(old(map)@, views(names@), action),
{
    let ghost vs = views(names@);
    let mut i: usize = 0;
    while i < names.len()
        invariant
            i <= names.len(),
            vs == views(names@),
            map.wf(),
            map@ == spec_bind_recording(old(map)@, vs.take(i as int), action),
        decreases names.len() - i,
    {
        proof {
            assert(vs.take(i + 1).drop_last() == vs.take(i as int));
            assert(vs.take(i + 1).last() == vs[i as int]);
        }
        if let Some(k) = parse_keycode(names[i].as_str()) {
            map.insert(k, action);
            if k == Key::Numpad0 {
                map.insert(Key::Digit0, action);
                map.insert(Key::Insert, action);
            } else if k == Key::Numpad9 {
                map.insert(Key::Digit9, action);
                map.insert(Key::PageUp, action);
            }
        }
        i += 1;
    }
    assert(vs.take(vs.len() as int) == vs);
}

/// The table of the recording hotkeys: the toggle keys, then the start
/// keys, then the stop keys.
pub open spec fn spec_recording_hotkey_map(cfg: RecordingCfg) -> Map<Key, RecHotkeyAction> {
    let m0 = spec_bind_recording(Map::empty(), views(cfg.toggle_keys@), RecHotkeyAction::Toggle);
    let m1 = spec_bind_recording(m0, views(cfg.start_keys@), RecHotkeyAction::Start);
    spec_bind_recording(m1, views(cfg.stop_keys@), RecHotkeyAction::Stop)
}

/// Builds the table of the recording hotkeys.
pub fn build_recording_hotkey_map(cfg: &RecordingCfg) -> (r: KeyMap<RecHotkeyAction>)
    ensures
        r.wf(),
        r@ == spec_recording_hotkey_map(*cfg),
{
    let mut map: KeyMap<RecHotkeyAction> = KeyMap::new();
    bind_recording(&mut map, &cfg.toggle_keys, RecHotkeyAction::Toggle);
    bind_recording(&mut map, &cfg.start_keys, RecHotkeyAction::Start);
    bind_recording(&mut map, &cfg.stop_keys, RecHotkeyAction::Stop);
    map
}

/// What a key does to the profile selection.
#[derive(Clone, Copy, PartialEq, Eq, Structural, Debug)]
pub enum ProfileKey {
    /// Step to the next profile.
    Next,
    /// Step to the previous profile.
    Prev,
    /// Select the profile with this place in the list of direct bindings.
    Select(usize),
}

/// The table after each name of the list that stands for a key is bound to
/// `v`, in order.
pub open spec fn spec_bind_profile(m: Map<Key, ProfileKey>, names: Seq<Seq<char>>, v: ProfileKey) -> Map<
    Key,
    ProfileKey,
> {
    spec_bind_all(m, names, v)
}

/// The table after the direct bindings `first..upto` are added, in order.
pub open spec fn spec_bind_selects(
    m: Map<Key, ProfileKey>,
    lists: Seq<Vec<String>>,
    upto: int,
) -> Map<Key, ProfileKey>
    decreases upto,
{
    if upto <= 0 {
        m
    } else {
        spec_bind_all(
            spec_bind_selects(m, lists, upto - 1),
            views(lists[upto - 1]@),
            ProfileKey::Select((upto - 1) as usize),
        )
    }
}

/// `m` with `k` bound to `v` unless `k` is bound already.
pub open spec fn spec_bind_default(m: Map<Key, ProfileKey>, k: Key, v: ProfileKey) -> Map<Key, ProfileKey> {
    if m.contains_key(k) {
        m
    } else {
        m.insert(k, v)
    }
}

/// The table of the profile hotkeys: the keys for the next profile, then
/// those for the previous one, then the direct bindings in their order;
/// last, the right bracket steps forward and the left bracket back unless
/// they are bound already.
pub open spec fn spec_profile_hotkey_map(pf: ParamsFile) -> Map<Key, ProfileKey> {
    let m0 = spec_bind_all(Map::empty(), views(pf.profile_hotkeys.next@), ProfileKey::Next);
    let m1 = spec_bind_all(m0, views(pf.profile_hotkeys.prev@), ProfileKey::Prev);
    let m2 = spec_bind_selects(
        m1,
        pf.profile_hotkeys.set.values(),
        pf.profile_hotkeys.set.values().len() as int,
    );
    spec_bind_default(
        spec_bind_default(m2, Key::BracketRight, ProfileKey::Next),
        Key::BracketLeft,
        ProfileKey::Prev,
    )
}

/// Builds the table of the profile hotkeys. A direct binding is given as
/// the place of its profile among the direct bindings of the
/// configuration; [`profile_action`] turns it into the step to take.
pub fn build_profile_hotkey_map(pf: &ParamsFile) -> (r: KeyMap<ProfileKey>)
    requires
        pf.wf(),
    ensures
        r.wf(),
        r@ == spec_profile_hotkey_map(*pf),
{
    let mut map: KeyMap<ProfileKey> = KeyMap::new();
    bind_all(&mut map, &pf.profile_hotkeys.next, ProfileKey::Next);
    bind_all(&mut map, &pf.profile_hotkeys.prev, ProfileKey::Prev);
    let ghost m1 = map@;
    let ghost lists = pf.profile_hotkeys.set.values();
    proof {
        pf.profile_hotkeys.set.lemma_keys();
    }
    let n = pf.profile_hotkeys.set.len();
    let mut i: usize = 0;
    while i < n
        invariant
            i <= n,
            n == pf.profile_hotkeys.set.keys().len(),
            lists == pf.profile_hotkeys.set.values(),
            lists.len() == n,
            map.wf(),
            map@ == spec_bind_selects(m1, lists, i as int),
        decreases n - i,
    {
        bind_all(&mut map, pf.profile_hotkeys.set.value_at(i), ProfileKey::Select(i));
        i += 1;
    }
    if !map.contains_key(Key::BracketRight) {
        map.insert(Key::BracketRight, ProfileKey::Next);
    }
    if !map.contains_key(Key::BracketLeft) {
        map.insert(Key::BracketLeft, ProfileKey::Prev);
    }
    map
}

/// The step that a profile key stands for.
pub fn profile_action(pf: &ParamsFile, key: ProfileKey) -> (r: Option<ProfileAction>)
    ensures
        match key {
            ProfileKey::Next => r == Some(ProfileAction::Next),
            ProfileKey::Prev => r == Some(ProfileAction::Prev),
            ProfileKey::Select(i) => if i < pf.profile_hotkeys.set.keys().len() {
                r matches Some(ProfileAction::Select(name)) && name@ == pf.profile_hotkeys.set.keys()[i as int]
            } else {
                r is None
            },
        },
{
    match key {
        ProfileKey::Next => Some(ProfileAction::Next),
        ProfileKey::Prev => Some(ProfileAction::Prev),
        ProfileKey::Select(i) => if i < pf.profile_hotkeys.set.len() {
            Some(ProfileAction::Select(pf.profile_hotkeys.set.key_at(i).clone()))
        } else {
            None
        },
    }
}

/// What a key does to the selection of the shader variant.
#[derive(Clone, Copy, PartialEq, Eq, Structural, Debug)]
pub enum VariantStep {
    Next,
    Prev,
}

/// The keys with a fixed meaning for the shader variants: quote, period
/// and backquote step forward; semicolon, comma and the extra backslash
/// key step back.
pub open spec fn spec_variant_step(k: Key) -> Option<VariantStep> {
    if k == Key::Quote || k == Key::Period || k == Key::Backquote {
        Some(VariantStep::Next)
    } else if k == Key::Semicolon || k == Key::Comma || k == Key::IntlBackslash {
        Some(VariantStep::Prev)
    } else {
        None
    }
}

/// Reads a key as a step through the shader variants.
pub fn variant_step(k: Key) -> (r: Option<VariantStep>)
    ensures
        r == spec_variant_step(k),
{
    match k {
        Key::Quote | Key::Period | Key::Backquote => Some(VariantStep::Next),
        Key::Semicolon | Key::Comma | Key::IntlBackslash => Some(VariantStep::Prev),
        _ => None,
    }
}

/// The variant a step leads to among `count` variants, going round at the
/// ends; with fewer than two variants there is nowhere to step.
pub open spec fn spec_step_variant(index: usize, count: usize, step: VariantStep) -> Option<usize> {
    if count <= 1 {
        None
    } else {
        match step {
            VariantStep::Next => Some(((index + 1) % (count as int)) as usize),
            VariantStep::Prev => Some(((index + count - 1) % (count as int)) as usize),
        }
    }
}

/// Steps from one shader variant to the next or the previous one.
pub fn step_variant(index: usize, count: usize, step: VariantStep) -> (r: Option<usize>)
    ensures
        r == spec_step_variant(index, count, step),
{
    if count <= 1 {
        return None;
    }
    let at = index % count;
    proof {
        vstd::arithmetic::div_mod::lemma_add_mod_noop(index as int, 1, count as int);
        vstd::arithmetic::div_mod::lemma_add_mod_noop(index as int, count - 1, count as int);
        vstd::arithmetic::div_mod::lemma_small_mod(1, count as nat);
        vstd::arithmetic::div_mod::lemma_small_mod((count - 1) as nat, count as nat);
    }
    match step {
        VariantStep::Next => {
            let k = if at + 1 == count {
                0
            } else {
                at + 1
            };
            assert(k == (at + 1) % (count as int)) by (nonlinear_arith)
                requires
                    0 <= at < count,
                    k == if at + 1 == count {
                        0
                    } else {
                        at + 1
                    },
            ;
            Some(k)
        },
        VariantStep::Prev => {
            let k = if at == 0 {
                count - 1
            } else {
                at - 1
            };
            assert(k == (at + count - 1) % (count as int)) by (nonlinear_arith)
                requires
                    0 <= at < count,
                    k == if at == 0 {
                        count - 1
                    } else {
                        at - 1
                    },
            ;
            Some(k)
        },
    }
}

} // verus!
