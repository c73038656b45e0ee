//! The keyboard hook: what becomes of each key that is pressed, before any
//! other program hears of it.

use vstd::prelude::*;

use crate::hotkeys::keys;
use crate::hotkeys::keys::Code;
use crate::hotkeys::table::TaskTable;
use crate::hotkeys::Modifier;
use crate::hotkeys::Modifiers;
use crate::text;

verus! {

/// A virtual key and the modifiers that are held with it.
#[derive(Clone, Copy, PartialEq, Eq, Structural, Debug)]
pub struct HookBinding {
    pub vk: u32,
    pub mods: u8,
}

impl HookBinding {
    pub open spec fn spec_key(&self) -> u64 {
        (self.vk * 256 + self.mods) as u64
    }

    /// The number under which the binding stands in a table.
    pub fn key(&self) -> (r: u64)
        ensures
            r == self.spec_key(),
    {
        self.vk as u64 * 256 + self.mods as u64
    }

    /// The binding of a number.
    pub fn of_key(key: u64) -> (r: HookBinding)
        requires
            key / 256 <= u32::MAX,
        ensures
            r.spec_key() == key,
    {
        HookBinding { vk: (key / 256) as u32, mods: (key % 256) as u8 }
    }
}

/// No two bindings stand under one number.
pub proof fn lemma_key_tells_bindings_apart(a: HookBinding, b: HookBinding)
    requires
        a.spec_key() == b.spec_key(),
    ensures
        a == b,
{
}

/// What the hook tells.
#[derive(Debug)]
pub enum HookEvent {
    /// A task is to run.
    Fire { task_id: String },
    /// A key was pressed while one was waited for.
    Captured { vk: u32, mods: u8 },
}

/// What the hook has counted.
#[derive(Clone, Copy, PartialEq, Eq, Structural, Debug)]
pub struct HookCounters {
    pub calls_total: u64,
    pub keydown_calls: u64,
    pub matched_calls: u64,
    pub dispatch_sent: u64,
    pub dispatch_dropped: u64,
    pub last_vk: u32,
    pub last_mods: u8,
}

/// What the hook has counted, and what it listens for.
#[derive(Debug)]
pub struct HookTelemetry {
    pub installed: bool,
    pub enabled: bool,
    pub registered_count: usize,
    pub registered: Vec<(HookBinding, String)>,
    pub calls_total: u64,
    pub keydown_calls: u64,
    pub matched_calls: u64,
    pub dispatch_sent: u64,
    pub dispatch_dropped: u64,
    pub last_vk: u32,
    pub last_mods: u8,
}

/// What becomes of a key.
#[derive(Debug)]
pub enum HookVerdict {
    /// The next program gets it.
    Pass,
    /// No program gets it.
    Swallow,
    /// No program gets it, and the event is told.
    Tell { event: HookEvent },
}

/// A message of the keyboard.
#[derive(Clone, Copy, PartialEq, Eq, Structural, Debug)]
pub enum KeyMessage {
    Down,
    Up,
    Other,
}

/// What a message of the keyboard means.
pub fn key_message(msg: u32) -> (r: KeyMessage)
    ensures
        r == (if msg == 0x100 || msg == 0x104 {
            KeyMessage::Down
        } else if msg == 0x101 || msg == 0x105 {
            KeyMessage::Up
        } else {
            KeyMessage::Other
        }),
{
    if msg == 0x100 || msg == 0x104 {
        KeyMessage::Down
    } else if msg == 0x101 || msg == 0x105 {
        KeyMessage::Up
    } else {
        KeyMessage::Other
    }
}

pub open spec fn numpad_vk(vk: u32, is_extended: bool) -> u32 {
    if is_extended {
        vk
    } else if vk == 0x0c {
        0x65
    } else if vk == 0x21 {
        0x69
    } else if vk == 0x22 {
        0x63
    } else if vk == 0x23 {
        0x61
    } else if vk == 0x24 {
        0x67
    } else if vk == 0x25 {
        0x64
    } else if vk == 0x26 {
        0x68
    } else if vk == 0x27 {
        0x66
    } else if vk == 0x28 {
        0x62
    } else if vk == 0x2d {
        0x60
    } else if vk == 0x2e {
        0x6e
    } else {
        vk
    }
}

/// The key of the number pad that was pressed, whether or not the pad is set to
/// numbers. The keys beside the pad are told apart by the extended flag.
pub fn normalize_numpad_vk(vk: u32, is_extended: bool) -> (r: u32)
    ensures
        r == numpad_vk(vk, is_extended),
{
    if is_extended {
        return vk;
    }
    match vk {
        0x0c => 0x65,
        0x21 => 0x69,
        0x22 => 0x63,
        0x23 => 0x61,
        0x24 => 0x67,
        0x25 => 0x64,
        0x26 => 0x68,
        0x27 => 0x66,
        0x28 => 0x62,
        0x2d => 0x60,
        0x2e => 0x6e,
        _ => vk,
    }
}

/// A key of the number pad stays what it is.
pub proof fn lemma_numpad_is_stable(vk: u32, is_extended: bool)
    ensures
        numpad_vk(numpad_vk(vk, is_extended), is_extended) == numpad_vk(vk, is_extended),
{
}

pub open spec fn modifier_vk(vk: u32) -> Option<Modifier> {
    if vk == 0x10 || vk == 0xa0 || vk == 0xa1 {
        Some(Modifier::Shift)
    } else if vk == 0x11 || vk == 0xa2 || vk == 0xa3 {
        Some(Modifier::Ctrl)
    } else if vk == 0x12 || vk == 0xa4 || vk == 0xa5 {
        Some(Modifier::Alt)
    } else if vk == 0x5b || vk == 0x5c {
        Some(Modifier::Win)
    } else {
        None
    }
}

fn modifier_of(vk: u32) -> (r: Option<Modifier>)
    ensures
        r == modifier_vk(vk),
{
    match vk {
        0x10 | 0xa0 | 0xa1 => Some(Modifier::Shift),
        0x11 | 0xa2 | 0xa3 => Some(Modifier::Ctrl),
        0x12 | 0xa4 | 0xa5 => Some(Modifier::Alt),
        0x5b | 0x5c => Some(Modifier::Win),
        _ => None,
    }
}

/// The number of the modifier that the key is.
pub fn modifier_bit(vk: u32) -> (r: Option<u8>)
    ensures
        r == (match modifier_vk(vk) {
            Some(Modifier::Ctrl) => Some(1u8),
            Some(Modifier::Alt) => Some(2u8),
            Some(Modifier::Shift) => Some(4u8),
            Some(Modifier::Win) => Some(8u8),
            None => None,
        }),
{
    match modifier_of(vk) {
        Some(Modifier::Ctrl) => Some(crate::hotkeys::MOD_CTRL),
        Some(Modifier::Alt) => Some(crate::hotkeys::MOD_ALT),
        Some(Modifier::Shift) => Some(crate::hotkeys::MOD_SHIFT),
        Some(Modifier::Win) => Some(crate::hotkeys::MOD_WIN),
        None => None,
    }
}

/// One more, starting again at nought behind the largest number.
pub open spec fn one_more(n: u64) -> u64 {
    if n == u64::MAX {
        0
    } else {
        (n + 1) as u64
    }
}

fn next(n: u64) -> (r: u64)
    ensures
        r == one_more(n),
{
    if n == u64::MAX {
        0
    } else {
        n + 1
    }
}

/// The state of the hook.
#[derive(Debug)]
pub struct HookState {
    bindings: TaskTable,
    enabled: bool,
    connected: bool,
    capturing: bool,
    installed: bool,
    held: Modifiers,
    counters: HookCounters,
}

impl HookState {
    /// The task of each key.
    pub closed spec fn spec_bindings(&self) -> Map<u64, Seq<char>> {
        self.bindings@
    }

    /// Whether keys start tasks.
    pub closed spec fn spec_enabled(&self) -> bool {
        self.enabled
    }

    /// Whether there is anyone to tell.
    pub closed spec fn spec_connected(&self) -> bool {
        self.connected
    }

    /// Whether the next key is waited for.
    pub closed spec fn spec_capturing(&self) -> bool {
        self.capturing
    }

    pub closed spec fn spec_installed(&self) -> bool {
        self.installed
    }

    /// The modifiers that are held.
    pub closed spec fn spec_held(&self) -> Modifiers {
        self.held
    }

    pub closed spec fn spec_counters(&self) -> HookCounters {
        self.counters
    }

    /// The bindings are the same, and so is whether the hook is enabled,
    /// connected and installed.
    pub open spec fn same_settings(&self, was: &HookState) -> bool {
        &&& self.spec_bindings() == was.spec_bindings()
        &&& self.spec_enabled() == was.spec_enabled()
        &&& self.spec_connected() == was.spec_connected()
        &&& self.spec_installed() == was.spec_installed()
    }

    /// A hook that listens for nothing.
    pub fn new() -> (r: Self)
        ensures
            r.spec_bindings() == Map::<u64, Seq<char>>::empty(),
            r.spec_enabled(),
            !r.spec_connected(),
            !r.spec_capturing(),
            !r.spec_installed(),
            r.spec_held() == Modifiers::none(),
            r.spec_counters() == (HookCounters {
                calls_total: 0,
                keydown_calls: 0,
                matched_calls: 0,
                dispatch_sent: 0,
                dispatch_dropped: 0,
                last_vk: 0,
                last_mods: 0,
            }),
    {
        HookState {
            bindings: TaskTable::new(),
            enabled: true,
            connected: false,
            capturing: false,
            installed: false,
            held: Modifiers::empty(),
            counters: HookCounters {
                calls_total: 0,
                keydown_calls: 0,
                matched_calls: 0,
                dispatch_sent: 0,
                dispatch_dropped: 0,
                last_vk: 0,
                last_mods: 0,
            },
        }
    }

    /// From now on there is someone to tell.
    pub fn init(&mut self)
        ensures
            final(self).spec_connected(),
            final(self).spec_bindings() == old(self).spec_bindings(),
            final(self).spec_enabled() == old(self).spec_enabled(),
            final(self).spec_capturing() == old(self).spec_capturing(),
            final(self).spec_installed() == old(self).spec_installed(),
            final(self).spec_held() == old(self).spec_held(),
            final(self).spec_counters() == old(self).spec_counters(),
    {
        self.connected = true;
    }

    /// The hook was put in, while these modifiers were held, or taken out.
    pub fn set_installed(&mut self, installed: bool, held: Modifiers)
        ensures
            final(self).spec_installed() == installed,
            final(self).spec_held() == held,
            final(self).spec_bindings() == old(self).spec_bindings(),
            final(self).spec_enabled() == old(self).spec_enabled(),
            final(self).spec_connected() == old(self).spec_connected(),
            final(self).spec_capturing() == old(self).spec_capturing(),
            final(self).spec_counters() == old(self).spec_counters(),
    {
        self.installed = installed;
        self.held = held;
    }

    /// Waits for the next key.
    pub fn begin_capture(&mut self)
        ensures
            final(self).spec_capturing(),
            final(self).same_settings(&*old(self)),
            final(self).spec_held() == old(self).spec_held(),
            final(self).spec_counters() == old(self).spec_counters(),
    {
        self.capturing = true;
    }

    /// No longer waits for a key.
    pub fn cancel_capture(&mut self)
        ensures
            !final(self).spec_capturing(),
            final(self).same_settings(&*old(self)),
            final(self).spec_held() == old(self).spec_held(),
            final(self).spec_counters() == old(self).spec_counters(),
    {
        self.capturing = false;
    }

    pub fn is_capturing(&self) -> (r: bool)
        ensures
            r == self.spec_capturing(),
    {
        self.capturing
    }

    /// Replaces the task of every key.
    pub fn set_bindings(&mut self, bindings: TaskTable)
        ensures
            final(self).spec_bindings() == bindings@,
            final(self).spec_enabled() == old(self).spec_enabled(),
            final(self).spec_connected() == old(self).spec_connected(),
            final(self).spec_capturing() == old(self).spec_capturing(),
            final(self).spec_installed() == old(self).spec_installed(),
            final(self).spec_held() == old(self).spec_held(),
            final(self).spec_counters() == old(self).spec_counters(),
    {
        self.bindings = bindings;
    }

    /// Sets whether keys start tasks.
    pub fn set_enabled(&mut self, enabled: bool)
        ensures
            final(self).spec_enabled() == enabled,
            final(self).spec_bindings() == old(self).spec_bindings(),
            final(self).spec_connected() == old(self).spec_connected(),
            final(self).spec_capturing() == old(self).spec_capturing(),
            final(self).spec_installed() == old(self).spec_installed(),
            final(self).spec_held() == old(self).spec_held(),
            final(self).spec_counters() == old(self).spec_counters(),
    {
        self.enabled = enabled;
    }

    pub fn current_enabled(&self) -> (r: bool)
        ensures
            r == self.spec_enabled(),
    {
        self.enabled
    }

    /// The keys that have a task, each once, with their tasks. A number that
    /// stands for no key is left out.
    pub fn registered_bindings(&self) -> (r: Vec<(HookBinding, String)>)
        ensures
            forall|i: int|
                0 <= i < r@.len() ==> self.spec_bindings().contains_key(
                    (#[trigger] r@[i]).0.spec_key(),
                ) && self.spec_bindings()[r@[i].0.spec_key()] == r@[i].1@,
            forall|b: HookBinding|
                self.spec_bindings().contains_key(#[trigger] b.spec_key()) ==> exists|i: int|
                    0 <= i < r@.len() && (#[trigger] r@[i]).0 == b,
            forall|i: int, j: int|
                0 <= i < j < r@.len() ==> (#[trigger] r@[i]).0 != (#[trigger] r@[j]).0,
    {
        let all = self.bindings.bound();
        let mut r: Vec<(HookBinding, String)> = Vec::new();
        let ghost mut places: Seq<int> = Seq::empty();
        for i in 0..all.len()
            invariant
                r@.len() == places.len(),
                forall|k: int|
                    0 <= k < r@.len() ==> 0 <= #[trigger] places[k] < i && all@[places[k]].key
                        == r@[k].0.spec_key() && all@[places[k]].task_id@ == r@[k].1@,
                forall|k: int, l: int| 0 <= k < l < r@.len() ==> places[k] < places[l],
                forall|k: int|
                    0 <= k < i && (#[trigger] all@[k]).key / 256 <= u32::MAX ==> exists|l: int|
                        0 <= l < r@.len() && #[trigger] places[l] == k,
        {
            if all[i].key / 256 <= u32::MAX as u64 {
                let ghost was = places;
                proof {
                    places = places.push(i as int);
                    assert forall|k: int| 0 <= k < i + 1 && (#[trigger] all@[k]).key / 256
                        <= u32::MAX implies exists|l: int|
                        0 <= l < places.len() && #[trigger] places[l] == k by {
                        if k == i {
                            assert(places[places.len() - 1] == k);
                        } else {
                            let l = choose|l: int| 0 <= l < was.len() && #[trigger] was[l] == k;
                            assert(places[l] == k);
                        }
                    }
                }
                r.push((HookBinding::of_key(all[i].key), all[i].task_id.clone()));
            }
        }
        proof {
            assert forall|i: int| 0 <= i < r@.len() implies self.spec_bindings().contains_key(
                (#[trigger] r@[i]).0.spec_key(),
            ) && self.spec_bindings()[r@[i].0.spec_key()] == r@[i].1@ by {
                assert(all@[places[i]].key == r@[i].0.spec_key());
            }
            assert forall|b: HookBinding|
                self.spec_bindings().contains_key(#[trigger] b.spec_key()) implies exists|i: int|
                0 <= i < r@.len() && (#[trigger] r@[i]).0 == b by {
                let k = choose|k: int|
                    0 <= k < all@.len() && (#[trigger] all@[k]).key == b.spec_key();
                let l = choose|l: int| 0 <= l < r@.len() && #[trigger] places[l] == k;
                assert(r@[l].0 == b);
            }
            assert forall|i: int, j: int| 0 <= i < j < r@.len() implies (#[trigger] r@[i]).0
                != (#[trigger] r@[j]).0 by {
                assert(places[i] < places[j]);
                assert(all@[places[i]].key != all@[places[j]].key);
            }
        }
        r
    }

    /// What the hook has counted and what it listens for.
    pub fn snapshot_telemetry(&self) -> (r: HookTelemetry)
        ensures
            r.installed == self.spec_installed(),
            r.enabled == self.spec_enabled(),
            r.registered_count == r.registered@.len(),
            forall|i: int|
                0 <= i < r.registered@.len() ==> self.spec_bindings().contains_key(
                    (#[trigger] r.registered@[i]).0.spec_key(),
                ) && self.spec_bindings()[r.registered@[i].0.spec_key()] == r.registered@[i].1@,
            forall|b: HookBinding|
                self.spec_bindings().contains_key(#[trigger] b.spec_key()) ==> exists|i: int|
                    0 <= i < r.registered@.len() && (#[trigger] r.registered@[i]).0 == b,
            forall|i: int, j: int|
                0 <= i < j < r.registered@.len() ==> (#[trigger] r.registered@[i]).0 != (
                #[trigger] r.registered@[j]).0,
            r.calls_total == self.spec_counters().calls_total,
            r.keydown_calls == self.spec_counters().keydown_calls,
            r.matched_calls == self.spec_counters().matched_calls,
            r.dispatch_sent == self.spec_counters().dispatch_sent,
            r.dispatch_dropped == self.spec_counters().dispatch_dropped,
            r.last_vk == self.spec_counters().last_vk,
            r.last_mods == self.spec_counters().last_mods,
    {
        let registered = self.registered_bindings();
        HookTelemetry {
            installed: self.installed,
            enabled: self.enabled,
            registered_count: registered.len(),
            registered,
            calls_total: self.counters.calls_total,
            keydown_calls: self.counters.keydown_calls,
            matched_calls: self.counters.matched_calls,
            dispatch_sent: self.counters.dispatch_sent,
            dispatch_dropped: self.counters.dispatch_dropped,
            last_vk: self.counters.last_vk,
            last_mods: self.counters.last_mods,
        }
    }

    /// What becomes of a key that is pressed with the modifiers held.
    pub open spec fn pressed(&self, vk: u32, v: HookVerdict) -> bool {
        let b = HookBinding { vk, mods: self.spec_held().spec_mask() as u8 };
        if self.spec_capturing() {
            if self.spec_connected() {
                v matches HookVerdict::Tell { event } && (event matches HookEvent::Captured {
                    vk: k,
                    mods,
                } && k == vk && mods == b.mods)
            } else {
                v is Swallow
            }
        } else if self.spec_enabled() && self.spec_connected() && self.spec_bindings().contains_key(
            b.spec_key(),
        ) {
            v matches HookVerdict::Tell { event } && (event matches HookEvent::Fire { task_id }
                && task_id@ == self.spec_bindings()[b.spec_key()])
        } else {
            v is Pass
        }
    }

    /// What the counters say once the key was pressed.
    pub open spec fn counted(&self, vk: u32) -> HookCounters {
        let mods = self.spec_held().spec_mask() as u8;
        let c = self.spec_counters();
        let found = !self.spec_capturing() && self.spec_enabled() && self.spec_connected()
            && self.spec_bindings().contains_key(HookBinding { vk, mods }.spec_key());
        HookCounters {
            keydown_calls: one_more(c.keydown_calls),
            last_vk: vk,
            last_mods: mods,
            matched_calls: if found {
                one_more(c.matched_calls)
            } else {
                c.matched_calls
            },
            ..c
        }
    }

    /// The message of the keyboard leads to the state `after`, and `v` becomes of
    /// it.
    pub open spec fn heard(
        &self,
        code: i32,
        message: KeyMessage,
        raw_vk: u32,
        is_extended: bool,
        after: HookState,
        v: HookVerdict,
    ) -> bool {
        let vk = numpad_vk(raw_vk, is_extended);
        let c = HookCounters {
            calls_total: one_more(self.spec_counters().calls_total),
            ..self.spec_counters()
        };
        &&& after.same_settings(self)
        &&& if code < 0 || message == KeyMessage::Other {
            v is Pass && after.spec_held() == self.spec_held() && after.spec_capturing()
                == self.spec_capturing() && after.spec_counters() == c
        } else {
            match modifier_vk(vk) {
                Some(m) => v is Pass && after.spec_held() == self.spec_held().set(
                    m,
                    message == KeyMessage::Down,
                ) && after.spec_capturing() == self.spec_capturing() && after.spec_counters() == c,
                None => if message == KeyMessage::Down {
                    self.pressed(vk, v) && after.spec_held() == self.spec_held()
                        && !after.spec_capturing() && after.spec_counters() == (HookCounters {
                        calls_total: c.calls_total,
                        ..self.counted(vk)
                    })
                } else {
                    v is Pass && after.spec_held() == self.spec_held() && after.spec_capturing()
                        == self.spec_capturing() && after.spec_counters() == c
                },
            }
        }
    }

    /// The message of the mouse leads to the state `after`, and `v` becomes of it.
    pub open spec fn clicked(
        &self,
        code: i32,
        msg: u32,
        x_button: u16,
        after: HookState,
        v: HookVerdict,
    ) -> bool {
        let calls_total = one_more(self.spec_counters().calls_total);
        &&& after.same_settings(self)
        &&& after.spec_held() == self.spec_held()
        &&& if code >= 0 && (msg == 0x20b || msg == 0xab) {
            let vk = if x_button == 1 {
                0x05u32
            } else {
                0x06u32
            };
            self.pressed(vk, v) && !after.spec_capturing() && after.spec_counters() == (
            HookCounters { calls_total, ..self.counted(vk) })
        } else {
            v is Pass && after.spec_capturing() == self.spec_capturing() && after.spec_counters()
                == (HookCounters { calls_total, ..self.spec_counters() })
        }
    }

    fn press(&mut self, vk: u32) -> (v: HookVerdict)
        ensures
            old(self).pressed(vk, v),
            final(self).same_settings(&*old(self)),
            final(self).spec_held() == old(self).spec_held(),
            !final(self).spec_capturing(),
            final(self).spec_counters() == old(self).counted(vk),
    {
        let mods: u8 = self.held.mask();
        self.counters.keydown_calls = next(self.counters.keydown_calls);
        self.counters.last_vk = vk;
        self.counters.last_mods = mods;
        if self.capturing {
            self.capturing = false;
            return if self.connected {
                HookVerdict::Tell { event: HookEvent::Captured { vk, mods } }
            } else {
                HookVerdict::Swallow
            };
        }
        if !self.enabled || !self.connected {
            return HookVerdict::Pass;
        }
        match self.bindings.get(HookBinding { vk, mods }.key()) {
            Some(task_id) => {
                self.counters.matched_calls = next(self.counters.matched_calls);
                HookVerdict::Tell { event: HookEvent::Fire { task_id } }
            },
            None => HookVerdict::Pass,
        }
    }

    /// A message of the keyboard came in: what becomes of it.
    ///
    /// `code` is negative where the system wants the message passed on.
    pub fn hook_proc(&mut self, code: i32, message: KeyMessage, raw_vk: u32, is_extended: bool) -> (v:
        HookVerdict)
        ensures
            old(self).heard(code, message, raw_vk, is_extended, *final(self), v),
            code >= 0 && message != KeyMessage::Other ==> ({
                let down = message == KeyMessage::Down;
                let was = old(self).spec_held();
                let held = final(self).spec_held();
                &&& held.shift == (if raw_vk == 0x10 || raw_vk == 0xa0 || raw_vk == 0xa1 {
                    down
                } else {
                    was.shift
                })
                &&& held.ctrl == (if raw_vk == 0x11 || raw_vk == 0xa2 || raw_vk == 0xa3 {
                    down
                } else {
                    was.ctrl
                })
                &&& held.alt == (if raw_vk == 0x12 || raw_vk == 0xa4 || raw_vk == 0xa5 {
                    down
                } else {
                    was.alt
                })
                &&& held.win == (if raw_vk == 0x5b || raw_vk == 0x5c {
                    down
                } else {
                    was.win
                })
            }),
            code < 0 || message == KeyMessage::Other ==> final(self).spec_held()
                == old(self).spec_held(),
    {
        self.counters.calls_total = next(self.counters.calls_total);
        if code < 0 {
            return HookVerdict::Pass;
        }
        match message {
            KeyMessage::Other => return HookVerdict::Pass,
            _ => {},
        }
        let down = match message {
            KeyMessage::Down => true,
            _ => false,
        };
        let vk: u32 = normalize_numpad_vk(raw_vk, is_extended);
        match modifier_of(vk) {
            Some(m) => {
                self.held = self.held.with(m, down);
                HookVerdict::Pass
            },
            None => if down {
                self.press(vk)
            } else {
                HookVerdict::Pass
            },
        }
    }

    /// A message of the mouse came in: what becomes of it. Of its buttons only
    /// the two at the side count, which have virtual keys of their own.
    pub fn mouse_hook_proc(&mut self, code: i32, msg: u32, x_button: u16) -> (v: HookVerdict)
        ensures
            old(self).clicked(code, msg, x_button, *final(self), v),
    {
        self.counters.calls_total = next(self.counters.calls_total);
        if code >= 0 && (msg == 0x20b || msg == 0xab) {
            self.press(
                if x_button == 1 {
                    0x05
                } else {
                    0x06
                },
            )
        } else {
            HookVerdict::Pass
        }
    }

    /// Notes whether a task that was told got through.
    pub fn told(&mut self, sent: bool)
        ensures
            final(self).same_settings(&*old(self)),
            final(self).spec_held() == old(self).spec_held(),
            final(self).spec_capturing() == old(self).spec_capturing(),
            final(self).spec_counters() == (if sent {
                HookCounters {
                    dispatch_sent: one_more(old(self).spec_counters().dispatch_sent),
                    ..old(self).spec_counters()
                }
            } else {
                HookCounters {
                    dispatch_dropped: one_more(old(self).spec_counters().dispatch_dropped),
                    ..old(self).spec_counters()
                }
            }),
    {
        if sent {
            self.counters.dispatch_sent = next(self.counters.dispatch_sent);
        } else {
            self.counters.dispatch_dropped = next(self.counters.dispatch_dropped);
        }
    }
}

/// While hotkeys are switched off no key starts a task.
pub proof fn lemma_disabled_hook_starts_nothing(h: HookState, vk: u32, v: HookVerdict)
    requires
        !h.spec_enabled(),
        h.pressed(vk, v),
    ensures
        !(v matches HookVerdict::Tell { event } && event is Fire),
{
}

/// A key that is waited for starts no task, and no program gets it.
pub proof fn lemma_captured_key_starts_nothing(h: HookState, vk: u32, v: HookVerdict)
    requires
        h.spec_capturing(),
        h.pressed(vk, v),
    ensures
        !(v is Pass),
        !(v matches HookVerdict::Tell { event } && event is Fire),
{
}

/// The keys of the keyboard that are modifiers are known by their virtual keys:
/// Shift by 0x10, 0xA0 and 0xA1, Ctrl by 0x11, 0xA2 and 0xA3, Alt by 0x12, 0xA4
/// and 0xA5, Win by 0x5B and 0x5C. While such a key is down its modifier is
/// held, no other modifier changes, and no other key changes any.
pub proof fn lemma_modifiers_are_held(
    before: HookState,
    message: KeyMessage,
    vk: u32,
    is_extended: bool,
    after: HookState,
    v: HookVerdict,
)
    requires
        before.heard(0, message, vk, is_extended, after, v),
        message != KeyMessage::Other,
    ensures
        ({
            let down = message == KeyMessage::Down;
            let was = before.spec_held();
            let is = after.spec_held();
            let shift = vk == 0x10 || vk == 0xa0 || vk == 0xa1;
            let ctrl = vk == 0x11 || vk == 0xa2 || vk == 0xa3;
            let alt = vk == 0x12 || vk == 0xa4 || vk == 0xa5;
            let win = vk == 0x5b || vk == 0x5c;
            &&& is.shift == if shift { down } else { was.shift }
            &&& is.ctrl == if ctrl { down } else { was.ctrl }
            &&& is.alt == if alt { down } else { was.alt }
            &&& is.win == if win { down } else { was.win }
            &&& shift || ctrl || alt || win ==> v is Pass && after.spec_capturing()
                == before.spec_capturing()
        }),
{
}

/// A key that is pressed while exactly these modifiers are down starts the task
/// of the key with these modifiers, and the key reaches no other program: Ctrl
/// counts 1, Alt 2, Shift 4 and Win 8.
pub proof fn lemma_key_with_modifiers_starts_its_task(
    h: HookState,
    vk: u32,
    after: HookState,
    v: HookVerdict,
)
    requires
        h.heard(0, KeyMessage::Down, vk, true, after, v),
        !(0x10 <= vk <= 0x12) && !(0xa0 <= vk <= 0xa5) && vk != 0x5b && vk != 0x5c,
        h.spec_enabled(),
        h.spec_connected(),
        !h.spec_capturing(),
    ensures
        ({
            let held = h.spec_held();
            let key = (vk * 256 + (if held.ctrl {
                1int
            } else {
                0
            }) + (if held.alt {
                2int
            } else {
                0
            }) + (if held.shift {
                4int
            } else {
                0
            }) + (if held.win {
                8int
            } else {
                0
            })) as u64;
            &&& h.spec_bindings().contains_key(key) ==> (v matches HookVerdict::Tell {
                event: HookEvent::Fire { task_id },
            } && task_id@ == h.spec_bindings()[key])
            &&& !h.spec_bindings().contains_key(key) ==> v is Pass
        }),
{
}

/// Pressing either Ctrl, then either Shift, then a key starts the task that is
/// bound to Ctrl, Shift and the key, whatever stands under other modifiers.
pub proof fn lemma_ctrl_shift_key_starts_its_task(
    idle: HookState,
    ctrl_vk: u32,
    ctrl: HookState,
    v1: HookVerdict,
    shift_vk: u32,
    both: HookState,
    v2: HookVerdict,
    vk: u32,
    end: HookState,
    v3: HookVerdict,
)
    requires
        idle.spec_held() == Modifiers::none(),
        idle.spec_enabled(),
        idle.spec_connected(),
        !idle.spec_capturing(),
        ctrl_vk == 0xa2 || ctrl_vk == 0xa3,
        shift_vk == 0xa0 || shift_vk == 0xa1,
        !(0x10 <= vk <= 0x12) && !(0xa0 <= vk <= 0xa5) && vk != 0x5b && vk != 0x5c,
        idle.heard(0, KeyMessage::Down, ctrl_vk, true, ctrl, v1),
        ctrl.heard(0, KeyMessage::Down, shift_vk, true, both, v2),
        both.heard(0, KeyMessage::Down, vk, true, end, v3),
        idle.spec_bindings().contains_key((vk * 256 + 5) as u64),
    ensures
        v1 is Pass,
        v2 is Pass,
        v3 matches HookVerdict::Tell { event: HookEvent::Fire { task_id } } && task_id@
            == idle.spec_bindings()[(vk * 256 + 5) as u64],
{
}

/// A modifier that is pressed and let go again leaves things as they were.
pub proof fn lemma_modifier_let_go_is_not_held(
    a: HookState,
    vk: u32,
    b: HookState,
    v: HookVerdict,
    c: HookState,
    w: HookVerdict,
    is_extended: bool,
)
    requires
        a.spec_held() == Modifiers::none(),
        a.heard(0, KeyMessage::Down, vk, is_extended, b, v),
        b.heard(0, KeyMessage::Up, vk, is_extended, c, w),
    ensures
        c.spec_held() == Modifiers::none(),
        w is Pass,
{
}

/// The first key that is pressed while one is waited for is told with the
/// modifiers held, and starts nothing; the next one is not waited for.
pub proof fn lemma_waited_for_key_is_told(
    h: HookState,
    vk: u32,
    after: HookState,
    v: HookVerdict,
)
    requires
        h.heard(0, KeyMessage::Down, vk, true, after, v),
        !(0x10 <= vk <= 0x12) && !(0xa0 <= vk <= 0xa5) && vk != 0x5b && vk != 0x5c,
        h.spec_capturing(),
        h.spec_connected(),
    ensures
        v matches HookVerdict::Tell { event: HookEvent::Captured { vk: k, mods } } && k == vk
            && (mods % 2 == 1) == h.spec_held().ctrl && (mods / 2 % 2 == 1) == h.spec_held().alt && (
        mods / 4 % 2 == 1) == h.spec_held().shift && (mods / 8 == 1) == h.spec_held().win,
        !after.spec_capturing(),
{
}

/// The button at the side that the mouse calls the first is the virtual key 5,
/// the other one 6, and either starts its task with the modifiers held.
pub proof fn lemma_side_buttons_start_tasks(
    h: HookState,
    msg: u32,
    x_button: u16,
    after: HookState,
    v: HookVerdict,
)
    requires
        h.clicked(0, msg, x_button, after, v),
        msg == 0x20b || msg == 0xab,
        x_button == 1 || x_button == 2,
        h.spec_held() == Modifiers::none(),
        h.spec_enabled(),
        h.spec_connected(),
        !h.spec_capturing(),
    ensures
        ({
            let key = ((4 + x_button) * 256) as u64;
            &&& h.spec_bindings().contains_key(key) ==> (v matches HookVerdict::Tell {
                event: HookEvent::Fire { task_id },
            } && task_id@ == h.spec_bindings()[key])
            &&& !h.spec_bindings().contains_key(key) ==> v is Pass
        }),
{
}

/// A key of the number pad is the same key whether or not the pad is set to
/// numbers: what says Home there is 7, the arrow up is 8, and so on row by row.
/// The keys beside the pad stay what they are.
pub proof fn lemma_number_pad_is_one_key(vk: u32, is_extended: bool, r: u32)
    requires
        call_ensures(normalize_numpad_vk, (vk, is_extended), r),
    ensures
        is_extended ==> r == vk,
        !is_extended ==> {
            &&& vk == keys::vk_of(Code::Insert) ==> r == keys::vk_of(Code::Numpad0)
            &&& vk == keys::vk_of(Code::End) ==> r == keys::vk_of(Code::Numpad1)
            &&& vk == keys::vk_of(Code::ArrowDown) ==> r == keys::vk_of(Code::Numpad2)
            &&& vk == keys::vk_of(Code::PageDown) ==> r == keys::vk_of(Code::Numpad3)
            &&& vk == keys::vk_of(Code::ArrowLeft) ==> r == keys::vk_of(Code::Numpad4)
            &&& vk == 0x0c ==> r == keys::vk_of(Code::Numpad5)
            &&& vk == keys::vk_of(Code::ArrowRight) ==> r == keys::vk_of(Code::Numpad6)
            &&& vk == keys::vk_of(Code::Home) ==> r == keys::vk_of(Code::Numpad7)
            &&& vk == keys::vk_of(Code::ArrowUp) ==> r == keys::vk_of(Code::Numpad8)
            &&& vk == keys::vk_of(Code::PageUp) ==> r == keys::vk_of(Code::Numpad9)
            &&& vk == keys::vk_of(Code::Delete) ==> r == keys::vk_of(Code::NumpadDecimal)
            &&& vk < 0x21 && vk != 0x0c || vk > 0x2e ==> r == vk
        },
{
}

/// The bit of a modifier key: 1 for Ctrl, 2 for Alt, 4 for Shift, 8 for Win.
pub proof fn lemma_modifier_bits(vk: u32, r: Option<u8>)
    requires
        call_ensures(modifier_bit, (vk,), r),
    ensures
        r == Some(1u8) <==> vk == 0x11 || vk == 0xa2 || vk == 0xa3,
        r == Some(2u8) <==> vk == 0x12 || vk == 0xa4 || vk == 0xa5,
        r == Some(4u8) <==> vk == 0x10 || vk == 0xa0 || vk == 0xa1,
        r == Some(8u8) <==> vk == 0x5b || vk == 0x5c,
        r matches Some(b) ==> b == 1 || b == 2 || b == 4 || b == 8,
{
}

} // verus!
