//! What the user is shown of the hotkeys and of the hosts they trust.

use vstd::prelude::*;

use crate::config::files;
use crate::config::CaptureTask;
use crate::hotkeys::ll_hook::HookTelemetry;
use crate::hotkeys::portal_linux;
use crate::hotkeys::portal_linux::PortalFault;
use crate::hotkeys::portal_linux::PortalShortcuts;
use crate::hotkeys::portal_linux::PortalStep;
use crate::hotkeys::portal_linux::Told;
use crate::hotkeys::HotkeyRegistrationError;
use crate::order;
use crate::text;

verus! {

// ---- the state of each task ------------------------------------------------------------------

/// Whether the hotkey of a task is listened for.
#[derive(Debug)]
pub enum HotkeyStatus {
    Live,
    Failed { reason: String },
}

/// Whether the hotkey of a task is listened for.
#[derive(Debug)]
pub struct TaskStatus {
    pub task_id: String,
    pub status: HotkeyStatus,
}

/// Why the hotkey of a task is not listened for: the last failure of the task.
pub open spec fn failure(errors: Seq<HotkeyRegistrationError>, id: Seq<char>) -> Option<Seq<char>>
    decreases errors.len(),
{
    if errors.len() == 0 {
        None
    } else if errors.last().task_id@ == id {
        Some(errors.last().reason@)
    } else {
        failure(errors.drop_last(), id)
    }
}

/// The tasks of the failures.
pub open spec fn failed_ids(errors: Seq<HotkeyRegistrationError>) -> Seq<Seq<char>> {
    Seq::new(errors.len(), |i: int| errors[i].task_id@)
}

/// The status says whether and why the task failed.
pub open spec fn tells(s: HotkeyStatus, failure: Option<Seq<char>>) -> bool {
    match failure {
        Some(why) => s matches HotkeyStatus::Failed { reason } && reason@ == why,
        None => s is Live,
    }
}

/// The tasks of the statuses.
pub open spec fn task_ids(v: Seq<TaskStatus>) -> Seq<Seq<char>> {
    Seq::new(v.len(), |i: int| v[i].task_id@)
}

/// `r` holds one status for each task that is live or failed. A task that failed
/// is not live.
pub open spec fn records(
    live: Seq<Seq<char>>,
    errors: Seq<HotkeyRegistrationError>,
    r: Seq<TaskStatus>,
) -> bool {
    &&& task_ids(r) == text::distinct(live + failed_ids(errors))
    &&& forall|i: int| 0 <= i < r.len() ==> tells((#[trigger] r[i]).status, failure(errors, r[i].task_id@))
}

fn find_failure(errors: &[HotkeyRegistrationError], id: &str) -> (r: HotkeyStatus)
    ensures
        tells(r, failure(errors@, id@)),
{
    let mut i: usize = errors.len();
    assert(errors@.take(i as int) =~= errors@);
    while i > 0
        invariant
            i <= errors@.len(),
            failure(errors@, id@) == failure(errors@.take(i as int), id@),
        decreases i,
    {
        i = i - 1;
        assert(errors@.take(i + 1).drop_last() =~= errors@.take(i as int));
        assert(errors@.take(i + 1).last() == errors@[i as int]);
        if text::same(errors[i].task_id.as_str(), id) {
            return HotkeyStatus::Failed { reason: errors[i].reason.clone() };
        }
    }
    HotkeyStatus::Live
}

/// Whether the hotkey of each task is listened for.
pub fn record_hotkey_status(live_ids: &[String], errors: &[HotkeyRegistrationError]) -> (r: Vec<
    TaskStatus,
>)
    ensures
        records(text::texts(live_ids@), errors@, r@),
{
    let ghost all = text::texts(live_ids@) + failed_ids(errors@);
    let n: usize = live_ids.len();
    let m: usize = errors.len();
    let mut ids: Vec<String> = Vec::new();
    assert(all.take(0) =~= Seq::<Seq<char>>::empty());
    assert(text::texts(ids@) =~= Seq::<Seq<char>>::empty());
    for i in 0..n
        invariant
            n == live_ids@.len(),
            all == text::texts(live_ids@) + failed_ids(errors@),
            text::texts(ids@) == text::distinct(all.take(i as int)),
    {
        assert(all.take(i + 1).drop_last() =~= all.take(i as int));
        assert(all.take(i + 1).last() == live_ids@[i as int]@);
        text::push_distinct(&mut ids, live_ids[i].clone());
    }
    for j in 0..m
        invariant
            n == live_ids@.len(),
            m == errors@.len(),
            all == text::texts(live_ids@) + failed_ids(errors@),
            text::texts(ids@) == text::distinct(all.take(n + j)),
    {
        assert(all.take(n + j + 1).drop_last() =~= all.take(n + j));
        assert(all.take(n + j + 1).last() == errors@[j as int].task_id@);
        text::push_distinct(&mut ids, errors[j].task_id.clone());
    }
    assert(all.take(n + m) =~= all);
    let k: usize = ids.len();
    let mut out: Vec<TaskStatus> = Vec::new();
    for i in 0..k
        invariant
            k == ids@.len(),
            out@.len() == i,
            forall|j: int| 0 <= j < i ==> (#[trigger] out@[j]).task_id@ == ids@[j]@,
            forall|j: int|
                0 <= j < i ==> tells(
                    (#[trigger] out@[j]).status,
                    failure(errors@, out@[j].task_id@),
                ),
    {
        let status = find_failure(errors, ids[i].as_str());
        out.push(TaskStatus { task_id: ids[i].clone(), status });
    }
    assert(task_ids(out@) =~= text::texts(ids@));
    out
}

/// Each task has one status.
pub proof fn lemma_one_status_for_each_task(
    live: Seq<Seq<char>>,
    errors: Seq<HotkeyRegistrationError>,
    r: Seq<TaskStatus>,
)
    requires
        records(live, errors, r),
    ensures
        task_ids(r).no_duplicates(),
        forall|id: Seq<char>|
            #[trigger] task_ids(r).contains(id) <==> live.contains(id) || failed_ids(
                errors,
            ).contains(id),
{
    let all = live + failed_ids(errors);
    text::lemma_distinct(all);
    assert forall|id: Seq<char>| #[trigger] task_ids(r).contains(id) <==> live.contains(id)
        || failed_ids(errors).contains(id) by {
        assert(text::distinct(all).contains(id) <==> all.contains(id));
        if live.contains(id) {
            let i = choose|i: int| 0 <= i < live.len() && live[i] == id;
            assert(all[i] == id);
        }
        if failed_ids(errors).contains(id) {
            let i = choose|i: int|
                0 <= i < failed_ids(errors).len() && failed_ids(errors)[i] == id;
            assert(all[live.len() + i] == id);
        }
        if all.contains(id) {
            let i = choose|i: int| 0 <= i < all.len() && all[i] == id;
            if i < live.len() {
                assert(live[i] == id);
            } else {
                assert(failed_ids(errors)[i - live.len()] == id);
            }
        }
    }
}

// ---- what is shown ---------------------------------------------------------------------------

/// What is shown of a task's hotkey.
#[derive(Debug)]
pub struct HotkeyStatusEntry {
    pub task_id: String,
    /// `live` or `failed`.
    pub status: &'static str,
    pub reason: Option<String>,
    /// What the desktop says triggers it, which may be another chord than the
    /// one in the settings.
    pub effective_trigger: Option<String>,
}

/// What the desktop says triggers a task: what it said last.
pub open spec fn trigger_in(told: Seq<Told>, id: Seq<char>) -> Option<Seq<char>>
    decreases told.len(),
{
    if told.len() == 0 {
        None
    } else if told.last().task_id@ == id {
        Some(told.last().text@)
    } else {
        trigger_in(told.drop_last(), id)
    }
}

fn find_trigger(told: &[Told], id: &str) -> (r: Option<String>)
    ensures
        text::opt_owned(r) == trigger_in(told@, id@),
{
    let mut i: usize = told.len();
    assert(told@.take(i as int) =~= told@);
    while i > 0
        invariant
            i <= told@.len(),
            trigger_in(told@, id@) == trigger_in(told@.take(i as int), id@),
        decreases i,
    {
        i = i - 1;
        assert(told@.take(i + 1).drop_last() =~= told@.take(i as int));
        assert(told@.take(i + 1).last() == told@[i as int]);
        if text::same(told[i].task_id.as_str(), id) {
            return Some(told[i].text.clone());
        }
    }
    None
}

/// The entry shows the status.
pub open spec fn shows(e: HotkeyStatusEntry, s: TaskStatus, told: Seq<Told>) -> bool {
    &&& e.task_id@ == s.task_id@
    &&& match s.status {
        HotkeyStatus::Live => {
            &&& e.status@ == "live"@
            &&& e.reason is None
            &&& text::opt_owned(e.effective_trigger) == trigger_in(told, s.task_id@)
        },
        HotkeyStatus::Failed { reason } => {
            &&& e.status@ == "failed"@
            &&& text::opt_owned(e.reason) == Some(reason@)
            &&& e.effective_trigger is None
        },
    }
}

fn entry_of(s: &TaskStatus, told: &[Told]) -> (e: HotkeyStatusEntry)
    ensures
        shows(e, *s, told@),
{
    match &s.status {
        HotkeyStatus::Live => HotkeyStatusEntry {
            task_id: s.task_id.clone(),
            status: "live",
            reason: None,
            effective_trigger: find_trigger(told, s.task_id.as_str()),
        },
        HotkeyStatus::Failed { reason } => HotkeyStatusEntry {
            task_id: s.task_id.clone(),
            status: "failed",
            reason: Some(reason.clone()),
            effective_trigger: None,
        },
    }
}

/// A binding of the keyboard hook, as it is shown.
#[derive(Debug)]
pub struct HookBindingSnapshot {
    pub task_id: String,
    pub vk: u32,
    pub mods: u8,
}

/// The keyboard hook, as it is shown.
#[derive(Debug)]
pub struct HookTelemetrySnapshot {
    pub installed: bool,
    pub enabled: bool,
    pub registered_count: usize,
    pub registered: Vec<HookBindingSnapshot>,
    pub calls_total: u64,
    pub keydown_calls: u64,
    pub matched_calls: u64,
    pub dispatch_sent: u64,
    pub dispatch_dropped: u64,
    pub last_vk: u32,
    pub last_mods: u8,
}

/// The snapshot shows what was measured.
pub open spec fn is_snapshot_of(s: HookTelemetrySnapshot, t: HookTelemetry) -> bool {
    &&& s.installed == t.installed
    &&& s.enabled == t.enabled
    &&& s.registered_count == t.registered_count
    &&& s.registered@.len() == t.registered@.len()
    &&& forall|i: int|
        0 <= i < s.registered@.len() ==> (#[trigger] s.registered@[i]).task_id@
            == t.registered@[i].1@ && s.registered@[i].vk == t.registered@[i].0.vk
            && s.registered@[i].mods == t.registered@[i].0.mods
    &&& s.calls_total == t.calls_total
    &&& s.keydown_calls == t.keydown_calls
    &&& s.matched_calls == t.matched_calls
    &&& s.dispatch_sent == t.dispatch_sent
    &&& s.dispatch_dropped == t.dispatch_dropped
    &&& s.last_vk == t.last_vk
    &&& s.last_mods == t.last_mods
}

/// The keyboard hook, as it is shown.
pub fn hook_snapshot(t: &HookTelemetry) -> (s: HookTelemetrySnapshot)
    ensures
        is_snapshot_of(s, *t),
{
    let n: usize = t.registered.len();
    let mut registered: Vec<HookBindingSnapshot> = Vec::new();
    for i in 0..n
        invariant
            n == t.registered@.len(),
            registered@.len() == i,
            forall|k: int|
                0 <= k < i ==> (#[trigger] registered@[k]).task_id@ == t.registered@[k].1@
                    && registered@[k].vk == t.registered@[k].0.vk && registered@[k].mods
                    == t.registered@[k].0.mods,
    {
        registered.push(
            HookBindingSnapshot {
                task_id: t.registered[i].1.clone(),
                vk: t.registered[i].0.vk,
                mods: t.registered[i].0.mods,
            },
        );
    }
    HookTelemetrySnapshot {
        installed: t.installed,
        enabled: t.enabled,
        registered_count: t.registered_count,
        registered,
        calls_total: t.calls_total,
        keydown_calls: t.keydown_calls,
        matched_calls: t.matched_calls,
        dispatch_sent: t.dispatch_sent,
        dispatch_dropped: t.dispatch_dropped,
        last_vk: t.last_vk,
        last_mods: t.last_mods,
    }
}

/// What the user is shown of the hotkeys.
#[derive(Debug)]
pub struct HotkeyDiagnostics {
    pub disabled_globally: bool,
    /// What listens for the hotkeys: `ll_hook`, `x11`, `portal`, `evdev` or
    /// `none`.
    pub backend: &'static str,
    pub statuses: Vec<HotkeyStatusEntry>,
    /// The keyboard hook, which there is on Windows alone.
    pub hook: Option<HookTelemetrySnapshot>,
}

/// The system that the program runs on.
#[derive(Clone, Copy, PartialEq, Eq, Structural, Debug)]
pub enum System {
    Windows,
    Linux,
    Other,
}

/// What listens for the hotkeys.
pub open spec fn backend(system: System, wayland: bool, portal: bool, advanced_input: bool) -> Seq<
    char,
> {
    match system {
        System::Windows => "ll_hook"@,
        System::Linux => if !wayland {
            "x11"@
        } else if portal {
            "portal"@
        } else if advanced_input {
            "evdev"@
        } else {
            "none"@
        },
        System::Other => "none"@,
    }
}

/// What listens for the hotkeys.
pub fn hotkey_backend_name(system: System, wayland: bool, portal: bool, advanced_input: bool) -> (r:
    &'static str)
    ensures
        r@ == backend(system, wayland, portal, advanced_input),
{
    match system {
        System::Windows => "ll_hook",
        System::Linux => if !wayland {
            "x11"
        } else if portal {
            "portal"
        } else if advanced_input {
            "evdev"
        } else {
            "none"
        },
        System::Other => "none",
    }
}

/// What the user is shown of the hotkeys. `told` is what the desktop says
/// triggers the tasks.
pub fn hotkey_diagnostics(
    disabled: bool,
    backend: &'static str,
    statuses: &[TaskStatus],
    told: &[Told],
    hook: Option<HookTelemetrySnapshot>,
) -> (r: HotkeyDiagnostics)
    ensures
        r.hook == hook,
        r.disabled_globally == disabled,
        r.backend@ == backend@,
        r.statuses@.len() == statuses@.len(),
        forall|i: int|
            0 <= i < statuses@.len() ==> shows(#[trigger] r.statuses@[i], statuses@[i], told@),
{
    let n: usize = statuses.len();
    let mut out: Vec<HotkeyStatusEntry> = Vec::new();
    for i in 0..n
        invariant
            n == statuses@.len(),
            out@.len() == i,
            forall|k: int| 0 <= k < i ==> shows(#[trigger] out@[k], statuses@[k], told@),
    {
        let e = entry_of(&statuses[i], told);
        out.push(e);
    }
    HotkeyDiagnostics { disabled_globally: disabled, backend, statuses: out, hook }
}

/// Whether keys can be read from the devices themselves.
#[derive(Clone, Copy, PartialEq, Eq, Structural, Debug)]
pub struct EvdevStatus {
    pub enabled: bool,
    pub readable_device_count: usize,
    pub dev_input_exists: bool,
}

/// Whether keys can be read from the devices themselves, which is so on Linux
/// alone.
pub fn evdev_status(system: System, enabled: bool, readable: usize, dev_input_exists: bool) -> (r:
    EvdevStatus)
    ensures
        r == (if system == System::Linux {
            EvdevStatus { enabled, readable_device_count: readable, dev_input_exists }
        } else {
            EvdevStatus { enabled: false, readable_device_count: 0, dev_input_exists: false }
        }),
{
    match system {
        System::Linux => EvdevStatus { enabled, readable_device_count: readable, dev_input_exists },
        _ => EvdevStatus { enabled: false, readable_device_count: 0, dev_input_exists: false },
    }
}

/// Has the shortcuts bound anew, which only a Linux desktop does.
pub fn portal_rebind_shortcuts(system: System, shortcuts: &mut PortalShortcuts) -> (r: Result<
    PortalStep,
    String,
>)
    ensures
        system != System::Linux ==> *final(shortcuts) == *old(shortcuts) && (r matches Err(e)
            && e@ == "the shortcuts portal only exists on Linux"@),
        system == System::Linux && old(shortcuts).last@.len() == 0 ==> *final(shortcuts) == *old(shortcuts) && (r matches Err(e) && e@ == PortalFault::NothingConfigured.spec_message()),
        system == System::Linux && old(shortcuts).last@.len() > 0 ==> (r matches Ok(step)
            && portal_linux::started(*old(shortcuts), true, *final(shortcuts), step)),
{
    match system {
        System::Linux => match shortcuts.rebind() {
            Ok(step) => Ok(step),
            Err(f) => Err(f.message().to_owned()),
        },
        _ => Err("the shortcuts portal only exists on Linux".to_owned()),
    }
}

/// What follows once the shortcuts were bound anew: the tasks are registered
/// again, all of them. Where they were not bound the user is told why.
pub fn portal_rebound(fault: Option<PortalFault>, tasks: &Vec<CaptureTask>) -> (r: Result<
    Vec<CaptureTask>,
    String,
>)
    ensures
        match fault {
            None => r matches Ok(t) && t@ == tasks@,
            Some(f) => r matches Err(e) && e@ == f.spec_message(),
        },
{
    match fault {
        None => Ok(files::tasks_to_register(tasks, false)),
        Some(f) => Err(f.message().to_owned()),
    }
}

/// What switching hotkeys on or off comes to.
#[derive(Debug)]
pub struct HotkeySwitch {
    /// How the settings have it from now on.
    pub disabled_globally: bool,
    /// Whether the keyboard hook listens.
    pub hook_enabled: bool,
    /// The tasks to listen for.
    pub tasks: Vec<CaptureTask>,
}

/// What switching hotkeys on or off comes to: while they are off no task is
/// listened for. Nothing where the switch stood there already.
pub fn set_hotkeys_disabled(was: bool, disabled: bool, tasks: &Vec<CaptureTask>) -> (r: Option<
    HotkeySwitch,
>)
    ensures
        (r is Some) == (was != disabled),
        r matches Some(s) ==> s.disabled_globally == disabled && s.hook_enabled == !disabled
            && s.tasks@ == (if disabled {
            Seq::empty()
        } else {
            tasks@
        }),
{
    if was == disabled {
        None
    } else {
        Some(
            HotkeySwitch {
                disabled_globally: disabled,
                hook_enabled: !disabled,
                tasks: files::tasks_to_register(tasks, disabled),
            },
        )
    }
}

// ---- hosts -----------------------------------------------------------------------------------

/// A host whose key the user trusts.
#[derive(Debug)]
pub struct SftpKnownHost {
    pub host_port: String,
    pub fingerprint: String,
    pub first_seen_unix: u64,
}

/// The two are the same host.
pub open spec fn same_host(a: SftpKnownHost, b: SftpKnownHost) -> bool {
    a.host_port@ == b.host_port@ && a.fingerprint@ == b.fingerprint@ && a.first_seen_unix
        == b.first_seen_unix
}

pub open spec fn host_ports(v: Seq<SftpKnownHost>) -> Seq<Seq<char>> {
    Seq::new(v.len(), |i: int| v[i].host_port@)
}

/// `r` holds the hosts at the places, in their order.
pub open spec fn are_hosts_at(hosts: Seq<SftpKnownHost>, p: Seq<usize>, r: Seq<SftpKnownHost>) -> bool {
    &&& r.len() == p.len()
    &&& forall|i: int| 0 <= i < r.len() ==> same_host(#[trigger] r[i], hosts[p[i] as int])
}

/// The hosts that are trusted, in the order of their names.
pub fn sftp_known_hosts(hosts: &[SftpKnownHost]) -> (r: Vec<SftpKnownHost>)
    ensures
        exists|p: Seq<usize>|
            #[trigger] order::is_alphabetic(host_ports(hosts@), p) && are_hosts_at(hosts@, p, r@),
{
    let n: usize = hosts.len();
    let mut keys: Vec<String> = Vec::new();
    for i in 0..n
        invariant
            n == hosts@.len(),
            keys@.len() == i,
            forall|k: int| 0 <= k < i ==> (#[trigger] keys@[k])@ == hosts@[k].host_port@,
    {
        keys.push(hosts[i].host_port.clone());
    }
    assert(text::texts(keys@) =~= host_ports(hosts@));
    let p = order::alphabetically(&keys);
    let m: usize = p.len();
    let mut out: Vec<SftpKnownHost> = Vec::new();
    for i in 0..m
        invariant
            m == p@.len(),
            order::is_alphabetic(host_ports(hosts@), p@),
            out@.len() == i,
            forall|k: int|
                0 <= k < i ==> same_host(#[trigger] out@[k], hosts@[p@[k] as int]),
    {
        assert(p@[i as int] < host_ports(hosts@).len());
        let j: usize = p[i];
        out.push(
            SftpKnownHost {
                host_port: hosts[j].host_port.clone(),
                fingerprint: hosts[j].fingerprint.clone(),
                first_seen_unix: hosts[j].first_seen_unix,
            },
        );
    }
    assert(are_hosts_at(hosts@, p@, out@));
    out
}

// ---- laws --------------------------------------------------------------------------------------

/// Hotkeys are listened for by the keyboard hook on Windows, by the display
/// server on X11, and on Wayland by the portal where there is one, or else by the
/// devices where the user allows that.
pub proof fn lemma_backend_follows_the_system(
    system: System,
    wayland: bool,
    portal: bool,
    advanced: bool,
    r: &'static str,
)
    requires
        call_ensures(hotkey_backend_name, (system, wayland, portal, advanced), r),
    ensures
        r@ == "ll_hook"@ <==> system == System::Windows,
        r@ == "x11"@ <==> system == System::Linux && !wayland,
        r@ == "portal"@ <==> system == System::Linux && wayland && portal,
        r@ == "evdev"@ <==> system == System::Linux && wayland && !portal && advanced,
{
    reveal_strlit("ll_hook");
    reveal_strlit("x11");
    reveal_strlit("portal");
    reveal_strlit("evdev");
    reveal_strlit("none");
    assert("ll_hook"@.len() == 7 && "portal"@.len() == 6 && "evdev"@.len() == 5 && "none"@.len()
        == 4 && "x11"@.len() == 3);
}

/// While hotkeys are off no task is listened for and the hook does not listen;
/// once they are on again every task is.
pub proof fn lemma_switch_stops_every_hotkey(
    was: bool,
    disabled: bool,
    tasks: &Vec<CaptureTask>,
    r: Option<HotkeySwitch>,
)
    requires
        call_ensures(set_hotkeys_disabled, (was, disabled, tasks), r),
    ensures
        was != disabled ==> r is Some,
        was == disabled ==> r is None,
        r matches Some(s) ==> s.disabled_globally == disabled && s.hook_enabled != disabled && (
        disabled ==> s.tasks@.len() == 0) && (!disabled ==> s.tasks@ == tasks@),
{
}

/// A task whose hotkey could not be taken is shown as failed, with the reason of
/// its last failure; every other one is shown as live, with the trigger that the
/// desktop named last.
pub proof fn lemma_failures_are_shown(
    live: Seq<Seq<char>>,
    errors: Seq<HotkeyRegistrationError>,
    r: Seq<TaskStatus>,
    i: int,
    told: Seq<Told>,
    e: HotkeyStatusEntry,
)
    requires
        records(live, errors, r),
        0 <= i < r.len(),
        shows(e, r[i], told),
    ensures
        e.task_id@ == r[i].task_id@,
        failure(errors, r[i].task_id@) is Some ==> e.status@ == "failed"@ && text::opt_owned(
            e.reason,
        ) == failure(errors, r[i].task_id@) && e.effective_trigger is None,
        failure(errors, r[i].task_id@) is None ==> e.status@ == "live"@ && e.reason is None,
{
    let s = r[i];
}

/// A task failed exactly where one of the failures is its own, and the last one
/// is the reason.
pub proof fn lemma_last_failure_counts(
    errors: Seq<HotkeyRegistrationError>,
    e: HotkeyRegistrationError,
    id: Seq<char>,
)
    ensures
        failure(Seq::empty(), id) is None,
        e.task_id@ == id ==> failure(errors.push(e), id) == Some(e.reason@),
        e.task_id@ != id ==> failure(errors.push(e), id) == failure(errors, id),
{
    assert(errors.push(e).drop_last() =~= errors);
}

} // verus!
