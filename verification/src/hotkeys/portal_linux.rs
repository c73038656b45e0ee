//! Shortcuts that the desktop keeps: when they have to be bound again, and what
//! happens when one is pressed.

use vstd::prelude::*;

use crate::hotkeys::table::FireLog;
use crate::hotkeys::table;
use crate::paths;
use crate::text;

verus! {

/// A task as the desktop is told of it.
#[derive(Debug)]
pub struct PortalBinding {
    pub task_id: String,
    pub label: String,
    pub trigger: Option<String>,
}

/// What the desktop says of a shortcut: its id, and how its trigger is
/// described, where it is.
#[derive(Debug)]
pub struct Shortcut {
    pub id: String,
    pub trigger: Option<String>,
}

/// A task and its trigger, or why it has none.
#[derive(Debug)]
pub struct Told {
    pub task_id: String,
    pub text: String,
}

/// The two bindings tell the desktop the same.
pub open spec fn alike(a: PortalBinding, b: PortalBinding) -> bool {
    a.task_id@ == b.task_id@ && a.label@ == b.label@ && text::opt_owned(a.trigger)
        == text::opt_owned(b.trigger)
}

fn is_alike(a: &PortalBinding, b: &PortalBinding) -> (r: bool)
    ensures
        r == alike(*a, *b),
{
    text::same(a.task_id.as_str(), b.task_id.as_str()) && text::same(
        a.label.as_str(),
        b.label.as_str(),
    ) && (match (&a.trigger, &b.trigger) {
        (Some(x), Some(y)) => text::same(x.as_str(), y.as_str()),
        (None, None) => true,
        _ => false,
    })
}

/// The trigger of a shortcut in the desktop's list: the last entry of the id
/// counts, and one without a description has an empty trigger.
pub open spec fn trigger_of(known: Seq<Shortcut>, id: Seq<char>) -> Option<Seq<char>>
    decreases known.len(),
{
    if known.len() == 0 {
        None
    } else if known.last().id@ == id {
        match known.last().trigger {
            Some(t) => Some(t@),
            None => Some(Seq::empty()),
        }
    } else {
        trigger_of(known.drop_last(), id)
    }
}

/// The trigger of a shortcut in the desktop's list.
pub fn find_trigger(known: &[Shortcut], id: &str) -> (r: Option<String>)
    ensures
        text::opt_owned(r) == trigger_of(known@, id@),
{
    let mut i: usize = known.len();
    assert(known@.take(i as int) =~= known@);
    while i > 0
        invariant
            i <= known@.len(),
            trigger_of(known@, id@) == trigger_of(known@.take(i as int), id@),
        decreases i,
    {
        assert(known@.take(i as int).drop_last() =~= known@.take(i - 1));
        if text::same(known[i - 1].id.as_str(), id) {
            return match &known[i - 1].trigger {
                Some(t) => Some(t.clone()),
                None => {
                    let s = String::new();
                    assert(s@ =~= Seq::<char>::empty());
                    Some(s)
                },
            };
        }
        i = i - 1;
    }
    None
}

/// The record holds the binding.
pub open spec fn recorded(record: Seq<PortalBinding>, b: PortalBinding) -> bool {
    exists|i: int| 0 <= i < record.len() && alike(#[trigger] record[i], b)
}

fn is_recorded(record: &[PortalBinding], b: &PortalBinding) -> (r: bool)
    ensures
        r == recorded(record@, *b),
{
    for i in 0..record.len()
        invariant
            forall|k: int| 0 <= k < i ==> !alike(#[trigger] record@[k], *b),
    {
        if is_alike(&record[i], b) {
            assert(alike(record@[i as int], *b));
            return true;
        }
    }
    false
}

/// The desktop knows every binding, and the record agrees with them.
pub open spec fn unchanged(
    bindings: Seq<PortalBinding>,
    known: Seq<Shortcut>,
    record: Seq<PortalBinding>,
) -> bool {
    &&& record.len() == bindings.len()
    &&& forall|i: int|
        0 <= i < bindings.len() ==> trigger_of(known, (#[trigger] bindings[i]).task_id@) is Some
            && recorded(record, bindings[i])
}

/// The triggers by task. Of two entries of a task the later counts.
pub open spec fn told_map(v: Seq<Told>) -> Map<Seq<char>, Seq<char>>
    decreases v.len(),
{
    if v.len() == 0 {
        Map::empty()
    } else {
        told_map(v.drop_last()).insert(v.last().task_id@, v.last().text@)
    }
}

/// Each task with the trigger that the desktop has for it.
pub open spec fn kept_map(bindings: Seq<PortalBinding>, known: Seq<Shortcut>) -> Map<
    Seq<char>,
    Seq<char>,
>
    decreases bindings.len(),
{
    if bindings.len() == 0 {
        Map::empty()
    } else {
        let id = bindings.last().task_id@;
        kept_map(bindings.drop_last(), known).insert(id, trigger_of(known, id)->0)
    }
}

/// The triggers that stay as they are where nothing has to be bound. `known` is
/// what the desktop has, and `record` what it was last told.
fn kept_triggers(bindings: &[PortalBinding], known: &[Shortcut], record: &[PortalBinding]) -> (r:
    Option<Vec<Told>>)
    ensures
        (r is Some) == unchanged(bindings@, known@, record@),
        r matches Some(v) ==> told_map(v@) == kept_map(bindings@, known@),
{
    if record.len() != bindings.len() {
        return None;
    }
    let mut effective: Vec<Told> = Vec::new();
    assert(bindings@.take(0) =~= Seq::empty());
    for i in 0..bindings.len()
        invariant
            record@.len() == bindings@.len(),
            told_map(effective@) == kept_map(bindings@.take(i as int), known@),
            forall|k: int|
                0 <= k < i ==> trigger_of(known@, (#[trigger] bindings@[k]).task_id@) is Some
                    && recorded(record@, bindings@[k]),
    {
        let b = &bindings[i];
        if !is_recorded(record, b) {
            assert(!recorded(record@, bindings@[i as int]));
            return None;
        }
        match find_trigger(known, b.task_id.as_str()) {
            Some(t) => {
                let ghost before = effective@;
                effective.push(Told { task_id: b.task_id.clone(), text: t });
                assert(effective@.drop_last() =~= before);
                assert(bindings@.take(i + 1).drop_last() =~= bindings@.take(i as int));
            },
            None => {
                assert(trigger_of(known@, bindings@[i as int].task_id@) is None);
                return None;
            },
        }
    }
    assert(bindings@.take(bindings@.len() as int) =~= bindings@);
    Some(effective)
}

/// Once the desktop was told of the shortcuts and has them, it is not asked to
/// bind them again.
pub proof fn lemma_bound_shortcuts_are_kept(
    bindings: Seq<PortalBinding>,
    known: Seq<Shortcut>,
)
    requires
        forall|i: int|
            0 <= i < bindings.len() ==> trigger_of(known, (#[trigger] bindings[i]).task_id@)
                is Some,
    ensures
        unchanged(bindings, known, bindings),
{
    assert forall|i: int| 0 <= i < bindings.len() implies trigger_of(
        known,
        (#[trigger] bindings[i]).task_id@,
    ) is Some && recorded(bindings, bindings[i]) by {
        assert(alike(bindings[i], bindings[i]));
    }
}

/// Why the shortcuts are not bound.
#[derive(Clone, Copy, PartialEq, Eq, Structural, Debug)]
pub enum PortalFault {
    NothingConfigured,
    NotApproved,
    SessionDenied,
    NoSession,
}

impl PortalFault {
    pub open spec fn spec_message(self) -> Seq<char> {
        match self {
            PortalFault::NothingConfigured => "no keyboard shortcuts are configured"@,
            PortalFault::NotApproved => {
                "shortcut binding was not approved — retry from Settings once ready"@
            },
            PortalFault::SessionDenied => "global-shortcuts session was denied"@,
            PortalFault::NoSession => "portal returned no session handle"@,
        }
    }

    pub fn message(&self) -> (r: &'static str)
        ensures
            r@ == self.spec_message(),
    {
        match *self {
            PortalFault::NothingConfigured => "no keyboard shortcuts are configured",
            PortalFault::NotApproved => {
                "shortcut binding was not approved — retry from Settings once ready"
            },
            PortalFault::SessionDenied => "global-shortcuts session was denied",
            PortalFault::NoSession => "portal returned no session handle",
        }
    }
}

/// The triggers by task, from the desktop's list. Of two entries of a task the
/// later counts, and one without a description has an empty trigger.
pub open spec fn shortcut_map(list: Seq<Shortcut>) -> Map<Seq<char>, Seq<char>>
    decreases list.len(),
{
    if list.len() == 0 {
        Map::empty()
    } else {
        shortcut_map(list.drop_last()).insert(
            list.last().id@,
            match list.last().trigger {
                Some(t) => t@,
                None => Seq::empty(),
            },
        )
    }
}

/// The triggers by task, from the desktop's list.
fn parse_shortcut_list(list: &[Shortcut]) -> (r: Vec<Told>)
    ensures
        told_map(r@) == shortcut_map(list@),
{
    let mut r: Vec<Told> = Vec::new();
    assert(list@.take(0) =~= Seq::empty());
    for i in 0..list.len()
        invariant
            told_map(r@) == shortcut_map(list@.take(i as int)),
    {
        let text = match &list[i].trigger {
            Some(t) => t.clone(),
            None => {
                let s = String::new();
                assert(s@ =~= Seq::<char>::empty());
                s
            },
        };
        let ghost before = r@;
        r.push(Told { task_id: list[i].id.clone(), text });
        assert(r@.drop_last() =~= before);
        assert(list@.take(i + 1).drop_last() =~= list@.take(i as int));
    }
    assert(list@.take(list@.len() as int) =~= list@);
    r
}

/// What is said of each task where the shortcuts could not be bound.
pub fn failures(bindings: &[PortalBinding], reason: &str) -> (r: Vec<Told>)
    ensures
        r@.len() == bindings@.len(),
        forall|i: int|
            0 <= i < r@.len() ==> (#[trigger] r@[i]).task_id@ == bindings@[i].task_id@
                && r@[i].text@ == reason@,
{
    let mut r: Vec<Told> = Vec::new();
    for i in 0..bindings.len()
        invariant
            r@.len() == i,
            forall|k: int|
                0 <= k < i ==> (#[trigger] r@[k]).task_id@ == bindings@[k].task_id@ && r@[k].text@
                    == reason@,
    {
        r.push(Told { task_id: bindings[i].task_id.clone(), text: reason.to_owned() });
    }
    r
}

// ---- the shortcuts of the desktop as a machine -----------------------------------------------

/// How far the shortcuts are from being as they should.
#[derive(Clone, Copy, PartialEq, Eq, Structural, Debug)]
pub enum PortalPhase {
    Idle,
    /// A session is being asked for.
    Opening { force: bool },
    /// The desktop is being asked what shortcuts it has.
    Listing { force: bool },
    /// The desktop is being asked to bind the shortcuts.
    Binding,
}

/// What to do next.
#[derive(Debug)]
pub enum PortalStep {
    /// Nothing: what came does not belong here.
    Ignore,
    /// Nothing: the shortcuts are as they should be.
    Done,
    /// Ask for a session.
    Open,
    /// Ask the desktop what shortcuts it has.
    List,
    /// Ask the desktop to bind exactly these, for which it may ask the user.
    Bind { list: Vec<PortalBinding> },
    /// They are bound: keep a record of these.
    Store { record: Vec<PortalBinding> },
}

/// The shortcuts that the desktop keeps for the program.
#[derive(Debug)]
pub struct PortalShortcuts {
    /// What the desktop should have.
    pub last: Vec<PortalBinding>,
    /// The triggers in effect.
    pub effective: Vec<Told>,
    pub session: Option<String>,
    pub phase: PortalPhase,
}

/// The bindings tell the desktop the same, one by one.
pub open spec fn same_bindings(a: Seq<PortalBinding>, b: Seq<PortalBinding>) -> bool {
    &&& a.len() == b.len()
    &&& forall|i: int| 0 <= i < a.len() ==> alike(#[trigger] a[i], b[i])
}

fn copy_bindings(v: &Vec<PortalBinding>) -> (r: Vec<PortalBinding>)
    ensures
        same_bindings(r@, v@),
{
    let mut r: Vec<PortalBinding> = Vec::new();
    for i in 0..v.len()
        invariant
            r@.len() == i,
            forall|k: int| 0 <= k < i ==> alike(#[trigger] r@[k], v@[k]),
    {
        let trigger = match &v[i].trigger {
            Some(t) => Some(t.clone()),
            None => None,
        };
        r.push(
            PortalBinding { task_id: v[i].task_id.clone(), label: v[i].label.clone(), trigger },
        );
    }
    r
}

impl PortalShortcuts {
    pub open spec fn to(self, phase: PortalPhase) -> PortalShortcuts {
        PortalShortcuts { phase, ..self }
    }

    /// The triggers in effect, by task.
    pub open spec fn triggers(self) -> Map<Seq<char>, Seq<char>> {
        told_map(self.effective@)
    }
}

/// The shortcuts are being brought about: in the session that there is, or else
/// in a new one.
pub open spec fn started(
    before: PortalShortcuts,
    force: bool,
    after: PortalShortcuts,
    step: PortalStep,
) -> bool {
    if before.session is None {
        after == before.to(PortalPhase::Opening { force }) && step is Open
    } else {
        after == before.to(PortalPhase::Listing { force }) && step is List
    }
}

/// The desktop answered to a session being asked for.
pub open spec fn opened_to(
    before: PortalShortcuts,
    code: u32,
    handle: Option<String>,
    after: PortalShortcuts,
    r: Result<PortalStep, PortalFault>,
) -> bool {
    match before.phase {
        PortalPhase::Opening { force } => if code == 0 && handle is Some {
            &&& after == (PortalShortcuts {
                session: handle,
                phase: PortalPhase::Listing { force },
                ..before
            })
            &&& r matches Ok(PortalStep::List)
        } else {
            &&& after == before.to(PortalPhase::Idle)
            &&& r == Err::<PortalStep, PortalFault>(
                if code != 0 {
                    PortalFault::SessionDenied
                } else {
                    PortalFault::NoSession
                },
            )
        },
        _ => after == before && r matches Ok(PortalStep::Ignore),
    }
}

/// The shortcuts that the desktop said it has: none where it did not say.
pub open spec fn known_by(code: u32, list: Seq<Shortcut>) -> Seq<Shortcut> {
    if code == 0 {
        list
    } else {
        Seq::empty()
    }
}

/// The desktop answered to being asked what shortcuts it has.
pub open spec fn listed_to(
    before: PortalShortcuts,
    code: u32,
    list: Seq<Shortcut>,
    record: Seq<PortalBinding>,
    after: PortalShortcuts,
    step: PortalStep,
) -> bool {
    match before.phase {
        PortalPhase::Listing { force } => if !force && unchanged(
            before.last@,
            known_by(code, list),
            record,
        ) {
            &&& after == (PortalShortcuts {
                effective: after.effective,
                phase: PortalPhase::Idle,
                ..before
            })
            &&& after.triggers() == kept_map(before.last@, known_by(code, list))
            &&& step is Done
        } else {
            &&& after == before.to(PortalPhase::Binding)
            &&& step matches PortalStep::Bind { list } && same_bindings(list@, before.last@)
        },
        _ => after == before && step is Ignore,
    }
}

/// The desktop answered to being asked to bind the shortcuts.
pub open spec fn answered_to(
    before: PortalShortcuts,
    code: u32,
    list: Seq<Shortcut>,
    after: PortalShortcuts,
    r: Result<PortalStep, PortalFault>,
) -> bool {
    match before.phase {
        PortalPhase::Binding => if code == 0 {
            &&& after == (PortalShortcuts {
                effective: after.effective,
                phase: PortalPhase::Idle,
                ..before
            })
            &&& after.triggers() == shortcut_map(list)
            &&& r matches Ok(PortalStep::Store { record }) && same_bindings(
                record@,
                before.last@,
            )
        } else {
            &&& after == before.to(PortalPhase::Idle)
            &&& r == Err::<PortalStep, PortalFault>(PortalFault::NotApproved)
        },
        _ => after == before && r matches Ok(PortalStep::Ignore),
    }
}

impl PortalShortcuts {
    /// Nothing was asked for, and there is no session.
    pub fn new() -> (r: Self)
        ensures
            r.last@.len() == 0,
            r.triggers() == Map::<Seq<char>, Seq<char>>::empty(),
            r.session is None,
            r.phase == PortalPhase::Idle,
    {
        PortalShortcuts {
            last: Vec::new(),
            effective: Vec::new(),
            session: None,
            phase: PortalPhase::Idle,
        }
    }

    fn start(&mut self, force: bool) -> (step: PortalStep)
        ensures
            started(*old(self), force, *final(self), step),
    {
        match self.session {
            None => {
                self.phase = PortalPhase::Opening { force };
                PortalStep::Open
            },
            Some(_) => {
                self.phase = PortalPhase::Listing { force };
                PortalStep::List
            },
        }
    }

    /// Has the desktop keep these shortcuts. Where there are none, no trigger is
    /// in effect any longer, and the desktop is not asked for anything.
    pub fn sync(&mut self, bindings: Vec<PortalBinding>) -> (step: PortalStep)
        ensures
            final(self).last == bindings,
            final(self).session == old(self).session,
            bindings@.len() == 0 ==> step is Done && final(self).phase == PortalPhase::Idle
                && final(self).triggers() == Map::<Seq<char>, Seq<char>>::empty(),
            bindings@.len() > 0 ==> started(
                (PortalShortcuts { last: bindings, ..*old(self) }),
                false,
                *final(self),
                step,
            ),
    {
        self.last = bindings;
        if self.last.len() == 0 {
            self.effective = Vec::new();
            self.phase = PortalPhase::Idle;
            return PortalStep::Done;
        }
        self.start(false)
    }

    /// Has the shortcuts bound again that were last asked for, even where nothing
    /// has changed, so that a user who turned the desktop's question down can
    /// have it asked again.
    pub fn rebind(&mut self) -> (r: Result<PortalStep, PortalFault>)
        ensures
            old(self).last@.len() == 0 ==> *final(self) == *old(self) && r == Err::<
                PortalStep,
                PortalFault,
            >(PortalFault::NothingConfigured),
            old(self).last@.len() > 0 ==> (r matches Ok(step) && started(
                *old(self),
                true,
                *final(self),
                step,
            )),
    {
        if self.last.len() == 0 {
            return Err(PortalFault::NothingConfigured);
        }
        Ok(self.start(true))
    }

    /// Takes in the answer to a session being asked for.
    pub fn opened(&mut self, code: u32, handle: Option<String>) -> (r: Result<
        PortalStep,
        PortalFault,
    >)
        ensures
            opened_to(*old(self), code, handle, *final(self), r),
    {
        let force = match self.phase {
            PortalPhase::Opening { force } => force,
            _ => return Ok(PortalStep::Ignore),
        };
        if code != 0 {
            self.phase = PortalPhase::Idle;
            return Err(PortalFault::SessionDenied);
        }
        match handle {
            Some(h) => {
                self.session = Some(h);
                self.phase = PortalPhase::Listing { force };
                Ok(PortalStep::List)
            },
            None => {
                self.phase = PortalPhase::Idle;
                Err(PortalFault::NoSession)
            },
        }
    }

    /// Takes in what shortcuts the desktop has. `record` is what it was last told.
    /// Only a change is bound, unless it is forced.
    pub fn listed(&mut self, code: u32, list: &[Shortcut], record: &[PortalBinding]) -> (step:
        PortalStep)
        ensures
            listed_to(*old(self), code, list@, record@, *final(self), step),
    {
        let force = match self.phase {
            PortalPhase::Listing { force } => force,
            _ => return PortalStep::Ignore,
        };
        if !force {
            let kept = if code == 0 {
                kept_triggers(self.last.as_slice(), list, record)
            } else {
                let none: Vec<Shortcut> = Vec::new();
                assert(none@ =~= known_by(code, list@));
                kept_triggers(self.last.as_slice(), none.as_slice(), record)
            };
            if let Some(effective) = kept {
                self.effective = effective;
                self.phase = PortalPhase::Idle;
                return PortalStep::Done;
            }
        }
        self.phase = PortalPhase::Binding;
        PortalStep::Bind { list: copy_bindings(&self.last) }
    }

    /// Takes in the answer to the shortcuts being bound: the triggers in effect
    /// are those that the desktop gives, and nothing changes where it refuses.
    pub fn answered(&mut self, code: u32, list: &[Shortcut]) -> (r: Result<PortalStep, PortalFault>)
        ensures
            answered_to(*old(self), code, list@, *final(self), r),
    {
        match self.phase {
            PortalPhase::Binding => {},
            _ => return Ok(PortalStep::Ignore),
        }
        self.phase = PortalPhase::Idle;
        if code != 0 {
            return Err(PortalFault::NotApproved);
        }
        self.effective = parse_shortcut_list(list);
        Ok(PortalStep::Store { record: copy_bindings(&self.last) })
    }

    /// The desktop could not be asked.
    pub fn failed(&mut self)
        ensures
            *final(self) == old(self).to(PortalPhase::Idle),
    {
        self.phase = PortalPhase::Idle;
    }

    /// The desktop closed the session: it is dropped, and the shortcuts are
    /// brought about again where there are any.
    pub fn closed(&mut self) -> (step: PortalStep)
        ensures
            old(self).last@.len() == 0 ==> step is Done && *final(self) == (PortalShortcuts {
                session: None,
                phase: PortalPhase::Idle,
                ..*old(self)
            }),
            old(self).last@.len() > 0 ==> started(
                (PortalShortcuts { session: None, ..*old(self) }),
                false,
                *final(self),
                step,
            ),
    {
        self.session = None;
        if self.last.len() == 0 {
            self.phase = PortalPhase::Idle;
            return PortalStep::Done;
        }
        self.start(false)
    }

    /// The triggers in effect.
    pub fn effective_triggers(&self) -> (r: &Vec<Told>)
        ensures
            *r == self.effective,
            told_map(r@) == self.triggers(),
    {
        &self.effective
    }
}

/// Having the shortcuts bound again asks the desktop to bind exactly those that
/// were last asked for, whatever it has and whatever it was told before, in the
/// session that there is or in the one that was opened for it.
pub proof fn lemma_rebind_binds_the_last_list(
    before: PortalShortcuts,
    asked: PortalShortcuts,
    first: PortalStep,
    session_code: u32,
    handle: Option<String>,
    opened: Result<PortalStep, PortalFault>,
    listing: PortalShortcuts,
    code: u32,
    list: Seq<Shortcut>,
    record: Seq<PortalBinding>,
    after: PortalShortcuts,
    step: PortalStep,
)
    requires
        started(before, true, asked, first),
        first is Open ==> opened_to(asked, session_code, handle, listing, opened) && opened is Ok,
        first is List ==> listing == asked,
        listed_to(listing, code, list, record, after, step),
    ensures
        step matches PortalStep::Bind { list } && same_bindings(list@, before.last@),
        after.effective == before.effective,
        after.phase == PortalPhase::Binding,
{
}

/// A binding goes through only where the desktop approves it: then its triggers
/// are in effect, and otherwise those that were.
pub proof fn lemma_only_approved_bindings_go_through(
    before: PortalShortcuts,
    code: u32,
    list: Seq<Shortcut>,
    after: PortalShortcuts,
    r: Result<PortalStep, PortalFault>,
)
    requires
        before.phase == PortalPhase::Binding,
        answered_to(before, code, list, after, r),
    ensures
        (r is Ok) == (code == 0),
        code == 0 ==> after.triggers() == shortcut_map(list),
        code != 0 ==> after.triggers() == before.triggers(),
        after.last == before.last,
{
}

/// Shortcuts that were bound and recorded are not bound again on the next start:
/// the desktop is not asked for them twice.
pub proof fn lemma_unchanged_shortcuts_ask_nothing(
    before: PortalShortcuts,
    list: Seq<Shortcut>,
    after: PortalShortcuts,
    step: PortalStep,
)
    requires
        before.phase == (PortalPhase::Listing { force: false }),
        forall|i: int|
            0 <= i < before.last@.len() ==> trigger_of(
                list,
                (#[trigger] before.last@[i]).task_id@,
            ) is Some,
        listed_to(before, 0, list, before.last@, after, step),
    ensures
        step is Done,
{
    lemma_bound_shortcuts_are_kept(before.last@, list);
}

/// A shortcut was pressed: whether its task runs. It does not for another
/// session, while hotkeys are switched off, or within a quarter of a second.
pub fn on_activated(
    our_session: bool,
    hotkeys_disabled: bool,
    log: &mut FireLog,
    shortcut_id: &str,
    now: u64,
) -> (r: bool)
    ensures
        activated(
            our_session,
            hotkeys_disabled,
            old(log)@,
            shortcut_id@,
            now,
            r,
            final(log)@,
        ),
{
    if !our_session || hotkeys_disabled {
        return false;
    }
    log.allow(shortcut_id, now)
}

/// The file in which the record is kept.
pub fn record_path(config_dir: Option<&str>, sep: char) -> (r: Option<String>)
    ensures
        text::opt_owned(r) == (match text::opt(config_dir) {
            Some(d) => Some(paths::joined(d, "portal-shortcuts.json"@, sep)),
            None => None,
        }),
{
    match config_dir {
        Some(d) => Some(paths::join(d, "portal-shortcuts.json", sep)),
        None => None,
    }
}

/// Whether the desktop takes shortcuts, by the version of its portal.
pub fn available(portal_version: Option<u32>) -> (r: bool)
    ensures
        r == (portal_version is Some),
{
    portal_version.is_some()
}

/// A shortcut runs its task exactly where it comes from the program's own
/// session, hotkeys are not switched off, and it did not run within the last
/// quarter of a second; only then is it noted.
pub open spec fn activated(
    our_session: bool,
    hotkeys_disabled: bool,
    log: Map<Seq<char>, u64>,
    id: Seq<char>,
    now: u64,
    r: bool,
    after: Map<Seq<char>, u64>,
) -> bool {
    &&& r == (our_session && !hotkeys_disabled && (!log.contains_key(id) || table::far_apart(
        log[id],
        now,
    )))
    &&& after == (if r {
        log.insert(id, now)
    } else {
        log
    })
}

/// Nothing runs while hotkeys are switched off or for another session; a first
/// press runs, and a second one within a quarter of a second does not.
pub proof fn lemma_shortcut_runs_its_task(
    our_session: bool,
    disabled: bool,
    log: Map<Seq<char>, u64>,
    id: Seq<char>,
    now: u64,
    r: bool,
    after: Map<Seq<char>, u64>,
)
    requires
        activated(our_session, disabled, log, id, now, r, after),
    ensures
        r ==> our_session && !disabled && after.contains_key(id) && after[id] == now,
        !r ==> after == log,
        our_session && !disabled && !log.contains_key(id) ==> r,
        our_session && !disabled && log.contains_key(id) ==> (r <==> now >= log[id] + 251_000_000),
{
    if log.contains_key(id) {
        table::lemma_presses_are_told_apart(log[id], now);
    }
}

/// The trigger of a shortcut is what the desktop said of it last.
pub proof fn lemma_last_word_counts(known: Seq<Shortcut>, s: Shortcut, id: Seq<char>)
    ensures
        s.id@ == id ==> trigger_of(known.push(s), id) == Some(
            match s.trigger {
                Some(t) => t@,
                None => Seq::empty(),
            },
        ),
        s.id@ != id ==> trigger_of(known.push(s), id) == trigger_of(known, id),
        shortcut_map(known.push(s)).contains_key(s.id@),
        shortcut_map(known.push(s))[s.id@] == (match s.trigger {
            Some(t) => t@,
            None => Seq::empty(),
        }),
{
    assert(known.push(s).drop_last() =~= known);
}

} // verus!
