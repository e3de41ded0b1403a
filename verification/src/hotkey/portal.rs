//! The "save clip" hotkey on Linux: what the portal listener and the evdev readers do
//! with their events, and the choice between the two backends.

use super::accelerator::{mods_match, reads_as, Accelerator, Mods};
use super::keys::{
    event_key, modifier_key, modifier_of_code, modifier_side, side_of_code, Modifier, Side,
};
use super::HotkeyError;
use crate::text::{begins_with, joined3, same, starts_with};
use vstd::prelude::*;
use vstd::string::*;

verus! {

// --- portal listener ---------------------------------------------------------------

/// The name of the shortcut in the portal session.
pub fn shortcut_id() -> (r: &'static str)
    ensures
        r@ == "save-clip"@,
{
    "save-clip"
}

/// What the portal shows the user for the shortcut.
pub fn shortcut_description() -> (r: &'static str)
    ensures
        r@ == "Save the last clip"@,
{
    "Save the last clip"
}

/// Whether an activation reported by the portal fires the save: it is for the save
/// shortcut, and the listener has not been stopped.
pub fn activation_fires(id: &str, stopped: bool) -> (r: bool)
    ensures
        r == (id@ == "save-clip"@ && !stopped),
{
    same(id, "save-clip") && !stopped
}

// --- evdev readers -----------------------------------------------------------------

/// Whether a key event says that the key is down: a press or an autorepeat.
pub open spec fn is_down(value: i32) -> bool {
    value == 1 || value == 2
}

/// A raw input event.
#[derive(Debug, Clone, Copy, PartialEq, Eq, Structural)]
pub struct RawEvent {
    pub event_type: u16,
    pub code: u16,
    /// For a key: 0 is release, 1 is press, 2 is autorepeat.
    pub value: i32,
}

/// The modifiers whose left and whose right key are held.
#[derive(Debug, Clone, Copy, PartialEq, Eq, Structural)]
pub struct Held {
    pub left: Mods,
    pub right: Mods,
}

impl Held {
    /// No key is held.
    pub open spec fn empty() -> Held {
        Held { left: Mods::empty(), right: Mods::empty() }
    }

    /// The modifiers that are held: those with one of their keys held.
    pub open spec fn mods(self) -> Mods {
        Mods {
            ctrl: self.left.ctrl || self.right.ctrl,
            alt: self.left.alt || self.right.alt,
            shift: self.left.shift || self.right.shift,
            logo: self.left.logo || self.right.logo,
        }
    }

    /// The modifiers whose key on a side is held.
    pub open spec fn on(self, side: Side) -> Mods {
        match side {
            Side::Left => self.left,
            Side::Right => self.right,
        }
    }

    /// These keys with one of them held or released.
    pub open spec fn with(self, m: Modifier, side: Side, down: bool) -> Held {
        match side {
            Side::Left => Held { left: self.left.with(m, down), ..self },
            Side::Right => Held { right: self.right.with(m, down), ..self },
        }
    }

    pub fn none() -> (r: Held)
        ensures
            r == Held::empty(),
    {
        Held { left: Mods::none(), right: Mods::none() }
    }

    /// The modifiers that are held.
    pub fn held_mods(&self) -> (r: Mods)
        ensures
            r == self.mods(),
    {
        Mods {
            ctrl: self.left.ctrl || self.right.ctrl,
            alt: self.left.alt || self.right.alt,
            shift: self.left.shift || self.right.shift,
            logo: self.left.logo || self.right.logo,
        }
    }
}

/// Whether an event is about the key of a modifier on a side.
pub open spec fn is_about(event: RawEvent, m: Modifier, side: Side) -> bool {
    &&& event.event_type == 1
    &&& modifier_key(event.code) == Some(m)
    &&& modifier_side(event.code) == side
}

/// The held modifier keys after an event.
pub open spec fn held_after(held: Held, event: RawEvent) -> Held {
    if event.event_type == 1 {
        match modifier_key(event.code) {
            Some(m) => held.with(m, modifier_side(event.code), is_down(event.value)),
            None => held,
        }
    } else {
        held
    }
}

/// The held modifier keys after a sequence of events that starts with none held.
pub open spec fn held_after_all(events: Seq<RawEvent>) -> Held
    decreases events.len(),
{
    if events.len() == 0 {
        Held::empty()
    } else {
        held_after(held_after_all(events.drop_last()), events.last())
    }
}

/// Whether the event at a place is the last one about the key of a modifier on a side.
pub open spec fn is_last_about(events: Seq<RawEvent>, m: Modifier, side: Side, last: int) -> bool {
    &&& 0 <= last < events.len()
    &&& is_about(events[last], m, side)
    &&& forall|i: int| last < i < events.len() ==> !is_about(#[trigger] events[i], m, side)
}

/// Whether the last event about the key of a modifier on a side was a press or an
/// autorepeat.
pub open spec fn stays_down(events: Seq<RawEvent>, m: Modifier, side: Side) -> bool {
    exists|last: int|
        #[trigger] is_last_about(events, m, side, last) && is_down(events[last].value)
}

/// Whether an event fires the save: the initial press of the key while exactly the
/// wanted modifiers are held.
pub open spec fn event_fires(held: Mods, want: Mods, key: u16, event: RawEvent) -> bool {
    &&& event.event_type == 1
    &&& modifier_key(event.code) is None
    &&& event.code == key
    &&& event.value == 1
    &&& held == want
}

/// Takes one input event of a keyboard: tracks the held modifier keys and tells whether
/// the save fires.
pub fn on_input_event(held: &mut Held, accel: &Accelerator, event: RawEvent) -> (fires: bool)
    ensures
        *final(held) == held_after(*old(held), event),
        fires == event_fires(old(held).mods(), accel.mods, accel.evdev_key, event),
{
    let key = match event_key(event.event_type, event.code, event.value) {
        Some(key) => key,
        None => return false,
    };
    let down = event.value == 1 || event.value == 2;
    match modifier_of_code(key) {
        Some(m) => {
            match side_of_code(key) {
                Side::Left => held.left.set(m, down),
                Side::Right => held.right.set(m, down),
            }
            false
        },
        None => {
            let mods = held.held_mods();
            key == accel.evdev_key && event.value == 1 && mods_match(&mods, &accel.mods)
        },
    }
}

/// What a reader does after a failed read.
#[derive(Debug, Clone, Copy, PartialEq, Eq, Structural)]
pub enum ReaderStep {
    /// Nothing was there to read: wait a little and read again.
    Retry,
    /// The device is gone or broken: stop reading it.
    Stop,
}

/// `EWOULDBLOCK` on Linux, the same as `EAGAIN`.
pub fn libc_ewouldblock() -> (r: i32)
    ensures
        r == 11,
{
    11
}

/// `O_NONBLOCK` on Linux.
pub fn o_nonblock() -> (r: i32)
    ensures
        r == 0o4000,
{
    0o4000
}

/// What a reader does after a failed read with this error number.
pub fn after_read_error(os_error: Option<i32>) -> (r: ReaderStep)
    ensures
        r == (if os_error == Some(11i32) {
            ReaderStep::Retry
        } else {
            ReaderStep::Stop
        }),
{
    match os_error {
        Some(code) => {
            if code == libc_ewouldblock() {
                ReaderStep::Retry
            } else {
                ReaderStep::Stop
            }
        },
        None => ReaderStep::Stop,
    }
}

/// The file status flags that make a descriptor non-blocking, from its present flags;
/// nothing where these could not be read.
pub fn nonblocking_flags(flags: i32) -> (r: Option<i32>)
    ensures
        r == (if flags >= 0 {
            Some(flags | 0o4000)
        } else {
            None
        }),
{
    if flags >= 0 {
        Some(flags | o_nonblock())
    } else {
        None
    }
}

/// Whether a file under `/dev/input` is an event node, by its name.
pub fn is_event_node(name: &str) -> (r: bool)
    ensures
        r == begins_with(name@, "event"@),
{
    starts_with(name, "event")
}

/// The error for an input directory that cannot be read.
pub fn input_dir_error(cause: &str) -> (r: HotkeyError)
    ensures
        r matches HotkeyError::Backend(s) && s@ == "cannot read /dev/input: "@ + cause@
            + " (need `input` group access)"@,
{
    HotkeyError::Backend(
        joined3("cannot read /dev/input: ", cause, " (need `input` group access)"),
    )
}

/// Whether the evdev backend can start with this many readable keyboards.
pub fn check_keyboards(count: usize) -> (r: Result<(), HotkeyError>)
    ensures
        r is Ok <==> count > 0,
        r matches Err(e) ==> e matches HotkeyError::Backend(s) && s@
            == "no readable keyboard devices in /dev/input (need `input` group access)"@,
{
    if count == 0 {
        Err(
            HotkeyError::Backend(
                "no readable keyboard devices in /dev/input (need `input` group access)".to_owned(),
            ),
        )
    } else {
        Ok(())
    }
}

// --- choice of backend -------------------------------------------------------------

/// The backend that listens for the shortcut, if any does.
#[derive(Debug, Clone, Copy, PartialEq, Eq, Structural)]
pub enum Active {
    Idle,
    Portal,
    Evdev,
}

/// How an attempt to bind the shortcut through the portal went.
#[derive(Debug, Clone, Copy, PartialEq, Eq, Structural)]
pub enum PortalProbe {
    /// The shortcut is bound and the listener runs.
    Bound,
    /// There is no portal to bind it with.
    Unavailable,
    /// The listener could not be started.
    Failed,
}

/// The state of the hotkey manager: it prefers the portal and falls back to evdev.
#[derive(Debug)]
pub struct LinuxHotkeyManager {
    name: &'static str,
    active: Active,
}

/// What the hotkey manager holds.
#[verifier::ext_equal]
pub struct ManagerState {
    pub name: Seq<char>,
    pub active: Active,
}

impl ManagerState {
    /// A backend that listens has its name shown.
    pub open spec fn wf(self) -> bool {
        &&& self.active is Portal ==> self.name == "portal-global-shortcuts"@
        &&& self.active is Evdev ==> self.name == "evdev"@
    }
}

impl View for LinuxHotkeyManager {
    type V = ManagerState;

    closed spec fn view(&self) -> ManagerState {
        ManagerState { name: self.name@, active: self.active }
    }
}

impl LinuxHotkeyManager {
    pub fn new() -> (r: LinuxHotkeyManager)
        ensures
            r@ == (ManagerState { name: "uninitialized"@, active: Active::Idle }),
            r@.wf(),
    {
        LinuxHotkeyManager { name: "uninitialized", active: Active::Idle }
    }

    pub fn name(&self) -> (r: &str)
        ensures
            r@ == self@.name,
    {
        self.name
    }

    /// Starts a registration. The backend that listened before is handed back for
    /// teardown; the accelerator is read.
    pub fn begin_register(&mut self, accelerator: &str) -> (r: (
        Active,
        Result<Accelerator, HotkeyError>,
    ))
        ensures
            r.0 == old(self)@.active,
            reads_as(accelerator@, r.1),
            final(self)@ == (ManagerState { active: Active::Idle, ..old(self)@ }),
            final(self)@.wf(),
    {
        let before = self.stop();
        (before, Accelerator::parse(accelerator))
    }

    /// Takes the outcome of the portal; tells whether the registration is done. Where
    /// it is not, evdev is next.
    pub fn portal_tried(&mut self, probe: PortalProbe) -> (done: bool)
        requires
            old(self)@.wf(),
        ensures
            done == (probe is Bound),
            final(self)@ == (if probe is Bound {
                ManagerState { name: "portal-global-shortcuts"@, active: Active::Portal }
            } else {
                old(self)@
            }),
            final(self)@.wf(),
    {
        match probe {
            PortalProbe::Bound => {
                self.active = Active::Portal;
                self.name = "portal-global-shortcuts";
                true
            },
            PortalProbe::Unavailable => false,
            PortalProbe::Failed => false,
        }
    }

    /// Takes the outcome of evdev, which is the outcome of the registration.
    pub fn evdev_tried(&mut self, started: Result<(), HotkeyError>) -> (r: Result<
        (),
        HotkeyError,
    >)
        requires
            old(self)@.active is Idle,
        ensures
            r == started,
            final(self)@ == (if started is Ok {
                ManagerState { name: "evdev"@, active: Active::Evdev }
            } else {
                ManagerState { name: "unavailable"@, active: Active::Idle }
            }),
            final(self)@.wf(),
    {
        if started.is_ok() {
            self.active = Active::Evdev;
            self.name = "evdev";
        } else {
            self.name = "unavailable";
        }
        started
    }

    /// Ends the registration; the backend that listened is handed back for teardown.
    pub fn stop(&mut self) -> (r: Active)
        ensures
            r == old(self)@.active,
            final(self)@ == (ManagerState { active: Active::Idle, ..old(self)@ }),
            final(self)@.wf(),
    {
        let before = self.active;
        self.active = Active::Idle;
        before
    }
}

/// Makes the Linux hotkey manager. Which backend listens is settled when a shortcut
/// is registered.
pub fn manager() -> (r: Result<LinuxHotkeyManager, HotkeyError>)
    ensures
        r matches Ok(m) && m@ == (ManagerState { name: "uninitialized"@, active: Active::Idle })
            && m@.wf(),
{
    Ok(LinuxHotkeyManager::new())
}

// --- laws --------------------------------------------------------------------------

/// For a well-formed accelerator, the save fires exactly on the initial press of its
/// key with exactly its modifiers held: an autorepeat or a release never fires it, nor
/// does a press with a modifier missing or one too many.
pub proof fn law_fires_exactly_on_the_chord(held: Mods, accel: Accelerator, event: RawEvent)
    requires
        accel.wf(),
    ensures
        event_fires(held, accel.mods, accel.evdev_key, event) <==> (event.event_type == 1
            && event.code == accel.evdev_key && event.value == 1 && held == accel.mods),
{
    super::keys::law_accelerator_keys_are_no_modifiers(accel.key@);
}

/// A modifier is held after a sequence of events exactly when the last event of its
/// left key, or that of its right key, was a press or an autorepeat.
pub proof fn law_modifier_is_held_by_either_key(events: Seq<RawEvent>, m: Modifier)
    ensures
        held_after_all(events).mods().has(m) <==> stays_down(events, m, Side::Left) || stays_down(
            events,
            m,
            Side::Right,
        ),
{
    lemma_key_follows_its_last_event(events, m, Side::Left);
    lemma_key_follows_its_last_event(events, m, Side::Right);
}

/// The key of a modifier on a side is held exactly when its last event was a press or
/// an autorepeat.
proof fn lemma_key_follows_its_last_event(events: Seq<RawEvent>, m: Modifier, side: Side)
    ensures
        held_after_all(events).on(side).has(m) <==> stays_down(events, m, side),
    decreases events.len(),
{
    if events.len() > 0 {
        let earlier = events.drop_last();
        let end = events.len() - 1;
        lemma_key_follows_its_last_event(earlier, m, side);
        if is_about(events[end], m, side) {
            assert(is_last_about(events, m, side, end));
            assert forall|last: int| #[trigger] is_last_about(events, m, side, last) implies last
                == end by {
                if last < end {
                    assert(!is_about(events[end], m, side));
                }
            }
        } else {
            assert forall|last: int|
                #[trigger] is_last_about(events, m, side, last) == is_last_about(
                    earlier,
                    m,
                    side,
                    last,
                ) by {
                if is_last_about(earlier, m, side, last) {
                    assert forall|i: int| last < i < events.len() implies !is_about(
                        #[trigger] events[i],
                        m,
                        side,
                    ) by {
                        if i < end {
                            assert(earlier[i] == events[i]);
                        }
                    }
                }
                if is_last_about(events, m, side, last) {
                    assert forall|i: int| last < i < earlier.len() implies !is_about(
                        #[trigger] earlier[i],
                        m,
                        side,
                    ) by {
                        assert(earlier[i] == events[i]);
                    }
                }
            }
            if stays_down(earlier, m, side) {
                let last = choose|last: int|
                    #[trigger] is_last_about(earlier, m, side, last) && is_down(earlier[last].value);
                assert(is_last_about(events, m, side, last));
            }
        }
    }
}

/// A key event sets or releases exactly its own modifier key, and any other event changes
/// nothing. The save fires exactly at the initial press of the key of the accelerator while
/// exactly its modifiers are held, each by either of its keys.
pub proof fn law_input_events(
    held: &mut Held,
    accel: Accelerator,
    event: RawEvent,
    fires: bool,
)
    requires
        call_ensures(on_input_event, (held, &accel, event), fires),
        accel.evdev_key != 29 && accel.evdev_key != 97 && accel.evdev_key != 56 && accel.evdev_key
            != 100,
        accel.evdev_key != 42 && accel.evdev_key != 54 && accel.evdev_key != 125
            && accel.evdev_key != 126,
    ensures
        ({
            let was = *old(held);
            let now = *final(held);
            let key = event.event_type == 1;
            let down = event.value == 1 || event.value == 2;
            &&& now.left.ctrl == (if key && event.code == 29 { down } else { was.left.ctrl })
            &&& now.right.ctrl == (if key && event.code == 97 { down } else { was.right.ctrl })
            &&& now.left.alt == (if key && event.code == 56 { down } else { was.left.alt })
            &&& now.right.alt == (if key && event.code == 100 { down } else { was.right.alt })
            &&& now.left.shift == (if key && event.code == 42 { down } else { was.left.shift })
            &&& now.right.shift == (if key && event.code == 54 { down } else { was.right.shift })
            &&& now.left.logo == (if key && event.code == 125 { down } else { was.left.logo })
            &&& now.right.logo == (if key && event.code == 126 { down } else { was.right.logo })
            &&& fires <==> key && event.code == accel.evdev_key && event.value == 1 && (
            was.left.ctrl || was.right.ctrl) == accel.mods.ctrl && (was.left.alt || was.right.alt)
                == accel.mods.alt && (was.left.shift || was.right.shift) == accel.mods.shift && (
            was.left.logo || was.right.logo) == accel.mods.logo
        }),
{
}

/// Nothing is held at first, and a modifier is held where either of its keys is.
pub proof fn law_held_modifiers(none: Held, held: Held, mods: Mods)
    requires
        call_ensures(Held::none, (), none),
        call_ensures(Held::held_mods, (&held,), mods),
    ensures
        !none.left.ctrl && !none.left.alt && !none.left.shift && !none.left.logo,
        !none.right.ctrl && !none.right.alt && !none.right.shift && !none.right.logo,
        mods.ctrl <==> held.left.ctrl || held.right.ctrl,
        mods.alt <==> held.left.alt || held.right.alt,
        mods.shift <==> held.left.shift || held.right.shift,
        mods.logo <==> held.left.logo || held.right.logo,
{
}

/// An activation fires exactly where it is for the shortcut that was bound and the listener
/// has not been stopped.
pub proof fn law_activations(id: &str, stopped: bool, fires: bool, bound: &'static str)
    requires
        call_ensures(activation_fires, (id, stopped), fires),
        call_ensures(shortcut_id, (), bound),
    ensures
        fires <==> id@ == bound@ && !stopped,
{
}

/// A reader waits only where there was nothing to read, and is made non-blocking by one
/// flag more; keyboards are sought among the event nodes, and one is needed.
pub proof fn law_readers(
    error: Option<i32>,
    step: ReaderStep,
    flags: i32,
    changed: Option<i32>,
    name: &str,
    node: bool,
    begins: bool,
    count: usize,
    enough: Result<(), HotkeyError>,
)
    requires
        call_ensures(after_read_error, (error,), step),
        call_ensures(nonblocking_flags, (flags,), changed),
        call_ensures(is_event_node, (name,), node),
        call_ensures(starts_with, (name, "event"), begins),
        call_ensures(check_keyboards, (count,), enough),
    ensures
        step is Retry <==> error == Some(11i32),
        changed is Some <==> flags >= 0,
        flags >= 0 ==> changed == Some(flags | 2048),
        node == begins,
        enough is Ok <==> count > 0,
        enough matches Err(e) ==> (e matches HotkeyError::Backend(s) && s@
            == "no readable keyboard devices in /dev/input (need `input` group access)"@),
{
}

/// A registration hands back what listened before and reads the accelerator; then nothing
/// listens.
pub proof fn law_registration_begins(
    m: &mut LinuxHotkeyManager,
    accelerator: &str,
    r: (Active, Result<Accelerator, HotkeyError>),
    read: Result<Accelerator, HotkeyError>,
)
    requires
        call_ensures(LinuxHotkeyManager::begin_register, (m, accelerator), r),
        call_ensures(Accelerator::parse, (accelerator,), read),
    ensures
        r.0 == old(m)@.active,
        final(m)@.active is Idle,
        final(m)@.name == old(m)@.name,
        r.1 is Ok <==> read is Ok,
        read matches Ok(a) ==> r.1->Ok_0.mods == a.mods && r.1->Ok_0.key@ == a.key@
            && r.1->Ok_0.evdev_key == a.evdev_key,
{
}

/// The portal listens where it could be bound, else evdev where that could be started, and
/// the name tells which.
pub proof fn law_portal_comes_first(
    m: &mut LinuxHotkeyManager,
    probe: PortalProbe,
    done: bool,
    n: &mut LinuxHotkeyManager,
    started: Result<(), HotkeyError>,
    r: Result<(), HotkeyError>,
    o: &mut LinuxHotkeyManager,
    before: Active,
)
    requires
        call_ensures(LinuxHotkeyManager::portal_tried, (m, probe), done),
        call_ensures(LinuxHotkeyManager::evdev_tried, (n, started), r),
        call_ensures(LinuxHotkeyManager::stop, (o,), before),
    ensures
        done <==> probe is Bound,
        done ==> final(m)@.active is Portal && final(m)@.name == "portal-global-shortcuts"@,
        !done ==> final(m)@ == old(m)@,
        r == started,
        started is Ok ==> final(n)@.active is Evdev && final(n)@.name == "evdev"@,
        started is Err ==> final(n)@.active is Idle && final(n)@.name == "unavailable"@,
        before == old(o)@.active,
        final(o)@.active is Idle,
{
}

/// A fresh manager listens to nothing; what is shown of the shortcut and of a folder that
/// cannot be read.
pub proof fn law_fresh_manager(
    made: Result<LinuxHotkeyManager, HotkeyError>,
    m: LinuxHotkeyManager,
    name: &str,
    id: &'static str,
    shown: &'static str,
    cause: &str,
    error: HotkeyError,
    again: i32,
    flag: i32,
)
    requires
        call_ensures(manager, (), made),
        call_ensures(LinuxHotkeyManager::name, (&m,), name),
        call_ensures(shortcut_id, (), id),
        call_ensures(shortcut_description, (), shown),
        call_ensures(input_dir_error, (cause,), error),
        call_ensures(libc_ewouldblock, (), again),
        call_ensures(o_nonblock, (), flag),
    ensures
        made matches Ok(m) && m@.active is Idle && m@.name == "uninitialized"@,
        name@ == m@.name,
        id@ == "save-clip"@,
        shown@ == "Save the last clip"@,
        error matches HotkeyError::Backend(s) && s@ == "cannot read /dev/input: "@ + cause@
            + " (need `input` group access)"@,
        again == 11,
        flag == 2048,
{
}

} // verus!
