//! Direct key capture: while the shortcut dialog is open, physical key events
//! go into a bounded queue that belongs to one numbered capture session,
//! instead of reaching Windows, the web view or the mappings.
use vstd::prelude::*;
use crate::engine::KeyPhase;
use crate::keymap::{key_name_of, vk_name, LLKHF_EXTENDED_FLAG};

verus! {

/// The number of events the capture queue holds before it overflows.
pub const CAPTURE_QUEUE_CAPACITY: usize = 256;

#[derive(Debug, Clone)]
pub enum HookError {
    /// Another hook service is already registered in this process.
    AlreadyStarted,
    /// Windows refused to install the hook.
    Install(String),
    /// The hook thread stopped before it was initialized.
    ThreadStopped,
    /// No window is registered to own a capture.
    CaptureWindowUnavailable,
    /// The input hook is not running.
    CaptureUnavailable,
}

/// The message shown for a hook error.
pub open spec fn hook_error_message(e: HookError) -> Seq<char> {
    match e {
        HookError::AlreadyStarted => "another KeyForge hook service is already registered in this process"@,
        HookError::Install(detail) => "failed to install Windows input hook: "@ + detail@,
        HookError::ThreadStopped => "hook thread stopped before initialization"@,
        HookError::CaptureWindowUnavailable => "the KeyForge capture window is unavailable"@,
        HookError::CaptureUnavailable => "the Windows input hook is unavailable"@,
    }
}

impl HookError {
    /// The message shown to the user.
    pub fn message(&self) -> (r: String)
        ensures
            r@ == hook_error_message(*self),
    {
        match self {
            HookError::AlreadyStarted => {
                "another KeyForge hook service is already registered in this process".to_owned()
            },
            HookError::Install(detail) => {
                let mut s = "failed to install Windows input hook: ".to_owned();
                s.append(detail.as_str());
                s
            },
            HookError::ThreadStopped => "hook thread stopped before initialization".to_owned(),
            HookError::CaptureWindowUnavailable => {
                "the KeyForge capture window is unavailable".to_owned()
            },
            HookError::CaptureUnavailable => "the Windows input hook is unavailable".to_owned(),
        }
    }
}

/// A capture session, named by its number.
#[derive(Debug, Clone, Copy, PartialEq, Eq)]
pub struct KeyCaptureSession {
    pub session_id: u64,
}

/// A key event recorded during a capture session.
#[derive(Debug, Clone, PartialEq, Eq)]
pub struct KeyCaptureEvent {
    pub session_id: u64,
    pub key: String,
    pub phase: KeyPhase,
}

pub struct KeyCaptureEventView {
    pub session_id: u64,
    pub key: Seq<char>,
    pub phase: KeyPhase,
}

impl View for KeyCaptureEvent {
    type V = KeyCaptureEventView;

    open spec fn view(&self) -> KeyCaptureEventView {
        KeyCaptureEventView { session_id: self.session_id, key: self.key@, phase: self.phase }
    }
}

/// What a poll of the capture queue returns: the current session, whether
/// it is still capturing, whether events were lost to a full queue, and the
/// events of the session that polled.
#[derive(Debug, Clone, PartialEq, Eq)]
pub struct KeyCaptureDrain {
    pub session_id: u64,
    pub active: bool,
    pub overflowed: bool,
    pub events: Vec<KeyCaptureEvent>,
}

pub open spec fn event_views(v: Seq<KeyCaptureEvent>) -> Seq<KeyCaptureEventView> {
    v.map_values(|e: KeyCaptureEvent| e@)
}

/// The events of one session, in the order they were recorded.
pub open spec fn session_events(q: Seq<KeyCaptureEventView>, session_id: u64) -> Seq<
    KeyCaptureEventView,
>
    decreases q.len(),
{
    if q.len() == 0 {
        Seq::empty()
    } else {
        let rest = session_events(q.drop_last(), session_id);
        if q.last().session_id == session_id {
            rest.push(q.last())
        } else {
            rest
        }
    }
}

/// A queue whose events all belong to one session is that session's events.
proof fn lemma_session_events_all(q: Seq<KeyCaptureEventView>, session_id: u64)
    requires
        forall|k: int| 0 <= k < q.len() ==> (#[trigger] q[k]).session_id == session_id,
    ensures
        session_events(q, session_id) == q,
    decreases q.len(),
{
    if q.len() > 0 {
        let front = q.drop_last();
        assert forall|k: int| 0 <= k < front.len() implies (#[trigger] front[k]).session_id == session_id by {
            assert(front[k] == q[k]);
        }
        lemma_session_events_all(front, session_id);
        assert(q.last().session_id == session_id);
        assert(front.push(q.last()) =~= q);
    }
}

/// What a poll returns, as values.
pub struct KeyCaptureDrainView {
    pub session_id: u64,
    pub active: bool,
    pub overflowed: bool,
    pub events: Seq<KeyCaptureEventView>,
}

impl View for KeyCaptureDrain {
    type V = KeyCaptureDrainView;

    open spec fn view(&self) -> KeyCaptureDrainView {
        KeyCaptureDrainView {
            session_id: self.session_id,
            active: self.active,
            overflowed: self.overflowed,
            events: event_views(self.events@),
        }
    }
}

/// The state of direct key capture, as values.
pub struct CaptureView {
    pub active: bool,
    pub window_configured: bool,
    pub session_id: u64,
    pub overflowed: bool,
    pub release_pending: bool,
    pub queue: Seq<KeyCaptureEventView>,
}

/// An event recorded for the latest session: appended while the queue has
/// room, otherwise dropped, and the loss remembered.
pub open spec fn enqueued(c: CaptureView, e: KeyCaptureEventView) -> CaptureView {
    if c.queue.len() < CAPTURE_QUEUE_CAPACITY {
        CaptureView { queue: c.queue.push(e), ..c }
    } else {
        CaptureView { overflowed: true, ..c }
    }
}

/// The event that a system key a window received is recorded as.
pub open spec fn system_key_event(
    session_id: u64,
    virtual_key: u32,
    scan_code: u32,
    extended: bool,
    is_key_down: bool,
) -> KeyCaptureEventView {
    KeyCaptureEventView {
        session_id,
        key: key_name_of(
            virtual_key,
            scan_code,
            if extended {
                LLKHF_EXTENDED_FLAG
            } else {
                0
            },
        ),
        phase: if is_key_down {
            KeyPhase::Down
        } else {
            KeyPhase::Up
        },
    }
}

/// A system key that a window received: recorded for the latest session
/// while a capture is active, and then reported as handled; otherwise
/// nothing changes.
pub open spec fn system_key_recorded(
    c: CaptureView,
    virtual_key: u32,
    scan_code: u32,
    extended: bool,
    is_key_down: bool,
) -> (CaptureView, bool) {
    if c.active {
        (enqueued(c, system_key_event(c.session_id, virtual_key, scan_code, extended, is_key_down)), true)
    } else {
        (c, false)
    }
}

/// A poll by `session_id`, and the state after it: the latest session takes
/// its events and the loss flag and empties the queue; a stale session
/// gets nothing and changes nothing.
pub open spec fn drained(c: CaptureView, session_id: u64) -> (CaptureView, KeyCaptureDrainView) {
    if c.session_id == session_id {
        (
            CaptureView { overflowed: false, queue: Seq::empty(), ..c },
            KeyCaptureDrainView {
                session_id: c.session_id,
                active: c.active,
                overflowed: c.overflowed,
                events: session_events(c.queue, session_id),
            },
        )
    } else {
        (
            c,
            KeyCaptureDrainView {
                session_id: c.session_id,
                active: false,
                overflowed: false,
                events: Seq::empty(),
            },
        )
    }
}

/// The state once the active capture is ended: nothing captured, nothing
/// queued, no loss and no pending release; the session number and the
/// owner window stay.
pub open spec fn force_ended(c: CaptureView) -> CaptureView {
    CaptureView {
        active: false,
        release_pending: false,
        overflowed: false,
        queue: Seq::empty(),
        ..c
    }
}

/// The state of direct key capture.
pub struct CaptureState {
    /// Key events go to the queue instead of the mappings.
    pub active: bool,
    /// A window that can own a capture is registered.
    pub window_configured: bool,
    /// The number of the latest session.
    pub session_id: u64,
    /// Events were dropped because the queue was full.
    pub overflowed: bool,
    /// The outputs the engine holds down must be released before the first
    /// captured key is read.
    pub release_pending: bool,
    /// The recorded events, oldest first.
    pub queue: Vec<KeyCaptureEvent>,
}

impl View for CaptureState {
    type V = CaptureView;

    open spec fn view(&self) -> CaptureView {
        CaptureView {
            active: self.active,
            window_configured: self.window_configured,
            session_id: self.session_id,
            overflowed: self.overflowed,
            release_pending: self.release_pending,
            queue: event_views(self.queue@),
        }
    }
}

impl CaptureState {
    /// The queue holds at most `CAPTURE_QUEUE_CAPACITY` events, all of the
    /// latest session.
    pub open spec fn wf(&self) -> bool {
        &&& self.queue@.len() <= CAPTURE_QUEUE_CAPACITY
        &&& forall|k: int| 0 <= k < self.queue@.len() ==> (#[trigger] self.queue@[k]).session_id == self.session_id
    }

    pub fn new() -> (r: CaptureState)
        ensures
            r.wf(),
            !r.active,
            !r.window_configured,
            r.session_id == 0,
            !r.overflowed,
            !r.release_pending,
            r.queue@.len() == 0,
    {
        CaptureState {
            active: false,
            window_configured: false,
            session_id: 0,
            overflowed: false,
            release_pending: false,
            queue: Vec::new(),
        }
    }

    /// Registers the window handle that owns captures; zero means none.
    pub fn set_owner_window(&mut self, hwnd: isize)
        ensures
            *final(self) == (CaptureState { window_configured: hwnd != 0, ..*old(self) }),
    {
        self.window_configured = hwnd != 0;
    }

    /// Stops capturing and forgets every recorded event; the session number
    /// stays.
    pub fn force_end(&mut self)
        ensures
            !final(self).active,
            !final(self).release_pending,
            !final(self).overflowed,
            final(self).queue@.len() == 0,
            final(self).window_configured == old(self).window_configured,
            final(self).session_id == old(self).session_id,
            final(self).wf(),
            final(self)@ == force_ended(old(self)@),
    {
        self.active = false;
        self.release_pending = false;
        self.overflowed = false;
        self.queue = Vec::new();
        assert(event_views(self.queue@) =~= Seq::<KeyCaptureEventView>::empty());
    }

    /// Starts a new session, numbered one past the last, with an empty
    /// queue; the engine's held outputs are to be released first. Refused
    /// while no window owns captures.
    pub fn begin(&mut self) -> (r: Result<KeyCaptureSession, HookError>)
        requires
            old(self).wf(),
            old(self).session_id < u64::MAX,
        ensures
            !old(self).window_configured ==> (r matches Err(HookError::CaptureWindowUnavailable)
                && *final(self) == *old(self)),
            old(self).window_configured ==> (r matches Ok(s) && s.session_id == old(self).session_id + 1
                && final(self).session_id == s.session_id && final(self).active
                && final(self).release_pending && !final(self).overflowed
                && final(self).queue@.len() == 0 && final(self).window_configured),
            final(self).wf(),
    {
        if !self.window_configured {
            return Err(HookError::CaptureWindowUnavailable);
        }
        self.force_end();
        self.session_id = self.session_id + 1;
        self.overflowed = false;
        self.release_pending = true;
        self.active = true;
        Ok(KeyCaptureSession { session_id: self.session_id })
    }

    /// Ends the session if it is the latest one; a stale session changes
    /// nothing.
    pub fn end(&mut self, session_id: u64) -> (r: bool)
        requires
            old(self).wf(),
        ensures
            r == (old(self).session_id == session_id),
            !r ==> *final(self) == *old(self),
            r ==> !final(self).active && !final(self).release_pending && !final(self).overflowed
                && final(self).queue@.len() == 0 && final(self).session_id == old(self).session_id
                && final(self).window_configured == old(self).window_configured,
            final(self).wf(),
    {
        if self.session_id != session_id {
            return false;
        }
        self.force_end();
        true
    }

    /// Takes the events of `session_id` out of the queue. Only the latest
    /// session may poll: a stale one gets nothing and the queue is left
    /// intact. The latest session takes its events and the overflow flag,
    /// and the queue is emptied.
    pub fn drain(&mut self, session_id: u64) -> (r: KeyCaptureDrain)
        requires
            old(self).wf(),
        ensures
            r.session_id == old(self).session_id,
            old(self).session_id != session_id ==> !r.active && !r.overflowed && r.events@.len() == 0
                && *final(self) == *old(self),
            old(self).session_id == session_id ==> r.active == old(self).active && r.overflowed
                == old(self).overflowed && event_views(r.events@) == session_events(
                event_views(old(self).queue@),
                session_id,
            ) && event_views(r.events@) == event_views(old(self).queue@) && final(self).queue@.len() == 0 && !final(self).overflowed && final(self).active
                == old(self).active && final(self).session_id == old(self).session_id
                && final(self).window_configured == old(self).window_configured
                && final(self).release_pending == old(self).release_pending,
            final(self).wf(),
            (final(self)@, r@) == drained(old(self)@, session_id),
    {
        let current = self.session_id;
        if current != session_id {
            let events: Vec<KeyCaptureEvent> = Vec::new();
            assert(event_views(events@) =~= Seq::<KeyCaptureEventView>::empty());
            return KeyCaptureDrain { session_id: current, active: false, overflowed: false, events };
        }
        let active = self.active;
        let overflowed = self.overflowed;
        self.overflowed = false;
        let mut queue: Vec<KeyCaptureEvent> = Vec::new();
        std::mem::swap(&mut queue, &mut self.queue);
        let ghost all = event_views(queue@);
        let n = queue.len();
        let mut events: Vec<KeyCaptureEvent> = Vec::new();
        let mut rest = queue;
        let mut i: usize = 0;
        assert(all.subrange(0, 0) =~= Seq::<KeyCaptureEventView>::empty());
        while i < n
            invariant
                n == all.len(),
                i <= n,
                rest@.len() == n - i,
                event_views(rest@) == all.subrange(i as int, n as int),
                event_views(events@) == session_events(all.subrange(0, i as int), session_id),
            decreases n - i,
        {
            let ghost before = rest@;
            let e = rest.remove(0);
            assert(event_views(rest@) =~= all.subrange(i + 1, n as int)) by {
                assert(rest@ =~= before.drop_first());
                assert(event_views(rest@) =~= event_views(before).drop_first());
                assert(all.subrange(i + 1, n as int) =~= all.subrange(i as int, n as int).drop_first());
            }
            let ghost prefix = all.subrange(0, i + 1);
            assert(prefix.drop_last() =~= all.subrange(0, i as int));
            assert(prefix.last() == e@) by {
                assert(event_views(before)[0] == e@);
                assert(event_views(before)[0] == all[i as int]);
            }
            let ghost prev = event_views(events@);
            if e.session_id == session_id {
                events.push(e);
                assert(event_views(events@) =~= prev.push(prefix.last()));
            }
            i = i + 1;
        }
        assert(all.subrange(0, n as int) =~= all);
        proof {
            assert forall|k: int| 0 <= k < all.len() implies (#[trigger] all[k]).session_id == session_id by {
                assert(all[k] == queue@[k]@);
            }
            lemma_session_events_all(all, session_id);
            assert(event_views(self.queue@) =~= Seq::<KeyCaptureEventView>::empty());
        }
        KeyCaptureDrain { session_id: current, active, overflowed, events }
    }

    pub fn is_active(&self) -> (r: bool)
        ensures
            r == self.active,
    {
        self.active
    }

    /// Reports whether held outputs are still to be released, and clears
    /// the request.
    pub fn take_release_pending(&mut self) -> (r: bool)
        ensures
            r == old(self).release_pending,
            *final(self) == (CaptureState { release_pending: false, ..*old(self) }),
    {
        let r = self.release_pending;
        self.release_pending = false;
        r
    }

    /// Records a key event for the latest session. A full queue drops the
    /// event and remembers that it did; either way the event counts as
    /// handled.
    pub fn enqueue(&mut self, key: String, phase: KeyPhase) -> (r: bool)
        requires
            old(self).wf(),
        ensures
            r,
            final(self).wf(),
            final(self).active == old(self).active,
            final(self).session_id == old(self).session_id,
            final(self).window_configured == old(self).window_configured,
            final(self).release_pending == old(self).release_pending,
            old(self).queue@.len() < CAPTURE_QUEUE_CAPACITY ==> event_views(final(self).queue@)
                == event_views(old(self).queue@).push(
                KeyCaptureEventView { session_id: old(self).session_id, key: key@, phase },
            ) && final(self).overflowed == old(self).overflowed,
            old(self).queue@.len() >= CAPTURE_QUEUE_CAPACITY ==> final(self).queue@ == old(
                self,
            ).queue@ && final(self).overflowed,
            final(self)@ == enqueued(
                old(self)@,
                KeyCaptureEventView { session_id: old(self).session_id, key: key@, phase },
            ),
    {
        if self.queue.len() < CAPTURE_QUEUE_CAPACITY {
            let event = KeyCaptureEvent { session_id: self.session_id, key, phase };
            self.queue.push(event);
            assert(event_views(self.queue@) =~= event_views(old(self).queue@).push(
                KeyCaptureEventView { session_id: old(self).session_id, key: key@, phase },
            ));
        } else {
            self.overflowed = true;
        }
        true
    }

    /// Records a system key that a window received itself, while a capture
    /// is active; `false` when no capture is active.
    pub fn enqueue_window_system_key(
        &mut self,
        virtual_key: u32,
        scan_code: u32,
        extended: bool,
        is_key_down: bool,
    ) -> (r: bool)
        requires
            old(self).wf(),
        ensures
            r == old(self).active,
            final(self).wf(),
            !r ==> *final(self) == *old(self),
            r ==> final(self).active && final(self).session_id == old(self).session_id
                && final(self).window_configured == old(self).window_configured
                && final(self).release_pending == old(self).release_pending,
            r && old(self).queue@.len() < CAPTURE_QUEUE_CAPACITY ==> event_views(final(self).queue@)
                == event_views(old(self).queue@).push(
                KeyCaptureEventView {
                    session_id: old(self).session_id,
                    key: key_name_of(
                        virtual_key,
                        scan_code,
                        if extended {
                            LLKHF_EXTENDED_FLAG
                        } else {
                            0
                        },
                    ),
                    phase: if is_key_down {
                        KeyPhase::Down
                    } else {
                        KeyPhase::Up
                    },
                },
            ) && final(self).overflowed == old(self).overflowed,
            r && old(self).queue@.len() >= CAPTURE_QUEUE_CAPACITY ==> final(self).queue@ == old(
                self,
            ).queue@ && final(self).overflowed,
            (final(self)@, r) == system_key_recorded(
                old(self)@,
                virtual_key,
                scan_code,
                extended,
                is_key_down,
            ),
    {
        if !self.active {
            return false;
        }
        let flags = if extended {
            LLKHF_EXTENDED_FLAG
        } else {
            0
        };
        let phase = if is_key_down {
            KeyPhase::Down
        } else {
            KeyPhase::Up
        };
        self.enqueue(vk_name(virtual_key, scan_code, flags), phase)
    }
}

/// Records a system-key message that the application's own window
/// received: the fallback for keys that reach the window before the
/// low-level hook sees them. Recorded only while a capture is active.
pub fn record_window_system_key(
    capture: &mut CaptureState,
    virtual_key: u32,
    scan_code: u32,
    extended: bool,
    is_key_down: bool,
) -> (r: bool)
    requires
        old(capture).wf(),
    ensures
        r == old(capture).active,
        final(capture).wf(),
        !r ==> *final(capture) == *old(capture),
        r ==> final(capture).active && final(capture).session_id == old(capture).session_id
            && final(capture).window_configured == old(capture).window_configured
            && final(capture).release_pending == old(capture).release_pending,
        r && old(capture).queue@.len() >= CAPTURE_QUEUE_CAPACITY ==> final(capture).queue@ == old(
            capture,
        ).queue@ && final(capture).overflowed,
        r && old(capture).queue@.len() < CAPTURE_QUEUE_CAPACITY ==> final(capture).overflowed == old(
            capture,
        ).overflowed,
        r && old(capture).queue@.len() < CAPTURE_QUEUE_CAPACITY ==> event_views(final(capture).queue@)
            == event_views(old(capture).queue@).push(
            KeyCaptureEventView {
                session_id: old(capture).session_id,
                key: key_name_of(
                    virtual_key,
                    scan_code,
                    if extended {
                        LLKHF_EXTENDED_FLAG
                    } else {
                        0
                    },
                ),
                phase: if is_key_down {
                    KeyPhase::Down
                } else {
                    KeyPhase::Up
                },
            },
        ),
        (final(capture)@, r) == system_key_recorded(
            old(capture)@,
            virtual_key,
            scan_code,
            extended,
            is_key_down,
        ),
{
    capture.enqueue_window_system_key(virtual_key, scan_code, extended, is_key_down)
}

/// Ends the active capture, as when the application loses activation.
pub fn force_end_active_capture(capture: &mut CaptureState)
    ensures
        !final(capture).active,
        !final(capture).release_pending,
        !final(capture).overflowed,
        final(capture).queue@.len() == 0,
        final(capture).session_id == old(capture).session_id,
        final(capture).window_configured == old(capture).window_configured,
        final(capture).wf(),
        final(capture)@ == force_ended(old(capture)@),
{
    capture.force_end();
}

} // verus!
