//! The decisions of the media controller: which device it follows, which
//! players it paused, the lowered volume it owes back, and when it retries the
//! audio profile and the volume restoration.
//!
//! The caller performs the audio and D-Bus work that each step asks for and
//! reports the outcome. Times are milliseconds on a monotonic clock.
use vstd::prelude::*;

use crate::bytes::str_equal;
use crate::media::{
    normalize_address, spec_normalize_address, spec_settle, spec_update, starts_both_out, EarAction,
    EarPolicy, BOTH_OUT_SETTLE_MS,
};

verus! {

/// Wait before checking the playback profile again.
pub const PROFILE_RETRY_MS: u64 = 1500;

/// Wait before checking again while the microphone is in use.
pub const CAPTURE_RECHECK_MS: u64 = 10000;

/// Wait before retrying a failed volume restoration.
pub const VOLUME_RETRY_MS: u64 = 1500;

/// Retries of a failed volume restoration.
pub const MAX_VOLUME_RETRIES: u8 = 6;

/// Profile checks before giving up until the next ear change.
pub const MAX_PROFILE_ATTEMPTS: u8 = 6;

/// The later of two times that the controller schedules is at most this far
/// ahead, so `now` below `u64::MAX - SCHEDULE_MARGIN_MS` never overflows.
pub const SCHEDULE_MARGIN_MS: u64 = 10000;

/// A PipeWire output: its node id, which can be reused, and the serial and
/// name that identify it.
#[derive(Clone, Debug, PartialEq, Eq)]
pub struct Sink {
    pub id: u64,
    pub serial: u64,
    pub name: String,
}

/// The state of the media controller that is not I/O.
pub struct PlaybackControl {
    /// The followed device, by normalized address.
    pub device: Option<String>,
    pub ears: EarPolicy,
    /// The players (by unique bus name) that ear detection paused.
    pub paused: Vec<String>,
    /// The output whose volume was lowered for speech and must be restored.
    pub duck: Option<Sink>,
    pub duck_restore_due: Option<u64>,
    pub duck_restore_retries: u8,
    pub profile_due: Option<u64>,
    pub profile_attempts: u8,
    pub pending_resume: bool,
}

/// Whether `owner` is among the paused players.
pub open spec fn holds(paused: Seq<String>, owner: Seq<char>) -> bool {
    exists|i: int| 0 <= i < paused.len() && (#[trigger] paused[i])@ == owner
}

/// No player is recorded twice: the paused players form a set.
pub open spec fn distinct_owners(paused: Seq<String>) -> bool {
    forall|i: int, j: int| 0 <= i < j < paused.len() ==> (#[trigger] paused[i])@ != (#[trigger] paused[j])@
}

/// What the media controller is asked to do with a conversation report.
#[derive(Clone, Copy, Debug, PartialEq, Eq, Structural)]
pub enum ConversationStep {
    /// Lower the volume of the default output of the device.
    Duck,
    /// Restore the lowered volume.
    Restore,
    Nothing,
}

/// What a profile check found in the audio graph.
#[derive(Clone, Copy, Debug, PartialEq, Eq)]
pub struct ProfileFacts {
    /// A running recording stream uses the device's microphone.
    pub capturing: bool,
    /// The device and its best playback profile: `(device id, profile index, active)`.
    pub playback: Option<(u64, u64, bool)>,
    /// The device's output is the default output.
    pub has_default_sink: bool,
}

/// What a profile check asks the caller to do.
#[derive(Clone, Copy, Debug, PartialEq, Eq, Structural)]
pub enum ProfileStep {
    /// A call is using the microphone: keep the headset profile and look again later.
    Deferred,
    /// The playback profile is not available yet: the check failed.
    Unavailable,
    /// Switch the device to this profile.
    SetProfile { device: u64, index: u64 },
    /// Resume the paused players.
    Resume,
    Done,
}

/// What the audio work after an ear change is, from the audio graph.
#[derive(Clone, Copy, Debug, PartialEq, Eq)]
pub struct EarSteps {
    /// Pause the playing players.
    pub pause: bool,
    /// Restore the volume and release the audio profile.
    pub release: bool,
    /// Then switch the device to this (off) profile.
    pub set_profile: Option<(u64, u64)>,
}

/// The earliest of the pending times, if any.
pub open spec fn earliest(a: Option<u64>, b: Option<u64>) -> Option<u64> {
    match (a, b) {
        (Some(x), Some(y)) => Some(if x <= y { x } else { y }),
        (Some(x), None) => Some(x),
        (None, y) => y,
    }
}

fn earliest_of(a: Option<u64>, b: Option<u64>) -> (r: Option<u64>)
    ensures
        r == earliest(a, b),
{
    match (a, b) {
        (Some(x), Some(y)) => Some(
            if x <= y {
                x
            } else {
                y
            },
        ),
        (Some(x), None) => Some(x),
        (None, y) => y,
    }
}

/// The step for a conversation report: speech (1) lowers the volume unless it
/// is already lowered or no device is followed; 9 is ignored; anything else,
/// including the feature being switched off (8), restores it.
pub open spec fn spec_conversation_step(c: PlaybackControl, event: u8) -> ConversationStep {
    if event == 1 {
        if c.duck is Some || c.device is None {
            ConversationStep::Nothing
        } else {
            ConversationStep::Duck
        }
    } else if event == 9 {
        ConversationStep::Nothing
    } else {
        ConversationStep::Restore
    }
}

/// The step of a profile check from what it found.
pub open spec fn spec_profile_step(pending_resume: bool, facts: ProfileFacts) -> ProfileStep {
    if facts.capturing {
        ProfileStep::Deferred
    } else {
        match facts.playback {
            None => ProfileStep::Unavailable,
            Some((device, index, active)) => if !active {
                ProfileStep::SetProfile { device, index }
            } else if pending_resume && facts.has_default_sink {
                ProfileStep::Resume
            } else {
                ProfileStep::Done
            },
        }
    }
}

/// The audio work after an ear change: players are paused unless the action
/// resumes, and only when the device's output is the default; a release waits
/// while a call uses the microphone, and switches to the off profile unless
/// it is already active.
pub open spec fn spec_ear_steps(
    action: EarAction,
    has_default_sink: bool,
    capturing: bool,
    off_profile: Option<(u64, u64, bool)>,
) -> EarSteps {
    let release = action == EarAction::Release && !capturing;
    EarSteps {
        pause: action != EarAction::Resume && has_default_sink,
        release,
        set_profile: match off_profile {
            Some((device, index, active)) => if release && !active {
                Some((device, index))
            } else {
                None
            },
            None => None,
        },
    }
}

pub fn ear_steps(
    action: EarAction,
    has_default_sink: bool,
    capturing: bool,
    off_profile: Option<(u64, u64, bool)>,
) -> (r: EarSteps)
    ensures
        r == spec_ear_steps(action, has_default_sink, capturing, off_profile),
{
    let release = action == EarAction::Release && !capturing;
    EarSteps {
        pause: action != EarAction::Resume && has_default_sink,
        release,
        set_profile: match off_profile {
            Some((device, index, active)) => if release && !active {
                Some((device, index))
            } else {
                None
            },
            None => None,
        },
    }
}

/// The state after a failed restoration attempt: another attempt after
/// `VOLUME_RETRY_MS`, unless `MAX_VOLUME_RETRIES` were made.
pub open spec fn after_restore_failure(c: PlaybackControl, now: u64) -> PlaybackControl {
    if c.duck_restore_retries < MAX_VOLUME_RETRIES {
        PlaybackControl {
            duck_restore_retries: (c.duck_restore_retries + 1) as u8,
            duck_restore_due: Some((now + VOLUME_RETRY_MS) as u64),
            ..c
        }
    } else {
        c
    }
}

/// The state after a profile check that was not deferred: it is counted; a
/// failed one is retried after `PROFILE_RETRY_MS`; after
/// `MAX_PROFILE_ATTEMPTS` checks none is scheduled.
pub open spec fn after_profile_check(c: PlaybackControl, succeeded: bool, now: u64) -> PlaybackControl {
    let attempts = if c.profile_attempts == u8::MAX {
        u8::MAX
    } else {
        (c.profile_attempts + 1) as u8
    };
    PlaybackControl {
        profile_attempts: attempts,
        profile_due: if attempts >= MAX_PROFILE_ATTEMPTS {
            None
        } else if !succeeded {
            Some((now + PROFILE_RETRY_MS) as u64)
        } else {
            c.profile_due
        },
        ..c
    }
}

impl PlaybackControl {
    pub fn new() -> (r: PlaybackControl)
        ensures
            r.device is None,
            r.ears == (EarPolicy { behavior: 0, ears: None, both_out: None }),
            r.paused@.len() == 0,
            r.duck is None,
            r.duck_restore_due is None,
            r.duck_restore_retries == 0,
            r.profile_due is None,
            r.profile_attempts == 0,
            !r.pending_resume,
    {
        PlaybackControl {
            device: None,
            ears: EarPolicy::default(),
            paused: Vec::new(),
            duck: None,
            duck_restore_due: None,
            duck_restore_retries: 0,
            profile_due: None,
            profile_attempts: 0,
            pending_resume: false,
        }
    }

    /// Follows another device, or none. Returns whether the followed device
    /// changed; then the lowered volume is to be restored, and everything
    /// pending for the old device is forgotten. The profile of a new device is
    /// checked after `PROFILE_RETRY_MS`.
    pub fn set_device(&mut self, address: Option<&str>, now: u64) -> (changed: bool)
        requires
            now + PROFILE_RETRY_MS <= u64::MAX,
        ensures
            ({
                let wanted = match address {
                    Some(a) => Some(spec_normalize_address(a@)),
                    None => None,
                };
                let had = match old(self).device {
                    Some(d) => Some(d@),
                    None => None,
                };
                &&& changed == (had != wanted)
                &&& !changed ==> *final(self) == *old(self)
                &&& changed ==> {
                    &&& (match final(self).device {
                        Some(d) => Some(d@),
                        None => None,
                    }) == wanted
                    &&& final(self).ears == (EarPolicy {
                        ears: None,
                        both_out: None,
                        ..old(self).ears
                    })
                    &&& final(self).paused@.len() == 0
                    &&& !final(self).pending_resume
                    &&& final(self).profile_attempts == 0
                    &&& final(self).profile_due == (if address is Some {
                        Some((now + PROFILE_RETRY_MS) as u64)
                    } else {
                        None
                    })
                    &&& final(self).duck == old(self).duck
                    &&& final(self).duck_restore_due == old(self).duck_restore_due
                    &&& final(self).duck_restore_retries == old(self).duck_restore_retries
                }
            }),
    {
        let address = match address {
            Some(a) => Some(normalize_address(a)),
            None => None,
        };
        let same = match (&self.device, &address) {
            (Some(a), Some(b)) => str_equal(a.as_str(), b.as_str()),
            (None, None) => true,
            _ => false,
        };
        if same {
            return false;
        }
        self.profile_due = if address.is_some() {
            Some(now + PROFILE_RETRY_MS)
        } else {
            None
        };
        self.device = address;
        self.ears.ears = None;
        self.ears.both_out = None;
        self.paused = Vec::new();
        self.pending_resume = false;
        self.profile_attempts = 0;
        true
    }

    /// Selects the ear-detection behavior. A change forgets the pending
    /// resume (turning detection off must not start paused media) and, for
    /// Off, the paused players.
    pub fn set_ear_detection(&mut self, behavior: u8)
        ensures
            old(self).ears.behavior == behavior ==> *final(self) == *old(self),
            old(self).ears.behavior != behavior ==> {
                &&& final(self).ears == (EarPolicy {
                    behavior: if behavior <= 2 {
                        behavior
                    } else {
                        2
                    },
                    ears: None,
                    both_out: None,
                })
                &&& !final(self).pending_resume
                &&& final(self).paused@ == (if behavior == 2 {
                    Seq::<String>::empty()
                } else {
                    old(self).paused@
                })
                &&& final(self).device == old(self).device
                &&& final(self).duck == old(self).duck
                &&& final(self).duck_restore_due == old(self).duck_restore_due
                &&& final(self).duck_restore_retries == old(self).duck_restore_retries
                &&& final(self).profile_due == old(self).profile_due
                &&& final(self).profile_attempts == old(self).profile_attempts
            },
    {
        if self.ears.behavior != behavior {
            self.ears.set_behavior(behavior);
            self.pending_resume = false;
            if behavior == 2 {
                self.paused = Vec::new();
            }
        }
    }

    /// The ears were reported. Without a followed device nothing happens;
    /// otherwise ear detection decides the action.
    pub fn update_ears(&mut self, left: bool, right: bool, now: u64) -> (r: Option<EarAction>)
        requires
            starts_both_out(old(self).ears, left, right) ==> now + BOTH_OUT_SETTLE_MS <= u64::MAX,
        ensures
            old(self).device is None ==> *final(self) == *old(self) && r is None,
            old(self).device is Some ==> {
                &&& (final(self).ears, r) == spec_update(old(self).ears, left, right, now)
                &&& *final(self) == (PlaybackControl { ears: final(self).ears, ..*old(self) })
            },
    {
        if self.device.is_none() {
            return None;
        }
        self.ears.update(left, right, now)
    }

    /// Starts the work for an ear action. A release cancels the profile check
    /// and the pending resume; a pause or resume asks for a profile check now,
    /// and a resume is pending when some player was paused. Returns `false`
    /// (and changes nothing) when no device is followed.
    pub fn begin_ear_action(&mut self, action: EarAction, now: u64) -> (go: bool)
        ensures
            go == old(self).device is Some,
            !go ==> *final(self) == *old(self),
            go && action == EarAction::Release ==> *final(self) == (PlaybackControl {
                profile_due: None,
                pending_resume: false,
                ..*old(self)
            }),
            go && action != EarAction::Release ==> *final(self) == (PlaybackControl {
                profile_due: Some(now),
                profile_attempts: 0,
                pending_resume: action == EarAction::Resume && old(self).paused@.len() > 0,
                ..*old(self)
            }),
    {
        if self.device.is_none() {
            return false;
        }
        if action == EarAction::Release {
            self.profile_due = None;
            self.pending_resume = false;
        } else {
            self.profile_due = Some(now);
            self.profile_attempts = 0;
            self.pending_resume = action == EarAction::Resume && self.paused.len() > 0;
        }
        true
    }

    /// Records a player that was paused.
    pub fn record_paused(&mut self, owner: String)
        ensures
            forall|o: Seq<char>| holds(final(self).paused@, o) <==> holds(old(self).paused@, o) || o == owner@,
            distinct_owners(old(self).paused@) ==> distinct_owners(final(self).paused@),
            *final(self) == (PlaybackControl { paused: final(self).paused, ..*old(self) }),
    {
        let mut i: usize = 0;
        while i < self.paused.len()
            invariant
                i <= self.paused@.len(),
                forall|j: int| 0 <= j < i ==> (#[trigger] self.paused@[j])@ != owner@,
            decreases self.paused@.len() - i,
        {
            if str_equal(self.paused[i].as_str(), owner.as_str()) {
                return;
            }
            i = i + 1;
        }
        let ghost before = self.paused@;
        self.paused.push(owner);
        proof {
            assert forall|a: int, b: int| 0 <= a < b < self.paused@.len() && distinct_owners(before) implies (#[trigger] self.paused@[a])@ != (#[trigger] self.paused@[b])@ by {
                if b < before.len() {
                    assert(self.paused@[a] == before[a] && self.paused@[b] == before[b]);
                } else {
                    assert(self.paused@[a] == before[a]);
                    assert(before[a]@ != owner@);
                }
            }
            assert forall|o: Seq<char>| holds(self.paused@, o) <==> holds(before, o) || o == owner@ by {
                if holds(before, o) {
                    let k = choose|k: int| 0 <= k < before.len() && (#[trigger] before[k])@ == o;
                    assert(self.paused@[k] == before[k]);
                }
                if o == owner@ {
                    assert(self.paused@[before.len() as int]@ == o);
                }
                if holds(self.paused@, o) {
                    let k = choose|k: int| 0 <= k < self.paused@.len() && (#[trigger] self.paused@[k])@ == o;
                    if k < before.len() {
                        assert(before[k] == self.paused@[k]);
                    }
                }
            }
        }
    }

    /// Forgets a player that was resumed, or that no longer exists.
    pub fn forget_paused(&mut self, owner: &str)
        ensures
            forall|o: Seq<char>| holds(final(self).paused@, o) <==> holds(old(self).paused@, o) && o != owner@,
            distinct_owners(old(self).paused@) ==> distinct_owners(final(self).paused@),
            *final(self) == (PlaybackControl { paused: final(self).paused, ..*old(self) }),
    {
        let mut kept: Vec<String> = Vec::new();
        let mut i: usize = 0;
        while i < self.paused.len()
            invariant
                i <= self.paused@.len(),
                forall|o: Seq<char>| holds(kept@, o) <==> (exists|j: int| 0 <= j < i && (#[trigger] self.paused@[j])@ == o) && o != owner@,
                distinct_owners(self.paused@) ==> distinct_owners(kept@),
            decreases self.paused@.len() - i,
        {
            let ghost before = kept@;
            if !str_equal(self.paused[i].as_str(), owner) {
                kept.push(self.paused[i].clone());
                proof {
                    if distinct_owners(self.paused@) {
                        let fresh = self.paused@[i as int]@;
                        if holds(before, fresh) {
                            let j = choose|j: int| 0 <= j < i && (#[trigger] self.paused@[j])@ == fresh;
                            assert(self.paused@[j]@ != self.paused@[i as int]@);
                        }
                        assert forall|a: int, b: int| 0 <= a < b < kept@.len() implies (#[trigger] kept@[a])@ != (#[trigger] kept@[b])@ by {
                            if b < before.len() {
                                assert(kept@[a] == before[a] && kept@[b] == before[b]);
                            } else {
                                assert(kept@[a] == before[a]);
                                if before[a]@ == fresh {
                                    assert(holds(before, fresh));
                                }
                            }
                        }
                    }
                }
            }
            proof {
                assert forall|o: Seq<char>| holds(kept@, o) <==> (exists|j: int| 0 <= j < i + 1 && (#[trigger] self.paused@[j])@ == o) && o != owner@ by {
                    let seen = exists|j: int| 0 <= j < i && (#[trigger] self.paused@[j])@ == o;
                    assert(holds(before, o) <==> seen && o != owner@);
                    if holds(kept@, o) {
                        let k = choose|k: int| 0 <= k < kept@.len() && (#[trigger] kept@[k])@ == o;
                        if k < before.len() {
                            assert(before[k] == kept@[k]);
                            assert(holds(before, o));
                        } else {
                            assert(self.paused@[i as int]@ == o);
                        }
                    }
                    if (exists|j: int| 0 <= j < i + 1 && (#[trigger] self.paused@[j])@ == o) && o != owner@ {
                        if seen {
                            assert(holds(before, o));
                            let k = choose|k: int| 0 <= k < before.len() && (#[trigger] before[k])@ == o;
                            assert(kept@[k] == before[k]);
                        } else {
                            let j = choose|j: int| 0 <= j < i + 1 && (#[trigger] self.paused@[j])@ == o;
                            assert(j == i);
                            assert(kept@[before.len() as int]@ == o);
                        }
                    }
                }
            }
            i = i + 1;
        }
        self.paused = kept;
    }

    /// The players to resume, in the order they were recorded.
    pub fn paused_players(&self) -> (r: Vec<String>)
        ensures
            r@ == self.paused@,
    {
        let mut out: Vec<String> = Vec::new();
        let mut i: usize = 0;
        while i < self.paused.len()
            invariant
                i <= self.paused@.len(),
                out@ == self.paused@.take(i as int),
            decreases self.paused@.len() - i,
        {
            out.push(self.paused[i].clone());
            assert(out@ =~= self.paused@.take(i + 1));
            i = i + 1;
        }
        assert(out@ =~= self.paused@);
        out
    }

    /// After resuming: a resume stays pending while some player is still paused.
    pub fn resumed(&mut self)
        ensures
            *final(self) == (PlaybackControl {
                pending_resume: old(self).paused@.len() > 0,
                ..*old(self)
            }),
    {
        self.pending_resume = self.paused.len() > 0;
    }

    /// What to do with a conversation report. Speech cancels a queued restore.
    pub fn conversation_step(&mut self, event: u8) -> (r: ConversationStep)
        ensures
            r == spec_conversation_step(*old(self), event),
            *final(self) == (if event == 1 {
                PlaybackControl { duck_restore_due: None, ..*old(self) }
            } else {
                *old(self)
            }),
    {
        if event == 1 {
            self.duck_restore_due = None;
            if self.duck.is_some() || self.device.is_none() {
                return ConversationStep::Nothing;
            }
            ConversationStep::Duck
        } else if event == 9 {
            ConversationStep::Nothing
        } else {
            ConversationStep::Restore
        }
    }

    /// The volume of `sink` was lowered and must be restored later.
    pub fn ducked(&mut self, sink: Sink)
        ensures
            *final(self) == (PlaybackControl { duck: Some(sink), ..*old(self) }),
    {
        self.duck = Some(sink);
    }

    /// Starts a restoration with a fresh retry count.
    pub fn begin_restore(&mut self)
        ensures
            *final(self) == (PlaybackControl { duck_restore_retries: 0, ..*old(self) }),
    {
        self.duck_restore_retries = 0;
    }

    /// Starts one restoration attempt: the queued retry is taken, and the
    /// output to restore is returned (`None` when nothing is lowered).
    pub fn begin_restore_attempt(&mut self) -> (r: Option<Sink>)
        ensures
            r == old(self).duck,
            *final(self) == (PlaybackControl { duck_restore_due: None, ..*old(self) }),
    {
        self.duck_restore_due = None;
        match &self.duck {
            Some(sink) => Some(Sink { id: sink.id, serial: sink.serial, name: sink.name.clone() }),
            None => None,
        }
    }

    /// The outcome of a restoration attempt. Success forgets the lowered
    /// volume (it was restored, or changed by hand). A failure is retried
    /// after `VOLUME_RETRY_MS`, at most `MAX_VOLUME_RETRIES` times.
    pub fn restore_finished(&mut self, succeeded: bool, now: u64)
        requires
            now + VOLUME_RETRY_MS <= u64::MAX,
        ensures
            succeeded ==> *final(self) == (PlaybackControl { duck: None, ..*old(self) }),
            !succeeded ==> *final(self) == after_restore_failure(*old(self), now),
    {
        if succeeded {
            self.duck = None;
        } else if self.duck_restore_retries < MAX_VOLUME_RETRIES {
            self.duck_restore_retries = self.duck_restore_retries + 1;
            self.duck_restore_due = Some(now + VOLUME_RETRY_MS);
        }
    }

    /// Releases once both earbuds stayed out past the settle deadline.
    pub fn settle(&mut self, now: u64) -> (r: Option<EarAction>)
        ensures
            (final(self).ears, r) == spec_settle(old(self).ears, now),
            *final(self) == (PlaybackControl { ears: final(self).ears, ..*old(self) }),
    {
        self.ears.settle(now)
    }

    /// Whether the profile check is due; if so it is taken.
    pub fn take_profile_check(&mut self, now: u64) -> (due: bool)
        ensures
            due == (old(self).profile_due matches Some(t) && now >= t),
            due ==> *final(self) == (PlaybackControl { profile_due: None, ..*old(self) }),
            !due ==> *final(self) == *old(self),
    {
        match self.profile_due {
            Some(t) => if now >= t {
                self.profile_due = None;
                true
            } else {
                false
            },
            None => false,
        }
    }

    /// Whether a restoration retry is due.
    pub fn restore_due(&self, now: u64) -> (due: bool)
        ensures
            due == (self.duck_restore_due matches Some(t) && now >= t),
    {
        match self.duck_restore_due {
            Some(t) => now >= t,
            None => false,
        }
    }

    /// The profile step for what the check found. A call defers the check by
    /// `CAPTURE_RECHECK_MS`; a profile switch or a resume that leaves a resume
    /// pending asks for another check after `PROFILE_RETRY_MS`.
    pub fn profile_step(&mut self, facts: ProfileFacts, now: u64) -> (r: ProfileStep)
        requires
            now + CAPTURE_RECHECK_MS <= u64::MAX,
        ensures
            r == spec_profile_step(old(self).pending_resume, facts),
            *final(self) == (PlaybackControl {
                profile_due: if r == ProfileStep::Deferred {
                    Some((now + CAPTURE_RECHECK_MS) as u64)
                } else if old(self).pending_resume && (r is SetProfile || r == ProfileStep::Done) {
                    Some((now + PROFILE_RETRY_MS) as u64)
                } else {
                    old(self).profile_due
                },
                ..*old(self)
            }),
    {
        if facts.capturing {
            self.profile_due = Some(now + CAPTURE_RECHECK_MS);
            return ProfileStep::Deferred;
        }
        let (device, index, active) = match facts.playback {
            Some(p) => p,
            None => return ProfileStep::Unavailable,
        };
        if !active {
            if self.pending_resume {
                self.profile_due = Some(now + PROFILE_RETRY_MS);
            }
            return ProfileStep::SetProfile { device, index };
        }
        if self.pending_resume && facts.has_default_sink {
            return ProfileStep::Resume;
        }
        if self.pending_resume {
            self.profile_due = Some(now + PROFILE_RETRY_MS);
        }
        ProfileStep::Done
    }

    /// After the players were resumed: a resume still pending is checked
    /// again after `PROFILE_RETRY_MS`.
    pub fn resume_finished(&mut self, now: u64)
        requires
            now + PROFILE_RETRY_MS <= u64::MAX,
        ensures
            *final(self) == (PlaybackControl {
                pending_resume: old(self).paused@.len() > 0,
                profile_due: if old(self).paused@.len() > 0 {
                    Some((now + PROFILE_RETRY_MS) as u64)
                } else {
                    old(self).profile_due
                },
                ..*old(self)
            }),
    {
        self.pending_resume = self.paused.len() > 0;
        if self.pending_resume {
            self.profile_due = Some(now + PROFILE_RETRY_MS);
        }
    }

    /// Counts a profile check that was not deferred. A failed one is retried
    /// after `PROFILE_RETRY_MS`; after `MAX_PROFILE_ATTEMPTS` checks no more
    /// are scheduled.
    pub fn profile_finished(&mut self, succeeded: bool, now: u64)
        requires
            now + PROFILE_RETRY_MS <= u64::MAX,
        ensures
            *final(self) == after_profile_check(*old(self), succeeded, now),
    {
        self.profile_attempts = self.profile_attempts.saturating_add(1);
        if !succeeded && self.profile_attempts < MAX_PROFILE_ATTEMPTS {
            self.profile_due = Some(now + PROFILE_RETRY_MS);
        }
        if self.profile_attempts >= MAX_PROFILE_ATTEMPTS {
            self.profile_due = None;
        }
    }

    /// The next time something is due: the both-out deadline, the profile
    /// check or the restoration retry, whichever comes first.
    pub fn next_deadline(&self) -> (r: Option<u64>)
        ensures
            r == earliest(earliest(self.ears.both_out, self.profile_due), self.duck_restore_due),
    {
        let first = earliest_of(self.ears.both_out, self.profile_due);
        earliest_of(first, self.duck_restore_due)
    }

    /// Stopping: nothing is pending any more except restoring the volume,
    /// which the caller does next.
    pub fn shutdown(&mut self)
        ensures
            *final(self) == (PlaybackControl {
                profile_due: None,
                ears: EarPolicy { both_out: None, ..old(self).ears },
                pending_resume: false,
                paused: final(self).paused,
                ..*old(self)
            }),
            final(self).paused@.len() == 0,
    {
        self.profile_due = None;
        self.ears.both_out = None;
        self.pending_resume = false;
        self.paused = Vec::new();
    }
}

/// A lowered volume is retried a bounded number of times: the retry count
/// never passes `MAX_VOLUME_RETRIES`, and once it is reached a failed
/// attempt (which took the queued retry) schedules no other.
pub proof fn law_restore_retries_bounded(c: PlaybackControl, now: u64)
    ensures
        c.duck_restore_retries <= MAX_VOLUME_RETRIES ==> after_restore_failure(
            c,
            now,
        ).duck_restore_retries <= MAX_VOLUME_RETRIES,
        c.duck_restore_retries >= MAX_VOLUME_RETRIES && c.duck_restore_due is None
            ==> after_restore_failure(c, now).duck_restore_due is None,
        after_restore_failure(c, now).duck == c.duck,
{
}

/// Profile checks stop: from the `MAX_PROFILE_ATTEMPTS`th check on, none is scheduled.
pub proof fn law_profile_checks_bounded(c: PlaybackControl, succeeded: bool, now: u64)
    requires
        c.profile_attempts + 1 >= MAX_PROFILE_ATTEMPTS,
    ensures
        after_profile_check(c, succeeded, now).profile_due is None,
{
}

/// The next deadline is one of the pending times and none comes earlier.
pub proof fn law_next_deadline_is_earliest(a: Option<u64>, b: Option<u64>, c: Option<u64>)
    ensures
        earliest(earliest(a, b), c) is None <==> a is None && b is None && c is None,
        earliest(earliest(a, b), c) matches Some(t) ==> (a == Some(t) || b == Some(t) || c == Some(
            t,
        )) && (a matches Some(x) ==> t <= x) && (b matches Some(y) ==> t <= y) && (c matches Some(
            z,
        ) ==> t <= z),
{
}

/// One failed restoration attempt as the controller makes it: the queued
/// retry is taken (`begin_restore_attempt`), then the failure is recorded
/// (`restore_finished`).
pub open spec fn failed_attempt(c: PlaybackControl, now: u64) -> PlaybackControl {
    after_restore_failure(PlaybackControl { duck_restore_due: None, ..c }, now)
}

/// `k` failed attempts in a row, the `i`th made at `times[i]`.
pub open spec fn failed_attempts(c: PlaybackControl, times: Seq<u64>, k: nat) -> PlaybackControl
    decreases k,
{
    if k == 0 || k > times.len() {
        c
    } else {
        failed_attempt(failed_attempts(c, times, (k - 1) as nat), times[k - 1])
    }
}

/// A restoration that keeps failing is retried exactly `MAX_VOLUME_RETRIES`
/// times: starting from a fresh count (`begin_restore`), each of the first
/// `MAX_VOLUME_RETRIES` failed attempts schedules the next one
/// `VOLUME_RETRY_MS` after it, the one after them schedules nothing, and the
/// lowered volume is still owed. The attempt times are any at which
/// `restore_finished` may be called.
pub proof fn law_restore_retried_exactly(c: PlaybackControl, times: Seq<u64>, k: nat)
    requires
        1 <= k <= times.len(),
        k <= MAX_VOLUME_RETRIES + 1,
        forall|i: int| 0 <= i < times.len() ==> #[trigger] times[i] + VOLUME_RETRY_MS <= u64::MAX,
    ensures
        ({
            let r = failed_attempts(PlaybackControl { duck_restore_retries: 0, ..c }, times, k);
            &&& k <= MAX_VOLUME_RETRIES ==> r.duck_restore_due == Some(
                (times[k - 1] + VOLUME_RETRY_MS) as u64,
            )
            &&& k == MAX_VOLUME_RETRIES + 1 ==> r.duck_restore_due is None
            &&& r.duck_restore_retries == (if k <= MAX_VOLUME_RETRIES {
                k
            } else {
                MAX_VOLUME_RETRIES as nat
            })
            &&& r.duck == c.duck
        }),
    decreases k,
{
    let c0 = PlaybackControl { duck_restore_retries: 0, ..c };
    if k > 1 {
        law_restore_retried_exactly(c, times, (k - 1) as nat);
    }
    assert(failed_attempts(c0, times, 0) == c0);
}

} // verus!
