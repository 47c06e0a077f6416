//! Playback decisions: ear detection, and the timers of audio recovery.
//!
//! Times are milliseconds on a monotonic clock chosen by the caller.
use vstd::prelude::*;

use crate::text::{chars_of, push_char};

verus! {

/// Both earbuds must stay out this long before playback is paused.
pub const BOTH_OUT_SETTLE_MS: u64 = 1200;

/// What playback should do after a change of the ears.
#[derive(Clone, Copy, Debug, PartialEq, Eq, Structural)]
pub enum EarAction {
    Pause,
    Resume,
    Release,
}

/// Ear detection: 0 = I (either ear out pauses), 1 = II (both out pauses), 2 = Off.
#[derive(Clone, Copy, Debug, PartialEq, Eq)]
pub struct EarPolicy {
    pub behavior: u8,
    pub ears: Option<(bool, bool)>,
    pub both_out: Option<u64>,
}

impl Default for EarPolicy {
    fn default() -> (r: Self)
        ensures
            r == (EarPolicy { behavior: 0, ears: None, both_out: None }),
    {
        EarPolicy { behavior: 0, ears: None, both_out: None }
    }
}

/// Whether `update` has to compute a new both-out deadline (and so needs
/// `now + BOTH_OUT_SETTLE_MS` to exist).
pub open spec fn starts_both_out(p: EarPolicy, left: bool, right: bool) -> bool {
    p.ears != Some((left, right)) && p.behavior != 2 && !left && !right
}

/// The policy and action after the ears are reported as `left`, `right` at `now`.
/// A repeated report changes nothing; with Off nothing is done; both out only
/// starts (or keeps) the settle deadline; anything else cancels it and pauses
/// (I with one ear out) or resumes.
pub open spec fn spec_update(p: EarPolicy, left: bool, right: bool, now: u64) -> (
    EarPolicy,
    Option<EarAction>,
) {
    if p.ears == Some((left, right)) {
        (p, None)
    } else if p.behavior == 2 {
        (EarPolicy { ears: Some((left, right)), ..p }, None)
    } else if !left && !right {
        (
            EarPolicy {
                ears: Some((left, right)),
                both_out: Some(
                    match p.both_out {
                        Some(d) => d,
                        None => (now + BOTH_OUT_SETTLE_MS) as u64,
                    },
                ),
                ..p
            },
            None,
        )
    } else {
        (
            EarPolicy { ears: Some((left, right)), both_out: None, ..p },
            Some(
                if p.behavior == 0 && (!left || !right) {
                    EarAction::Pause
                } else {
                    EarAction::Resume
                },
            ),
        )
    }
}

/// Releases once the both-out deadline has passed.
pub open spec fn spec_settle(p: EarPolicy, now: u64) -> (EarPolicy, Option<EarAction>) {
    match p.both_out {
        Some(deadline) => if now >= deadline {
            (EarPolicy { both_out: None, ..p }, Some(EarAction::Release))
        } else {
            (p, None)
        },
        None => (p, None),
    }
}

impl EarPolicy {
    /// Selects a behavior (values above 2 mean Off) and forgets pending work.
    pub fn set_behavior(&mut self, behavior: u8)
        ensures
            *final(self) == (EarPolicy {
                behavior: if behavior <= 2 {
                    behavior
                } else {
                    2
                },
                ears: None,
                both_out: None,
            }),
    {
        self.behavior = if behavior <= 2 {
            behavior
        } else {
            2
        };
        self.both_out = None;
        self.ears = None;
    }

    pub fn update(&mut self, left: bool, right: bool, now: u64) -> (r: Option<EarAction>)
        requires
            starts_both_out(*old(self), left, right) ==> now + BOTH_OUT_SETTLE_MS <= u64::MAX,
        ensures
            (*final(self), r) == spec_update(*old(self), left, right, now),
    {
        let repeated = match self.ears {
            Some((l, r)) => l == left && r == right,
            None => false,
        };
        if repeated {
            return None;
        }
        self.ears = Some((left, right));
        if self.behavior == 2 {
            return None;
        }
        if !left && !right {
            let deadline = now + BOTH_OUT_SETTLE_MS;
            if self.both_out.is_none() {
                self.both_out = Some(deadline);
            }
            return None;
        }
        self.both_out = None;
        Some(
            if self.behavior == 0 && (!left || !right) {
                EarAction::Pause
            } else {
                EarAction::Resume
            },
        )
    }

    pub fn settle(&mut self, now: u64) -> (r: Option<EarAction>)
        ensures
            (*final(self), r) == spec_settle(*old(self), now),
    {
        match self.both_out {
            Some(deadline) => {
                if now >= deadline {
                    self.both_out = None;
                    return Some(EarAction::Release);
                }
                None
            },
            None => None,
        }
    }
}

/// The same ear report twice in a row does nothing the second time.
pub proof fn law_repeated_ears_do_nothing(p: EarPolicy, left: bool, right: bool, t1: u64, t2: u64)
    ensures
        ({
            let (q, _) = spec_update(p, left, right, t1);
            spec_update(q, left, right, t2) == (q, None::<EarAction>)
        }),
{
}

/// With ear detection Off, no ear report and no settle ever acts, and no
/// deadline is started.
pub proof fn law_off_never_acts(p: EarPolicy, left: bool, right: bool, now: u64)
    requires
        p.behavior == 2,
        p.both_out is None,
    ensures
        spec_update(p, left, right, now).1 is None,
        spec_update(p, left, right, now).0.both_out is None,
        spec_update(p, left, right, now).0.behavior == 2,
        spec_settle(p, now).1 is None,
{
}

/// While both earbuds stay out, the first deadline is kept: later reports
/// never postpone the release.
pub proof fn law_both_out_keeps_first_deadline(p: EarPolicy, deadline: u64, now: u64)
    requires
        p.both_out == Some(deadline),
    ensures
        spec_update(p, false, false, now).0.both_out == Some(deadline),
        spec_update(p, false, false, now).1 is None,
{
}

/// An earbud back in before the deadline cancels the pending release.
pub proof fn law_return_cancels_release(p: EarPolicy, left: bool, right: bool, now: u64, later: u64)
    requires
        left || right,
        p.behavior != 2,
        p.ears != Some((left, right)),
    ensures
        spec_settle(spec_update(p, left, right, now).0, later).1 is None,
{
}

/// A release is given once: right after it, settling gives nothing.
pub proof fn law_release_once(p: EarPolicy, now: u64, later: u64)
    requires
        spec_settle(p, now).1 == Some(EarAction::Release),
    ensures
        spec_settle(spec_settle(p, now).0, later).1 is None,
{
}

/// I pauses when one ear comes out; II never pauses on one ear.
pub proof fn law_modes_on_one_ear(p: EarPolicy, now: u64)
    requires
        p.ears != Some((true, false)),
    ensures
        p.behavior == 0 ==> spec_update(p, true, false, now).1 == Some(EarAction::Pause),
        p.behavior == 1 ==> spec_update(p, true, false, now).1 == Some(EarAction::Resume),
{
}

/// What every ear policy reached through its methods keeps: the behavior is
/// 0, 1 or 2, and a pending release only exists while both earbuds are out and
/// detection is on.
pub open spec fn ear_policy_inv(p: EarPolicy) -> bool {
    &&& p.behavior <= 2
    &&& p.both_out is Some ==> p.ears == Some((false, false)) && p.behavior != 2
}

/// The default policy, `set_behavior`, `update` and `settle` keep `ear_policy_inv`.
pub proof fn law_ear_policy_invariant(p: EarPolicy, behavior: u8, left: bool, right: bool, now: u64)
    ensures
        ear_policy_inv(EarPolicy { behavior: 0, ears: None, both_out: None }),
        ear_policy_inv(
            EarPolicy { behavior: if behavior <= 2 { behavior } else { 2 }, ears: None, both_out: None },
        ),
        ear_policy_inv(p) ==> ear_policy_inv(spec_update(p, left, right, now).0),
        ear_policy_inv(p) ==> ear_policy_inv(spec_settle(p, now).0),
{
}

/// Both earbuds taken out (with detection on, from any other report) release
/// exactly when `BOTH_OUT_SETTLE_MS` have passed since that report, and only
/// once.
pub proof fn law_both_out_releases_at_deadline(p: EarPolicy, t0: u64, t: u64, later: u64)
    requires
        ear_policy_inv(p),
        p.behavior != 2,
        p.ears != Some((false, false)),
        t0 + BOTH_OUT_SETTLE_MS <= u64::MAX,
    ensures
        ({
            let q = spec_update(p, false, false, t0).0;
            &&& spec_update(p, false, false, t0).1 is None
            &&& spec_settle(q, t).1 == Some(EarAction::Release) <==> t >= t0 + BOTH_OUT_SETTLE_MS
            &&& spec_settle(q, t).1 is None ==> spec_settle(q, t).0 == q
            &&& spec_settle(q, t).1 is Some ==> spec_settle(spec_settle(q, t).0, later).1 is None
        }),
{
}

/// One call on an ear policy.
pub enum EarOp {
    SetBehavior(u8),
    Update(bool, bool, u64),
    Settle(u64),
}

/// `after` is the policy after `op` on `before`, as the methods' contracts give it.
pub open spec fn ear_step(before: EarPolicy, after: EarPolicy, op: EarOp) -> bool {
    match op {
        EarOp::SetBehavior(b) => after == (EarPolicy {
            behavior: if b <= 2 {
                b
            } else {
                2
            },
            ears: None,
            both_out: None,
        }),
        EarOp::Update(left, right, now) => after == spec_update(before, left, right, now).0,
        EarOp::Settle(now) => after == spec_settle(before, now).0,
    }
}

/// `states` is a history of a policy from its default through `ops`.
pub open spec fn ear_history(states: Seq<EarPolicy>, ops: Seq<EarOp>) -> bool {
    &&& states.len() == ops.len() + 1
    &&& states[0] == (EarPolicy { behavior: 0, ears: None, both_out: None })
    &&& forall|i: int|
        #![trigger ops[i]]
        0 <= i < ops.len() ==> ear_step(states[i], states[i + 1], ops[i])
}

proof fn lemma_ear_history_inv(states: Seq<EarPolicy>, ops: Seq<EarOp>, k: int)
    requires
        ear_history(states, ops),
        0 <= k < states.len(),
    ensures
        ear_policy_inv(states[k]),
    decreases k,
{
    if k > 0 {
        lemma_ear_history_inv(states, ops, k - 1);
        let op = ops[k - 1];
        assert(ear_step(states[k - 1], states[k], op));
        match op {
            EarOp::SetBehavior(b) => law_ear_policy_invariant(states[k - 1], b, false, false, 0),
            EarOp::Update(l, r, t) => law_ear_policy_invariant(states[k - 1], 0, l, r, t),
            EarOp::Settle(t) => law_ear_policy_invariant(states[k - 1], 0, false, false, t),
        }
    }
}

/// Every policy reached from the default through its methods keeps
/// `ear_policy_inv`.
pub proof fn law_reachable_ear_policy(states: Seq<EarPolicy>, ops: Seq<EarOp>)
    requires
        ear_history(states, ops),
    ensures
        forall|k: int| 0 <= k < states.len() ==> ear_policy_inv(#[trigger] states[k]),
{
    assert forall|k: int| 0 <= k < states.len() implies ear_policy_inv(#[trigger] states[k]) by {
        lemma_ear_history_inv(states, ops, k);
    }
}

/// In any policy reached through its methods, with detection on: both earbuds
/// taken out at `t0` release exactly when `BOTH_OUT_SETTLE_MS` have passed, and
/// only once; until then settling changes nothing.
pub proof fn law_reachable_release(
    states: Seq<EarPolicy>,
    ops: Seq<EarOp>,
    k: int,
    t0: u64,
    t: u64,
    later: u64,
)
    requires
        ear_history(states, ops),
        0 <= k < states.len(),
        states[k].behavior != 2,
        states[k].ears != Some((false, false)),
        t0 + BOTH_OUT_SETTLE_MS <= u64::MAX,
    ensures
        ({
            let q = spec_update(states[k], false, false, t0).0;
            &&& spec_update(states[k], false, false, t0).1 is None
            &&& spec_settle(q, t).1 == Some(EarAction::Release) <==> t >= t0 + BOTH_OUT_SETTLE_MS
            &&& spec_settle(q, t).1 is None ==> spec_settle(q, t).0 == q
            &&& spec_settle(q, t).1 is Some ==> spec_settle(spec_settle(q, t).0, later).1 is None
        }),
{
    lemma_ear_history_inv(states, ops, k);
    law_both_out_releases_at_deadline(states[k], t0, t, later);
}

/// What a new ear report does when detection is on: with I (0), either
/// earbud out pauses and both in resumes; with II (1), any earbud in resumes;
/// both out never acts at once (it waits to settle).
pub proof fn law_ear_report_actions(p: EarPolicy, left: bool, right: bool, now: u64)
    requires
        p.ears != Some((left, right)),
        p.behavior == 0 || p.behavior == 1,
    ensures
        p.behavior == 0 && left != right ==> spec_update(p, left, right, now).1 == Some(
            EarAction::Pause,
        ),
        p.behavior == 0 && left && right ==> spec_update(p, left, right, now).1 == Some(
            EarAction::Resume,
        ),
        p.behavior == 1 && (left || right) ==> spec_update(p, left, right, now).1 == Some(
            EarAction::Resume,
        ),
        !left && !right ==> spec_update(p, left, right, now).1 is None,
        spec_update(p, left, right, now).0.ears == Some((left, right)),
{
}

/// Separators that Bluetooth addresses are written with.
pub open spec fn is_separator(c: char) -> bool {
    c == ':' || c == '-' || c == '_'
}

/// ASCII lower-case letters in upper case; everything else unchanged.
pub open spec fn ascii_upper(c: char) -> char {
    if 'a' <= c <= 'z' {
        ((c as u32) - 32) as char
    } else {
        c
    }
}

/// An address without separators, in upper case, as the audio server and
/// BlueZ both write it once normalized.
pub open spec fn spec_normalize_address(s: Seq<char>) -> Seq<char>
    decreases s.len(),
{
    if s.len() == 0 {
        s
    } else if is_separator(s.last()) {
        spec_normalize_address(s.drop_last())
    } else {
        spec_normalize_address(s.drop_last()).push(ascii_upper(s.last()))
    }
}

fn upper_char(c: char) -> (r: char)
    ensures
        r == ascii_upper(c),
{
    if 'a' <= c && c <= 'z' {
        let u: u8 = ((c as u32) - 32) as u8;
        u as char
    } else {
        c
    }
}

/// Removes the separators of an address and writes it in upper case.
pub fn normalize_address(address: &str) -> (r: String)
    ensures
        r@ == spec_normalize_address(address@),
{
    let chars = chars_of(address);
    let mut out = String::new();
    let mut i: usize = 0;
    while i < chars.len()
        invariant
            chars@ == address@,
            i <= chars@.len(),
            out@ == spec_normalize_address(chars@.take(i as int)),
        decreases chars@.len() - i,
    {
        let c = chars[i];
        let ghost before = chars@.take(i as int);
        assert(chars@.take(i + 1).drop_last() =~= before);
        assert(chars@.take(i + 1).last() == c);
        if !(c == ':' || c == '-' || c == '_') {
            let u = upper_char(c);
            push_char(&mut out, u);
            assert(spec_normalize_address(chars@.take(i + 1)) =~= spec_normalize_address(before).push(u));
        } else {
            assert(spec_normalize_address(chars@.take(i + 1)) =~= spec_normalize_address(before));
        }
        i = i + 1;
    }
    assert(chars@.take(chars@.len() as int) =~= chars@);
    out
}

} // verus!
