//! The reconciliation loop's decision logic: private cycle state (last check
//! time and post-wake grace deadline), the per-plate staleness decision, and
//! the whole per-cycle pass that drives stale sessions through a recovery
//! transition and says which sessions changed.

use vstd::prelude::*;

use crate::models::{spec_needs_attention, Plate, PlateStatus};
use crate::recovery::{
    is_running_stale, is_stale, HEALTH_CHECK_INTERVAL_SECS, RUNNING_ABSOLUTE_TIMEOUT_SECS,
    RUNNING_STALENESS_THRESHOLD_SECS, STALENESS_THRESHOLD_SECS,
};
use crate::state_machine::{spec_transition, Event};
use crate::store::{has_plate, plate_index, status_set, SessionStore};
use crate::text::strs_view;

verus! {

/// A wall-clock gap beyond this many seconds between cycles means the
/// process (likely the whole machine) was suspended.
pub const SLEEP_DETECTION_MULTIPLIER: i64 = 3;

/// After a detected suspend, running sessions are exempt from staleness
/// checks for this long, so the clock jump itself cannot look like a stall.
pub const POST_WAKE_GRACE_PERIOD_SECS: i64 = 10;

/// The cycle gap that counts as a suspend.
pub open spec fn spec_sleep_threshold() -> int {
    HEALTH_CHECK_INTERVAL_SECS * SLEEP_DETECTION_MULTIPLIER
}

/// Private state of the reconciliation loop: when it last ran, and until
/// when a post-wake grace window holds.
pub struct Reconciler {
    last_check_secs: i64,
    grace_until_secs: i64,
}

impl Reconciler {
    pub closed spec fn last_check(&self) -> i64 {
        self.last_check_secs
    }

    pub closed spec fn grace_until(&self) -> i64 {
        self.grace_until_secs
    }

    pub open spec fn wf(&self) -> bool {
        0 <= self.last_check() && 0 <= self.grace_until()
    }

    pub fn new() -> (r: Self)
        ensures
            r.wf(),
            r.last_check() == 0,
            r.grace_until() == 0,
    {
        Reconciler { last_check_secs: 0, grace_until_secs: 0 }
    }

    /// Opens a cycle at `now`: records the check time, opens a grace window
    /// when the gap since the previous cycle betrays a suspend, and reports
    /// whether this cycle falls inside the grace window.
    pub fn begin_cycle(&mut self, now: i64) -> (in_grace: bool)
        requires
            old(self).wf(),
            0 <= now <= i64::MAX - POST_WAKE_GRACE_PERIOD_SECS,
        ensures
            final(self).wf(),
            final(self).last_check() == now,
            final(self).grace_until() == if old(self).last_check() > 0 && now - old(
                self,
            ).last_check() > spec_sleep_threshold() {
                now + POST_WAKE_GRACE_PERIOD_SECS
            } else {
                old(self).grace_until() as int
            },
            in_grace == (now < final(self).grace_until()),
    {
        let last = self.last_check_secs;
        self.last_check_secs = now;
        if last > 0 && now - last > HEALTH_CHECK_INTERVAL_SECS as i64 * SLEEP_DETECTION_MULTIPLIER {
            self.grace_until_secs = now + POST_WAKE_GRACE_PERIOD_SECS;
        }
        now < self.grace_until_secs
    }
}

/// What one cycle observed about one session's transcript file: its
/// modification time when it could be read, and whether its last well-formed
/// line records a completed turn.
#[derive(Debug)]
pub struct PlateObservation {
    pub session_id: String,
    pub transcript_mtime_secs: Option<i64>,
    pub transcript_complete: bool,
}

/// The per-plate staleness decision. A running session is recovered only
/// outside the grace window, only after the running threshold of silence
/// since its last activity (transcript write or store update, whichever is
/// later), and only when the transcript confirms completion or the absolute
/// timeout has passed. A session waiting on its user (but not already idle)
/// is recovered as soon as the transcript is newer than the recorded update
/// by more than the short threshold.
pub open spec fn spec_wants_recovery(
    status: PlateStatus,
    updated_at: i64,
    mtime: i64,
    complete: bool,
    now: i64,
    in_grace: bool,
) -> bool {
    if status is Running {
        let last_activity = if mtime > updated_at {
            mtime
        } else {
            updated_at
        };
        &&& !in_grace
        &&& now - last_activity > RUNNING_STALENESS_THRESHOLD_SECS
        &&& (complete || now - last_activity > RUNNING_ABSOLUTE_TIMEOUT_SECS)
    } else if spec_needs_attention(status) && !(status is Idle) {
        mtime > updated_at + STALENESS_THRESHOLD_SECS
    } else {
        false
    }
}

pub fn plate_needs_recovery(
    status: PlateStatus,
    updated_at: i64,
    mtime: i64,
    complete: bool,
    now: i64,
    in_grace: bool,
) -> (r: bool)
    requires
        0 <= updated_at <= i64::MAX - STALENESS_THRESHOLD_SECS,
        0 <= mtime,
        0 <= now,
    ensures
        r == spec_wants_recovery(status, updated_at, mtime, complete, now, in_grace),
{
    match status {
        PlateStatus::Running => {
            if in_grace {
                return false;
            }
            let last_activity = if mtime > updated_at {
                mtime
            } else {
                updated_at
            };
            if is_running_stale(last_activity, now) {
                let timed_out = now - last_activity > RUNNING_ABSOLUTE_TIMEOUT_SECS;
                complete || timed_out
            } else {
                false
            }
        },
        _ => {
            if status.needs_attention() && status != PlateStatus::Idle {
                is_stale(mtime, updated_at)
            } else {
                false
            }
        },
    }
}

/// Whether this observation, taken against these rows, triggers a recovery
/// transition.
pub open spec fn spec_obs_decision(
    rows: Seq<Plate>,
    ob: PlateObservation,
    now: i64,
    in_grace: bool,
) -> bool {
    &&& has_plate(rows, ob.session_id@)
    &&& ob.transcript_mtime_secs matches Some(m) && spec_wants_recovery(
        rows[plate_index(rows, ob.session_id@)].status,
        rows[plate_index(rows, ob.session_id@)].updated_at,
        m,
        ob.transcript_complete,
        now,
        in_grace,
    )
}

/// A row was reached by some observation of this prefix that decided to
/// recover it.
pub open spec fn spec_row_recovered(
    rows: Seq<Plate>,
    obs: Seq<PlateObservation>,
    now: i64,
    in_grace: bool,
    i: int,
) -> bool {
    exists|t: int|
        0 <= t < obs.len() && (#[trigger] obs[t]).session_id@ == rows[i].session_id@
            && spec_obs_decision(rows, obs[t], now, in_grace)
}

/// One full reconciliation cycle over a set of transcript observations:
/// every stale session is driven through the recovery transition as a
/// direct status-and-timestamp write, and the ids of the changed sessions
/// come back, in observation order, for one notification each.
pub fn run_recovery_cycle(
    store: &mut SessionStore,
    rec: &mut Reconciler,
    observations: &Vec<PlateObservation>,
    now: i64,
) -> (changed: Vec<String>)
    requires
        old(store).wf(),
        old(rec).wf(),
        0 <= now <= i64::MAX - POST_WAKE_GRACE_PERIOD_SECS,
        forall|i: int|
            0 <= i < old(store).rows().len() ==> 0 <= (#[trigger] old(store).rows()[i]).updated_at
                <= i64::MAX - STALENESS_THRESHOLD_SECS,
        forall|k: int|
            0 <= k < observations@.len() ==> ((#[trigger] observations@[k]).transcript_mtime_secs
                matches Some(m) ==> 0 <= m),
        forall|k: int, l: int|
            0 <= k < l < observations@.len() ==> observations@[k].session_id@
                != observations@[l].session_id@,
    ensures
        final(store).wf(),
        final(rec).wf(),
        final(store).events() == old(store).events(),
        final(store).todos() == old(store).todos(),
        final(rec).last_check() == now,
        final(rec).grace_until() == if old(rec).last_check() > 0 && now - old(rec).last_check()
            > spec_sleep_threshold() {
            now + POST_WAKE_GRACE_PERIOD_SECS
        } else {
            old(rec).grace_until() as int
        },
        final(store).rows().len() == old(store).rows().len(),
        ({
            let in_grace = now < final(rec).grace_until();
            &&& (forall|i: int|
                0 <= i < old(store).rows().len() ==> if spec_row_recovered(
                    old(store).rows(),
                    observations@,
                    now,
                    in_grace,
                    i,
                ) {
                    status_set(
                        final(store).rows()[i],
                        old(store).rows()[i],
                        spec_transition(old(store).rows()[i].status, Event::HealthCheckRecovery),
                        now,
                    )
                } else {
                    final(store).rows()[i] == old(store).rows()[i]
                })
            &&& strs_view(changed@) == observations@.filter(
                |ob: PlateObservation| spec_obs_decision(old(store).rows(), ob, now, in_grace),
            ).map_values(|ob: PlateObservation| ob.session_id@)
        }),
{
    let in_grace = rec.begin_cycle(now);
    let ghost rows0 = store.rows();
    let ghost obs = observations@;
    let ghost dpred = |ob: PlateObservation| spec_obs_decision(rows0, ob, now, in_grace);
    let ghost sid_of = |ob: PlateObservation| ob.session_id@;
    let mut changed: Vec<String> = Vec::new();
    let mut k: usize = 0;
    proof {
        reveal(Seq::filter);
        assert(obs.subrange(0, 0) =~= Seq::<PlateObservation>::empty());
        assert(strs_view(changed@) =~= obs.subrange(0, 0).filter(dpred).map_values(sid_of));
    }
    while k < observations.len()
        invariant
            store.wf(),
            k <= obs.len(),
            obs == observations@,
            store.events() == old(store).events(),
            store.todos() == old(store).todos(),
            store.rows().len() == rows0.len(),
            forall|i: int|
                0 <= i < rows0.len() ==> (#[trigger] store.rows()[i]).session_id
                    == rows0[i].session_id,
            forall|i: int|
                0 <= i < rows0.len() ==> if spec_row_recovered(
                    rows0,
                    obs.subrange(0, k as int),
                    now,
                    in_grace,
                    i,
                ) {
                    status_set(
                        store.rows()[i],
                        rows0[i],
                        spec_transition(rows0[i].status, Event::HealthCheckRecovery),
                        now,
                    )
                } else {
                    store.rows()[i] == rows0[i]
                },
            dpred == (|ob: PlateObservation| spec_obs_decision(rows0, ob, now, in_grace)),
            sid_of == (|ob: PlateObservation| ob.session_id@),
            strs_view(changed@) == obs.subrange(0, k as int).filter(dpred).map_values(sid_of),
            forall|a: int, b: int|
                0 <= a < b < obs.len() ==> obs[a].session_id@ != obs[b].session_id@,
            forall|a: int|
                0 <= a < obs.len() ==> ((#[trigger] obs[a]).transcript_mtime_secs matches Some(m)
                    ==> 0 <= m),
            forall|i: int|
                0 <= i < rows0.len() ==> 0 <= (#[trigger] rows0[i]).updated_at <= i64::MAX
                    - STALENESS_THRESHOLD_SECS,
            0 <= now <= i64::MAX - POST_WAKE_GRACE_PERIOD_SECS,
        decreases obs.len() - k,
    {
        let ob = &observations[k];
        let ghost changed0 = changed@;
        let found = store.get_plate(ob.session_id.as_str());
        let ghost decided = dpred(obs[k as int]);
        match found {
            Some(p) => {
                proof {
                    // The row this observation targets has not been touched
                    // by an earlier observation (ids are unique), so it
                    // still holds its original value.
                    let j = plate_index(store.rows(), ob.session_id@);
                    assert(store.rows()[j].session_id@ == ob.session_id@);
                    assert(rows0[j].session_id@ == ob.session_id@);
                    SessionStore::lemma_found_is_index(rows0, ob.session_id@, j);
                    if spec_row_recovered(rows0, obs.subrange(0, k as int), now, in_grace, j) {
                        let t = choose|t: int|
                            0 <= t < obs.subrange(0, k as int).len() && (#[trigger] obs.subrange(
                                0,
                                k as int,
                            )[t]).session_id@ == rows0[j].session_id@ && spec_obs_decision(
                                rows0,
                                obs.subrange(0, k as int)[t],
                                now,
                                in_grace,
                            );
                        assert(obs[t].session_id@ == obs[k as int].session_id@);
                        assert(false);
                    }
                    assert(p == rows0[j]);
                }
                let stale = match ob.transcript_mtime_secs {
                    Some(m) => plate_needs_recovery(
                        p.status,
                        p.updated_at,
                        m,
                        ob.transcript_complete,
                        now,
                        in_grace,
                    ),
                    None => false,
                };
                proof {
                    let j = plate_index(rows0, ob.session_id@);
                    assert(has_plate(rows0, ob.session_id@)) by {
                        assert(rows0[j].session_id@ == ob.session_id@);
                    }
                    assert(stale == decided);
                }
                if stale {
                    let new_status = p.status.transition(&Event::HealthCheckRecovery);
                    store.set_status(ob.session_id.as_str(), new_status, now);
                    changed.push(ob.session_id.clone());
                    proof {
                        let j = plate_index(rows0, ob.session_id@);
                        assert(has_plate(store.rows(), ob.session_id@)) by {
                            assert(store.rows()[j].session_id@ == ob.session_id@);
                        }
                    }
                }
            },
            None => {
                proof {
                    // No row carries this id now, hence none did originally.
                    if has_plate(rows0, ob.session_id@) {
                        let j = plate_index(rows0, ob.session_id@);
                        assert(store.rows()[j].session_id@ == ob.session_id@);
                    }
                    assert(!decided);
                }
            },
        }
        proof {
            reveal(Seq::filter);
            let prefix0 = obs.subrange(0, k as int);
            let prefix1 = obs.subrange(0, k + 1);
            assert(prefix1.drop_last() =~= prefix0);
            assert(prefix1.last() == obs[k as int]);
            if decided {
                assert(changed@ == changed0.push(obs[k as int].session_id));
                assert(prefix1.filter(dpred) == prefix0.filter(dpred).push(obs[k as int]));
                assert(strs_view(changed@) =~= strs_view(changed0).push(
                    obs[k as int].session_id@,
                ));
                assert(prefix1.filter(dpred).map_values(sid_of) =~= prefix0.filter(
                    dpred,
                ).map_values(sid_of).push(obs[k as int].session_id@));
            } else {
                assert(changed@ == changed0);
                assert(prefix1.filter(dpred) == prefix0.filter(dpred));
            }
            assert(strs_view(changed@) =~= prefix1.filter(dpred).map_values(sid_of));
            // Rows not targeted by this observation are untouched; the
            // targeted row now satisfies the recovered shape when the
            // decision fired.
            assert forall|i: int| 0 <= i < rows0.len() implies if spec_row_recovered(
                rows0,
                prefix1,
                now,
                in_grace,
                i,
            ) {
                status_set(
                    store.rows()[i],
                    rows0[i],
                    spec_transition(rows0[i].status, Event::HealthCheckRecovery),
                    now,
                )
            } else {
                store.rows()[i] == rows0[i]
            } by {
                if spec_row_recovered(rows0, prefix1, now, in_grace, i) {
                    let t = choose|t: int|
                        0 <= t < prefix1.len() && (#[trigger] prefix1[t]).session_id@
                            == rows0[i].session_id@ && spec_obs_decision(
                            rows0,
                            prefix1[t],
                            now,
                            in_grace,
                        );
                    if t < k as int {
                        assert(spec_row_recovered(rows0, prefix0, now, in_grace, i));
                    } else {
                        assert(prefix1[t] == obs[k as int]);
                        assert(decided);
                    }
                } else {
                    assert(!spec_row_recovered(rows0, prefix0, now, in_grace, i));
                }
            }
        }
        k += 1;
    }
    proof {
        assert(obs.subrange(0, obs.len() as int) =~= obs);
    }
    changed
}

} // verus!
