//! The redemption state machine.
//!
//! A redemption attempt at wall-clock time `now` loads the invitation joined
//! with its appointment and decides: unknown id, already used, or an
//! appointment older than midnight UTC of the previous calendar day are
//! rejected; otherwise the attempt is accepted, the invitation is marked
//! used in the same step, and the caller is answered with the meeting link
//! (online) or the joined snapshot (offline). Because accepting and marking
//! happen as one conditional update, of two attempts on the same invitation
//! only the first can be accepted.

use vstd::prelude::*;
use vstd::arithmetic::div_mod::{
    lemma_fundamental_div_mod, lemma_fundamental_div_mod_converse,
};
use crate::appointment::{Appointment, AppointmentFormat};
use crate::error::CustomError;
use crate::invitation::{AppointmentWithInvitation, Invitation};
use crate::store::{
    appointment_of, has_invitation, invitation_index, invitation_of, joined_of, tables_wf, Store,
};
use crate::uri::Uri;

verus! {

/// Why an attempt was turned away.
#[derive(Clone, Copy, PartialEq, Eq, Structural, Debug)]
pub enum RejectionReason {
    /// No invitation under the id.
    NotFound,
    /// The invitation was redeemed before.
    AlreadyUsed,
    /// The appointment lies before the redemption window.
    Outdated,
}

/// What a redemption attempt decides, computed fresh on every call.
#[derive(Debug)]
pub enum RedemptionOutcome {
    /// Accepted, online: send the caller to the meeting link.
    Redirect(Uri),
    /// Accepted, offline: show the joined snapshot as it was read.
    Display(AppointmentWithInvitation),
    /// Turned away; nothing changed.
    Rejected(RejectionReason),
}

pub const MICROS_PER_DAY: i64 = 86_400_000_000;

/// Midnight UTC of the calendar day before the one `now` falls in.
pub open spec fn yesterday_midnight(now: int) -> int {
    (now / (MICROS_PER_DAY as int)) * (MICROS_PER_DAY as int) - MICROS_PER_DAY as int
}

/// An appointment this old is no longer redeemable: invitations stay good
/// through the whole day after the appointment's date.
pub open spec fn outdated(date: int, now: int) -> bool {
    date < yesterday_midnight(now)
}

/// Whether the attempt is accepted: the invitation exists, is unused, and
/// its appointment is still within the redemption window.
pub open spec fn accepts(
    appointments: Seq<Appointment>,
    invitations: Seq<Invitation>,
    id: u128,
    now: int,
) -> bool {
    &&& has_invitation(invitations, id)
    &&& !invitation_of(invitations, id).used
    &&& !outdated(
        appointment_of(appointments, invitation_of(invitations, id).appointment_id).date as int,
        now,
    )
}

/// What the attempt answers.
pub open spec fn spec_outcome(
    appointments: Seq<Appointment>,
    invitations: Seq<Invitation>,
    id: u128,
    now: int,
) -> RedemptionOutcome {
    if !has_invitation(invitations, id) {
        RedemptionOutcome::Rejected(RejectionReason::NotFound)
    } else {
        let invitation = invitation_of(invitations, id);
        let appointment = appointment_of(appointments, invitation.appointment_id);
        if invitation.used {
            RedemptionOutcome::Rejected(RejectionReason::AlreadyUsed)
        } else if outdated(appointment.date as int, now) {
            RedemptionOutcome::Rejected(RejectionReason::Outdated)
        } else {
            match appointment.format {
                AppointmentFormat::ONLINE => RedemptionOutcome::Redirect(appointment.link->0),
                AppointmentFormat::OFFLINE => RedemptionOutcome::Display(
                    joined_of(invitation, appointment),
                ),
            }
        }
    }
}

/// What the invitation table holds after the attempt: unchanged on a
/// rejection, the one invitation flipped to used on an acceptance.
pub open spec fn spec_redeemed(
    appointments: Seq<Appointment>,
    invitations: Seq<Invitation>,
    id: u128,
    now: int,
) -> Seq<Invitation> {
    if accepts(appointments, invitations, id, now) {
        invitations.update(
            invitation_index(invitations, id),
            Invitation {
                id: invitation_of(invitations, id).id,
                appointment_id: invitation_of(invitations, id).appointment_id,
                used: true,
                short_url: invitation_of(invitations, id).short_url,
            },
        )
    } else {
        invitations
    }
}

/// Midnight UTC of the previous calendar day, as a value.
pub fn compute_yesterday_midnight(now: i64) -> (ym: i128)
    ensures
        ym == yesterday_midnight(now as int),
{
    let day: i128 = MICROS_PER_DAY as i128;
    let n: i128 = now as i128;
    let q: i128;
    let r: i128;
    if n >= 0 {
        q = n / day;
        r = n % day;
        proof {
            lemma_fundamental_div_mod(n as int, day as int);
        }
    } else {
        let m = -n;
        let qm = m / day;
        let rm = m % day;
        proof {
            lemma_fundamental_div_mod(m as int, day as int);
        }
        if rm == 0 {
            q = -qm;
            r = 0;
        } else {
            q = -qm - 1;
            r = day - rm;
        }
    }
    proof {
        assert(day as int * (q as int) + r as int == n as int);
        lemma_fundamental_div_mod_converse(n as int, day as int, q as int, r as int);
        assert(q as int == n as int / day as int);
    }
    q * day - day
}

/// One redemption attempt at time `now` (microseconds since the Unix epoch,
/// UTC). The answer and the new stored state are exactly the state machine's.
pub fn redeem(store: &mut Store, id: u128, now: i64) -> (outcome: RedemptionOutcome)
    requires
        old(store).wf(),
    ensures
        final(store).wf(),
        outcome == spec_outcome(old(store).appointments@, old(store).invitations@, id, now as int),
        final(store).invitations@ == spec_redeemed(
            old(store).appointments@,
            old(store).invitations@,
            id,
            now as int,
        ),
        final(store).appointments@ == old(store).appointments@,
{
    let joined = match store.find_joined(id) {
        None => {
            return RedemptionOutcome::Rejected(RejectionReason::NotFound);
        },
        Some(j) => j,
    };
    if joined.used {
        return RedemptionOutcome::Rejected(RejectionReason::AlreadyUsed);
    }
    let ym = compute_yesterday_midnight(now);
    if (joined.date as i128) < ym {
        return RedemptionOutcome::Rejected(RejectionReason::Outdated);
    }
    let updated = store.mark_used(id);
    proof {
        assert(updated);
    }
    match joined.format {
        AppointmentFormat::ONLINE => {
            match joined.link {
                Some(link) => RedemptionOutcome::Redirect(link),
                None => {
                    proof {
                        let invitation = invitation_of(old(store).invitations@, id);
                        let w = invitation_index(old(store).invitations@, id);
                        assert(old(store).invitations@[w].appointment_id
                            == invitation.appointment_id);
                        let appointment = appointment_of(
                            old(store).appointments@,
                            invitation.appointment_id,
                        );
                        assert(appointment.wf());
                    }
                    unreached()
                },
            }
        },
        AppointmentFormat::OFFLINE => RedemptionOutcome::Display(joined),
    }
}

/// Relies on `chrono::Utc::now` and its microsecond timestamp: the current
/// wall-clock time. Nothing is promised of the value.
#[verifier::external_body]
fn now_micros() -> i64 {
    chrono::Utc::now().timestamp_micros()
}

/// One redemption attempt at the current wall-clock time. Whatever the
/// clock reads, the answer and the new state are the state machine's for
/// that one reading; an unknown id is always turned away as not found, a
/// used invitation always as already used, and neither changes anything.
pub fn redeem_now(store: &mut Store, id: u128) -> (outcome: RedemptionOutcome)
    requires
        old(store).wf(),
    ensures
        final(store).wf(),
        final(store).appointments@ == old(store).appointments@,
        exists|now: int|
            #![all_triggers]
            outcome == spec_outcome(old(store).appointments@, old(store).invitations@, id, now)
                && final(store).invitations@ == spec_redeemed(
                old(store).appointments@,
                old(store).invitations@,
                id,
                now,
            ),
        !has_invitation(old(store).invitations@, id) ==> outcome
            == RedemptionOutcome::Rejected(RejectionReason::NotFound)
            && final(store).invitations@ == old(store).invitations@,
        has_invitation(old(store).invitations@, id)
            && invitation_of(old(store).invitations@, id).used ==> outcome
            == RedemptionOutcome::Rejected(RejectionReason::AlreadyUsed)
            && final(store).invitations@ == old(store).invitations@,
{
    let now = now_micros();
    redeem(store, id, now)
}

/// The error a rejected attempt answers with: unknown ids are not found,
/// the rest forbidden, worded as the endpoint words them.
pub fn rejection_error(reason: RejectionReason) -> (r: CustomError)
    ensures
        reason is NotFound ==> r is NotFound,
        reason is AlreadyUsed ==> r is Forbidden
            && r->Forbidden_0@ == "invitation has already been used"@,
        reason is Outdated ==> r is Forbidden
            && r->Forbidden_0@ == "The invitation date is outdated."@,
{
    match reason {
        RejectionReason::NotFound => CustomError::NotFound(
            String::from_str("no invitation under this id"),
        ),
        RejectionReason::AlreadyUsed => CustomError::Forbidden(
            String::from_str("invitation has already been used"),
        ),
        RejectionReason::Outdated => CustomError::Forbidden(
            String::from_str("The invitation date is outdated."),
        ),
    }
}

/// Rejection is idempotent: an attempt on an already-used invitation is
/// always turned away as already used and changes nothing, whatever the
/// clock says; it is never answered with a redirect or a snapshot.
pub proof fn lemma_rejection_idempotent(
    appointments: Seq<Appointment>,
    invitations: Seq<Invitation>,
    id: u128,
    now: int,
)
    requires
        has_invitation(invitations, id),
        invitation_of(invitations, id).used,
    ensures
        spec_outcome(appointments, invitations, id, now)
            == RedemptionOutcome::Rejected(RejectionReason::AlreadyUsed),
        spec_redeemed(appointments, invitations, id, now) == invitations,
{
}

/// The redemption race: of two attempts on the same unused, in-window
/// invitation, the first is accepted and flips the stored flag, and the
/// second is turned away as already used; the flag ends true.
pub proof fn lemma_redemption_race(
    appointments: Seq<Appointment>,
    invitations: Seq<Invitation>,
    id: u128,
    now1: int,
    now2: int,
)
    requires
        tables_wf(appointments, invitations),
        accepts(appointments, invitations, id, now1),
    ensures
        (spec_outcome(appointments, invitations, id, now1) is Redirect
            || spec_outcome(appointments, invitations, id, now1) is Display),
        spec_outcome(
            appointments,
            spec_redeemed(appointments, invitations, id, now1),
            id,
            now2,
        ) == RedemptionOutcome::Rejected(RejectionReason::AlreadyUsed),
        has_invitation(spec_redeemed(appointments, invitations, id, now1), id),
        invitation_of(spec_redeemed(appointments, invitations, id, now1), id).used,
        spec_redeemed(
            appointments,
            spec_redeemed(appointments, invitations, id, now1),
            id,
            now2,
        ) == spec_redeemed(appointments, invitations, id, now1),
{
    let after = spec_redeemed(appointments, invitations, id, now1);
    let w = invitation_index(invitations, id);
    assert(0 <= w < invitations.len() && invitations[w].id == id);
    assert(after[w].id == id);
    assert(has_invitation(after, id));
    let w2 = invitation_index(after, id);
    assert(0 <= w2 < after.len() && after[w2].id == id);
    if w2 != w {
        assert(after[w2] == invitations[w2]);
        assert(invitations[w2].id != invitations[w].id);
    }
    assert(invitation_of(after, id).used);
}

/// The used flag is monotone: no attempt, accepted or rejected, ever turns
/// a used invitation back into an unused one.
pub proof fn lemma_used_is_monotone(
    appointments: Seq<Appointment>,
    invitations: Seq<Invitation>,
    id: u128,
    now: int,
    j: int,
)
    requires
        0 <= j < invitations.len(),
        invitations[j].used,
    ensures
        spec_redeemed(appointments, invitations, id, now).len() == invitations.len(),
        spec_redeemed(appointments, invitations, id, now)[j].used,
{
    if accepts(appointments, invitations, id, now) {
        let w = invitation_index(invitations, id);
        assert(0 <= w < invitations.len() && invitations[w].id == id);
        if w == j {
            assert(!invitations[j].used);
        }
    }
}

/// The boundary of the redemption window is inclusive: an appointment dated
/// exactly at midnight UTC of the previous day is still accepted.
pub proof fn lemma_time_boundary_inclusive(
    appointments: Seq<Appointment>,
    invitations: Seq<Invitation>,
    id: u128,
    now: int,
)
    requires
        has_invitation(invitations, id),
        !invitation_of(invitations, id).used,
        appointment_of(appointments, invitation_of(invitations, id).appointment_id).date as int
            == yesterday_midnight(now),
    ensures
        accepts(appointments, invitations, id, now),
        (spec_outcome(appointments, invitations, id, now) is Redirect
            || spec_outcome(appointments, invitations, id, now) is Display),
{
}

/// One microsecond before that midnight the appointment is outdated and the
/// attempt is rejected without a state change.
pub proof fn lemma_time_boundary_exceeded(
    appointments: Seq<Appointment>,
    invitations: Seq<Invitation>,
    id: u128,
    now: int,
)
    requires
        has_invitation(invitations, id),
        !invitation_of(invitations, id).used,
        appointment_of(appointments, invitation_of(invitations, id).appointment_id).date as int
            == yesterday_midnight(now) - 1,
    ensures
        spec_outcome(appointments, invitations, id, now)
            == RedemptionOutcome::Rejected(RejectionReason::Outdated),
        spec_redeemed(appointments, invitations, id, now) == invitations,
{
}

} // verus!
