//! The stored state: appointments and their invitations.
//!
//! The store models the two tables the system keeps, together with the
//! constraints the database enforces for them: ids are unique, every
//! invitation points at an existing appointment, and every stored
//! appointment carries the one field its format requires. Bulk insertion is
//! all-or-nothing, and marking an invitation used is a single conditional
//! update, so a concurrent second attempt finds the flag already set.

use vstd::prelude::*;
use crate::appointment::{Appointment, NewAppointment};
use crate::error::CustomError;
use crate::invitation::{AppointmentWithInvitation, Invitation, NewInvitation};

verus! {

/// Whether some appointment in `s` has the id.
pub open spec fn has_appointment(s: Seq<Appointment>, id: u128) -> bool {
    exists|j: int| 0 <= j < s.len() && s[j].id == id
}

/// The position of the appointment with the id.
pub open spec fn appointment_index(s: Seq<Appointment>, id: u128) -> int {
    choose|j: int| 0 <= j < s.len() && s[j].id == id
}

/// The appointment with the id.
pub open spec fn appointment_of(s: Seq<Appointment>, id: u128) -> Appointment {
    s[appointment_index(s, id)]
}

/// Whether some invitation in `s` has the id.
pub open spec fn has_invitation(s: Seq<Invitation>, id: u128) -> bool {
    exists|j: int| 0 <= j < s.len() && s[j].id == id
}

/// The position of the invitation with the id.
pub open spec fn invitation_index(s: Seq<Invitation>, id: u128) -> int {
    choose|j: int| 0 <= j < s.len() && s[j].id == id
}

/// The invitation with the id.
pub open spec fn invitation_of(s: Seq<Invitation>, id: u128) -> Invitation {
    s[invitation_index(s, id)]
}

/// The row an accepted draft settles into: it starts unused.
pub open spec fn row_of(draft: NewInvitation) -> Invitation {
    Invitation {
        id: draft.id,
        appointment_id: draft.appointment_id,
        used: false,
        short_url: draft.short_url,
    }
}

/// The snapshot the redemption read returns: the invitation joined with its
/// appointment.
pub open spec fn joined_of(invitation: Invitation, appointment: Appointment)
    -> AppointmentWithInvitation {
    AppointmentWithInvitation {
        id: invitation.id,
        appointment_id: invitation.appointment_id,
        used: invitation.used,
        short_url: invitation.short_url,
        format: appointment.format,
        address: appointment.address,
        link: appointment.link,
        date: appointment.date,
    }
}

/// The row a creation request settles into once the store assigns it an id.
pub open spec fn stored_appointment(request: NewAppointment, id: u128) -> Appointment {
    Appointment {
        id,
        title: request.title,
        description: request.description,
        format: request.format,
        address: request.address,
        link: request.link,
        date: request.date,
        duration: request.duration,
    }
}

/// The constraints the database enforces for the two tables: unique ids in
/// both, referential integrity from invitation to appointment, and each
/// appointment consistent with its format.
pub open spec fn tables_wf(appointments: Seq<Appointment>, invitations: Seq<Invitation>) -> bool {
    &&& forall|j: int, k: int|
        0 <= j < k < appointments.len() ==> appointments[j].id != appointments[k].id
    &&& forall|j: int, k: int|
        0 <= j < k < invitations.len() ==> invitations[j].id != invitations[k].id
    &&& forall|j: int|
        0 <= j < invitations.len()
            ==> has_appointment(appointments, #[trigger] invitations[j].appointment_id)
    &&& forall|j: int| 0 <= j < appointments.len() ==> (#[trigger] appointments[j]).wf()
}

/// The two tables.
#[derive(Debug)]
pub struct Store {
    pub appointments: Vec<Appointment>,
    pub invitations: Vec<Invitation>,
}

impl Store {
    /// The constraints the database enforces, over this store's tables.
    pub open spec fn wf(&self) -> bool {
        tables_wf(self.appointments@, self.invitations@)
    }

    /// An empty store.
    pub fn new() -> (r: Store)
        ensures
            r.wf(),
            r.appointments@.len() == 0,
            r.invitations@.len() == 0,
    {
        Store { appointments: Vec::new(), invitations: Vec::new() }
    }

    /// Reads one invitation by id; absence is an empty answer, not an error.
    pub fn find_invitation(&self, id: u128) -> (r: Option<Invitation>)
        requires
            self.wf(),
        ensures
            r is Some <==> has_invitation(self.invitations@, id),
            r is Some ==> r->0 == invitation_of(self.invitations@, id),
    {
        let n = self.invitations.len();
        let mut j: usize = 0;
        while j < n
            invariant
                j <= n,
                n == self.invitations@.len(),
                self.wf(),
                forall|k: int| 0 <= k < j ==> self.invitations@[k].id != id,
            decreases n - j,
        {
            if self.invitations[j].id == id {
                proof {
                    assert(has_invitation(self.invitations@, id));
                    let w = invitation_index(self.invitations@, id);
                    assert(0 <= w < self.invitations@.len() && self.invitations@[w].id == id);
                    if w != j {
                        assert(self.invitations@[w].id != self.invitations@[j as int].id);
                    }
                }
                return Some(self.invitations[j].clone());
            }
            j += 1;
        }
        None
    }

    /// Reads every stored invitation, or only those under one id when a
    /// filter is given, in stored order.
    pub fn find_invitations(&self, id: Option<u128>) -> (r: Vec<Invitation>)
        requires
            self.wf(),
        ensures
            match id {
                None => r@ == self.invitations@,
                Some(wanted) => r@ == self.invitations@.filter(
                    |v: Invitation| v.id == wanted,
                ),
            },
    {
        match id {
            None => {
                let mut out: Vec<Invitation> = Vec::new();
                let n = self.invitations.len();
                let mut j: usize = 0;
                while j < n
                    invariant
                        j <= n,
                        n == self.invitations@.len(),
                        out@ == self.invitations@.take(j as int),
                    decreases n - j,
                {
                    out.push(self.invitations[j].clone());
                    proof {
                        assert(out@ =~= self.invitations@.take(j + 1));
                    }
                    j += 1;
                }
                proof {
                    assert(self.invitations@.take(n as int) =~= self.invitations@);
                }
                out
            },
            Some(wanted) => {
                let mut out: Vec<Invitation> = Vec::new();
                let n = self.invitations.len();
                let mut j: usize = 0;
                while j < n
                    invariant
                        j <= n,
                        n == self.invitations@.len(),
                        out@ == self.invitations@.take(j as int).filter(
                            |v: Invitation| v.id == wanted,
                        ),
                    decreases n - j,
                {
                    proof {
                        assert(self.invitations@.take(j + 1).drop_last()
                            == self.invitations@.take(j as int));
                        assert(self.invitations@.take(j + 1).last()
                            == self.invitations@[j as int]);
                        reveal(Seq::filter);
                    }
                    if self.invitations[j].id == wanted {
                        out.push(self.invitations[j].clone());
                    }
                    j += 1;
                }
                proof {
                    assert(self.invitations@.take(n as int) =~= self.invitations@);
                }
                out
            },
        }
    }

    /// Reads every stored appointment, or only the one under the given id,
    /// in stored order.
    pub fn find_appointments(&self, id: Option<u128>) -> (r: Vec<Appointment>)
        requires
            self.wf(),
        ensures
            match id {
                None => r@ == self.appointments@,
                Some(wanted) => r@ == self.appointments@.filter(
                    |a: Appointment| a.id == wanted,
                ),
            },
    {
        match id {
            None => {
                let mut out: Vec<Appointment> = Vec::new();
                let n = self.appointments.len();
                let mut j: usize = 0;
                while j < n
                    invariant
                        j <= n,
                        n == self.appointments@.len(),
                        out@ == self.appointments@.take(j as int),
                    decreases n - j,
                {
                    out.push(self.appointments[j].clone());
                    proof {
                        assert(out@ =~= self.appointments@.take(j + 1));
                    }
                    j += 1;
                }
                proof {
                    assert(self.appointments@.take(n as int) =~= self.appointments@);
                }
                out
            },
            Some(wanted) => {
                let mut out: Vec<Appointment> = Vec::new();
                let n = self.appointments.len();
                let mut j: usize = 0;
                while j < n
                    invariant
                        j <= n,
                        n == self.appointments@.len(),
                        out@ == self.appointments@.take(j as int).filter(
                            |a: Appointment| a.id == wanted,
                        ),
                    decreases n - j,
                {
                    proof {
                        assert(self.appointments@.take(j + 1).drop_last()
                            == self.appointments@.take(j as int));
                        assert(self.appointments@.take(j + 1).last()
                            == self.appointments@[j as int]);
                        reveal(Seq::filter);
                    }
                    if self.appointments[j].id == wanted {
                        out.push(self.appointments[j].clone());
                    }
                    j += 1;
                }
                proof {
                    assert(self.appointments@.take(n as int) =~= self.appointments@);
                }
                out
            },
        }
    }

    /// Reads the invitations minted for one appointment, in stored order.
    pub fn find_for_appointment(&self, appointment_id: u128) -> (r: Vec<Invitation>)
        requires
            self.wf(),
        ensures
            r@ == self.invitations@.filter(|v: Invitation| v.appointment_id == appointment_id),
    {
        let mut out: Vec<Invitation> = Vec::new();
        let n = self.invitations.len();
        let mut j: usize = 0;
        while j < n
            invariant
                j <= n,
                n == self.invitations@.len(),
                out@ == self.invitations@.take(j as int).filter(
                    |v: Invitation| v.appointment_id == appointment_id,
                ),
            decreases n - j,
        {
            proof {
                assert(self.invitations@.take(j + 1).drop_last()
                    == self.invitations@.take(j as int));
                assert(self.invitations@.take(j + 1).last() == self.invitations@[j as int]);
                reveal(Seq::filter);
            }
            if self.invitations[j].appointment_id == appointment_id {
                out.push(self.invitations[j].clone());
            }
            j += 1;
        }
        proof {
            assert(self.invitations@.take(n as int) =~= self.invitations@);
        }
        out
    }

    /// The redemption read: one invitation joined with its appointment.
    pub fn find_joined(&self, invitation_id: u128) -> (r: Option<AppointmentWithInvitation>)
        requires
            self.wf(),
        ensures
            r is Some <==> has_invitation(self.invitations@, invitation_id),
            r is Some ==> r->0 == joined_of(
                invitation_of(self.invitations@, invitation_id),
                appointment_of(
                    self.appointments@,
                    invitation_of(self.invitations@, invitation_id).appointment_id,
                ),
            ),
    {
        let invitation = match self.find_invitation(invitation_id) {
            None => {
                return None;
            },
            Some(v) => v,
        };
        let n = self.appointments.len();
        let mut j: usize = 0;
        while j < n
            invariant
                j <= n,
                n == self.appointments@.len(),
                self.wf(),
                invitation == invitation_of(self.invitations@, invitation_id),
                has_invitation(self.invitations@, invitation_id),
                forall|k: int| 0 <= k < j ==> self.appointments@[k].id != invitation.appointment_id,
            decreases n - j,
        {
            if self.appointments[j].id == invitation.appointment_id {
                let appointment = &self.appointments[j];
                proof {
                    let w = appointment_index(self.appointments@, invitation.appointment_id);
                    assert(0 <= w < self.appointments@.len()
                        && self.appointments@[w].id == invitation.appointment_id);
                    if w != j {
                        assert(self.appointments@[w].id != self.appointments@[j as int].id);
                    }
                }
                return Some(AppointmentWithInvitation {
                    id: invitation.id,
                    appointment_id: invitation.appointment_id,
                    used: invitation.used,
                    short_url: invitation.short_url,
                    format: appointment.format,
                    address: match &appointment.address {
                        Some(a) => Some(a.clone()),
                        None => None,
                    },
                    link: match &appointment.link {
                        Some(l) => Some(l.clone()),
                        None => None,
                    },
                    date: appointment.date,
                });
            }
            j += 1;
        }
        proof {
            let w = invitation_index(self.invitations@, invitation_id);
            assert(has_appointment(self.appointments@, self.invitations@[w].appointment_id));
            let aw = appointment_index(self.appointments@, invitation.appointment_id);
            assert(0 <= aw < self.appointments@.len());
            assert(self.appointments@[aw].id != invitation.appointment_id);
        }
        unreached()
    }

    /// Whether an appointment row with the id exists.
    fn contains_appointment(&self, id: u128) -> (r: bool)
        ensures
            r == has_appointment(self.appointments@, id),
    {
        let n = self.appointments.len();
        let mut j: usize = 0;
        while j < n
            invariant
                j <= n,
                n == self.appointments@.len(),
                forall|k: int| 0 <= k < j ==> self.appointments@[k].id != id,
            decreases n - j,
        {
            if self.appointments[j].id == id {
                proof {
                    assert(has_appointment(self.appointments@, id));
                }
                return true;
            }
            j += 1;
        }
        false
    }

    /// Whether an invitation row with the id exists.
    fn contains_invitation(&self, id: u128) -> (r: bool)
        ensures
            r == has_invitation(self.invitations@, id),
    {
        let n = self.invitations.len();
        let mut j: usize = 0;
        while j < n
            invariant
                j <= n,
                n == self.invitations@.len(),
                forall|k: int| 0 <= k < j ==> self.invitations@[k].id != id,
            decreases n - j,
        {
            if self.invitations[j].id == id {
                proof {
                    assert(has_invitation(self.invitations@, id));
                }
                return true;
            }
            j += 1;
        }
        false
    }

    /// Inserts one appointment under a caller-supplied fresh id and answers
    /// with that id, as the insert's returning clause does. The row is
    /// refused when the id is taken or the fields are inconsistent with the
    /// format.
    pub fn add_appointment(&mut self, new_appointment: NewAppointment, id: u128) -> (r: Result<
        u128,
        CustomError,
    >)
        requires
            old(self).wf(),
        ensures
            final(self).wf(),
            r is Ok <==> (!has_appointment(old(self).appointments@, id) && new_appointment.wf()),
            r is Ok ==> r->Ok_0 == id
                && final(self).appointments@ == old(self).appointments@.push(
                    stored_appointment(new_appointment, id),
                )
                && final(self).invitations@ == old(self).invitations@,
            r is Err ==> *final(self) == *old(self)
                && (r->Err_0 is Duplicate || r->Err_0 is ParseInputDataError),
    {
        let consistent = match new_appointment.format {
            crate::appointment::AppointmentFormat::ONLINE =>
                new_appointment.link.is_some() && new_appointment.address.is_none(),
            crate::appointment::AppointmentFormat::OFFLINE =>
                new_appointment.address.is_some() && new_appointment.link.is_none(),
        };
        if !consistent {
            return Err(CustomError::ParseInputDataError(
                String::from_str("the appointment format does not match its address and link"),
            ));
        }
        if self.contains_appointment(id) {
            return Err(CustomError::Duplicate(
                String::from_str("an appointment with this id already exists"),
            ));
        }
        let ghost prev = self.appointments@;
        self.appointments.push(Appointment {
            id,
            title: new_appointment.title,
            description: new_appointment.description,
            format: new_appointment.format,
            address: new_appointment.address,
            link: new_appointment.link,
            date: new_appointment.date,
            duration: new_appointment.duration,
        });
        proof {
            assert forall|j: int, k: int| 0 <= j < k < self.appointments@.len() implies
                self.appointments@[j].id != self.appointments@[k].id by {
                if k == prev.len() {
                    assert(self.appointments@[j] == prev[j]);
                    assert(!has_appointment(prev, id));
                }
            }
            assert forall|j: int| 0 <= j < self.invitations@.len() implies has_appointment(
                self.appointments@,
                #[trigger] self.invitations@[j].appointment_id,
            ) by {
                let w = appointment_index(prev, self.invitations@[j].appointment_id);
                assert(has_appointment(prev, self.invitations@[j].appointment_id));
                assert(self.appointments@[w].id == self.invitations@[j].appointment_id);
            }
        }
        Ok(id)
    }

    /// Removes the appointment with the id, and with it every invitation
    /// that pointed there; answers whether a row was removed.
    pub fn delete_appointment(&mut self, id: u128) -> (r: bool)
        requires
            old(self).wf(),
        ensures
            final(self).wf(),
            r == has_appointment(old(self).appointments@, id),
            final(self).appointments@ == old(self).appointments@.filter(
                |a: Appointment| a.id != id,
            ),
            final(self).invitations@ == old(self).invitations@.filter(
                |v: Invitation| v.appointment_id != id,
            ),
    {
        let ghost old_appointments = self.appointments@;
        let ghost old_invitations = self.invitations@;
        let mut kept_appointments: Vec<Appointment> = Vec::new();
        let mut found = false;
        let n = self.appointments.len();
        let mut j: usize = 0;
        while j < n
            invariant
                j <= n,
                n == old_appointments.len(),
                self.appointments@ == old_appointments,
                kept_appointments@ == old_appointments.take(j as int).filter(
                    |a: Appointment| a.id != id,
                ),
                found == exists|k: int| 0 <= k < j && old_appointments[k].id == id,
                forall|p: int| 0 <= p < kept_appointments@.len() ==> exists|q: int|
                    0 <= q < j && old_appointments[q] == #[trigger] kept_appointments@[p],
                forall|p1: int, p2: int| 0 <= p1 < p2 < kept_appointments@.len()
                    ==> kept_appointments@[p1].id != kept_appointments@[p2].id,
                forall|q1: int, q2: int| 0 <= q1 < q2 < old_appointments.len()
                    ==> old_appointments[q1].id != old_appointments[q2].id,
            decreases n - j,
        {
            proof {
                assert(old_appointments.take(j + 1).drop_last() == old_appointments.take(j as int));
                assert(old_appointments.take(j + 1).last() == old_appointments[j as int]);
                reveal(Seq::filter);
            }
            let ghost prev_kept = kept_appointments@;
            if self.appointments[j].id == id {
                found = true;
            } else {
                kept_appointments.push(self.appointments[j].clone());
            }
            proof {
                assert forall|p: int| 0 <= p < kept_appointments@.len() implies exists|q: int|
                    0 <= q < j + 1 && old_appointments[q] == #[trigger] kept_appointments@[p] by {
                    if p < prev_kept.len() {
                        let q = choose|q: int| 0 <= q < j && old_appointments[q] == prev_kept[p];
                        assert(kept_appointments@[p] == prev_kept[p]);
                        assert(old_appointments[q] == kept_appointments@[p]);
                    } else {
                        assert(old_appointments[j as int] == kept_appointments@[p]);
                    }
                }
                assert forall|p1: int, p2: int| 0 <= p1 < p2 < kept_appointments@.len() implies
                    kept_appointments@[p1].id != kept_appointments@[p2].id by {
                    if p2 >= prev_kept.len() {
                        let q = choose|q: int| 0 <= q < j && old_appointments[q] == prev_kept[p1];
                        assert(kept_appointments@[p1] == prev_kept[p1]);
                        assert(kept_appointments@[p2] == old_appointments[j as int]);
                        assert(old_appointments[q].id != old_appointments[j as int].id);
                    }
                }
            }
            j += 1;
        }
        let mut kept_invitations: Vec<Invitation> = Vec::new();
        let m = self.invitations.len();
        let mut i: usize = 0;
        while i < m
            invariant
                i <= m,
                m == old_invitations.len(),
                self.invitations@ == old_invitations,
                kept_invitations@ == old_invitations.take(i as int).filter(
                    |v: Invitation| v.appointment_id != id,
                ),
                forall|p: int| 0 <= p < kept_invitations@.len() ==> exists|q: int|
                    0 <= q < i && old_invitations[q] == #[trigger] kept_invitations@[p],
                forall|p1: int, p2: int| 0 <= p1 < p2 < kept_invitations@.len()
                    ==> kept_invitations@[p1].id != kept_invitations@[p2].id,
                forall|q1: int, q2: int| 0 <= q1 < q2 < old_invitations.len()
                    ==> old_invitations[q1].id != old_invitations[q2].id,
            decreases m - i,
        {
            proof {
                assert(old_invitations.take(i + 1).drop_last() == old_invitations.take(i as int));
                assert(old_invitations.take(i + 1).last() == old_invitations[i as int]);
                reveal(Seq::filter);
            }
            let ghost prev_kept = kept_invitations@;
            if self.invitations[i].appointment_id != id {
                kept_invitations.push(self.invitations[i].clone());
            }
            proof {
                assert forall|p: int| 0 <= p < kept_invitations@.len() implies exists|q: int|
                    0 <= q < i + 1 && old_invitations[q] == #[trigger] kept_invitations@[p] by {
                    if p < prev_kept.len() {
                        let q = choose|q: int| 0 <= q < i && old_invitations[q] == prev_kept[p];
                        assert(kept_invitations@[p] == prev_kept[p]);
                        assert(old_invitations[q] == kept_invitations@[p]);
                    } else {
                        assert(old_invitations[i as int] == kept_invitations@[p]);
                    }
                }
                assert forall|p1: int, p2: int| 0 <= p1 < p2 < kept_invitations@.len() implies
                    kept_invitations@[p1].id != kept_invitations@[p2].id by {
                    if p2 >= prev_kept.len() {
                        let q = choose|q: int| 0 <= q < i && old_invitations[q] == prev_kept[p1];
                        assert(kept_invitations@[p1] == prev_kept[p1]);
                        assert(kept_invitations@[p2] == old_invitations[i as int]);
                        assert(old_invitations[q].id != old_invitations[i as int].id);
                    }
                }
            }
            i += 1;
        }
        proof {
            assert(old_appointments.take(n as int) == old_appointments);
            assert(old_invitations.take(m as int) == old_invitations);
        }
        self.appointments = kept_appointments;
        self.invitations = kept_invitations;
        proof {
            let appts = self.appointments@;
            let invs = self.invitations@;
            assert forall|j1: int| 0 <= j1 < invs.len() implies has_appointment(
                appts,
                #[trigger] invs[j1].appointment_id,
            ) by {
                let q = choose|q: int| 0 <= q < m && old_invitations[q] == invs[j1];
                assert(old_invitations[q] == invs[j1]);
                assert(has_appointment(old_appointments, old_invitations[q].appointment_id));
                let qa = appointment_index(old_appointments, invs[j1].appointment_id);
                assert(old_appointments[qa].id == invs[j1].appointment_id);
                assert(invs[j1].appointment_id != id);
                old_appointments.lemma_filter_contains(|a: Appointment| a.id != id, qa);
                assert(appts.contains(old_appointments[qa]));
                let pw = choose|pw: int| 0 <= pw < appts.len() && appts[pw]
                    == old_appointments[qa];
                assert(appts[pw].id == invs[j1].appointment_id);
            }
            assert forall|j1: int| 0 <= j1 < appts.len() implies
                (#[trigger] appts[j1]).wf() by {
                let q = choose|q: int| 0 <= q < n && old_appointments[q] == appts[j1];
                assert(old_appointments[q].wf());
            }
        }
        found
    }

    /// The single conditional update redemption relies on: sets `used` to
    /// true exactly when the invitation exists and is still unused, and
    /// answers whether a row changed. A second attempt on the same
    /// invitation therefore always answers false.
    pub fn mark_used(&mut self, id: u128) -> (updated: bool)
        requires
            old(self).wf(),
        ensures
            final(self).wf(),
            updated == (has_invitation(old(self).invitations@, id)
                && !invitation_of(old(self).invitations@, id).used),
            !updated ==> *final(self) == *old(self),
            updated ==> final(self).invitations@ == old(self).invitations@.update(
                invitation_index(old(self).invitations@, id),
                Invitation {
                    id: invitation_of(old(self).invitations@, id).id,
                    appointment_id: invitation_of(old(self).invitations@, id).appointment_id,
                    used: true,
                    short_url: invitation_of(old(self).invitations@, id).short_url,
                },
            ),
            final(self).appointments@ == old(self).appointments@,
    {
        let ghost old_invitations = self.invitations@;
        let n = self.invitations.len();
        let mut j: usize = 0;
        while j < n
            invariant
                j <= n,
                n == old_invitations.len(),
                old_invitations == self.invitations@,
                *self == *old(self),
                self.wf(),
                forall|k: int| 0 <= k < j ==> old_invitations[k].id != id,
            decreases n - j,
        {
            if self.invitations[j].id == id {
                proof {
                    assert(has_invitation(old_invitations, id));
                    let w = invitation_index(old_invitations, id);
                    assert(0 <= w < old_invitations.len() && old_invitations[w].id == id);
                    if w != j {
                        assert(old_invitations[w].id != old_invitations[j as int].id);
                    }
                }
                if self.invitations[j].used {
                    return false;
                }
                self.invitations[j].used = true;
                proof {
                    let invs = self.invitations@;
                    assert forall|p: int, q: int| 0 <= p < q < invs.len() implies
                        invs[p].id != invs[q].id by {
                        assert(invs[p].id == old_invitations[p].id);
                        assert(invs[q].id == old_invitations[q].id);
                    }
                    assert forall|p: int| 0 <= p < invs.len() implies has_appointment(
                        self.appointments@,
                        #[trigger] invs[p].appointment_id,
                    ) by {
                        assert(invs[p].appointment_id == old_invitations[p].appointment_id);
                        assert(has_appointment(
                            self.appointments@,
                            old_invitations[p].appointment_id,
                        ));
                    }
                }
                return true;
            }
            j += 1;
        }
        false
    }

    /// Persists one generated batch in a single transaction: either every
    /// draft settles into an unused row appended in order, or the store is
    /// left untouched. The batch is refused when a draft's id repeats or is
    /// already taken, and when a draft points at no stored appointment.
    pub fn persist_batch(&mut self, drafts: Vec<NewInvitation>) -> (r: Result<(), CustomError>)
        requires
            old(self).wf(),
        ensures
            final(self).wf(),
            r is Ok <==> ((forall|i: int, j: int| 0 <= i < j < drafts@.len()
                    ==> drafts@[i].id != drafts@[j].id)
                && (forall|i: int| 0 <= i < drafts@.len()
                    ==> !has_invitation(old(self).invitations@, #[trigger] drafts@[i].id))
                && (forall|i: int| 0 <= i < drafts@.len()
                    ==> has_appointment(
                        old(self).appointments@,
                        #[trigger] drafts@[i].appointment_id,
                    ))),
            r is Ok ==> final(self).invitations@ == old(self).invitations@
                + drafts@.map_values(|d: NewInvitation| row_of(d)),
            r is Err ==> *final(self) == *old(self)
                && (r->Err_0 is Duplicate || r->Err_0 is Storage),
            r is Err && r->Err_0 is Duplicate ==> ((exists|i: int, j: int|
                0 <= i < j < drafts@.len() && drafts@[i].id == drafts@[j].id)
                || (exists|i: int| 0 <= i < drafts@.len()
                    && has_invitation(old(self).invitations@, #[trigger] drafts@[i].id))),
            r is Err && r->Err_0 is Storage ==> exists|i: int| 0 <= i < drafts@.len()
                && !has_appointment(old(self).appointments@, #[trigger] drafts@[i].appointment_id),
            final(self).appointments@ == old(self).appointments@,
    {
        let count = drafts.len();
        let mut i: usize = 0;
        while i < count
            invariant
                i <= count,
                count == drafts@.len(),
                *self == *old(self),
                self.wf(),
                forall|p: int, q: int| 0 <= p < q < i ==> drafts@[p].id != drafts@[q].id,
                forall|p: int| 0 <= p < i
                    ==> !has_invitation(self.invitations@, #[trigger] drafts@[p].id),
                forall|p: int| 0 <= p < i
                    ==> has_appointment(self.appointments@, #[trigger] drafts@[p].appointment_id),
            decreases count - i,
        {
            let draft_id = drafts[i].id;
            let mut p: usize = 0;
            while p < i
                invariant
                    p <= i,
                    i < count,
                    count == drafts@.len(),
                    *self == *old(self),
                    self.wf(),
                    draft_id == drafts@[i as int].id,
                    forall|q: int| 0 <= q < p ==> drafts@[q].id != draft_id,
                decreases i - p,
            {
                if drafts[p].id == draft_id {
                    proof {
                        assert(drafts@[p as int].id == drafts@[i as int].id);
                    }
                    return Err(CustomError::Duplicate(
                        String::from_str("an invitation id repeats inside the batch"),
                    ));
                }
                p += 1;
            }
            if self.contains_invitation(draft_id) {
                return Err(CustomError::Duplicate(
                    String::from_str("an invitation with this id already exists"),
                ));
            }
            if !self.contains_appointment(drafts[i].appointment_id) {
                return Err(CustomError::Storage(
                    String::from_str("an invitation points at no stored appointment"),
                ));
            }
            proof {
                assert(drafts@[i as int].id == draft_id);
            }
            i += 1;
        }
        let ghost old_invitations = self.invitations@;
        let ghost rows = drafts@.map_values(|d: NewInvitation| row_of(d));
        let mut k: usize = 0;
        while k < count
            invariant
                k <= count,
                count == drafts@.len(),
                rows == drafts@.map_values(|d: NewInvitation| row_of(d)),
                old_invitations == old(self).invitations@,
                self.appointments@ == old(self).appointments@,
                self.invitations@ == old_invitations + rows.take(k as int),
                old(self).wf(),
                forall|p: int, q: int| 0 <= p < q < count ==> drafts@[p].id != drafts@[q].id,
                forall|p: int| 0 <= p < count
                    ==> !has_invitation(old_invitations, #[trigger] drafts@[p].id),
                forall|p: int| 0 <= p < count
                    ==> has_appointment(
                        old(self).appointments@,
                        #[trigger] drafts@[p].appointment_id,
                    ),
            decreases count - k,
        {
            let draft = drafts[k].clone();
            self.invitations.push(Invitation {
                id: draft.id,
                appointment_id: draft.appointment_id,
                used: false,
                short_url: draft.short_url,
            });
            proof {
                assert(rows[k as int] == row_of(drafts@[k as int]));
                assert(self.invitations@ =~= old_invitations + rows.take(k + 1));
            }
            k += 1;
        }
        proof {
            assert(rows.take(count as int) =~= rows);
            let invs = self.invitations@;
            let lo = old_invitations.len() as int;
            assert forall|p: int, q: int| 0 <= p < q < invs.len() implies
                invs[p].id != invs[q].id by {
                if p >= lo && q >= lo {
                    assert(invs[p].id == drafts@[p - lo].id);
                    assert(invs[q].id == drafts@[q - lo].id);
                } else if p < lo && q >= lo {
                    assert(invs[q].id == drafts@[q - lo].id);
                    assert(!has_invitation(old_invitations, drafts@[q - lo].id));
                    assert(invs[p] == old_invitations[p]);
                }
            }
            assert forall|p: int| 0 <= p < invs.len() implies has_appointment(
                self.appointments@,
                #[trigger] invs[p].appointment_id,
            ) by {
                if p < lo {
                    assert(invs[p] == old_invitations[p]);
                    assert(has_appointment(self.appointments@, old_invitations[p].appointment_id));
                } else {
                    assert(invs[p].appointment_id == drafts@[p - lo].appointment_id);
                    assert(has_appointment(self.appointments@, drafts@[p - lo].appointment_id));
                }
            }
        }
        Ok(())
    }
}

/// The round trip: persisting a batch and then fetching one of its drafts
/// by id finds exactly that draft's row — the same id, the same
/// appointment, the same short URL, and the flag still unused.
pub proof fn lemma_round_trip(invitations: Seq<Invitation>, drafts: Seq<NewInvitation>, i: int)
    requires
        forall|p: int, q: int| 0 <= p < q < invitations.len()
            ==> invitations[p].id != invitations[q].id,
        forall|p: int, q: int| 0 <= p < q < drafts.len() ==> drafts[p].id != drafts[q].id,
        forall|p: int| 0 <= p < drafts.len()
            ==> !has_invitation(invitations, #[trigger] drafts[p].id),
        0 <= i < drafts.len(),
    ensures
        has_invitation(
            invitations + drafts.map_values(|d: NewInvitation| row_of(d)),
            drafts[i].id,
        ),
        ({
            let fetched = invitation_of(
                invitations + drafts.map_values(|d: NewInvitation| row_of(d)),
                drafts[i].id,
            );
            fetched.id == drafts[i].id
                && fetched.appointment_id == drafts[i].appointment_id
                && fetched.used == false
                && fetched.short_url == drafts[i].short_url
        }),
{
    let rows = drafts.map_values(|d: NewInvitation| row_of(d));
    let all = invitations + rows;
    let lo = invitations.len() as int;
    assert(all[lo + i] == row_of(drafts[i]));
    assert(all[lo + i].id == drafts[i].id);
    assert(has_invitation(all, drafts[i].id));
    let w = invitation_index(all, drafts[i].id);
    assert(0 <= w < all.len() && all[w].id == drafts[i].id);
    if w < lo {
        assert(all[w] == invitations[w]);
        assert(has_invitation(invitations, drafts[i].id));
    } else if w != lo + i {
        assert(all[w] == row_of(drafts[w - lo]));
        assert(drafts[w - lo].id == drafts[i].id);
    }
    assert(invitation_of(all, drafts[i].id) == row_of(drafts[i]));
}

} // verus!
