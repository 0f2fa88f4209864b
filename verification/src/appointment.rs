//! Appointments and the request shapes around them.
//!
//! An appointment is held either online (it must carry a meeting link and no
//! address) or offline (an address and no link); timestamps are microseconds
//! since the Unix epoch, UTC, and durations are whole seconds.

use vstd::prelude::*;
use crate::email::Email;
use crate::error::CustomError;
use crate::uri::{Uri, uri_acceptable};

verus! {

/// How an appointment is held.
#[derive(Clone, Copy, PartialEq, Eq, Structural, Debug)]
pub enum AppointmentFormat {
    ONLINE,
    OFFLINE,
}

/// Exactly one of address and link is populated, as the format dictates.
pub open spec fn placement_consistent(
    format: AppointmentFormat,
    address: Option<Seq<char>>,
    link: Option<Seq<char>>,
) -> bool {
    match format {
        AppointmentFormat::ONLINE => link is Some && address is None,
        AppointmentFormat::OFFLINE => address is Some && link is None,
    }
}

/// An appointment as a client asks for it, before it has an identity.
#[derive(Debug)]
pub struct NewAppointment {
    pub title: String,
    pub description: String,
    pub format: AppointmentFormat,
    pub address: Option<String>,
    pub link: Option<Uri>,
    /// Scheduled start, microseconds since the Unix epoch, UTC.
    pub date: i64,
    /// Duration in seconds.
    pub duration: u64,
}

impl NewAppointment {
    pub open spec fn wf(&self) -> bool {
        placement_consistent(
            self.format,
            match self.address {
                Some(ref a) => Some(a@),
                None => None,
            },
            match self.link {
                Some(ref l) => Some(l@),
                None => None,
            },
        )
    }

    /// Accepts the fields exactly when the format's one required field is
    /// populated and the other absent.
    pub fn checked(
        title: String,
        description: String,
        format: AppointmentFormat,
        address: Option<String>,
        link: Option<Uri>,
        date: i64,
        duration: u64,
    ) -> (r: Result<NewAppointment, CustomError>)
        ensures
            r is Ok <==> placement_consistent(
                format,
                match address {
                    Some(ref a) => Some(a@),
                    None => None,
                },
                match link {
                    Some(ref l) => Some(l@),
                    None => None,
                },
            ),
            r is Ok ==> r->Ok_0 == (NewAppointment {
                title, description, format, address, link, date, duration,
            }),
            r is Err ==> r->Err_0 is ParseInputDataError,
    {
        let consistent = match format {
            AppointmentFormat::ONLINE => link.is_some() && address.is_none(),
            AppointmentFormat::OFFLINE => address.is_some() && link.is_none(),
        };
        if consistent {
            Ok(NewAppointment { title, description, format, address, link, date, duration })
        } else {
            Err(CustomError::ParseInputDataError(
                String::from_str("the appointment format does not match its address and link"),
            ))
        }
    }
}

/// An appointment row as the store keeps it: the link as bare text.
#[derive(Debug)]
pub struct DBAppointment {
    pub id: u128,
    pub title: String,
    pub description: String,
    pub format: AppointmentFormat,
    pub address: Option<String>,
    pub link: Option<String>,
    pub date: i64,
    pub duration: i64,
}

/// A stored appointment with its identity, the link re-validated.
#[derive(Debug)]
pub struct Appointment {
    pub id: u128,
    pub title: String,
    pub description: String,
    pub format: AppointmentFormat,
    pub address: Option<String>,
    pub link: Option<Uri>,
    pub date: i64,
    pub duration: u64,
}

impl Clone for Appointment {
    fn clone(&self) -> (r: Self)
        ensures
            r == *self,
    {
        Appointment {
            id: self.id,
            title: self.title.clone(),
            description: self.description.clone(),
            format: self.format,
            address: match &self.address {
                Some(a) => Some(a.clone()),
                None => None,
            },
            link: match &self.link {
                Some(l) => Some(l.clone()),
                None => None,
            },
            date: self.date,
            duration: self.duration,
        }
    }
}

impl Appointment {
    pub open spec fn wf(&self) -> bool {
        placement_consistent(
            self.format,
            match self.address {
                Some(ref a) => Some(a@),
                None => None,
            },
            match self.link {
                Some(ref l) => Some(l@),
                None => None,
            },
        )
    }

    /// Rebuilds a stored row into an appointment. The row's link text must
    /// parse back into a URL, and a stored duration is never negative.
    pub fn from_db(row: DBAppointment) -> (r: Result<Appointment, CustomError>)
        ensures
            r is Ok <==> (match row.link {
                Some(ref l) => uri_acceptable(l@),
                None => true,
            } && row.duration >= 0),
            r is Ok ==> (r->Ok_0.id == row.id
                && r->Ok_0.title@ == row.title@
                && r->Ok_0.description@ == row.description@
                && r->Ok_0.format == row.format
                && r->Ok_0.address == row.address
                && (match (r->Ok_0.link, row.link) {
                    (Some(u), Some(t)) => u@ == t@,
                    (None, None) => true,
                    _ => false,
                })
                && r->Ok_0.date == row.date
                && r->Ok_0.duration == row.duration as u64),
            r is Err ==> r->Err_0 is ParseInputDataError,
    {
        let link = match row.link {
            None => None,
            Some(s) => match Uri::parse(s) {
                Ok(u) => Some(u),
                Err(_) => {
                    return Err(CustomError::ParseInputDataError(
                        String::from_str("the stored link is not a valid URI"),
                    ));
                },
            },
        };
        if row.duration < 0 {
            return Err(CustomError::ParseInputDataError(
                String::from_str("the stored duration is negative"),
            ));
        }
        Ok(Appointment {
            id: row.id,
            title: row.title,
            description: row.description,
            format: row.format,
            address: row.address,
            link,
            date: row.date,
            duration: row.duration as u64,
        })
    }
}

/// A deletion request: the ids of the appointments to remove.
#[derive(Debug)]
pub struct RemoveAppointment {
    pub id: Vec<u128>,
}

/// A request to mail one appointment's invitations out.
#[derive(Debug)]
pub struct SendAppointment {
    pub id: u128,
    pub email: Vec<Email>,
}

/// The optional recipient list attached to a generation request.
#[derive(Debug)]
pub struct SendAppointmentEmails {
    pub email: Option<Vec<Email>>,
}

/// Sorts a deletion request's ids and drops repeats: afterwards they are
/// strictly increasing and carry exactly the ids that came in.
pub fn normalize_ids(ids: Vec<u128>) -> (r: Vec<u128>)
    ensures
        forall|j: int, k: int| 0 <= j < k < r@.len() ==> r@[j] < r@[k],
        forall|i: int| 0 <= i < ids@.len() ==> r@.contains(#[trigger] ids@[i]),
        forall|j: int| 0 <= j < r@.len() ==> ids@.contains(#[trigger] r@[j]),
{
    let mut out: Vec<u128> = Vec::new();
    let mut i: usize = 0;
    while i < ids.len()
        invariant
            i <= ids@.len(),
            forall|j: int, k: int| 0 <= j < k < out@.len() ==> out@[j] < out@[k],
            forall|ii: int| 0 <= ii < i ==> out@.contains(#[trigger] ids@[ii]),
            forall|j: int| 0 <= j < out@.len() ==> ids@.contains(#[trigger] out@[j]),
        decreases ids@.len() - i,
    {
        let ghost prev = out@;
        let id = ids[i];
        let mut p: usize = 0;
        while p < out.len() && out[p] < id
            invariant
                p <= out@.len(),
                out@ == prev,
                forall|j: int| 0 <= j < p ==> out@[j] < id,
            decreases out@.len() - p,
        {
            p += 1;
        }
        if p == out.len() || out[p] > id {
            out.insert(p, id);
        }
        proof {
            if out@ != prev {
                assert(out@ == prev.insert(p as int, id));
                assert forall|j: int, k: int| 0 <= j < k < out@.len() implies out@[j] < out@[k] by {
                    if k < p {
                        assert(out@[j] == prev[j] && out@[k] == prev[k]);
                    } else if j > p {
                        assert(out@[j] == prev[j - 1] && out@[k] == prev[k - 1]);
                    } else if j < p && k == p {
                        assert(out@[j] == prev[j] && out@[k] == id);
                    } else if j < p && k > p {
                        assert(out@[j] == prev[j] && out@[k] == prev[k - 1]);
                        if k - 1 == p && p < prev.len() {
                            assert(id < prev[p as int]);
                        }
                    } else if j == p {
                        assert(out@[j] == id && out@[k] == prev[k - 1]);
                        if k - 1 == p {
                            assert(id < prev[p as int]);
                        }
                    }
                }
                assert(out@[p as int] == id);
            } else {
                assert(prev[p as int] == id);
            }
            assert(out@.contains(id));
            assert forall|ii: int| 0 <= ii < i + 1 implies out@.contains(#[trigger] ids@[ii]) by {
                if ii == i {
                    assert(out@.contains(id));
                } else if out@ != prev {
                    let w = choose|w: int| 0 <= w < prev.len() && prev[w] == ids@[ii];
                    if w < p {
                        assert(out@[w] == ids@[ii]);
                    } else {
                        assert(out@[w + 1] == ids@[ii]);
                    }
                }
            }
            assert forall|j: int| 0 <= j < out@.len() implies ids@.contains(#[trigger] out@[j]) by {
                if out@ != prev {
                    if j < p {
                        assert(out@[j] == prev[j]);
                    } else if j == p {
                        assert(out@[j] == ids@[i as int]);
                    } else {
                        assert(out@[j] == prev[j - 1]);
                    }
                }
            }
        }
        i += 1;
    }
    out
}

} // verus!
