//! Invitations: single-use links to one appointment.
//!
//! An invitation is created in a batch next to its siblings, starts unused,
//! and its `used` flag only ever moves from false to true.

use vstd::prelude::*;
use crate::appointment::AppointmentFormat;
use crate::error::CustomError;
use crate::uri::{Uri, uri_acceptable};

verus! {

/// An invitation fresh out of a generation batch, before it is stored.
#[derive(Debug)]
pub struct NewInvitation {
    pub id: u128,
    pub appointment_id: u128,
    pub short_url: Uri,
}

impl Clone for NewInvitation {
    fn clone(&self) -> (r: Self)
        ensures
            r == *self,
    {
        NewInvitation {
            id: self.id,
            appointment_id: self.appointment_id,
            short_url: self.short_url.clone(),
        }
    }
}

/// A caller's request to edit an invitation's used flag, as raw text.
#[derive(Debug)]
pub struct EditInvitation {
    pub used: String,
}

/// An invitation row as the store keeps it: the short URL as bare text.
#[derive(Debug)]
pub struct DBInvitation {
    pub id: u128,
    pub appointment_id: u128,
    pub used: bool,
    pub short_url: String,
}

/// A stored invitation, the short URL re-validated.
#[derive(Debug)]
pub struct Invitation {
    pub id: u128,
    pub appointment_id: u128,
    pub used: bool,
    pub short_url: Uri,
}

impl Clone for Invitation {
    fn clone(&self) -> (r: Self)
        ensures
            r == *self,
    {
        Invitation {
            id: self.id,
            appointment_id: self.appointment_id,
            used: self.used,
            short_url: self.short_url.clone(),
        }
    }
}

impl Invitation {
    /// Rebuilds a stored row into an invitation; the row's short URL text
    /// must parse back into a URL.
    pub fn from_db(row: DBInvitation) -> (r: Result<Invitation, CustomError>)
        ensures
            r is Ok <==> uri_acceptable(row.short_url@),
            r is Ok ==> (r->Ok_0.id == row.id
                && r->Ok_0.appointment_id == row.appointment_id
                && r->Ok_0.used == row.used
                && r->Ok_0.short_url@ == row.short_url@),
            r is Err ==> r->Err_0 is ParseInputDataError,
    {
        match Uri::parse(row.short_url) {
            Ok(short_url) => Ok(Invitation {
                id: row.id,
                appointment_id: row.appointment_id,
                used: row.used,
                short_url,
            }),
            Err(_) => Err(CustomError::ParseInputDataError(
                String::from_str("the stored short URL is not a valid URI"),
            )),
        }
    }
}

/// The count a generation request asks for when it lists no recipients.
#[derive(Debug)]
pub struct InvitationParams {
    pub count: Option<i32>,
}

/// One invitation joined with the appointment it belongs to, as the
/// redemption read returns it.
#[derive(Debug)]
pub struct DBAppointmentWithInvitation {
    pub id: u128,
    pub appointment_id: u128,
    pub used: bool,
    pub short_url: String,
    pub format: AppointmentFormat,
    pub address: Option<String>,
    pub link: Option<String>,
    pub date: i64,
}

/// The joined redemption snapshot with its URLs re-validated.
#[derive(Debug)]
pub struct AppointmentWithInvitation {
    pub id: u128,
    pub appointment_id: u128,
    pub used: bool,
    pub short_url: Uri,
    pub format: AppointmentFormat,
    pub address: Option<String>,
    pub link: Option<Uri>,
    pub date: i64,
}

impl Clone for AppointmentWithInvitation {
    fn clone(&self) -> (r: Self)
        ensures
            r == *self,
    {
        AppointmentWithInvitation {
            id: self.id,
            appointment_id: self.appointment_id,
            used: self.used,
            short_url: self.short_url.clone(),
            format: self.format,
            address: match &self.address {
                Some(a) => Some(a.clone()),
                None => None,
            },
            link: match &self.link {
                Some(l) => Some(l.clone()),
                None => None,
            },
            date: self.date,
        }
    }
}

impl AppointmentWithInvitation {
    /// Rebuilds the joined row; both stored URL texts must parse back.
    pub fn from_db(row: DBAppointmentWithInvitation) -> (r: Result<
        AppointmentWithInvitation,
        CustomError,
    >)
        ensures
            r is Ok <==> (uri_acceptable(row.short_url@) && match row.link {
                Some(ref l) => uri_acceptable(l@),
                None => true,
            }),
            r is Ok ==> (r->Ok_0.id == row.id
                && r->Ok_0.appointment_id == row.appointment_id
                && r->Ok_0.used == row.used
                && r->Ok_0.short_url@ == row.short_url@
                && r->Ok_0.format == row.format
                && r->Ok_0.address == row.address
                && (match (r->Ok_0.link, row.link) {
                    (Some(u), Some(t)) => u@ == t@,
                    (None, None) => true,
                    _ => false,
                })
                && r->Ok_0.date == row.date),
            r is Err ==> r->Err_0 is ParseInputDataError,
    {
        let link = match row.link {
            None => None,
            Some(s) => match Uri::parse(s) {
                Ok(u) => Some(u),
                Err(_) => {
                    return Err(CustomError::ParseInputDataError(
                        String::from_str("the stored link is not a valid URI"),
                    ));
                },
            },
        };
        match Uri::parse(row.short_url) {
            Ok(short_url) => Ok(AppointmentWithInvitation {
                id: row.id,
                appointment_id: row.appointment_id,
                used: row.used,
                short_url,
                format: row.format,
                address: row.address,
                link,
                date: row.date,
            }),
            Err(_) => Err(CustomError::ParseInputDataError(
                String::from_str("the stored short URL is not a valid URI"),
            )),
        }
    }
}

} // verus!
