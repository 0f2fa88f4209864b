//! Batch generation of invitations.
//!
//! A generation request derives its count from the recipient list when one
//! is supplied, draws that many fresh identifiers, has every identifier
//! shortened, and assembles the drafts only when every shortening call came
//! back well: one failure fails the whole batch, so no caller ever observes
//! a partially shortened set. Assembly keeps positions: draft i carries the
//! i-th identifier and the i-th shortened URL, so a recipient list pairs by
//! position.

use vstd::prelude::*;
use crate::email::Email;
use crate::error::CustomError;
use crate::invitation::NewInvitation;
use crate::store::{has_appointment, has_invitation, row_of, Store};
use crate::uri::Uri;

verus! {

/// How many invitations one request mints: the recipient list decides when
/// it is there; otherwise the count parameter, clipped below at zero; one
/// invitation when nothing was asked.
pub open spec fn spec_derived_count(emails: Option<Seq<Email>>, count: Option<i32>) -> int {
    match emails {
        Some(list) => list.len() as int,
        None => match count {
            Some(c) => if c >= 0 { c as int } else { 0 },
            None => 1,
        },
    }
}

/// Derives the batch size from a request, the recipient list authoritative.
pub fn derive_count(emails: &Option<Vec<Email>>, count: Option<i32>) -> (k: usize)
    ensures
        k == spec_derived_count(
            match emails {
                Some(list) => Some(list@),
                None => None,
            },
            count,
        ),
{
    match emails {
        Some(list) => list.len(),
        None => match count {
            Some(c) => if c >= 0 {
                c as usize
            } else {
                0
            },
            None => 1,
        },
    }
}

/// Relies on `uuid::Uuid::new_v4`: a freshly drawn random 128-bit
/// identifier. Nothing is promised of the value.
#[verifier::external_body]
fn fresh_id() -> u128 {
    uuid::Uuid::new_v4().as_u128()
}

/// Draws one fresh identifier for each invitation the batch will hold.
pub fn fresh_ids(count: usize) -> (r: Vec<u128>)
    ensures
        r@.len() == count,
{
    let mut out: Vec<u128> = Vec::new();
    let mut i: usize = 0;
    while i < count
        invariant
            i <= count,
            out@.len() == i,
        decreases count - i,
    {
        out.push(fresh_id());
        i += 1;
    }
    out
}

/// Assembles the drafts from the indexed shortening answers, all or
/// nothing.
///
/// On full success the batch pairs the i-th identifier with the i-th
/// shortened URL, every draft referencing the one appointment; when the
/// identifiers are distinct and the shortened URLs are distinct, so are the
/// drafts'. One failed call fails the whole batch with the first failure's
/// error.
pub fn assemble_batch(
    appointment_id: u128,
    ids: &Vec<u128>,
    results: &Vec<Result<Uri, CustomError>>,
) -> (r: Result<Vec<NewInvitation>, CustomError>)
    requires
        ids@.len() == results@.len(),
    ensures
        r is Ok <==> (forall|i: int| 0 <= i < results@.len() ==> results@[i] is Ok),
        r is Ok ==> r->Ok_0@.len() == ids@.len(),
        r is Ok ==> forall|i: int| 0 <= i < ids@.len()
            ==> (#[trigger] r->Ok_0@[i]).id == ids@[i]
                && r->Ok_0@[i].appointment_id == appointment_id
                && r->Ok_0@[i].short_url == results@[i]->Ok_0,
        r is Ok && (forall|i: int, j: int| 0 <= i < j < ids@.len() ==> ids@[i] != ids@[j])
            ==> forall|i: int, j: int| 0 <= i < j < ids@.len()
                ==> r->Ok_0@[i].id != r->Ok_0@[j].id,
        r is Ok && (forall|i: int, j: int| 0 <= i < j < results@.len()
                ==> results@[i]->Ok_0@ != results@[j]->Ok_0@)
            ==> forall|i: int, j: int| 0 <= i < j < ids@.len()
                ==> r->Ok_0@[i].short_url@ != r->Ok_0@[j].short_url@,
        r is Err ==> exists|i: int| 0 <= i < results@.len()
            && (#[trigger] results@[i]) is Err
            && r->Err_0 == results@[i]->Err_0
            && (forall|j: int| 0 <= j < i ==> results@[j] is Ok),
{
    let count = ids.len();
    let mut batch: Vec<NewInvitation> = Vec::new();
    let mut i: usize = 0;
    while i < count
        invariant
            i <= count,
            count == ids@.len(),
            count == results@.len(),
            batch@.len() == i,
            forall|p: int| 0 <= p < i ==> results@[p] is Ok,
            forall|p: int| 0 <= p < i
                ==> (#[trigger] batch@[p]).id == ids@[p]
                    && batch@[p].appointment_id == appointment_id
                    && batch@[p].short_url == results@[p]->Ok_0,
        decreases count - i,
    {
        match &results[i] {
            Ok(short_url) => {
                batch.push(NewInvitation {
                    id: ids[i],
                    appointment_id,
                    short_url: short_url.clone(),
                });
            },
            Err(failure) => {
                return Err(failure.clone());
            },
        }
        i += 1;
    }
    Ok(batch)
}

/// One generation request against the store, after the shortening answers
/// arrived: assembles the batch and persists it in a single transaction.
///
/// If any shortening call failed, or the store refuses the batch, nothing
/// is persisted and the store reads exactly as before; on success the
/// returned drafts are the rows appended, in order.
pub fn add_invitation_core(
    store: &mut Store,
    appointment_id: u128,
    ids: &Vec<u128>,
    results: &Vec<Result<Uri, CustomError>>,
) -> (r: Result<Vec<NewInvitation>, CustomError>)
    requires
        old(store).wf(),
        ids@.len() == results@.len(),
    ensures
        final(store).wf(),
        final(store).appointments@ == old(store).appointments@,
        // one failed shortening call persists nothing
        (exists|i: int| 0 <= i < results@.len() && (#[trigger] results@[i]) is Err)
            ==> r is Err,
        r is Err ==> *final(store) == *old(store),
        r is Ok <==> ((forall|i: int| 0 <= i < results@.len() ==> results@[i] is Ok)
            && (forall|i: int, j: int| 0 <= i < j < ids@.len() ==> ids@[i] != ids@[j])
            && (forall|i: int| 0 <= i < ids@.len()
                ==> !has_invitation(old(store).invitations@, #[trigger] ids@[i]))
            && (ids@.len() > 0 ==> has_appointment(
                old(store).appointments@,
                appointment_id,
            ))),
        r is Ok ==> r->Ok_0@.len() == ids@.len(),
        r is Ok ==> forall|i: int| 0 <= i < ids@.len()
            ==> (#[trigger] r->Ok_0@[i]).id == ids@[i]
                && r->Ok_0@[i].appointment_id == appointment_id
                && r->Ok_0@[i].short_url == results@[i]->Ok_0,
        // the store's key makes the persisted ids unique unconditionally
        r is Ok ==> forall|i: int, j: int| 0 <= i < j < ids@.len()
            ==> r->Ok_0@[i].id != r->Ok_0@[j].id,
        r is Ok ==> final(store).invitations@ == old(store).invitations@
            + r->Ok_0@.map_values(|d: NewInvitation| row_of(d)),
{
    let batch = match assemble_batch(appointment_id, ids, results) {
        Ok(batch) => batch,
        Err(failure) => {
            return Err(failure);
        },
    };
    let mut drafts: Vec<NewInvitation> = Vec::new();
    let count = batch.len();
    let mut i: usize = 0;
    while i < count
        invariant
            i <= count,
            count == batch@.len(),
            drafts@ == batch@.take(i as int),
        decreases count - i,
    {
        drafts.push(batch[i].clone());
        proof {
            assert(drafts@ =~= batch@.take(i + 1));
        }
        i += 1;
    }
    proof {
        assert(batch@.take(count as int) =~= batch@);
    }
    let ghost dv = drafts@;
    let result = store.persist_batch(drafts);
    proof {
        assert(dv == batch@);
        assert forall|i: int| 0 <= i < dv.len() implies (#[trigger] dv[i]).id == ids@[i]
            && dv[i].appointment_id == appointment_id by {
            assert(batch@[i].id == ids@[i]);
        }
        assert((forall|i: int, j: int| 0 <= i < j < dv.len() ==> dv[i].id != dv[j].id)
            <==> (forall|i: int, j: int| 0 <= i < j < ids@.len() ==> ids@[i] != ids@[j])) by {
            if forall|i: int, j: int| 0 <= i < j < dv.len() ==> dv[i].id != dv[j].id {
                assert forall|i: int, j: int| 0 <= i < j < ids@.len() implies
                    ids@[i] != ids@[j] by {
                    assert(dv[i].id != dv[j].id);
                }
            }
            if forall|i: int, j: int| 0 <= i < j < ids@.len() ==> ids@[i] != ids@[j] {
                assert forall|i: int, j: int| 0 <= i < j < dv.len() implies
                    dv[i].id != dv[j].id by {
                    assert(ids@[i] != ids@[j]);
                }
            }
        }
        assert((forall|i: int| 0 <= i < dv.len()
                ==> !has_invitation(old(store).invitations@, #[trigger] dv[i].id))
            <==> (forall|i: int| 0 <= i < ids@.len()
                ==> !has_invitation(old(store).invitations@, #[trigger] ids@[i]))) by {
            if forall|i: int| 0 <= i < dv.len()
                ==> !has_invitation(old(store).invitations@, #[trigger] dv[i].id) {
                assert forall|i: int| 0 <= i < ids@.len() implies
                    !has_invitation(old(store).invitations@, #[trigger] ids@[i]) by {
                    assert(!has_invitation(old(store).invitations@, dv[i].id));
                }
            }
            if forall|i: int| 0 <= i < ids@.len()
                ==> !has_invitation(old(store).invitations@, #[trigger] ids@[i]) {
                assert forall|i: int| 0 <= i < dv.len() implies
                    !has_invitation(old(store).invitations@, #[trigger] dv[i].id) by {
                    assert(!has_invitation(old(store).invitations@, ids@[i]));
                }
            }
        }
        assert((forall|i: int| 0 <= i < dv.len()
                ==> has_appointment(old(store).appointments@, #[trigger] dv[i].appointment_id))
            <==> (ids@.len() > 0 ==> has_appointment(
                old(store).appointments@,
                appointment_id,
            ))) by {
            if forall|i: int| 0 <= i < dv.len()
                ==> has_appointment(old(store).appointments@, #[trigger] dv[i].appointment_id) {
                if ids@.len() > 0 {
                    assert(has_appointment(old(store).appointments@, dv[0].appointment_id));
                }
            }
            if ids@.len() > 0 ==> has_appointment(old(store).appointments@, appointment_id) {
                assert forall|i: int| 0 <= i < dv.len() implies has_appointment(
                    old(store).appointments@,
                    #[trigger] dv[i].appointment_id,
                ) by {
                    assert(dv[i].appointment_id == appointment_id);
                }
            }
        }
        if result is Ok {
            assert(final(store).invitations@ == old(store).invitations@
                + dv.map_values(|d: NewInvitation| row_of(d)));
        }
    }
    match result {
        Ok(()) => Ok(batch),
        Err(failure) => Err(failure),
    }
}

/// The dispatch list: the i-th recipient is mailed the i-th draft's short
/// URL, so position pairs survive the concurrent fan-out.
pub fn pair_recipients(emails: &Vec<Email>, batch: &Vec<NewInvitation>) -> (pairs: Vec<
    (Email, Uri),
>)
    requires
        emails@.len() == batch@.len(),
    ensures
        pairs@.len() == emails@.len(),
        forall|i: int| 0 <= i < emails@.len()
            ==> (#[trigger] pairs@[i]).0 == emails@[i] && pairs@[i].1 == batch@[i].short_url,
{
    let count = emails.len();
    let mut pairs: Vec<(Email, Uri)> = Vec::new();
    let mut i: usize = 0;
    while i < count
        invariant
            i <= count,
            count == emails@.len(),
            count == batch@.len(),
            pairs@.len() == i,
            forall|p: int| 0 <= p < i
                ==> (#[trigger] pairs@[p]).0 == emails@[p] && pairs@[p].1 == batch@[p].short_url,
        decreases count - i,
    {
        pairs.push((emails[i].clone(), batch[i].short_url.clone()));
        i += 1;
    }
    pairs
}

/// The ordering law: when an email list of length K drives the batch, the
/// URL mailed to the i-th address is the i-th shortening answer, the one
/// embedded in draft i.
pub proof fn lemma_email_pairing(
    emails: Seq<Email>,
    results: Seq<Result<Uri, CustomError>>,
    batch: Seq<NewInvitation>,
    pairs: Seq<(Email, Uri)>,
    i: int,
)
    requires
        emails.len() == results.len(),
        batch.len() == results.len(),
        pairs.len() == results.len(),
        forall|p: int| 0 <= p < batch.len()
            ==> (#[trigger] batch[p]).short_url == results[p]->Ok_0,
        forall|p: int| 0 <= p < pairs.len()
            ==> (#[trigger] pairs[p]).0 == emails[p] && pairs[p].1 == batch[p].short_url,
        0 <= i < emails.len(),
    ensures
        pairs[i].0 == emails[i],
        pairs[i].1 == results[i]->Ok_0,
{
}

} // verus!
