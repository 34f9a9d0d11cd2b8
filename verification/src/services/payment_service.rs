//! Payments: opening, confirming, and listing by user.

use crate::models::payment::{NewPayment, Payment, PaymentStatus};
use crate::providers::{fresh_uuid, is_v4_uuid};
use crate::state::AppState;
use crate::utils::error::{AppError, ErrorKind};
use vstd::prelude::*;
use vstd::string::StringExecFns;

verus! {

/// The record that a payload opens under the id `id`: it is `Pending`.
pub open spec fn opened_payment(id: u128, payload: NewPayment) -> Payment {
    Payment {
        id,
        user_id: payload.user_id,
        course_id: payload.course_id,
        amount_bits: payload.amount_bits,
        status: PaymentStatus::Pending,
    }
}

/// Some payment in the list has this id.
pub open spec fn has_payment(payments: Seq<Payment>, payment_id: u128) -> bool {
    exists|i: int| 0 <= i < payments.len() && (#[trigger] payments[i]).id == payment_id
}

/// `i` is the place of the first payment in the list that has this id.
pub open spec fn first_match(payments: Seq<Payment>, payment_id: u128, i: int) -> bool {
    &&& 0 <= i < payments.len()
    &&& payments[i].id == payment_id
    &&& forall|j: int| 0 <= j < i ==> (#[trigger] payments[j]).id != payment_id
}

/// The list after the payment at place `i` is confirmed.
pub open spec fn confirmed_at(payments: Seq<Payment>, i: int) -> Seq<Payment> {
    payments.update(i, payments[i].confirmed())
}

/// The payments of a list that are still pending, in the order of the list.
pub open spec fn pending(payments: Seq<Payment>) -> Seq<Payment> {
    payments.filter(|p: Payment| p.status == PaymentStatus::Pending)
}

/// The payments of one user, in the order of the list.
pub open spec fn payments_of(payments: Seq<Payment>, user_id: u128) -> Seq<Payment> {
    payments.filter(|p: Payment| p.user_id == user_id)
}

/// One where the payment at place `i` is pending, else zero.
pub open spec fn pending_at(payments: Seq<Payment>, i: int) -> int {
    if payments[i].status == PaymentStatus::Pending {
        1
    } else {
        0
    }
}

/// Files a pending payment under the id `id` at the end of the list and
/// returns it. Neither the user nor the course is looked up, nor whether
/// the id is in use: the store stays well formed where it is not.
pub fn open_payment(state: &mut AppState, id: u128, payload: NewPayment) -> (r: Payment)
    ensures
        r == opened_payment(id, payload),
        final(state).payments@ == old(state).payments@.push(r),
        pending(final(state).payments@) == pending(old(state).payments@).push(r),
        final(state).users@ == old(state).users@,
        final(state).courses@ == old(state).courses@,
        final(state).jwt_secret@ == old(state).jwt_secret@,
        final(state).same_sequences(old(state)),
        old(state).wf() && !has_payment(old(state).payments@, id) ==> final(state).wf(),
{
    let payment = Payment {
        id,
        user_id: payload.user_id,
        course_id: payload.course_id,
        amount_bits: payload.amount_bits,
        status: PaymentStatus::Pending,
    };
    state.payments.push(payment);
    proof {
        lemma_pending_push(old(state).payments@, payment);
    }
    payment
}

/// `id` is the least id that no payment in the list has.
pub open spec fn is_least_free(payments: Seq<Payment>, id: u128) -> bool {
    &&& !has_payment(payments, id)
    &&& forall|v: u128| v < id ==> has_payment(payments, v)
}

/// Whether some payment in the list has this id.
pub fn has_id(payments: &Vec<Payment>, payment_id: u128) -> (r: bool)
    ensures
        r == has_payment(payments@, payment_id),
{
    let mut i: usize = 0;
    while i < payments.len()
        invariant
            i <= payments.len(),
            forall|j: int| 0 <= j < i ==> (#[trigger] payments@[j]).id != payment_id,
        decreases payments.len() - i,
    {
        if payments[i].id == payment_id {
            return true;
        }
        i = i + 1;
    }
    false
}

/// A list that holds every id below `count` holds at least `count`
/// payments.
pub proof fn lemma_low_ids_fit(payments: Seq<Payment>, count: u128)
    requires
        forall|v: u128| v < count ==> has_payment(payments, v),
    ensures
        count <= payments.len(),
    decreases count,
{
    if count > 0 {
        let top = (count - 1) as u128;
        assert(has_payment(payments, top));
        let k = choose|k: int| 0 <= k < payments.len() && (#[trigger] payments[k]).id == top;
        let rest = payments.remove(k);
        assert forall|v: u128| v < top implies has_payment(rest, v) by {
            assert(has_payment(payments, v));
            let j = choose|j: int| 0 <= j < payments.len() && (#[trigger] payments[j]).id == v;
            if j < k {
                assert(rest[j].id == v);
            } else {
                assert(rest[j - 1].id == v);
            }
        }
        lemma_low_ids_fit(rest, top);
    }
}

/// The least id that no payment in the list has.
pub fn least_free_id(payments: &Vec<Payment>) -> (r: u128)
    ensures
        is_least_free(payments@, r),
{
    let mut candidate: u128 = 0;
    while has_id(payments, candidate)
        invariant
            candidate <= payments.len(),
            forall|v: u128| v < candidate ==> has_payment(payments@, v),
        decreases payments.len() - candidate,
    {
        proof {
            lemma_low_ids_fit(payments@, (candidate + 1) as u128);
        }
        candidate = candidate + 1;
    }
    candidate
}

/// The id for a new payment, given the id that was drawn for it: the drawn
/// id where no payment has it, else the least id that no payment has.
pub fn choose_payment_id(payments: &Vec<Payment>, drawn: u128) -> (r: u128)
    ensures
        !has_payment(payments@, r),
        !has_payment(payments@, drawn) ==> r == drawn,
        has_payment(payments@, drawn) ==> is_least_free(payments@, r),
{
    if has_id(payments, drawn) {
        least_free_id(payments)
    } else {
        drawn
    }
}

/// Opens a payment under an id that no payment has: a fresh random one,
/// or, should that one be taken, the least that is free. It always
/// succeeds.
pub fn process_payment(state: &mut AppState, payload: NewPayment) -> (r: Payment)
    ensures
        r == opened_payment(r.id, payload),
        !has_payment(old(state).payments@, r.id),
        is_v4_uuid(r.id) || is_least_free(old(state).payments@, r.id),
        final(state).payments@ == old(state).payments@.push(r),
        pending(final(state).payments@) == pending(old(state).payments@).push(r),
        final(state).users@ == old(state).users@,
        final(state).courses@ == old(state).courses@,
        final(state).jwt_secret@ == old(state).jwt_secret@,
        final(state).same_sequences(old(state)),
        old(state).wf() ==> final(state).wf(),
{
    let id = choose_payment_id(&state.payments, fresh_uuid());
    open_payment(state, id, payload)
}

/// Sets the first payment with this id to `Completed`, whatever its status
/// was, and returns it. Where no payment has the id, nothing changes.
pub fn confirm_payment(state: &mut AppState, payment_id: u128) -> (r: Result<Payment, AppError>)
    ensures
        match r {
            Ok(payment) => exists|i: int|
                first_match(old(state).payments@, payment_id, i) && payment == old(
                    state,
                ).payments@[i].confirmed() && final(state).payments@ == confirmed_at(
                    old(state).payments@,
                    i,
                ) && pending(final(state).payments@).len() == pending(old(state).payments@).len()
                    - pending_at(old(state).payments@, i),
            Err(e) => !has_payment(old(state).payments@, payment_id) && e.is(
                ErrorKind::NotFound,
                "Payment not found"@,
            ) && final(state).payments@ == old(state).payments@,
        },
        final(state).users@ == old(state).users@,
        final(state).courses@ == old(state).courses@,
        final(state).jwt_secret@ == old(state).jwt_secret@,
        final(state).same_sequences(old(state)),
        old(state).wf() ==> final(state).wf(),
{
    let mut i: usize = 0;
    while i < state.payments.len()
        invariant
            i <= state.payments.len(),
            *state == *old(state),
            forall|j: int| 0 <= j < i ==> (#[trigger] state.payments@[j]).id != payment_id,
        decreases state.payments.len() - i,
    {
        if state.payments[i].id == payment_id {
            let found = state.payments[i];
            let payment = Payment {
                id: found.id,
                user_id: found.user_id,
                course_id: found.course_id,
                amount_bits: found.amount_bits,
                status: PaymentStatus::Completed,
            };
            state.payments.set(i, payment);
            assert(first_match(old(state).payments@, payment_id, i as int));
            assert(payment == old(state).payments@[i as int].confirmed());
            assert(state.payments@ =~= confirmed_at(old(state).payments@, i as int));
            proof {
                lemma_pending_after_confirm(old(state).payments@, i as int);
            }
            return Ok(payment);
        }
        i = i + 1;
    }
    Err(AppError::NotFound(String::from_str("Payment not found")))
}

/// All payments of one user, in the order in which they were opened.
pub fn list_payments_for_user(state: &AppState, user_id: u128) -> (r: Vec<Payment>)
    ensures
        r@ == payments_of(state.payments@, user_id),
{
    let mut out: Vec<Payment> = Vec::new();
    let mut i: usize = 0;
    while i < state.payments.len()
        invariant
            i <= state.payments.len(),
            out@ == payments_of(state.payments@.take(i as int), user_id),
        decreases state.payments.len() - i,
    {
        proof {
            lemma_payments_of_step(state.payments@, user_id, i as int);
        }
        if state.payments[i].user_id == user_id {
            out.push(state.payments[i]);
        }
        i = i + 1;
    }
    assert(state.payments@.take(i as int) =~= state.payments@);
    out
}

/// Filtering one payment more either appends it or changes nothing.
pub proof fn lemma_payments_of_step(payments: Seq<Payment>, user_id: u128, i: int)
    requires
        0 <= i < payments.len(),
    ensures
        payments_of(payments.take(i + 1), user_id) == if payments[i].user_id == user_id {
            payments_of(payments.take(i), user_id).push(payments[i])
        } else {
            payments_of(payments.take(i), user_id)
        },
{
    reveal(Seq::filter);
    assert(payments.take(i + 1).drop_last() =~= payments.take(i));
}

/// Confirming is idempotent: once the first payment with an id is
/// confirmed, it is still the first with that id, it is `Completed`, and
/// confirming it again leaves both the record and the list as they are.
pub proof fn lemma_confirm_twice(payments: Seq<Payment>, payment_id: u128, i: int)
    requires
        first_match(payments, payment_id, i),
    ensures
        first_match(confirmed_at(payments, i), payment_id, i),
        confirmed_at(payments, i)[i].status == PaymentStatus::Completed,
        confirmed_at(payments, i)[i].confirmed() == payments[i].confirmed(),
        confirmed_at(confirmed_at(payments, i), i) == confirmed_at(payments, i),
{
    let once = confirmed_at(payments, i);
    assert forall|j: int| 0 <= j < i implies (#[trigger] once[j]).id != payment_id by {
        assert(once[j] == payments[j]);
    }
    assert(confirmed_at(once, i) =~= once);
}

/// The place of the first payment with an id is unique, so the result of a
/// confirmation is determined.
pub proof fn lemma_first_match_unique(payments: Seq<Payment>, payment_id: u128, i: int, j: int)
    requires
        first_match(payments, payment_id, i),
        first_match(payments, payment_id, j),
    ensures
        i == j,
{
}

/// A payment added at the end joins the pending ones where it is pending.
pub proof fn lemma_pending_push(payments: Seq<Payment>, payment: Payment)
    ensures
        pending(payments.push(payment)) == if payment.status == PaymentStatus::Pending {
            pending(payments).push(payment)
        } else {
            pending(payments)
        },
{
    reveal(Seq::filter);
    assert(payments.push(payment).drop_last() =~= payments);
}

/// Confirming a payment takes one from the number of pending payments where
/// the payment was pending, and leaves the number as it is otherwise.
pub proof fn lemma_pending_after_confirm(payments: Seq<Payment>, i: int)
    requires
        0 <= i < payments.len(),
    ensures
        pending(confirmed_at(payments, i)).len() == pending(payments).len() - pending_at(
            payments,
            i,
        ),
    decreases payments.len(),
{
    let after = confirmed_at(payments, i);
    lemma_pending_push(payments.drop_last(), payments.last());
    lemma_pending_push(after.drop_last(), after.last());
    assert(payments.drop_last().push(payments.last()) =~= payments);
    assert(after.drop_last().push(after.last()) =~= after);
    if i == payments.len() - 1 {
        assert(after.drop_last() =~= payments.drop_last());
    } else {
        assert(after.drop_last() =~= confirmed_at(payments.drop_last(), i));
        lemma_pending_after_confirm(payments.drop_last(), i);
    }
}

/// In a well-formed store at most one payment has a given id, so every
/// payment can be confirmed by its id.
pub proof fn lemma_one_payment_per_id(state: &AppState, i: int, j: int)
    requires
        state.wf(),
        0 <= i < state.payments@.len(),
        0 <= j < state.payments@.len(),
        state.payments@[i].id == state.payments@[j].id,
    ensures
        i == j,
        first_match(state.payments@, state.payments@[i].id, i),
{
    if i < j {
        assert(state.payments@[i].id != state.payments@[j].id);
    } else if j < i {
        assert(state.payments@[j].id != state.payments@[i].id);
    }
    assert forall|k: int| 0 <= k < i implies (#[trigger] state.payments@[k]).id
        != state.payments@[i].id by {
        assert(state.payments@[k].id != state.payments@[i].id);
    }
}

} // verus!
