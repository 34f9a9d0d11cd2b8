//! Administration: course management and the counts over the store.

use crate::models::admin::AnalyticsSnapshot;
use crate::models::course::{Course, NewCourse, UpdateCourse};
use crate::models::payment::{Payment, PaymentStatus};
use crate::services::course_service;
use crate::services::payment_service::pending;
use crate::services::course_service::{
    created_course, lists_all_courses, update_refused, updated_course,
};
use crate::state::AppState;
use crate::utils::error::{AppError, ErrorKind};
use vstd::prelude::*;
use vstd::string::StringExecFns;

verus! {

broadcast use vstd::std_specs::hash::group_hash_axioms;

/// The counts that the analytics view shows for a store.
pub open spec fn snapshot_of(state: &AppState) -> AnalyticsSnapshot {
    AnalyticsSnapshot {
        total_users: state.users@.len() as usize,
        total_courses: state.courses@.len() as usize,
        active_payments: pending(state.payments@).len() as usize,
    }
}

/// All courses, each once.
pub fn fetch_all_courses(state: &AppState) -> (r: Vec<Course>)
    requires
        state.wf(),
    ensures
        lists_all_courses(state, r@),
{
    course_service::list_courses(state)
}

/// Stores a new course; see `course_service::create_course`.
pub fn add_course(state: &mut AppState, payload: NewCourse) -> (r: Course)
    requires
        old(state).wf(),
        old(state).upcoming_course_id() < i32::MAX,
        old(state).upcoming_module_id() + payload.modules.len() <= i32::MAX,
    ensures
        r@ == created_course(
            payload,
            old(state).upcoming_course_id(),
            old(state).upcoming_module_id(),
        ),
        final(state).courses_view() == old(state).courses_view().insert(r.id, r@),
        !old(state).courses@.contains_key(r.id),
        final(state).courses@.len() == old(state).courses@.len() + 1,
        final(state).upcoming_course_id() == old(state).upcoming_course_id() + 1,
        final(state).upcoming_module_id() == old(state).upcoming_module_id()
            + payload.modules.len(),
        final(state).users@ == old(state).users@,
        final(state).payments@ == old(state).payments@,
        final(state).jwt_secret@ == old(state).jwt_secret@,
        final(state).wf(),
{
    course_service::create_course(state, payload)
}

/// Applies a partial update; see `course_service::update_course`.
pub fn update_course(state: &mut AppState, course_id: i32, payload: UpdateCourse) -> (r: Result<
    Course,
    AppError,
>)
    ensures
        !old(state).courses@.contains_key(course_id) ==> r is Err && r->Err_0.is(
            ErrorKind::NotFound,
            "Course not found"@,
        ),
        old(state).courses@.contains_key(course_id) && update_refused(payload) ==> r is Err
            && r->Err_0.is(ErrorKind::BadRequest, "Course title cannot be empty"@),
        old(state).courses@.contains_key(course_id) && !update_refused(payload) ==> r is Ok
            && r->Ok_0@ == updated_course(old(state).courses@[course_id]@, payload)
            && final(state).courses_view() == old(state).courses_view().insert(
            course_id,
            r->Ok_0@,
        ),
        r is Err ==> final(state).courses@ == old(state).courses@,
        final(state).users@ == old(state).users@,
        final(state).payments@ == old(state).payments@,
        final(state).jwt_secret@ == old(state).jwt_secret@,
        final(state).same_sequences(old(state)),
        old(state).wf() ==> final(state).wf(),
{
    course_service::update_course(state, course_id, payload)
}

/// Removes the course with this id. Where the store has no such course,
/// the call fails and the courses stay as they are. The id is not handed
/// out again.
pub fn remove_course(state: &mut AppState, course_id: i32) -> (r: Result<(), AppError>)
    ensures
        match r {
            Ok(_) => old(state).courses@.contains_key(course_id) && final(state).courses@ == old(
                state,
            ).courses@.remove(course_id) && final(state).courses@.len() + 1 == old(
                state,
            ).courses@.len(),
            Err(e) => !old(state).courses@.contains_key(course_id) && e.is(
                ErrorKind::NotFound,
                "Course not found"@,
            ) && final(state).courses@ == old(state).courses@,
        },
        final(state).users@ == old(state).users@,
        final(state).payments@ == old(state).payments@,
        final(state).jwt_secret@ == old(state).jwt_secret@,
        final(state).same_sequences(old(state)),
        old(state).wf() ==> final(state).wf(),
{
    match state.courses.remove(&course_id) {
        Some(_) => Ok(()),
        None => Err(AppError::NotFound(String::from_str("Course not found"))),
    }
}

/// The number of users, of courses, and of payments that are pending.
pub fn get_analytics(state: &AppState) -> (r: AnalyticsSnapshot)
    ensures
        r == snapshot_of(state),
        r.total_users == state.users@.len(),
        r.total_courses == state.courses@.len(),
        r.active_payments == pending(state.payments@).len(),
{
    let mut active: usize = 0;
    let mut i: usize = 0;
    while i < state.payments.len()
        invariant
            i <= state.payments.len(),
            active == pending(state.payments@.take(i as int)).len(),
            active <= i,
        decreases state.payments.len() - i,
    {
        proof {
            lemma_pending_step(state.payments@, i as int);
        }
        if state.payments[i].status == PaymentStatus::Pending {
            active = active + 1;
        }
        i = i + 1;
    }
    assert(state.payments@.take(i as int) =~= state.payments@);
    AnalyticsSnapshot {
        total_users: state.users.len(),
        total_courses: state.courses.len(),
        active_payments: active,
    }
}

/// Counting one payment more adds one where it is pending, else nothing.
pub proof fn lemma_pending_step(payments: Seq<Payment>, i: int)
    requires
        0 <= i < payments.len(),
    ensures
        pending(payments.take(i + 1)) == if payments[i].status == PaymentStatus::Pending {
            pending(payments.take(i)).push(payments[i])
        } else {
            pending(payments.take(i))
        },
{
    reveal(Seq::filter);
    assert(payments.take(i + 1).drop_last() =~= payments.take(i));
}

/// The counts of a snapshot are exact: the number of users, the number
/// of courses, and the number of pending payments, none of them cut short.
/// So a store that began with the seed course and has since seen `u`
/// registrations and `c` course creations succeed, and holds `p` payments
/// that were opened and not confirmed, shows `u`, `c + 1` and `p`.
pub proof fn lemma_snapshot_is_exact(state: &AppState)
    ensures
        snapshot_of(state).total_users == state.users@.len(),
        snapshot_of(state).total_courses == state.courses@.len(),
        snapshot_of(state).active_payments == pending(state.payments@).len(),
        pending(state.payments@).len() <= state.payments@.len(),
{
    vstd::std_specs::hash::axiom_spec_hash_map_len(&state.users);
    vstd::std_specs::hash::axiom_spec_hash_map_len(&state.courses);
    state.payments@.lemma_filter_len(|p: Payment| p.status == PaymentStatus::Pending);
    assert(state.payments@.len() == state.payments.len());
}

} // verus!
