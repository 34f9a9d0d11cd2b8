//! Courses: listing, lookup, creation, partial update, and the two views
//! derived for one user, progress and recommendations.

use crate::models::course::{
    modules_view, texts_view, Course, CourseModule, CourseModuleView, CourseView, NewCourse,
    NewCourseModule, UpdateCourse,
};
use crate::models::user::{CourseProgress, CourseProgressView, ProgressSummary};
use crate::state::AppState;
use crate::text::{
    blank, is_blank, lemma_lex_le_reflexive, lemma_lex_le_total, lemma_lex_le_transitive, lex_le,
    str_le,
};
use crate::utils::error::{AppError, ErrorKind};
use vstd::prelude::*;
use vstd::string::StringExecFns;

verus! {

broadcast use vstd::std_specs::hash::group_hash_axioms;

/// The modules of a new course once they are numbered from `first` on, in
/// the order of the payload.
pub open spec fn numbered_modules(modules: Seq<NewCourseModule>, first: int) -> Seq<
    CourseModuleView,
> {
    Seq::new(
        modules.len(),
        |j: int|
            CourseModuleView {
                id: (first + j) as i32,
                title: modules[j].title@,
                content: modules[j].content@,
            },
    )
}

/// The course that `create_course` builds from a payload and the two ids
/// that the sequences hand out next.
pub open spec fn created_course(payload: NewCourse, course_id: int, first_module_id: int)
    -> CourseView {
    CourseView {
        id: course_id as i32,
        title: payload.title@,
        description: payload.description@,
        modules: numbered_modules(payload.modules@, first_module_id),
        resources: texts_view(payload.resources@),
    }
}

/// A partial update is refused when it names a title that is blank.
pub open spec fn update_refused(payload: UpdateCourse) -> bool {
    payload.title matches Some(title) && blank(title@)
}

/// A course after a partial update: each field that the payload holds
/// replaces the old one, the others stay.
pub open spec fn updated_course(course: CourseView, payload: UpdateCourse) -> CourseView {
    CourseView {
        id: course.id,
        title: match payload.title {
            Some(title) => title@,
            None => course.title,
        },
        description: match payload.description {
            Some(description) => description@,
            None => course.description,
        },
        modules: course.modules,
        resources: match payload.resources {
            Some(resources) => texts_view(resources@),
            None => course.resources,
        },
    }
}

/// `courses` lists every course of the store once, in any order.
pub open spec fn lists_all_courses(state: &AppState, courses: Seq<Course>) -> bool {
    &&& courses.len() == state.courses@.len()
    &&& forall|i: int|
        0 <= i < courses.len() ==> state.courses@.contains_key((#[trigger] courses[i]).id)
            && courses[i]@ == state.courses@[courses[i].id]@
    &&& forall|i: int, j: int|
        0 <= i < j < courses.len() ==> (#[trigger] courses[i]).id != (#[trigger] courses[j]).id
    &&& forall|k: i32|
        state.courses@.contains_key(k) ==> exists|i: int|
            0 <= i < courses.len() && (#[trigger] courses[i]).id == k
}

/// All courses, each once. The order is that in which the map yields them.
pub fn list_courses(state: &AppState) -> (r: Vec<Course>)
    requires
        state.wf(),
    ensures
        lists_all_courses(state, r@),
{
    let ids = state.course_ids();
    let mut out: Vec<Course> = Vec::new();
    let mut i: usize = 0;
    while i < ids.len()
        invariant
            state.wf(),
            i <= ids.len(),
            out.len() == i,
            ids@.no_duplicates(),
            ids@.to_set() == state.courses@.dom(),
            forall|j: int|
                0 <= j < i ==> (#[trigger] out@[j]).id == ids@[j] && out@[j]@
                    == state.courses@[ids@[j]]@,
        decreases ids.len() - i,
    {
        assert(ids@.to_set().contains(ids@[i as int]));
        let found = state.courses.get(&ids[i]);
        if let Some(course) = found {
            out.push(course.clone());
        }
        i = i + 1;
    }
    proof {
        assert forall|j: int| 0 <= j < out@.len() implies state.courses@.contains_key(
            (#[trigger] out@[j]).id,
        ) && out@[j]@ == state.courses@[out@[j].id]@ by {
            assert(ids@.to_set().contains(ids@[j]));
        }
        assert forall|k: i32| state.courses@.contains_key(k) implies exists|j: int|
            0 <= j < out@.len() && (#[trigger] out@[j]).id == k by {
            assert(ids@.to_set().contains(k));
            let j = choose|j: int| 0 <= j < ids@.len() && ids@[j] == k;
            assert(out@[j].id == k);
        }
    }
    out
}

/// The course with this id, or `None` where the store has none.
pub fn get_course(state: &AppState, course_id: i32) -> (r: Option<Course>)
    ensures
        match r {
            Some(course) => state.courses@.contains_key(course_id) && course@
                == state.courses@[course_id]@,
            None => !state.courses@.contains_key(course_id),
        },
{
    match state.courses.get(&course_id) {
        Some(course) => Some(course.clone()),
        None => None,
    }
}

/// Whether the two sequences can still number this course and its modules.
pub fn can_create(state: &AppState, payload: &NewCourse) -> (r: bool)
    ensures
        r == (state.upcoming_course_id() < i32::MAX && state.upcoming_module_id()
            + payload.modules.len() <= i32::MAX),
{
    let room: i64 = i32::MAX as i64 - state.peek_module_id() as i64;
    state.peek_course_id() < i32::MAX && payload.modules.len() as u64 <= room as u64
}

/// Stores a new course under the next course id, its modules numbered with
/// the next module ids in the order of the payload, and returns it.
pub fn create_course(state: &mut AppState, payload: NewCourse) -> (r: Course)
    requires
        old(state).wf(),
        old(state).upcoming_course_id() < i32::MAX,
        old(state).upcoming_module_id() + payload.modules.len() <= i32::MAX,
    ensures
        r@ == created_course(
            payload,
            old(state).upcoming_course_id(),
            old(state).upcoming_module_id(),
        ),
        final(state).courses_view() == old(state).courses_view().insert(r.id, r@),
        !old(state).courses@.contains_key(r.id),
        final(state).courses@.len() == old(state).courses@.len() + 1,
        final(state).upcoming_course_id() == old(state).upcoming_course_id() + 1,
        final(state).upcoming_module_id() == old(state).upcoming_module_id()
            + payload.modules.len(),
        final(state).users@ == old(state).users@,
        final(state).payments@ == old(state).payments@,
        final(state).jwt_secret@ == old(state).jwt_secret@,
        final(state).wf(),
{
    let ghost first_module = state.upcoming_module_id();
    let new_id = state.next_course_id();
    let NewCourse { title, description, modules: new_modules, resources } = payload;
    let ghost new_modules_seq = new_modules@;
    let modules: Vec<CourseModule> = if new_modules.len() == 0 {
        Vec::new()
    } else {
        state.rotate_modules(new_modules)
    };
    assert(modules_view(modules@) =~= numbered_modules(new_modules_seq, first_module));

    let course = Course { id: new_id, title, description, modules, resources };
    let result = course.clone();
    let ghost before = state.courses@;
    state.courses.insert(new_id, course);
    proof {
        assert(state.courses@ == before.insert(new_id, course));
        assert(state.courses_view() =~= old(state).courses_view().insert(new_id, result@));
        assert forall|k: i32, j: int|
            state.courses@.contains_key(k) && 0 <= j < state.courses@[k].modules@.len() implies (
        #[trigger] state.courses@[k].modules@[j]).id < state.upcoming_module_id() by {
            if k == new_id {
                assert(modules_view(course.modules@)[j] == course.modules@[j]@);
            } else {
                assert(old(state).courses@.contains_key(k));
            }
        }
    }
    result
}

/// Applies a partial update to the course with this id and returns the
/// course as it then stands. An unknown id and a blank title are refused,
/// and a refused update changes nothing.
pub fn update_course(state: &mut AppState, course_id: i32, payload: UpdateCourse) -> (r: Result<
    Course,
    AppError,
>)
    ensures
        !old(state).courses@.contains_key(course_id) ==> r is Err && r->Err_0.is(
            ErrorKind::NotFound,
            "Course not found"@,
        ),
        old(state).courses@.contains_key(course_id) && update_refused(payload) ==> r is Err
            && r->Err_0.is(ErrorKind::BadRequest, "Course title cannot be empty"@),
        old(state).courses@.contains_key(course_id) && !update_refused(payload) ==> r is Ok
            && r->Ok_0@ == updated_course(old(state).courses@[course_id]@, payload)
            && final(state).courses_view() == old(state).courses_view().insert(
            course_id,
            r->Ok_0@,
        ),
        r is Err ==> final(state).courses@ == old(state).courses@,
        final(state).users@ == old(state).users@,
        final(state).payments@ == old(state).payments@,
        final(state).jwt_secret@ == old(state).jwt_secret@,
        final(state).same_sequences(old(state)),
        old(state).wf() ==> final(state).wf(),
{
    if !state.courses.contains_key(&course_id) {
        return Err(AppError::NotFound(String::from_str("Course not found")));
    }
    let UpdateCourse { title, description, resources } = payload;
    if let Some(new_title) = &title {
        if is_blank(new_title.as_str()) {
            return Err(AppError::BadRequest(String::from_str("Course title cannot be empty")));
        }
    }
    let ghost before = state.courses@;
    let removed = state.courses.remove(&course_id);
    let mut course = removed.unwrap();
    let ghost old_course = course;
    if let Some(new_title) = title {
        course.title = new_title;
    }
    if let Some(new_description) = description {
        course.description = new_description;
    }
    if let Some(new_resources) = resources {
        course.resources = new_resources;
    }
    let result = course.clone();
    state.courses.insert(course_id, course);
    proof {
        assert(state.courses@ == before.insert(course_id, course));
        assert(state.courses_view() =~= old(state).courses_view().insert(course_id, result@));
        if old(state).wf() {
            assert forall|k: i32, j: int|
                state.courses@.contains_key(k) && 0 <= j < state.courses@[k].modules@.len() implies (
            #[trigger] state.courses@[k].modules@[j]).id < state.upcoming_module_id() by {
                if k == course_id {
                    assert(course.modules@ == old_course.modules@);
                    assert(old(state).courses@[k].modules@[j].id
                        < old(state).upcoming_module_id());
                } else {
                    assert(old(state).courses@.contains_key(k));
                }
            }
        }
    }
    Ok(result)
}

/// The progress report of a list of records, record for record.
pub open spec fn summaries(progress: Seq<CourseProgressView>) -> Seq<ProgressSummary> {
    progress.map_values(|p: CourseProgressView| p.summary())
}

/// How far the user has come in each course that the user's records name,
/// in the order of the records. A record without modules reports zero.
pub fn track_user_progress(state: &AppState, user_id: u128) -> (r: Result<
    Vec<ProgressSummary>,
    AppError,
>)
    ensures
        match r {
            Ok(report) => state.users@.contains_key(user_id) && report@ == summaries(
                state.users@[user_id]@.progress,
            ),
            Err(e) => !state.users@.contains_key(user_id) && e.is(
                ErrorKind::NotFound,
                "User not found"@,
            ),
        },
{
    let stored = match state.users.get(&user_id) {
        Some(stored) => stored,
        None => {
            return Err(AppError::NotFound(String::from_str("User not found")));
        },
    };
    let mut report: Vec<ProgressSummary> = Vec::new();
    let mut i: usize = 0;
    while i < stored.progress.len()
        invariant
            i <= stored.progress.len(),
            report.len() == i,
            forall|j: int| 0 <= j < i ==> #[trigger] report@[j] == stored.progress@[j]@.summary(),
        decreases stored.progress.len() - i,
    {
        let record = &stored.progress[i];
        report.push(
            ProgressSummary { course_id: record.course_id, completion: record.completion_ratio() },
        );
        i = i + 1;
    }
    assert(report@ =~= summaries(stored@.progress));
    Ok(report)
}

/// `i` is the place of the first entry of the report that is about this
/// course.
pub open spec fn first_summary(report: Seq<ProgressSummary>, course_id: i32, i: int) -> bool {
    &&& 0 <= i < report.len()
    &&& report[i].course_id == course_id
    &&& forall|j: int| 0 <= j < i ==> (#[trigger] report[j]).course_id != course_id
}

/// The first entry of a progress report that is about this course, or
/// `None` where the report has none.
pub fn progress_for_course(report: &Vec<ProgressSummary>, course_id: i32) -> (r: Option<
    ProgressSummary,
>)
    ensures
        match r {
            Some(summary) => exists|i: int|
                first_summary(report@, course_id, i) && summary == report@[i],
            None => forall|j: int|
                0 <= j < report.len() ==> (#[trigger] report@[j]).course_id != course_id,
        },
{
    let mut i: usize = 0;
    while i < report.len()
        invariant
            i <= report.len(),
            forall|j: int| 0 <= j < i ==> (#[trigger] report@[j]).course_id != course_id,
        decreases report.len() - i,
    {
        if report[i].course_id == course_id {
            assert(first_summary(report@, course_id, i as int));
            return Some(report[i]);
        }
        i = i + 1;
    }
    None
}

/// The user's progress records name this course.
pub open spec fn enrolled(progress: Seq<CourseProgress>, course_id: i32) -> bool {
    exists|j: int| 0 <= j < progress.len() && (#[trigger] progress[j]).course_id == course_id
}

/// The list of ids holds this id.
pub open spec fn holds_id(ids: Seq<i32>, id: i32) -> bool {
    exists|j: int| 0 <= j < ids.len() && #[trigger] ids[j] == id
}

/// A course that may be recommended: it is in the store, the user is not
/// enrolled in it, and it is not among those already taken.
pub open spec fn eligible(
    state: &AppState,
    progress: Seq<CourseProgress>,
    taken: Seq<i32>,
    course_id: i32,
) -> bool {
    &&& state.courses@.contains_key(course_id)
    &&& !enrolled(progress, course_id)
    &&& !holds_id(taken, course_id)
}

/// The ids of the courses in a list, in its order.
pub open spec fn ids_of(courses: Seq<Course>) -> Seq<i32> {
    courses.map_values(|c: Course| c.id)
}

/// `picks` is what the recommender may return for a user with these
/// progress records: at most three courses of the store in which the user
/// is not enrolled, each once, in ascending order of title, and such that
/// every course left out is enrolled in or comes no earlier by title than
/// each of the three picks. Courses with equal titles may come in either
/// order.
pub open spec fn is_recommendation(state: &AppState, progress: Seq<CourseProgress>, picks: Seq<Course>)
    -> bool {
    &&& picks.len() <= 3
    &&& forall|i: int|
        0 <= i < picks.len() ==> eligible(state, progress, Seq::empty(), (#[trigger] picks[i]).id)
            && picks[i]@ == state.courses@[picks[i].id]@
    &&& forall|i: int, j: int|
        0 <= i < j < picks.len() ==> (#[trigger] picks[i]).id != (#[trigger] picks[j]).id
            && lex_le(picks[i].title@, picks[j].title@)
    &&& forall|k: i32| #[trigger]
        eligible(state, progress, ids_of(picks), k) ==> picks.len() == 3 && forall|i: int|
            0 <= i < picks.len() ==> lex_le(
                (#[trigger] picks[i]).title@,
                state.courses@[k].title@,
            )
}

/// Whether one of the progress records names this course.
pub fn is_enrolled(progress: &Vec<CourseProgress>, course_id: i32) -> (r: bool)
    ensures
        r == enrolled(progress@, course_id),
{
    let mut i: usize = 0;
    while i < progress.len()
        invariant
            i <= progress.len(),
            forall|j: int| 0 <= j < i ==> (#[trigger] progress@[j]).course_id != course_id,
        decreases progress.len() - i,
    {
        if progress[i].course_id == course_id {
            return true;
        }
        i = i + 1;
    }
    false
}

/// Whether the list holds this id.
pub fn contains_id(ids: &Vec<i32>, id: i32) -> (r: bool)
    ensures
        r == holds_id(ids@, id),
{
    let mut i: usize = 0;
    while i < ids.len()
        invariant
            i <= ids.len(),
            forall|j: int| 0 <= j < i ==> #[trigger] ids@[j] != id,
        decreases ids.len() - i,
    {
        if ids[i] == id {
            return true;
        }
        i = i + 1;
    }
    false
}

/// Among the courses named by `ids` that are eligible, one whose title is
/// least; `None` where none is eligible.
pub fn least_title(
    state: &AppState,
    progress: &Vec<CourseProgress>,
    ids: &Vec<i32>,
    taken: &Vec<i32>,
) -> (r: Option<i32>)
    requires
        ids@.to_set() == state.courses@.dom(),
    ensures
        match r {
            Some(best) => eligible(state, progress@, taken@, best) && forall|k: i32| #[trigger]
                eligible(state, progress@, taken@, k) ==> lex_le(
                    state.courses@[best].title@,
                    state.courses@[k].title@,
                ),
            None => forall|k: i32| !#[trigger] eligible(state, progress@, taken@, k),
        },
{
    let mut best: Option<i32> = None;
    let mut best_title: &str = "";
    let mut i: usize = 0;
    while i < ids.len()
        invariant
            i <= ids.len(),
            ids@.to_set() == state.courses@.dom(),
            match best {
                Some(b) => eligible(state, progress@, taken@, b) && best_title@
                    == state.courses@[b].title@ && forall|j: int|
                    0 <= j < i && eligible(state, progress@, taken@, #[trigger] ids@[j]) ==> lex_le(
                        best_title@,
                        state.courses@[ids@[j]].title@,
                    ),
                None => forall|j: int|
                    0 <= j < i ==> !eligible(state, progress@, taken@, #[trigger] ids@[j]),
            },
        decreases ids.len() - i,
    {
        let id = ids[i];
        assert(ids@.to_set().contains(ids@[i as int]));
        if !is_enrolled(progress, id) && !contains_id(taken, id) {
            let found = state.courses.get(&id);
            if let Some(course) = found {
                let title: &str = course.title.as_str();
                match best {
                    None => {
                        proof {
                            lemma_lex_le_reflexive(title@);
                        }
                        best = Some(id);
                        best_title = title;
                    },
                    Some(b) => {
                        if !str_le(best_title, title) {
                            proof {
                                lemma_lex_le_total(best_title@, title@);
                                lemma_lex_le_reflexive(title@);
                                assert forall|j: int|
                                    0 <= j < i && eligible(
                                        state,
                                        progress@,
                                        taken@,
                                        #[trigger] ids@[j],
                                    ) implies lex_le(title@, state.courses@[ids@[j]].title@) by {
                                    lemma_lex_le_transitive(
                                        title@,
                                        best_title@,
                                        state.courses@[ids@[j]].title@,
                                    );
                                }
                            }
                            best = Some(id);
                            best_title = title;
                        }
                    },
                }
            }
        }
        i = i + 1;
    }
    proof {
        assert forall|k: i32| #[trigger] eligible(state, progress@, taken@, k) implies (match best {
            Some(b) => lex_le(state.courses@[b].title@, state.courses@[k].title@),
            None => false,
        }) by {
            assert(ids@.to_set().contains(k));
            let j = choose|j: int| 0 <= j < ids@.len() && ids@[j] == k;
            assert(eligible(state, progress@, taken@, ids@[j]));
        }
    }
    best
}

/// Up to three courses for a user: all courses in ascending order of title,
/// without those in which the user is enrolled, cut after the third.
pub fn get_recommendations(state: &AppState, user_id: u128) -> (r: Result<Vec<Course>, AppError>)
    requires
        state.wf(),
    ensures
        match r {
            Ok(picks) => state.users@.contains_key(user_id) && is_recommendation(
                state,
                state.users@[user_id].progress@,
                picks@,
            ),
            Err(e) => !state.users@.contains_key(user_id) && e.is(
                ErrorKind::NotFound,
                "User not found"@,
            ),
        },
{
    let stored = match state.users.get(&user_id) {
        Some(stored) => stored,
        None => {
            return Err(AppError::NotFound(String::from_str("User not found")));
        },
    };
    let progress = &stored.progress;
    let ids = state.course_ids();
    let mut chosen: Vec<i32> = Vec::new();
    let mut exhausted = false;
    let mut round: usize = 0;
    while round < 3 && !exhausted
        invariant
            state.wf(),
            ids@.to_set() == state.courses@.dom(),
            round <= 3,
            chosen.len() <= round,
            !exhausted ==> chosen.len() == round,
            forall|i: int|
                0 <= i < chosen.len() ==> eligible(
                    state,
                    progress@,
                    Seq::empty(),
                    #[trigger] chosen@[i],
                ),
            forall|i: int, j: int|
                0 <= i < j < chosen.len() ==> #[trigger] chosen@[i] != #[trigger] chosen@[j]
                    && lex_le(state.courses@[chosen@[i]].title@, state.courses@[chosen@[j]].title@),
            forall|k: i32, i: int|
                #![trigger eligible(state, progress@, chosen@, k), chosen@[i]]
                eligible(state, progress@, chosen@, k) && 0 <= i < chosen.len() ==> lex_le(
                    state.courses@[chosen@[i]].title@,
                    state.courses@[k].title@,
                ),
            exhausted ==> forall|k: i32| !#[trigger] eligible(state, progress@, chosen@, k),
        decreases 3 - round, if exhausted { 0int } else { 1int },
    {
        let ghost before = chosen@;
        match least_title(state, progress, &ids, &chosen) {
            None => {
                exhausted = true;
            },
            Some(best) => {
                chosen.push(best);
                proof {
                    assert(!holds_id(Seq::<i32>::empty(), best));
                    assert forall|i: int, j: int| 0 <= i < j < chosen.len() implies #[trigger] chosen@[i]
                        != #[trigger] chosen@[j] && lex_le(
                        state.courses@[chosen@[i]].title@,
                        state.courses@[chosen@[j]].title@,
                    ) by {
                        if j == before.len() {
                            assert(eligible(state, progress@, before, best));
                            assert(before[i] == chosen@[i]);
                        } else {
                            assert(before[i] == chosen@[i] && before[j] == chosen@[j]);
                        }
                    }
                    assert forall|k: i32, i: int|
                        #![trigger eligible(state, progress@, chosen@, k), chosen@[i]]
                        eligible(state, progress@, chosen@, k) && 0 <= i < chosen.len() implies lex_le(
                        state.courses@[chosen@[i]].title@,
                        state.courses@[k].title@,
                    ) by {
                        assert(!holds_id(before, k)) by {
                            if holds_id(before, k) {
                                let w = choose|w: int| 0 <= w < before.len() && before[w] == k;
                                assert(chosen@[w] == k);
                            }
                        }
                        assert(eligible(state, progress@, before, k));
                        if i < before.len() {
                            assert(before[i] == chosen@[i]);
                        }
                    }
                }
            },
        }
        round = round + 1;
    }
    let mut picks: Vec<Course> = Vec::new();
    let mut i: usize = 0;
    while i < chosen.len()
        invariant
            state.wf(),
            i <= chosen.len(),
            picks.len() == i,
            forall|j: int| 0 <= j < chosen.len() ==> state.courses@.contains_key(#[trigger] chosen@[j]),
            forall|j: int|
                0 <= j < i ==> (#[trigger] picks@[j]).id == chosen@[j] && picks@[j]@
                    == state.courses@[chosen@[j]]@,
        decreases chosen.len() - i,
    {
        let found = state.courses.get(&chosen[i]);
        if let Some(course) = found {
            picks.push(course.clone());
        }
        i = i + 1;
    }
    proof {
        assert(ids_of(picks@) =~= chosen@);
        assert forall|j: int| 0 <= j < picks@.len() implies (#[trigger] picks@[j]).title@
            == state.courses@[chosen@[j]].title@ by {
            assert(picks@[j]@.title == state.courses@[chosen@[j]]@.title);
        }
    }
    Ok(picks)
}

} // verus!
