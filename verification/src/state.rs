//! The store: the three collections, the signing secret and the two
//! identifier sequences.

use crate::models::course::{Course, CourseModule, CourseModuleView, CourseView, NewCourseModule};
use crate::models::payment::Payment;
use crate::models::user::{StoredUser, StoredUserView};
use crate::text::eq_ignore_ascii_case;
use std::collections::HashMap;
use vstd::prelude::*;
use vstd::std_specs::hash::{axiom_spec_keys_iter, spec_keys_iter};
use vstd::std_specs::iter::IteratorSpec;
use vstd::string::StringExecFns;

verus! {

broadcast use vstd::std_specs::hash::group_hash_axioms;

/// Everything the service keeps in memory. Users are keyed by the 128-bit
/// value of their UUID, courses by their id; payments are kept in the order
/// in which they were opened.
pub struct AppState {
    pub jwt_secret: String,
    pub users: HashMap<u128, StoredUser>,
    pub courses: HashMap<i32, Course>,
    pub payments: Vec<Payment>,
    pub course_sequence: IdSequence,
    pub module_sequence: IdSequence,
}

/// A source of ids that only moves forward: each id is handed out once.
pub struct IdSequence {
    next: i32,
}

impl IdSequence {
    /// The id that the next call of `take` returns.
    pub closed spec fn upcoming(&self) -> i32 {
        self.next
    }

    /// A sequence whose first id is `first`.
    pub fn starting_at(first: i32) -> (r: IdSequence)
        ensures
            r.upcoming() == first,
    {
        IdSequence { next: first }
    }

    /// The id that `take` would return.
    pub fn peek(&self) -> (r: i32)
        ensures
            r == self.upcoming(),
    {
        self.next
    }

    /// What one call of `take` does: it hands out the upcoming id and
    /// leaves the sequence just past it.
    pub open spec fn took(before: IdSequence, after: IdSequence, id: i32) -> bool {
        id == before.upcoming() && after.upcoming() == id + 1
    }

    /// Hands out the upcoming id and moves the sequence past it.
    pub fn take(&mut self) -> (r: i32)
        requires
            old(self).upcoming() < i32::MAX,
        ensures
            Self::took(*old(self), *final(self), r),
    {
        let id = self.next;
        self.next = id + 1;
        id
    }
}

/// What one call on the store did to its sequences: it took the course id
/// or the module id that it names, or it took none.
pub enum IdStep {
    Course(i32),
    Module(i32),
    Other,
}

/// The stores `states` are those that a run of calls passed through, one
/// call after another in the order in which they got hold of the store,
/// and `steps` says of each call what it took.
pub open spec fn is_history(states: Seq<AppState>, steps: Seq<IdStep>) -> bool {
    &&& states.len() == steps.len() + 1
    &&& forall|k: int| 0 <= k < steps.len() ==> (#[trigger] states[k]).stepped(&states[k + 1], steps[k])
}

/// The course that every new store holds.
pub open spec fn seed_course() -> CourseView {
    CourseView {
        id: 1,
        title: "Beginner Drone Operations"@,
        description: "Get started with hands-on drone piloting"@,
        modules: seq![
            CourseModuleView {
                id: 1,
                title: "Safety Basics"@,
                content: "Learn the foundational safety procedures before flying"@,
            },
            CourseModuleView {
                id: 2,
                title: "First Flight"@,
                content: "Step-by-step guide to your first supervised flight"@,
            },
        ],
        resources: seq![
            "https://example.com/drone-checklist.pdf"@,
            "https://example.com/flight-log.xlsx"@,
        ],
    }
}

impl AppState {
    /// The id that the next new course gets.
    pub open spec fn upcoming_course_id(&self) -> int {
        self.course_sequence.upcoming() as int
    }

    /// The id that the next new module gets.
    pub open spec fn upcoming_module_id(&self) -> int {
        self.module_sequence.upcoming() as int
    }

    /// The users by id, as values.
    pub open spec fn users_view(&self) -> Map<u128, StoredUserView> {
        self.users@.map_values(|u: StoredUser| u@)
    }

    /// The courses by id, as values.
    pub open spec fn courses_view(&self) -> Map<i32, CourseView> {
        self.courses@.map_values(|c: Course| c@)
    }

    /// Some user has this email, up to the case of ASCII letters.
    pub open spec fn email_taken(&self, email: Seq<char>) -> bool {
        exists|k: u128| #[trigger]
            self.users@.contains_key(k) && eq_ignore_ascii_case(self.users@[k].email@, email)
    }

    /// The invariant of the store: every record is filed under its own id,
    /// no two users share an email up to ASCII case, no two modules share
    /// an id, whatever their courses, no two payments share an id, and both
    /// sequences lie above every id that is in use.
    pub open spec fn wf(&self) -> bool {
        &&& forall|k: u128| #[trigger] self.users@.contains_key(k) ==> self.users@[k].id == k
        &&& forall|a: u128, b: u128|
            #![trigger self.users@.contains_key(a), self.users@.contains_key(b)]
            self.users@.contains_key(a) && self.users@.contains_key(b) && a != b
                ==> !eq_ignore_ascii_case(self.users@[a].email@, self.users@[b].email@)
        &&& forall|k: i32| #[trigger]
            self.courses@.contains_key(k) ==> self.courses@[k].id == k
                && k < self.upcoming_course_id()
        &&& forall|k: i32, j: int|
            self.courses@.contains_key(k) && 0 <= j < self.courses@[k].modules@.len()
                ==> (#[trigger] self.courses@[k].modules@[j]).id < self.upcoming_module_id()
        &&& forall|k1: i32, j1: int, k2: i32, j2: int|
            self.courses@.contains_key(k1) && 0 <= j1 < self.courses@[k1].modules@.len()
                && self.courses@.contains_key(k2) && 0 <= j2 < self.courses@[k2].modules@.len()
                && (k1 != k2 || j1 != j2) ==> (#[trigger] self.courses@[k1].modules@[j1]).id != (
            #[trigger] self.courses@[k2].modules@[j2]).id
        &&& forall|i: int, j: int|
            0 <= i < j < self.payments@.len() ==> (#[trigger] self.payments@[i]).id != (
            #[trigger] self.payments@[j]).id
    }

    /// Both stores hold the same users, courses, payments and secret.
    pub open spec fn same_records(&self, other: &AppState) -> bool {
        &&& self.jwt_secret@ == other.jwt_secret@
        &&& self.users@ == other.users@
        &&& self.courses@ == other.courses@
        &&& self.payments@ == other.payments@
    }

    /// What one call may do to the two sequences: take a course id, take a
    /// module id, or leave both as they are. Taking from one sequence does
    /// not touch the other.
    pub open spec fn stepped(&self, after: &AppState, step: IdStep) -> bool {
        match step {
            IdStep::Course(id) => IdSequence::took(self.course_sequence, after.course_sequence, id)
                && after.upcoming_module_id() == self.upcoming_module_id(),
            IdStep::Module(id) => IdSequence::took(self.module_sequence, after.module_sequence, id)
                && after.upcoming_course_id() == self.upcoming_course_id(),
            IdStep::Other => after.same_sequences(self),
        }
    }

    /// Both stores will hand out the same ids next.
    pub open spec fn same_sequences(&self, other: &AppState) -> bool {
        &&& self.upcoming_course_id() == other.upcoming_course_id()
        &&& self.upcoming_module_id() == other.upcoming_module_id()
    }

    /// A store with no users, no payments and the seed course, whose two
    /// modules hold the module ids 1 and 2.
    pub fn new(jwt_secret: String) -> (state: AppState)
        ensures
            state.wf(),
            state.jwt_secret@ == jwt_secret@,
            state.users@ == Map::<u128, StoredUser>::empty(),
            state.payments@ == Seq::<Payment>::empty(),
            state.courses_view() == Map::<i32, CourseView>::empty().insert(1, seed_course()),
            state.upcoming_course_id() == 2,
            state.upcoming_module_id() == 3,
    {
        let mut courses: HashMap<i32, Course> = HashMap::new();
        let module_counter: i32 = 1;

        let mut intro_modules: Vec<CourseModule> = Vec::new();
        intro_modules.push(
            CourseModule {
                id: module_counter,
                title: String::from_str("Safety Basics"),
                content: String::from_str("Learn the foundational safety procedures before flying"),
            },
        );
        intro_modules.push(
            CourseModule {
                id: module_counter + 1,
                title: String::from_str("First Flight"),
                content: String::from_str("Step-by-step guide to your first supervised flight"),
            },
        );
        let module_counter: i32 = module_counter + 2;

        let mut resources: Vec<String> = Vec::new();
        resources.push(String::from_str("https://example.com/drone-checklist.pdf"));
        resources.push(String::from_str("https://example.com/flight-log.xlsx"));

        let course = Course {
            id: 1,
            title: String::from_str("Beginner Drone Operations"),
            description: String::from_str("Get started with hands-on drone piloting"),
            modules: intro_modules,
            resources,
        };
        assert(course@.modules =~= seed_course().modules);
        assert(course@.resources =~= seed_course().resources);
        courses.insert(1, course);

        let state = AppState {
            jwt_secret,
            users: HashMap::new(),
            courses,
            payments: Vec::new(),
            course_sequence: IdSequence::starting_at(2),
            module_sequence: IdSequence::starting_at(module_counter),
        };
        assert(state.courses_view() =~= Map::<i32, CourseView>::empty().insert(1, seed_course()));
        state
    }

    /// The ids of all users, each once, in the order in which the map
    /// yields them.
    pub fn user_ids(&self) -> (r: Vec<u128>)
        ensures
            r@.no_duplicates(),
            r@.to_set() == self.users@.dom(),
            r@.len() == self.users@.len(),
    {
        let mut out: Vec<u128> = Vec::new();
        let keys = self.users.keys();
        proof {
            axiom_spec_keys_iter(&self.users);
        }
        for k in it: keys
            invariant
                it.seq() == spec_keys_iter(&self.users).remaining(),
                out@.len() == it.index(),
                forall|j: int| 0 <= j < it.index() ==> out@[j] == *it.seq()[j],
        {
            out.push(*k);
        }
        proof {
            let keys_seq = spec_keys_iter(&self.users).remaining();
            assert(out@ =~= keys_seq.unref());
            assert forall|i: int, j: int| 0 <= i < out@.len() && 0 <= j < out@.len() && i != j implies out@[i] != out@[j] by {
                assert(keys_seq[i] != keys_seq[j]);
            }
        }
        out
    }

    /// The ids of all courses, each once, in the order in which the map
    /// yields them.
    pub fn course_ids(&self) -> (r: Vec<i32>)
        ensures
            r@.no_duplicates(),
            r@.to_set() == self.courses@.dom(),
            r@.len() == self.courses@.len(),
    {
        let mut out: Vec<i32> = Vec::new();
        let keys = self.courses.keys();
        proof {
            axiom_spec_keys_iter(&self.courses);
        }
        for k in it: keys
            invariant
                it.seq() == spec_keys_iter(&self.courses).remaining(),
                out@.len() == it.index(),
                forall|j: int| 0 <= j < it.index() ==> out@[j] == *it.seq()[j],
        {
            out.push(*k);
        }
        proof {
            let keys_seq = spec_keys_iter(&self.courses).remaining();
            assert(out@ =~= keys_seq.unref());
            assert forall|i: int, j: int| 0 <= i < out@.len() && 0 <= j < out@.len() && i != j implies out@[i] != out@[j] by {
                assert(keys_seq[i] != keys_seq[j]);
            }
        }
        out
    }

    /// The id that `next_course_id` would return.
    pub fn peek_course_id(&self) -> (r: i32)
        ensures
            r == self.upcoming_course_id(),
    {
        self.course_sequence.peek()
    }

    /// The id that `next_module_id` would return.
    pub fn peek_module_id(&self) -> (r: i32)
        ensures
            r == self.upcoming_module_id(),
    {
        self.module_sequence.peek()
    }

    /// Takes the next course id. No later call returns it again.
    pub fn next_course_id(&mut self) -> (r: i32)
        requires
            old(self).upcoming_course_id() < i32::MAX,
        ensures
            r == old(self).upcoming_course_id(),
            final(self).upcoming_course_id() == r + 1,
            final(self).upcoming_module_id() == old(self).upcoming_module_id(),
            old(self).stepped(final(self), IdStep::Course(r)),
            final(self).same_records(old(self)),
            old(self).wf() ==> final(self).wf(),
    {
        self.course_sequence.take()
    }

    /// Takes the next module id. No later call returns it again.
    pub fn next_module_id(&mut self) -> (r: i32)
        requires
            old(self).upcoming_module_id() < i32::MAX,
        ensures
            r == old(self).upcoming_module_id(),
            final(self).upcoming_module_id() == r + 1,
            final(self).upcoming_course_id() == old(self).upcoming_course_id(),
            old(self).stepped(final(self), IdStep::Module(r)),
            final(self).same_records(old(self)),
            old(self).wf() ==> final(self).wf(),
    {
        self.module_sequence.take()
    }

    /// Gives each module of `modules` the next free module id, in the order
    /// of the list.
    pub fn rotate_modules(&mut self, modules: Vec<NewCourseModule>) -> (r: Vec<CourseModule>)
        requires
            old(self).upcoming_module_id() + modules.len() <= i32::MAX,
        ensures
            r.len() == modules.len(),
            forall|j: int|
                0 <= j < r.len() ==> (#[trigger] r@[j])@ == (CourseModuleView {
                    id: (old(self).upcoming_module_id() + j) as i32,
                    title: modules@[j].title@,
                    content: modules@[j].content@,
                }),
            final(self).upcoming_module_id() == old(self).upcoming_module_id() + modules.len(),
            final(self).upcoming_course_id() == old(self).upcoming_course_id(),
            final(self).same_records(old(self)),
            old(self).wf() ==> final(self).wf(),
    {
        let mut out: Vec<CourseModule> = Vec::new();
        let mut i: usize = 0;
        while i < modules.len()
            invariant
                i <= modules.len(),
                out.len() == i,
                old(self).upcoming_module_id() + modules.len() <= i32::MAX,
                self.upcoming_module_id() == old(self).upcoming_module_id() + i,
                self.upcoming_course_id() == old(self).upcoming_course_id(),
                self.same_records(old(self)),
                old(self).wf() ==> self.wf(),
                forall|j: int|
                    0 <= j < i ==> (#[trigger] out@[j])@ == (CourseModuleView {
                        id: (old(self).upcoming_module_id() + j) as i32,
                        title: modules@[j].title@,
                        content: modules@[j].content@,
                    }),
            decreases modules.len() - i,
        {
            let id = self.next_module_id();
            out.push(
                CourseModule {
                    id,
                    title: modules[i].title.clone(),
                    content: modules[i].content.clone(),
                },
            );
            i = i + 1;
        }
        out
    }
}

/// Ids come out of a sequence in strictly increasing order: of two ids taken
/// from one sequence, with the sequence never moved back in between, the
/// later is the greater, so no two are equal.
pub proof fn lemma_ids_increase(
    before_first: IdSequence,
    after_first: IdSequence,
    before_second: IdSequence,
    after_second: IdSequence,
    first: i32,
    second: i32,
)
    requires
        IdSequence::took(before_first, after_first, first),
        after_first.upcoming() <= before_second.upcoming(),
        IdSequence::took(before_second, after_second, second),
    ensures
        first < second,
        before_first.upcoming() < after_second.upcoming(),
{
}

/// Over a run of calls neither sequence ever moves back.
pub proof fn lemma_history_never_moves_back(
    states: Seq<AppState>,
    steps: Seq<IdStep>,
    i: int,
    j: int,
)
    requires
        is_history(states, steps),
        0 <= i <= j < states.len(),
    ensures
        states[i].upcoming_course_id() <= states[j].upcoming_course_id(),
        states[i].upcoming_module_id() <= states[j].upcoming_module_id(),
    decreases j - i,
{
    if i < j {
        lemma_history_never_moves_back(states, steps, i, j - 1);
        assert(states[j - 1].stepped(&states[j], steps[j - 1]));
    }
}

/// Over a run of any number of calls, in whatever order the callers got
/// hold of the store, the course ids that were taken are strictly
/// increasing and so pairwise distinct, and so are the module ids; a call
/// that takes from one sequence neither uses up nor repeats an id of the
/// other.
pub proof fn lemma_history_ids_distinct(
    states: Seq<AppState>,
    steps: Seq<IdStep>,
    i: int,
    j: int,
)
    requires
        is_history(states, steps),
        0 <= i < j < steps.len(),
    ensures
        match (steps[i], steps[j]) {
            (IdStep::Course(a), IdStep::Course(b)) => a < b,
            (IdStep::Module(a), IdStep::Module(b)) => a < b,
            _ => true,
        },
{
    assert(states[i].stepped(&states[i + 1], steps[i]));
    assert(states[j].stepped(&states[j + 1], steps[j]));
    lemma_history_never_moves_back(states, steps, i + 1, j);
}

/// An id that the course sequence has not handed out yet names no course.
pub proof fn lemma_unissued_course_absent(state: AppState, course_id: i32)
    requires
        state.wf(),
        course_id >= state.upcoming_course_id(),
    ensures
        !state.courses@.contains_key(course_id),
{
}

} // verus!
