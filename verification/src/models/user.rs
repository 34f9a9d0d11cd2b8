//! Users, their progress records, and the payloads of the account service.

use vstd::prelude::*;
use vstd::seq_lib::seq_to_set_is_finite;

verus! {

/// Share of a course that is completed, as an exact fraction. `total` is
/// never zero: a record without modules yields `0 / 1`.
#[derive(Clone, Copy, Debug, PartialEq, Eq, Structural)]
pub struct CompletionRatio {
    pub completed: usize,
    pub total: i32,
}

/// Mathematical value of a [`CourseProgress`].
pub struct CourseProgressView {
    pub course_id: i32,
    pub completed_modules: Seq<i32>,
    pub total_modules: i32,
}

impl CourseProgressView {
    /// The number of modules that are completed: the ids form a set, so an
    /// id that is listed twice counts once.
    pub open spec fn completed_count(self) -> nat {
        self.completed_modules.to_set().len()
    }

    /// Completed modules over total modules, and zero where the record
    /// counts no modules at all.
    pub open spec fn completion_ratio(self) -> CompletionRatio {
        if self.total_modules == 0 {
            CompletionRatio { completed: 0, total: 1 }
        } else {
            CompletionRatio {
                completed: self.completed_count() as usize,
                total: self.total_modules,
            }
        }
    }

    /// What a progress report says of this record.
    pub open spec fn summary(self) -> ProgressSummary {
        ProgressSummary { course_id: self.course_id, completion: self.completion_ratio() }
    }
}

/// How far one user has come in one course.
#[derive(Debug)]
pub struct CourseProgress {
    pub course_id: i32,
    pub completed_modules: Vec<i32>,
    pub total_modules: i32,
}

impl View for CourseProgress {
    type V = CourseProgressView;

    open spec fn view(&self) -> CourseProgressView {
        CourseProgressView {
            course_id: self.course_id,
            completed_modules: self.completed_modules@,
            total_modules: self.total_modules,
        }
    }
}

impl Clone for CourseProgress {
    fn clone(&self) -> (r: Self)
        ensures
            r@ == self@,
    {
        CourseProgress {
            course_id: self.course_id,
            completed_modules: self.completed_modules.clone(),
            total_modules: self.total_modules,
        }
    }
}

impl CourseProgress {
    /// The completed share of the course; zero, not a fault, where the
    /// record counts no modules.
    pub fn completion_ratio(&self) -> (r: CompletionRatio)
        ensures
            r == self@.completion_ratio(),
            r.total != 0,
    {
        if self.total_modules == 0 {
            CompletionRatio { completed: 0, total: 1 }
        } else {
            CompletionRatio {
                completed: count_distinct(&self.completed_modules),
                total: self.total_modules,
            }
        }
    }
}

/// The number of different ids in a list.
pub fn count_distinct(ids: &Vec<i32>) -> (r: usize)
    ensures
        r == ids@.to_set().len(),
        r <= ids.len(),
{
    let mut count: usize = 0;
    let mut i: usize = 0;
    assert(ids@.take(0).to_set() =~= Set::<i32>::empty());
    while i < ids.len()
        invariant
            i <= ids.len(),
            count == ids@.take(i as int).to_set().len(),
            count <= i,
        decreases ids.len() - i,
    {
        let mut seen = false;
        let mut j: usize = 0;
        while j < i
            invariant
                j <= i < ids.len(),
                seen == (exists|k: int| 0 <= k < j && ids@[k] == ids@[i as int]),
            decreases i - j,
        {
            if ids[j] == ids[i] {
                seen = true;
            }
            j = j + 1;
        }
        proof {
            let before = ids@.take(i as int);
            let id = ids@[i as int];
            assert(ids@.take(i + 1) =~= before.push(id));
            before.lemma_push_to_set_commute(id);
            seq_to_set_is_finite(before);
            if seen {
                let k = choose|k: int| 0 <= k < i && ids@[k] == id;
                assert(before[k] == id);
                assert(before.to_set().contains(id));
            } else {
                if before.to_set().contains(id) {
                    let k = choose|k: int| 0 <= k < before.len() && before[k] == id;
                    assert(ids@[k] == id);
                }
            }
        }
        if !seen {
            count = count + 1;
        }
        i = i + 1;
    }
    assert(ids@.take(i as int) =~= ids@);
    count
}

/// The values of a list of progress records.
pub open spec fn progress_view(v: Seq<CourseProgress>) -> Seq<CourseProgressView> {
    v.map_values(|p: CourseProgress| p@)
}

/// A copy of a list of progress records, value for value.
pub fn clone_progress(v: &Vec<CourseProgress>) -> (r: Vec<CourseProgress>)
    ensures
        progress_view(r@) == progress_view(v@),
{
    let mut out: Vec<CourseProgress> = Vec::new();
    let mut i: usize = 0;
    while i < v.len()
        invariant
            i <= v.len(),
            out.len() == i,
            forall|j: int| 0 <= j < i ==> (#[trigger] out@[j])@ == v@[j]@,
        decreases v.len() - i,
    {
        out.push(v[i].clone());
        i = i + 1;
    }
    assert(progress_view(out@) =~= progress_view(v@));
    out
}

/// What a user may do.
#[derive(Clone, Copy, Debug, PartialEq, Eq, Structural)]
pub enum UserRole {
    Student,
    Admin,
}

/// Mathematical value of a [`StoredUser`].
pub struct StoredUserView {
    pub id: u128,
    pub name: Seq<char>,
    pub email: Seq<char>,
    pub password_hash: Seq<char>,
    pub role: UserRole,
    pub progress: Seq<CourseProgressView>,
}

/// Mathematical value of a [`UserProfile`]: a user without the credential.
pub struct UserProfileView {
    pub id: u128,
    pub name: Seq<char>,
    pub email: Seq<char>,
    pub role: UserRole,
    pub progress: Seq<CourseProgressView>,
}

impl StoredUserView {
    /// The public projection of a user: every field but the credential hash.
    pub open spec fn profile(self) -> UserProfileView {
        UserProfileView {
            id: self.id,
            name: self.name,
            email: self.email,
            role: self.role,
            progress: self.progress,
        }
    }
}

/// A user as the store keeps it, credential hash included. The id is the
/// 128-bit value of the user's UUID.
#[derive(Debug)]
pub struct StoredUser {
    pub id: u128,
    pub name: String,
    pub email: String,
    pub password_hash: String,
    pub role: UserRole,
    pub progress: Vec<CourseProgress>,
}

/// A user as callers see it: no credential hash.
#[derive(Debug)]
pub struct UserProfile {
    pub id: u128,
    pub name: String,
    pub email: String,
    pub role: UserRole,
    pub progress: Vec<CourseProgress>,
}

impl View for StoredUser {
    type V = StoredUserView;

    open spec fn view(&self) -> StoredUserView {
        StoredUserView {
            id: self.id,
            name: self.name@,
            email: self.email@,
            password_hash: self.password_hash@,
            role: self.role,
            progress: progress_view(self.progress@),
        }
    }
}

impl View for UserProfile {
    type V = UserProfileView;

    open spec fn view(&self) -> UserProfileView {
        UserProfileView {
            id: self.id,
            name: self.name@,
            email: self.email@,
            role: self.role,
            progress: progress_view(self.progress@),
        }
    }
}

impl Clone for StoredUser {
    fn clone(&self) -> (r: Self)
        ensures
            r@ == self@,
    {
        StoredUser {
            id: self.id,
            name: self.name.clone(),
            email: self.email.clone(),
            password_hash: self.password_hash.clone(),
            role: self.role,
            progress: clone_progress(&self.progress),
        }
    }
}

impl Clone for UserProfile {
    fn clone(&self) -> (r: Self)
        ensures
            r@ == self@,
    {
        UserProfile {
            id: self.id,
            name: self.name.clone(),
            email: self.email.clone(),
            role: self.role,
            progress: clone_progress(&self.progress),
        }
    }
}

impl StoredUser {
    /// The public profile of this user. The credential hash has no place in
    /// the result.
    pub fn as_profile(&self) -> (r: UserProfile)
        ensures
            r@ == self@.profile(),
    {
        UserProfile {
            id: self.id,
            name: self.name.clone(),
            email: self.email.clone(),
            role: self.role,
            progress: clone_progress(&self.progress),
        }
    }
}

/// Registration payload.
#[derive(Debug)]
pub struct NewUser {
    pub name: String,
    pub email: String,
    pub password: String,
}

/// Login payload.
#[derive(Debug)]
pub struct LoginRequest {
    pub email: String,
    pub password: String,
}

/// A partial update of a profile: only the fields that are present change.
#[derive(Debug)]
pub struct UpdateUser {
    pub name: Option<String>,
    pub password: Option<String>,
}

/// What a successful login returns: the signed token and the profile.
#[derive(Debug)]
pub struct AuthResponse {
    pub token: String,
    pub user: UserProfile,
}

/// Progress of one user in one course.
#[derive(Clone, Copy, Debug, PartialEq, Eq, Structural)]
pub struct ProgressSummary {
    pub course_id: i32,
    pub completion: CompletionRatio,
}

} // verus!
