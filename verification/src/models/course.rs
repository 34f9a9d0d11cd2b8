//! Courses, their modules, and the payloads that create and update them.

use vstd::prelude::*;

verus! {

/// Mathematical value of a [`CourseModule`].
pub struct CourseModuleView {
    pub id: i32,
    pub title: Seq<char>,
    pub content: Seq<char>,
}

/// Mathematical value of a [`Course`].
pub struct CourseView {
    pub id: i32,
    pub title: Seq<char>,
    pub description: Seq<char>,
    pub modules: Seq<CourseModuleView>,
    pub resources: Seq<Seq<char>>,
}

/// One unit of a course. Its id is unique across all courses.
#[derive(Debug)]
pub struct CourseModule {
    pub id: i32,
    pub title: String,
    pub content: String,
}

/// A course with its modules and resource links.
#[derive(Debug)]
pub struct Course {
    pub id: i32,
    pub title: String,
    pub description: String,
    pub modules: Vec<CourseModule>,
    pub resources: Vec<String>,
}

/// A module as the caller describes it, before it has an id.
#[derive(Debug)]
pub struct NewCourseModule {
    pub title: String,
    pub content: String,
}

/// A course as the caller describes it, before it has an id.
#[derive(Debug)]
pub struct NewCourse {
    pub title: String,
    pub description: String,
    pub modules: Vec<NewCourseModule>,
    pub resources: Vec<String>,
}

/// A partial update of a course: only the fields that are present change.
#[derive(Debug)]
pub struct UpdateCourse {
    pub title: Option<String>,
    pub description: Option<String>,
    pub resources: Option<Vec<String>>,
}

/// The texts of a list of strings.
pub open spec fn texts_view(v: Seq<String>) -> Seq<Seq<char>> {
    v.map_values(|s: String| s@)
}

/// The values of a list of modules.
pub open spec fn modules_view(v: Seq<CourseModule>) -> Seq<CourseModuleView> {
    v.map_values(|m: CourseModule| m@)
}

impl View for CourseModule {
    type V = CourseModuleView;

    open spec fn view(&self) -> CourseModuleView {
        CourseModuleView { id: self.id, title: self.title@, content: self.content@ }
    }
}

impl View for Course {
    type V = CourseView;

    open spec fn view(&self) -> CourseView {
        CourseView {
            id: self.id,
            title: self.title@,
            description: self.description@,
            modules: modules_view(self.modules@),
            resources: texts_view(self.resources@),
        }
    }
}

impl Clone for CourseModule {
    fn clone(&self) -> (r: Self)
        ensures
            r@ == self@,
    {
        CourseModule { id: self.id, title: self.title.clone(), content: self.content.clone() }
    }
}

impl Clone for Course {
    fn clone(&self) -> (r: Self)
        ensures
            r@ == self@,
    {
        Course {
            id: self.id,
            title: self.title.clone(),
            description: self.description.clone(),
            modules: clone_modules(&self.modules),
            resources: clone_texts(&self.resources),
        }
    }
}

/// A copy of a list of strings, text for text.
pub fn clone_texts(v: &Vec<String>) -> (r: Vec<String>)
    ensures
        texts_view(r@) == texts_view(v@),
{
    let mut out: Vec<String> = Vec::new();
    let mut i: usize = 0;
    while i < v.len()
        invariant
            i <= v.len(),
            out.len() == i,
            forall|j: int| 0 <= j < i ==> (#[trigger] out@[j])@ == v@[j]@,
        decreases v.len() - i,
    {
        out.push(v[i].clone());
        i = i + 1;
    }
    assert(texts_view(out@) =~= texts_view(v@));
    out
}

/// A copy of a list of modules, value for value.
pub fn clone_modules(v: &Vec<CourseModule>) -> (r: Vec<CourseModule>)
    ensures
        modules_view(r@) == modules_view(v@),
{
    let mut out: Vec<CourseModule> = Vec::new();
    let mut i: usize = 0;
    while i < v.len()
        invariant
            i <= v.len(),
            out.len() == i,
            forall|j: int| 0 <= j < i ==> (#[trigger] out@[j])@ == v@[j]@,
        decreases v.len() - i,
    {
        out.push(v[i].clone());
        i = i + 1;
    }
    assert(modules_view(out@) =~= modules_view(v@));
    out
}

} // verus!
