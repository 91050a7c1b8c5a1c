//! Row types of the application's user and project directory, as far
//! as the authentication core reads them, and the conversions between
//! them.

use vstd::prelude::*;

pub mod new;

verus! {

/// A staff member of the application's own directory.
#[derive(Clone, Debug)]
pub struct Staff {
    pub id: i32,
    pub email: String,
    pub full_name: String,
    pub is_admin: bool,
}

/// A student of the application's own directory.
#[derive(Clone, Debug)]
pub struct Student {
    pub id: i32,
    pub email: String,
    pub full_name: String,
    pub last_session: Option<i32>,
}

/// A published project.
#[derive(Clone, Debug)]
pub struct Project {
    pub id: i32,
    pub session: i32,
    pub supervisor_name: String,
    pub supervisor_email: String,
    pub name: String,
    pub description_md: String,
}

/// A project together with the names of its additional staff.
#[derive(Clone, Debug)]
pub struct ProjectWithStaff {
    pub id: i32,
    pub session: i32,
    pub supervisor_name: String,
    pub supervisor_email: String,
    pub name: String,
    pub description_md: String,
    pub additional_staff: Vec<String>,
}

/// One additional staff assignment of a project.
#[derive(Clone, Debug)]
pub struct ProjectStaff {
    pub project: i32,
    pub staff: String,
}

/// A free-text comment a student left for a session.
#[derive(Clone, Debug)]
pub struct StudentComment {
    pub student: i32,
    pub session: i32,
    pub comment: Option<String>,
}

/// A student's bookmark of a project.
#[derive(Clone, Debug)]
pub struct StudentMark {
    pub student: i32,
    pub project: i32,
}

impl ProjectWithStaff {
    /// Joins a project with its staff assignments: every field of the
    /// project is kept, and the staff names are taken in order.
    pub fn from_project(p: Project, s: Vec<ProjectStaff>) -> (r: ProjectWithStaff)
        ensures
            r.id == p.id,
            r.session == p.session,
            r.supervisor_name == p.supervisor_name,
            r.supervisor_email == p.supervisor_email,
            r.name == p.name,
            r.description_md == p.description_md,
            r.additional_staff@.len() == s@.len(),
            forall|i: int|
                0 <= i < s@.len() ==> #[trigger] r.additional_staff@[i] == s@[i].staff,
    {
        let mut additional_staff: Vec<String> = Vec::new();
        let n = s.len();
        let mut i: usize = 0;
        while i < n
            invariant
                i <= n,
                n == s@.len(),
                additional_staff@.len() == i,
                forall|j: int|
                    0 <= j < i ==> #[trigger] additional_staff@[j] == s@[j].staff,
            decreases n - i,
        {
            additional_staff.push(s[i].staff.clone());
            i = i + 1;
        }
        ProjectWithStaff {
            id: p.id,
            session: p.session,
            supervisor_name: p.supervisor_name,
            supervisor_email: p.supervisor_email,
            name: p.name,
            description_md: p.description_md,
            additional_staff,
        }
    }
}

} // verus!
