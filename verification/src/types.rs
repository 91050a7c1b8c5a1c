//! The message shapes of the login, identity and directory entry
//! points, and the identity summary they report.

use crate::models::Project;
use crate::user::User;
use vstd::prelude::*;

verus! {

/// A plain confirmation or error message.
#[derive(Clone, Debug)]
pub struct GenericMessage {
    pub message: String,
}

/// A login request: the credentials as submitted.
#[derive(Clone, Debug)]
pub struct LoginMessage {
    pub username: String,
    pub password: String,
}

/// The identity summary reported after login and by the identity
/// entry point.
#[derive(Clone, Debug)]
pub struct WhoAmIMessage {
    pub email: String,
    pub name: String,
    pub user_type: String,
}

/// A list of projects with their staff.
#[derive(Clone, Debug)]
pub struct ProjectList {
    pub projects: Vec<crate::models::ProjectWithStaff>,
}

/// A list of staff members.
#[derive(Clone, Debug)]
pub struct StaffList {
    pub staff: Vec<crate::models::Staff>,
}

/// Staff members to be created.
#[derive(Clone, Debug)]
pub struct NewStaffList {
    pub staff: Vec<crate::models::new::Staff>,
}

/// A list of students.
#[derive(Clone, Debug)]
pub struct StudentList {
    pub students: Vec<crate::models::Student>,
}

/// Students to be created.
#[derive(Clone, Debug)]
pub struct NewStudentList {
    pub students: Vec<NewStudentEntry>,
}

/// One student to be created.
#[derive(Clone, Debug)]
pub struct NewStudentEntry {
    pub email: String,
    pub full_name: String,
}

/// A bookmark request naming a project.
#[derive(Clone, Debug)]
pub struct MarkMessage {
    pub id: i32,
}

/// The projects a student has bookmarked.
#[derive(Clone, Debug)]
pub struct MarkList {
    pub projects: Vec<i32>,
}

/// A comment submission.
#[derive(Clone, Debug)]
pub struct CommentMessage {
    pub comment: Option<String>,
}

/// A project with the fields a report needs.
#[derive(Clone, Debug)]
pub struct ProjectStripped {
    pub id: i32,
    pub name: String,
    pub supervisor_name: String,
    pub supervisor_email: String,
}

impl From<Project> for ProjectStripped {
    fn from(proj: Project) -> (r: Self) {
        ProjectStripped {
            id: proj.id,
            name: proj.name,
            supervisor_name: proj.supervisor_name,
            supervisor_email: proj.supervisor_email,
        }
    }
}

impl vstd::std_specs::convert::FromSpecImpl<Project> for ProjectStripped {
    open spec fn obeys_from_spec() -> bool {
        true
    }

    open spec fn from_spec(proj: Project) -> Self {
        ProjectStripped {
            id: proj.id,
            name: proj.name,
            supervisor_name: proj.supervisor_name,
            supervisor_email: proj.supervisor_email,
        }
    }
}

/// The selections a report groups by student.
#[derive(Clone, Debug)]
pub struct SessionReportByStudent {
    pub student: i32,
    /// Project identifiers, best to worst.
    pub choices: Vec<i32>,
    /// For each adjacent pair of choices, whether they rank equal.
    pub is_eq: Vec<bool>,
}

/// The selections a report groups by project.
#[derive(Clone, Debug)]
pub struct SessionReportByProject {
    pub project: i32,
    /// For each rank, the students who chose the project at that rank.
    pub selections: Vec<Vec<i32>>,
    /// For each rank, whether the matching student ranked it equal to
    /// another choice.
    pub is_eq: Vec<Vec<bool>>,
}

/// The role name a user is reported under.
pub open spec fn spec_user_type(usr: User) -> Seq<char> {
    match usr {
        User::Staff(s) => if s.is_admin {
            "admin"@
        } else {
            "staff"@
        },
        User::Student(_) => "student"@,
    }
}

/// The identity summary of a resolved user: email, full name, and the
/// role name `admin`, `staff` or `student`.
pub fn whoami(usr: &User) -> (r: WhoAmIMessage)
    ensures
        r.email@ == usr.email_view(),
        r.name@ == usr.full_name_view(),
        r.user_type@ == spec_user_type(*usr),
{
    let user_type: &str = match usr {
        User::Staff(s) => if s.is_admin {
            "admin"
        } else {
            "staff"
        },
        User::Student(_) => "student",
    };
    WhoAmIMessage { email: usr.email(), name: usr.full_name(), user_type: user_type.to_owned() }
}

} // verus!
