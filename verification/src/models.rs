use vstd::prelude::*;

verus! {

// Stored entities carry server-generated timestamps (seconds since the Unix
// epoch) and, where the entity is soft-deletable, the deletion marker.
// Response projections expose only the client-facing fields: converting a
// stored entity forward is total and drops nothing the client supplied.

/// The mathematical image of a stored user.
pub struct UserSpec {
    pub id: int,
    pub name: Seq<char>,
    pub email: Seq<char>,
    pub created_at: int,
    pub updated_at: int,
    pub deleted_at: Option<int>,
}

/// A user as the store holds it.
#[derive(Debug, Clone, PartialEq)]
pub struct DatabaseUser {
    pub id: i64,
    pub name: String,
    pub email: String,
    pub created_at: i64,
    pub updated_at: i64,
    pub deleted_at: Option<i64>,
}

impl View for DatabaseUser {
    type V = UserSpec;

    open spec fn view(&self) -> UserSpec {
        UserSpec {
            id: self.id as int,
            name: self.name@,
            email: self.email@,
            created_at: self.created_at as int,
            updated_at: self.updated_at as int,
            deleted_at: match self.deleted_at {
                Option::Some(t) => Option::Some(t as int),
                Option::None => Option::None,
            },
        }
    }
}

/// The mathematical image of a user's response projection.
pub struct ResponseUserSpec {
    pub id: int,
    pub name: Seq<char>,
    pub email: Seq<char>,
}

/// A user as clients see it: no timestamps, no soft-delete marker.
#[derive(Debug, Clone, PartialEq)]
pub struct ResponseUser {
    pub id: i64,
    pub name: String,
    pub email: String,
}

impl View for ResponseUser {
    type V = ResponseUserSpec;

    open spec fn view(&self) -> ResponseUserSpec {
        ResponseUserSpec { id: self.id as int, name: self.name@, email: self.email@ }
    }
}

/// The projection of a stored user.
pub open spec fn user_projection(u: UserSpec) -> ResponseUserSpec {
    ResponseUserSpec { id: u.id, name: u.name, email: u.email }
}

impl ResponseUser {
    /// Project a stored user to its response shape.
    pub fn from(user: DatabaseUser) -> (r: ResponseUser)
        ensures
            r@ == user_projection(user@),
    {
        ResponseUser { id: user.id, name: user.name, email: user.email }
    }
}

/// The law of the projection: it carries exactly the user-facing fields.
/// Two stored users project to the same response if and only if they agree on
/// id, name and e-mail — the projection invents no field and, up to the
/// server-generated timestamps and deletion marker, drops none.
pub proof fn lemma_user_projection_faithful(a: UserSpec, b: UserSpec)
    ensures
        user_projection(a) == user_projection(b) <==> (a.id == b.id && a.name == b.name && a.email
            == b.email),
{
}

/// A task status as the store holds it.
#[derive(Debug, Clone, PartialEq)]
pub struct DatabaseStatus {
    pub id: i64,
    pub name: String,
    pub description: String,
}

/// A task status as clients see it.
#[derive(Debug, Clone, PartialEq)]
pub struct ResponseStatus {
    pub id: i64,
    pub name: String,
    pub description: String,
}

impl ResponseStatus {
    /// Project a stored status to its response shape.
    pub fn from(status: DatabaseStatus) -> (r: ResponseStatus)
        ensures
            r.id == status.id,
            r.name@ == status.name@,
            r.description@ == status.description@,
    {
        ResponseStatus { id: status.id, name: status.name, description: status.description }
    }
}

/// A task type as the store holds it.
#[derive(Debug, Clone, PartialEq)]
pub struct DatabaseTaskType {
    pub id: i64,
    pub name: String,
    pub description: String,
}

/// A task type as clients see it.
#[derive(Debug, Clone, PartialEq)]
pub struct ResponseTaskType {
    pub id: i64,
    pub name: String,
    pub description: String,
}

impl ResponseTaskType {
    /// Project a stored task type to its response shape.
    pub fn from(task_type: DatabaseTaskType) -> (r: ResponseTaskType)
        ensures
            r.id == task_type.id,
            r.name@ == task_type.name@,
            r.description@ == task_type.description@,
    {
        ResponseTaskType {
            id: task_type.id,
            name: task_type.name,
            description: task_type.description,
        }
    }
}

/// A task as the store holds it.
#[derive(Debug, Clone, PartialEq)]
pub struct DatabaseTask {
    pub id: i64,
    pub user_id: i64,
    pub status_id: i64,
    pub parent_id: Option<i64>,
    pub task_type_id: i64,
    pub title: String,
    pub description: String,
    pub created_at: i64,
    pub updated_at: i64,
    pub deleted_at: Option<i64>,
}

/// A task as clients see it: no timestamps, no soft-delete marker.
#[derive(Debug, Clone, PartialEq)]
pub struct ResponseTask {
    pub id: i64,
    pub user_id: i64,
    pub status_id: i64,
    pub parent_id: Option<i64>,
    pub task_type_id: i64,
    pub title: String,
    pub description: String,
}

impl ResponseTask {
    /// Project a stored task to its response shape.
    pub fn from(task: DatabaseTask) -> (r: ResponseTask)
        ensures
            r.id == task.id,
            r.user_id == task.user_id,
            r.status_id == task.status_id,
            r.parent_id == task.parent_id,
            r.task_type_id == task.task_type_id,
            r.title@ == task.title@,
            r.description@ == task.description@,
    {
        ResponseTask {
            id: task.id,
            user_id: task.user_id,
            status_id: task.status_id,
            parent_id: task.parent_id,
            task_type_id: task.task_type_id,
            title: task.title,
            description: task.description,
        }
    }
}

/// A comment as the store holds it.
#[derive(Debug, Clone, PartialEq)]
pub struct DatabaseComment {
    pub id: i64,
    pub task_id: i64,
    pub user_id: i64,
    pub parent_id: Option<i64>,
    pub comment: String,
    pub created_at: i64,
    pub updated_at: i64,
    pub delete_at: Option<i64>,
}

/// A comment as clients see it.
#[derive(Debug, Clone, PartialEq)]
pub struct ResponseComment {
    pub id: i64,
    pub task_id: i64,
    pub user_id: i64,
    pub parent_id: Option<i64>,
    pub comment: String,
}

impl ResponseComment {
    /// Project a stored comment to its response shape.
    pub fn from(comment: DatabaseComment) -> (r: ResponseComment)
        ensures
            r.id == comment.id,
            r.task_id == comment.task_id,
            r.user_id == comment.user_id,
            r.parent_id == comment.parent_id,
            r.comment@ == comment.comment@,
    {
        ResponseComment {
            id: comment.id,
            task_id: comment.task_id,
            user_id: comment.user_id,
            parent_id: comment.parent_id,
            comment: comment.comment,
        }
    }
}

} // verus!
