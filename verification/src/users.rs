use vstd::prelude::*;
use vstd::string::*;

use crate::error::AppError;
use crate::models::DatabaseUser;
use crate::models::ResponseUser;
use crate::models::ResponseUserSpec;
use crate::models::UserSpec;
use crate::models::user_projection;
use crate::validation::Validate;
use crate::validation::Violation;
use crate::validation::ViolationSpec;
use crate::validation::email_ok;
use crate::validation::is_email;
use crate::validation::views_of;

verus! {

// ---------------------------------------------------------------------------
// Payloads and their declarative rules
// ---------------------------------------------------------------------------

/// The declared rules of a user payload: the name must be at least 3
/// characters (rule code "length"), the e-mail must have a valid shape (rule
/// code "email"). Both rules are always evaluated; their violations
/// aggregate in declaration order.
pub open spec fn user_payload_rules(name: Seq<char>, email: Seq<char>) -> Seq<ViolationSpec> {
    let name_rule = if name.len() < 3 {
        seq![
            ViolationSpec {
                field: "name"@,
                code: "length"@,
                message: "must be at least 3 characters long"@,
            },
        ]
    } else {
        Seq::<ViolationSpec>::empty()
    };
    let email_rule = if !is_email(email) {
        seq![
            ViolationSpec {
                field: "email"@,
                code: "email"@,
                message: "must be a valid email address"@,
            },
        ]
    } else {
        Seq::<ViolationSpec>::empty()
    };
    name_rule + email_rule
}

/// Evaluate the user payload rules on concrete fields.
fn check_user_rules(name: &String, email: &String) -> (r: Vec<Violation>)
    ensures
        views_of(r@) == user_payload_rules(name@, email@),
{
    let mut r: Vec<Violation> = Vec::new();
    if name.as_str().unicode_len() < 3 {
        r.push(Violation::new("name", "length", "must be at least 3 characters long"));
    }
    if !email_ok(email.as_str()) {
        r.push(Violation::new("email", "email", "must be a valid email address"));
    }
    proof {
        assert(views_of(r@) =~= user_payload_rules(name@, email@));
    }
    r
}

/// The payload of `POST /users`.
#[derive(Debug, Clone, PartialEq)]
pub struct CreateUser {
    pub name: String,
    pub email: String,
    pub display_name: String,
}

impl Validate for CreateUser {
    open spec fn violations_spec(&self) -> Seq<ViolationSpec> {
        user_payload_rules(self.name@, self.email@)
    }

    fn validate(&self) -> (r: Vec<Violation>) {
        check_user_rules(&self.name, &self.email)
    }
}

/// The payload of `PUT /users/{id}`.
#[derive(Debug, Clone, PartialEq)]
pub struct UpdateUser {
    pub name: String,
    pub email: String,
    pub display_name: String,
}

impl Validate for UpdateUser {
    open spec fn violations_spec(&self) -> Seq<ViolationSpec> {
        user_payload_rules(self.name@, self.email@)
    }

    fn validate(&self) -> (r: Vec<Violation>) {
        check_user_rules(&self.name, &self.email)
    }
}

// ---------------------------------------------------------------------------
// The user table
// ---------------------------------------------------------------------------

/// Whether a stored user is visible (not soft-deleted).
pub open spec fn active(u: UserSpec) -> bool {
    u.deleted_at is None
}

/// Well-formedness of the user table: ids are unique and below the id
/// generator, and names and e-mails are unique among non-deleted users.
/// Uniqueness is scoped to non-deleted users throughout: a soft-deleted
/// user's name or e-mail may be taken again.
pub open spec fn table_wf(t: Seq<UserSpec>, next_id: int) -> bool {
    &&& forall|i: int, j: int| 0 <= i < j < t.len() ==> t[i].id != t[j].id
    &&& forall|i: int| 0 <= i < t.len() ==> (#[trigger] t[i]).id < next_id
    &&& forall|i: int, j: int|
        0 <= i < j < t.len() && active(t[i]) && active(t[j]) ==> t[i].name != t[j].name
            && t[i].email != t[j].email
}

/// Some row (deleted or not) has this id.
pub open spec fn has_id_spec(t: Seq<UserSpec>, id: int) -> bool {
    exists|i: int| 0 <= i < t.len() && (#[trigger] t[i]).id == id
}

/// Some non-deleted row has this id.
pub open spec fn active_with_id(t: Seq<UserSpec>, id: int) -> bool {
    exists|i: int| 0 <= i < t.len() && active(#[trigger] t[i]) && t[i].id == id
}

/// Some non-deleted row has this e-mail.
pub open spec fn email_taken_spec(t: Seq<UserSpec>, email: Seq<char>) -> bool {
    exists|i: int| 0 <= i < t.len() && active(#[trigger] t[i]) && t[i].email == email
}

/// Some non-deleted row has this name.
pub open spec fn name_taken_spec(t: Seq<UserSpec>, name: Seq<char>) -> bool {
    exists|i: int| 0 <= i < t.len() && active(#[trigger] t[i]) && t[i].name == name
}

/// Some non-deleted row other than `id` has this e-mail.
pub open spec fn email_taken_by_other_spec(t: Seq<UserSpec>, id: int, email: Seq<char>) -> bool {
    exists|i: int|
        0 <= i < t.len() && active(#[trigger] t[i]) && t[i].id != id && t[i].email == email
}

/// Some non-deleted row other than `id` has this name.
pub open spec fn name_taken_by_other_spec(t: Seq<UserSpec>, id: int, name: Seq<char>) -> bool {
    exists|i: int|
        0 <= i < t.len() && active(#[trigger] t[i]) && t[i].id != id && t[i].name == name
}

/// The freshly inserted user for a create at time `now`.
pub open spec fn new_user_spec(id: int, name: Seq<char>, email: Seq<char>, now: int) -> UserSpec {
    UserSpec {
        id: id,
        name: name,
        email: email,
        created_at: now,
        updated_at: now,
        deleted_at: Option::None,
    }
}

/// A stored user after an update of its mutable fields at time `now`.
pub open spec fn updated_user_spec(
    u: UserSpec,
    name: Seq<char>,
    email: Seq<char>,
    now: int,
) -> UserSpec {
    UserSpec {
        id: u.id,
        name: name,
        email: email,
        created_at: u.created_at,
        updated_at: now,
        deleted_at: u.deleted_at,
    }
}

/// A stored user after being soft-deleted at time `now`.
pub open spec fn soft_deleted_spec(u: UserSpec, now: int) -> UserSpec {
    UserSpec {
        id: u.id,
        name: u.name,
        email: u.email,
        created_at: u.created_at,
        updated_at: u.updated_at,
        deleted_at: Option::Some(now),
    }
}

/// The users table: rows in insertion order plus the id generator. Rows are
/// never physically removed; deletion sets the soft-delete marker.
#[derive(Debug)]
pub struct UserTable {
    pub rows: Vec<DatabaseUser>,
    pub next_id: i64,
}

impl View for UserTable {
    type V = Seq<UserSpec>;

    open spec fn view(&self) -> Seq<UserSpec> {
        Seq::new(self.rows@.len(), |i: int| self.rows@[i]@)
    }
}

impl UserTable {
    /// Well-formedness of this table.
    pub open spec fn wf(&self) -> bool {
        table_wf(self@, self.next_id as int)
    }

    /// An empty table, ids starting at 1.
    pub fn new() -> (r: UserTable)
        ensures
            r@ == Seq::<UserSpec>::empty(),
            r.next_id == 1i64,
            r.wf(),
    {
        let t = UserTable { rows: Vec::new(), next_id: 1 };
        proof {
            assert(t@ =~= Seq::<UserSpec>::empty());
        }
        t
    }

    /// The index of the row with `id`, deleted or not.
    fn find_by_id(&self, id: i64) -> (r: Option<usize>)
        ensures
            match r {
                Option::Some(k) => k < self@.len() && self@[k as int].id == id as int,
                Option::None => !has_id_spec(self@, id as int),
            },
    {
        let mut k: usize = 0;
        let n = self.rows.len();
        while k < n
            invariant
                n == self@.len(),
                k <= n,
                forall|j: int| 0 <= j < k ==> (#[trigger] self@[j]).id != id as int,
            decreases n - k,
        {
            if self.rows[k].id == id {
                return Option::Some(k);
            }
            k += 1;
        }
        Option::None
    }

    /// The index of the non-deleted row with `id`.
    fn find_active_by_id(&self, id: i64) -> (r: Option<usize>)
        ensures
            match r {
                Option::Some(k) => k < self@.len() && self@[k as int].id == id as int && active(
                    self@[k as int],
                ),
                Option::None => !active_with_id(self@, id as int),
            },
    {
        let mut k: usize = 0;
        let n = self.rows.len();
        while k < n
            invariant
                n == self@.len(),
                k <= n,
                forall|j: int|
                    0 <= j < k ==> !(active(#[trigger] self@[j]) && self@[j].id == id as int),
            decreases n - k,
        {
            if self.rows[k].deleted_at.is_none() && self.rows[k].id == id {
                return Option::Some(k);
            }
            k += 1;
        }
        Option::None
    }

    /// Whether a non-deleted row has this e-mail.
    fn email_taken(&self, email: &String) -> (r: bool)
        ensures
            r == email_taken_spec(self@, email@),
    {
        let mut k: usize = 0;
        let n = self.rows.len();
        while k < n
            invariant
                n == self@.len(),
                k <= n,
                forall|j: int|
                    0 <= j < k ==> !(active(#[trigger] self@[j]) && self@[j].email == email@),
            decreases n - k,
        {
            if self.rows[k].deleted_at.is_none() && self.rows[k].email == *email {
                proof {
                    assert(active(self@[k as int]) && self@[k as int].email == email@);
                }
                return true;
            }
            k += 1;
        }
        false
    }

    /// Whether a non-deleted row has this name.
    fn name_taken(&self, name: &String) -> (r: bool)
        ensures
            r == name_taken_spec(self@, name@),
    {
        let mut k: usize = 0;
        let n = self.rows.len();
        while k < n
            invariant
                n == self@.len(),
                k <= n,
                forall|j: int|
                    0 <= j < k ==> !(active(#[trigger] self@[j]) && self@[j].name == name@),
            decreases n - k,
        {
            if self.rows[k].deleted_at.is_none() && self.rows[k].name == *name {
                proof {
                    assert(active(self@[k as int]) && self@[k as int].name == name@);
                }
                return true;
            }
            k += 1;
        }
        false
    }

    /// Whether a non-deleted row other than `id` has this e-mail.
    fn email_taken_by_other(&self, id: i64, email: &String) -> (r: bool)
        ensures
            r == email_taken_by_other_spec(self@, id as int, email@),
    {
        let mut k: usize = 0;
        let n = self.rows.len();
        while k < n
            invariant
                n == self@.len(),
                k <= n,
                forall|j: int|
                    0 <= j < k ==> !(active(#[trigger] self@[j]) && self@[j].id != id as int
                        && self@[j].email == email@),
            decreases n - k,
        {
            if self.rows[k].deleted_at.is_none() && self.rows[k].id != id && self.rows[k].email
                == *email {
                proof {
                    assert(active(self@[k as int]) && self@[k as int].id != id as int
                        && self@[k as int].email == email@);
                }
                return true;
            }
            k += 1;
        }
        false
    }

    /// Whether a non-deleted row other than `id` has this name.
    fn name_taken_by_other(&self, id: i64, name: &String) -> (r: bool)
        ensures
            r == name_taken_by_other_spec(self@, id as int, name@),
    {
        let mut k: usize = 0;
        let n = self.rows.len();
        while k < n
            invariant
                n == self@.len(),
                k <= n,
                forall|j: int|
                    0 <= j < k ==> !(active(#[trigger] self@[j]) && self@[j].id != id as int
                        && self@[j].name == name@),
            decreases n - k,
        {
            if self.rows[k].deleted_at.is_none() && self.rows[k].id != id && self.rows[k].name
                == *name {
                proof {
                    assert(active(self@[k as int]) && self@[k as int].id != id as int
                        && self@[k as int].name == name@);
                }
                return true;
            }
            k += 1;
        }
        false
    }
}

// ---------------------------------------------------------------------------
// Command handlers
// ---------------------------------------------------------------------------

/// The projections of the non-deleted users, in insertion order.
pub open spec fn list_spec(t: Seq<UserSpec>) -> Seq<ResponseUserSpec>
    decreases t.len(),
{
    if t.len() == 0 {
        Seq::empty()
    } else {
        let rest = list_spec(t.drop_last());
        if active(t.last()) {
            rest.push(user_projection(t.last()))
        } else {
            rest
        }
    }
}

/// The reply of a missing resource: 404 with the stable code "not_found".
pub open spec fn is_not_found(e: AppError) -> bool {
    match e {
        AppError::ServiceError(st, code, cause) => st == 404u16 && code@ == "not_found"@
            && cause is None,
        _ => false,
    }
}

/// A single-field business-rule conflict with the given field and code.
pub open spec fn is_field_conflict(e: AppError, field: Seq<char>, code: Seq<char>) -> bool {
    match e {
        AppError::Validation(f, c) => f@ == field && c@ == code,
        _ => false,
    }
}

/// `GET /users`: every non-deleted user, projected, in insertion order.
pub fn list(table: &UserTable) -> (r: Vec<ResponseUser>)
    ensures
        r@.map_values(|x: ResponseUser| x@) == list_spec(table@),
{
    let mut out: Vec<ResponseUser> = Vec::new();
    let mut i: usize = 0;
    while i < table.rows.len()
        invariant
            i <= table@.len(),
            out@.map_values(|x: ResponseUser| x@) == list_spec(table@.take(i as int)),
        decreases table@.len() - i,
    {
        proof {
            assert(table@.take(i + 1).drop_last() =~= table@.take(i as int));
            assert(table@.take(i + 1).last() == table@[i as int]);
        }
        if table.rows[i].deleted_at.is_none() {
            out.push(
                ResponseUser {
                    id: table.rows[i].id,
                    name: table.rows[i].name.clone(),
                    email: table.rows[i].email.clone(),
                },
            );
            proof {
                assert(out@.map_values(|x: ResponseUser| x@) =~= list_spec(
                    table@.take(i + 1),
                ));
            }
        }
        i += 1;
    }
    proof {
        assert(table@.take(table@.len() as int) =~= table@);
    }
    out
}

/// `GET /users/{id}`: the projection of the non-deleted user with `id`, or
/// 404 "not_found" — a soft-deleted id is as absent as a never-used one.
pub fn item(table: &UserTable, id: i64) -> (r: Result<ResponseUser, AppError>)
    ensures
        match r {
            Result::Ok(u) => exists|i: int|
                0 <= i < table@.len() && active(#[trigger] table@[i]) && table@[i].id == id as int
                    && u@ == user_projection(table@[i]),
            Result::Err(e) => !active_with_id(table@, id as int) && is_not_found(e),
        },
{
    match table.find_active_by_id(id) {
        Option::None => Result::Err(
            AppError::ServiceError(404, String::from_str("not_found"), Option::None),
        ),
        Option::Some(k) => Result::Ok(
            ResponseUser {
                id: table.rows[k].id,
                name: table.rows[k].name.clone(),
                email: table.rows[k].email.clone(),
            },
        ),
    }
}

/// `POST /users`: pre-check uniqueness among non-deleted users — e-mail
/// before name, first conflict wins, checks never aggregate — then insert
/// with a fresh id and both timestamps at `now`, and answer the projection.
pub fn create(table: &mut UserTable, payload: CreateUser, now: i64) -> (r: Result<
    ResponseUser,
    AppError,
>)
    requires
        old(table).wf(),
        old(table).next_id < i64::MAX,
    ensures
        final(table).wf(),
        email_taken_spec(old(table)@, payload.email@) ==> {
            &&& final(table)@ == old(table)@
            &&& final(table).next_id == old(table).next_id
            &&& (r matches Result::Err(e) && is_field_conflict(e, "email"@, "email_exists"@))
        },
        !email_taken_spec(old(table)@, payload.email@) && name_taken_spec(
            old(table)@,
            payload.name@,
        ) ==> {
            &&& final(table)@ == old(table)@
            &&& final(table).next_id == old(table).next_id
            &&& (r matches Result::Err(e) && is_field_conflict(e, "name"@, "name_exists"@))
        },
        !email_taken_spec(old(table)@, payload.email@) && !name_taken_spec(
            old(table)@,
            payload.name@,
        ) ==> {
            &&& final(table)@ == old(table)@.push(
                new_user_spec(
                    old(table).next_id as int,
                    payload.name@,
                    payload.email@,
                    now as int,
                ),
            )
            &&& final(table).next_id == old(table).next_id + 1
            &&& (r matches Result::Ok(u) && u@ == user_projection(
                new_user_spec(
                    old(table).next_id as int,
                    payload.name@,
                    payload.email@,
                    now as int,
                ),
            ))
        },
{
    if table.email_taken(&payload.email) {
        return Result::Err(
            AppError::Validation(String::from_str("email"), String::from_str("email_exists")),
        );
    }
    if table.name_taken(&payload.name) {
        return Result::Err(
            AppError::Validation(String::from_str("name"), String::from_str("name_exists")),
        );
    }
    let ghost pname = payload.name@;
    let ghost pemail = payload.email@;
    let id = table.next_id;
    let resp = ResponseUser { id, name: payload.name.clone(), email: payload.email.clone() };
    let row = DatabaseUser {
        id,
        name: payload.name,
        email: payload.email,
        created_at: now,
        updated_at: now,
        deleted_at: Option::None,
    };
    table.rows.push(row);
    table.next_id = id + 1;
    proof {
        let t0 = old(table)@;
        let t1 = table@;
        let nu = new_user_spec(id as int, pname, pemail, now as int);
        assert(t1 =~= t0.push(nu));
        assert forall|i: int, j: int| 0 <= i < j < t1.len() implies t1[i].id != t1[j].id by {
            if j == t1.len() - 1 {
                assert(t0[i].id < id as int);
            }
        }
        assert forall|i: int| 0 <= i < t1.len() implies (#[trigger] t1[i]).id
            < table.next_id as int by {
            if i < t1.len() - 1 {
                assert(t0[i].id < id as int);
            }
        }
        assert forall|i: int, j: int|
            0 <= i < j < t1.len() && active(t1[i]) && active(t1[j]) implies t1[i].name
            != t1[j].name && t1[i].email != t1[j].email by {
            if j == t1.len() - 1 {
                if t1[i].name == nu.name {
                    assert(name_taken_spec(t0, pname));
                }
                if t1[i].email == nu.email {
                    assert(email_taken_spec(t0, pemail));
                }
            }
        }
    }
    Result::Ok(resp)
}

/// `PUT /users/{id}`: 404 "not_found" only if no row (deleted or not) has
/// `id`; then reject a name or e-mail held by a different non-deleted user —
/// name before e-mail, first conflict wins; otherwise overwrite the mutable
/// fields, stamp `updated_at`, and answer the projection. The table is
/// borrowed exclusively for the whole call, so no row can disappear between
/// the existence check and the write.
pub fn update(table: &mut UserTable, id: i64, payload: UpdateUser, now: i64) -> (r: Result<
    ResponseUser,
    AppError,
>)
    requires
        old(table).wf(),
    ensures
        final(table).wf(),
        final(table).next_id == old(table).next_id,
        !has_id_spec(old(table)@, id as int) ==> {
            &&& final(table)@ == old(table)@
            &&& (r matches Result::Err(e) && is_not_found(e))
        },
        has_id_spec(old(table)@, id as int) && name_taken_by_other_spec(
            old(table)@,
            id as int,
            payload.name@,
        ) ==> {
            &&& final(table)@ == old(table)@
            &&& (r matches Result::Err(e) && is_field_conflict(
                e,
                "name"@,
                "name_user_by_another_user"@,
            ))
        },
        has_id_spec(old(table)@, id as int) && !name_taken_by_other_spec(
            old(table)@,
            id as int,
            payload.name@,
        ) && email_taken_by_other_spec(old(table)@, id as int, payload.email@) ==> {
            &&& final(table)@ == old(table)@
            &&& (r matches Result::Err(e) && is_field_conflict(
                e,
                "email"@,
                "email_used_by_another_user"@,
            ))
        },
        has_id_spec(old(table)@, id as int) && !name_taken_by_other_spec(
            old(table)@,
            id as int,
            payload.name@,
        ) && !email_taken_by_other_spec(old(table)@, id as int, payload.email@) ==> exists|k: int|
            {
                &&& 0 <= k < old(table)@.len()
                &&& (#[trigger] old(table)@[k]).id == id as int
                &&& final(table)@ == old(table)@.update(
                    k,
                    updated_user_spec(old(table)@[k], payload.name@, payload.email@, now as int),
                )
                &&& (r matches Result::Ok(u) && u@ == (ResponseUserSpec {
                    id: id as int,
                    name: payload.name@,
                    email: payload.email@,
                }))
            },
{
    let found = table.find_by_id(id);
    match found {
        Option::None => Result::Err(
            AppError::ServiceError(404, String::from_str("not_found"), Option::None),
        ),
        Option::Some(k) => {
            if table.name_taken_by_other(id, &payload.name) {
                return Result::Err(
                    AppError::Validation(
                        String::from_str("name"),
                        String::from_str("name_user_by_another_user"),
                    ),
                );
            }
            if table.email_taken_by_other(id, &payload.email) {
                return Result::Err(
                    AppError::Validation(
                        String::from_str("email"),
                        String::from_str("email_used_by_another_user"),
                    ),
                );
            }
            let ghost pname = payload.name@;
            let ghost pemail = payload.email@;
            let resp = ResponseUser {
                id,
                name: payload.name.clone(),
                email: payload.email.clone(),
            };
            table.rows[k].name = payload.name;
            table.rows[k].email = payload.email;
            table.rows[k].updated_at = now;
            proof {
                let t0 = old(table)@;
                let t1 = table@;
                let us = updated_user_spec(t0[k as int], pname, pemail, now as int);
                assert(t1 =~= t0.update(k as int, us));
                assert forall|i: int, j: int| 0 <= i < j < t1.len() implies t1[i].id
                    != t1[j].id by {
                    assert(t1[i].id == t0[i].id && t1[j].id == t0[j].id);
                }
                assert forall|i: int| 0 <= i < t1.len() implies (#[trigger] t1[i]).id
                    < table.next_id as int by {
                    assert(t1[i].id == t0[i].id);
                }
                assert forall|i: int, j: int|
                    0 <= i < j < t1.len() && active(t1[i]) && active(t1[j]) implies t1[i].name
                    != t1[j].name && t1[i].email != t1[j].email by {
                    if i == k as int {
                        assert(t0[j].id != t0[k as int].id);
                        if t0[j].name == pname {
                            assert(name_taken_by_other_spec(t0, id as int, pname));
                        }
                        if t0[j].email == pemail {
                            assert(email_taken_by_other_spec(t0, id as int, pemail));
                        }
                    } else if j == k as int {
                        assert(t0[i].id != t0[k as int].id);
                        if t0[i].name == pname {
                            assert(name_taken_by_other_spec(t0, id as int, pname));
                        }
                        if t0[i].email == pemail {
                            assert(email_taken_by_other_spec(t0, id as int, pemail));
                        }
                    }
                }
            }
            Result::Ok(resp)
        },
    }
}

/// `DELETE /users/{id}`: 404 "not_found" unless a non-deleted row has `id`;
/// otherwise set its soft-delete marker to `now`. Removing the same id again
/// finds nothing — deliberately, not as a bug.
pub fn remove(table: &mut UserTable, id: i64, now: i64) -> (r: Result<(), AppError>)
    requires
        old(table).wf(),
    ensures
        final(table).wf(),
        final(table).next_id == old(table).next_id,
        !active_with_id(old(table)@, id as int) ==> {
            &&& final(table)@ == old(table)@
            &&& (r matches Result::Err(e) && is_not_found(e))
        },
        active_with_id(old(table)@, id as int) ==> exists|k: int|
            {
                &&& 0 <= k < old(table)@.len()
                &&& active(#[trigger] old(table)@[k])
                &&& old(table)@[k].id == id as int
                &&& final(table)@ == old(table)@.update(
                    k,
                    soft_deleted_spec(old(table)@[k], now as int),
                )
                &&& r is Ok
            },
{
    match table.find_active_by_id(id) {
        Option::None => Result::Err(
            AppError::ServiceError(404, String::from_str("not_found"), Option::None),
        ),
        Option::Some(k) => {
            table.rows[k].deleted_at = Option::Some(now);
            proof {
                let t0 = old(table)@;
                let t1 = table@;
                let us = soft_deleted_spec(t0[k as int], now as int);
                assert(t1 =~= t0.update(k as int, us));
                assert forall|i: int, j: int| 0 <= i < j < t1.len() implies t1[i].id
                    != t1[j].id by {
                    assert(t1[i].id == t0[i].id && t1[j].id == t0[j].id);
                }
                assert forall|i: int| 0 <= i < t1.len() implies (#[trigger] t1[i]).id
                    < table.next_id as int by {
                    assert(t1[i].id == t0[i].id);
                }
                assert forall|i: int, j: int|
                    0 <= i < j < t1.len() && active(t1[i]) && active(t1[j]) implies t1[i].name
                    != t1[j].name && t1[i].email != t1[j].email by {
                    assert(i != k as int && j != k as int);
                    assert(t1[i] == t0[i] && t1[j] == t0[j]);
                }
            }
            Result::Ok(())
        },
    }
}

/// The law of removing twice: once a table with unique ids has had the row
/// for `id` soft-deleted, no non-deleted row with `id` is left, so a second
/// removal of the same id answers "not_found".
pub proof fn lemma_remove_twice(t: Seq<UserSpec>, next_id: int, k: int, id: int, now: int)
    requires
        table_wf(t, next_id),
        0 <= k < t.len(),
        t[k].id == id,
        active(t[k]),
    ensures
        !active_with_id(t.update(k, soft_deleted_spec(t[k], now)), id),
{
    let t1 = t.update(k, soft_deleted_spec(t[k], now));
    assert forall|i: int| 0 <= i < t1.len() implies !(active(#[trigger] t1[i]) && t1[i].id
        == id) by {
        if i != k {
            assert(t1[i] == t[i]);
            if t[i].id == id {
                assert(t[i].id == t[k].id);
                if i < k {
                    assert(t[i].id != t[k].id);
                } else {
                    assert(t[k].id != t[i].id);
                }
            }
        }
    }
}

} // verus!

