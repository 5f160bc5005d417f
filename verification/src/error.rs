use vstd::prelude::*;
use vstd::string::*;

use crate::validation::Violation;
use crate::validation::ViolationSpec;
use crate::validation::views_of;

verus! {

/// A JSON value as the library's own plain data: enough to state every
/// response body of the error taxonomy, and the escape hatch for custom
/// shapes. Objects keep their fields in insertion order.
#[derive(Debug, PartialEq)]
pub enum JsonValue {
    Str(String),
    Arr(Vec<JsonValue>),
    Obj(Vec<(String, JsonValue)>),
}

/// The mathematical image of a `JsonValue`.
pub enum JsonSpec {
    Str(Seq<char>),
    Arr(Seq<JsonSpec>),
    Obj(Seq<(Seq<char>, JsonSpec)>),
}

/// The deep view of a `JsonValue`, down through arrays and objects.
pub open spec fn jview(j: JsonValue) -> JsonSpec
    decreases j, 1int,
{
    match j {
        JsonValue::Str(s) => JsonSpec::Str(s@),
        JsonValue::Arr(a) => JsonSpec::Arr(jviews(a@)),
        JsonValue::Obj(fs) => JsonSpec::Obj(jview_fields(fs@)),
    }
}

/// The deep views of a sequence of JSON values.
pub open spec fn jviews(s: Seq<JsonValue>) -> Seq<JsonSpec>
    decreases s, 0int,
{
    if s.len() == 0 {
        Seq::empty()
    } else {
        seq![jview(s[0])] + jviews(s.subrange(1, s.len() as int))
    }
}

/// The deep views of a sequence of JSON object fields.
pub open spec fn jview_fields(s: Seq<(String, JsonValue)>) -> Seq<(Seq<char>, JsonSpec)>
    decreases s, 0int,
{
    if s.len() == 0 {
        Seq::empty()
    } else {
        seq![(s[0].0@, jview(s[0].1))] + jview_fields(s.subrange(1, s.len() as int))
    }
}

/// One rendered violation entry: (rule code, message).
pub type EntrySpec = (Seq<char>, Seq<char>);

/// Violations grouped by field name: (field, its entries), fields distinct.
pub type GroupsSpec = Seq<(Seq<char>, Seq<EntrySpec>)>;

/// The entry a violation contributes to its field's list.
pub open spec fn entry_of(v: ViolationSpec) -> EntrySpec {
    (v.code, v.message)
}

/// Add one violation to grouped violations: append its entry to the list of
/// its field if the field already has one, else open a new field at the end.
pub open spec fn insert_violation(g: GroupsSpec, v: ViolationSpec) -> GroupsSpec
    decreases g.len(),
{
    if g.len() == 0 {
        seq![(v.field, seq![entry_of(v)])]
    } else if g[0].0 == v.field {
        seq![(g[0].0, g[0].1.push(entry_of(v)))] + g.subrange(1, g.len() as int)
    } else {
        seq![g[0]] + insert_violation(g.subrange(1, g.len() as int), v)
    }
}

/// A violation set grouped by field name, fields in first-occurrence order,
/// each field's entries in the order the violations were produced.
pub open spec fn group_of(vs: Seq<ViolationSpec>) -> GroupsSpec
    decreases vs.len(),
{
    if vs.len() == 0 {
        Seq::empty()
    } else {
        insert_violation(group_of(vs.drop_last()), vs.last())
    }
}

/// Whether grouped violations hold field `f`.
pub open spec fn has_key(g: GroupsSpec, f: Seq<char>) -> bool {
    exists|i: int| 0 <= i < g.len() && g[i].0 == f
}

/// No field appears twice among grouped violations.
pub open spec fn distinct_keys(g: GroupsSpec) -> bool {
    forall|i: int, j: int| 0 <= i < j < g.len() ==> g[i].0 != g[j].0
}

/// How many entries grouped violations hold over all fields.
pub open spec fn total_entries(g: GroupsSpec) -> nat
    decreases g.len(),
{
    if g.len() == 0 {
        0
    } else {
        g[0].1.len() + total_entries(g.subrange(1, g.len() as int))
    }
}

/// The entries of the first group with field `f` (empty if absent).
pub open spec fn bucket(g: GroupsSpec, f: Seq<char>) -> Seq<EntrySpec>
    decreases g.len(),
{
    if g.len() == 0 {
        Seq::empty()
    } else if g[0].0 == f {
        g[0].1
    } else {
        bucket(g.subrange(1, g.len() as int), f)
    }
}

/// Whether some violation names field `f`.
pub open spec fn has_field(vs: Seq<ViolationSpec>, f: Seq<char>) -> bool {
    exists|i: int| 0 <= i < vs.len() && vs[i].field == f
}

/// The entries of every violation naming field `f`, in order.
pub open spec fn entries_for(vs: Seq<ViolationSpec>, f: Seq<char>) -> Seq<EntrySpec>
    decreases vs.len(),
{
    if vs.len() == 0 {
        Seq::empty()
    } else {
        let rest = entries_for(vs.drop_last(), f);
        if vs.last().field == f {
            rest.push(entry_of(vs.last()))
        } else {
            rest
        }
    }
}

proof fn lemma_insert_violation(g: GroupsSpec, v: ViolationSpec)
    requires
        distinct_keys(g),
    ensures
        distinct_keys(insert_violation(g, v)),
        total_entries(insert_violation(g, v)) == total_entries(g) + 1,
        forall|f: Seq<char>| #[trigger] has_key(insert_violation(g, v), f)
            <==> (has_key(g, f) || f == v.field),
        forall|f: Seq<char>| #[trigger] bucket(insert_violation(g, v), f)
            == if f == v.field { bucket(g, f).push(entry_of(v)) } else { bucket(g, f) },
    decreases g.len(),
{
    let r = insert_violation(g, v);
    if g.len() == 0 {
        assert(r =~= seq![(v.field, seq![entry_of(v)])]);
        assert(r.subrange(1, r.len() as int) =~= Seq::<(Seq<char>, Seq<EntrySpec>)>::empty());
        assert(total_entries(r.subrange(1, r.len() as int)) == 0);
        assert(r[0].1.len() == 1);
        assert(total_entries(r) == 1);
        assert forall|f: Seq<char>| #[trigger] bucket(r, f)
            == if f == v.field { bucket(g, f).push(entry_of(v)) } else { bucket(g, f) } by {
            if f == v.field {
                assert(bucket(r, f) == seq![entry_of(v)]);
                assert(bucket(g, f) =~= Seq::<EntrySpec>::empty());
                assert(bucket(g, f).push(entry_of(v)) =~= seq![entry_of(v)]);
            } else {
                assert(bucket(r, f) == bucket(r.subrange(1, r.len() as int), f));
                assert(bucket(g, f) =~= Seq::<EntrySpec>::empty());
            }
        }
        assert forall|f: Seq<char>| #[trigger] has_key(r, f) <==> (has_key(g, f) || f
            == v.field) by {
            if has_key(r, f) {
                let i = choose|i: int| 0 <= i < r.len() && r[i].0 == f;
                assert(i == 0);
            }
            if f == v.field {
                assert(r[0].0 == f);
            }
        }
    } else if g[0].0 == v.field {
        let tail = g.subrange(1, g.len() as int);
        assert(r == seq![(g[0].0, g[0].1.push(entry_of(v)))] + tail);
        assert(r.len() == g.len());
        assert(forall|i: int| 1 <= i < g.len() ==> r[i] == g[i]);
        assert(r.subrange(1, r.len() as int) =~= tail);
        assert(total_entries(r) == g[0].1.len() + 1 + total_entries(tail));
        assert forall|f: Seq<char>| #[trigger] has_key(r, f) <==> (has_key(g, f) || f
            == v.field) by {
            if has_key(r, f) {
                let i = choose|i: int| 0 <= i < r.len() && r[i].0 == f;
                assert(g[i].0 == f);
            }
            if has_key(g, f) {
                let i = choose|i: int| 0 <= i < g.len() && g[i].0 == f;
                assert(r[i].0 == f);
            }
            if f == v.field {
                assert(r[0].0 == f);
            }
        }
        assert forall|f: Seq<char>| #[trigger] bucket(r, f)
            == if f == v.field { bucket(g, f).push(entry_of(v)) } else { bucket(g, f) } by {
            if f == v.field {
                assert(bucket(r, f) == g[0].1.push(entry_of(v)));
                assert(bucket(g, f) == g[0].1);
            } else {
                assert(bucket(r, f) == bucket(tail, f));
                assert(bucket(g, f) == bucket(tail, f));
            }
        }
    } else {
        let tail = g.subrange(1, g.len() as int);
        assert(forall|i: int, j: int| 0 <= i < j < tail.len() ==> tail[i].0 != tail[j].0);
        lemma_insert_violation(tail, v);
        let rt = insert_violation(tail, v);
        assert(r == seq![g[0]] + rt);
        assert(r[0] == g[0]);
        assert(r.subrange(1, r.len() as int) =~= rt);
        assert(forall|i: int| 0 <= i < rt.len() ==> r[i + 1] == rt[i]);
        // the head key differs from every key of the inserted tail
        assert forall|i: int| 0 <= i < rt.len() implies rt[i].0 != g[0].0 by {
            assert(has_key(rt, rt[i].0));
            if rt[i].0 == g[0].0 {
                if has_key(tail, rt[i].0) {
                    let k = choose|k: int| 0 <= k < tail.len() && tail[k].0 == rt[i].0;
                    assert(g[k + 1].0 == g[0].0);
                } else {
                    assert(rt[i].0 == v.field);
                }
            }
        }
        assert forall|i: int, j: int| 0 <= i < j < r.len() implies r[i].0 != r[j].0 by {
            if i == 0 {
                assert(r[j] == rt[j - 1]);
            } else {
                assert(r[i] == rt[i - 1] && r[j] == rt[j - 1]);
                assert(rt[i - 1].0 != rt[j - 1].0);
            }
        }
        assert(total_entries(r) == g[0].1.len() + total_entries(rt));
        assert(total_entries(g) == g[0].1.len() + total_entries(tail));
        assert forall|f: Seq<char>| #[trigger] has_key(r, f) <==> (has_key(g, f) || f
            == v.field) by {
            if has_key(r, f) {
                let i = choose|i: int| 0 <= i < r.len() && r[i].0 == f;
                if i == 0 {
                    assert(g[0].0 == f);
                } else {
                    assert(rt[i - 1].0 == f);
                    assert(has_key(rt, f));
                    if has_key(tail, f) {
                        let k = choose|k: int| 0 <= k < tail.len() && tail[k].0 == f;
                        assert(g[k + 1].0 == f);
                    }
                }
            }
            if has_key(g, f) {
                let i = choose|i: int| 0 <= i < g.len() && g[i].0 == f;
                if i == 0 {
                    assert(r[0].0 == f);
                } else {
                    assert(tail[i - 1].0 == f);
                    assert(has_key(tail, f));
                    assert(has_key(rt, f));
                    let k = choose|k: int| 0 <= k < rt.len() && rt[k].0 == f;
                    assert(r[k + 1].0 == f);
                }
            }
            if f == v.field {
                assert(has_key(rt, f));
                let k = choose|k: int| 0 <= k < rt.len() && rt[k].0 == f;
                assert(r[k + 1].0 == f);
            }
        }
        assert forall|f: Seq<char>| #[trigger] bucket(r, f)
            == if f == v.field { bucket(g, f).push(entry_of(v)) } else { bucket(g, f) } by {
            if f == g[0].0 {
                assert(bucket(r, f) == g[0].1);
                assert(bucket(g, f) == g[0].1);
            } else {
                assert(bucket(r, f) == bucket(rt, f));
                assert(bucket(g, f) == bucket(tail, f));
            }
        }
    }
}

proof fn lemma_insert_at(g: GroupsSpec, v: ViolationSpec, k: int)
    requires
        0 <= k < g.len(),
        forall|j: int| 0 <= j < k ==> g[j].0 != v.field,
        g[k].0 == v.field,
    ensures
        insert_violation(g, v) == g.update(k, (g[k].0, g[k].1.push(entry_of(v)))),
    decreases k,
{
    let r = insert_violation(g, v);
    let tail = g.subrange(1, g.len() as int);
    if k == 0 {
        assert(r == seq![(g[0].0, g[0].1.push(entry_of(v)))] + tail);
        assert(r =~= g.update(0, (g[0].0, g[0].1.push(entry_of(v)))));
    } else {
        lemma_insert_at(tail, v, k - 1);
        assert(r == seq![g[0]] + insert_violation(tail, v));
        assert forall|j: int| 0 <= j < g.len() implies r[j] == g.update(
            k,
            (g[k].0, g[k].1.push(entry_of(v))),
        )[j] by {
            if j > 0 {
                assert(r[j] == insert_violation(tail, v)[j - 1]);
                assert(insert_violation(tail, v)[j - 1] == tail.update(
                    k - 1,
                    (tail[k - 1].0, tail[k - 1].1.push(entry_of(v))),
                )[j - 1]);
            }
        }
        assert(r =~= g.update(k, (g[k].0, g[k].1.push(entry_of(v)))));
    }
}

proof fn lemma_insert_absent(g: GroupsSpec, v: ViolationSpec)
    requires
        forall|j: int| 0 <= j < g.len() ==> g[j].0 != v.field,
    ensures
        insert_violation(g, v) == g.push((v.field, seq![entry_of(v)])),
    decreases g.len(),
{
    let r = insert_violation(g, v);
    if g.len() == 0 {
        assert(r =~= g.push((v.field, seq![entry_of(v)])));
    } else {
        let tail = g.subrange(1, g.len() as int);
        lemma_insert_absent(tail, v);
        assert(r == seq![g[0]] + insert_violation(tail, v));
        assert forall|j: int| 0 <= j < r.len() implies r[j] == g.push(
            (v.field, seq![entry_of(v)]),
        )[j] by {
            if j > 0 {
                assert(r[j] == insert_violation(tail, v)[j - 1]);
                assert(insert_violation(tail, v)[j - 1] == tail.push(
                    (v.field, seq![entry_of(v)]),
                )[j - 1]);
            }
        }
        assert(r =~= g.push((v.field, seq![entry_of(v)])));
    }
}

/// The law of rendering a validation set, for any number of violations:
/// grouping by field loses nothing, invents nothing, and short-circuits
/// nothing. The rendered map has one key per distinct violated field, its
/// entries are exactly the entries of that field's violations in order, and
/// the entry count over all keys equals the number of violations.
pub proof fn lemma_group_counts(vs: Seq<ViolationSpec>)
    ensures
        distinct_keys(group_of(vs)),
        total_entries(group_of(vs)) == vs.len(),
        forall|f: Seq<char>| #[trigger] has_key(group_of(vs), f) <==> has_field(vs, f),
        forall|f: Seq<char>| #[trigger] bucket(group_of(vs), f) == entries_for(vs, f),
    decreases vs.len(),
{
    if vs.len() > 0 {
        let u = vs.drop_last();
        lemma_group_counts(u);
        lemma_insert_violation(group_of(u), vs.last());
        assert forall|f: Seq<char>| #[trigger] has_field(vs, f) <==> (has_field(u, f) || f
            == vs.last().field) by {
            if has_field(vs, f) {
                let i = choose|i: int| 0 <= i < vs.len() && vs[i].field == f;
                if i < vs.len() - 1 {
                    assert(u[i].field == f);
                }
            }
            if has_field(u, f) {
                let i = choose|i: int| 0 <= i < u.len() && u[i].field == f;
                assert(vs[i].field == f);
            }
            if f == vs.last().field {
                assert(vs[vs.len() - 1].field == f);
            }
        }
    }
}

/// The law of rendering a single violation: exactly one field key with
/// exactly one entry, carrying that violation's code and message.
pub proof fn lemma_group_single(v: ViolationSpec)
    ensures
        group_of(seq![v]) == seq![(v.field, seq![entry_of(v)])],
{
    assert(seq![v].drop_last() =~= Seq::<ViolationSpec>::empty());
    assert(seq![v].last() == v);
    assert(group_of(seq![v].drop_last()) == Seq::<(Seq<char>, Seq<EntrySpec>)>::empty());
}

/// `jviews` element by element.
pub proof fn lemma_jviews_index(s: Seq<JsonValue>)
    ensures
        jviews(s).len() == s.len(),
        forall|i: int| 0 <= i < s.len() ==> jviews(s)[i] == jview(s[i]),
    decreases s.len(),
{
    if s.len() > 0 {
        lemma_jviews_index(s.subrange(1, s.len() as int));
    }
}

/// `jview_fields` element by element.
pub proof fn lemma_jview_fields_index(s: Seq<(String, JsonValue)>)
    ensures
        jview_fields(s).len() == s.len(),
        forall|i: int| 0 <= i < s.len() ==> jview_fields(s)[i] == (s[i].0@, jview(s[i].1)),
    decreases s.len(),
{
    if s.len() > 0 {
        lemma_jview_fields_index(s.subrange(1, s.len() as int));
    }
}

/// The JSON object an entry renders to: `{"code": .., "message": ..}`.
pub open spec fn entry_json(e: EntrySpec) -> JsonSpec {
    JsonSpec::Obj(seq![("code"@, JsonSpec::Str(e.0)), ("message"@, JsonSpec::Str(e.1))])
}

/// Every entry of a field's list rendered in order.
pub open spec fn entry_jsons(es: Seq<EntrySpec>) -> Seq<JsonSpec> {
    Seq::new(es.len(), |k: int| entry_json(es[k]))
}

/// The fields of the `errors` object: one key per grouped field, each an
/// array of its entries.
pub open spec fn errors_json_fields(g: GroupsSpec) -> Seq<(Seq<char>, JsonSpec)> {
    Seq::new(g.len(), |i: int| (g[i].0, JsonSpec::Arr(entry_jsons(g[i].1))))
}

/// The `errors` object of a validation failure body.
pub open spec fn errors_json(g: GroupsSpec) -> JsonSpec {
    JsonSpec::Obj(errors_json_fields(g))
}

/// The body of a single-code failure: `{"error": <code>}`.
pub open spec fn error_code_json(code: Seq<char>) -> JsonSpec {
    JsonSpec::Obj(seq![("error"@, JsonSpec::Str(code))])
}

/// The body of an aggregated validation failure:
/// `{"error": "validation", "errors": {field: [{code, message}, ..], ..}}`.
pub open spec fn validation_json(g: GroupsSpec) -> JsonSpec {
    JsonSpec::Obj(seq![("error"@, JsonSpec::Str("validation"@)), ("errors"@, errors_json(g))])
}

/// The one violation a single-field rejection wraps: its message is its code.
pub open spec fn single_violation(field: Seq<char>, code: Seq<char>) -> ViolationSpec {
    ViolationSpec { field: field, code: code, message: code }
}

/// The closed set of failures the service can surface. Every variant renders
/// to exactly one HTTP status and JSON body; a carried cause is surfaced to
/// operators through the reply's log line, never to clients.
#[derive(Debug, PartialEq)]
pub enum AppError {
    /// An unexpected, unclassified failure; the cause is logged, not shown.
    InternalServerError(Option<String>),
    /// A known business-rule or client-input rejection with a stable code.
    ServiceError(u16, String, Option<String>),
    /// Escape hatch: an arbitrary JSON body emitted verbatim.
    Json(u16, JsonValue, Option<String>),
    /// An aggregated field-level rejection; never surfaced empty.
    ValidationErrors(Vec<Violation>),
    /// A one-violation rejection of a single field, message equal to code.
    Validation(String, String),
}

/// What the service answers: an HTTP status, a JSON body, and at most one
/// diagnostic log line for operators.
#[derive(Debug, PartialEq)]
pub struct Reply {
    pub status: u16,
    pub body: JsonValue,
    pub log: Option<String>,
}

impl Reply {
    /// The log line, as characters.
    pub open spec fn log_view(&self) -> Option<Seq<char>> {
        match self.log {
            Option::Some(s) => Option::Some(s@),
            Option::None => Option::None,
        }
    }
}

/// The characters of an optional cause.
pub open spec fn opt_str_view(o: Option<String>) -> Option<Seq<char>> {
    match o {
        Option::Some(s) => Option::Some(s@),
        Option::None => Option::None,
    }
}

/// How each failure renders: the whole responder contract. Rendering is
/// total, and the log line is exactly the carried cause (the generic internal
/// line for a causeless internal fault, nothing for validation rejections).
pub open spec fn reply_spec(e: AppError, r: Reply) -> bool {
    match e {
        AppError::InternalServerError(cause) => {
            &&& r.status == 500u16
            &&& jview(r.body) == JsonSpec::Obj(Seq::<(Seq<char>, JsonSpec)>::empty())
            &&& r.log_view() == Option::Some(
                match cause {
                    Option::Some(c) => c@,
                    Option::None => "Internal Server Error"@,
                },
            )
        },
        AppError::ServiceError(status, code, cause) => {
            &&& r.status == status
            &&& jview(r.body) == error_code_json(code@)
            &&& r.log_view() == opt_str_view(cause)
        },
        AppError::Json(status, body, cause) => {
            &&& r.status == status
            &&& jview(r.body) == jview(body)
            &&& r.log_view() == opt_str_view(cause)
        },
        AppError::ValidationErrors(vs) => {
            &&& r.status == 400u16
            &&& jview(r.body) == validation_json(group_of(views_of(vs@)))
            &&& r.log_view() is None
        },
        AppError::Validation(field, code) => {
            &&& r.status == 400u16
            &&& jview(r.body) == validation_json(group_of(seq![single_violation(field@, code@)]))
            &&& r.log_view() is None
        },
    }
}

/// A JSON object of one field.
fn obj1(key: &str, val: JsonValue) -> (r: JsonValue)
    ensures
        jview(r) == JsonSpec::Obj(seq![(key@, jview(val))]),
{
    let mut fs: Vec<(String, JsonValue)> = Vec::new();
    fs.push((String::from_str(key), val));
    proof {
        lemma_jview_fields_index(fs@);
        assert(jview_fields(fs@) =~= seq![(key@, jview(fs@[0].1))]);
    }
    JsonValue::Obj(fs)
}

/// A JSON object of two fields.
fn obj2(k1: &str, v1: JsonValue, k2: &str, v2: JsonValue) -> (r: JsonValue)
    ensures
        jview(r) == JsonSpec::Obj(seq![(k1@, jview(v1)), (k2@, jview(v2))]),
{
    let mut fs: Vec<(String, JsonValue)> = Vec::new();
    fs.push((String::from_str(k1), v1));
    fs.push((String::from_str(k2), v2));
    proof {
        lemma_jview_fields_index(fs@);
        assert(jview_fields(fs@) =~= seq![
            (fs@[0].0@, jview(fs@[0].1)),
            (fs@[1].0@, jview(fs@[1].1)),
        ]);
    }
    JsonValue::Obj(fs)
}

/// The view of violations grouped into executable pairs.
pub open spec fn groups_view(g: Seq<(String, Vec<(String, String)>)>) -> GroupsSpec {
    Seq::new(
        g.len(),
        |i: int|
            (g[i].0@, Seq::new(g[i].1@.len(), |k: int| (g[i].1@[k].0@, g[i].1@[k].1@))),
    )
}

/// The index of the group holding `field`, or the group count if none does.
fn find_group(groups: &Vec<(String, Vec<(String, String)>)>, field: &String) -> (r: usize)
    ensures
        r <= groups@.len(),
        forall|j: int| 0 <= j < r ==> groups@[j].0@ != field@,
        r < groups@.len() ==> groups@[r as int].0@ == field@,
{
    let mut k: usize = 0;
    while k < groups.len()
        invariant
            k <= groups@.len(),
            forall|j: int| 0 <= j < k ==> groups@[j].0@ != field@,
        decreases groups@.len() - k,
    {
        if groups[k].0 == *field {
            return k;
        }
        k += 1;
    }
    k
}

/// Render an aggregated violation set as the validation failure body,
/// grouping the violations by field while keeping every entry.
fn render_validation_errors(vs: &Vec<Violation>) -> (r: JsonValue)
    ensures
        jview(r) == validation_json(group_of(views_of(vs@))),
{
    let ghost w = views_of(vs@);
    let mut groups: Vec<(String, Vec<(String, String)>)> = Vec::new();
    let mut i: usize = 0;
    while i < vs.len()
        invariant
            i <= vs@.len(),
            w == views_of(vs@),
            groups_view(groups@) == group_of(w.take(i as int)),
        decreases vs@.len() - i,
    {
        let ghost pre = groups_view(groups@);
        let v = &vs[i];
        let k = find_group(&groups, &v.field);
        proof {
            assert(w.take(i + 1).drop_last() =~= w.take(i as int));
            assert(w.take(i + 1).last() == w[i as int]);
            assert(w[i as int] == vs@[i as int]@);
        }
        if k < groups.len() {
            let mut pair = groups.remove(k);
            pair.1.push((v.code.clone(), v.message.clone()));
            groups.insert(k, pair);
            proof {
                lemma_insert_at(pre, w[i as int], k as int);
                assert(groups_view(groups@) =~~= insert_violation(pre, w[i as int]));
            }
        } else {
            let mut entries: Vec<(String, String)> = Vec::new();
            entries.push((v.code.clone(), v.message.clone()));
            groups.push((v.field.clone(), entries));
            proof {
                lemma_insert_absent(pre, w[i as int]);
                assert(groups_view(groups@) =~~= insert_violation(pre, w[i as int]));
            }
        }
        i += 1;
    }
    proof {
        assert(w.take(vs@.len() as int) =~= w);
    }
    let ghost gv = groups_view(groups@);
    let mut err_fields: Vec<(String, JsonValue)> = Vec::new();
    let mut gi: usize = 0;
    while gi < groups.len()
        invariant
            gi <= groups@.len(),
            gv == groups_view(groups@),
            err_fields@.len() == gi,
            forall|j: int|
                0 <= j < gi ==> (#[trigger] err_fields@[j].0@ == gv[j].0 && jview(err_fields@[j].1)
                    == JsonSpec::Arr(entry_jsons(gv[j].1))),
        decreases groups@.len() - gi,
    {
        let bucket_len = groups[gi].1.len();
        let mut arr: Vec<JsonValue> = Vec::new();
        let mut ei: usize = 0;
        while ei < bucket_len
            invariant
                gi < groups@.len(),
                gv == groups_view(groups@),
                bucket_len == groups@[gi as int].1@.len(),
                ei <= bucket_len,
                arr@.len() == ei,
                forall|k: int|
                    0 <= k < ei ==> #[trigger] jview(arr@[k]) == entry_json(
                        gv[gi as int].1[k],
                    ),
            decreases bucket_len - ei,
        {
            let code_s = groups[gi].1[ei].0.clone();
            let msg_s = groups[gi].1[ei].1.clone();
            let entry = obj2("code", JsonValue::Str(code_s), "message", JsonValue::Str(msg_s));
            proof {
                assert(entry_json(gv[gi as int].1[ei as int]) == JsonSpec::Obj(
                    seq![
                        ("code"@, JsonSpec::Str(groups@[gi as int].1@[ei as int].0@)),
                        ("message"@, JsonSpec::Str(groups@[gi as int].1@[ei as int].1@)),
                    ],
                ));
            }
            arr.push(entry);
            ei += 1;
        }
        let field_name = groups[gi].0.clone();
        proof {
            lemma_jviews_index(arr@);
            assert(jviews(arr@) =~= entry_jsons(gv[gi as int].1));
        }
        err_fields.push((field_name, JsonValue::Arr(arr)));
        gi += 1;
    }
    proof {
        lemma_jview_fields_index(err_fields@);
        assert(jview_fields(err_fields@) =~= errors_json_fields(gv));
    }
    let errors_obj = JsonValue::Obj(err_fields);
    let body = obj2(
        "error",
        JsonValue::Str(String::from_str("validation")),
        "errors",
        errors_obj,
    );
    proof {
        assert(jview(body) == validation_json(gv));
    }
    body
}

impl AppError {
    /// Convert an aggregated violation set into the structured-body failure
    /// it renders through: 400, the validation body, no cause. Building the
    /// body never fails.
    pub fn from(errors: Vec<Violation>) -> (r: AppError)
        ensures
            (r matches AppError::Json(st, body, cause) && st == 400u16 && jview(body)
                == validation_json(group_of(views_of(errors@))) && cause is None),
    {
        let body = render_validation_errors(&errors);
        AppError::Json(400, body, Option::None)
    }

    /// Render this failure as its HTTP reply: the one place every failure
    /// origin is rendered for clients, with the diagnostic cause preserved
    /// for operators in the log line and nowhere else.
    pub fn into_response(self) -> (r: Reply)
        ensures
            reply_spec(self, r),
    {
        match self {
            AppError::InternalServerError(cause) => {
                let log = match cause {
                    Option::Some(c) => Option::Some(c),
                    Option::None => Option::Some(String::from_str("Internal Server Error")),
                };
                let body = JsonValue::Obj(Vec::new());
                proof {
                    assert(jview_fields(Seq::<(String, JsonValue)>::empty()) =~= Seq::<
                        (Seq<char>, JsonSpec),
                    >::empty());
                }
                Reply { status: 500, body, log }
            },
            AppError::ServiceError(status, code, cause) => {
                let body = obj1("error", JsonValue::Str(code));
                Reply { status, body, log: cause }
            },
            AppError::Json(status, body, cause) => Reply { status, body, log: cause },
            AppError::ValidationErrors(vs) => {
                let body = render_validation_errors(&vs);
                Reply { status: 400, body, log: Option::None }
            },
            AppError::Validation(field, code) => {
                let message = code.clone();
                let one = Violation { field, code, message };
                let mut vs: Vec<Violation> = Vec::new();
                vs.push(one);
                let body = render_validation_errors(&vs);
                proof {
                    assert(views_of(vs@) =~= seq![vs@[0]@]);
                }
                Reply { status: 400, body, log: Option::None }
            },
        }
    }
}

} // verus!
