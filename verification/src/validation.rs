use vstd::prelude::*;
use vstd::string::*;

verus! {

/// The mathematical image of one failed validation rule on one field.
pub struct ViolationSpec {
    pub field: Seq<char>,
    pub code: Seq<char>,
    pub message: Seq<char>,
}

/// One failed validation rule on one field: the field's name, the
/// machine-readable rule code, and a human-readable message. All three are
/// surfaced to clients; none is ever deduplicated or short-circuited away.
#[derive(Debug, Clone, PartialEq)]
pub struct Violation {
    pub field: String,
    pub code: String,
    pub message: String,
}

impl View for Violation {
    type V = ViolationSpec;

    open spec fn view(&self) -> ViolationSpec {
        ViolationSpec { field: self.field@, code: self.code@, message: self.message@ }
    }
}

impl Violation {
    pub fn new(field: &str, code: &str, message: &str) -> (r: Violation)
        ensures
            r@ == (ViolationSpec { field: field@, code: code@, message: message@ }),
    {
        Violation {
            field: String::from_str(field),
            code: String::from_str(code),
            message: String::from_str(message),
        }
    }
}

/// A sequence of violations, viewed element by element.
pub open spec fn views_of(vs: Seq<Violation>) -> Seq<ViolationSpec> {
    vs.map_values(|v: Violation| v@)
}

/// What `validator`'s HTML5 e-mail shape check accepts; the verdict is a
/// function of the characters alone, so it only gets a name here.
pub uninterp spec fn is_email(s: Seq<char>) -> bool;

/// Relies on `validator::ValidateEmail::validate_email`: the HTML5 e-mail
/// shape check, whose verdict depends on the characters of `s` alone.
#[verifier::external_body]
pub(crate) fn email_ok(s: &str) -> (r: bool)
    ensures
        r == is_email(s@),
{
    validator::ValidateEmail::validate_email(&s)
}

/// A typed payload that carries its own declarative field rules and can
/// evaluate all of them, aggregating every violation.
pub trait Validate: Sized {
    /// The full set of violations of this value, in declaration order.
    spec fn violations_spec(&self) -> Seq<ViolationSpec>;

    /// Evaluate every declared rule on every field; a failure on one field
    /// never suppresses evaluation of another.
    fn validate(&self) -> (r: Vec<Violation>)
        ensures
            views_of(r@) == self.violations_spec(),
    ;
}

} // verus!
