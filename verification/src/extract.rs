use vstd::prelude::*;
use vstd::string::*;

use crate::error::AppError;
use crate::validation::Validate;
use crate::validation::views_of;

verus! {

/// A request body that deserialized into its typed shape and passed every
/// declared validation rule.
#[derive(Debug)]
pub struct ValidJson<T>(pub T);

impl<T: Validate> ValidJson<T> {
    /// The typed body extractor. `parsed` is the outcome of deserializing the
    /// raw request body into `T`; `Err` carries the parser's message as the
    /// diagnostic cause. A malformed body is rejected as 400 "invalid_json"
    /// before any validation rule is consulted; a well-formed body with rule
    /// violations is rejected with all of them aggregated; otherwise the
    /// value is handed on untouched.
    pub fn from_request(parsed: Result<T, String>) -> (r: Result<ValidJson<T>, AppError>)
        ensures
            match parsed {
                Result::Err(msg) => match r {
                    Result::Err(
                        AppError::ServiceError(st, code, Option::Some(c)),
                    ) => st == 400u16 && code@ == "invalid_json"@ && c@ == msg@,
                    _ => false,
                },
                Result::Ok(p) => if p.violations_spec().len() == 0 {
                    r matches Result::Ok(v) && v.0 == p
                } else {
                    match r {
                        Result::Err(AppError::ValidationErrors(vs)) => views_of(vs@)
                            == p.violations_spec(),
                        _ => false,
                    }
                },
            },
    {
        match parsed {
            Result::Err(msg) => Result::Err(
                AppError::ServiceError(400, String::from_str("invalid_json"), Option::Some(msg)),
            ),
            Result::Ok(p) => {
                let vs = p.validate();
                if vs.len() == 0 {
                    Result::Ok(ValidJson(p))
                } else {
                    Result::Err(AppError::ValidationErrors(vs))
                }
            },
        }
    }
}

} // verus!
