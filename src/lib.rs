//! Classification of annotated tests and the decision whether each one runs,
//! is dropped, or is kept as a skip with a reason.
use vstd::prelude::*;

use crate::attribute_kind::{decision, parse_attributes, AttributeKind, ParseError, TestSettings};
use crate::config::Config;
use crate::date::Date;

pub mod attribute_kind;
pub mod config;
pub mod date;
pub mod text;
pub mod unit_age;

verus! {

/// Reads an attribute text and decides what to do with the test it marks,
/// judging dates against `today`.
pub fn test_kind(attributes: &str, config: &Config, today: Date) -> (r: Result<
    TestSettings,
    ParseError,
>)
    ensures
        match parse_attributes(attributes@, *config, today.days as int) {
            Ok(k) => r is Ok && r->Ok_0@ == decision(k, *config, today.days as int),
            Err(e) => r is Err && r->Err_0.kind == e && r->Err_0.attributes@ == attributes@,
        },
{
    match AttributeKind::from_str(attributes, config, today) {
        Ok(kind) => Ok(kind.what_to_do(config, today)),
        Err(e) => Err(e),
    }
}
} // verus!
