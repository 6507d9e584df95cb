//! What the library takes from `std::fmt` to write values for debugging.

use vstd::prelude::*;

verus! {

/// Where text is written to, `std::fmt::Formatter`. What has been written is
/// not part of its value.
#[verifier::external_type_specification]
#[verifier::external_body]
pub struct ExFormatter<'a>(std::fmt::Formatter<'a>);

/// What writing fails with, `std::fmt::Error`.
#[verifier::external_type_specification]
#[verifier::external_body]
pub struct ExFmtError(std::fmt::Error);

/// A struct that is being written field by field, `std::fmt::DebugStruct`.
#[verifier::external_type_specification]
#[verifier::external_body]
pub struct ExDebugStruct<'a, 'b: 'a>(std::fmt::DebugStruct<'a, 'b>);

/// `Formatter::debug_struct` begins to write a struct of the given name.
/// Nothing is promised of it: what it writes is left unsaid.
pub assume_specification<'a, 'b>[ std::fmt::Formatter::<'a>::debug_struct ](
    f: &'b mut std::fmt::Formatter<'a>,
    name: &str,
) -> (d: std::fmt::DebugStruct<'b, 'a>)
;

/// `DebugStruct::field` writes a field with its name, and returns the struct
/// that is being written. Nothing is promised of it: what it writes is left
/// unsaid.
pub assume_specification<'a, 'b: 'a, 'c>[ std::fmt::DebugStruct::<'a, 'b>::field ](
    d: &'c mut std::fmt::DebugStruct<'a, 'b>,
    name: &str,
    value: &dyn std::fmt::Debug,
) -> (same: &'c mut std::fmt::DebugStruct<'a, 'b>)
;

/// `DebugStruct::finish` writes the end of the struct, and tells whether
/// writing has failed. Nothing is promised of it.
pub assume_specification<'a, 'b: 'a>[ std::fmt::DebugStruct::<'a, 'b>::finish ](
    d: &mut std::fmt::DebugStruct<'a, 'b>,
) -> (res: std::fmt::Result)
;

} // verus!
