//! Debug output that shows some of the fields of a value.

use vstd::prelude::*;

verus! {

/// `core::fmt::Formatter`: where debug output goes.
#[verifier::external_type_specification]
#[verifier::external_body]
pub struct ExFormatter<'a>(core::fmt::Formatter<'a>);

/// `core::fmt::Error`: that debug output could not be written.
#[verifier::external_type_specification]
#[verifier::external_body]
pub struct ExFmtError(core::fmt::Error);

/// `core::fmt::DebugStruct`: the debug output of a struct that is being written.
#[verifier::external_type_specification]
#[verifier::external_body]
pub struct ExDebugStruct<'a, 'b: 'a>(core::fmt::DebugStruct<'a, 'b>);

/// `core::fmt::Formatter::debug_struct`: begins the output of a struct with its name. Nothing is
/// claimed of what is written.
#[verifier::external_body]
pub(crate) fn begin_struct<'a, 'b>(f: &'a mut core::fmt::Formatter<'b>, name: &str) -> (result:
    core::fmt::DebugStruct<'a, 'b>) {
    f.debug_struct(name)
}

/// `core::fmt::DebugStruct::field`: writes a field. Nothing is claimed of what is written.
#[verifier::external_body]
pub(crate) fn write_count(output: &mut core::fmt::DebugStruct<'_, '_>, name: &str, value: usize) {
    output.field(name, &value);
}

/// `core::fmt::DebugStruct::finish_non_exhaustive`: ends the output with a sign that there are
/// further fields. Nothing is claimed of what is written.
#[verifier::external_body]
pub(crate) fn finish_with_more(output: &mut core::fmt::DebugStruct<'_, '_>) -> (result:
    core::fmt::Result) {
    output.finish_non_exhaustive()
}

} // verus!
