//! The library's general guarantees, stated once over the mathematical
//! models that the executable functions' contracts use.

use crate::exec::{inject_map, lemma_inject_map_reads_back};
use crate::script::{lookup, resolved_code, FileEntry, ReadOutcome, Script};
use crate::values::{gval_of, Field, GlobalVal, Value};
use vstd::prelude::*;

verus! {

/// Resolution returns the inline text unchanged whenever it is present,
/// whatever the path says and whatever file contents were supplied.
pub proof fn lemma_resolution_returns_inline(s: Script, files: Seq<FileEntry>)
    requires
        s.inline is Some,
    ensures
        s.inline matches Some(c) && resolved_code(s, files) == Some(c@),
{
}

/// A descriptor with only a path resolves exactly to the contents read for
/// that path, and to nothing where the read failed or was never supplied.
pub proof fn lemma_resolution_reads_path(s: Script, files: Seq<FileEntry>)
    requires
        s.inline is None,
        s.path is Some,
    ensures
        s.path matches Some(p) && resolved_code(s, files) == (match lookup(files, p@) {
            Some(ReadOutcome::Content(c)) => Some(c@),
            _ => None,
        }),
{
}

/// A descriptor with neither inline text nor a path resolves to nothing;
/// resolving it can only fail.
pub proof fn lemma_resolution_needs_a_source(s: Script, files: Seq<FileEntry>)
    requires
        s.inline is None,
        s.path is None,
    ensures
        resolved_code(s, files) is None,
{
}

/// A value injected for a field that no later field shadows reads back
/// unchanged: any value whose abstraction the globals then report under
/// that field's name is the injected value itself, texts compared by their
/// contents.
pub proof fn lemma_injected_value_reads_back(
    m: Map<Seq<char>, GlobalVal>,
    fields: Seq<Field>,
    i: int,
    v: Value,
)
    requires
        0 <= i < fields.len(),
        forall|j: int| i < j < fields.len() ==> fields[j].name@ != fields[i].name@,
        gval_of(v) == inject_map(m, fields)[fields[i].name@],
    ensures
        match (v, fields[i].value) {
            (Value::Int(a), Value::Int(b)) => a == b,
            (Value::Bool(a), Value::Bool(b)) => a == b,
            (Value::Text(a), Value::Text(b)) => a@ == b@,
            _ => false,
        },
{
    lemma_inject_map_reads_back(m, fields, i);
}

} // verus!
