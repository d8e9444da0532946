//! Script descriptors and the resolution of their source text.
//!
//! A descriptor carries inline source, a filesystem path, or both; resolution
//! prefers the inline source. The library itself performs no file I/O: the
//! caller reads each path beforehand and hands the outcomes in as
//! [`FileEntry`] values (see the accompanying unverified front end).

use crate::error::ExecError;
use vstd::prelude::*;
use vstd::string::StringExecFns;

verus! {

/// A named unit of scripting source, given inline or as a path to read.
#[derive(Clone, Debug)]
pub struct Script {
    pub name: String,
    pub inline: Option<String>,
    pub path: Option<String>,
}

/// What reading one path produced: its contents, or the reason it could not
/// be read.
#[derive(Clone, Debug)]
pub enum ReadOutcome {
    Content(String),
    Failure(String),
}

/// The read outcome for one path, supplied by the caller.
#[derive(Clone, Debug)]
pub struct FileEntry {
    pub path: String,
    pub outcome: ReadOutcome,
}

/// The outcome recorded for `p`: that of the first entry whose path is `p`,
/// or `None` where no entry mentions it.
pub open spec fn lookup(files: Seq<FileEntry>, p: Seq<char>) -> Option<ReadOutcome>
    decreases files.len(),
{
    if files.len() == 0 {
        None
    } else if files[0].path@ == p {
        Some(files[0].outcome)
    } else {
        lookup(files.drop_first(), p)
    }
}

/// The source text a descriptor resolves to, if it resolves at all: the
/// inline text when present, else the contents read from its path.
pub open spec fn resolved_code(s: Script, files: Seq<FileEntry>) -> Option<Seq<char>> {
    match s.inline {
        Some(c) => Some(c@),
        None => match s.path {
            Some(p) => match lookup(files, p@) {
                Some(ReadOutcome::Content(c)) => Some(c@),
                _ => None,
            },
            None => None,
        },
    }
}

/// The detail reported when the path `p` yielded no contents.
pub open spec fn spec_read_detail(files: Seq<FileEntry>, p: Seq<char>) -> Seq<char> {
    match lookup(files, p) {
        Some(ReadOutcome::Failure(m)) => m@,
        _ => "no contents were supplied for this path"@,
    }
}

/// Resolve a descriptor to its source text: the inline text when present,
/// else the contents read from its path, else a failure naming the script.
pub fn extract_lua_code(script: &Script, files: &Vec<FileEntry>) -> (r: Result<String, ExecError>)
    ensures
        match r {
            Ok(code) => resolved_code(*script, files@) == Some(code@),
            Err(e) => resolved_code(*script, files@) is None && match e {
                ExecError::NoSource { script: n } => n@ == script.name@ && script.inline is None
                    && script.path is None,
                ExecError::ReadFailure { script: n, detail } => n@ == script.name@
                    && script.inline is None && (script.path matches Some(p) && detail@
                    == spec_read_detail(files@, p@)),
                _ => false,
            },
        },
{
    match &script.inline {
        Some(code) => Ok(code.clone()),
        None => match &script.path {
            Some(p) => match lookup_file(files, p) {
                Some(i) => match &files[i].outcome {
                    ReadOutcome::Content(c) => Ok(c.clone()),
                    ReadOutcome::Failure(m) => Err(
                        ExecError::ReadFailure { script: script.name.clone(), detail: m.clone() },
                    ),
                },
                None => Err(
                    ExecError::ReadFailure {
                        script: script.name.clone(),
                        detail: String::from_str("no contents were supplied for this path"),
                    },
                ),
            },
            None => Err(ExecError::NoSource { script: script.name.clone() }),
        },
    }
}

/// Find the first entry recorded for `p` among the supplied entries.
fn lookup_file(files: &Vec<FileEntry>, p: &String) -> (r: Option<usize>)
    ensures
        match r {
            Some(i) => i < files@.len() && lookup(files@, p@) == Some(files@[i as int].outcome),
            None => lookup(files@, p@) is None,
        },
{
    let mut i: usize = 0;
    proof {
        assert(files@.skip(0) =~= files@);
    }
    while i < files.len()
        invariant
            0 <= i <= files@.len(),
            lookup(files@, p@) == lookup(files@.skip(i as int), p@),
        decreases files@.len() - i,
    {
        proof {
            assert(files@.skip(i as int)[0] == files@[i as int]);
        }
        if files[i].path == *p {
            return Some(i);
        }
        proof {
            assert(files@.skip(i as int).drop_first() =~= files@.skip(i as int + 1));
        }
        i = i + 1;
    }
    None
}

} // verus!
