//! The configuration structure and its scripting methods: inject the fields
//! as Lua globals, run one or all scripts, and read the globals back.

use crate::error::ExecError;
use crate::runtime::{
    exec_chunk, lua_chunks, lua_globals, lua_submission_globals, new_lua, read_global, set_global,
    ReadBack,
};
use crate::script::{extract_lua_code, resolved_code, spec_read_detail, FileEntry, Script};
use crate::values::{gval_of, Field, GlobalVal};
use vstd::pervasive::VecAdditionalExecFns;
use vstd::prelude::*;
use vstd::string::StringExecFns;

verus! {

/// A configuration: named fields to expose to the scripts, and the scripts
/// themselves, in the order they are to run.
#[derive(Clone, Debug)]
pub struct Config {
    pub fields: Vec<Field>,
    pub scripts: Vec<Script>,
}

/// Some script in the list bears this name.
pub open spec fn has_script(scripts: Seq<Script>, name: Seq<char>) -> bool {
    exists|i: int| 0 <= i < scripts.len() && scripts[i].name@ == name
}

/// `i` is the index of the first script bearing this name.
pub open spec fn is_first_match(scripts: Seq<Script>, name: Seq<char>, i: int) -> bool {
    &&& 0 <= i < scripts.len()
    &&& scripts[i].name@ == name
    &&& forall|j: int| 0 <= j < i ==> scripts[j].name@ != name
}

/// The globals map after the fields are injected in order, later fields
/// overwriting earlier ones of the same name.
pub open spec fn inject_map(m: Map<Seq<char>, GlobalVal>, fields: Seq<Field>) -> Map<
    Seq<char>,
    GlobalVal,
>
    decreases fields.len(),
{
    if fields.len() == 0 {
        m
    } else {
        inject_map(m, fields.drop_last()).insert(
            fields.last().name@,
            gval_of(fields.last().value),
        )
    }
}

/// Find the first script bearing `name`, if any.
fn find_script(scripts: &Vec<Script>, name: &str) -> (r: Option<usize>)
    ensures
        match r {
            Some(i) => is_first_match(scripts@, name@, i as int),
            None => !has_script(scripts@, name@),
        },
{
    let target: String = name.to_owned();
    let mut i: usize = 0;
    while i < scripts.len()
        invariant
            0 <= i <= scripts@.len(),
            target@ == name@,
            forall|j: int| 0 <= j < i ==> scripts@[j].name@ != name@,
        decreases scripts@.len() - i,
    {
        if scripts[i].name == target {
            return Some(i);
        }
        i = i + 1;
    }
    None
}

/// Copy every field's value into the Lua globals under the field's name, in
/// order, stopping at the first value the runtime refuses.
fn inject_fields(lua: &mut mlua::Lua, fields: &Vec<Field>) -> (r: Result<(), ExecError>)
    ensures
        lua_chunks(*final(lua)) == lua_chunks(*old(lua)),
        lua_submission_globals(*final(lua)) == lua_submission_globals(*old(lua)),
        r is Ok ==> lua_globals(*final(lua)) == inject_map(lua_globals(*old(lua)), fields@),
        r matches Err(e) ==> e matches ExecError::InjectFailure { field, .. } && (exists|i: int|
            0 <= i < fields@.len() && field@ == fields@[i].name@),
{
    let mut i: usize = 0;
    while i < fields.len()
        invariant
            0 <= i <= fields@.len(),
            lua_chunks(*lua) == lua_chunks(*old(lua)),
            lua_submission_globals(*lua) == lua_submission_globals(*old(lua)),
            lua_globals(*lua) == inject_map(lua_globals(*old(lua)), fields@.take(i as int)),
        decreases fields@.len() - i,
    {
        match set_global(lua, fields[i].name.as_str(), &fields[i].value) {
            Ok(()) => {
                proof {
                    assert(fields@.take(i as int + 1).drop_last() =~= fields@.take(i as int));
                    assert(fields@.take(i as int + 1).last() == fields@[i as int]);
                }
            },
            Err(detail) => {
                return Err(
                    ExecError::InjectFailure { field: fields[i].name.clone(), detail },
                );
            },
        }
        i = i + 1;
    }
    proof {
        assert(fields@.take(fields@.len() as int) =~= fields@);
    }
    Ok(())
}

/// The source texts of the first `n` scripts, in order, as far as each
/// resolves; meaningful only where `prefix_resolves` holds of `n`.
pub open spec fn prefix_code(scripts: Seq<Script>, files: Seq<FileEntry>, n: int) -> Seq<Seq<char>>
    decreases n,
{
    if n <= 0 {
        Seq::empty()
    } else {
        prefix_code(scripts, files, n - 1).push(
            match resolved_code(scripts[n - 1], files) {
                Some(c) => c,
                None => Seq::empty(),
            },
        )
    }
}

/// Each of the first `n` scripts resolves to source text.
pub open spec fn prefix_resolves(scripts: Seq<Script>, files: Seq<FileEntry>, n: int) -> bool {
    forall|j: int| 0 <= j < n ==> resolved_code(scripts[j], files) is Some
}

/// A map in which every field (that no later field of the same name shadows)
/// reads as the value injected for it.
pub open spec fn injected(m: Map<Seq<char>, GlobalVal>, fields: Seq<Field>) -> bool {
    forall|i: int|
        #![trigger fields[i]]
        0 <= i < fields.len() && (forall|j: int|
            i < j < fields.len() ==> fields[j].name@ != fields[i].name@) ==> m.contains_key(
            fields[i].name@,
        ) && m[fields[i].name@] == gval_of(fields[i].value)
}

/// After injection, a field that no later field shadows reads as its
/// injected value, whatever the map held before.
pub proof fn lemma_inject_map_reads_back(
    m: Map<Seq<char>, GlobalVal>,
    fields: Seq<Field>,
    i: int,
)
    requires
        0 <= i < fields.len(),
        forall|j: int| i < j < fields.len() ==> fields[j].name@ != fields[i].name@,
    ensures
        inject_map(m, fields).contains_key(fields[i].name@),
        inject_map(m, fields)[fields[i].name@] == gval_of(fields[i].value),
    decreases fields.len(),
{
    if i < fields.len() - 1 {
        lemma_inject_map_reads_back(m, fields.drop_last(), i);
    }
}

/// Injection leaves the globals map in the `injected` relation with the
/// fields it was given.
pub proof fn lemma_inject_map_injected(m: Map<Seq<char>, GlobalVal>, fields: Seq<Field>)
    ensures
        injected(inject_map(m, fields), fields),
{
    assert forall|i: int|
        0 <= i < fields.len() && (forall|j: int|
            i < j < fields.len() ==> fields[j].name@ != fields[i].name@) implies inject_map(
        m,
        fields,
    ).contains_key(fields[i].name@) && inject_map(m, fields)[fields[i].name@] == gval_of(
        fields[i].value,
    ) by {
        lemma_inject_map_reads_back(m, fields, i);
    }
}

/// Run the first script bearing `script_name`, if any, against the given
/// state; a name no script bears is a non-failing no-op that leaves the
/// state untouched.
pub fn run_named(
    lua: &mut mlua::Lua,
    scripts: &Vec<Script>,
    script_name: &str,
    files: &Vec<FileEntry>,
) -> (r: Result<(), ExecError>)
    ensures
        !has_script(scripts@, script_name@) ==> r is Ok && *final(lua) == *old(lua),
        r is Ok && has_script(scripts@, script_name@) ==> exists|i: int|
            is_first_match(scripts@, script_name@, i) && (resolved_code(scripts@[i], files@)
                matches Some(c) && lua_chunks(*final(lua)) == lua_chunks(*old(lua)).push(c))
                && lua_submission_globals(*final(lua)) == lua_submission_globals(*old(lua)).push(
                lua_globals(*old(lua)),
            ),
        r matches Err(e) ==> exists|i: int|
            is_first_match(scripts@, script_name@, i) && match e {
                ExecError::NoSource { script: n } => n@ == scripts@[i].name@ && scripts@[i].inline
                    is None && scripts@[i].path is None && *final(lua) == *old(lua),
                ExecError::ReadFailure { script: n, detail } => n@ == scripts@[i].name@
                    && resolved_code(scripts@[i], files@) is None && scripts@[i].inline is None
                    && (scripts@[i].path matches Some(p) && detail@ == spec_read_detail(
                    files@,
                    p@,
                )) && *final(lua) == *old(lua),
                ExecError::ScriptFailure { script: n, .. } => n@ == scripts@[i].name@ && (
                resolved_code(scripts@[i], files@) matches Some(c) && lua_chunks(*final(lua))
                    == lua_chunks(*old(lua)).push(c)) && lua_submission_globals(*final(lua))
                    == lua_submission_globals(*old(lua)).push(lua_globals(*old(lua))),
                _ => false,
            },
{
    match find_script(scripts, script_name) {
        None => Ok(()),
        Some(i) => match extract_lua_code(&scripts[i], files) {
            Err(e) => Err(e),
            Ok(code) => match exec_chunk(lua, code.as_str()) {
                Ok(()) => Ok(()),
                Err(detail) => Err(
                    ExecError::ScriptFailure { script: scripts[i].name.clone(), detail },
                ),
            },
        },
    }
}

/// Run every script in stored order against the given state, stopping at the
/// first one that fails to resolve or to run: scripts after the failing one
/// are never submitted to the runtime.
pub fn run_all(lua: &mut mlua::Lua, scripts: &Vec<Script>, files: &Vec<FileEntry>) -> (r: Result<
    (),
    ExecError,
>)
    ensures
        scripts@.len() == 0 ==> r is Ok && *final(lua) == *old(lua),
        r is Ok ==> prefix_resolves(scripts@, files@, scripts@.len() as int) && lua_chunks(
            *final(lua),
        ) == lua_chunks(*old(lua)) + prefix_code(scripts@, files@, scripts@.len() as int)
            && lua_submission_globals(*final(lua)).len() == lua_submission_globals(
            *old(lua),
        ).len() + scripts@.len(),
        lua_submission_globals(*final(lua)).len() > lua_submission_globals(*old(lua)).len()
            ==> lua_submission_globals(*final(lua))[lua_submission_globals(*old(lua)).len() as int]
            == lua_globals(*old(lua)),
        r matches Err(e) ==> exists|i: int|
            0 <= i < scripts@.len() && prefix_resolves(scripts@, files@, i) && match e {
                ExecError::NoSource { script: n } => n@ == scripts@[i].name@ && scripts@[i].inline
                    is None && scripts@[i].path is None && lua_chunks(*final(lua)) == lua_chunks(
                    *old(lua),
                ) + prefix_code(scripts@, files@, i),
                ExecError::ReadFailure { script: n, detail } => n@ == scripts@[i].name@
                    && resolved_code(scripts@[i], files@) is None && scripts@[i].inline is None
                    && (scripts@[i].path matches Some(p) && detail@ == spec_read_detail(
                    files@,
                    p@,
                )) && lua_chunks(*final(lua)) == lua_chunks(*old(lua)) + prefix_code(
                    scripts@,
                    files@,
                    i,
                ),
                ExecError::ScriptFailure { script: n, .. } => n@ == scripts@[i].name@
                    && resolved_code(scripts@[i], files@) is Some && lua_chunks(*final(lua))
                    == lua_chunks(*old(lua)) + prefix_code(scripts@, files@, i + 1),
                _ => false,
            },
{
    let mut i: usize = 0;
    proof {
        assert(lua_chunks(*lua) + prefix_code(scripts@, files@, 0) =~= lua_chunks(*lua));
    }
    while i < scripts.len()
        invariant
            0 <= i <= scripts@.len(),
            i == 0 ==> *lua == *old(lua),
            prefix_resolves(scripts@, files@, i as int),
            lua_chunks(*lua) == lua_chunks(*old(lua)) + prefix_code(scripts@, files@, i as int),
            lua_submission_globals(*lua).len() == lua_submission_globals(*old(lua)).len() + i,
            i > 0 ==> lua_submission_globals(*lua)[lua_submission_globals(*old(lua)).len() as int]
                == lua_globals(*old(lua)),
        decreases scripts@.len() - i,
    {
        let ghost pre = lua_chunks(*lua);
        match extract_lua_code(&scripts[i], files) {
            Err(e) => {
                return Err(e);
            },
            Ok(code) => match exec_chunk(lua, code.as_str()) {
                Ok(()) => {
                    proof {
                        assert(lua_chunks(*lua) =~= lua_chunks(*old(lua)) + prefix_code(
                            scripts@,
                            files@,
                            i as int + 1,
                        ));
                    }
                },
                Err(detail) => {
                    proof {
                        assert(lua_chunks(*lua) =~= lua_chunks(*old(lua)) + prefix_code(
                            scripts@,
                            files@,
                            i as int + 1,
                        ));
                    }
                    return Err(
                        ExecError::ScriptFailure { script: scripts[i].name.clone(), detail },
                    );
                },
            },
        }
        i = i + 1;
    }
    Ok(())
}

impl Config {
    /// Build a fresh Lua state, inject every field as a global, and run the
    /// first script bearing `script_name` against it; the script starts from
    /// globals holding every injected field. A name no attached script bears
    /// is a non-failing no-op. Returns the state the script ran against, for
    /// synchronising the fields afterwards.
    pub fn execute_script(&self, script_name: &str, files: &Vec<FileEntry>) -> (r: Result<
        mlua::Lua,
        ExecError,
    >)
        ensures
            r matches Ok(lua) ==> (!has_script(self.scripts@, script_name@) ==> lua_chunks(lua)
                == Seq::<Seq<char>>::empty() && injected(lua_globals(lua), self.fields@)) && (
            has_script(self.scripts@, script_name@) ==> lua_submission_globals(lua).len() == 1
                && injected(lua_submission_globals(lua)[0], self.fields@) && exists|i: int|
                is_first_match(self.scripts@, script_name@, i) && (resolved_code(
                    self.scripts@[i],
                    files@,
                ) matches Some(c) && lua_chunks(lua) == Seq::<Seq<char>>::empty().push(c))),
            r matches Err(e) ==> match e {
                ExecError::InjectFailure { field, .. } => exists|i: int|
                    0 <= i < self.fields@.len() && field@ == self.fields@[i].name@,
                ExecError::NoSource { script: n } => exists|i: int|
                    is_first_match(self.scripts@, script_name@, i) && n@ == self.scripts@[i].name@
                        && self.scripts@[i].inline is None && self.scripts@[i].path is None,
                ExecError::ReadFailure { script: n, detail } => exists|i: int|
                    is_first_match(self.scripts@, script_name@, i) && n@ == self.scripts@[i].name@
                        && resolved_code(self.scripts@[i], files@) is None
                        && self.scripts@[i].inline is None && (self.scripts@[i].path matches Some(
                        p,
                    ) && detail@ == spec_read_detail(files@, p@)),
                ExecError::ScriptFailure { script: n, .. } => exists|i: int|
                    is_first_match(self.scripts@, script_name@, i) && n@ == self.scripts@[i].name@
                        && resolved_code(self.scripts@[i], files@) is Some,
                ExecError::ReadBackFailure { .. } => false,
            },
    {
        let mut lua = new_lua();
        let ghost g0 = lua_globals(lua);
        match inject_fields(&mut lua, &self.fields) {
            Err(e) => {
                return Err(e);
            },
            Ok(()) => {},
        }
        proof {
            lemma_inject_map_injected(g0, self.fields@);
        }
        match run_named(&mut lua, &self.scripts, script_name, files) {
            Err(e) => {
                return Err(e);
            },
            Ok(()) => {},
        }
        Ok(lua)
    }

    /// Build a fresh Lua state, inject every field as a global, and run all
    /// attached scripts in stored order, stopping at the first failure; the
    /// first script starts from globals holding every injected field.
    /// Returns the state the scripts ran against.
    pub fn execute_all(&self, files: &Vec<FileEntry>) -> (r: Result<mlua::Lua, ExecError>)
        ensures
            r matches Ok(lua) ==> prefix_resolves(
                self.scripts@,
                files@,
                self.scripts@.len() as int,
            ) && lua_chunks(lua) == prefix_code(self.scripts@, files@, self.scripts@.len() as int)
                && lua_submission_globals(lua).len() == self.scripts@.len() && (self.scripts@.len()
                > 0 ==> injected(lua_submission_globals(lua)[0], self.fields@)) && (
            self.scripts@.len() == 0 ==> injected(lua_globals(lua), self.fields@)),
            r matches Err(e) ==> match e {
                ExecError::InjectFailure { field, .. } => exists|i: int|
                    0 <= i < self.fields@.len() && field@ == self.fields@[i].name@,
                ExecError::NoSource { script: n } => exists|i: int|
                    0 <= i < self.scripts@.len() && prefix_resolves(self.scripts@, files@, i) && n@
                        == self.scripts@[i].name@ && self.scripts@[i].inline is None
                        && self.scripts@[i].path is None,
                ExecError::ReadFailure { script: n, detail } => exists|i: int|
                    0 <= i < self.scripts@.len() && prefix_resolves(self.scripts@, files@, i) && n@
                        == self.scripts@[i].name@ && resolved_code(self.scripts@[i], files@)
                        is None && self.scripts@[i].inline is None && (
                    self.scripts@[i].path matches Some(p) && detail@ == spec_read_detail(
                        files@,
                        p@,
                    )),
                ExecError::ScriptFailure { script: n, .. } => exists|i: int|
                    0 <= i < self.scripts@.len() && prefix_resolves(self.scripts@, files@, i) && n@
                        == self.scripts@[i].name@ && resolved_code(self.scripts@[i], files@)
                        is Some,
                ExecError::ReadBackFailure { .. } => false,
            },
    {
        let mut lua = new_lua();
        let ghost g0 = lua_globals(lua);
        match inject_fields(&mut lua, &self.fields) {
            Err(e) => {
                return Err(e);
            },
            Ok(()) => {},
        }
        proof {
            lemma_inject_map_injected(g0, self.fields@);
        }
        match run_all(&mut lua, &self.scripts, files) {
            Err(e) => {
                return Err(e);
            },
            Ok(()) => {},
        }
        proof {
            assert(lua_chunks(lua) =~= prefix_code(
                self.scripts@,
                files@,
                self.scripts@.len() as int,
            ));
        }
        Ok(lua)
    }

    /// Read every field's global back from the given Lua state into the
    /// field, in order, stopping at the first global that is absent, of an
    /// unsupported type, or unreadable. The scripts and the field names are
    /// never changed; on failure the fields from the failing one on keep
    /// their previous values.
    pub fn update(&mut self, lua: mlua::Lua) -> (r: Result<(), ExecError>)
        ensures
            final(self).scripts == old(self).scripts,
            final(self).fields@.len() == old(self).fields@.len(),
            forall|j: int|
                0 <= j < old(self).fields@.len() ==> final(self).fields@[j].name@ == old(
                    self,
                ).fields@[j].name@,
            r is Ok ==> forall|j: int|
                0 <= j < final(self).fields@.len() ==> lua_globals(lua).contains_key(
                    final(self).fields@[j].name@,
                ) && lua_globals(lua)[final(self).fields@[j].name@] == gval_of(
                    final(self).fields@[j].value,
                ),
            r matches Err(e) ==> e matches ExecError::ReadBackFailure { field, .. } && exists|
                i: int,
            |
                0 <= i < old(self).fields@.len() && field@ == old(self).fields@[i].name@ && (forall|
                    j: int,
                |
                    i <= j < old(self).fields@.len() ==> final(self).fields@[j] == old(
                        self,
                    ).fields@[j]) && (forall|j: int|
                    0 <= j < i ==> lua_globals(lua).contains_key(final(self).fields@[j].name@)
                        && lua_globals(lua)[final(self).fields@[j].name@] == gval_of(
                        final(self).fields@[j].value,
                    )),
    {
        let mut i: usize = 0;
        while i < self.fields.len()
            invariant
                0 <= i <= self.fields@.len(),
                self.scripts == old(self).scripts,
                self.fields@.len() == old(self).fields@.len(),
                forall|j: int|
                    0 <= j < self.fields@.len() ==> self.fields@[j].name@ == old(
                        self,
                    ).fields@[j].name@,
                forall|j: int|
                    i <= j < self.fields@.len() ==> self.fields@[j] == old(self).fields@[j],
                forall|j: int|
                    0 <= j < i ==> lua_globals(lua).contains_key(self.fields@[j].name@)
                        && lua_globals(lua)[self.fields@[j].name@] == gval_of(
                        self.fields@[j].value,
                    ),
            decreases self.fields@.len() - i,
        {
            let name = self.fields[i].name.clone();
            match read_global(&lua, name.as_str()) {
                ReadBack::Val(v) => {
                    self.fields.set(i, Field { name, value: v });
                },
                ReadBack::Absent => {
                    return Err(
                        ExecError::ReadBackFailure {
                            field: name,
                            detail: String::from_str("the global is absent"),
                        },
                    );
                },
                ReadBack::Unsupported => {
                    return Err(
                        ExecError::ReadBackFailure {
                            field: name,
                            detail: String::from_str(
                                "the global holds a value outside the supported types",
                            ),
                        },
                    );
                },
                ReadBack::Failure(detail) => {
                    return Err(ExecError::ReadBackFailure { field: name, detail });
                },
            }
            i = i + 1;
        }
        Ok(())
    }
}

} // verus!
