//! Language descriptors and command-template rendering.
//!
//! A language descriptor carries string templates for the run command and the
//! compile command. Rendering substitutes named holes through the template
//! engine; the engine's output is named, not restated, and everything built
//! from it is exact over that name.

use vstd::prelude::*;
use vstd::string::*;
use std::collections::HashMap;
use crate::constants::MAKE_ARGS;
use crate::numfmt::{dec_digits, u64_to_string};

verus! {

/// An immutable language descriptor as loaded at startup.
#[derive(Debug)]
pub struct Language {
    pub uuid: u128,
    pub name: String,
    pub version: String,
    pub exec_cmd: String,
    pub compile_exec: String,
    pub compile_args: String,
    pub entry_source: String,
    pub add_mem_limit: u64,
    pub add_time_limit: u64,
}

impl Clone for Language {
    /// A clone is the same descriptor.
    fn clone(&self) -> (res: Language)
        ensures
            res == *self,
    {
        Language {
            uuid: self.uuid,
            name: self.name.clone(),
            version: self.version.clone(),
            exec_cmd: self.exec_cmd.clone(),
            compile_exec: self.compile_exec.clone(),
            compile_args: self.compile_args.clone(),
            entry_source: self.entry_source.clone(),
            add_mem_limit: self.add_mem_limit,
            add_time_limit: self.add_time_limit,
        }
    }
}

/// Context of an exec-command template: the `{file}` hole.
pub struct ExecCmd {
    pub file: String,
}

/// Context of the run-script template: the `{language_command}` hole.
pub struct ExecSh {
    pub language_command: String,
}

/// Context of a compile-arguments template: the `{infile}` and `{outfile}`
/// holes.
pub struct CompileCmd {
    pub infile: String,
    pub outfile: String,
}

/// Context of the project-build arguments template: the `{threads}` hole.
pub struct MakeCmd {
    pub threads: usize,
}

/// Outcome of a compile step: the builder's stdout on success, its stderr on
/// failure.
#[derive(Clone, Debug, PartialEq)]
pub enum CompileResult {
    Success(String),
    Error(String),
}

/// What the template engine returns for a template and a variable binding;
/// `None` when the template itself is malformed.
pub uninterp spec fn rendered(template: Seq<char>, vars: Map<Seq<char>, Seq<char>>) -> Option<
    Seq<char>,
>;

/// The binding of a single template variable.
pub open spec fn one_var(k: Seq<char>, v: Seq<char>) -> Map<Seq<char>, Seq<char>> {
    Map::empty().insert(k, v)
}

/// The binding of two template variables.
pub open spec fn two_vars(k1: Seq<char>, v1: Seq<char>, k2: Seq<char>, v2: Seq<char>) -> Map<
    Seq<char>,
    Seq<char>,
> {
    Map::empty().insert(k1, v1).insert(k2, v2)
}

/// Relies on tinytemplate's `TinyTemplate::render`: substituting the given
/// variables into the template is a function of the template text and the
/// bindings alone.
#[verifier::external_body]
fn render_template(template: &str, k1: &str, v1: &str, k2: &str, v2: &str) -> (r: Option<String>)
    ensures
        r matches Some(s) ==> rendered(template@, two_vars(k1@, v1@, k2@, v2@)) == Some(s@),
        r is Some <==> rendered(template@, two_vars(k1@, v1@, k2@, v2@)) is Some,
{
    let mut tt = tinytemplate::TinyTemplate::new();
    if tt.add_template("t", template).is_err() {
        return None;
    }
    let mut vars: HashMap<&str, &str> = HashMap::new();
    vars.insert(k1, v1);
    vars.insert(k2, v2);
    tt.render("t", &vars).ok()
}

/// The fixed template of a generated run script: a shell that executes the
/// language's run command.
pub const EXEC_SH_TEMPLATE: &'static str = "#!/bin/bash\n{language_command}\n";

/// The run command of a language for a binary path.
pub open spec fn spec_exec_cmd(l: Language, file: Seq<char>) -> Option<Seq<char>> {
    rendered(l.exec_cmd@, one_var("file"@, file))
}

/// The run script of a language for a binary path: its run command rendered
/// into the fixed script template.
pub open spec fn spec_exec_sh(l: Language, file: Seq<char>) -> Option<Seq<char>> {
    match spec_exec_cmd(l, file) {
        Some(cmd) => rendered(EXEC_SH_TEMPLATE@, one_var("language_command"@, cmd)),
        None => None,
    }
}

/// The compile arguments of a language for a source and an output path.
pub open spec fn spec_compile_args(l: Language, infile: Seq<char>, outfile: Seq<char>) -> Option<
    Seq<char>,
> {
    rendered(l.compile_args@, two_vars("infile"@, infile, "outfile"@, outfile))
}

/// The project-build arguments for a thread count.
pub open spec fn spec_make_args(threads: nat) -> Option<Seq<char>> {
    rendered(MAKE_ARGS@, one_var("threads"@, dec_digits(threads)))
}

impl Language {
    /// Render the command line that runs a compiled artifact.
    pub fn parse_exec_cmd(&self, binary_path: &str) -> (r: Option<String>)
        ensures
            r matches Some(s) ==> spec_exec_cmd(*self, binary_path@) == Some(s@),
            r is Some <==> spec_exec_cmd(*self, binary_path@) is Some,
    {
        proof {
            assert(two_vars("file"@, binary_path@, "file"@, binary_path@) =~= one_var(
                "file"@,
                binary_path@,
            ));
        }
        render_template(self.exec_cmd.as_str(), "file", binary_path, "file", binary_path)
    }

    /// Render the shell script that runs a compiled artifact.
    pub fn parse_exec_sh(&self, binary_path: &str) -> (r: Option<String>)
        ensures
            r matches Some(s) ==> spec_exec_sh(*self, binary_path@) == Some(s@),
            r is Some <==> spec_exec_sh(*self, binary_path@) is Some,
    {
        match self.parse_exec_cmd(binary_path) {
            Some(cmd) => {
                proof {
                    assert(two_vars(
                        "language_command"@,
                        cmd@,
                        "language_command"@,
                        cmd@,
                    ) =~= one_var("language_command"@, cmd@));
                }
                render_template(
                    EXEC_SH_TEMPLATE,
                    "language_command",
                    cmd.as_str(),
                    "language_command",
                    cmd.as_str(),
                )
            },
            None => None,
        }
    }

    /// The path under which the user source must be written for this
    /// language, inside a given scratch directory.
    pub fn source_path(&self, dir: &str) -> (r: String)
        ensures
            r@ == dir@ + "/"@ + self.entry_source@,
    {
        let mut p = String::from_str(dir);
        p.append("/");
        p.append(self.entry_source.as_str());
        p
    }

    /// Render the argument string of the single-file compile command.
    pub fn parse_compile_args(&self, infile: &str, outfile: &str) -> (r: Option<String>)
        ensures
            r matches Some(s) ==> spec_compile_args(*self, infile@, outfile@) == Some(s@),
            r is Some <==> spec_compile_args(*self, infile@, outfile@) is Some,
    {
        render_template(self.compile_args.as_str(), "infile", infile, "outfile", outfile)
    }
}

/// Relies on num_cpus's `get`: the number of available processors is at
/// least one.
#[verifier::external_body]
fn cpu_count() -> (r: usize)
    ensures
        r >= 1,
{
    num_cpus::get()
}

/// Render the project-build arguments for a given thread count.
pub fn parse_make_args_with(threads: usize) -> (r: Option<String>)
    ensures
        r matches Some(s) ==> spec_make_args(threads as nat) == Some(s@),
        r is Some <==> spec_make_args(threads as nat) is Some,
{
    let t = u64_to_string(threads as u64);
    proof {
        assert(two_vars("threads"@, t@, "threads"@, t@) =~= one_var("threads"@, t@));
    }
    render_template(MAKE_ARGS, "threads", t.as_str(), "threads", t.as_str())
}

/// Render the project-build arguments with the host's processor count: it
/// behaves exactly as `parse_make_args_with` does for some count of at
/// least one.
pub fn parse_make_args() -> (r: Option<String>)
    ensures
        exists|n: nat|
            n >= 1 && (r is Some <==> #[trigger] spec_make_args(n) is Some) && (r matches Some(s)
                ==> spec_make_args(n) == Some(s@)),
{
    let n = cpu_count();
    let r = parse_make_args_with(n);
    proof {
        assert(n as nat >= 1 && (r is Some <==> spec_make_args(n as nat) is Some) && (r
            matches Some(s) ==> spec_make_args(n as nat) == Some(s@)));
    }
    r
}

/// Rendering is deterministic: the same template and the same inputs give
/// the same command line and the same compile arguments.
pub proof fn lemma_render_deterministic(
    l1: Language,
    l2: Language,
    file1: Seq<char>,
    file2: Seq<char>,
    out1: Seq<char>,
    out2: Seq<char>,
)
    requires
        l1.exec_cmd@ == l2.exec_cmd@,
        l1.compile_args@ == l2.compile_args@,
        file1 == file2,
        out1 == out2,
    ensures
        spec_exec_cmd(l1, file1) == spec_exec_cmd(l2, file2),
        spec_compile_args(l1, file1, out1) == spec_compile_args(l2, file2, out2),
{
}

/// Map a builder exit to a compile outcome: stdout on success, stderr
/// otherwise.
pub fn compile_outcome(success: bool, stdout: String, stderr: String) -> (r: CompileResult)
    ensures
        success ==> (r matches CompileResult::Success(s) && s == stdout),
        !success ==> (r matches CompileResult::Error(s) && s == stderr),
{
    if success {
        CompileResult::Success(stdout)
    } else {
        CompileResult::Error(stderr)
    }
}

/// The loaded language registry.
#[derive(Clone, Debug)]
pub struct Languages {
    pub langs: Vec<Language>,
}

/// The descriptor a lookup returns: the latest entry with the identifier,
/// so that a duplicate identifier deterministically wins by loading last.
pub open spec fn spec_lang_get(s: Seq<Language>, id: u128) -> Option<Language>
    decreases s.len(),
{
    if s.len() == 0 {
        None
    } else if s.last().uuid == id {
        Some(s.last())
    } else {
        spec_lang_get(s.drop_last(), id)
    }
}

impl Languages {
    /// Build the registry from the descriptors in load order.
    pub fn from_entries(entries: Vec<Language>) -> (r: Languages)
        ensures
            r.langs@ == entries@,
    {
        Languages { langs: entries }
    }

    /// Look a descriptor up by its identifier.
    pub fn get(&self, id: u128) -> (r: Option<&Language>)
        ensures
            match r {
                Some(l) => spec_lang_get(self.langs@, id) == Some(*l),
                None => spec_lang_get(self.langs@, id) is None,
            },
    {
        let n = self.langs.len();
        let mut i: usize = n;
        proof {
            assert(self.langs@.take(n as int) =~= self.langs@);
        }
        while i > 0
            invariant
                0 <= i <= n == self.langs@.len(),
                spec_lang_get(self.langs@, id) == spec_lang_get(self.langs@.take(i as int), id),
            decreases i,
        {
            i = i - 1;
            proof {
                assert(self.langs@.take(i as int + 1).drop_last() =~= self.langs@.take(i as int));
                assert(self.langs@.take(i as int + 1).last() == self.langs@[i as int]);
            }
            if self.langs[i].uuid == id {
                return Some(&self.langs[i]);
            }
        }
        proof {
            assert(self.langs@.take(0).len() == 0);
        }
        None
    }
}

} // verus!
