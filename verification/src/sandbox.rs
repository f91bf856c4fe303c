//! Assembly of the sandbox command lines.
//!
//! Every sandbox operation is the triple cleanup, init, run. The argument
//! vectors are built here exactly; executing the isolation tool and the
//! surrounding filesystem work stay outside the library. Limits arrive in
//! milliseconds and kilobytes and are widened by the language's headroom
//! before they are rendered.

use vstd::prelude::*;
use vstd::string::*;
use crate::constants::{CHECKER_MEM_LIMIT, CHECKER_TIME_LIMIT_MS};
use crate::language::{spec_exec_cmd, spec_exec_sh, Language};
use crate::numfmt::{dec_digits, secs_string, seconds_arg, u64_to_string};

verus! {

/// Saturating addition of two limits.
pub open spec fn spec_sat_add(a: u64, b: u64) -> u64 {
    if a + b <= u64::MAX {
        (a + b) as u64
    } else {
        u64::MAX
    }
}

/// Add a limit and its headroom without overflowing.
pub fn sat_add(a: u64, b: u64) -> (r: u64)
    ensures
        r == spec_sat_add(a, b),
{
    if a > u64::MAX - b {
        u64::MAX
    } else {
        a + b
    }
}

/// Arguments of the sandbox cleanup invocation.
pub open spec fn spec_cleanup_args() -> Seq<Seq<char>> {
    seq!["--cg"@, "--cleanup"@]
}

/// Build the cleanup invocation.
pub fn cleanup_args() -> (r: Vec<String>)
    ensures
        r.deep_view() == spec_cleanup_args(),
{
    let mut v: Vec<String> = Vec::new();
    v.push(String::from_str("--cg"));
    v.push(String::from_str("--cleanup"));
    proof {
        assert(v.deep_view() =~~= spec_cleanup_args());
    }
    v
}

/// Arguments of the sandbox init invocation.
pub open spec fn spec_init_args() -> Seq<Seq<char>> {
    seq!["--init"@, "--cg"@]
}

/// Build the init invocation.
pub fn init_args() -> (r: Vec<String>)
    ensures
        r.deep_view() == spec_init_args(),
{
    let mut v: Vec<String> = Vec::new();
    v.push(String::from_str("--init"));
    v.push(String::from_str("--cg"));
    proof {
        assert(v.deep_view() =~~= spec_init_args());
    }
    v
}

/// The shared limit arguments of a run invocation: CPU and wall time in
/// seconds, then per-process and control-group memory in kilobytes.
pub open spec fn spec_limit_args(time_ms: u64, mem_kb: u64) -> Seq<Seq<char>> {
    seq![
        "-t "@ + secs_string(time_ms as nat),
        "-w "@ + secs_string(time_ms as nat),
        "-m "@ + dec_digits(mem_kb as nat),
        "--cg-mem="@ + dec_digits(mem_kb as nat),
    ]
}

/// Build the four limit arguments.
fn limit_arg_strings(time_ms: u64, mem_kb: u64) -> (r: (String, String, String, String))
    ensures
        r.0@ == spec_limit_args(time_ms, mem_kb)[0],
        r.1@ == spec_limit_args(time_ms, mem_kb)[1],
        r.2@ == spec_limit_args(time_ms, mem_kb)[2],
        r.3@ == spec_limit_args(time_ms, mem_kb)[3],
{
    let secs = seconds_arg(time_ms);
    let mem = u64_to_string(mem_kb);
    let mut t = String::from_str("-t ");
    t.append(secs.as_str());
    let mut w = String::from_str("-w ");
    w.append(secs.as_str());
    let mut m = String::from_str("-m ");
    m.append(mem.as_str());
    let mut cg = String::from_str("--cg-mem=");
    cg.append(mem.as_str());
    (t, w, m, cg)
}

/// A Simple-mode program run: stdin and stdout are redirected from and to
/// the job's temp directory and the run command comes from the language's
/// template.
pub struct Run {
    pub temp_path: String,
    pub language: Language,
    pub box_dir: String,
    pub time_limit_ms: u64,
    pub mem_limit: u64,
}

/// The run-invocation arguments of a Simple-mode program run, given the
/// rendered run command.
pub open spec fn spec_program_run_args(r: Run, meta_path: Seq<char>, cmd: Seq<char>) -> Seq<
    Seq<char>,
> {
    seq!["--run"@, "--cg"@] + spec_limit_args(
        spec_sat_add(r.time_limit_ms, r.language.add_time_limit),
        spec_sat_add(r.mem_limit, r.language.add_mem_limit),
    ) + seq![
        "-s"@,
        "--stdin=/temp/input.txt"@,
        "--stdout=/temp/output.txt"@,
        "--meta="@ + meta_path,
        "--dir=temp="@ + r.temp_path@ + ":rw"@,
        "--dir=box="@ + r.box_dir@,
        cmd,
    ]
}

impl Run {
    /// Build the run invocation; the command is the language's run command
    /// for the main binary in the temp directory. Fails only when the
    /// language's template is malformed.
    pub fn run_args(&self, meta_path: &str) -> (r: Option<Vec<String>>)
        ensures
            r matches Some(v) ==> spec_exec_cmd(self.language, "/temp/main"@) matches Some(cmd)
                && v.deep_view() == spec_program_run_args(*self, meta_path@, cmd),
            r is Some <==> spec_exec_cmd(self.language, "/temp/main"@) is Some,
    {
        let cmd = match self.language.parse_exec_cmd("/temp/main") {
            Some(c) => c,
            None => {
                return None;
            },
        };
        let mut v: Vec<String> = Vec::new();
        v.push(String::from_str("--run"));
        v.push(String::from_str("--cg"));
        let (la_t, la_w, la_m, la_cg) = limit_arg_strings(
            sat_add(self.time_limit_ms, self.language.add_time_limit),
            sat_add(self.mem_limit, self.language.add_mem_limit),
        );
        v.push(la_t);
        v.push(la_w);
        v.push(la_m);
        v.push(la_cg);
        v.push(String::from_str("-s"));
        v.push(String::from_str("--stdin=/temp/input.txt"));
        v.push(String::from_str("--stdout=/temp/output.txt"));
        let mut meta = String::from_str("--meta=");
        meta.append(meta_path);
        v.push(meta);
        let mut temp = String::from_str("--dir=temp=");
        temp.append(self.temp_path.as_str());
        temp.append(":rw");
        v.push(temp);
        let mut boxd = String::from_str("--dir=box=");
        boxd.append(self.box_dir.as_str());
        v.push(boxd);
        proof {
            assert(spec_exec_cmd(self.language, "/temp/main"@) == Some(cmd@));
        }
        v.push(cmd);
        proof {
            assert(v.deep_view() =~~= spec_program_run_args(
                *self,
                meta_path@,
                spec_exec_cmd(self.language, "/temp/main"@)->0,
            ));
        }
        Some(v)
    }
}

/// An Interactive-mode run: the dispatcher script in the box directory forks
/// the user program and the manager; the temp directory is read-only to the
/// sandbox and the box directory is writable.
pub struct Runv2 {
    pub temp_path: String,
    pub object_path: String,
    pub main_lang: Language,
    pub manager_lang: Language,
    pub box_dir: String,
    pub time_limit_ms: u64,
    pub mem_limit: u64,
}

/// The run-invocation arguments of an Interactive-mode run.
pub open spec fn spec_interactive_run_args(r: Runv2, meta_path: Seq<char>) -> Seq<Seq<char>> {
    seq!["--run"@, "--cg"@] + spec_limit_args(
        spec_sat_add(r.time_limit_ms, r.main_lang.add_time_limit),
        spec_sat_add(r.mem_limit, r.main_lang.add_mem_limit),
    ) + seq![
        "-p 5"@,
        "-s"@,
        "--stdin=/temp/input.txt"@,
        "--meta="@ + meta_path,
        "--dir=temp="@ + r.temp_path@,
        "--dir=box="@ + r.box_dir@ + ":rw"@,
        "bash"@,
        "/box/run.judge.sh"@,
    ]
}

impl Runv2 {
    /// The sandbox path of the user program's compiled object inside the
    /// unpacked grader tree.
    pub fn object_sandbox_path(&self) -> (r: String)
        ensures
            r@ == "/temp/graders//"@ + self.object_path@,
    {
        let mut s = String::from_str("/temp/graders//");
        s.append(self.object_path.as_str());
        s
    }

    /// The generated script that runs the user program. Fails only when the
    /// main language's template is malformed.
    pub fn exec_script(&self) -> (r: Option<String>)
        ensures
            r matches Some(s) ==> spec_exec_sh(self.main_lang, "/temp/graders//"@
                + self.object_path@) == Some(s@),
            r is Some <==> spec_exec_sh(self.main_lang, "/temp/graders//"@ + self.object_path@)
                is Some,
    {
        let p = self.object_sandbox_path();
        self.main_lang.parse_exec_sh(p.as_str())
    }

    /// The generated script that runs the manager. Fails only when the
    /// manager language's template is malformed.
    pub fn manager_script(&self) -> (r: Option<String>)
        ensures
            r matches Some(s) ==> spec_exec_sh(self.manager_lang, "/temp/manager"@) == Some(s@),
            r is Some <==> spec_exec_sh(self.manager_lang, "/temp/manager"@) is Some,
    {
        self.manager_lang.parse_exec_sh("/temp/manager")
    }

    /// Build the run invocation: the shell runs the fixed dispatcher script
    /// from the box directory.
    pub fn run_args(&self, meta_path: &str) -> (r: Vec<String>)
        ensures
            r.deep_view() == spec_interactive_run_args(*self, meta_path@),
    {
        let mut v: Vec<String> = Vec::new();
        v.push(String::from_str("--run"));
        v.push(String::from_str("--cg"));
        let (la_t, la_w, la_m, la_cg) = limit_arg_strings(
            sat_add(self.time_limit_ms, self.main_lang.add_time_limit),
            sat_add(self.mem_limit, self.main_lang.add_mem_limit),
        );
        v.push(la_t);
        v.push(la_w);
        v.push(la_m);
        v.push(la_cg);
        v.push(String::from_str("-p 5"));
        v.push(String::from_str("-s"));
        v.push(String::from_str("--stdin=/temp/input.txt"));
        let mut meta = String::from_str("--meta=");
        meta.append(meta_path);
        v.push(meta);
        let mut temp = String::from_str("--dir=temp=");
        temp.append(self.temp_path.as_str());
        v.push(temp);
        let mut boxd = String::from_str("--dir=box=");
        boxd.append(self.box_dir.as_str());
        boxd.append(":rw");
        v.push(boxd);
        v.push(String::from_str("bash"));
        v.push(String::from_str("/box/run.judge.sh"));
        proof {
            assert(v.deep_view() =~~= spec_interactive_run_args(*self, meta_path@));
        }
        v
    }
}

/// A checker run: the fixed checker entry script judges the produced output
/// against the reference under the checker's own limits.
pub struct CheckerRun {
    pub checker_lang: Language,
    pub temp_path: String,
    pub box_dir: String,
}

/// The run-invocation arguments of a checker run.
pub open spec fn spec_checker_run_args(r: CheckerRun, meta_path: Seq<char>) -> Seq<Seq<char>> {
    seq!["--run"@, "--cg"@] + spec_limit_args(
        spec_sat_add(CHECKER_TIME_LIMIT_MS, r.checker_lang.add_time_limit),
        spec_sat_add(CHECKER_MEM_LIMIT, r.checker_lang.add_mem_limit),
    ) + seq![
        "-p 2"@,
        "-s"@,
        "--meta="@ + meta_path,
        "--dir=temp="@ + r.temp_path@,
        "--dir=box="@ + r.box_dir@ + ":rw"@,
        "bash"@,
        "checker.sh"@,
    ]
}

impl CheckerRun {
    /// Build the run invocation of the checker.
    pub fn run_args(&self, meta_path: &str) -> (r: Vec<String>)
        ensures
            r.deep_view() == spec_checker_run_args(*self, meta_path@),
    {
        let mut v: Vec<String> = Vec::new();
        v.push(String::from_str("--run"));
        v.push(String::from_str("--cg"));
        let (la_t, la_w, la_m, la_cg) = limit_arg_strings(
            sat_add(CHECKER_TIME_LIMIT_MS, self.checker_lang.add_time_limit),
            sat_add(CHECKER_MEM_LIMIT, self.checker_lang.add_mem_limit),
        );
        v.push(la_t);
        v.push(la_w);
        v.push(la_m);
        v.push(la_cg);
        v.push(String::from_str("-p 2"));
        v.push(String::from_str("-s"));
        let mut meta = String::from_str("--meta=");
        meta.append(meta_path);
        v.push(meta);
        let mut temp = String::from_str("--dir=temp=");
        temp.append(self.temp_path.as_str());
        v.push(temp);
        let mut boxd = String::from_str("--dir=box=");
        boxd.append(self.box_dir.as_str());
        boxd.append(":rw");
        v.push(boxd);
        v.push(String::from_str("bash"));
        v.push(String::from_str("checker.sh"));
        proof {
            assert(v.deep_view() =~~= spec_checker_run_args(*self, meta_path@));
        }
        v
    }
}

} // verus!
