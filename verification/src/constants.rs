//! Fixed names and limits shared by the sandbox pipeline and the session.

use vstd::prelude::*;

verus! {

/// Seconds slept before a reconnect that follows a session error.
pub const SLEEP_TIME: u64 = 5;

/// Seconds between two liveness probes of the keepalive timer.
pub const CHECK_ALIVE_TIME: u64 = 5;

/// Time limit of a checker run, in milliseconds.
pub const CHECKER_TIME_LIMIT_MS: u64 = 5000;

/// Memory limit of a checker run, in kilobytes.
pub const CHECKER_MEM_LIMIT: u64 = 1048576;

/// Argument template of the project build command.
pub const MAKE_ARGS: &'static str = "-j{threads}";

/// Name of the external isolation tool.
pub const ISOLATE: &'static str = "isolate";

/// Shell interpreter used for the orchestration scripts.
pub const BASH: &'static str = "bash";

/// Project build command for grader trees.
pub const MAKE: &'static str = "make";

/// Meta-file name inside the scratch directory.
pub const LOG_FILE_NAME: &'static str = "main.log";

/// Program stdin file inside the job's temp directory.
pub const STDIN_FILE_NAME: &'static str = "input.txt";

/// Program stdout file inside the job's temp directory.
pub const STDOUT_FILE_NAME: &'static str = "output.txt";

/// Reference output file inside the job's temp directory.
pub const STDOUT_ORIGIN_FILE_NAME: &'static str = "diff_output.txt";

/// File name of the compiled main binary in Simple mode.
pub const BINARY_NAME: &'static str = "main";

/// File name of the compiled checker binary.
pub const CHECKER_NAME: &'static str = "checker";

/// File name of the compiled manager binary.
pub const MANAGER_NAME: &'static str = "manager";

/// Generated script that runs the user program in Interactive mode.
pub const EXEC_SH: &'static str = "exec.sh";

/// Generated script that runs the manager in Interactive mode.
pub const EXEC_MAN_SH: &'static str = "exec_man.sh";

/// Fixed dispatcher script of an Interactive run.
pub const RUN_JUDGE_SH: &'static str = "run.judge.sh";

/// Fixed entry script of a checker run.
pub const CHECKER_SH: &'static str = "checker.sh";

/// Checker outcome file inside the box directory.
pub const RESULT_FILE_NAME: &'static str = "result.toml";

/// Directory of the unpacked grader tree inside a job's temp directory.
pub const GRADERS_PATH: &'static str = "graders/";

/// Directory of the language descriptor files.
pub const LANGUAGES_PATH: &'static str = "langs/";

} // verus!
