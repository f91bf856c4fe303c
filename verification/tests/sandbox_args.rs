use pms_slave::language::Language;
use pms_slave::sandbox::{cleanup_args, init_args, CheckerRun, Run, Runv2};

fn lang(exec_cmd: &str) -> Language {
    Language {
        uuid: 1,
        name: "L".to_string(),
        version: "1".to_string(),
        exec_cmd: exec_cmd.to_string(),
        compile_exec: "cc".to_string(),
        compile_args: "{infile} {outfile}".to_string(),
        entry_source: "main.c".to_string(),
        add_mem_limit: 1024,
        add_time_limit: 500,
    }
}

#[test]
fn cleanup_and_init_invocations() {
    assert_eq!(cleanup_args(), vec!["--cg".to_string(), "--cleanup".to_string()]);
    assert_eq!(init_args(), vec!["--init".to_string(), "--cg".to_string()]);
}

#[test]
fn simple_run_invocation() {
    let r = Run {
        temp_path: "/tmp/job".to_string(),
        language: lang("{file}"),
        box_dir: "/tmp/box".to_string(),
        time_limit_ms: 1000,
        mem_limit: 65536,
    };
    let args = r.run_args("/tmp/scratch/main.log").unwrap();
    assert_eq!(
        args,
        vec![
            "--run".to_string(),
            "--cg".to_string(),
            "-t 1.5".to_string(),
            "-w 1.5".to_string(),
            "-m 66560".to_string(),
            "--cg-mem=66560".to_string(),
            "-s".to_string(),
            "--stdin=/temp/input.txt".to_string(),
            "--stdout=/temp/output.txt".to_string(),
            "--meta=/tmp/scratch/main.log".to_string(),
            "--dir=temp=/tmp/job:rw".to_string(),
            "--dir=box=/tmp/box".to_string(),
            "/temp/main".to_string(),
        ]
    );
}

#[test]
fn interactive_run_invocation() {
    let r = Runv2 {
        temp_path: "/tmp/job".to_string(),
        object_path: "impl/sol.o".to_string(),
        main_lang: lang("{file}"),
        manager_lang: lang("{file}"),
        box_dir: "/tmp/box".to_string(),
        time_limit_ms: 2000,
        mem_limit: 1000,
    };
    let args = r.run_args("/tmp/scratch/main.log");
    assert_eq!(
        args,
        vec![
            "--run".to_string(),
            "--cg".to_string(),
            "-t 2.5".to_string(),
            "-w 2.5".to_string(),
            "-m 2024".to_string(),
            "--cg-mem=2024".to_string(),
            "-p 5".to_string(),
            "-s".to_string(),
            "--stdin=/temp/input.txt".to_string(),
            "--meta=/tmp/scratch/main.log".to_string(),
            "--dir=temp=/tmp/job".to_string(),
            "--dir=box=/tmp/box:rw".to_string(),
            "bash".to_string(),
            "/box/run.judge.sh".to_string(),
        ]
    );
    assert_eq!(r.object_sandbox_path(), "/temp/graders//impl/sol.o");
    assert_eq!(r.exec_script().unwrap(), "#!/bin/bash\n/temp/graders//impl/sol.o\n");
    assert_eq!(r.manager_script().unwrap(), "#!/bin/bash\n/temp/manager\n");
}

#[test]
fn checker_run_invocation() {
    let c = CheckerRun {
        checker_lang: lang("{file}"),
        temp_path: "/tmp/job".to_string(),
        box_dir: "/tmp/box".to_string(),
    };
    let args = c.run_args("/tmp/scratch/main.log");
    assert_eq!(
        args,
        vec![
            "--run".to_string(),
            "--cg".to_string(),
            "-t 5.5".to_string(),
            "-w 5.5".to_string(),
            "-m 1049600".to_string(),
            "--cg-mem=1049600".to_string(),
            "-p 2".to_string(),
            "-s".to_string(),
            "--meta=/tmp/scratch/main.log".to_string(),
            "--dir=temp=/tmp/job".to_string(),
            "--dir=box=/tmp/box:rw".to_string(),
            "bash".to_string(),
            "checker.sh".to_string(),
        ]
    );
}
