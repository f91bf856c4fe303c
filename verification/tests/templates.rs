use pms_slave::language::{
    compile_outcome, parse_make_args, parse_make_args_with, CompileResult, Language, Languages,
};

fn cpp() -> Language {
    Language {
        uuid: 7,
        name: "C++17".to_string(),
        version: "g++ 12".to_string(),
        exec_cmd: "{file}".to_string(),
        compile_exec: "g++".to_string(),
        compile_args: "-O2 -o {outfile} {infile}".to_string(),
        entry_source: "main.cpp".to_string(),
        add_mem_limit: 1024,
        add_time_limit: 500,
    }
}

#[test]
fn renders_the_exec_command() {
    let l = cpp();
    assert_eq!(l.parse_exec_cmd("/temp/main").unwrap(), "/temp/main");
    let mut sh = cpp();
    sh.exec_cmd = "python3 {file}".to_string();
    assert_eq!(sh.parse_exec_cmd("/temp/main").unwrap(), "python3 /temp/main");
}

#[test]
fn renders_the_exec_script() {
    let mut l = cpp();
    l.exec_cmd = "run {file}".to_string();
    assert_eq!(l.parse_exec_sh("/temp/manager").unwrap(), "#!/bin/bash\nrun /temp/manager\n");
}

#[test]
fn renders_the_compile_arguments() {
    let l = cpp();
    assert_eq!(
        l.parse_compile_args("/tmp/s/main.cpp", "/tmp/out/main").unwrap(),
        "-O2 -o /tmp/out/main /tmp/s/main.cpp"
    );
}

#[test]
fn a_malformed_template_renders_nothing() {
    let mut l = cpp();
    l.exec_cmd = "{unclosed".to_string();
    assert_eq!(l.parse_exec_cmd("/temp/main"), None);
    assert_eq!(l.parse_exec_sh("/temp/main"), None);
}

#[test]
fn renders_the_build_arguments() {
    assert_eq!(parse_make_args_with(4).unwrap(), "-j4");
    assert_eq!(parse_make_args_with(1).unwrap(), "-j1");
    let auto = parse_make_args().unwrap();
    assert!(auto.starts_with("-j"));
}

#[test]
fn source_path_joins_the_entry_name() {
    assert_eq!(cpp().source_path("/tmp/work"), "/tmp/work/main.cpp");
}

#[test]
fn compile_outcome_keeps_the_right_stream() {
    assert_eq!(
        compile_outcome(true, "ok".to_string(), "bad".to_string()),
        CompileResult::Success("ok".to_string())
    );
    assert_eq!(
        compile_outcome(false, "ok".to_string(), "bad".to_string()),
        CompileResult::Error("bad".to_string())
    );
}

#[test]
fn lookup_is_last_wins() {
    let mut a = cpp();
    a.uuid = 1;
    a.name = "first".to_string();
    let mut b = cpp();
    b.uuid = 1;
    b.name = "second".to_string();
    let mut c = cpp();
    c.uuid = 2;
    let langs = Languages::from_entries(vec![a, b, c]);
    assert_eq!(langs.get(1).unwrap().name, "second");
    assert_eq!(langs.get(2).unwrap().uuid, 2);
    assert!(langs.get(3).is_none());
}
