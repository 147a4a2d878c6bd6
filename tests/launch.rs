use mcwrap::launch::{
    child_argv, choose_jar, has_jar_extension, jar_candidates, java_args_or_default,
    terminal_environment, JarChoice, PtySpawnResult,
};

#[test]
fn default_arguments_run_the_jar() {
    let args = java_args_or_default(vec![], "paper.jar");
    assert_eq!(
        args,
        vec![
            "-Dnet.kyori.ansi.colorLevel=truecolor".to_string(),
            "-Xms2G".to_string(),
            "-Xmx4G".to_string(),
            "-jar".to_string(),
            "paper.jar".to_string(),
            "--nogui".to_string(),
        ]
    );
}

#[test]
fn given_arguments_kept() {
    let given = vec!["-Xmx1G".to_string(), "-jar".to_string(), "x.jar".to_string()];
    assert_eq!(java_args_or_default(given.clone(), "paper.jar"), given);
}

#[test]
fn argv_starts_with_program() {
    let argv = child_argv(&vec!["-jar".to_string(), "a.jar".to_string()]);
    assert_eq!(argv, vec!["java".to_string(), "-jar".to_string(), "a.jar".to_string()]);
}

#[test]
fn environment_declares_color_terminal() {
    let env = terminal_environment();
    assert_eq!(
        env,
        vec![
            ("TERM".to_string(), "xterm-256color".to_string()),
            ("COLORTERM".to_string(), "truecolor".to_string()),
        ]
    );
}

#[test]
fn jar_extension() {
    assert!(has_jar_extension(b"a.jar"));
    assert!(has_jar_extension(b"..jar"));
    assert!(!has_jar_extension(b".jar"));
    assert!(!has_jar_extension(b"a.jar.bak"));
    assert!(!has_jar_extension(b"ajar"));
}

#[test]
fn candidates_in_order() {
    let c = jar_candidates();
    assert_eq!(c, vec![b"paper.jar".to_vec(), b"server.jar".to_vec(), b"spigot.jar".to_vec(), b"bukkit.jar".to_vec()]);
}

#[test]
fn jar_choice() {
    let entries = vec![b"notes.txt".to_vec(), b"mod.jar".to_vec(), b"z.jar".to_vec()];
    assert_eq!(choose_jar(&vec![false, true, true, false], &entries), JarChoice::Candidate(1));
    assert_eq!(choose_jar(&vec![false, false, false, false], &entries), JarChoice::Entry(1));
    assert_eq!(choose_jar(&vec![false; 4], &vec![b"a.txt".to_vec()]), JarChoice::NotFound);
}

#[test]
fn spawn_result_holds_pid() {
    let r = PtySpawnResult { child_pid: 12 };
    assert_eq!(r.child_pid, 12);
}
