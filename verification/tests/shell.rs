use workbench::shell::commands::{CommandContext, Reply, Request};
use workbench::shell::session::{Shell, Step};

fn shell() -> Shell {
    Shell::new("/tmp".to_string())
}

/// Runs a pipeline that needs no outside work.
fn run(line: &str) -> Result<String, String> {
    let mut e = shell().execute(line);
    match e.advance() {
        Step::Finished(r) => r,
        Step::Perform(_) => panic!("unexpected request"),
    }
}

/// Runs a pipeline, answering requests from `replies` in order.
fn run_with(line: &str, replies: Vec<Reply>) -> (Vec<String>, Result<String, String>) {
    let mut e = shell().execute(line);
    let mut seen = Vec::new();
    let mut replies = replies.into_iter();
    loop {
        match e.advance() {
            Step::Finished(r) => return (seen, r),
            Step::Perform(q) => {
                seen.push(describe(&q));
                let reply = replies.next().expect("a reply");
                assert!(e.accepts(&reply));
                e.resume(reply);
            }
        }
    }
}

fn describe(q: &Request) -> String {
    match q {
        Request::ReadFiles(v) => format!("read {}", v.join(",")),
        Request::ReadFile(f) => format!("read {}", f),
        Request::ListDir(d) => format!("list {}", d),
        Request::Walk(d) => format!("walk {}", d),
        Request::CreateFiles(v) => format!("create {}", v.join(",")),
        Request::ChangeDir(d) => format!("cd {:?}", d),
        Request::CurrentDir => "pwd".to_string(),
        Request::Exit => "exit".to_string(),
    }
}

fn ctx(input: Option<&str>, args: &[&str]) -> CommandContext {
    CommandContext {
        input: input.map(|s| s.to_string()),
        args: args.iter().map(|s| s.to_string()).collect(),
    }
}

#[test]
fn parse_pipeline_splits_and_trims() {
    assert_eq!(shell().parse_pipeline(" echo a | grep a |"), vec!["echo a", "grep a", ""]);
    assert_eq!(shell().parse_pipeline(""), vec![""]);
}

#[test]
fn echo_joins_arguments() {
    assert_eq!(run("echo hello   world"), Ok("hello world".to_string()));
    assert_eq!(Shell::echo(&ctx(None, &["a", "b"])), Ok("a b".to_string()));
}

#[test]
fn pipes_feed_output_forward() {
    assert_eq!(run("echo a b | grep a"), Ok("a b".to_string()));
    assert_eq!(run("echo a b | grep z"), Ok("".to_string()));
    assert_eq!(run("echo x | cat"), Ok("x".to_string()));
    assert_eq!(run("echo one | echo two"), Ok("two".to_string()));
}

#[test]
fn empty_stages_are_skipped() {
    assert_eq!(run("echo a ||  "), Ok("a".to_string()));
    assert_eq!(run(""), Ok("".to_string()));
    assert_eq!(run("   "), Ok("".to_string()));
}

#[test]
fn unknown_command_fails() {
    assert_eq!(run("frobnicate x"), Err("Unknown command: frobnicate".to_string()));
    assert_eq!(run("echo a | nope"), Err("Unknown command: nope".to_string()));
}

#[test]
fn command_errors_are_wrapped() {
    assert_eq!(
        run("cat"),
        Err("Error executing 'cat': cat: missing file operand".to_string())
    );
    assert_eq!(run("grep"), Err("Error executing 'grep': grep: missing pattern".to_string()));
    assert_eq!(
        run("grep x"),
        Err("Error executing 'grep': grep: no input file or pipe input".to_string())
    );
    assert_eq!(run("find"), Err("Error executing 'find': find: missing path operand".to_string()));
    assert_eq!(run("touch"), Err("Error executing 'touch': touch: missing file operand".to_string()));
    assert_eq!(
        run("head"),
        Err("Error executing 'head': head: no input file or pipe input".to_string())
    );
    assert_eq!(
        run("echo a | head -n x"),
        Err("Error executing 'head': head: invalid number of lines".to_string())
    );
    assert_eq!(
        run("echo a | tail -n"),
        Err("Error executing 'tail': tail: option requires an argument -- 'n'".to_string())
    );
}

#[test]
fn help_lists_commands() {
    assert_eq!(
        run("help"),
        Ok("Available commands: echo, cat, ls, find, grep, head, tail, touch, cd, pwd, exit, help\nUse | for piping commands together.".to_string())
    );
}

#[test]
fn cat_reads_files_in_order() {
    let (seen, r) = run_with(
        "cat f1 f2",
        vec![Reply::Contents(vec![Ok("one".to_string()), Ok("two\n".to_string())])],
    );
    assert_eq!(seen, vec!["read f1,f2"]);
    assert_eq!(r, Ok("one\ntwo\n".to_string()));
    let (_, r) = run_with(
        "cat f1 f2 f3",
        vec![Reply::Contents(vec![Ok("".to_string()), Ok("b".to_string()), Ok("c".to_string())])],
    );
    assert_eq!(r, Ok("b\nc".to_string()));
}

#[test]
fn cat_reports_the_failing_file() {
    let (_, r) = run_with(
        "cat f1 f2",
        vec![Reply::Contents(vec![Ok("one".to_string()), Err("No such file".to_string())])],
    );
    assert_eq!(r, Err("Error executing 'cat': cat: f2: No such file".to_string()));
}

#[test]
fn head_and_tail_of_a_file() {
    let text = "1\n2\n3\n4\n";
    let (seen, r) = run_with("head -n 2 f", vec![Reply::Text(Ok(text.to_string()))]);
    assert_eq!(seen, vec!["read f"]);
    assert_eq!(r, Ok("1\n2".to_string()));
    let (_, r) = run_with("tail -n 2 f", vec![Reply::Text(Ok(text.to_string()))]);
    assert_eq!(r, Ok("3\n4".to_string()));
    let (_, r) = run_with("tail -n 9 f", vec![Reply::Text(Ok(text.to_string()))]);
    assert_eq!(r, Ok("1\n2\n3\n4".to_string()));
    let (_, r) = run_with("head f", vec![Reply::Text(Err("gone".to_string()))]);
    assert_eq!(r, Err("Error executing 'head': head: f: gone".to_string()));
}

#[test]
fn piped_head_ignores_file_argument() {
    let (seen, r) = run_with(
        "cat f | head -n 1 other",
        vec![Reply::Contents(vec![Ok("a\nb".to_string())])],
    );
    assert_eq!(seen, vec!["read f"]);
    assert_eq!(r, Ok("a".to_string()));
}

#[test]
fn grep_a_file() {
    let (seen, r) = run_with("grep x notes", vec![Reply::Text(Ok("ax\nb\r\nx".to_string()))]);
    assert_eq!(seen, vec!["read notes"]);
    assert_eq!(r, Ok("ax\nx".to_string()));
    let (_, r) = run_with("grep x notes", vec![Reply::Text(Err("denied".to_string()))]);
    assert_eq!(r, Err("Error executing 'grep': grep: notes: denied".to_string()));
}

#[test]
fn ls_sorts_names() {
    let (seen, r) = run_with(
        "ls",
        vec![Reply::Names(Ok(vec!["b".to_string(), "a".to_string(), "C".to_string()]))],
    );
    assert_eq!(seen, vec!["list ."]);
    assert_eq!(r, Ok("C\na\nb".to_string()));
    let (_, r) = run_with("ls dir", vec![Reply::Names(Err("missing".to_string()))]);
    assert_eq!(r, Err("Error executing 'ls': ls: dir: missing".to_string()));
}

#[test]
fn find_filters_by_name() {
    let files = vec![
        ("d/a.txt".to_string(), "a.txt".to_string()),
        ("d/e/b.rs".to_string(), "b.rs".to_string()),
    ];
    let (seen, r) = run_with("find d .txt", vec![Reply::Files(Ok(files.clone()))]);
    assert_eq!(seen, vec!["walk d"]);
    assert_eq!(r, Ok("d/a.txt".to_string()));
    let (_, r) = run_with("find d", vec![Reply::Files(Ok(files))]);
    assert_eq!(r, Ok("d/a.txt\nd/e/b.rs".to_string()));
    let (_, r) = run_with(
        "find d",
        vec![Reply::Files(Err(("d/e".to_string(), "denied".to_string())))],
    );
    assert_eq!(r, Err("Error executing 'find': find: d/e: denied".to_string()));
}

#[test]
fn touch_cd_pwd() {
    let (seen, r) = run_with("touch a b", vec![Reply::Done(Ok(()))]);
    assert_eq!(seen, vec!["create a,b"]);
    assert_eq!(r, Ok("".to_string()));
    let (_, r) = run_with("touch a", vec![Reply::Done(Err(("a".to_string(), "denied".to_string())))]);
    assert_eq!(r, Err("Error executing 'touch': touch: a: denied".to_string()));
    let (seen, r) = run_with("cd", vec![Reply::Done(Ok(()))]);
    assert_eq!(seen, vec!["cd None"]);
    assert_eq!(r, Ok("".to_string()));
    let (_, r) = run_with("cd x", vec![Reply::Done(Err(("x".to_string(), "nope".to_string())))]);
    assert_eq!(r, Err("Error executing 'cd': cd: x: nope".to_string()));
    let (seen, r) = run_with("pwd", vec![Reply::Text(Ok("/home".to_string()))]);
    assert_eq!(seen, vec!["pwd"]);
    assert_eq!(r, Ok("/home".to_string()));
    let (_, r) = run_with("pwd", vec![Reply::Text(Err("gone".to_string()))]);
    assert_eq!(r, Err("Error executing 'pwd': pwd: gone".to_string()));
}

#[test]
fn exit_asks_to_leave() {
    let mut e = shell().execute("exit");
    assert!(matches!(e.advance(), Step::Perform(Request::Exit)));
    assert!(!e.accepts(&Reply::Text(Ok(String::new()))));
}

#[test]
fn the_twelve_command_names() {
    let names = [
        "echo", "cat", "ls", "find", "grep", "head", "tail", "touch", "cd", "pwd", "exit", "help",
    ];
    for name in names {
        let chars: Vec<char> = name.chars().collect();
        assert!(Shell::lookup(&chars).is_some(), "{} should be known", name);
    }
    for name in ["Echo", "dir", "cats", "", "he"] {
        let chars: Vec<char> = name.chars().collect();
        assert!(Shell::lookup(&chars).is_none(), "{} should be unknown", name);
    }
    assert_eq!(run("echo x"), Ok("x".to_string()));
    assert_eq!(run("dir"), Err("Unknown command: dir".to_string()));
}
