use llmpal::app::LlmpalError;
use llmpal::guard::{check_paths, examine_reply, AllowedFileSet, Verdict};
use llmpal::inputs::{gather_inputs, DirEntry, InputPath};
use llmpal::materialize::{Action, Materializer};

const BANNER_REPLY: &str = "=== EXPLAIN START ===\nok\n=== EXPLAIN END ===\n=== a.txt === START ===\nhi\n=== a.txt === END ===";

fn allow(paths: &[&str]) -> AllowedFileSet {
    let paths: Vec<String> = paths.iter().map(|p| p.to_string()).collect();
    AllowedFileSet::from_paths(&paths)
}

fn file(path: &str, content: &str) -> (String, String) {
    (path.to_string(), content.to_string())
}

fn drain(mut m: Materializer) -> Vec<Action> {
    let mut actions = Vec::new();
    loop {
        let a = m.next_action();
        let last = matches!(a, Action::Done | Action::Fail(_));
        actions.push(a);
        if last {
            return actions;
        }
    }
}

fn run(explanation: &str, files: Vec<(String, String)>) -> Vec<Action> {
    drain(Materializer::new(explanation.to_string(), files))
}

fn write(path: &str, content: &str) -> Action {
    Action::Write { path: path.to_string(), content: content.to_string() }
}

#[test]
fn allowed_reply_is_approved() {
    let verdict = examine_reply(BANNER_REPLY, &allow(&["a.txt"]));
    assert_eq!(
        verdict,
        Verdict::Approved { explanation: "ok".to_string(), files: vec![file("a.txt", "hi")] }
    );
    assert_eq!(verdict.error(), None);
}

#[test]
fn reply_outside_the_allow_list_is_rejected() {
    let verdict = examine_reply(BANNER_REPLY, &allow(&[]));
    assert_eq!(verdict, Verdict::Rejected { path: "a.txt".to_string() });
    assert_eq!(
        verdict.error(),
        Some(LlmpalError::FileError(
            "attempting to write to disallowed file: a.txt".to_string()
        ))
    );
}

#[test]
fn unclosed_reply_is_malformed() {
    for allowed in [allow(&[]), allow(&["a.txt"])] {
        let verdict = examine_reply("=== a.txt === START ===\nhi", &allowed);
        assert_eq!(
            verdict,
            Verdict::Malformed {
                message: "Error: unexpected end of response while parsing a file section"
                    .to_string()
            }
        );
        assert_eq!(
            verdict.error(),
            Some(LlmpalError::ParseError(
                "Error: unexpected end of response while parsing a file section".to_string()
            ))
        );
    }
}

#[test]
fn one_disallowed_path_rejects_the_whole_reply() {
    let reply = "<file path=\"a\">\n1\n</file>\n<file path=\"evil\">\n2\n</file>\n<file path=\"worse\">\n3\n</file>";
    assert_eq!(
        examine_reply(reply, &allow(&["a", "b"])),
        Verdict::Rejected { path: "evil".to_string() }
    );
    assert_eq!(
        examine_reply(reply, &allow(&["a", "evil"])),
        Verdict::Rejected { path: "worse".to_string() }
    );
    assert_eq!(
        examine_reply(reply, &allow(&["worse", "a", "evil"])),
        Verdict::Approved {
            explanation: String::new(),
            files: vec![file("a", "1"), file("evil", "2"), file("worse", "3")]
        }
    );
}

#[test]
fn paths_are_matched_exactly() {
    let reply = "<file path=\"./a.txt\">\nx\n</file>";
    assert_eq!(
        examine_reply(reply, &allow(&["a.txt"])),
        Verdict::Rejected { path: "./a.txt".to_string() }
    );
    for (allowed, asked) in [
        ("a.txt", "A.txt"),
        ("dir/a.txt", "dir//a.txt"),
        ("dir", "dir/a.txt"),
        ("a.txt", "a.txt "),
        ("a.txt", "a.tx"),
        ("/tmp/x/../a", "/tmp/a"),
    ] {
        assert!(!allow(&[allowed]).contains(&asked.to_string()));
        assert!(allow(&[allowed]).contains(&allowed.to_string()));
    }
}

#[test]
fn reply_without_files_is_approved_under_any_allow_list() {
    assert_eq!(
        examine_reply("<explain>\njust words\n</explain>", &allow(&[])),
        Verdict::Approved { explanation: "just words".to_string(), files: vec![] }
    );
}

#[test]
fn check_paths_finds_the_first_disallowed() {
    let allowed = allow(&["a", "b"]);
    assert_eq!(check_paths(&vec![], &allowed), None);
    assert_eq!(check_paths(&vec![file("a", ""), file("b", ""), file("a", "")], &allowed), None);
    assert_eq!(
        check_paths(&vec![file("a", ""), file("x", ""), file("y", "")], &allowed),
        Some(1)
    );
    assert_eq!(check_paths(&vec![file("x", "")], &allowed), Some(0));
    assert_eq!(check_paths(&vec![file("a", ""), file("b", ""), file("", "")], &allowed), Some(2));
}

#[test]
fn allow_list_holds_each_path_once_in_order() {
    assert_eq!(AllowedFileSet::new().len(), 0);
    let set = allow(&["b", "a", "b", "", "a"]);
    assert_eq!(set.len(), 3);
    assert_eq!(set.as_slice(), ["b".to_string(), "a".to_string(), "".to_string()]);
    assert!(set.contains(&"a".to_string()));
    assert!(set.contains(&"".to_string()));
    assert!(!set.contains(&"c".to_string()));
}

#[test]
fn inputs_are_the_listed_files_and_the_files_in_listed_directories() {
    let inputs = vec![
        InputPath::File("main.rs".to_string()),
        InputPath::Directory(vec![
            DirEntry { path: "src/a.rs".to_string(), is_dir: false },
            DirEntry { path: "src/sub".to_string(), is_dir: true },
            DirEntry { path: "src/b.rs".to_string(), is_dir: false },
        ]),
        InputPath::Directory(vec![]),
        InputPath::File("src/a.rs".to_string()),
        InputPath::File("missing.txt".to_string()),
    ];
    let (allowed, files) = gather_inputs(&inputs, &Some("out.md".to_string()));
    assert_eq!(files, ["main.rs", "src/a.rs", "src/b.rs", "src/a.rs", "missing.txt"]);
    assert_eq!(allowed.as_slice(), ["main.rs", "src/a.rs", "src/b.rs", "missing.txt", "out.md"]);
    assert!(!allowed.contains(&"src/sub".to_string()));

    let (allowed, files) = gather_inputs(&inputs, &Some("main.rs".to_string()));
    assert_eq!(files.len(), 5);
    assert_eq!(allowed.len(), 4);

    let (allowed, files) = gather_inputs(&vec![], &None);
    assert!(files.is_empty());
    assert_eq!(allowed.len(), 0);

    let (allowed, files) = gather_inputs(&vec![], &Some("only.txt".to_string()));
    assert!(files.is_empty());
    assert_eq!(allowed.as_slice(), ["only.txt"]);
}

#[test]
fn a_run_prints_the_explanation_then_writes_the_files_in_order() {
    assert_eq!(
        run("why", vec![file("b", "1"), file("a", "2"), file("b", "3")]),
        vec![
            Action::Print("why".to_string()),
            Action::Write { path: "b".to_string(), content: "1".to_string() },
            Action::Write { path: "a".to_string(), content: "2".to_string() },
            Action::Write { path: "b".to_string(), content: "3".to_string() },
            Action::Done,
        ]
    );
}

#[test]
fn an_empty_explanation_is_not_printed() {
    assert_eq!(
        run("", vec![file("a", "x")]),
        vec![Action::Write { path: "a".to_string(), content: "x".to_string() }, Action::Done]
    );
    assert_eq!(run("", vec![]), vec![Action::Done]);
    assert_eq!(run("e", vec![]), vec![Action::Print("e".to_string()), Action::Done]);
}

#[test]
fn done_stays_done() {
    let mut m = Materializer::new("e".to_string(), vec![file("a", "x")]);
    assert_eq!(m.next_action(), Action::Print("e".to_string()));
    assert_eq!(m.next_action(), Action::Write { path: "a".to_string(), content: "x".to_string() });
    assert_eq!(m.next_action(), Action::Done);
    assert_eq!(m.next_action(), Action::Done);
}

#[test]
fn a_failed_write_ends_the_run_and_leaves_the_rest_unwritten() {
    let mut m = Materializer::new(
        "e".to_string(),
        vec![file("ok.txt", "1"), file("out/a.txt", "2"), file("later.txt", "3")],
    );
    assert_eq!(m.next_action(), Action::Print("e".to_string()));
    assert_eq!(m.next_action(), write("ok.txt", "1"));
    assert_eq!(m.next_action(), write("out/a.txt", "2"));
    let error = LlmpalError::FileError(
        "writing file 'out/a.txt': Permission denied (os error 13)".to_string(),
    );
    assert_eq!(m.write_failed("out/a.txt", "Permission denied (os error 13)"), error);
    assert_eq!(m.next_action(), Action::Fail(error.clone()));
    assert_eq!(m.next_action(), Action::Fail(error));
}

#[test]
fn parsed_and_approved_files_are_what_a_run_writes() {
    let reply = "<explain>\nwhy\n</explain>\n<file path=\"a\">\n1\n2\n</file>\nnoise\n<file path=\"b\">\n\n</file>";
    match examine_reply(reply, &allow(&["a", "b", "c"])) {
        Verdict::Approved { explanation, files } => {
            assert_eq!(
                run(&explanation, files),
                vec![
                    Action::Print("why".to_string()),
                    Action::Write { path: "a".to_string(), content: "1\n2".to_string() },
                    Action::Write { path: "b".to_string(), content: "".to_string() },
                    Action::Done,
                ]
            );
        }
        other => panic!("{:?}", other),
    }
}

#[test]
fn a_verdict_is_a_plan_or_an_error() {
    assert_eq!(
        examine_reply(BANNER_REPLY, &allow(&["a.txt"])).into_result(),
        Ok(("ok".to_string(), vec![file("a.txt", "hi")]))
    );
    assert_eq!(
        examine_reply(BANNER_REPLY, &allow(&["b.txt"])).into_result(),
        Err(LlmpalError::FileError(
            "attempting to write to disallowed file: a.txt".to_string()
        ))
    );
    assert_eq!(
        examine_reply("<file path=\"a.txt\">", &allow(&["a.txt"])).into_result(),
        Err(LlmpalError::ParseError(
            "Error: unexpected end of response while parsing a file section".to_string()
        ))
    );
}

#[test]
fn an_allowed_reply_is_printed_and_written() {
    assert_eq!(
        drain(Materializer::for_reply(BANNER_REPLY, &allow(&["a.txt"]))),
        vec![Action::Print("ok".to_string()), write("a.txt", "hi"), Action::Done]
    );
}

#[test]
fn a_rejected_reply_is_kept_aside_and_nothing_is_written() {
    assert_eq!(
        drain(Materializer::for_reply(BANNER_REPLY, &allow(&[]))),
        vec![
            Action::Quarantine(BANNER_REPLY.to_string()),
            Action::Fail(LlmpalError::FileError(
                "attempting to write to disallowed file: a.txt".to_string()
            )),
        ]
    );
    let reply = "<explain>\nwhy\n</explain>\n<file path=\"ok\">\n1\n</file>\n<file path=\"/etc/passwd\">\n2\n</file>";
    assert_eq!(
        drain(Materializer::for_reply(reply, &allow(&["ok"]))),
        vec![
            Action::Quarantine(reply.to_string()),
            Action::Fail(LlmpalError::FileError(
                "attempting to write to disallowed file: /etc/passwd".to_string()
            )),
        ]
    );
}

#[test]
fn an_unclosed_reply_fails_and_nothing_is_written() {
    for allowed in [allow(&[]), allow(&["a.txt"])] {
        assert_eq!(
            drain(Materializer::for_reply("=== a.txt === START ===\nhi", &allowed)),
            vec![Action::Fail(LlmpalError::ParseError(
                "Error: unexpected end of response while parsing a file section".to_string()
            ))]
        );
    }
}

#[test]
fn a_failure_stays_a_failure() {
    let mut m = Materializer::for_reply(BANNER_REPLY, &allow(&[]));
    assert_eq!(m.next_action(), Action::Quarantine(BANNER_REPLY.to_string()));
    let fail = Action::Fail(LlmpalError::FileError(
        "attempting to write to disallowed file: a.txt".to_string(),
    ));
    assert_eq!(m.next_action(), fail);
    assert_eq!(m.next_action(), fail);
}

#[test]
fn every_write_goes_to_an_allowed_path() {
    let replies = [
        "<file path=\"a\">\n1\n</file>",
        "<file path=\"a\">\n1\n</file>\n<file path=\"b\">\n2\n</file>",
        "<file path=\"b\">\n1\n</file>\n<file path=\"a\">\n2\n</file>",
        "<file path=\"c\">\n1\n</file>",
        "<file path=\"a\">\n1\n</file>\n<file path=\"c\">",
        "=== a === START ===\nx\n=== a === END ===\n=== ../a === START ===\ny\n</file>",
        "no files at all",
    ];
    let lists: [&[&str]; 4] = [&[], &["a"], &["a", "b"], &["c", "../a"]];
    for reply in replies {
        for list in lists {
            let allowed = allow(list);
            for action in drain(Materializer::for_reply(reply, &allowed)) {
                if let Action::Write { path, .. } = action {
                    assert!(allowed.contains(&path), "{:?} under {:?}", reply, list);
                }
            }
        }
    }
}
