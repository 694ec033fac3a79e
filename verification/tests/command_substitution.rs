use std::io::{Error, ErrorKind};
use sush::elements::subword::command_substitution::{
    CommandSubstitution, Reply, Request, Stage, POLL_PAUSE_MILLIS, SETTLE_PAUSE_MILLIS,
    SIGINT_STATUS,
};
use sush::elements::{Parse, Parsed};
use sush::feeder::Feeder;

/// A parenthesised command for the tests: everything up to the first `)`.
#[derive(Debug, Clone, PartialEq)]
struct Paren(String);

impl Parse<()> for Paren {
    fn parse(feeder: &Feeder, _core: &mut ()) -> Parsed<Paren> {
        let text = feeder.remaining.as_str();
        if !text.starts_with('(') {
            return Parsed::Absent;
        }
        match text.find(')') {
            Some(end) => {
                let len = text[..=end].chars().count();
                Parsed::Found { node: Paren(text[1..end].to_string()), len }
            }
            None => Parsed::Malformed { reason: "missing )".to_string() },
        }
    }
}

fn parsed(text: &str) -> CommandSubstitution<Paren> {
    CommandSubstitution::parse(&mut Feeder::new(text), &mut ()).unwrap()
}

/// What the nested command does in a test.
struct Script {
    lines: Vec<Result<String, Error>>,
    interrupt_at_line: Option<usize>,
    status: i32,
}

/// Runs an evaluation against the script. Returns the outcome and what the
/// runtime was asked to do.
fn evaluate(sub: &mut CommandSubstitution<Paren>, script: Script) -> (bool, Vec<String>) {
    let mut log = Vec::new();
    let mut lines = script.lines.into_iter();
    let mut read = 0;
    let (mut stage, mut request) = sub.substitution();
    loop {
        let reply = match request {
            Request::Spawn { pgid } => {
                log.push(format!("spawn in {}", pgid));
                Reply::Spawned { pid: 4242 }
            }
            Request::ReadLine { poll } => {
                let line = lines.next();
                let interrupted = script.interrupt_at_line.map_or(false, |at| read >= at);
                if line.is_some() {
                    if let Some(millis) = poll {
                        log.push(format!("poll at line {} after {} ms", read, millis));
                    }
                    read += 1;
                }
                Reply::Line { line, interrupted }
            }
            Request::Wait { pid } => {
                log.push(format!("wait {}", pid));
                Reply::Exited { status: script.status }
            }
            Request::Pause { millis } => {
                log.push(format!("pause {} ms", millis));
                Reply::Paused
            }
            Request::Finish { ok } => {
                assert_eq!(stage, Stage::Done);
                return (ok, log);
            }
        };
        (stage, request) = sub.exec(stage, reply);
    }
}

fn lines(text: &[&str]) -> Vec<Result<String, Error>> {
    text.iter().map(|line| Ok(line.to_string())).collect()
}

#[test]
fn parse_needs_dollar_and_parenthesis() {
    for text in ["", "$", "(ls)", "$ (ls)", "ls", "${x}"] {
        let mut feeder = Feeder::new(text);
        let found: Option<CommandSubstitution<Paren>> =
            CommandSubstitution::parse(&mut feeder, &mut ());
        assert!(found.is_none());
        assert_eq!(feeder.remaining, text);
    }
}

#[test]
fn parse_keeps_the_exact_source_text() {
    let mut feeder = Feeder::new("$(ls -l) rest");
    let sub: CommandSubstitution<Paren> =
        CommandSubstitution::parse(&mut feeder, &mut ()).unwrap();
    assert_eq!(sub.text, "$(ls -l)");
    assert_eq!(sub.get_text(), "$(ls -l)");
    assert_eq!(sub.command, Some(Paren("ls -l".to_string())));
    assert_eq!(feeder.remaining, " rest");
}

#[test]
fn parse_fails_as_a_whole() {
    let mut feeder = Feeder::new("$(ls");
    let found: Option<CommandSubstitution<Paren>> =
        CommandSubstitution::parse(&mut feeder, &mut ());
    assert!(found.is_none());
    assert_eq!(feeder.remaining, "(ls");
    assert!(feeder.error_occuring);
    assert_eq!(feeder.error_reason, "missing )");
}

#[test]
fn new_substitution_is_empty_and_is_not_evaluated() {
    let sub: CommandSubstitution<Paren> = CommandSubstitution::new();
    assert_eq!(sub.text, "");
    assert_eq!(sub.command, None);
    assert_eq!(sub.substitution(), (Stage::Done, Request::Finish { ok: false }));
    assert_eq!(sub.substitution_in(7), (Stage::Done, Request::Finish { ok: false }));
}

#[test]
fn clear_empties_the_text() {
    let mut sub = parsed("$(ls)");
    sub.clear();
    assert_eq!(sub.text, "");
    assert_eq!(sub.command, Some(Paren("ls".to_string())));
}

#[test]
fn substitution_spawns_into_the_process_group_of_the_shell() {
    let sub = parsed("$(ls)");
    let pgid = nix::unistd::getpgrp().as_raw();
    assert_eq!(sub.substitution(), (Stage::Spawning, Request::Spawn { pgid }));
    assert_eq!(sub.substitution_in(31), (Stage::Spawning, Request::Spawn { pgid: 31 }));
}

#[test]
fn one_trailing_newline_is_stripped() {
    let mut sub = parsed("$(echo hello)");
    let script = Script { lines: lines(&["hello"]), interrupt_at_line: None, status: 0 };
    let (ok, log) = evaluate(&mut sub, script);
    assert!(ok);
    assert_eq!(sub.text, "hello");
    let pgid = nix::unistd::getpgrp().as_raw();
    assert_eq!(log, vec![format!("spawn in {}", pgid), "wait 4242".to_string()]);
}

#[test]
fn only_the_final_newline_is_stripped() {
    let mut sub = parsed("$(printf 'hello\\n\\n')");
    let script = Script { lines: lines(&["hello", ""]), interrupt_at_line: None, status: 0 };
    let (ok, _) = evaluate(&mut sub, script);
    assert!(ok);
    assert_eq!(sub.text, "hello\n");
}

#[test]
fn lines_are_joined_by_newlines() {
    let mut sub = parsed("$(seq 3)");
    let script = Script { lines: lines(&["1", "2", "3"]), interrupt_at_line: None, status: 0 };
    let (ok, _) = evaluate(&mut sub, script);
    assert!(ok);
    assert_eq!(sub.text, "1\n2\n3");
}

#[test]
fn empty_output_is_empty_text() {
    let mut sub = parsed("$(true)");
    let script = Script { lines: Vec::new(), interrupt_at_line: None, status: 0 };
    let (ok, _) = evaluate(&mut sub, script);
    assert!(ok);
    assert_eq!(sub.text, "");
}

#[test]
fn a_failing_command_still_substitutes() {
    let mut sub = parsed("$(false)");
    let script = Script { lines: lines(&["x"]), interrupt_at_line: None, status: 1 };
    let (ok, _) = evaluate(&mut sub, script);
    assert!(ok);
    assert_eq!(sub.text, "x");
}

#[test]
fn a_failed_read_fails_the_substitution_and_keeps_earlier_lines() {
    let mut sub = parsed("$(cat)");
    let script = Script {
        lines: vec![
            Ok("one".to_string()),
            Err(Error::new(ErrorKind::InvalidData, "not text")),
            Ok("never".to_string()),
        ],
        interrupt_at_line: None,
        status: 0,
    };
    let (ok, log) = evaluate(&mut sub, script);
    assert!(!ok);
    assert_eq!(sub.text, "one\n");
    assert_eq!(log.last().unwrap(), "wait 4242");
}

#[test]
fn the_interrupt_flag_is_polled_once_in_a_hundred_lines() {
    let mut sub = parsed("$(yes)");
    let many: Vec<String> = (0..250).map(|i| i.to_string()).collect();
    let many: Vec<&str> = many.iter().map(|line| line.as_str()).collect();
    let script = Script { lines: lines(&many), interrupt_at_line: None, status: 0 };
    let (ok, log) = evaluate(&mut sub, script);
    assert!(ok);
    assert_eq!(sub.text, many.join("\n"));
    assert_eq!(log[1], format!("poll at line 99 after {} ms", POLL_PAUSE_MILLIS));
    assert_eq!(log[2], format!("poll at line 199 after {} ms", POLL_PAUSE_MILLIS));
    assert_eq!(log[3], "wait 4242");
    assert_eq!(log.len(), 4);
}

#[test]
fn an_interrupt_seen_while_reading_fails_the_substitution() {
    let mut sub = parsed("$(yes)");
    let many: Vec<String> = (0..250).map(|i| i.to_string()).collect();
    let many: Vec<&str> = many.iter().map(|line| line.as_str()).collect();
    let script = Script { lines: lines(&many), interrupt_at_line: Some(40), status: 0 };
    let (ok, log) = evaluate(&mut sub, script);
    assert!(!ok);
    assert_eq!(sub.text, format!("{}\n", many[..99].join("\n")));
    assert_eq!(log[1], "poll at line 99 after 1 ms");
    assert_eq!(log[2], "wait 4242");
    assert_eq!(log.len(), 3);
}

#[test]
fn an_interrupt_between_polls_is_not_seen() {
    let mut sub = parsed("$(seq 50)");
    let many: Vec<String> = (0..50).map(|i| i.to_string()).collect();
    let many: Vec<&str> = many.iter().map(|line| line.as_str()).collect();
    let script = Script { lines: lines(&many), interrupt_at_line: Some(0), status: 0 };
    let (ok, _) = evaluate(&mut sub, script);
    assert!(ok);
    assert_eq!(sub.text, many.join("\n"));
}

#[test]
fn an_interrupted_command_fails_after_a_pause() {
    let mut sub = parsed("$(sleep 9)");
    let script = Script { lines: lines(&["partial"]), interrupt_at_line: None, status: 130 };
    let (ok, log) = evaluate(&mut sub, script);
    assert!(!ok);
    assert_eq!(log[1], "wait 4242");
    assert_eq!(log[2], format!("pause {} ms", SETTLE_PAUSE_MILLIS));
    assert_eq!(SETTLE_PAUSE_MILLIS, 200);
    assert_eq!(SIGINT_STATUS, 130);
}

#[test]
fn exec_steps_are_exact() {
    let mut sub = parsed("$(ls)");
    sub.text = "left over".to_string();
    let next = sub.exec(Stage::Spawning, Reply::Spawned { pid: 5 });
    assert_eq!(next, (Stage::Reading { pid: 5, count: 0 }, Request::ReadLine { poll: None }));
    assert_eq!(sub.text, "");
    let line = Reply::Line { line: Some(Ok("a".to_string())), interrupted: true };
    let next = sub.exec(Stage::Reading { pid: 5, count: 97 }, line);
    assert_eq!(next, (Stage::Reading { pid: 5, count: 98 }, Request::ReadLine { poll: None }));
    let line = Reply::Line { line: Some(Ok("b".to_string())), interrupted: false };
    let next = sub.exec(Stage::Reading { pid: 5, count: 98 }, line);
    assert_eq!(
        next,
        (Stage::Reading { pid: 5, count: 99 }, Request::ReadLine { poll: Some(1) })
    );
    let line = Reply::Line { line: Some(Ok("c".to_string())), interrupted: false };
    let next = sub.exec(Stage::Reading { pid: 5, count: 99 }, line);
    assert_eq!(next, (Stage::Reading { pid: 5, count: 0 }, Request::ReadLine { poll: None }));
    assert_eq!(sub.text, "a\nb\nc\n");
    let line = Reply::Line { line: Some(Ok("d".to_string())), interrupted: true };
    let next = sub.exec(Stage::Reading { pid: 5, count: 199 }, line);
    assert_eq!(next, (Stage::Waiting { read_ok: false }, Request::Wait { pid: 5 }));
    assert_eq!(sub.text, "a\nb\nc\n");
    let end = Reply::Line { line: None, interrupted: true };
    let next = sub.exec(Stage::Reading { pid: 5, count: 99 }, end);
    assert_eq!(next, (Stage::Waiting { read_ok: true }, Request::Wait { pid: 5 }));
    assert_eq!(sub.text, "a\nb\nc");
    let next = sub.exec(Stage::Waiting { read_ok: true }, Reply::Exited { status: 0 });
    assert_eq!(next, (Stage::Done, Request::Finish { ok: true }));
    let next = sub.exec(Stage::Waiting { read_ok: false }, Reply::Exited { status: 0 });
    assert_eq!(next, (Stage::Done, Request::Finish { ok: false }));
    let next = sub.exec(Stage::Waiting { read_ok: true }, Reply::Exited { status: 130 });
    assert_eq!(next, (Stage::Settling, Request::Pause { millis: 200 }));
    let next = sub.exec(Stage::Settling, Reply::Paused);
    assert_eq!(next, (Stage::Done, Request::Finish { ok: false }));
}

#[test]
fn exec_ends_on_an_unexpected_reply() {
    let mut sub = parsed("$(ls)");
    let failed = (Stage::Done, Request::Finish { ok: false });
    assert_eq!(sub.exec(Stage::Spawning, Reply::Paused), failed);
    assert_eq!(sub.exec(Stage::Reading { pid: 1, count: 0 }, Reply::Exited { status: 0 }), failed);
    assert_eq!(sub.exec(Stage::Waiting { read_ok: true }, Reply::Paused), failed);
    assert_eq!(sub.exec(Stage::Settling, Reply::Spawned { pid: 2 }), failed);
    assert_eq!(sub.exec(Stage::Done, Reply::Exited { status: 0 }), failed);
    assert_eq!(sub.text, "$(ls)");
}

#[test]
fn set_line_appends_the_line_and_a_newline() {
    let mut sub = parsed("$(ls)");
    sub.clear();
    assert!(sub.set_line(Ok("a b".to_string())));
    assert!(sub.set_line(Ok("".to_string())));
    assert_eq!(sub.text, "a b\n\n");
    assert!(!sub.set_line(Err(Error::new(ErrorKind::BrokenPipe, "gone"))));
    assert_eq!(sub.text, "a b\n\n");
}

#[test]
fn interrupted_looks_at_the_flag_every_hundredth_line() {
    for count in 0..300 {
        let due = count % 100 == 99;
        assert_eq!(CommandSubstitution::<Paren>::interrupted(count, true), due);
        assert!(!CommandSubstitution::<Paren>::interrupted(count, false));
    }
    assert!(!CommandSubstitution::<Paren>::interrupted(usize::MAX, false));
}
