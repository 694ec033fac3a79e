use sush::elem_script::{top_level_element, Executable, TopLevel};
use sush::elements::{Parse, Parsed};
use sush::feeder::Feeder;

/// What the recognisers of a test are to report, and what they were asked.
struct Plan {
    asked: Vec<&'static str>,
    seen: Vec<String>,
    blank: fn(&str) -> Parsed<Blank>,
    assignment: fn(&str) -> Parsed<Assignment>,
    command: fn(&str) -> Parsed<Command>,
}

#[derive(Debug, PartialEq)]
struct Blank;

#[derive(Debug, PartialEq)]
struct Assignment(usize);

#[derive(Debug, PartialEq)]
struct Command(usize);

impl Parse<Plan> for Blank {
    fn parse(feeder: &Feeder, core: &mut Plan) -> Parsed<Blank> {
        core.asked.push("blank");
        core.seen.push(format!("{}|{}", feeder.remaining, feeder.error_occuring));
        (core.blank)(&feeder.remaining)
    }
}

impl Parse<Plan> for Assignment {
    fn parse(feeder: &Feeder, core: &mut Plan) -> Parsed<Assignment> {
        core.asked.push("assignment");
        core.seen.push(format!("{}|{}", feeder.remaining, feeder.error_occuring));
        (core.assignment)(&feeder.remaining)
    }
}

impl Parse<Plan> for Command {
    fn parse(feeder: &Feeder, core: &mut Plan) -> Parsed<Command> {
        core.asked.push("command");
        core.seen.push(format!("{}|{}", feeder.remaining, feeder.error_occuring));
        (core.command)(&feeder.remaining)
    }
}

fn no_blank(_: &str) -> Parsed<Blank> {
    Parsed::Absent
}

fn no_assignment(_: &str) -> Parsed<Assignment> {
    Parsed::Absent
}

fn no_command(_: &str) -> Parsed<Command> {
    Parsed::Absent
}

fn blank_of_one(_: &str) -> Parsed<Blank> {
    Parsed::Found { node: Blank, len: 1 }
}

fn assignment_of_three(_: &str) -> Parsed<Assignment> {
    Parsed::Found { node: Assignment(3), len: 3 }
}

fn command_of_all(text: &str) -> Parsed<Command> {
    Parsed::Found { node: Command(text.len()), len: text.len() }
}

fn command_too_long(text: &str) -> Parsed<Command> {
    Parsed::Found { node: Command(0), len: text.len() + 1 }
}

fn bad_assignment(_: &str) -> Parsed<Assignment> {
    Parsed::Malformed { reason: "bad assignment".to_string() }
}

fn bad_command(_: &str) -> Parsed<Command> {
    Parsed::Malformed { reason: "unexpected token".to_string() }
}

fn plan(
    blank: fn(&str) -> Parsed<Blank>,
    assignment: fn(&str) -> Parsed<Assignment>,
    command: fn(&str) -> Parsed<Command>,
) -> Plan {
    Plan { asked: Vec::new(), seen: Vec::new(), blank, assignment, command }
}

type Found = (Option<TopLevel<Blank, Assignment, Command>>, Option<String>);

fn dispatch(text: &mut Feeder, core: &mut Plan) -> Found {
    top_level_element(text, core)
}

#[test]
fn empty_input_gives_no_element_and_asks_nobody() {
    let mut text = Feeder::new("");
    let mut core = plan(blank_of_one, assignment_of_three, command_of_all);
    let (element, diagnostic) = dispatch(&mut text, &mut core);
    assert!(element.is_none());
    assert_eq!(diagnostic, None);
    assert!(core.asked.is_empty());
}

#[test]
fn empty_input_keeps_a_pending_error() {
    let mut text = Feeder::new("");
    text.set_error("earlier".to_string());
    let mut core = plan(no_blank, no_assignment, no_command);
    let (element, diagnostic) = dispatch(&mut text, &mut core);
    assert!(element.is_none());
    assert_eq!(diagnostic, None);
    assert!(text.error_occuring);
}

#[test]
fn blank_part_comes_first() {
    let mut text = Feeder::new("\nA=1 ls");
    let mut core = plan(blank_of_one, assignment_of_three, command_of_all);
    let (element, diagnostic) = dispatch(&mut text, &mut core);
    assert!(matches!(element, Some(TopLevel::Blank(Blank))));
    assert_eq!(diagnostic, None);
    assert_eq!(text.remaining, "A=1 ls");
    assert_eq!(core.asked, vec!["blank"]);
}

#[test]
fn assignment_comes_before_command() {
    let mut text = Feeder::new("A=1 ls");
    let mut core = plan(no_blank, assignment_of_three, command_of_all);
    let (element, diagnostic) = dispatch(&mut text, &mut core);
    assert!(matches!(element, Some(TopLevel::SetVariables(Assignment(3)))));
    assert_eq!(diagnostic, None);
    assert_eq!(text.remaining, " ls");
    assert_eq!(core.asked, vec!["blank", "assignment"]);
}

#[test]
fn command_comes_last() {
    let mut text = Feeder::new("ls -l");
    let mut core = plan(no_blank, no_assignment, command_of_all);
    let (element, diagnostic) = dispatch(&mut text, &mut core);
    assert!(matches!(element, Some(TopLevel::Command(Command(5)))));
    assert_eq!(diagnostic, None);
    assert_eq!(text.len(), 0);
    assert_eq!(core.asked, vec!["blank", "assignment", "command"]);
}

#[test]
fn nothing_matches_and_nothing_is_wrong() {
    let mut text = Feeder::new("???");
    let mut core = plan(no_blank, no_assignment, no_command);
    let (element, diagnostic) = dispatch(&mut text, &mut core);
    assert!(element.is_none());
    assert_eq!(diagnostic, None);
    assert_eq!(text.remaining, "???");
    assert!(!text.error_occuring);
}

#[test]
fn a_malformed_statement_is_skipped_in_full_exactly_once() {
    let mut text = Feeder::new("if then\nls\n");
    let mut core = plan(no_blank, no_assignment, bad_command);
    let (element, diagnostic) = dispatch(&mut text, &mut core);
    assert!(element.is_none());
    assert_eq!(diagnostic, Some("unexpected token".to_string()));
    assert_eq!(text.len(), 0);
    assert!(!text.error_occuring);
    assert_eq!(core.asked.len(), 3);

    let (element, diagnostic) = dispatch(&mut text, &mut core);
    assert!(element.is_none());
    assert_eq!(diagnostic, None);
    assert_eq!(text.len(), 0);
    assert!(!text.error_occuring);
    assert_eq!(core.asked.len(), 3);
}

#[test]
fn a_later_alternative_can_still_match_after_an_error() {
    let mut text = Feeder::new("A= ls");
    let mut core = plan(no_blank, bad_assignment, command_of_all);
    let (element, diagnostic) = dispatch(&mut text, &mut core);
    assert!(matches!(element, Some(TopLevel::Command(Command(5)))));
    assert_eq!(diagnostic, None);
    assert!(text.error_occuring);
    assert_eq!(text.error_reason, "bad assignment");
    assert_eq!(core.seen, vec!["A= ls|false", "A= ls|false", "A= ls|true"]);
}

#[test]
fn the_last_error_is_the_one_reported() {
    let mut text = Feeder::new("A= (");
    let mut core = plan(no_blank, bad_assignment, bad_command);
    let (element, diagnostic) = dispatch(&mut text, &mut core);
    assert!(element.is_none());
    assert_eq!(diagnostic, Some("unexpected token".to_string()));
    assert_eq!(text.len(), 0);
}

#[test]
fn an_error_pending_on_entry_is_recovered_from() {
    let mut text = Feeder::new("rest");
    text.set_error("from before".to_string());
    let mut core = plan(no_blank, no_assignment, no_command);
    let (element, diagnostic) = dispatch(&mut text, &mut core);
    assert!(element.is_none());
    assert_eq!(diagnostic, Some("from before".to_string()));
    assert_eq!(text.len(), 0);
    assert!(!text.error_occuring);
}

#[test]
fn a_span_beyond_the_buffer_is_not_taken_up() {
    let mut text = Feeder::new("ls");
    let mut core = plan(no_blank, no_assignment, command_too_long);
    let (element, diagnostic) = dispatch(&mut text, &mut core);
    assert!(element.is_none());
    assert_eq!(diagnostic, None);
    assert_eq!(text.remaining, "ls");
}

#[test]
fn accept_follows_the_report() {
    let mut text = Feeder::new("abcdef");
    assert_eq!(text.accept(Parsed::Found { node: 1u8, len: 2 }), Some((1u8, "ab".to_string())));
    assert_eq!(text.accept(Parsed::Found { node: 2u8, len: 0 }), Some((2u8, "".to_string())));
    assert_eq!(text.accept(Parsed::Found { node: 3u8, len: 5 }), None);
    assert_eq!(text.accept(Parsed::<u8>::Absent), None);
    assert_eq!(text.remaining, "cdef");
    assert!(!text.error_occuring);
    assert_eq!(text.accept(Parsed::<u8>::Malformed { reason: "why".to_string() }), None);
    assert!(text.error_occuring);
    assert_eq!(text.error_reason, "why");
    assert_eq!(text.accept(Parsed::Found { node: 4u8, len: 4 }), Some((4u8, "cdef".to_string())));
    assert!(text.error_occuring);
}

struct Silent;

impl Executable<()> for Silent {}

struct Loud;

impl Executable<()> for Loud {
    fn eval(&mut self, _conf: &mut ()) -> Vec<String> {
        vec!["a".to_string(), "b".to_string()]
    }

    fn exec(&mut self, _conf: &mut ()) -> String {
        "out".to_string()
    }
}

#[test]
fn an_executable_does_nothing_unless_it_says_otherwise() {
    assert!(Silent.eval(&mut ()).is_empty());
    assert_eq!(Silent.exec(&mut ()), "");
    assert_eq!(Loud.eval(&mut ()), vec!["a".to_string(), "b".to_string()]);
    assert_eq!(Loud.exec(&mut ()), "out");
}

#[test]
fn a_top_level_element_runs_as_its_alternative() {
    let mut blank: TopLevel<Silent, Loud, Loud> = TopLevel::Blank(Silent);
    assert!(blank.eval(&mut ()).is_empty());
    assert_eq!(blank.exec(&mut ()), "");
    assert!(matches!(blank, TopLevel::Blank(Silent)));

    let mut assignment: TopLevel<Silent, Loud, Silent> = TopLevel::SetVariables(Loud);
    assert_eq!(assignment.eval(&mut ()), vec!["a".to_string(), "b".to_string()]);
    assert_eq!(assignment.exec(&mut ()), "out");
    assert!(matches!(assignment, TopLevel::SetVariables(Loud)));

    let mut command: TopLevel<Silent, Silent, Counting> = TopLevel::Command(Counting(0));
    let mut runs = 0;
    assert_eq!(command.exec(&mut runs), "run 1");
    assert_eq!(command.exec(&mut runs), "run 2");
    assert_eq!(command.eval(&mut runs), vec!["2".to_string()]);
    assert_eq!(runs, 2);
    assert!(matches!(command, TopLevel::Command(Counting(2))));
}

/// Counts its runs, in itself and in the shell state.
struct Counting(usize);

impl Executable<usize> for Counting {
    fn eval(&mut self, _conf: &mut usize) -> Vec<String> {
        vec![self.0.to_string()]
    }

    fn exec(&mut self, conf: &mut usize) -> String {
        self.0 += 1;
        *conf += 1;
        format!("run {}", self.0)
    }
}

impl Executable<usize> for Silent {}
