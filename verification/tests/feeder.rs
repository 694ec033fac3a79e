use sush::feeder::Feeder;

#[test]
fn new_feeder_holds_the_text_and_no_error() {
    let feeder = Feeder::new("echo hi");
    assert_eq!(feeder.len(), 7);
    assert_eq!(feeder.remaining, "echo hi");
    assert!(!feeder.error_occuring);
    assert_eq!(feeder.error_reason, "");
}

#[test]
fn consume_removes_and_returns_the_front() {
    let mut feeder = Feeder::new("echo hi");
    assert_eq!(feeder.consume(5), "echo ");
    assert_eq!(feeder.remaining, "hi");
    assert_eq!(feeder.len(), 2);
    assert_eq!(feeder.consume(0), "");
    assert_eq!(feeder.consume(2), "hi");
    assert_eq!(feeder.len(), 0);
    assert_eq!(feeder.consume(0), "");
}

#[test]
fn consume_counts_characters() {
    let mut feeder = Feeder::new("añb");
    assert_eq!(feeder.len(), 3);
    assert_eq!(feeder.nth(1), 'ñ');
    assert_eq!(feeder.consume(2), "añ");
    assert_eq!(feeder.remaining, "b");
}

#[test]
fn consume_keeps_the_error() {
    let mut feeder = Feeder::new("abc");
    feeder.set_error("bad".to_string());
    feeder.consume(1);
    assert!(feeder.error_occuring);
    assert_eq!(feeder.error_reason, "bad");
}

#[test]
fn nth_and_chars_after_do_not_consume() {
    let feeder = Feeder::new("abc");
    assert_eq!(feeder.nth(0), 'a');
    assert_eq!(feeder.nth(2), 'c');
    assert_eq!(feeder.chars_after(1).collect::<String>(), "bc");
    assert_eq!(feeder.chars_after(0).collect::<String>(), "abc");
    assert_eq!(feeder.chars_after(3).count(), 0);
    assert_eq!(feeder.chars_after(10).count(), 0);
    assert_eq!(feeder.len(), 3);
}

#[test]
fn starts_with_tests_the_remaining_text() {
    let mut feeder = Feeder::new("$(ls)");
    assert!(feeder.starts_with("$("));
    assert!(feeder.starts_with(""));
    assert!(feeder.starts_with("$(ls)"));
    assert!(!feeder.starts_with("$(ls) "));
    assert!(!feeder.starts_with("("));
    feeder.consume(1);
    assert!(feeder.starts_with("("));
    assert!(!feeder.starts_with("$"));
}

#[test]
fn set_error_overwrites() {
    let mut feeder = Feeder::new("x");
    feeder.set_error("first".to_string());
    feeder.set_error("second".to_string());
    assert!(feeder.error_occuring);
    assert_eq!(feeder.error_reason, "second");
    assert_eq!(feeder.remaining, "x");
}

#[test]
fn recover_drops_the_rest_once() {
    let mut feeder = Feeder::new("if then");
    assert_eq!(feeder.recover(), None);
    assert_eq!(feeder.remaining, "if then");
    feeder.set_error("unexpected then".to_string());
    assert_eq!(feeder.recover(), Some("unexpected then".to_string()));
    assert_eq!(feeder.len(), 0);
    assert!(!feeder.error_occuring);
    assert_eq!(feeder.recover(), None);
}
