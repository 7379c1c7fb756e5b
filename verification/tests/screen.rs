use synacor_vm::error::VmError;
use synacor_vm::screen::{Polled, Screen};

#[test]
fn what_one_end_sends_the_other_receives() {
    let (mut a, mut b) = Screen::create();
    a.send("to b".to_string()).unwrap();
    b.send("to a".to_string()).unwrap();
    assert_eq!(b.get_all().unwrap(), "to b");
    assert_eq!(a.get_all().unwrap(), "to a");
}

#[test]
fn characters_come_one_by_one_in_order() {
    let (mut a, mut b) = Screen::create();
    a.send("ab".to_string()).unwrap();
    a.send("c".to_string()).unwrap();
    assert_eq!(b.get_char(), Ok('a'));
    assert_eq!(b.get_char(), Ok('b'));
    assert_eq!(b.get_char(), Ok('c'));
    assert_eq!(b.try_get_char(), Ok(None));
}

#[test]
fn a_string_of_k_characters_serves_k_reads() {
    let (mut a, mut b) = Screen::create();
    a.send("hello".to_string()).unwrap();
    let mut seen = String::new();
    let mut reads = 0;
    while let Ok(Some(c)) = b.try_get_char() {
        seen.push(c);
        reads += 1;
    }
    assert_eq!(reads, 5);
    assert_eq!(seen, "hello");
    assert_eq!(b.is_empty(), Ok(true));
}

#[test]
fn send_char_sends_one_character() {
    let (mut a, mut b) = Screen::create();
    a.send_char('x').unwrap();
    a.send_char('\u{e9}').unwrap();
    assert_eq!(b.get_char(), Ok('x'));
    assert_eq!(b.get_char(), Ok('\u{e9}'));
    assert_eq!(b.is_empty(), Ok(true));
}

#[test]
fn empty_strings_carry_no_character() {
    let (mut a, mut b) = Screen::create();
    a.send(String::new()).unwrap();
    a.send(String::new()).unwrap();
    assert_eq!(b.is_empty(), Ok(true));
    a.send(String::new()).unwrap();
    a.send("z".to_string()).unwrap();
    assert_eq!(b.get_char(), Ok('z'));
}

#[test]
fn is_empty_keeps_what_it_finds() {
    let (mut a, mut b) = Screen::create();
    assert_eq!(b.is_empty(), Ok(true));
    a.send("pq".to_string()).unwrap();
    assert_eq!(b.is_empty(), Ok(false));
    assert_eq!(b.is_empty(), Ok(false));
    assert_eq!(b.get_char(), Ok('p'));
    assert_eq!(b.is_empty(), Ok(false));
    assert_eq!(b.get_char(), Ok('q'));
    assert_eq!(b.is_empty(), Ok(true));
}

#[test]
fn get_all_starts_with_the_pending_characters() {
    let (mut a, mut b) = Screen::create();
    a.send("abc".to_string()).unwrap();
    a.send("def".to_string()).unwrap();
    assert_eq!(b.get_char(), Ok('a'));
    assert_eq!(b.get_all().unwrap(), "bcdef");
    assert_eq!(b.get_all().unwrap(), "");
    assert_eq!(b.is_empty(), Ok(true));
}

#[test]
fn reset_discards_queued_strings_only() {
    let (mut a, mut b) = Screen::create();
    a.send("abc".to_string()).unwrap();
    assert_eq!(b.get_char(), Ok('a'));
    a.send("later".to_string()).unwrap();
    a.send("still later".to_string()).unwrap();
    assert_eq!(b.reset(), Ok(()));
    assert_eq!(b.get_all().unwrap(), "bc");
}

#[test]
fn a_gone_peer_is_reported() {
    let (mut a, b) = Screen::create();
    drop(b);
    assert_eq!(a.send("x".to_string()), Err(VmError::Disconnected));
    assert_eq!(a.send_char('x'), Err(VmError::Disconnected));
    assert_eq!(a.get_char(), Err(VmError::Disconnected));
    assert_eq!(a.try_get_char(), Err(VmError::Disconnected));
    assert_eq!(a.is_empty(), Err(VmError::Disconnected));
    assert_eq!(a.get_all(), Err(VmError::Disconnected));
    assert_eq!(a.reset(), Ok(()));
}

#[test]
fn what_a_gone_peer_left_can_be_read() {
    let (mut a, mut b) = Screen::create();
    a.send("bye".to_string()).unwrap();
    drop(a);
    assert_eq!(b.get_char(), Ok('b'));
    assert_eq!(b.try_get_char(), Ok(Some('y')));
    assert_eq!(b.is_empty(), Ok(false));
    assert_eq!(b.get_char(), Ok('e'));
    assert_eq!(b.get_char(), Err(VmError::Disconnected));
}

#[test]
fn a_string_that_a_look_brought_becomes_pending() {
    let (mut a, _b) = Screen::create();
    assert_eq!(a.take_in(Polled::Text("ab".to_string())), Ok(true));
    assert_eq!(a.take_in(Polled::Text(String::new())), Ok(true));
    assert_eq!(a.take_in(Polled::Text("c".to_string())), Ok(true));
    assert_eq!(a.take_in(Polled::Empty), Ok(false));
    assert_eq!(a.get_char(), Ok('a'));
    assert_eq!(a.get_char(), Ok('b'));
    assert_eq!(a.get_char(), Ok('c'));
    assert_eq!(a.is_empty(), Ok(true));
}

#[test]
fn a_gone_peer_is_an_error_and_brings_nothing() {
    let (mut a, _b) = Screen::create();
    assert_eq!(a.take_in(Polled::Text("x".to_string())), Ok(true));
    assert_eq!(a.take_in(Polled::Disconnected), Err(VmError::Disconnected));
    assert_eq!(a.pass_over(Polled::Disconnected), Err(VmError::Disconnected));
    assert_eq!(a.get_char(), Ok('x'));
    assert_eq!(a.is_empty(), Ok(true));
}

#[test]
fn a_string_passed_over_is_dropped() {
    let (mut a, _b) = Screen::create();
    assert_eq!(a.take_in(Polled::Text("k".to_string())), Ok(true));
    assert_eq!(a.pass_over(Polled::Text("dropped".to_string())), Ok(true));
    assert_eq!(a.pass_over(Polled::Empty), Ok(false));
    assert_eq!(a.get_all().unwrap(), "k");
}

#[test]
fn get_all_drops_what_it_gathered_when_the_peer_is_gone() {
    let (mut a, mut b) = Screen::create();
    a.send("pq".to_string()).unwrap();
    assert_eq!(b.get_char(), Ok('p'));
    a.send("rs".to_string()).unwrap();
    drop(a);
    assert_eq!(b.get_all(), Err(VmError::Disconnected));
    assert_eq!(b.get_char(), Ok('q'));
    assert_eq!(b.get_char(), Err(VmError::Disconnected));
}
