use synacor_vm::game_state::{list_items, parse_number, GameState, ScrapeError, UpdateError};
use synacor_vm::vm::StaticExecuter;

fn carrying(items: &[&str], orb_weight: usize, last_symbol: Option<char>) -> GameState {
    GameState {
        inventory: items.iter().map(|s| s.to_string()).collect(),
        orb_weight,
        last_symbol,
    }
}

fn image(words: &[u16]) -> Vec<u8> {
    let mut bytes = Vec::new();
    for w in words {
        bytes.push((w & 0xFF) as u8);
        bytes.push((w >> 8) as u8);
    }
    bytes
}

/// A program that reads four characters, writes `answer`, and starts over.
fn answering(answer: &str) -> Vec<u8> {
    let mut words = vec![20, 32768, 20, 32768, 20, 32768, 20, 32768];
    for c in answer.chars() {
        words.push(19);
        words.push(c as u16);
    }
    words.push(6);
    words.push(0);
    image(&words)
}

#[test]
fn an_inventory_listing_replaces_the_inventory() {
    let mut state = carrying(&["old"], 0, None);
    let output = "Your inventory:\n- tablet\n- empty lantern\n\nWhat do you do?\n";
    assert_eq!(state.update_from_output(output), Ok(()));
    assert_eq!(state.inventory, vec!["tablet", "empty lantern"]);
    assert_eq!(state.orb_weight, 0);
    assert_eq!(state.last_symbol, None);
}

#[test]
fn output_without_a_listing_keeps_the_inventory() {
    let mut state = carrying(&["tablet"], 0, None);
    assert_eq!(state.update_from_output("You see:\n- a can\n"), Ok(()));
    assert_eq!(state.inventory, vec!["tablet"]);
}

#[test]
fn items_are_read_line_by_line() {
    assert_eq!(list_items("- a\n- b c  \r\n-  d\n-e\n - f\n- \n-\n\n- g"), vec!["a", "b c", " d", "g"]);
    assert_eq!(list_items(""), Vec::<String>::new());
    assert_eq!(list_items("- x\u{a0}\n"), vec!["x"]);
    assert_eq!(list_items("- \u{e9}t\u{e9}\n- \n- z"), vec!["\u{e9}t\u{e9}", "z"]);
}

#[test]
fn items_agree_with_the_standard_library() {
    let text = "Your inventory:\n- one\r\n- two  \n\n-three\n- four\u{2003}\n- ";
    let mut expected = Vec::new();
    for line in text.lines() {
        if let Some(x) = line.trim_end().strip_prefix("- ") {
            expected.push(x.to_string());
        }
    }
    assert_eq!(list_items(text), expected);
}

#[test]
fn taking_the_orb_gives_it_its_first_weight() {
    let mut state = GameState::default();
    assert_eq!(state.update_from_output("Your inventory:\n- orb\n"), Ok(()));
    assert_eq!(state.orb_weight, 22);
    assert!(state.has_orb());
}

#[test]
fn losing_the_orb_forgets_weight_and_symbol() {
    let mut state = carrying(&["orb"], 30, Some('+'));
    assert_eq!(state.update_from_output("Your inventory:\n- lantern\n"), Ok(()));
    assert_eq!(state.orb_weight, 0);
    assert_eq!(state.last_symbol, None);
    assert!(!state.has_orb());
}

#[test]
fn a_symbol_is_noted() {
    let mut state = carrying(&["orb"], 22, None);
    let output = "The floor of this room is a large mosaic depicting a '*' symbol.\n";
    assert_eq!(state.update_from_output(output), Ok(()));
    assert_eq!(state.last_symbol, Some('*'));
    assert_eq!(state.orb_weight, 22);
    let mut state = carrying(&["orb"], 22, None);
    assert_eq!(state.update_from_output("a mosaic depicting a '-' symbol."), Ok(()));
    assert_eq!(state.last_symbol, Some('-'));
    let mut state = carrying(&["orb"], 22, None);
    assert_eq!(state.update_from_output("a mosaic depicting a '+' symbol."), Ok(()));
    assert_eq!(state.last_symbol, Some('+'));
    let mut state = carrying(&["orb"], 22, None);
    assert_eq!(state.update_from_output("a mosaic depicting a -+* symbol."), Ok(()));
    assert_eq!(state.last_symbol, Some('*'));
}

#[test]
fn a_number_is_applied_with_the_symbol_that_waits() {
    let mut state = carrying(&["orb"], 22, Some('*'));
    assert_eq!(state.update_from_output("a large mosaic depicting the number '4'.\n"), Ok(()));
    assert_eq!(state.orb_weight, 88);
    assert_eq!(state.last_symbol, None);
    let mut state = carrying(&["orb"], 22, Some('+'));
    assert_eq!(state.update_from_output("mosaic depicting the number '+18'"), Ok(()));
    assert_eq!(state.orb_weight, 40);
    let mut state = carrying(&["orb"], 22, Some('-'));
    assert_eq!(state.update_from_output("mosaic depicting the number '009'"), Ok(()));
    assert_eq!(state.orb_weight, 13);
}

#[test]
fn symbol_and_number_in_one_output() {
    let mut state = carrying(&["orb"], 0, None);
    let output = "mosaic depicting the number '3' next to a mosaic depicting a '+' symbol";
    assert_eq!(state.update_from_output(output), Ok(()));
    assert_eq!(state.orb_weight, 25);
    assert_eq!(state.last_symbol, None);
}

#[test]
fn without_the_orb_mosaics_are_ignored() {
    let mut state = carrying(&["lantern"], 5, Some('*'));
    assert_eq!(state.update_from_output("mosaic depicting the number 'x'"), Ok(()));
    assert_eq!(state.orb_weight, 0);
    assert_eq!(state.last_symbol, None);
}

#[test]
fn scrape_errors() {
    let mut state = carrying(&["orb"], 22, Some('+'));
    assert_eq!(
        state.update_from_output("mosaic depicting a '*' symbol."),
        Err(ScrapeError::SymbolPending)
    );
    assert_eq!(state.last_symbol, Some('+'));
    let mut state = carrying(&["orb"], 22, None);
    assert_eq!(
        state.update_from_output("mosaic depicting a '*'"),
        Err(ScrapeError::SymbolOutOfReach)
    );
    let mut state = carrying(&["orb"], 22, None);
    assert_eq!(
        state.update_from_output("mosaic depicting a 'x' symbol."),
        Err(ScrapeError::SymbolMissing)
    );
    let mut state = carrying(&["orb"], 22, None);
    assert_eq!(
        state.update_from_output("mosaic depicting a 12345\u{e9}* symbol."),
        Err(ScrapeError::SymbolOutOfReach)
    );
    let mut state = carrying(&["orb"], 0, None);
    assert_eq!(
        state.update_from_output("mosaic depicting the number '4'"),
        Err(ScrapeError::NumberWithoutSymbol)
    );
    assert_eq!(state.orb_weight, 22);
    let mut state = carrying(&["orb"], 22, Some('+'));
    assert_eq!(
        state.update_from_output("mosaic depicting the number '4"),
        Err(ScrapeError::NumberUnclosed)
    );
    let mut state = carrying(&["orb"], 22, Some('+'));
    assert_eq!(
        state.update_from_output("mosaic depicting the number 'four'"),
        Err(ScrapeError::NumberMalformed)
    );
    let mut state = carrying(&["orb"], 22, Some('+'));
    assert_eq!(
        state.update_from_output("mosaic depicting the number ''"),
        Err(ScrapeError::NumberMalformed)
    );
    let mut state = carrying(&["orb"], 22, Some('/'));
    assert_eq!(
        state.update_from_output("mosaic depicting the number '4'"),
        Err(ScrapeError::SymbolUnknown)
    );
    let mut state = carrying(&["orb"], 22, Some('-'));
    assert_eq!(
        state.update_from_output("mosaic depicting the number '23'"),
        Err(ScrapeError::WeightOutOfRange)
    );
    assert_eq!(state.orb_weight, 22);
    assert_eq!(state.last_symbol, Some('-'));
    let mut state = carrying(&["orb"], usize::MAX, Some('+'));
    assert_eq!(
        state.update_from_output("mosaic depicting the number '1'"),
        Err(ScrapeError::WeightOutOfRange)
    );
    let mut state = carrying(&["orb"], usize::MAX / 2 + 1, Some('*'));
    assert_eq!(
        state.update_from_output("mosaic depicting the number '2'"),
        Err(ScrapeError::WeightOutOfRange)
    );
}

#[test]
fn numbers_are_those_of_the_standard_library() {
    for text in [
        "0", "7", "+7", "007", "-7", "+", "", " 7", "7 ", "1_000", "18446744073709551615",
        "18446744073709551616", "99999999999999999999999", "0000000000000000000000001", "++1",
        "12a", "\u{e9}",
    ] {
        let bytes = text.as_bytes();
        assert_eq!(parse_number(bytes, 0, bytes.len()), text.parse::<usize>().ok());
    }
    assert_eq!(parse_number(b"ab123cd", 2, 5), Some(123));
    assert_eq!(parse_number(b"ab123cd", 2, 2), None);
}

#[test]
fn the_state_is_brought_up_to_date_through_a_session() {
    let mut session = StaticExecuter::new(&answering("Your inventory:\n- orb\n- tablet\n")).unwrap();
    assert_eq!(session.bootstrap(), Ok(String::new()));
    let mut state = GameState::default();
    assert_eq!(state.update_from_executor(&mut session), Ok(()));
    assert_eq!(state.inventory, vec!["orb", "tablet"]);
    assert_eq!(state.orb_weight, 22);
    assert_eq!(session.get_history(), vec!["inv\n"]);
    assert_eq!(state.update("a mosaic depicting a '*' symbol.", &mut session), Ok(()));
    assert_eq!(state.last_symbol, Some('*'));
    assert_eq!(session.get_history(), vec!["inv\n", "inv\n"]);
    assert_eq!(
        state.update("a mosaic depicting a '*' symbol.", &mut session),
        Err(UpdateError::Output(ScrapeError::SymbolPending))
    );
    assert_eq!(session.get_history().len(), 2);
}

#[test]
fn a_finished_session_is_not_asked() {
    let mut session = StaticExecuter::new(&image(&[0])).unwrap();
    assert_eq!(session.bootstrap(), Ok(String::new()));
    assert!(session.is_finished());
    let mut state = carrying(&["orb"], 22, None);
    assert_eq!(state.update_from_executor(&mut session), Ok(()));
    assert_eq!(state.inventory, vec!["orb"]);
    assert!(session.get_history().is_empty());
}

#[test]
fn an_engine_error_is_passed_on() {
    let mut session = StaticExecuter::new(&image(&[20, 32768, 3, 32768])).unwrap();
    assert_eq!(session.bootstrap(), Ok(String::new()));
    let mut state = GameState::default();
    assert_eq!(
        state.update_from_executor(&mut session),
        Err(UpdateError::Engine(synacor_vm::error::VmError::StackUnderflow))
    );
    assert!(session.is_finished());
}
