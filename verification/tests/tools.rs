use std::collections::HashMap;
use synacor_vm::command::{Command, CommandError, CustomCommand, SAVE_USAGE};
use synacor_vm::text::is_white_space;
use synacor_vm::error::VmError;
use synacor_vm::reverse_engineer::parse;
use synacor_vm::teleporter::{run, run_cached, run_cached_helper, run_for_present};
use synacor_vm::transcript::{decode, encode, TranscriptError};

fn image(words: &[u16]) -> Vec<u8> {
    let mut bytes = Vec::new();
    for w in words {
        bytes.push((w & 0xFF) as u8);
        bytes.push((w >> 8) as u8);
    }
    bytes
}

fn saved_path(line: &str) -> Option<String> {
    match CustomCommand::parse(line) {
        Ok(Some(CustomCommand::Save(path))) => Some(path),
        _ => None,
    }
}

#[test]
fn save_names_a_path() {
    assert_eq!(saved_path("save game.json\n"), Some("game.json".to_string()));
    assert_eq!(saved_path("save game.json"), Some("game.json".to_string()));
    assert_eq!(saved_path("save  two words \t\r\n"), Some(" two words".to_string()));
    assert_eq!(saved_path("save x\u{a0}\u{3000}"), Some("x".to_string()));
    assert_eq!(saved_path("save \u{e9}t\u{e9}"), Some("\u{e9}t\u{e9}".to_string()));
}

#[test]
fn save_without_a_path_is_a_usage_error() {
    assert!(matches!(CustomCommand::parse("save"), Err(CommandError::SaveUsage)));
    assert!(matches!(CustomCommand::parse("save\n"), Err(CommandError::SaveUsage)));
    assert!(matches!(CustomCommand::parse("save \n"), Err(CommandError::SaveUsage)));
    assert!(matches!(CustomCommand::parse("saved game\n"), Err(CommandError::SaveUsage)));
    assert!(matches!(CustomCommand::parse("save\tx"), Err(CommandError::SaveUsage)));
    assert_eq!(SAVE_USAGE, ">> Usage: save <file_path>");
}

#[test]
fn other_lines_are_for_the_engine() {
    assert!(matches!(CustomCommand::parse("look\n"), Ok(None)));
    assert!(matches!(CustomCommand::parse(""), Ok(None)));
    assert!(matches!(CustomCommand::parse(" save x\n"), Ok(None)));
    assert!(matches!(CustomCommand::parse("sav"), Ok(None)));
    assert!(matches!(CustomCommand::parse("Save x"), Ok(None)));
}

#[test]
fn lines_become_commands() {
    match Command::parse("take orb\n".to_string()) {
        Ok(Command::Game(line)) => assert_eq!(line, "take orb\n"),
        _ => panic!("a line for the engine"),
    }
    match Command::parse("save here\n".to_string()) {
        Ok(Command::Custom(CustomCommand::Save(path))) => assert_eq!(path, "here"),
        _ => panic!("a host command"),
    }
    assert!(matches!(Command::parse("save".to_string()), Err(CommandError::SaveUsage)));
}

#[test]
fn white_space_is_that_of_the_standard_library() {
    let mut n: u32 = 0;
    while n <= 0x10FFFF {
        if let Some(c) = char::from_u32(n) {
            assert_eq!(is_white_space(c), c.is_whitespace());
        }
        n += 1;
    }
}

#[test]
fn trimming_agrees_with_the_standard_library() {
    for line in ["save a b  ", "  save x", "save\u{2003}y\u{2003}", "save \n\n", "save z\u{85}"] {
        if line.starts_with("save") {
            let expected = line.trim().strip_prefix("save ").map(|s| s.to_string());
            assert_eq!(saved_path(line), expected);
        } else {
            assert!(matches!(CustomCommand::parse(line), Ok(None)));
        }
    }
}

#[test]
fn check_on_eight_registers() {
    let mut regs = [0u16, 9, 0, 0, 0, 0, 0, 5];
    run(&mut regs);
    assert_eq!(regs, [10, 9, 0, 0, 0, 0, 0, 5]);
    let mut regs = [1u16, 0, 0, 0, 0, 0, 0, 5];
    run(&mut regs);
    assert_eq!(regs[0], 6);
    let mut regs = [1u16, 3, 1, 2, 3, 4, 5, 5];
    run(&mut regs);
    assert_eq!(regs[0], 9);
    assert_eq!(&regs[2..], &[1, 2, 3, 4, 5, 5]);
    let mut regs = [2u16, 2, 0, 0, 0, 0, 0, 1];
    run(&mut regs);
    assert_eq!(regs[0], 7);
    let mut regs = [0u16, 32767, 0, 0, 0, 0, 0, 0];
    run(&mut regs);
    assert_eq!(regs[0], 0);
}

#[test]
fn check_with_a_cache() {
    let mut cache = HashMap::new();
    let mut regs = [1u16, 3, 5];
    run_cached(&mut regs, &mut cache);
    assert_eq!(regs[0], 9);
    assert_eq!(regs[2], 5);
    assert!(!cache.is_empty());
    let filled = cache.len();
    let mut regs = [1u16, 3, 5];
    run_cached(&mut regs, &mut cache);
    assert_eq!(regs[0], 9);
    assert_eq!(cache.len(), filled);
    let mut regs = [2u16, 2, 1];
    run_cached_helper(&mut regs, &mut cache);
    assert_eq!(regs[0], 7);
}

#[test]
fn cached_and_plain_check_agree() {
    let mut cache = HashMap::new();
    for a in 0..3u16 {
        for b in 0..6u16 {
            let mut plain = [a, b, 0, 0, 0, 0, 0, 3];
            run(&mut plain);
            let mut cached = [a, b, 3];
            run_cached(&mut cached, &mut cache);
            assert_eq!([plain[0], plain[1]], [cached[0], cached[1]]);
        }
    }
}

#[test]
fn check_from_its_start_values() {
    assert_eq!(run_for_present(0), [5446, 5445, 0]);
}

#[test]
fn a_program_is_walked_to_its_end() {
    assert_eq!(parse(&image(&[19, 72, 19, 105, 0])), Ok(String::new()));
    assert_eq!(parse(&[]), Ok(String::new()));
    assert_eq!(parse(&image(&[9, 32768, 1, 2, 21, 0])), Ok(String::new()));
}

#[test]
fn a_walk_stops_at_what_does_not_decode() {
    assert_eq!(parse(&image(&[19, 72, 99, 0])), Err(VmError::UnknownOpcode(99)));
    assert_eq!(parse(&image(&[21, 19, 40000])), Err(VmError::BadOperand(40000)));
    assert_eq!(parse(&image(&[21, 9, 1, 2])), Err(VmError::TruncatedInstruction));
    assert_eq!(parse(&[0, 0, 0]), Err(VmError::OddImageLength));
    assert_eq!(parse(&image(&[19, 99, 0])), Ok(String::new()));
}

#[test]
fn transcripts_are_stored_as_json() {
    let lines = vec!["north\n".to_string(), "take \"orb\"\n".to_string()];
    let text = encode(&lines).unwrap();
    assert_eq!(text, "[\n  \"north\\n\",\n  \"take \\\"orb\\\"\\n\"\n]");
    assert_eq!(decode(text.as_bytes()), Ok(lines));
    assert_eq!(encode(&Vec::new()), Ok("[]".to_string()));
    assert_eq!(decode(b"[]"), Ok(Vec::new()));
    assert_eq!(decode(b" [ \"a\" , \"b\" ] "), Ok(vec!["a".to_string(), "b".to_string()]));
}

#[test]
fn malformed_transcripts_are_rejected() {
    assert_eq!(decode(b""), Err(TranscriptError::Malformed));
    assert_eq!(decode(b"[1, 2]"), Err(TranscriptError::Malformed));
    assert_eq!(decode(b"{\"a\": \"b\"}"), Err(TranscriptError::Malformed));
    assert_eq!(decode(b"[\"a\""), Err(TranscriptError::Malformed));
    assert_eq!(decode(&[b'[', b'"', 0xFF, b'"', b']']), Err(TranscriptError::Malformed));
}

fn cache_key(a: u16, b: u16, c: u16) -> u64 {
    ((a as u64) << 32) | ((b as u64) << 16) | c as u64
}

#[test]
fn the_cache_holds_what_was_computed() {
    let mut registers = [1u16, 2, 3];
    let mut cache = HashMap::new();
    run_cached(&mut registers, &mut cache);
    assert_eq!(registers, [6, 5, 3]);
    assert_eq!(cache.get(&cache_key(1, 2, 3)), Some(&[6, 5, 3]));
    assert_eq!(cache.get(&cache_key(0, 3, 3)), Some(&[4, 3, 3]));
    let before = cache.clone();
    let mut other = [2u16, 1, 3];
    run_cached(&mut other, &mut cache);
    for (key, value) in before.iter() {
        assert_eq!(cache.get(key), Some(value));
    }
    assert_eq!(cache.get(&cache_key(2, 1, 3)), Some(&other));
    let mut plain = [2u16, 1, 0, 0, 0, 0, 0, 3];
    run(&mut plain);
    assert_eq!([plain[0], plain[1]], [other[0], other[1]]);
}
