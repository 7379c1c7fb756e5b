use synacor_vm::error::VmError;
use synacor_vm::machine::Bypass;
use synacor_vm::op_parser::{Addr, Op, Reg, Val};
use synacor_vm::screen::Screen;
use synacor_vm::vm::{EnvSnapshot, ExecutionEnv};

fn image(words: &[u16]) -> Vec<u8> {
    let mut bytes = Vec::new();
    for w in words {
        bytes.push((w & 0xFF) as u8);
        bytes.push((w >> 8) as u8);
    }
    bytes
}

fn engine(words: &[u16]) -> (ExecutionEnv, Screen) {
    let (engine_end, host_end) = Screen::create();
    (ExecutionEnv::new(&image(words), engine_end, None).unwrap(), host_end)
}

#[test]
fn halt_on_first_word() {
    let (mut env, mut host) = engine(&[0]);
    assert_eq!(env.run(), Ok(()));
    assert_eq!(host.get_all().unwrap(), "");
    assert_eq!(env.operation_count(), 1);
    assert_eq!(env.curr_point(), 0);
}

#[test]
fn hello_output() {
    let (mut env, mut host) = engine(&[19, 72, 19, 105, 0]);
    assert_eq!(env.run(), Ok(()));
    assert_eq!(host.get_all().unwrap(), "Hi");
    assert_eq!(env.operation_count(), 3);
}

#[test]
fn arithmetic_scenario() {
    let (mut env, mut host) = engine(&[9, 32768, 32758, 15, 19, 32768, 0]);
    assert_eq!(env.run(), Ok(()));
    assert_eq!(host.get_all().unwrap(), "\u{5}");
    assert_eq!(env.registers()[0], 5);
}

#[test]
fn stack_roundtrip() {
    let (mut env, _host) = engine(&[2, 7, 2, 11, 3, 32769, 3, 32768, 0]);
    assert_eq!(env.run(), Ok(()));
    assert_eq!(env.registers()[0], 7);
    assert_eq!(env.registers()[1], 11);
    assert_eq!(env.stack_depth(), 0);
}

#[test]
fn echo_loop() {
    let (mut env, mut host) = engine(&[20, 32768, 19, 32768, 6, 0]);
    host.send("abc".to_string()).unwrap();
    assert_eq!(env.run_until_empty(), Ok(false));
    assert_eq!(host.get_all().unwrap(), "abc");
    assert_eq!(env.curr_point(), 0);
    assert_eq!(env.operation_count(), 9);
    assert_eq!(env.fetch(), Ok(Op::In(Addr::Reg(Reg(0)))));
    assert_eq!(env.run_until_empty(), Ok(false));
    assert_eq!(env.operation_count(), 9);
    host.send("d".to_string()).unwrap();
    assert_eq!(env.run_until_empty(), Ok(false));
    assert_eq!(host.get_all().unwrap(), "d");
}

#[test]
fn call_and_ret() {
    let (mut env, _host) = engine(&[17, 10, 0, 0, 0, 0, 0, 0, 0, 0, 18]);
    let depth = env.stack_depth();
    let call = env.step(None).unwrap();
    assert!(!call.halted);
    assert_eq!(env.curr_point(), 10);
    assert_eq!(env.stack_depth(), depth + 1);
    let ret = env.step(None).unwrap();
    assert!(!ret.halted);
    assert_eq!(env.curr_point(), 2);
    assert_eq!(env.stack_depth(), depth);
    assert_eq!(env.run(), Ok(()));
    assert_eq!(env.operation_count(), 3);
}

#[test]
fn call_through_a_register() {
    let (mut env, _host) = engine(&[1, 32771, 8, 17, 32771, 0, 0, 0, 18]);
    env.step(None).unwrap();
    env.step(None).unwrap();
    assert_eq!(env.curr_point(), 8);
    assert_eq!(env.snapshot().stack, vec![5]);
    env.step(None).unwrap();
    assert_eq!(env.curr_point(), 5);
}

#[test]
fn ret_on_empty_stack_halts() {
    let (mut env, _host) = engine(&[18]);
    assert_eq!(env.run(), Ok(()));
    assert_eq!(env.operation_count(), 1);
}

#[test]
fn jumps() {
    let (mut env, mut host) = engine(&[7, 1, 5, 19, 65, 8, 0, 10, 19, 66, 6, 14, 19, 67, 0]);
    assert_eq!(env.run(), Ok(()));
    assert_eq!(host.get_all().unwrap(), "");
    let (mut env, mut host) = engine(&[7, 0, 5, 19, 65, 8, 1, 10, 19, 66, 0]);
    assert_eq!(env.run(), Ok(()));
    assert_eq!(host.get_all().unwrap(), "AB");
}

#[test]
fn comparisons() {
    let (mut env, _host) = engine(&[
        4, 32768, 7, 7, 4, 32769, 7, 8, 5, 32770, 8, 7, 5, 32771, 7, 7, 0,
    ]);
    assert_eq!(env.run(), Ok(()));
    let regs = env.registers();
    assert_eq!(regs[0], 1);
    assert_eq!(regs[1], 0);
    assert_eq!(regs[2], 1);
    assert_eq!(regs[3], 0);
}

#[test]
fn arithmetic_and_logic_instructions() {
    let (mut env, _host) = engine(&[
        10, 32768, 77, 500, 11, 32769, 17, 5, 12, 32770, 12, 10, 13, 32771, 12, 10, 14, 32772,
        0, 0,
    ]);
    assert_eq!(env.run(), Ok(()));
    let regs = env.registers();
    assert_eq!(regs[0], 5732);
    assert_eq!(regs[1], 2);
    assert_eq!(regs[2], 8);
    assert_eq!(regs[3], 14);
    assert_eq!(regs[4], 32767);
}

#[test]
fn memory_instructions_and_self_modification() {
    let (mut env, mut host) = engine(&[16, 7, 66, 15, 32768, 7, 19, 65, 0]);
    assert_eq!(env.run(), Ok(()));
    assert_eq!(host.get_all().unwrap(), "B");
    assert_eq!(env.registers()[0], 66);
    assert_eq!(env.snapshot().memory[7], 66);
}

#[test]
fn write_to_a_memory_target() {
    let (mut env, _host) = engine(&[9, 100, 3, 4, 0]);
    assert_eq!(env.run(), Ok(()));
    assert_eq!(env.snapshot().memory[100], 7);
}

#[test]
fn the_sixteenth_bit_of_a_register_is_ignored() {
    let (engine_end, _host) = Screen::create();
    let mut snapshot = ExecutionEnv::new(&image(&[9, 32769, 32768, 1, 0]), engine_end, None)
        .unwrap()
        .snapshot();
    snapshot.registers[0] = 32768 + 41;
    let (engine_end, _host) = Screen::create();
    let mut env = snapshot.to_env(engine_end).unwrap();
    assert_eq!(env.resolve(Val::Reg(Reg(0))), 41);
    assert_eq!(env.run(), Ok(()));
    assert_eq!(env.registers()[1], 42);
    assert_eq!(env.registers()[0], 32768 + 41);
}

#[test]
fn modulus_by_zero_is_fatal() {
    let (mut env, _host) = engine(&[11, 32768, 5, 0, 0]);
    assert_eq!(env.run(), Err(VmError::DivisionByZero));
    assert_eq!(env.operation_count(), 1);
    assert_eq!(env.curr_point(), 0);
}

#[test]
fn pop_from_empty_stack_is_fatal() {
    let (mut env, _host) = engine(&[3, 32768, 0]);
    assert_eq!(env.run(), Err(VmError::StackUnderflow));
}

#[test]
fn unknown_opcode_is_fatal() {
    let (mut env, _host) = engine(&[21, 99]);
    assert_eq!(env.run(), Err(VmError::UnknownOpcode(99)));
    assert_eq!(env.operation_count(), 2);
    assert_eq!(env.curr_point(), 1);
}

#[test]
fn malformed_operand_is_fatal() {
    let (mut env, _host) = engine(&[19, 40000]);
    assert_eq!(env.run(), Err(VmError::BadOperand(40000)));
}

#[test]
fn return_address_out_of_range_is_fatal() {
    let (engine_end, _host) = Screen::create();
    let mut snapshot = ExecutionEnv::new(&image(&[18]), engine_end, None).unwrap().snapshot();
    snapshot.stack.push(40000);
    let (engine_end, _host) = Screen::create();
    let mut env = snapshot.to_env(engine_end).unwrap();
    assert_eq!(env.run(), Err(VmError::AddressOutOfRange));
    assert_eq!(env.stack_depth(), 1);
}

#[test]
fn running_off_the_end_of_memory_is_fatal() {
    let mut words = vec![0u16; 32768];
    words[32766] = 21;
    words[32767] = 21;
    let (engine_end, _host) = Screen::create();
    let mut snapshot = ExecutionEnv::new(&image(&words), engine_end, None).unwrap().snapshot();
    snapshot.curr_point = 32766;
    let (engine_end, _host) = Screen::create();
    let mut env = snapshot.to_env(engine_end).unwrap();
    assert_eq!(env.run(), Err(VmError::AddressOutOfRange));
    assert_eq!(env.curr_point(), 32767);
    assert_eq!(env.operation_count(), 2);
}

#[test]
fn last_cell_can_hold_halt() {
    let mut words = vec![21u16; 32768];
    words[32767] = 0;
    let (engine_end, _host) = Screen::create();
    let mut snapshot = ExecutionEnv::new(&image(&words), engine_end, None).unwrap().snapshot();
    snapshot.curr_point = 32766;
    let (engine_end, _host) = Screen::create();
    let mut env = snapshot.to_env(engine_end).unwrap();
    assert_eq!(env.fetch(), Ok(Op::Noop));
    assert_eq!(env.run(), Ok(()));
    assert_eq!(env.curr_point(), 32767);
}

#[test]
fn instruction_cut_off_by_the_end_of_memory() {
    let mut words = vec![0u16; 32768];
    words[32767] = 19;
    let (engine_end, _host) = Screen::create();
    let mut snapshot = ExecutionEnv::new(&image(&words), engine_end, None).unwrap().snapshot();
    snapshot.curr_point = 32767;
    let (engine_end, _host) = Screen::create();
    let mut env = snapshot.to_env(engine_end).unwrap();
    assert_eq!(env.fetch(), Err(VmError::TruncatedInstruction));
    assert_eq!(env.run(), Err(VmError::TruncatedInstruction));
}

#[test]
fn counter_at_its_limit_stops_the_engine() {
    let (engine_end, _host) = Screen::create();
    let mut snapshot = ExecutionEnv::new(&image(&[21, 0]), engine_end, None).unwrap().snapshot();
    snapshot.operation_count = u64::MAX - 1;
    let (engine_end, _host) = Screen::create();
    let mut env = snapshot.to_env(engine_end).unwrap();
    assert_eq!(env.run(), Err(VmError::CounterExhausted));
    assert_eq!(env.operation_count(), u64::MAX);
    assert_eq!(env.curr_point(), 1);
}

#[test]
fn input_without_a_peer_is_fatal() {
    let (mut env, host) = engine(&[20, 32768, 0]);
    drop(host);
    assert_eq!(env.run(), Err(VmError::Disconnected));
}

#[test]
fn output_without_a_peer_is_fatal() {
    let (mut env, host) = engine(&[19, 65, 0]);
    drop(host);
    assert_eq!(env.run(), Err(VmError::Disconnected));
}

#[test]
fn in_stores_the_code_of_one_character() {
    let (mut env, mut host) = engine(&[20, 32768, 20, 100, 0]);
    host.send("a\n".to_string()).unwrap();
    assert_eq!(env.run(), Ok(()));
    assert_eq!(env.registers()[0], 97);
    assert_eq!(env.snapshot().memory[100], 10);
}

#[test]
fn out_writes_the_low_eight_bits() {
    let (mut env, mut host) = engine(&[19, 256 + 72, 19, 233, 0]);
    assert_eq!(env.run(), Ok(()));
    assert_eq!(host.get_all().unwrap(), "H\u{e9}");
}

#[test]
fn pure_steps_leave_the_conduit_alone() {
    let (mut env, mut host) = engine(&[19, 72, 20, 32768, 0]);
    let wrote = env.step(None).unwrap();
    assert_eq!(wrote.output, Some('H'));
    assert!(!wrote.halted);
    assert_eq!(host.get_all().unwrap(), "");
    let read = env.apply(Op::In(Addr::Reg(Reg(0))), Some('z')).unwrap();
    assert_eq!(read.output, None);
    assert_eq!(env.registers()[0], 122);
    assert_eq!(env.step(None).map(|e| e.halted), Ok(true));
    assert_eq!(env.operation_count(), 3);
}

#[test]
fn pure_in_without_a_character_fails() {
    let (mut env, _host) = engine(&[20, 32768, 0]);
    assert_eq!(env.step(None).map(|e| e.halted), Err(VmError::Disconnected));
    assert_eq!(env.operation_count(), 1);
    assert_eq!(env.curr_point(), 0);
}

#[test]
fn image_is_loaded_from_address_zero() {
    let (env, _host) = engine(&[19, 72, 65535]);
    let snapshot = env.snapshot();
    assert_eq!(snapshot.memory.len(), 32768);
    assert_eq!(&snapshot.memory[..4], &[19, 72, 65535, 0]);
    assert!(snapshot.memory[4..].iter().all(|w| *w == 0));
    assert_eq!(snapshot.registers, [0; 8]);
    assert_eq!(snapshot.curr_point, 0);
    assert_eq!(snapshot.operation_count, 0);
    assert_eq!(snapshot.register_8_preset, None);
    assert_eq!(snapshot.bypass, Bypass::Disabled);
    assert!(snapshot.stack.is_empty());
}

#[test]
fn bad_images_are_rejected() {
    let (engine_end, _host) = Screen::create();
    assert_eq!(
        ExecutionEnv::new(&[0, 0, 0], engine_end, None).err(),
        Some(VmError::OddImageLength)
    );
    let (engine_end, _host) = Screen::create();
    assert_eq!(
        ExecutionEnv::new(&vec![0u8; 65538], engine_end, None).err(),
        Some(VmError::ImageTooLong)
    );
    let (engine_end, _host) = Screen::create();
    assert!(ExecutionEnv::new(&vec![0u8; 65536], engine_end, None).is_ok());
}

#[test]
fn snapshot_round_trip() {
    let (mut env, mut host) = engine(&[2, 7, 19, 72, 20, 32768, 19, 32768, 0]);
    env.step(None).unwrap();
    let snapshot = env.snapshot();
    let (engine_end, mut other_host) = Screen::create();
    let mut copy = snapshot.to_env(engine_end).unwrap();
    let again = copy.snapshot();
    assert_eq!(again.stack, snapshot.stack);
    assert_eq!(again.memory, snapshot.memory);
    assert_eq!(again.registers, snapshot.registers);
    assert_eq!(again.curr_point, snapshot.curr_point);
    assert_eq!(again.operation_count, snapshot.operation_count);
    assert_eq!(again.register_8_preset, snapshot.register_8_preset);
    assert_eq!(again.bypass, snapshot.bypass);
    host.send("x".to_string()).unwrap();
    other_host.send("x".to_string()).unwrap();
    assert_eq!(env.run(), Ok(()));
    assert_eq!(copy.run(), Ok(()));
    assert_eq!(host.get_all().unwrap(), "Hx");
    assert_eq!(other_host.get_all().unwrap(), "Hx");
}

#[test]
fn snapshots_are_checked() {
    let (env, _host) = engine(&[0]);
    let mut short = env.snapshot();
    short.memory.pop();
    let (engine_end, _host) = Screen::create();
    assert_eq!(short.to_env(engine_end).err(), Some(VmError::MemoryLength));
    let mut long = env.snapshot();
    long.memory.push(0);
    let (engine_end, _host) = Screen::create();
    assert_eq!(long.to_env(engine_end).err(), Some(VmError::MemoryLength));
    let mut astray = env.snapshot();
    astray.curr_point = 32768;
    let (engine_end, _host) = Screen::create();
    assert_eq!(astray.to_env(engine_end).err(), Some(VmError::AddressOutOfRange));
    let (engine_end, _host) = Screen::create();
    assert_eq!(
        EnvSnapshot::default().to_env(engine_end).err(),
        Some(VmError::MemoryLength)
    );
}

#[test]
fn same_snapshot_and_input_give_the_same_run() {
    let program = [20, 32768, 9, 32769, 32769, 32768, 19, 32769, 7, 32768, 0, 0];
    let (first, _host) = engine(&program);
    let snapshot = first.snapshot();
    let (end_a, mut host_a) = Screen::create();
    let (end_b, mut host_b) = Screen::create();
    let mut a = snapshot.to_env(end_a).unwrap();
    let mut b = snapshot.clone().to_env(end_b).unwrap();
    host_a.send("hello".to_string()).unwrap();
    host_b.send("hello".to_string()).unwrap();
    assert_eq!(a.run_until_empty(), b.run_until_empty());
    assert_eq!(host_a.get_all().unwrap(), host_b.get_all().unwrap());
    assert_eq!(a.registers(), b.registers());
    assert_eq!(a.operation_count(), b.operation_count());
    assert_eq!(a.operation_count(), 20);
}

#[test]
fn preset_goes_into_register_seven_at_the_threshold() {
    let (engine_end, _host) = Screen::create();
    let mut env = ExecutionEnv::new(&image(&[1, 32775, 9, 6, 3]), engine_end, Some(1234)).unwrap();
    assert_eq!(env.run_until_condition(|e| e.operation_count() == 701_399), Ok(()));
    assert_eq!(env.registers()[7], 9);
    env.step(None).unwrap();
    assert_eq!(env.operation_count(), 701_400);
    assert_eq!(env.registers()[7], 1234);
    assert_eq!(env.run_until_condition(|e| e.operation_count() == 800_000), Ok(()));
    assert_eq!(env.registers()[7], 1234);
}

#[test]
fn without_a_preset_register_seven_is_the_programs() {
    let (mut env, _host) = engine(&[1, 32775, 9, 6, 3]);
    assert_eq!(env.run_until_condition(|e| e.operation_count() == 701_401), Ok(()));
    assert_eq!(env.registers()[7], 9);
}

#[test]
fn a_later_write_replaces_the_preset() {
    let (engine_end, _host) = Screen::create();
    let mut env = ExecutionEnv::new(&image(&[1, 32775, 9, 6, 0]), engine_end, Some(1234)).unwrap();
    assert_eq!(env.run_until_condition(|e| e.operation_count() == 701_401), Ok(()));
    assert_eq!(env.registers()[7], 9);
}

#[test]
fn run_until_condition_makes_a_step_first() {
    let (mut env, _host) = engine(&[21, 21, 0]);
    assert_eq!(env.run_until_condition(|_| true), Ok(()));
    assert_eq!(env.operation_count(), 1);
    assert_eq!(env.run_until_condition(|e| e.curr_point() == 100), Ok(()));
    assert_eq!(env.operation_count(), 3);
}

fn check_program() -> Vec<u16> {
    let mut words = vec![0u16; 6100];
    words[0] = 17;
    words[1] = 6027;
    words[2] = 0;
    words[6027] = 19;
    words[6028] = 88;
    words[6029] = 18;
    words
}

#[test]
fn bypass_is_off_unless_asked_for() {
    let (mut env, mut host) = engine(&check_program());
    assert_eq!(env.run(), Ok(()));
    assert_eq!(host.get_all().unwrap(), "X");
    assert_eq!(env.registers()[0], 0);
    assert_eq!(env.operation_count(), 4);
}

#[test]
fn bypass_returns_with_the_checks_result() {
    let (mut env, mut host) = engine(&check_program());
    env.set_bypass(Bypass::ReturnWithResult);
    assert_eq!(env.step(None).map(|e| e.halted), Ok(false));
    assert_eq!(env.curr_point(), 6027);
    assert_eq!(env.fetch(), Ok(Op::Ret));
    assert_eq!(env.run(), Ok(()));
    assert_eq!(host.get_all().unwrap(), "");
    assert_eq!(env.registers()[0], 6);
    assert_eq!(env.registers()[1], 4);
    assert_eq!(env.curr_point(), 2);
    assert_eq!(env.operation_count(), 3);
}

#[test]
fn bypass_can_return_only() {
    let (mut env, mut host) = engine(&check_program());
    env.set_bypass(Bypass::ReturnOnly);
    assert_eq!(env.run(), Ok(()));
    assert_eq!(host.get_all().unwrap(), "");
    assert_eq!(env.registers()[0], 0);
    assert_eq!(env.registers()[1], 0);
    assert_eq!(env.operation_count(), 3);
}

#[test]
fn check_teleporter_stops_before_the_call() {
    let mut words = check_program();
    words[0] = 21;
    words[1] = 17;
    words[2] = 6027;
    words[3] = 0;
    let (mut env, _host) = engine(&words);
    assert_eq!(env.check_teleporter(), Ok(false));
    assert_eq!(env.curr_point(), 1);
    assert_eq!(env.operation_count(), 1);
    assert_eq!(env.fetch(), Ok(Op::Call(Val::Num(6027))));
}

#[test]
fn check_teleporter_sees_through_a_register() {
    let (mut env, _host) = engine(&[1, 32768, 6027, 17, 32768, 0]);
    assert_eq!(env.check_teleporter(), Ok(false));
    assert_eq!(env.curr_point(), 3);
    assert_eq!(env.registers()[0], 6027);
}

#[test]
fn check_teleporter_ends_with_the_program() {
    let (mut env, _host) = engine(&[17, 3, 0, 18]);
    assert_eq!(env.check_teleporter(), Ok(false));
    assert_eq!(env.curr_point(), 2);
    assert_eq!(env.operation_count(), 3);
}

#[test]
fn run_op_uses_the_conduit() {
    let (mut env, mut host) = engine(&[0]);
    assert_eq!(env.run_op(Op::Out(Val::Num(81))), Ok(false));
    assert_eq!(host.get_all().unwrap(), "Q");
    host.send("k".to_string()).unwrap();
    assert_eq!(env.run_op(Op::In(Addr::Mem(50))), Ok(false));
    assert_eq!(env.snapshot().memory[50], 107);
    assert_eq!(env.curr_point(), 4);
    assert_eq!(env.run_op(Op::Halt), Ok(true));
    assert_eq!(env.operation_count(), 3);
}

#[test]
fn call_without_a_return_address_is_fatal() {
    let mut words = vec![0u16; 32768];
    words[32766] = 17;
    words[32767] = 0;
    let (engine_end, _host) = Screen::create();
    let mut snapshot = ExecutionEnv::new(&image(&words), engine_end, None).unwrap().snapshot();
    snapshot.curr_point = 32766;
    let (engine_end, _host) = Screen::create();
    let mut env = snapshot.to_env(engine_end).unwrap();
    assert_eq!(env.run(), Err(VmError::AddressOutOfRange));
    assert_eq!(env.stack_depth(), 0);
    assert_eq!(env.curr_point(), 32766);
    assert_eq!(env.operation_count(), 1);
}

#[test]
fn a_failed_instruction_changes_nothing_but_the_counter() {
    let (mut env, _host) = engine(&[3, 32768, 0]);
    let before = env.snapshot();
    assert_eq!(env.step(None).map(|e| e.halted), Err(VmError::StackUnderflow));
    let after = env.snapshot();
    assert_eq!(after.operation_count, before.operation_count + 1);
    assert_eq!(after.memory, before.memory);
    assert_eq!(after.registers, before.registers);
    assert_eq!(after.stack, before.stack);
    assert_eq!(after.curr_point, before.curr_point);
}

#[test]
fn in_takes_one_character_and_leaves_the_rest() {
    let (mut env, mut host) = engine(&[0]);
    host.send("abc".to_string()).unwrap();
    assert_eq!(env.run_op(Op::In(Addr::Reg(Reg(0)))), Ok(false));
    assert_eq!(env.registers()[0], 'a' as u16);
    assert_eq!(env.curr_point(), 2);
    assert_eq!(env.run_op(Op::Noop), Ok(false));
    assert_eq!(env.run_op(Op::In(Addr::Reg(Reg(1)))), Ok(false));
    assert_eq!(env.registers()[1], 'b' as u16);
    assert_eq!(env.run_op(Op::In(Addr::Mem(9))), Ok(false));
    assert_eq!(env.snapshot().memory[9], 'c' as u16);
    drop(host);
    assert_eq!(env.run_op(Op::In(Addr::Reg(Reg(2)))), Err(VmError::Disconnected));
    assert_eq!(env.registers()[2], 0);
}

#[test]
fn memory_round_trip_until_halt() {
    let (mut env, _host) = engine(&[16, 10, 42, 15, 32768, 10, 0]);
    assert_eq!(env.run_until_empty(), Ok(true));
    let snapshot = env.snapshot();
    assert_eq!(snapshot.memory[10], 42);
    assert_eq!(snapshot.memory[42], 0);
    assert_eq!(env.registers()[0], 42);
    assert_eq!(env.operation_count(), 3);
    assert_eq!(env.curr_point(), 6);
}

#[test]
fn a_reader_starves_after_its_input() {
    let (mut env, mut host) = engine(&[20, 32768, 6, 0]);
    host.send("hello".to_string()).unwrap();
    assert_eq!(env.run_until_empty(), Ok(false));
    assert_eq!(env.operation_count(), 10);
    assert_eq!(env.curr_point(), 0);
    assert_eq!(env.registers()[0], 'o' as u16);
    let (mut idle, _host) = engine(&[20, 32768, 6, 0]);
    assert_eq!(idle.run_until_empty(), Ok(false));
    assert_eq!(idle.operation_count(), 0);
}

#[test]
fn run_until_condition_stops_at_the_first_match() {
    let (mut env, _host) = engine(&[21, 21, 21, 21, 21, 0]);
    assert_eq!(env.run_until_condition(|e| e.curr_point() >= 2), Ok(()));
    assert_eq!(env.curr_point(), 2);
    assert_eq!(env.operation_count(), 2);
}

#[test]
fn a_halting_program_with_a_preset() {
    let (engine_end, _host) = Screen::create();
    let mut env = ExecutionEnv::new(&image(&[0]), engine_end, Some(25734)).unwrap();
    assert_eq!(env.run(), Ok(()));
    assert_eq!(env.registers()[7], 0);
    assert_eq!(env.snapshot().register_8_preset, Some(25734));
}

#[test]
fn the_engine_reads_on_while_input_is_queued() {
    let (mut env, mut host) = engine(&[20, 32768, 19, 32768, 6, 0]);
    assert_eq!(env.run_until_empty(), Ok(false));
    assert_eq!(env.operation_count(), 0);
    host.send("x".to_string()).unwrap();
    host.send(String::new()).unwrap();
    host.send("yz".to_string()).unwrap();
    assert_eq!(env.run_until_empty(), Ok(false));
    assert_eq!(env.operation_count(), 9);
    assert_eq!(host.get_all().unwrap(), "xyz");
}
