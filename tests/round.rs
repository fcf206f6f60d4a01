#![allow(non_snake_case)]

use bf_joust::{play, Arena, Bot, Instruction, RoundParams, RoundResult};

/// Constructs a Bot with an empty program.
fn make_empty_bot() -> Bot {
    Bot::new(vec![])
}

/// Constructs a Bot that waits three turns and then terminates its program.
/// Its program, in BrainFuck: ...
fn make_bot_idle_three_turns() -> Bot {
    Bot::new(vec![
        Instruction::SkipExecution,
        Instruction::SkipExecution,
        Instruction::SkipExecution,
    ])
}

/// Constructs a suicidal Bot that moves one step away from the other bot, off the tape.
/// Its program, in BrainFuck: <
fn make_suicidal_bot() -> Bot {
    Bot::new(vec![Instruction::MoveBack])
}

fn make_round_params(max_steps: u32) -> RoundParams {
    RoundParams { tape_length: 10, invert_polarity: false, max_steps: max_steps }
}

#[test]
fn iterator_maxStepsIsZero_returnsRoundResultRightAway() {
    let round_params = RoundParams { tape_length: 10, invert_polarity: false, max_steps: 0 };
    let bot_a = make_bot_idle_three_turns();
    let bot_b = make_bot_idle_three_turns();
    let mut arena = Arena::new(&bot_a, &bot_b, &round_params);
    assert!(arena.step().round_is_finished());
}

#[test]
fn iterator_maxStepsIsOne_returnsRoundResultOnSecondCall() {
    let round_params = RoundParams { tape_length: 10, invert_polarity: false, max_steps: 1 };
    let bot_a = make_bot_idle_three_turns();
    let bot_b = make_bot_idle_three_turns();
    let mut arena = Arena::new(&bot_a, &bot_b, &round_params);
    assert!(!arena.step().round_is_finished());
    assert!(arena.step().round_is_finished());
}

#[test]
fn iter_maxStepsIsZero_returnsDrawAtFirstStep() {
    let round_params = make_round_params(0);
    let bot_a = make_bot_idle_three_turns();
    let bot_b = make_bot_idle_three_turns();
    let mut arena = Arena::new(&bot_a, &bot_b, &round_params);
    assert_eq!(arena.step(), RoundResult::draw());
}

#[test]
fn iter_maxStepsIsOne_returnsDrawAtSecondStep() {
    let round_params = make_round_params(1);
    let bot_a = make_bot_idle_three_turns();
    let bot_b = make_bot_idle_three_turns();
    let mut arena = Arena::new(&bot_a, &bot_b, &round_params);
    assert_eq!(arena.step(), RoundResult::round_ongoing());
    assert_eq!(arena.step(), RoundResult::draw());
}

#[test]
fn iter_maxStepsIsZeroButStartFlagZero_returnsDrawAtFirstStep() {
    let round_params = make_round_params(0);
    let bot_a = make_bot_idle_three_turns();
    let bot_b = make_bot_idle_three_turns();
    let mut arena = Arena::new(&bot_a, &bot_b, &round_params);
    arena.set_cell(0, 0);
    assert_eq!(arena.step(), RoundResult::draw());
}

#[test]
fn iter_maxStepsIsOneButStartFlagZero_returnsEndBotWinsAtFirstStep() {
    let round_params = make_round_params(1);
    let bot_a = make_bot_idle_three_turns();
    let bot_b = make_bot_idle_three_turns();
    let mut arena = Arena::new(&bot_a, &bot_b, &round_params);
    arena.set_cell(0, 0);
    assert_eq!(arena.step(), RoundResult::end_bot_wins());
}

#[test]
fn iter_bothEmptyBots_returnsDrawAfterFirstStep() {
    let round_params = make_round_params(100_000);
    let bot_a = make_empty_bot();
    let bot_b = make_empty_bot();
    let mut arena = Arena::new(&bot_a, &bot_b, &round_params);
    assert_eq!(arena.step(), RoundResult::draw());
}

#[test]
fn iter_bothFlagsStartAtZero_returnsDrawAfterFirstStep() {
    let round_params = make_round_params(100_000);
    let bot_a = make_bot_idle_three_turns();
    let bot_b = make_bot_idle_three_turns();
    let mut arena = Arena::new(&bot_a, &bot_b, &round_params);
    for index in 0..round_params.tape_length as usize {
        arena.set_cell(index, 0);
    }
    assert_eq!(arena.step(), RoundResult::draw());
}

#[test]
fn iter_bothProgramsEmptyButOneFlagAtZero_otherBotWins() {
    let round_params = make_round_params(100_000);
    let bot_a = make_empty_bot();
    let bot_b = make_empty_bot();
    let mut arena = Arena::new(&bot_a, &bot_b, &round_params);
    arena.set_cell(0, 0);
    assert_eq!(arena.step(), RoundResult::end_bot_wins(), "Expected end_bot_wins!");
}

#[test]
fn iter_startBotSuicidal_losesRightAway() {
    let round_params = make_round_params(100_000);
    let bot_a = make_suicidal_bot();
    let bot_b = make_empty_bot();
    let mut arena = Arena::new(&bot_a, &bot_b, &round_params);
    assert_eq!(arena.step(), RoundResult::end_bot_wins(), "Expected end_bot_wins!");
}

#[test]
fn iter_endBotSuicidal_losesRightAway() {
    let round_params = make_round_params(100_000);
    let bot_a = make_empty_bot();
    let bot_b = make_suicidal_bot();
    let mut arena = Arena::new(&bot_a, &bot_b, &round_params);
    assert_eq!(arena.step(), RoundResult::start_bot_wins(), "Expected start_bot_wins!");
}

#[test]
fn iter_bothBotsSuicidal_drawRightAway() {
    let round_params = make_round_params(100_000);
    let bot_a = make_suicidal_bot();
    let bot_b = make_suicidal_bot();
    let mut arena = Arena::new(&bot_a, &bot_b, &round_params);
    assert_eq!(arena.step(), RoundResult::draw(), "Expected draw!");
}

#[test]
fn iter_bothBotsSuicidalAndOneFlagZero_drawRightAway() {
    let round_params = make_round_params(100_000);
    let bot_a = make_suicidal_bot();
    let bot_b = make_suicidal_bot();
    let mut arena = Arena::new(&bot_a, &bot_b, &round_params);
    arena.set_cell(0, 0);
    assert_eq!(arena.step(), RoundResult::draw(), "Expected draw!");
}

#[test]
fn empty_programs_end_in_a_draw() {
    let bot_a = make_empty_bot();
    let bot_b = make_empty_bot();
    assert_eq!(play(&bot_a, &bot_b, &make_round_params(100_000)), RoundResult::draw());
}

#[test]
fn zero_step_budget_is_a_draw_without_any_step() {
    let bot_a = make_suicidal_bot();
    let bot_b = make_empty_bot();
    let round_params = make_round_params(0);
    let mut arena = Arena::new(&bot_a, &bot_b, &round_params);
    let tape_before = arena.get_tape().clone();
    assert_eq!(arena.step(), RoundResult::draw());
    assert_eq!(arena.get_tape(), &tape_before);
    assert_eq!(play(&bot_a, &bot_b, &round_params), RoundResult::draw());
}

#[test]
fn single_move_back_loses_against_empty_program() {
    let mover = make_suicidal_bot();
    let empty = make_empty_bot();
    let round_params = make_round_params(100_000);
    assert_eq!(play(&mover, &empty, &round_params), RoundResult::end_bot_wins());
    assert_eq!(play(&empty, &mover, &round_params), RoundResult::start_bot_wins());
}

#[test]
fn both_move_back_from_opposite_edges_is_a_draw() {
    let mover = make_suicidal_bot();
    assert_eq!(play(&mover, &mover, &make_round_params(100_000)), RoundResult::draw());
}

#[test]
fn round_is_deterministic() {
    let bot_a = Bot::new(vec![
        Instruction::MoveForward,
        Instruction::StartWhileNotZero { target_pointer: 4 },
        Instruction::Decrement,
        Instruction::MoveForward,
        Instruction::EndWhileNotZero { target_pointer: 1 },
    ]);
    let bot_b = make_bot_idle_three_turns();
    let round_params = RoundParams { tape_length: 12, invert_polarity: true, max_steps: 5_000 };
    let first = play(&bot_a, &bot_b, &round_params);
    let second = play(&bot_a, &bot_b, &round_params);
    assert_eq!(first, second);
}

#[test]
fn flag_zeroed_before_the_round_loses_after_exactly_one_step() {
    let bot_a = make_bot_idle_three_turns();
    let bot_b = make_bot_idle_three_turns();
    let round_params = make_round_params(100_000);
    let mut arena = Arena::new(&bot_a, &bot_b, &round_params);
    arena.set_cell(9, 0);
    assert_eq!(arena.step(), RoundResult::start_bot_wins());
}

#[test]
fn flag_zero_for_a_single_observation_is_not_a_loss() {
    // The first bot walks onto the enemy flag and raises it to zero over
    // 128 increments; the flag must then stay zero for a full step.
    let mut program = vec![Instruction::MoveForward; 9];
    program.extend(vec![Instruction::Increment; 128]);
    program.push(Instruction::SkipExecution);
    let attacker = Bot::new(program);
    let idle = make_empty_bot();
    let round_params = make_round_params(1_000);
    let mut arena = Arena::new(&attacker, &idle, &round_params);
    for _ in 0..9 + 127 {
        assert_eq!(arena.step(), RoundResult::round_ongoing());
    }
    // This step brings the flag from -1 to 0: observed zero once, no loss yet.
    assert_eq!(arena.get_tape()[9], -1);
    assert_eq!(arena.step(), RoundResult::round_ongoing());
    assert_eq!(arena.get_tape()[9], 0);
    // Still zero after the next step: the second side loses.
    assert_eq!(arena.step(), RoundResult::start_bot_wins());
}

#[test]
fn reversed_polarity_swaps_increment_and_decrement() {
    let bot_a = make_empty_bot();
    let bot_b = Bot::new(vec![Instruction::MoveForward, Instruction::Increment]);
    let normal = make_round_params(100);
    let mut arena = Arena::new(&bot_a, &bot_b, &normal);
    arena.step();
    arena.step();
    assert_eq!(arena.get_tape()[8], 1);
    let inverted = RoundParams { tape_length: 10, invert_polarity: true, max_steps: 100 };
    let mut arena = Arena::new(&bot_a, &bot_b, &inverted);
    arena.step();
    arena.step();
    assert_eq!(arena.get_tape()[8], -1);
}

#[test]
fn for_loop_control_takes_no_turn() {
    // (+)*3 then . : three increments, then a pass, in four turns.
    let bot_a = Bot::new(vec![
        Instruction::MoveForward,
        Instruction::StartFor { target_pointer: 3 },
        Instruction::Increment,
        Instruction::EndFor { target_pointer: 1, nr_iterations: 3 },
        Instruction::SkipExecution,
    ]);
    let bot_b = make_empty_bot();
    let round_params = make_round_params(100);
    let mut arena = Arena::new(&bot_a, &bot_b, &round_params);
    for _ in 0..4 {
        arena.step();
    }
    assert_eq!(arena.get_tape()[1], 3);
    arena.step();
    assert_eq!(arena.get_tape()[1], 3);
}

#[test]
fn while_loop_reads_the_tape_from_before_the_step() {
    // Both bots meet on the middle cell. In the same step one increments it
    // and the other tests it: the test must still see zero and skip the body.
    let bot_a = Bot::new(vec![Instruction::MoveForward, Instruction::Increment]);
    let bot_b = Bot::new(vec![
        Instruction::MoveForward,
        Instruction::StartWhileNotZero { target_pointer: 3 },
        Instruction::Decrement,
        Instruction::EndWhileNotZero { target_pointer: 1 },
    ]);
    let round_params = RoundParams { tape_length: 3, invert_polarity: false, max_steps: 100 };
    let mut arena = Arena::new(&bot_a, &bot_b, &round_params);
    assert_eq!(arena.step(), RoundResult::round_ongoing());
    assert_eq!(arena.step(), RoundResult::round_ongoing());
    assert_eq!(arena.get_tape()[1], 1);
    // Both programs have ended and no flag is zero.
    assert_eq!(arena.step(), RoundResult::draw());
    assert_eq!(arena.get_tape()[1], 1);
}
