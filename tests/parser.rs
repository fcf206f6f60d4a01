#![allow(non_snake_case)]

use bf_joust::{parse_bot, BracketKind, CompileError, Instruction};

#[test]
fn parseBot_emptyBotCode_shouldReturnEmptyVec() {
    let input: String = "".to_string();
    let expected: Vec<Instruction> = vec![];
    assert_eq!(Ok(expected), parse_bot(input));
}

#[test]
fn parseBot_dot_shouldReturnSkipExecution() {
    let input: String = ".".to_string();
    let expected: Vec<Instruction> = vec![Instruction::SkipExecution];
    assert_eq!(Ok(expected), parse_bot(input));
}

#[test]
fn parseBot_arbitraryCommentCharacters_shouldReturnEmptyVec() {
    let input: String =
        "abcdefghijklmnopqrstuvwxyzABCDEFGHIJKLMNOPQRSTUVWXYZ0123456789".to_string();
    let expected: Vec<Instruction> = vec![];
    assert_eq!(Ok(expected), parse_bot(input));
}

#[test]
fn parseBot_comma_shouldReturnEmptyVec() {
    let input: String = ",".to_string();
    let expected: Vec<Instruction> = vec![];
    assert_eq!(Ok(expected), parse_bot(input));
}

#[test]
fn parseBot_smallerThanSign_shouldReturnMoveBack() {
    let input: String = "<".to_string();
    let expected: Vec<Instruction> = vec![Instruction::MoveBack];
    assert_eq!(Ok(expected), parse_bot(input));
}

#[test]
fn parseBot_greaterThanSign_shouldReturnMoveForward() {
    let input: String = ">".to_string();
    let expected: Vec<Instruction> = vec![Instruction::MoveForward];
    assert_eq!(Ok(expected), parse_bot(input));
}

#[test]
fn parseBot_minusSign_shouldReturnDecrement() {
    let input: String = "-".to_string();
    let expected: Vec<Instruction> = vec![Instruction::Decrement];
    assert_eq!(Ok(expected), parse_bot(input));
}

#[test]
fn parseBot_plusSign_shouldReturnIncrement() {
    let input: String = "+".to_string();
    let expected: Vec<Instruction> = vec![Instruction::Increment];
    assert_eq!(Ok(expected), parse_bot(input));
}

#[test]
fn parseBot_unmatchedSquareOpeningBracket_returnsError() {
    let input: String = "[".to_string();
    assert_eq!(
        Err(CompileError::UnmatchedOpeningBracket { kind: BracketKind::Square, position: 0 }),
        parse_bot(input)
    );
}

#[test]
fn parseBot_unmatchedSquareClosingBracket_returnsError() {
    let input: String = "]".to_string();
    assert_eq!(
        Err(CompileError::UnmatchedClosingBracket { kind: BracketKind::Square, position: 0 }),
        parse_bot(input)
    );
}

#[test]
fn parseBot_squareBrackets_returnsWhileNotZeroLoop() {
    let input: String = "[]".to_string();
    let expected: Vec<Instruction> = vec![
        Instruction::StartWhileNotZero { target_pointer: 1 },
        Instruction::EndWhileNotZero { target_pointer: 0 },
    ];
    assert_eq!(Ok(expected), parse_bot(input));
}

#[test]
fn parseBot_nestedSquareBrackets_returnsNestedWhileNotZeroLoop() {
    let input: String = "[[]]".to_string();
    let expected: Vec<Instruction> = vec![
        Instruction::StartWhileNotZero { target_pointer: 3 },
        Instruction::StartWhileNotZero { target_pointer: 2 },
        Instruction::EndWhileNotZero { target_pointer: 1 },
        Instruction::EndWhileNotZero { target_pointer: 0 },
    ];
    assert_eq!(Ok(expected), parse_bot(input));
}

#[test]
fn parseBot_unmatchedNestedSquareOpeningBracket_returnsError() {
    let input: String = "[[]".to_string();
    assert_eq!(
        Err(CompileError::UnmatchedOpeningBracket { kind: BracketKind::Square, position: 0 }),
        parse_bot(input)
    );
}

#[test]
fn parseBot_unmatchedNestedSquareClosingBracket_returnsError() {
    let input: String = "[]]".to_string();
    assert_eq!(
        Err(CompileError::UnmatchedClosingBracket { kind: BracketKind::Square, position: 2 }),
        parse_bot(input)
    );
}

#[test]
fn parseBot_unmatchedRoundOpeningBracket_returnsError() {
    let input: String = "(".to_string();
    assert_eq!(
        Err(CompileError::UnmatchedOpeningBracket { kind: BracketKind::Round, position: 0 }),
        parse_bot(input)
    );
}

#[test]
fn parseBot_unmatchedRoundClosingBracket_returnsError() {
    let input: String = ")".to_string();
    assert_eq!(
        Err(CompileError::UnmatchedClosingBracket { kind: BracketKind::Round, position: 0 }),
        parse_bot(input)
    );
}

#[test]
fn parseBot_wrongTypeOfBracketRoundSquare_returnsError() {
    let input: String = "(]".to_string();
    assert_eq!(Err(CompileError::MismatchedBracketKind { position: 1 }), parse_bot(input));
}

#[test]
fn parseBot_wrongTypeOfBracketSquareRound_returnsError() {
    let input: String = "[)".to_string();
    assert_eq!(Err(CompileError::MismatchedBracketKind { position: 1 }), parse_bot(input));
}

#[test]
fn parseBot_roundClosingBraceNotFollowedByAsterisk_returnsError() {
    let input: String = "()10".to_string();
    assert_eq!(Err(CompileError::MissingLoopDelimiter { position: 1 }), parse_bot(input));
}

#[test]
fn parseBot_roundBrackets_returnsForLoop() {
    let input: String = "()*1".to_string();
    let expected: Vec<Instruction> = vec![
        Instruction::StartFor { target_pointer: 1 },
        Instruction::EndFor { target_pointer: 0, nr_iterations: 1 },
    ];
    assert_eq!(Ok(expected), parse_bot(input));
}

#[test]
fn parseBot_roundBracketsDifferentNumberIterations_returnsForLoop() {
    let input: String = "()*2".to_string();
    let expected: Vec<Instruction> = vec![
        Instruction::StartFor { target_pointer: 1 },
        Instruction::EndFor { target_pointer: 0, nr_iterations: 2 },
    ];
    assert_eq!(Ok(expected), parse_bot(input));
}

#[test]
fn parseBot_roundBracketsNrIterationsDoubleDigits_returnsForLoop() {
    let input: String = "()*10".to_string();
    let expected: Vec<Instruction> = vec![
        Instruction::StartFor { target_pointer: 1 },
        Instruction::EndFor { target_pointer: 0, nr_iterations: 10 },
    ];
    assert_eq!(Ok(expected), parse_bot(input));
}

#[test]
fn for_loop_without_digits_is_rejected() {
    assert_eq!(
        Err(CompileError::InvalidOrMissingIterationCount { position: 1 }),
        parse_bot("()*".to_string())
    );
    assert_eq!(
        Err(CompileError::InvalidOrMissingIterationCount { position: 1 }),
        parse_bot("()*x5".to_string())
    );
}

#[test]
fn for_loop_count_too_large_is_rejected() {
    assert_eq!(
        Err(CompileError::InvalidOrMissingIterationCount { position: 1 }),
        parse_bot("()*99999999999999999999999".to_string())
    );
}

#[test]
fn innermost_unmatched_opening_bracket_is_reported() {
    assert_eq!(
        Err(CompileError::UnmatchedOpeningBracket { kind: BracketKind::Round, position: 3 }),
        parse_bot("[a.(>".to_string())
    );
}

#[test]
fn mixed_program_resolves_every_loop() {
    let expected: Vec<Instruction> = vec![
        Instruction::MoveForward,
        Instruction::StartFor { target_pointer: 6 },
        Instruction::Increment,
        Instruction::StartWhileNotZero { target_pointer: 5 },
        Instruction::Decrement,
        Instruction::EndWhileNotZero { target_pointer: 3 },
        Instruction::EndFor { target_pointer: 1, nr_iterations: 7 },
        Instruction::SkipExecution,
        Instruction::MoveBack,
    ];
    assert_eq!(Ok(expected), parse_bot("> (+[-])*7 .<".to_string()));
}
