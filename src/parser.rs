use vstd::prelude::*;

use crate::instruction::{loops_resolved, targets_in_bounds, Instruction};
use crate::resolution::lemma_compiled_loops_resolved;

verus! {

/// The two kinds of loop bracket: `[ ]` loops while the current cell is not
/// zero, `( )*n` repeats its body a fixed number of times.
#[derive(Debug, Clone, Copy, PartialEq, Eq, Structural)]
pub enum BracketKind {
    Square,
    Round,
}

/// Why a source text does not compile. Each position is the index of the
/// offending character in the source, counted in characters.
#[derive(Debug, Clone, Copy, PartialEq, Eq, Structural)]
pub enum CompileError {
    /// An opening bracket that no closing bracket matches.
    UnmatchedOpeningBracket { kind: BracketKind, position: usize },
    /// A closing bracket with no opening bracket left to match.
    UnmatchedClosingBracket { kind: BracketKind, position: usize },
    /// A closing bracket whose kind differs from the innermost open bracket.
    MismatchedBracketKind { position: usize },
    /// A `)` that is not directly followed by the `*` delimiter.
    MissingLoopDelimiter { position: usize },
    /// A `)*` that is not followed by a decimal count that fits in `usize`.
    InvalidOrMissingIterationCount { position: usize },
}

/// A bracket that has been opened and not yet closed during the scan.
#[derive(Debug, Clone, Copy, PartialEq, Eq, Structural)]
pub struct OpenBracket {
    pub kind: BracketKind,
    /// Index of the placeholder loop start in the program being built.
    pub instruction_index: usize,
    /// Index of the bracket character in the source.
    pub position: usize,
}

/// The character that must directly follow `)`, before the repeat count.
pub const LOOP_DELIMITER: char = '*';

/// Jump target written into a loop start until its end is found.
pub const UNRESOLVED_TARGET: usize = usize::MAX;

pub open spec fn is_decimal_digit(c: char) -> bool {
    '0' <= c && c <= '9'
}

pub open spec fn digit_value(c: char) -> nat {
    (c as u32 - '0' as u32) as nat
}

/// Index just past the run of decimal digits that starts at `j`.
pub open spec fn digit_run_end(chars: Seq<char>, j: int) -> int
    decreases chars.len() - j,
{
    if 0 <= j < chars.len() && is_decimal_digit(chars[j]) {
        digit_run_end(chars, j + 1)
    } else {
        j
    }
}

/// The number written in decimal by `chars[start..end]`.
pub open spec fn digits_value(chars: Seq<char>, start: int, end: int) -> nat
    decreases end - start,
{
    if end <= start {
        0
    } else {
        digits_value(chars, start, end - 1) * 10 + digit_value(chars[end - 1])
    }
}

/// The repeat count written after the `)` at index `close`: the delimiter,
/// then one or more decimal digits whose value fits in `usize`.
pub open spec fn iteration_count(chars: Seq<char>, close: int) -> Result<usize, CompileError> {
    let start = close + 2;
    let end = digit_run_end(chars, start);
    if close + 1 >= chars.len() || chars[close + 1] != LOOP_DELIMITER {
        Err(CompileError::MissingLoopDelimiter { position: close as usize })
    } else if end == start || digits_value(chars, start, end) > usize::MAX {
        Err(CompileError::InvalidOrMissingIterationCount { position: close as usize })
    } else {
        Ok(digits_value(chars, start, end) as usize)
    }
}

/// The instruction that a non-bracket character compiles to, if any.
pub open spec fn simple_instruction(c: char) -> Option<Instruction> {
    if c == '<' {
        Some(Instruction::MoveBack)
    } else if c == '>' {
        Some(Instruction::MoveForward)
    } else if c == '+' {
        Some(Instruction::Increment)
    } else if c == '-' {
        Some(Instruction::Decrement)
    } else if c == '.' {
        Some(Instruction::SkipExecution)
    } else {
        None
    }
}

/// What the scan holds between two characters: the open brackets, innermost
/// last, and the program so far.
pub type ScanState = (Seq<OpenBracket>, Seq<Instruction>);

/// One step of the scan: the character at index `i` applied to `state`.
pub open spec fn scan_char(chars: Seq<char>, i: int, state: ScanState) -> Result<
    ScanState,
    CompileError,
> {
    let (stack, program) = state;
    let c = chars[i];
    let here = program.len() as usize;
    if simple_instruction(c) is Some {
        Ok((stack, program.push(simple_instruction(c)->0)))
    } else if c == '[' || c == '(' {
        let kind = if c == '[' {
            BracketKind::Square
        } else {
            BracketKind::Round
        };
        let placeholder = if c == '[' {
            Instruction::StartWhileNotZero { target_pointer: UNRESOLVED_TARGET }
        } else {
            Instruction::StartFor { target_pointer: UNRESOLVED_TARGET }
        };
        let open = OpenBracket { kind, instruction_index: here, position: i as usize };
        Ok((stack.push(open), program.push(placeholder)))
    } else if c == ']' || c == ')' {
        let kind = if c == ']' {
            BracketKind::Square
        } else {
            BracketKind::Round
        };
        if stack.len() == 0 {
            Err(CompileError::UnmatchedClosingBracket { kind, position: i as usize })
        } else if stack.last().kind != kind {
            Err(CompileError::MismatchedBracketKind { position: i as usize })
        } else {
            let opening = stack.last().instruction_index;
            if kind == BracketKind::Square {
                Ok(
                    (
                        stack.drop_last(),
                        program.update(
                            opening as int,
                            Instruction::StartWhileNotZero { target_pointer: here },
                        ).push(Instruction::EndWhileNotZero { target_pointer: opening }),
                    ),
                )
            } else {
                match iteration_count(chars, i) {
                    Err(e) => Err(e),
                    Ok(n) => Ok(
                        (
                            stack.drop_last(),
                            program.update(
                                opening as int,
                                Instruction::StartFor { target_pointer: here },
                            ).push(
                                Instruction::EndFor { target_pointer: opening, nr_iterations: n },
                            ),
                        ),
                    ),
                }
            }
        }
    } else {
        Ok(state)
    }
}

/// The scan after the first `n` characters, or the first error met.
pub open spec fn scan(chars: Seq<char>, n: int) -> Result<ScanState, CompileError>
    decreases n,
{
    if n <= 0 {
        Ok((Seq::empty(), Seq::empty()))
    } else {
        match scan(chars, n - 1) {
            Err(e) => Err(e),
            Ok(state) => scan_char(chars, n - 1, state),
        }
    }
}

/// The result of compiling a source text: its program, or the first error.
/// Brackets left open at the end are reported innermost first.
pub open spec fn compile(chars: Seq<char>) -> Result<Seq<Instruction>, CompileError> {
    match scan(chars, chars.len() as int) {
        Err(e) => Err(e),
        Ok((stack, program)) => if stack.len() == 0 {
            Ok(program)
        } else {
            Err(
                CompileError::UnmatchedOpeningBracket {
                    kind: stack.last().kind,
                    position: stack.last().position,
                },
            )
        },
    }
}

/// Once the scan has failed, it fails with the same error however much
/// further it reads.
pub proof fn lemma_scan_error_persists(chars: Seq<char>, n: int, m: int)
    requires
        0 <= n <= m,
        scan(chars, n) is Err,
    ensures
        scan(chars, m) == scan(chars, n),
    decreases m - n,
{
    if m > n {
        lemma_scan_error_persists(chars, n, m - 1);
    }
}

/// A failure of the scan at the character with index `i` is the result of
/// the whole compilation.
proof fn lemma_scan_error_is_compile_error(chars: Seq<char>, i: int)
    requires
        0 <= i < chars.len(),
        scan(chars, i) is Ok,
        scan_char(chars, i, scan(chars, i)->Ok_0) is Err,
    ensures
        compile(chars) == Err::<Seq<Instruction>, _>(scan_char(chars, i, scan(chars, i)->Ok_0)->Err_0),
{
    lemma_scan_error_persists(chars, i + 1, chars.len() as int);
}

fn source_chars(source: &str) -> (chars: Vec<char>)
    ensures
        chars@ == source@,
{
    let mut chars: Vec<char> = Vec::new();
    for c in it: source.chars()
        invariant
            chars@ == it.seq().take(it.index() as int),
    {
        chars.push(c);
    }
    chars
}

fn is_digit(c: char) -> (r: bool)
    ensures
        r == is_decimal_digit(c),
{
    '0' <= c && c <= '9'
}

/// Reads the repeat count written after the `)` at index `close`.
fn read_iteration_count(chars: &Vec<char>, close: usize) -> (r: Result<usize, CompileError>)
    requires
        close < chars.len(),
    ensures
        r == iteration_count(chars@, close as int),
{
    if close + 1 >= chars.len() || chars[close + 1] != LOOP_DELIMITER {
        return Err(CompileError::MissingLoopDelimiter { position: close });
    }
    let start: usize = close + 2;
    let mut j: usize = start;
    let mut value: usize = 0;
    let mut too_large = false;
    while j < chars.len() && is_digit(chars[j])
        invariant
            start <= j <= chars.len(),
            digit_run_end(chars@, start as int) == digit_run_end(chars@, j as int),
            !too_large ==> value == digits_value(chars@, start as int, j as int),
            too_large ==> digits_value(chars@, start as int, j as int) > usize::MAX,
        decreases chars.len() - j,
    {
        let d: usize = (chars[j] as u32 - '0' as u32) as usize;
        if !too_large {
            match value.checked_mul(10) {
                Some(tens) => match tens.checked_add(d) {
                    Some(v) => {
                        value = v;
                    },
                    None => {
                        too_large = true;
                    },
                },
                None => {
                    too_large = true;
                },
            }
        }
        j = j + 1;
    }
    if j == start || too_large {
        Err(CompileError::InvalidOrMissingIterationCount { position: close })
    } else {
        Ok(value)
    }
}

/// Compiles a bot's source text into a program with resolved jump targets.
///
/// `<` `>` `+` `-` `.` compile to one instruction each, `[ ]` to a while
/// loop, `( )*n` to a loop repeated `n` times; every other character is a
/// comment. No partial program is returned on an error.
pub fn parse_bot(source_code: String) -> (r: Result<Vec<Instruction>, CompileError>)
    ensures
        match r {
            Ok(program) => compile(source_code@) == Ok::<_, CompileError>(program@),
            Err(e) => compile(source_code@) == Err::<Seq<Instruction>, _>(e),
        },
        r is Ok ==> loops_resolved(r->Ok_0@) && targets_in_bounds(r->Ok_0@),
{
    let chars = source_chars(source_code.as_str());
    let mut stack: Vec<OpenBracket> = Vec::new();
    let mut program: Vec<Instruction> = Vec::new();
    let mut i: usize = 0;
    while i < chars.len()
        invariant
            i <= chars.len(),
            chars@ == source_code@,
            scan(chars@, i as int) == Ok::<_, CompileError>((stack@, program@)),
            program.len() <= i,
            forall|k: int| 0 <= k < stack.len() ==> #[trigger] stack@[k].instruction_index < program.len(),
        decreases chars.len() - i,
    {
        let c = chars[i];
        let here: usize = program.len();
        if c == '<' {
            program.push(Instruction::MoveBack);
        } else if c == '>' {
            program.push(Instruction::MoveForward);
        } else if c == '+' {
            program.push(Instruction::Increment);
        } else if c == '-' {
            program.push(Instruction::Decrement);
        } else if c == '.' {
            program.push(Instruction::SkipExecution);
        } else if c == '[' {
            stack.push(OpenBracket { kind: BracketKind::Square, instruction_index: here, position: i });
            program.push(Instruction::StartWhileNotZero { target_pointer: UNRESOLVED_TARGET });
        } else if c == '(' {
            stack.push(OpenBracket { kind: BracketKind::Round, instruction_index: here, position: i });
            program.push(Instruction::StartFor { target_pointer: UNRESOLVED_TARGET });
        } else if c == ']' || c == ')' {
            let kind = if c == ']' {
                BracketKind::Square
            } else {
                BracketKind::Round
            };
            if stack.len() == 0 {
                proof {
                    lemma_scan_error_is_compile_error(chars@, i as int);
                }
                return Err(CompileError::UnmatchedClosingBracket { kind, position: i });
            }
            let open = stack[stack.len() - 1];
            if open.kind != kind {
                proof {
                    lemma_scan_error_is_compile_error(chars@, i as int);
                }
                return Err(CompileError::MismatchedBracketKind { position: i });
            }
            let opening: usize = open.instruction_index;
            if kind == BracketKind::Square {
                program[opening] = Instruction::StartWhileNotZero { target_pointer: here };
                program.push(Instruction::EndWhileNotZero { target_pointer: opening });
            } else {
                match read_iteration_count(&chars, i) {
                    Err(e) => {
                        proof {
                            lemma_scan_error_is_compile_error(chars@, i as int);
                        }
                        return Err(e);
                    },
                    Ok(n) => {
                        program[opening] = Instruction::StartFor { target_pointer: here };
                        program.push(Instruction::EndFor { target_pointer: opening, nr_iterations: n });
                    },
                }
            }
            stack.pop();
        }
        i = i + 1;
    }
    if stack.len() > 0 {
        let open = stack[stack.len() - 1];
        return Err(CompileError::UnmatchedOpeningBracket { kind: open.kind, position: open.position });
    }
    proof {
        lemma_compiled_loops_resolved(chars@);
    }
    Ok(program)
}

} // verus!
