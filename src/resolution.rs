//! What compilation guarantees about brackets: a well-bracketed source
//! compiles, and every loop of its program is paired with its counterpart;
//! each kind of bracket mistake is reported as such, at its position.
use vstd::prelude::*;

use crate::instruction::{
    for_start_resolved,
    loops_resolved,
    targets_in_bounds,
    while_start_resolved,
    Instruction,
};
use crate::parser::{
    compile,
    iteration_count,
    lemma_scan_error_persists,
    scan,
    scan_char,
    simple_instruction,
    BracketKind,
    CompileError,
    OpenBracket,
};

verus! {

/// The character that opens a bracket of the given kind.
pub open spec fn opening_char(kind: BracketKind) -> char {
    match kind {
        BracketKind::Square => '[',
        BracketKind::Round => '(',
    }
}

/// Whether `x` is the start (`start`) or the end (`!start`) of a loop of the
/// given kind.
pub open spec fn is_loop_part(x: Instruction, kind: BracketKind, start: bool) -> bool {
    match kind {
        BracketKind::Square => if start {
            x is StartWhileNotZero
        } else {
            x is EndWhileNotZero
        },
        BracketKind::Round => if start {
            x is StartFor
        } else {
            x is EndFor
        },
    }
}

/// Number of loop starts (or ends) of the given kind in a program.
pub open spec fn count_loop_parts(program: Seq<Instruction>, kind: BracketKind, start: bool) -> nat
    decreases program.len(),
{
    if program.len() == 0 {
        0
    } else {
        count_loop_parts(program.drop_last(), kind, start) + if is_loop_part(
            program.last(),
            kind,
            start,
        ) {
            1nat
        } else {
            0nat
        }
    }
}

/// Number of open brackets of the given kind.
pub open spec fn count_open(stack: Seq<OpenBracket>, kind: BracketKind) -> nat
    decreases stack.len(),
{
    if stack.len() == 0 {
        0
    } else {
        count_open(stack.drop_last(), kind) + if stack.last().kind == kind {
            1nat
        } else {
            0nat
        }
    }
}

/// The kinds of the brackets open after the first `n` characters, innermost
/// last; `None` once a bracket was closed by the wrong kind or with nothing
/// open, or a `)` lacks its repeat count.
pub open spec fn bracket_nesting(chars: Seq<char>, n: int) -> Option<Seq<BracketKind>>
    decreases n,
{
    if n <= 0 {
        Some(Seq::empty())
    } else {
        match bracket_nesting(chars, n - 1) {
            None => None,
            Some(kinds) => {
                let c = chars[n - 1];
                if c == '[' {
                    Some(kinds.push(BracketKind::Square))
                } else if c == '(' {
                    Some(kinds.push(BracketKind::Round))
                } else if c == ']' {
                    if kinds.len() > 0 && kinds.last() == BracketKind::Square {
                        Some(kinds.drop_last())
                    } else {
                        None
                    }
                } else if c == ')' {
                    if kinds.len() > 0 && kinds.last() == BracketKind::Round && iteration_count(
                        chars,
                        n - 1,
                    ) is Ok {
                        Some(kinds.drop_last())
                    } else {
                        None
                    }
                } else {
                    Some(kinds)
                }
            },
        }
    }
}

/// Every bracket is closed by one of its own kind, each `)` carries a repeat
/// count, and no bracket is left open.
pub open spec fn well_bracketed(chars: Seq<char>) -> bool {
    bracket_nesting(chars, chars.len() as int) == Some(Seq::<BracketKind>::empty())
}

/// The loop start at instruction `i` is still waiting for its end.
pub open spec fn is_open(stack: Seq<OpenBracket>, i: int) -> bool {
    exists|k: int| 0 <= k < stack.len() && #[trigger] stack[k].instruction_index == i
}

/// Instruction `i` is either an open loop start or paired with its
/// counterpart.
pub open spec fn entry_resolved(program: Seq<Instruction>, stack: Seq<OpenBracket>, i: int) -> bool {
    match program[i] {
        Instruction::StartWhileNotZero { .. } => is_open(stack, i) || while_start_resolved(
            program,
            i,
        ),
        Instruction::EndWhileNotZero { target_pointer } => {
            &&& target_pointer < i
            &&& program[target_pointer as int] == Instruction::StartWhileNotZero {
                target_pointer: i as usize,
            }
            &&& !is_open(stack, target_pointer as int)
        },
        Instruction::StartFor { .. } => is_open(stack, i) || for_start_resolved(program, i),
        Instruction::EndFor { target_pointer, .. } => {
            &&& target_pointer < i
            &&& program[target_pointer as int] == Instruction::StartFor {
                target_pointer: i as usize,
            }
            &&& !is_open(stack, target_pointer as int)
        },
        _ => true,
    }
}

/// What holds of the scan after `n` characters.
pub open spec fn scan_invariant(
    chars: Seq<char>,
    n: int,
    stack: Seq<OpenBracket>,
    program: Seq<Instruction>,
) -> bool {
    &&& program.len() <= n
    &&& forall|k: int|
        0 <= k < stack.len() ==> {
            let open = #[trigger] stack[k];
            &&& open.instruction_index < program.len()
            &&& open.position < n
            &&& chars[open.position as int] == opening_char(open.kind)
            &&& is_loop_part(program[open.instruction_index as int], open.kind, true)
        }
    &&& forall|k1: int, k2: int|
        #![trigger stack[k1], stack[k2]]
        0 <= k1 < k2 < stack.len() ==> stack[k1].instruction_index
            < stack[k2].instruction_index
    &&& forall|i: int| 0 <= i < program.len() ==> #[trigger] entry_resolved(program, stack, i)
    &&& count_loop_parts(program, BracketKind::Square, true) == count_loop_parts(
        program,
        BracketKind::Square,
        false,
    ) + count_open(stack, BracketKind::Square)
    &&& count_loop_parts(program, BracketKind::Round, true) == count_loop_parts(
        program,
        BracketKind::Round,
        false,
    ) + count_open(stack, BracketKind::Round)
}

proof fn lemma_count_push(program: Seq<Instruction>, x: Instruction, kind: BracketKind, start: bool)
    ensures
        count_loop_parts(program.push(x), kind, start) == count_loop_parts(program, kind, start)
            + if is_loop_part(x, kind, start) {
            1nat
        } else {
            0nat
        },
{
    assert(program.push(x).drop_last() =~= program);
}

proof fn lemma_count_update(
    program: Seq<Instruction>,
    o: int,
    y: Instruction,
    kind: BracketKind,
    start: bool,
)
    requires
        0 <= o < program.len(),
        is_loop_part(program[o], kind, start) == is_loop_part(y, kind, start),
    ensures
        count_loop_parts(program.update(o, y), kind, start) == count_loop_parts(
            program,
            kind,
            start,
        ),
    decreases program.len(),
{
    let updated = program.update(o, y);
    if o == program.len() - 1 {
        assert(updated.drop_last() =~= program.drop_last());
    } else {
        assert(updated.drop_last() =~= program.drop_last().update(o, y));
        lemma_count_update(program.drop_last(), o, y, kind, start);
    }
}

proof fn lemma_count_open_push(stack: Seq<OpenBracket>, open: OpenBracket, kind: BracketKind)
    ensures
        count_open(stack.push(open), kind) == count_open(stack, kind) + if open.kind == kind {
            1nat
        } else {
            0nat
        },
{
    assert(stack.push(open).drop_last() =~= stack);
}

/// Adding an instruction that no open bracket refers to keeps every entry
/// below it resolved.
proof fn lemma_entries_after_push(
    program: Seq<Instruction>,
    stack: Seq<OpenBracket>,
    new_stack: Seq<OpenBracket>,
    x: Instruction,
)
    requires
        forall|i: int| 0 <= i < program.len() ==> #[trigger] entry_resolved(program, stack, i),
        forall|i: int| is_open(stack, i) ==> is_open(new_stack, i),
        forall|i: int| 0 <= i < program.len() && is_open(new_stack, i) ==> is_open(stack, i),
    ensures
        forall|i: int|
            0 <= i < program.len() ==> #[trigger] entry_resolved(program.push(x), new_stack, i),
{
    let pushed = program.push(x);
    assert forall|i: int| 0 <= i < program.len() implies #[trigger] entry_resolved(
        pushed,
        new_stack,
        i,
    ) by {
        assert(entry_resolved(program, stack, i));
        assert(pushed[i] == program[i]);
        match program[i] {
            Instruction::StartWhileNotZero { target_pointer } => {
                if !is_open(stack, i) {
                    assert(pushed[target_pointer as int] == program[target_pointer as int]);
                }
            },
            Instruction::EndWhileNotZero { target_pointer } => {
                assert(pushed[target_pointer as int] == program[target_pointer as int]);
            },
            Instruction::StartFor { target_pointer } => {
                if !is_open(stack, i) {
                    assert(pushed[target_pointer as int] == program[target_pointer as int]);
                }
            },
            Instruction::EndFor { target_pointer, .. } => {
                assert(pushed[target_pointer as int] == program[target_pointer as int]);
            },
            _ => {},
        }
    }
}

/// Closing the innermost open bracket, whose start sits at `o`: the start now
/// points at the new end, which points back at it.
proof fn lemma_entries_after_close(
    program: Seq<Instruction>,
    stack: Seq<OpenBracket>,
    start: Instruction,
    end: Instruction,
)
    requires
        stack.len() > 0,
        program.len() < usize::MAX,
        forall|i: int| 0 <= i < program.len() ==> #[trigger] entry_resolved(program, stack, i),
        forall|k: int|
            0 <= k < stack.len() ==> (#[trigger] stack[k]).instruction_index < program.len(),
        forall|k1: int, k2: int|
            #![trigger stack[k1], stack[k2]]
            0 <= k1 < k2 < stack.len() ==> stack[k1].instruction_index
                < stack[k2].instruction_index,
        is_loop_part(program[stack.last().instruction_index as int], stack.last().kind, true),
        stack.last().kind == BracketKind::Square ==> (start == (Instruction::StartWhileNotZero {
            target_pointer: program.len() as usize,
        })) && (end == (Instruction::EndWhileNotZero {
            target_pointer: stack.last().instruction_index,
        })),
        stack.last().kind == BracketKind::Round ==> (start == (Instruction::StartFor {
            target_pointer: program.len() as usize,
        })) && (end is EndFor) && (end->EndFor_target_pointer == stack.last().instruction_index),
    ensures
        ({
            let o = stack.last().instruction_index as int;
            let closed = program.update(o, start).push(end);
            forall|i: int|
                0 <= i < closed.len() ==> #[trigger] entry_resolved(closed, stack.drop_last(), i)
        }),
{
    let o = stack.last().instruction_index as int;
    let len = program.len() as int;
    let updated = program.update(o, start);
    let closed = updated.push(end);
    let rest = stack.drop_last();
    assert forall|i: int| #[trigger] is_open(rest, i) implies is_open(stack, i) && i < o by {
        let k = choose|k: int| 0 <= k < rest.len() && #[trigger] rest[k].instruction_index == i;
        assert(stack[k] == rest[k]);
        assert(stack[k].instruction_index < stack[stack.len() - 1].instruction_index);
    }
    assert(is_open(stack, o)) by {
        assert(stack[stack.len() - 1].instruction_index == o);
    }
    assert(!is_open(rest, o));
    assert forall|i: int| 0 <= i < closed.len() implies #[trigger] entry_resolved(
        closed,
        rest,
        i,
    ) by {
        if i == len {
            assert(closed[i] == end);
            assert(closed[o] == start);
        } else if i == o {
            assert(closed[i] == start);
            assert(closed[len] == end);
        } else {
            assert(entry_resolved(program, stack, i));
            assert(closed[i] == program[i]);
            match program[i] {
                Instruction::StartWhileNotZero { target_pointer } => {
                    if !is_open(stack, i) {
                        assert(closed[target_pointer as int] == program[target_pointer as int]);
                    } else {
                        assert(is_open(rest, i)) by {
                            let k = choose|k: int|
                                0 <= k < stack.len() && #[trigger] stack[k].instruction_index
                                    == i;
                            assert(k != stack.len() - 1);
                            assert(rest[k] == stack[k]);
                        }
                    }
                },
                Instruction::EndWhileNotZero { target_pointer } => {
                    assert(target_pointer != o);
                    assert(closed[target_pointer as int] == program[target_pointer as int]);
                },
                Instruction::StartFor { target_pointer } => {
                    if !is_open(stack, i) {
                        assert(closed[target_pointer as int] == program[target_pointer as int]);
                    } else {
                        assert(is_open(rest, i)) by {
                            let k = choose|k: int|
                                0 <= k < stack.len() && #[trigger] stack[k].instruction_index
                                    == i;
                            assert(k != stack.len() - 1);
                            assert(rest[k] == stack[k]);
                        }
                    }
                },
                Instruction::EndFor { target_pointer, .. } => {
                    assert(target_pointer != o);
                    assert(closed[target_pointer as int] == program[target_pointer as int]);
                },
                _ => {},
            }
        }
    }
}

/// The scan keeps its invariant from one character to the next.
proof fn lemma_scan_char_invariant(chars: Seq<char>, n: int, stack: Seq<OpenBracket>, program: Seq<
    Instruction,
>)
    requires
        0 <= n < chars.len() <= usize::MAX,
        scan_invariant(chars, n, stack, program),
        scan_char(chars, n, (stack, program)) is Ok,
    ensures
        scan_invariant(
            chars,
            n + 1,
            scan_char(chars, n, (stack, program))->Ok_0.0,
            scan_char(chars, n, (stack, program))->Ok_0.1,
        ),
{
    let c = chars[n];
    let len = program.len();
    let (new_stack, new_program) = scan_char(chars, n, (stack, program))->Ok_0;
    if simple_instruction(c) is Some {
        let x = simple_instruction(c)->0;
        lemma_entries_after_push(program, stack, stack, x);
        lemma_count_push(program, x, BracketKind::Square, true);
        lemma_count_push(program, x, BracketKind::Square, false);
        lemma_count_push(program, x, BracketKind::Round, true);
        lemma_count_push(program, x, BracketKind::Round, false);
        assert(forall|k: int|
            0 <= k < stack.len() ==> new_program[(#[trigger] stack[k]).instruction_index as int]
                == program[stack[k].instruction_index as int]);
    } else if c == '[' || c == '(' {
        let kind = if c == '[' {
            BracketKind::Square
        } else {
            BracketKind::Round
        };
        let open = new_stack.last();
        let x = new_program.last();
        assert(new_stack == stack.push(open));
        assert(new_program == program.push(x));
        assert forall|i: int| is_open(stack, i) implies is_open(new_stack, i) by {
            let k = choose|k: int| 0 <= k < stack.len() && #[trigger] stack[k].instruction_index == i;
            assert(new_stack[k] == stack[k]);
        }
        assert forall|i: int| 0 <= i < len && is_open(new_stack, i) implies is_open(stack, i) by {
            let k = choose|k: int|
                0 <= k < new_stack.len() && #[trigger] new_stack[k].instruction_index == i;
            if k < stack.len() {
                assert(new_stack[k] == stack[k]);
            }
        }
        lemma_entries_after_push(program, stack, new_stack, x);
        assert(entry_resolved(new_program, new_stack, len as int)) by {
            assert(new_stack[stack.len() as int].instruction_index == len);
        }
        lemma_count_push(program, x, BracketKind::Square, true);
        lemma_count_push(program, x, BracketKind::Square, false);
        lemma_count_push(program, x, BracketKind::Round, true);
        lemma_count_push(program, x, BracketKind::Round, false);
        lemma_count_open_push(stack, open, BracketKind::Square);
        lemma_count_open_push(stack, open, BracketKind::Round);
        assert forall|k: int| 0 <= k < new_stack.len() implies {
            let e = #[trigger] new_stack[k];
            &&& e.instruction_index < new_program.len()
            &&& e.position < n + 1
            &&& chars[e.position as int] == opening_char(e.kind)
            &&& is_loop_part(new_program[e.instruction_index as int], e.kind, true)
        } by {
            if k < stack.len() {
                assert(new_stack[k] == stack[k]);
            }
        }
        assert forall|k1: int, k2: int|
            #![trigger new_stack[k1], new_stack[k2]]
            0 <= k1 < k2 < new_stack.len() implies new_stack[k1].instruction_index
                < new_stack[k2].instruction_index by {
            assert(new_stack[k1] == stack[k1]);
            if k2 < stack.len() {
                assert(new_stack[k2] == stack[k2]);
            }
        }
    } else if c == ']' || c == ')' {
        let open = stack.last();
        let o = open.instruction_index as int;
        let rest = stack.drop_last();
        let start = new_program[o];
        let end = new_program.last();
        assert(new_program == program.update(o, start).push(end));
        assert(new_stack == rest);
        lemma_entries_after_close(program, stack, start, end);
        assert(stack == rest.push(open));
        lemma_count_open_push(rest, open, BracketKind::Square);
        lemma_count_open_push(rest, open, BracketKind::Round);
        let updated = program.update(o, start);
        lemma_count_update(program, o, start, BracketKind::Square, true);
        lemma_count_update(program, o, start, BracketKind::Square, false);
        lemma_count_update(program, o, start, BracketKind::Round, true);
        lemma_count_update(program, o, start, BracketKind::Round, false);
        lemma_count_push(updated, end, BracketKind::Square, true);
        lemma_count_push(updated, end, BracketKind::Square, false);
        lemma_count_push(updated, end, BracketKind::Round, true);
        lemma_count_push(updated, end, BracketKind::Round, false);
        assert forall|k: int| 0 <= k < rest.len() implies {
            let e = #[trigger] rest[k];
            &&& e.instruction_index < new_program.len()
            &&& e.position < n + 1
            &&& chars[e.position as int] == opening_char(e.kind)
            &&& is_loop_part(new_program[e.instruction_index as int], e.kind, true)
        } by {
            assert(rest[k] == stack[k]);
            assert(stack[k].instruction_index < stack[stack.len() - 1].instruction_index);
        }
        assert forall|k1: int, k2: int|
            #![trigger rest[k1], rest[k2]]
            0 <= k1 < k2 < rest.len() implies rest[k1].instruction_index
                < rest[k2].instruction_index by {
            assert(rest[k1] == stack[k1]);
            assert(rest[k2] == stack[k2]);
        }
    } else {
    }
}

/// Whatever the source, as long as the scan has not failed its open brackets
/// are opening characters of their kind and every loop instruction that is
/// not waiting for its end is paired with its counterpart.
pub proof fn lemma_scan_invariant(chars: Seq<char>, n: int)
    requires
        0 <= n <= chars.len() <= usize::MAX,
        scan(chars, n) is Ok,
    ensures
        scan_invariant(chars, n, scan(chars, n)->Ok_0.0, scan(chars, n)->Ok_0.1),
    decreases n,
{
    if n == 0 {
        let (stack, program) = scan(chars, 0)->Ok_0;
        assert(count_loop_parts(program, BracketKind::Square, true) == 0);
        assert(count_open(stack, BracketKind::Square) == 0);
    } else {
        if scan(chars, n - 1) is Err {
            lemma_scan_error_persists(chars, n - 1, n);
        }
        lemma_scan_invariant(chars, n - 1);
        let state = scan(chars, n - 1)->Ok_0;
        lemma_scan_char_invariant(chars, n - 1, state.0, state.1);
    }
}

/// Along a well-bracketed prefix the scan succeeds, and its open brackets
/// have the kinds that the bracket nesting gives.
proof fn lemma_nesting_scan(chars: Seq<char>, n: int)
    requires
        0 <= n <= chars.len() <= usize::MAX,
        bracket_nesting(chars, n) is Some,
    ensures
        scan(chars, n) is Ok,
        scan(chars, n)->Ok_0.0.len() == bracket_nesting(chars, n)->0.len(),
        forall|k: int|
            0 <= k < scan(chars, n)->Ok_0.0.len() ==> (#[trigger] scan(chars, n)->Ok_0.0[k]).kind
                == bracket_nesting(chars, n)->0[k],
    decreases n,
{
    if n > 0 {
        lemma_nesting_scan(chars, n - 1);
        let stack = scan(chars, n - 1)->Ok_0.0;
        let kinds = bracket_nesting(chars, n - 1)->0;
        let new_stack = scan(chars, n)->Ok_0.0;
        let new_kinds = bracket_nesting(chars, n)->0;
        assert forall|k: int| 0 <= k < new_stack.len() implies (#[trigger] new_stack[k]).kind
            == new_kinds[k] by {
            if k < stack.len() {
                assert(stack[k].kind == kinds[k]);
            }
        }
    }
}

/// A well-bracketed source compiles. In its program every loop start points
/// forward at its end, which points back at it, and there are as many starts
/// as ends of each kind of loop.
pub proof fn lemma_well_bracketed_compiles(chars: Seq<char>)
    requires
        well_bracketed(chars),
        chars.len() <= usize::MAX,
    ensures
        compile(chars) is Ok,
        loops_resolved(compile(chars)->Ok_0),
        targets_in_bounds(compile(chars)->Ok_0),
        count_loop_parts(compile(chars)->Ok_0, BracketKind::Square, true) == count_loop_parts(
            compile(chars)->Ok_0,
            BracketKind::Square,
            false,
        ),
        count_loop_parts(compile(chars)->Ok_0, BracketKind::Round, true) == count_loop_parts(
            compile(chars)->Ok_0,
            BracketKind::Round,
            false,
        ),
{
    let n = chars.len() as int;
    lemma_nesting_scan(chars, n);
    lemma_scan_invariant(chars, n);
    let (stack, program) = scan(chars, n)->Ok_0;
    assert(stack.len() == 0);
    assert(count_open(stack, BracketKind::Square) == 0);
    assert(count_open(stack, BracketKind::Round) == 0);
    lemma_compiled_loops_resolved(chars);
}

/// Every program that compilation produces has its loops resolved.
pub proof fn lemma_compiled_loops_resolved(chars: Seq<char>)
    requires
        chars.len() <= usize::MAX,
        compile(chars) is Ok,
    ensures
        loops_resolved(compile(chars)->Ok_0),
        targets_in_bounds(compile(chars)->Ok_0),
{
    let n = chars.len() as int;
    lemma_scan_invariant(chars, n);
    let (stack, program) = scan(chars, n)->Ok_0;
    assert forall|i: int| 0 <= i < program.len() implies match #[trigger] program[i] {
        Instruction::StartWhileNotZero { .. } => while_start_resolved(program, i),
        Instruction::EndWhileNotZero { target_pointer } => {
            &&& target_pointer < i
            &&& program[target_pointer as int] == Instruction::StartWhileNotZero {
                target_pointer: i as usize,
            }
        },
        Instruction::StartFor { .. } => for_start_resolved(program, i),
        Instruction::EndFor { target_pointer, .. } => {
            &&& target_pointer < i
            &&& program[target_pointer as int] == Instruction::StartFor {
                target_pointer: i as usize,
            }
        },
        _ => true,
    } by {
        assert(entry_resolved(program, stack, i));
    }
    lemma_resolved_targets_in_bounds(program);
}

/// A program whose loops are resolved only jumps inside itself.
pub proof fn lemma_resolved_targets_in_bounds(program: Seq<Instruction>)
    requires
        loops_resolved(program),
    ensures
        targets_in_bounds(program),
{
    assert forall|i: int| 0 <= i < program.len() implies match #[trigger] program[i] {
        Instruction::StartWhileNotZero { target_pointer } => target_pointer < program.len(),
        Instruction::EndWhileNotZero { target_pointer } => target_pointer < program.len(),
        Instruction::StartFor { target_pointer } => target_pointer < program.len(),
        Instruction::EndFor { target_pointer, .. } => target_pointer < program.len(),
        _ => true,
    } by {
        assert(loops_resolved(program));
    }
}


/// The kind of bracket that a closing character closes.
pub open spec fn closing_kind(c: char) -> BracketKind {
    if c == ']' {
        BracketKind::Square
    } else {
        BracketKind::Round
    }
}

/// A closing bracket met while no bracket is open makes compilation fail
/// there, with its kind and position.
pub proof fn lemma_unmatched_closing_bracket(chars: Seq<char>, i: int)
    requires
        0 <= i < chars.len() <= usize::MAX,
        chars[i] == ']' || chars[i] == ')',
        scan(chars, i) is Ok,
        scan(chars, i)->Ok_0.0.len() == 0,
    ensures
        compile(chars) == Err::<Seq<Instruction>, _>(
            CompileError::UnmatchedClosingBracket { kind: closing_kind(chars[i]), position: i as usize },
        ),
{
    lemma_scan_error_persists(chars, i + 1, chars.len() as int);
}

/// A closing bracket of the other kind than the innermost open bracket makes
/// compilation fail there; the innermost open bracket is an opening character
/// of the other kind, earlier in the source.
pub proof fn lemma_mismatched_bracket_kind(chars: Seq<char>, i: int)
    requires
        0 <= i < chars.len() <= usize::MAX,
        chars[i] == ']' || chars[i] == ')',
        scan(chars, i) is Ok,
        scan(chars, i)->Ok_0.0.len() > 0,
        scan(chars, i)->Ok_0.0.last().kind != closing_kind(chars[i]),
    ensures
        compile(chars) == Err::<Seq<Instruction>, _>(
            CompileError::MismatchedBracketKind { position: i as usize },
        ),
        ({
            let innermost = scan(chars, i)->Ok_0.0.last();
            &&& innermost.position < i
            &&& chars[innermost.position as int] == opening_char(innermost.kind)
            &&& opening_char(innermost.kind) != opening_char(closing_kind(chars[i]))
        }),
{
    lemma_scan_invariant(chars, i);
    let stack = scan(chars, i)->Ok_0.0;
    assert(stack[stack.len() - 1] == stack.last());
    lemma_scan_error_persists(chars, i + 1, chars.len() as int);
}

/// Brackets still open at the end make compilation fail, naming the kind
/// and position of the innermost one, which is an opening character of that
/// kind in the source.
pub proof fn lemma_unmatched_opening_bracket(chars: Seq<char>)
    requires
        chars.len() <= usize::MAX,
        scan(chars, chars.len() as int) is Ok,
        scan(chars, chars.len() as int)->Ok_0.0.len() > 0,
    ensures
        ({
            let innermost = scan(chars, chars.len() as int)->Ok_0.0.last();
            &&& compile(chars) == Err::<Seq<Instruction>, _>(
                CompileError::UnmatchedOpeningBracket {
                    kind: innermost.kind,
                    position: innermost.position,
                },
            )
            &&& innermost.position < chars.len()
            &&& chars[innermost.position as int] == opening_char(innermost.kind)
        }),
{
    lemma_scan_invariant(chars, chars.len() as int);
    let stack = scan(chars, chars.len() as int)->Ok_0.0;
    assert(stack[stack.len() - 1] == stack.last());
}

} // verus!
