use vstd::prelude::*;

verus! {

/// One instruction of a compiled bot program.
///
/// Loop instructions carry the index of their counterpart in the program:
/// a start points at its end and an end points at its start.
#[derive(Debug, Clone, Copy, PartialEq, Eq, Structural)]
pub enum Instruction {
    MoveBack,
    MoveForward,
    Increment,
    Decrement,
    StartWhileNotZero { target_pointer: usize },
    EndWhileNotZero { target_pointer: usize },
    SkipExecution,
    StartFor { target_pointer: usize },
    EndFor { target_pointer: usize, nr_iterations: usize },
}

/// Every jump target of the program lies inside the program.
///
/// This is all the engine needs to run a program without leaving its bounds.
pub open spec fn targets_in_bounds(program: Seq<Instruction>) -> bool {
    forall|i: int|
        0 <= i < program.len() ==> match #[trigger] program[i] {
            Instruction::StartWhileNotZero { target_pointer } => target_pointer < program.len(),
            Instruction::EndWhileNotZero { target_pointer } => target_pointer < program.len(),
            Instruction::StartFor { target_pointer } => target_pointer < program.len(),
            Instruction::EndFor { target_pointer, .. } => target_pointer < program.len(),
            _ => true,
        }
}

/// The start of a while loop at `i` and its end resolve to each other.
pub open spec fn while_start_resolved(program: Seq<Instruction>, i: int) -> bool {
    program[i] matches Instruction::StartWhileNotZero { target_pointer } && {
        &&& i < target_pointer < program.len()
        &&& program[target_pointer as int] == Instruction::EndWhileNotZero {
            target_pointer: i as usize,
        }
    }
}

/// The start of a fixed-count loop at `i` and its end resolve to each other.
pub open spec fn for_start_resolved(program: Seq<Instruction>, i: int) -> bool {
    program[i] matches Instruction::StartFor { target_pointer } && {
        &&& i < target_pointer < program.len()
        &&& program[target_pointer as int] matches Instruction::EndFor { target_pointer: back, .. }
        &&& back == i
    }
}

/// Every loop start and loop end of the program is paired with its
/// counterpart: a start points forward at its end, which points back at it.
pub open spec fn loops_resolved(program: Seq<Instruction>) -> bool {
    forall|i: int|
        0 <= i < program.len() ==> match #[trigger] program[i] {
            Instruction::StartWhileNotZero { .. } => while_start_resolved(program, i),
            Instruction::EndWhileNotZero { target_pointer } => {
                &&& target_pointer < i
                &&& program[target_pointer as int] == Instruction::StartWhileNotZero {
                    target_pointer: i as usize,
                }
            },
            Instruction::StartFor { .. } => for_start_resolved(program, i),
            Instruction::EndFor { target_pointer, .. } => {
                &&& target_pointer < i
                &&& program[target_pointer as int] == Instruction::StartFor {
                    target_pointer: i as usize,
                }
            },
            _ => true,
        }
}

/// A bot: a compiled program that can take part in any number of rounds.
#[derive(Debug)]
pub struct Bot {
    program: Vec<Instruction>,
}

impl Bot {
    pub fn new(program: Vec<Instruction>) -> (bot: Bot)
        ensures
            bot.program() == program@,
    {
        Bot { program }
    }

    pub closed spec fn program(&self) -> Seq<Instruction> {
        self.program@
    }

    pub fn get_program(&self) -> (program: &Vec<Instruction>)
        ensures
            program@ == self.program(),
    {
        &self.program
    }
}

} // verus!
