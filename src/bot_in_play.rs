use vstd::prelude::*;

use crate::instruction::{targets_in_bounds, Bot, Instruction};

verus! {

/// Which edge of the tape a bot starts from. A bot writes its code as if it
/// started at cell zero; the orientation turns its moves into moves on the
/// tape.
#[derive(Debug, Clone, Copy, PartialEq, Eq, Structural)]
pub enum Orientation {
    /// Starts at the first cell; moving forward increases the position.
    Normal,
    /// Starts at the last cell; moving forward decreases the position.
    Reversed,
}

impl Orientation {
    pub open spec fn movement(self, direction: int) -> int {
        match self {
            Orientation::Normal => direction,
            Orientation::Reversed => -direction,
        }
    }

    /// Turns a move relative to the bot (forward towards the enemy flag,
    /// back towards its own) into a move relative to the tape.
    pub fn calc_movement_relative_to_tape(&self, direction: i32) -> (r: i32)
        requires
            direction != i32::MIN,
        ensures
            r == self.movement(direction as int),
    {
        match self {
            Orientation::Normal => direction,
            Orientation::Reversed => -direction,
        }
    }
}

/// In half of the rounds one bot has its polarity reversed, which swaps the
/// meaning of `+` and `-` for it.
#[derive(Debug, Clone, Copy, PartialEq, Eq, Structural)]
pub enum Polarity {
    /// `+` increases the cell, `-` decreases it.
    Normal,
    /// `+` decreases the cell, `-` increases it.
    Reversed,
}

impl Polarity {
    pub open spec fn delta(self, addend: int) -> int {
        match self {
            Polarity::Normal => addend,
            Polarity::Reversed => -addend,
        }
    }

    /// Turns a change of a cell meant by the bot into the change made on the
    /// tape.
    pub fn mutation_relative_to_tape(&self, addend: i8) -> (r: i8)
        requires
            addend != i8::MIN,
        ensures
            r == self.delta(addend as int),
    {
        match self {
            Polarity::Normal => addend,
            Polarity::Reversed => -addend,
        }
    }
}

/// A change that a bot asks for: add `addend` to the cell at `index`.
///
/// Bots do not write to the tape themselves; the arena applies the changes of
/// both bots after both have read the same tape.
#[derive(Debug, Clone, Copy, PartialEq, Eq, Structural)]
pub struct Mutation {
    /// Index of the cell to change.
    pub index: usize,
    /// What to add to the cell: one or minus one.
    pub addend: i8,
}

impl Mutation {
    pub fn new(index: usize, addend: i8) -> (m: Mutation)
        ensures
            m == (Mutation { index, addend }),
    {
        Mutation { index, addend }
    }

    pub fn get_index(&self) -> (r: usize)
        ensures
            r == self.index,
    {
        self.index
    }

    pub fn get_addend(&self) -> (r: i8)
        ensures
            r == self.addend,
    {
        self.addend
    }
}

/// The most control transitions of fixed-count loops that one turn resolves.
/// A program would need centuries of computing to reach it; where one does,
/// the turn ends on the control instruction reached, as a pass.
pub const FOR_LOOP_FUEL: u64 = u64::MAX;

/// The state of one bot during one round, as the rules see it.
pub struct AgentModel {
    /// Position on the tape; outside the tape once the bot has fallen off.
    pub pos: int,
    /// Index of the next instruction.
    pub code_pointer: int,
    /// Passes made so far by the fixed-count loops that are running,
    /// innermost last.
    pub counters: Seq<usize>,
    pub orientation: Orientation,
    pub polarity: Polarity,
}

/// Runs through the fixed-count loop instructions starting at `code_pointer`,
/// which take no turn, until an instruction that takes a turn or the end of
/// the program is reached. Gives the new instruction index and counters.
///
/// A start pushes a fresh counter. An end counts one more pass: once the
/// count reaches the loop's number of iterations it falls through, otherwise
/// it goes back to the first instruction of the body. An end reached with
/// no counter running counts its first pass.
pub open spec fn resolve_for_loops(
    program: Seq<Instruction>,
    code_pointer: int,
    counters: Seq<usize>,
    fuel: nat,
) -> (int, Seq<usize>)
    decreases fuel,
{
    if fuel == 0 || code_pointer < 0 || code_pointer >= program.len() {
        (code_pointer, counters)
    } else {
        match program[code_pointer] {
            Instruction::StartFor { .. } => resolve_for_loops(
                program,
                code_pointer + 1,
                counters.push(0),
                (fuel - 1) as nat,
            ),
            Instruction::EndFor { target_pointer, nr_iterations } => {
                let count: int = if counters.len() > 0 {
                    counters.last() as int
                } else {
                    0
                };
                let rest = if counters.len() > 0 {
                    counters.drop_last()
                } else {
                    counters
                };
                if count + 1 >= nr_iterations {
                    resolve_for_loops(program, code_pointer + 1, rest, (fuel - 1) as nat)
                } else {
                    resolve_for_loops(
                        program,
                        target_pointer + 1,
                        rest.push((count + 1) as usize),
                        (fuel - 1) as nat,
                    )
                }
            },
            _ => (code_pointer, counters),
        }
    }
}

/// One turn of a bot: the bot as it stands after the turn, and the change of
/// a cell it asks for. `cell_is_zero` tells whether the cell under the bot
/// was zero when the turn began.
pub open spec fn agent_step(program: Seq<Instruction>, a: AgentModel, cell_is_zero: bool) -> (
    AgentModel,
    Option<Mutation>,
) {
    if a.code_pointer >= program.len() {
        (a, None)
    } else {
        let (cp, counters) = resolve_for_loops(
            program,
            a.code_pointer,
            a.counters,
            FOR_LOOP_FUEL as nat,
        );
        let resolved = AgentModel { code_pointer: cp, counters, ..a };
        if cp >= program.len() {
            (resolved, None)
        } else {
            let next = AgentModel { code_pointer: cp + 1, ..resolved };
            match program[cp] {
                Instruction::MoveBack => (
                    AgentModel { pos: a.pos + a.orientation.movement(-1), ..next },
                    None,
                ),
                Instruction::MoveForward => (
                    AgentModel { pos: a.pos + a.orientation.movement(1), ..next },
                    None,
                ),
                Instruction::Increment => (
                    next,
                    Some(Mutation { index: a.pos as usize, addend: a.polarity.delta(1) as i8 }),
                ),
                Instruction::Decrement => (
                    next,
                    Some(Mutation { index: a.pos as usize, addend: a.polarity.delta(-1) as i8 }),
                ),
                Instruction::StartWhileNotZero { target_pointer } => if cell_is_zero {
                    (AgentModel { code_pointer: target_pointer + 1, ..resolved }, None)
                } else {
                    (next, None)
                },
                Instruction::EndWhileNotZero { target_pointer } => if !cell_is_zero {
                    (AgentModel { code_pointer: target_pointer + 1, ..resolved }, None)
                } else {
                    (next, None)
                },
                _ => (next, None),
            }
        }
    }
}

fn is_for_control(instruction: &Instruction) -> (r: bool)
    ensures
        r == (instruction is StartFor || instruction is EndFor),
{
    match instruction {
        Instruction::StartFor { .. } => true,
        Instruction::EndFor { .. } => true,
        _ => false,
    }
}

/// A bot during one round: its program and where it stands in it and on the
/// tape.
#[derive(Debug)]
pub struct BotInPlay<'a> {
    bot: &'a Bot,
    pos: i64,
    code_pointer: usize,
    orientation: Orientation,
    polarity: Polarity,
    iter_stack: Vec<usize>,
}

impl<'a> View for BotInPlay<'a> {
    type V = AgentModel;

    closed spec fn view(&self) -> AgentModel {
        AgentModel {
            pos: self.pos as int,
            code_pointer: self.code_pointer as int,
            counters: self.iter_stack@,
            orientation: self.orientation,
            polarity: self.polarity,
        }
    }
}

/// A bot about to take its first turn on a tape of `length` cells.
pub open spec fn initial_agent(length: int, orientation: Orientation, polarity: Polarity) -> AgentModel {
    AgentModel {
        pos: match orientation {
            Orientation::Normal => 0,
            Orientation::Reversed => length - 1,
        },
        code_pointer: 0,
        counters: Seq::empty(),
        orientation,
        polarity,
    }
}

impl<'a> BotInPlay<'a> {
    pub closed spec fn program(&self) -> Seq<Instruction> {
        self.bot.program()
    }

    pub fn new(bot: &'a Bot, length: i64, orientation: Orientation, polarity: Polarity) -> (b:
        BotInPlay<'a>)
        requires
            length > i64::MIN,
        ensures
            b@ == initial_agent(length as int, orientation, polarity),
            b.program() == bot.program(),
    {
        let pos: i64 = match orientation {
            Orientation::Normal => 0,
            Orientation::Reversed => length - 1,
        };
        BotInPlay { bot, pos, code_pointer: 0, orientation, polarity, iter_stack: Vec::new() }
    }

    /// The position of a bot that stands on the tape.
    pub fn get_pos(&self) -> (r: usize)
        requires
            0 <= self@.pos <= usize::MAX,
        ensures
            r == self@.pos,
    {
        self.pos as usize
    }

    pub fn program_has_ended(&self) -> (r: bool)
        ensures
            r == (self@.code_pointer >= self.program().len()),
    {
        self.code_pointer >= self.bot.get_program().len()
    }

    pub fn increment_code_pointer(&mut self)
        requires
            old(self)@.code_pointer < usize::MAX,
        ensures
            final(self)@ == (AgentModel { code_pointer: old(self)@.code_pointer + 1, ..old(self)@ }),
            final(self).program() == old(self).program(),
    {
        self.code_pointer = self.code_pointer + 1;
    }

    pub fn bot_is_off_tape(&self, tape_length: &i64) -> (r: bool)
        ensures
            r == (self@.pos < 0 || self@.pos >= *tape_length),
    {
        self.pos < 0 || self.pos >= *tape_length
    }

    pub fn get_bot(&self) -> (r: &Bot)
        ensures
            r.program() == self.program(),
    {
        self.bot
    }

    /// Runs through the fixed-count loop instructions at the code pointer,
    /// which take no turn.
    fn handle_for_loop(&mut self)
        requires
            targets_in_bounds(old(self).program()),
            old(self)@.code_pointer <= old(self).program().len(),
        ensures
            final(self).program() == old(self).program(),
            ({
                let (cp, counters) = resolve_for_loops(
                    old(self).program(),
                    old(self)@.code_pointer,
                    old(self)@.counters,
                    FOR_LOOP_FUEL as nat,
                );
                final(self)@ == AgentModel { code_pointer: cp, counters, ..old(self)@ }
            }),
            0 <= final(self)@.code_pointer <= final(self).program().len(),
    {
        let ghost start = self@;
        let bot = self.bot;
        let program = bot.get_program();
        let mut fuel: u64 = FOR_LOOP_FUEL;
        while fuel > 0 && self.code_pointer < program.len() && is_for_control(
            &program[self.code_pointer],
        )
            invariant
                program@ == self.program(),
                self.program() == old(self).program(),
                targets_in_bounds(program@),
                self.code_pointer <= program.len(),
                self@.pos == start.pos,
                self@.orientation == start.orientation,
                self@.polarity == start.polarity,
                resolve_for_loops(program@, self@.code_pointer, self@.counters, fuel as nat)
                    == resolve_for_loops(
                    program@,
                    start.code_pointer,
                    start.counters,
                    FOR_LOOP_FUEL as nat,
                ),
            decreases fuel,
        {
            match program[self.code_pointer] {
                Instruction::StartFor { .. } => {
                    self.iter_stack.push(0);
                    self.code_pointer = self.code_pointer + 1;
                },
                Instruction::EndFor { target_pointer, nr_iterations } => {
                    let count: usize = match self.iter_stack.pop() {
                        Some(c) => c,
                        None => 0,
                    };
                    if nr_iterations == 0 || count >= nr_iterations - 1 {
                        self.code_pointer = self.code_pointer + 1;
                    } else {
                        self.iter_stack.push(count + 1);
                        self.code_pointer = target_pointer + 1;
                    }
                },
                _ => {},
            }
            fuel = fuel - 1;
        }
    }

    /// Takes one turn: runs through the fixed-count loop instructions, then
    /// executes the instruction reached. Returns the change of a cell asked
    /// for, if any. A bot whose program has ended does nothing.
    pub fn execute_code(&mut self, current_cell_is_zero: bool) -> (r: Option<Mutation>)
        requires
            targets_in_bounds(old(self).program()),
            old(self)@.code_pointer <= old(self).program().len(),
            0 <= old(self)@.pos < i64::MAX,
            old(self)@.pos <= usize::MAX,
        ensures
            (final(self)@, r) == agent_step(old(self).program(), old(self)@, current_cell_is_zero),
            final(self).program() == old(self).program(),
            0 <= final(self)@.code_pointer <= final(self).program().len(),
    {
        if self.program_has_ended() {
            return None;
        }
        self.handle_for_loop();
        if self.program_has_ended() {
            return None;
        }
        let bot = self.bot;
        let program = bot.get_program();
        let instruction = program[self.code_pointer];
        let result = match instruction {
            Instruction::MoveBack => {
                self.pos = self.pos + self.orientation.calc_movement_relative_to_tape(-1) as i64;
                None
            },
            Instruction::MoveForward => {
                self.pos = self.pos + self.orientation.calc_movement_relative_to_tape(1) as i64;
                None
            },
            Instruction::Increment => Some(
                Mutation::new(self.pos as usize, self.polarity.mutation_relative_to_tape(1)),
            ),
            Instruction::Decrement => Some(
                Mutation::new(self.pos as usize, self.polarity.mutation_relative_to_tape(-1)),
            ),
            Instruction::StartWhileNotZero { target_pointer } => {
                if current_cell_is_zero {
                    self.code_pointer = target_pointer;
                }
                None
            },
            Instruction::EndWhileNotZero { target_pointer } => {
                if !current_cell_is_zero {
                    self.code_pointer = target_pointer;
                }
                None
            },
            _ => None,
        };
        assert(self.code_pointer < program.len());
        self.increment_code_pointer();
        result
    }
}

} // verus!
