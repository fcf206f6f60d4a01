use vstd::prelude::*;

use crate::bot_in_play::{
    agent_step,
    initial_agent,
    AgentModel,
    BotInPlay,
    Mutation,
    Orientation,
    Polarity,
};
use crate::instruction::{targets_in_bounds, Bot, Instruction};
use crate::round::{RoundParams, RoundResult};

verus! {

/// A round in progress, as the rules see it.
pub struct ArenaModel {
    pub tape: Seq<i8>,
    /// The bot that starts at the first cell.
    pub a: AgentModel,
    /// The bot that starts at the last cell.
    pub b: AgentModel,
    pub program_a: Seq<Instruction>,
    pub program_b: Seq<Instruction>,
    /// Steps taken so far.
    pub step_nr: int,
    /// The step budget.
    pub max_steps: int,
}

/// A tape of `length` cells: both flags at the lowest value, the rest zero.
pub open spec fn initial_tape(length: nat) -> Seq<i8> {
    Seq::new(length, |i: int| if i == 0 || i == length - 1 { i8::MIN } else { 0i8 })
}

pub open spec fn initial_arena(
    program_a: Seq<Instruction>,
    program_b: Seq<Instruction>,
    params: RoundParams,
) -> ArenaModel {
    let length = params.tape_length as int;
    ArenaModel {
        tape: initial_tape(length as nat),
        a: initial_agent(length, Orientation::Normal, Polarity::Normal),
        b: initial_agent(
            length,
            Orientation::Reversed,
            if params.invert_polarity {
                Polarity::Reversed
            } else {
                Polarity::Normal
            },
        ),
        program_a,
        program_b,
        step_nr: 0,
        max_steps: params.max_steps as int,
    }
}

pub open spec fn on_tape(tape: Seq<i8>, pos: int) -> bool {
    0 <= pos < tape.len()
}

pub open spec fn agent_wf(program: Seq<Instruction>, tape: Seq<i8>, a: AgentModel) -> bool {
    &&& targets_in_bounds(program)
    &&& 0 <= a.code_pointer <= program.len()
    &&& on_tape(tape, a.pos)
}

/// A round that can take another step: both bots stand on the tape and the
/// step count has not passed the budget.
pub open spec fn arena_wf(s: ArenaModel) -> bool {
    &&& 2 <= s.tape.len() <= u32::MAX
    &&& agent_wf(s.program_a, s.tape, s.a)
    &&& agent_wf(s.program_b, s.tape, s.b)
    &&& 0 <= s.step_nr <= s.max_steps <= u32::MAX
}

pub open spec fn flag_a_zeroed(tape: Seq<i8>) -> bool {
    tape[0] == 0
}

pub open spec fn flag_b_zeroed(tape: Seq<i8>) -> bool {
    tape[tape.len() - 1] == 0
}

/// Both programs have ended and no flag is zero: nothing can change any more.
pub open spec fn sink_state(s: ArenaModel) -> bool {
    &&& !flag_a_zeroed(s.tape)
    &&& !flag_b_zeroed(s.tape)
    &&& s.a.code_pointer >= s.program_a.len()
    &&& s.b.code_pointer >= s.program_b.len()
}

/// The tape after a bot's change, which wraps around on overflow.
pub open spec fn apply_mutation(tape: Seq<i8>, m: Option<Mutation>) -> Seq<i8> {
    match m {
        Some(m) => if m.index < tape.len() {
            tape.update(m.index as int, tape[m.index as int].wrapping_add(m.addend))
        } else {
            tape
        },
        None => tape,
    }
}

/// One step of the round: the arena after it and the result it reports.
///
/// With the budget spent, or in a sink state, the step is a draw and changes
/// nothing. Otherwise both bots take a turn against the same tape, then both
/// changes are applied. A side loses when its bot has left the tape, or when
/// its flag was zero before the step and still is after it.
pub open spec fn arena_step(s: ArenaModel) -> (ArenaModel, RoundResult) {
    if s.step_nr >= s.max_steps || sink_state(s) {
        (s, RoundResult { bot_a_lost: true, bot_b_lost: true })
    } else {
        let (a, mutation_a) = agent_step(s.program_a, s.a, s.tape[s.a.pos] == 0);
        let (b, mutation_b) = agent_step(s.program_b, s.b, s.tape[s.b.pos] == 0);
        let tape = apply_mutation(apply_mutation(s.tape, mutation_a), mutation_b);
        let next = ArenaModel { tape, a, b, step_nr: s.step_nr + 1, ..s };
        let a_lost = !on_tape(tape, a.pos) || (flag_a_zeroed(s.tape) && flag_a_zeroed(tape));
        let b_lost = !on_tape(tape, b.pos) || (flag_b_zeroed(s.tape) && flag_b_zeroed(tape));
        (next, RoundResult { bot_a_lost: a_lost, bot_b_lost: b_lost })
    }
}

/// A flag that is zero when a step begins and still zero when it ends loses
/// its side the round at that very step, provided budget is left; a flag
/// that is zero before the step but not after it loses nothing by itself.
pub proof fn lemma_flag_zero_for_a_step_loses(s: ArenaModel)
    requires
        arena_wf(s),
        s.step_nr < s.max_steps,
    ensures
        flag_a_zeroed(s.tape) ==> arena_step(s).0.step_nr == s.step_nr + 1 && (flag_a_zeroed(
            arena_step(s).0.tape,
        ) ==> arena_step(s).1.bot_a_lost),
        flag_b_zeroed(s.tape) ==> arena_step(s).0.step_nr == s.step_nr + 1 && (flag_b_zeroed(
            arena_step(s).0.tape,
        ) ==> arena_step(s).1.bot_b_lost),
        !sink_state(s) && !flag_a_zeroed(s.tape) && on_tape(
            arena_step(s).0.tape,
            arena_step(s).0.a.pos,
        ) ==> !arena_step(s).1.bot_a_lost,
        !sink_state(s) && !flag_b_zeroed(s.tape) && on_tape(
            arena_step(s).0.tape,
            arena_step(s).0.b.pos,
        ) ==> !arena_step(s).1.bot_b_lost,
{
}

/// The tape and the two bots of one round.
#[derive(Debug)]
pub struct Arena<'a> {
    max_steps: u32,
    step_nr: u32,
    tape: Vec<i8>,
    start_bot: BotInPlay<'a>,
    end_bot: BotInPlay<'a>,
}

impl<'a> View for Arena<'a> {
    type V = ArenaModel;

    closed spec fn view(&self) -> ArenaModel {
        ArenaModel {
            tape: self.tape@,
            a: self.start_bot@,
            b: self.end_bot@,
            program_a: self.start_bot.program(),
            program_b: self.end_bot.program(),
            step_nr: self.step_nr as int,
            max_steps: self.max_steps as int,
        }
    }
}

impl<'a> Arena<'a> {
    /// Sets up a round: `bot1` starts at the first cell with normal
    /// polarity, `bot2` at the last cell, with its polarity reversed when the
    /// parameters ask for it.
    pub fn new(bot1: &'a Bot, bot2: &'a Bot, round_params: &RoundParams) -> (arena: Arena<'a>)
        requires
            round_params.tape_length >= 2,
            targets_in_bounds(bot1.program()),
            targets_in_bounds(bot2.program()),
        ensures
            arena@ == initial_arena(bot1.program(), bot2.program(), *round_params),
            arena_wf(arena@),
    {
        let polarity = if round_params.invert_polarity {
            Polarity::Reversed
        } else {
            Polarity::Normal
        };
        let length: i64 = round_params.tape_length as i64;
        Arena {
            max_steps: round_params.max_steps,
            step_nr: 0,
            tape: Arena::make_tape(round_params.tape_length as usize),
            start_bot: BotInPlay::new(bot1, length, Orientation::Normal, Polarity::Normal),
            end_bot: BotInPlay::new(bot2, length, Orientation::Reversed, polarity),
        }
    }

    fn make_tape(length: usize) -> (tape: Vec<i8>)
        requires
            length >= 2,
        ensures
            tape@ == initial_tape(length as nat),
    {
        let mut tape: Vec<i8> = Vec::new();
        let mut i: usize = 0;
        while i < length
            invariant
                i <= length,
                tape@ == initial_tape(length as nat).take(i as int),
            decreases length - i,
        {
            if i == 0 || i == length - 1 {
                tape.push(i8::MIN);
            } else {
                tape.push(0);
            }
            i = i + 1;
            assert(tape@ == initial_tape(length as nat).take(i as int));
        }
        assert(tape@ == initial_tape(length as nat));
        tape
    }

    pub fn get_tape(&self) -> (tape: &Vec<i8>)
        ensures
            tape@ == self@.tape,
    {
        &self.tape
    }

    /// Overwrites one cell of the tape, to set up a position by hand.
    pub fn set_cell(&mut self, index: usize, value: i8)
        requires
            index < old(self)@.tape.len(),
        ensures
            final(self)@ == (ArenaModel {
                tape: old(self)@.tape.update(index as int, value),
                ..old(self)@
            }),
    {
        self.tape.set(index, value);
    }

    /// Takes one step of the round and reports its result.
    pub fn step(&mut self) -> (r: RoundResult)
        requires
            arena_wf(old(self)@),
        ensures
            (final(self)@, r) == arena_step(old(self)@),
            !r.finished() ==> arena_wf(final(self)@),
    {
        if self.exceeded_max_steps() || self.sink_state_detected() {
            return RoundResult::draw();
        }
        let flag_a_previously_zeroed = self.flag_a_zeroed();
        let flag_b_previously_zeroed = self.flag_b_zeroed();
        self.execute_instructions();
        self.generate_result(flag_a_previously_zeroed, flag_b_previously_zeroed)
    }

    fn execute_instructions(&mut self)
        requires
            arena_wf(old(self)@),
            old(self)@.step_nr < old(self)@.max_steps,
        ensures
            ({
                let s = old(self)@;
                let (a, mutation_a) = agent_step(s.program_a, s.a, s.tape[s.a.pos] == 0);
                let (b, mutation_b) = agent_step(s.program_b, s.b, s.tape[s.b.pos] == 0);
                final(self)@ == ArenaModel {
                    tape: apply_mutation(apply_mutation(s.tape, mutation_a), mutation_b),
                    a,
                    b,
                    step_nr: s.step_nr + 1,
                    ..s
                }
            }),
            0 <= final(self)@.a.code_pointer <= final(self)@.program_a.len(),
            0 <= final(self)@.b.code_pointer <= final(self)@.program_b.len(),
    {
        let mutation_1 = Arena::step_bot(&mut self.start_bot, &self.tape);
        let mutation_2 = Arena::step_bot(&mut self.end_bot, &self.tape);
        self.apply_mutation(mutation_1);
        self.apply_mutation(mutation_2);
        self.step_nr = self.step_nr + 1;
    }

    /// Lets a bot take its turn against the tape as it stood before the step.
    fn step_bot(bot_in_play: &mut BotInPlay, tape: &Vec<i8>) -> (r: Option<Mutation>)
        requires
            2 <= tape.len() <= u32::MAX,
            agent_wf(old(bot_in_play).program(), tape@, old(bot_in_play)@),
        ensures
            (final(bot_in_play)@, r) == agent_step(
                old(bot_in_play).program(),
                old(bot_in_play)@,
                tape@[old(bot_in_play)@.pos] == 0,
            ),
            final(bot_in_play).program() == old(bot_in_play).program(),
            0 <= final(bot_in_play)@.code_pointer <= final(bot_in_play).program().len(),
    {
        if bot_in_play.program_has_ended() {
            return None;
        }
        let cell_is_zero = Arena::cell_is_zero(tape, bot_in_play.get_pos());
        bot_in_play.execute_code(cell_is_zero)
    }

    fn cell_is_zero(tape: &Vec<i8>, index: usize) -> (r: bool)
        requires
            index < tape.len(),
        ensures
            r == (tape@[index as int] == 0),
    {
        tape[index] == 0
    }

    fn apply_mutation(&mut self, optional_cell_mutation: Option<Mutation>)
        ensures
            final(self)@ == (ArenaModel {
                tape: apply_mutation(old(self)@.tape, optional_cell_mutation),
                ..old(self)@
            }),
    {
        if let Some(mutation) = optional_cell_mutation {
            let index: usize = mutation.get_index();
            if index < self.tape.len() {
                let value = self.tape[index].wrapping_add(mutation.get_addend());
                self.tape.set(index, value);
            }
        }
    }

    fn generate_result(&self, flag_a_previously_zeroed: bool, flag_b_previously_zeroed: bool) -> (r:
        RoundResult)
        requires
            2 <= self@.tape.len() <= u32::MAX,
        ensures
            r == (RoundResult {
                bot_a_lost: !on_tape(self@.tape, self@.a.pos) || (flag_a_previously_zeroed
                    && flag_a_zeroed(self@.tape)),
                bot_b_lost: !on_tape(self@.tape, self@.b.pos) || (flag_b_previously_zeroed
                    && flag_b_zeroed(self@.tape)),
            }),
    {
        let length: i64 = self.tape.len() as i64;
        let start_bot_lost = self.start_bot.bot_is_off_tape(&length) || (flag_a_previously_zeroed
            && self.flag_a_zeroed());
        let end_bot_lost = self.end_bot.bot_is_off_tape(&length) || (flag_b_previously_zeroed
            && self.flag_b_zeroed());
        RoundResult::new(start_bot_lost, end_bot_lost)
    }

    fn exceeded_max_steps(&self) -> (r: bool)
        ensures
            r == (self@.step_nr >= self@.max_steps),
    {
        self.step_nr >= self.max_steps
    }

    /// Both programs have ended and neither flag is zero.
    fn sink_state_detected(&self) -> (r: bool)
        requires
            self@.tape.len() >= 2,
        ensures
            r == sink_state(self@),
    {
        let neither_flag_is_zero = !self.flag_a_zeroed() && !self.flag_b_zeroed();
        let both_ended = self.start_bot.program_has_ended() && self.end_bot.program_has_ended();
        neither_flag_is_zero && both_ended
    }

    fn flag_a_zeroed(&self) -> (r: bool)
        requires
            self@.tape.len() >= 2,
        ensures
            r == flag_a_zeroed(self@.tape),
    {
        self.tape[0] == 0
    }

    fn flag_b_zeroed(&self) -> (r: bool)
        requires
            self@.tape.len() >= 2,
        ensures
            r == flag_b_zeroed(self@.tape),
    {
        self.tape[self.tape.len() - 1] == 0
    }
}

} // verus!
