use vstd::prelude::*;

use crate::arena::{arena_step, arena_wf, initial_arena, sink_state, Arena, ArenaModel};
use crate::instruction::{targets_in_bounds, Bot, Instruction};

verus! {

/// The conditions of one round.
#[derive(Debug, Clone, Copy, PartialEq, Eq, Structural)]
pub struct RoundParams {
    /// Number of cells on the tape; at least two.
    pub tape_length: u32,
    /// Whether the second bot plays with reversed polarity.
    pub invert_polarity: bool,
    /// The step budget: the round is a draw once this many steps were taken.
    pub max_steps: u32,
}

/// The outcome of a step or a round: whether each side has lost.
///
/// Neither lost: the round goes on. One lost: the other side wins. Both
/// lost: a draw.
#[derive(Debug, Clone, Copy, PartialEq, Eq, Structural)]
pub struct RoundResult {
    pub bot_a_lost: bool,
    pub bot_b_lost: bool,
}

impl RoundResult {
    pub open spec fn finished(self) -> bool {
        self.bot_a_lost || self.bot_b_lost
    }

    pub fn new(bot_a_lost: bool, bot_b_lost: bool) -> (r: RoundResult)
        ensures
            r == (RoundResult { bot_a_lost, bot_b_lost }),
    {
        RoundResult { bot_a_lost, bot_b_lost }
    }

    pub fn round_ongoing() -> (r: RoundResult)
        ensures
            r == (RoundResult { bot_a_lost: false, bot_b_lost: false }),
    {
        RoundResult::new(false, false)
    }

    pub fn start_bot_wins() -> (r: RoundResult)
        ensures
            r == (RoundResult { bot_a_lost: false, bot_b_lost: true }),
    {
        RoundResult::new(false, true)
    }

    pub fn end_bot_wins() -> (r: RoundResult)
        ensures
            r == (RoundResult { bot_a_lost: true, bot_b_lost: false }),
    {
        RoundResult::new(true, false)
    }

    pub fn draw() -> (r: RoundResult)
        ensures
            r == (RoundResult { bot_a_lost: true, bot_b_lost: true }),
    {
        RoundResult::new(true, true)
    }

    /// A round has a winner when exactly one side lost.
    pub fn has_winner(&self) -> (r: bool)
        ensures
            r == (self.bot_a_lost != self.bot_b_lost),
    {
        self.bot_a_lost != self.bot_b_lost
    }

    pub fn has_loser(&self) -> (r: bool)
        ensures
            r == self.finished(),
    {
        self.bot_a_lost || self.bot_b_lost
    }

    /// A round is finished as soon as at least one side lost.
    pub fn round_is_finished(&self) -> (r: bool)
        ensures
            r == self.finished(),
    {
        self.bot_a_lost || self.bot_b_lost
    }
}

/// The result of a round played from `s`: the arena is stepped until a step
/// reports a finished result.
pub open spec fn round_outcome(s: ArenaModel) -> RoundResult
    decreases s.max_steps - s.step_nr,
{
    let (next, r) = arena_step(s);
    if r.finished() || s.step_nr >= s.max_steps {
        r
    } else {
        round_outcome(next)
    }
}

/// The result of a round between two programs.
pub open spec fn round_result(
    program_a: Seq<Instruction>,
    program_b: Seq<Instruction>,
    params: RoundParams,
) -> RoundResult {
    round_outcome(initial_arena(program_a, program_b, params))
}

/// Playing the same programs under the same parameters twice gives the same
/// result: a round depends on nothing else.
pub proof fn lemma_round_is_deterministic(
    program_a: Seq<Instruction>,
    program_b: Seq<Instruction>,
    params: RoundParams,
    other_a: Seq<Instruction>,
    other_b: Seq<Instruction>,
    other_params: RoundParams,
)
    requires
        program_a == other_a,
        program_b == other_b,
        params == other_params,
    ensures
        round_result(program_a, program_b, params) == round_result(other_a, other_b, other_params),
{
}

/// With a step budget of zero the round is a draw at the first step, which
/// executes nothing.
pub proof fn lemma_zero_budget_is_a_draw(
    program_a: Seq<Instruction>,
    program_b: Seq<Instruction>,
    params: RoundParams,
)
    requires
        params.max_steps == 0,
    ensures
        arena_step(initial_arena(program_a, program_b, params)) == (
            initial_arena(program_a, program_b, params),
            RoundResult { bot_a_lost: true, bot_b_lost: true },
        ),
        round_result(program_a, program_b, params) == (RoundResult {
            bot_a_lost: true,
            bot_b_lost: true,
        }),
{
}

/// Two empty programs draw on any tape: the round starts in a sink state,
/// since no instruction can run and both flags start non-zero.
pub proof fn lemma_empty_programs_draw(params: RoundParams)
    requires
        params.tape_length >= 2,
    ensures
        round_result(Seq::empty(), Seq::empty(), params) == (RoundResult {
            bot_a_lost: true,
            bot_b_lost: true,
        }),
{
    let s = initial_arena(Seq::empty(), Seq::empty(), params);
    assert(s.tape[0] == i8::MIN);
    assert(s.tape[s.tape.len() - 1] == i8::MIN);
    assert(sink_state(s));
}

/// A bot whose program is a single move back steps off its own edge at the
/// first step and loses to an empty program, from either side.
pub proof fn lemma_single_move_back_loses(params: RoundParams)
    requires
        params.tape_length >= 2,
        params.max_steps >= 1,
    ensures
        round_result(seq![Instruction::MoveBack], Seq::empty(), params) == (RoundResult {
            bot_a_lost: true,
            bot_b_lost: false,
        }),
        round_result(Seq::empty(), seq![Instruction::MoveBack], params) == (RoundResult {
            bot_a_lost: false,
            bot_b_lost: true,
        }),
{
    let s = initial_arena(seq![Instruction::MoveBack], Seq::empty(), params);
    assert(s.tape[s.tape.len() - 1] == i8::MIN);
    assert(s.tape[0] == i8::MIN);
    let t = initial_arena(Seq::empty(), seq![Instruction::MoveBack], params);
    assert(t.tape[t.tape.len() - 1] == i8::MIN);
    assert(t.tape[0] == i8::MIN);
}

/// Two bots that each make a single move back leave the tape at the same
/// step, from opposite edges: a draw.
pub proof fn lemma_both_move_back_draw(params: RoundParams)
    requires
        params.tape_length >= 2,
        params.max_steps >= 1,
    ensures
        round_result(seq![Instruction::MoveBack], seq![Instruction::MoveBack], params) == (
        RoundResult { bot_a_lost: true, bot_b_lost: true }),
{
    let s = initial_arena(seq![Instruction::MoveBack], seq![Instruction::MoveBack], params);
    assert(s.tape[s.tape.len() - 1] == i8::MIN);
    assert(s.tape[0] == i8::MIN);
}

/// Plays one round between `bot_a`, which starts at the first cell, and
/// `bot_b`, which starts at the last, and returns its result.
pub fn play(bot_a: &Bot, bot_b: &Bot, round_params: &RoundParams) -> (r: RoundResult)
    requires
        round_params.tape_length >= 2,
        targets_in_bounds(bot_a.program()),
        targets_in_bounds(bot_b.program()),
    ensures
        r == round_result(bot_a.program(), bot_b.program(), *round_params),
        r.finished(),
{
    let mut arena = Arena::new(bot_a, bot_b, round_params);
    loop
        invariant
            arena_wf(arena@),
            round_outcome(arena@) == round_result(
                bot_a.program(),
                bot_b.program(),
                *round_params,
            ),
        decreases arena@.max_steps - arena@.step_nr,
    {
        let ghost before = arena@;
        let r = arena.step();
        if r.round_is_finished() {
            return r;
        }
        assert(before.step_nr < before.max_steps);
    }
}

} // verus!
