use vstd::prelude::*;

use crate::instruction::{targets_in_bounds, Bot, Instruction};
use crate::round::{play, round_result, RoundParams, RoundResult};

verus! {

/// A complete game has rounds with every tape length from `MIN_TAPE_LENGTH`
/// to `MAX_TAPE_LENGTH`, both included.
pub const MIN_TAPE_LENGTH: u32 = 10;

/// See `MIN_TAPE_LENGTH`.
pub const MAX_TAPE_LENGTH: u32 = 30;

/// The step budget of each round of a complete game.
pub const COMPLETE_GAME_MAX_STEPS: u32 = 100_000;

/// Number of rounds of a complete game: each tape length, with and without
/// reversed polarity.
pub const COMPLETE_GAME_ROUNDS: usize = 42;

/// The score of a game. A decisive round gives its winner one point and takes
/// one from its loser; a draw changes nothing.
#[derive(Debug, Clone, Copy, PartialEq, Eq, Structural)]
pub struct GameResult {
    pub bot_a_points: i8,
    pub bot_b_points: i8,
}

/// What one round adds to the points of each side.
pub open spec fn round_points(r: RoundResult) -> (int, int) {
    if r.bot_a_lost != r.bot_b_lost {
        (if r.bot_a_lost { -1int } else { 1int }, if r.bot_b_lost { -1int } else { 1int })
    } else {
        (0, 0)
    }
}

/// The points of each side after the given rounds.
pub open spec fn game_points(
    program_a: Seq<Instruction>,
    program_b: Seq<Instruction>,
    rounds: Seq<RoundParams>,
) -> (int, int)
    decreases rounds.len(),
{
    if rounds.len() == 0 {
        (0, 0)
    } else {
        let (a, b) = game_points(program_a, program_b, rounds.drop_last());
        let (da, db) = round_points(round_result(program_a, program_b, rounds.last()));
        (a + da, b + db)
    }
}

impl GameResult {
    pub fn new() -> (g: GameResult)
        ensures
            g == (GameResult { bot_a_points: 0, bot_b_points: 0 }),
    {
        GameResult { bot_a_points: 0, bot_b_points: 0 }
    }

    /// Adds the points of one round.
    pub fn add_result_to_total(&mut self, round_result: &RoundResult)
        requires
            i8::MIN < old(self).bot_a_points < i8::MAX,
            i8::MIN < old(self).bot_b_points < i8::MAX,
        ensures
            final(self).bot_a_points == old(self).bot_a_points + round_points(*round_result).0,
            final(self).bot_b_points == old(self).bot_b_points + round_points(*round_result).1,
    {
        if round_result.has_winner() {
            self.bot_a_points = self.bot_a_points + if round_result.bot_a_lost {
                -1
            } else {
                1
            };
            self.bot_b_points = self.bot_b_points + if round_result.bot_b_lost {
                -1
            } else {
                1
            };
        }
    }
}

/// Each round of a game gives its winner exactly the point that its loser
/// loses, so the two scores always add up to zero.
pub proof fn lemma_game_is_zero_sum(
    program_a: Seq<Instruction>,
    program_b: Seq<Instruction>,
    rounds: Seq<RoundParams>,
)
    ensures
        game_points(program_a, program_b, rounds).0 + game_points(program_a, program_b, rounds).1
            == 0,
        -rounds.len() <= game_points(program_a, program_b, rounds).0 <= rounds.len(),
    decreases rounds.len(),
{
    if rounds.len() > 0 {
        lemma_game_is_zero_sum(program_a, program_b, rounds.drop_last());
    }
}

/// Plays one round per entry of `rounds` and adds up the points.
pub fn run_game(bot_a: &Bot, bot_b: &Bot, rounds: &Vec<RoundParams>) -> (g: GameResult)
    requires
        targets_in_bounds(bot_a.program()),
        targets_in_bounds(bot_b.program()),
        rounds.len() < i8::MAX,
        forall|i: int| 0 <= i < rounds.len() ==> #[trigger] rounds@[i].tape_length >= 2,
    ensures
        (g.bot_a_points as int, g.bot_b_points as int) == game_points(
            bot_a.program(),
            bot_b.program(),
            rounds@,
        ),
        g.bot_a_points == -g.bot_b_points,
{
    let mut game_result = GameResult::new();
    let mut i: usize = 0;
    while i < rounds.len()
        invariant
            i <= rounds.len() < i8::MAX,
            targets_in_bounds(bot_a.program()),
            targets_in_bounds(bot_b.program()),
            forall|j: int| 0 <= j < rounds.len() ==> #[trigger] rounds@[j].tape_length >= 2,
            (game_result.bot_a_points as int, game_result.bot_b_points as int) == game_points(
                bot_a.program(),
                bot_b.program(),
                rounds@.take(i as int),
            ),
        decreases rounds.len() - i,
    {
        proof {
            lemma_game_is_zero_sum(bot_a.program(), bot_b.program(), rounds@.take(i as int));
        }
        let round_result = play(bot_a, bot_b, &rounds[i]);
        game_result.add_result_to_total(&round_result);
        i = i + 1;
        assert(rounds@.take(i as int).drop_last() == rounds@.take(i - 1));
    }
    proof {
        assert(rounds@.take(i as int) == rounds@);
        lemma_game_is_zero_sum(bot_a.program(), bot_b.program(), rounds@);
    }
    game_result
}

/// The rounds of a complete game, in order: for each tape length from the
/// shortest up, first normal then reversed polarity.
pub open spec fn complete_rounds() -> Seq<RoundParams> {
    Seq::new(
        COMPLETE_GAME_ROUNDS as nat,
        |i: int|
            RoundParams {
                tape_length: (MIN_TAPE_LENGTH + i / 2) as u32,
                invert_polarity: i % 2 == 1,
                max_steps: COMPLETE_GAME_MAX_STEPS,
            },
    )
}

/// Hands out the rounds of a complete game one by one.
pub struct AllRounds {
    tape_length: u32,
    invert_polarity: bool,
}

impl AllRounds {
    /// How many rounds have been handed out.
    pub closed spec fn index(&self) -> int {
        (self.tape_length - MIN_TAPE_LENGTH) * 2 + if self.invert_polarity {
            1int
        } else {
            0
        }
    }

    pub closed spec fn wf(&self) -> bool {
        &&& MIN_TAPE_LENGTH <= self.tape_length <= MAX_TAPE_LENGTH + 1
        &&& self.tape_length == MAX_TAPE_LENGTH + 1 ==> !self.invert_polarity
    }

    pub fn new() -> (r: AllRounds)
        ensures
            r.wf(),
            r.index() == 0,
    {
        AllRounds { tape_length: MIN_TAPE_LENGTH, invert_polarity: false }
    }

    fn current_item(&self) -> (r: RoundParams)
        requires
            self.wf(),
            self.index() < COMPLETE_GAME_ROUNDS,
        ensures
            r == complete_rounds()[self.index()],
    {
        RoundParams {
            tape_length: self.tape_length,
            invert_polarity: self.invert_polarity,
            max_steps: COMPLETE_GAME_MAX_STEPS,
        }
    }

    fn update_state(&mut self)
        requires
            old(self).wf(),
            old(self).index() < COMPLETE_GAME_ROUNDS,
        ensures
            final(self).wf(),
            final(self).index() == old(self).index() + 1,
    {
        self.tape_length = if self.invert_polarity {
            self.tape_length + 1
        } else {
            self.tape_length
        };
        self.invert_polarity = !self.invert_polarity;
    }

    /// The next round of a complete game, or `None` once all were handed out.
    pub fn next(&mut self) -> (r: Option<RoundParams>)
        requires
            old(self).wf(),
        ensures
            final(self).wf(),
            old(self).index() < COMPLETE_GAME_ROUNDS ==> r == Some(
                complete_rounds()[old(self).index()],
            ) && final(self).index() == old(self).index() + 1,
            old(self).index() >= COMPLETE_GAME_ROUNDS ==> r is None && final(self).index()
                == old(self).index(),
    {
        if self.tape_length <= MAX_TAPE_LENGTH {
            let params = self.current_item();
            self.update_state();
            Some(params)
        } else {
            None
        }
    }

    /// All rounds not handed out yet, in order.
    pub fn collect_all(self) -> (rounds: Vec<RoundParams>)
        requires
            self.wf(),
        ensures
            rounds@ == complete_rounds().skip(self.index()),
    {
        let ghost start = self.index();
        let mut remaining = self;
        assert(complete_rounds().len() == COMPLETE_GAME_ROUNDS);
        let mut rounds: Vec<RoundParams> = Vec::new();
        loop
            invariant
                remaining.wf(),
                0 <= start <= remaining.index() <= COMPLETE_GAME_ROUNDS,
                start == self.index(),
                complete_rounds().len() == COMPLETE_GAME_ROUNDS,
                rounds@ == complete_rounds().subrange(start, remaining.index()),
            decreases COMPLETE_GAME_ROUNDS - remaining.index(),
        {
            match remaining.next() {
                Some(params) => {
                    rounds.push(params);
                    assert(rounds@ =~= complete_rounds().subrange(start, remaining.index()));
                },
                None => {
                    assert(rounds@ =~= complete_rounds().skip(start));
                    return rounds;
                },
            }
        }
    }
}

/// Plays a complete game: one round for each tape length of the complete
/// range and each polarity of the second bot.
pub fn run_complete_game(bot_a: &Bot, bot_b: &Bot) -> (g: GameResult)
    requires
        targets_in_bounds(bot_a.program()),
        targets_in_bounds(bot_b.program()),
    ensures
        (g.bot_a_points as int, g.bot_b_points as int) == game_points(
            bot_a.program(),
            bot_b.program(),
            complete_rounds(),
        ),
        g.bot_a_points == -g.bot_b_points,
{
    let rounds = AllRounds::new().collect_all();
    assert(complete_rounds().skip(0) == complete_rounds());
    run_game(bot_a, bot_b, &rounds)
}

} // verus!
