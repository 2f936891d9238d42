//! The tournament runner: N serial games between a fixed seat roster, with
//! per-seat aggregation of wins, money and peak memory, a one-way
//! disqualification latch, and early termination once at most one seat is
//! left standing.

use vstd::prelude::*;

verus! {

use crate::dice::DiceSource;
use crate::game::{
    GameError, MAX_SEATS, active_seats, count_active, lemma_active_seats_exists, simulate_game,
    sum_money, valid_game_rows,
};
use crate::strategy::Strategy;
use vstd::pervasive::VecAdditionalExecFns;

/// 64-bit money accumulation, saturating at the rails so that aggregation
/// stays total; no reachable tournament comes near them.
pub open spec fn sat_add_i64(a: i64, b: i64) -> i64 {
    if a + b > i64::MAX {
        i64::MAX
    } else if a + b < i64::MIN {
        i64::MIN
    } else {
        (a + b) as i64
    }
}

/// Executable saturating 64-bit addition.
pub fn sat_add_i64_exec(a: i64, b: i64) -> (r: i64)
    ensures
        r == sat_add_i64(a, b),
{
    if b >= 0 && a > i64::MAX - b {
        i64::MAX
    } else if b < 0 && a < i64::MIN - b {
        i64::MIN
    } else {
        a + b
    }
}

/// The mathematical state of a tournament in progress.
pub struct TournamentModel {
    /// Per seat: games won and net money so far.
    pub totals: Seq<(u32, i64)>,
    /// Per seat: the highest peak-memory reading reported so far.
    pub peak: Seq<u64>,
    /// Per seat: the one-way disqualification latch.
    pub disqualified: Seq<bool>,
    /// Games recorded so far.
    pub games_completed: int,
    /// Games the tournament was asked for.
    pub num_games: int,
}

/// One finished game, as the runner records it.
pub struct GameRecord {
    /// Per seat: wins (zero or one) and net money for the game.
    pub results: Seq<(u32, i64)>,
    /// Per seat: peak memory reported after the game.
    pub usage: Seq<u64>,
    /// Per seat: disqualified as of this game.
    pub disqualified: Seq<bool>,
}

/// The record covers exactly the model's seats.
pub open spec fn record_fits(m: TournamentModel, g: GameRecord) -> bool {
    &&& g.results.len() == m.totals.len()
    &&& g.usage.len() == m.totals.len()
    &&& g.disqualified.len() == m.totals.len()
}

/// A record the rules engine can produce for `n` seats: one row per seat,
/// zero-sum money, nothing paid to a disqualified seat, and rows that form a
/// payout table.
pub open spec fn game_record_ok(g: GameRecord, n: int) -> bool {
    &&& g.results.len() == n
    &&& g.usage.len() == n
    &&& g.disqualified.len() == n
    &&& sum_money(g.results) == 0
    &&& (forall|i: int| 0 <= i < n && g.disqualified[i] ==> (#[trigger] g.results[i]) == (0u32, 0i64))
    &&& valid_game_rows(g.results, g.disqualified)
}

/// The model of a fresh tournament over `n` seats.
pub open spec fn fresh_model(n: int, num_games: int) -> TournamentModel {
    TournamentModel {
        totals: Seq::new(n as nat, |i: int| (0u32, 0i64)),
        peak: Seq::new(n as nat, |i: int| 0u64),
        disqualified: Seq::new(n as nat, |i: int| false),
        games_completed: 0,
        num_games,
    }
}

/// The model after recording one game: wins and money accumulate, the peak
/// reading rises to the game's if higher, and the disqualification latch
/// takes in the game's.
pub open spec fn recorded(m: TournamentModel, g: GameRecord) -> TournamentModel {
    TournamentModel {
        totals: Seq::new(
            m.totals.len(),
            |i: int|
                (
                    (m.totals[i].0 + g.results[i].0) as u32,
                    sat_add_i64(m.totals[i].1, g.results[i].1),
                ),
        ),
        peak: Seq::new(
            m.totals.len(),
            |i: int|
                if g.usage[i] > m.peak[i] {
                    g.usage[i]
                } else {
                    m.peak[i]
                },
        ),
        disqualified: Seq::new(m.totals.len(), |i: int| m.disqualified[i] || g.disqualified[i]),
        games_completed: m.games_completed + 1,
        num_games: m.num_games,
    }
}

/// The model after recording a sequence of games, in order.
pub open spec fn recorded_all(m: TournamentModel, games: Seq<GameRecord>) -> TournamentModel
    decreases games.len(),
{
    if games.len() == 0 {
        m
    } else {
        recorded(recorded_all(m, games.drop_last()), games.last())
    }
}

/// A seat that every recorded game paid nothing — as the rules pay every
/// disqualified seat — ends the tournament with no wins and no money.
pub proof fn lemma_zero_rows_zero_totals(m: TournamentModel, games: Seq<GameRecord>, seat: int)
    requires
        0 <= seat < m.totals.len(),
        m.totals[seat] == (0u32, 0i64),
        forall|g: int| 0 <= g < games.len() ==> record_fits(m, #[trigger] games[g]),
        forall|g: int| 0 <= g < games.len() ==> (#[trigger] games[g]).results[seat] == (0u32, 0i64),
    ensures
        recorded_all(m, games).totals[seat] == (0u32, 0i64),
    decreases games.len(),
{
    if games.len() > 0 {
        lemma_zero_rows_zero_totals(m, games.drop_last(), seat);
        lemma_recorded_all_len(m, games.drop_last());
    }
}

/// Zero money columns sum to zero.
proof fn lemma_sum_money_zero_column(rows: Seq<(u32, i64)>)
    requires
        forall|i: int| 0 <= i < rows.len() ==> (#[trigger] rows[i]).1 == 0,
    ensures
        sum_money(rows) == 0,
    decreases rows.len(),
{
    if rows.len() > 0 {
        lemma_sum_money_zero_column(rows.drop_last());
    }
}

/// Money columns add pointwise, so their sums add.
proof fn lemma_sum_money_pointwise(a: Seq<(u32, i64)>, b: Seq<(u32, i64)>, c: Seq<(u32, i64)>)
    requires
        a.len() == c.len(),
        b.len() == c.len(),
        forall|i: int| 0 <= i < c.len() ==> (#[trigger] c[i]).1 == a[i].1 + b[i].1,
    ensures
        sum_money(c) == sum_money(a) + sum_money(b),
    decreases c.len(),
{
    if c.len() > 0 {
        lemma_sum_money_pointwise(a.drop_last(), b.drop_last(), c.drop_last());
    }
}

/// Tournament money stays zero-sum as long as the 64-bit rails are never
/// reached: starting from zero, with every recorded game zero-sum and its
/// rows within `bound`, and no more games than `bound` fits into the money
/// column, the aggregated money sums to zero (and every aggregate stays
/// within `games * bound`, so no addition ever saturated).
pub proof fn lemma_tournament_money_zero_sum(
    m: TournamentModel,
    games: Seq<GameRecord>,
    bound: int,
)
    requires
        bound >= 0,
        games.len() * bound <= i64::MAX,
        forall|i: int| 0 <= i < m.totals.len() ==> (#[trigger] m.totals[i]).1 == 0,
        forall|g: int| 0 <= g < games.len() ==> record_fits(m, #[trigger] games[g]),
        forall|g: int| 0 <= g < games.len() ==> sum_money((#[trigger] games[g]).results) == 0,
        forall|g: int, i: int|
            #![trigger games[g].results[i]]
            0 <= g < games.len() && 0 <= i < m.totals.len() ==> -bound <= games[g].results[i].1
                <= bound,
    ensures
        recorded_all(m, games).totals.len() == m.totals.len(),
        forall|i: int|
            0 <= i < m.totals.len() ==> -(games.len() * bound) <= (#[trigger] recorded_all(
                m,
                games,
            ).totals[i]).1 <= games.len() * bound,
        sum_money(recorded_all(m, games).totals) == 0,
    decreases games.len(),
{
    if games.len() == 0 {
        lemma_sum_money_zero_column(m.totals);
    } else {
        let k = games.len() as int;
        assert((k - 1) * bound + bound == k * bound) by (nonlinear_arith);
        assert((k - 1) * bound <= k * bound) by (nonlinear_arith)
            requires
                bound >= 0,
                k >= 1,
        ;
        lemma_tournament_money_zero_sum(m, games.drop_last(), bound);
        let prev = recorded_all(m, games.drop_last());
        let g = games.last();
        let folded = recorded(prev, g);
        lemma_recorded_all_len(m, games.drop_last());
        assert forall|i: int| 0 <= i < m.totals.len() implies (#[trigger] folded.totals[i]).1
            == prev.totals[i].1 + g.results[i].1 by {
            assert(-((k - 1) * bound) <= prev.totals[i].1 <= (k - 1) * bound);
            assert(-bound <= g.results[i].1 <= bound);
        }
        lemma_sum_money_pointwise(prev.totals, g.results, folded.totals);
    }
}

/// A seat disqualified in every game of a tournament wins nothing and is
/// paid nothing: its aggregated wins and money are both zero. (A seat that
/// earned before being disqualified keeps those earlier earnings; this law
/// is about seats that never played a game in good standing.)
pub proof fn lemma_always_disqualified_has_zero_totals(
    m: TournamentModel,
    games: Seq<GameRecord>,
    seat: int,
)
    requires
        0 <= seat < m.totals.len(),
        m.totals[seat] == (0u32, 0i64),
        forall|g: int|
            0 <= g < games.len() ==> game_record_ok(#[trigger] games[g], m.totals.len() as int),
        forall|g: int| 0 <= g < games.len() ==> (#[trigger] games[g]).disqualified[seat],
    ensures
        recorded_all(m, games).totals[seat] == (0u32, 0i64),
{
    assert forall|g: int| 0 <= g < games.len() implies (#[trigger] games[g]).results[seat] == (
    0u32,
    0i64,
    ) by {
        assert(game_record_ok(games[g], m.totals.len() as int));
    }
    lemma_zero_rows_zero_totals(m, games, seat);
}

/// Recording games keeps the seat count.
pub proof fn lemma_recorded_all_len(m: TournamentModel, games: Seq<GameRecord>)
    ensures
        recorded_all(m, games).totals.len() == m.totals.len(),
    decreases games.len(),
{
    if games.len() > 0 {
        lemma_recorded_all_len(m, games.drop_last());
    }
}

/// The peak-memory reading of a seat never decreases, however many games
/// are recorded.
pub proof fn lemma_recorded_peak_monotonic(m: TournamentModel, games: Seq<GameRecord>, seat: int)
    requires
        0 <= seat < m.totals.len(),
        m.peak.len() == m.totals.len(),
    ensures
        recorded_all(m, games).peak[seat] >= m.peak[seat],
    decreases games.len(),
{
    if games.len() > 0 {
        lemma_recorded_peak_monotonic(m, games.drop_last(), seat);
        lemma_recorded_all_len(m, games.drop_last());
    }
}

/// The running aggregates of one tournament.
pub struct TournamentState {
    /// Per seat: games won and net money so far.
    pub totals: Vec<(u32, i64)>,
    /// Per seat: the highest peak-memory reading reported so far.
    pub peak_memory: Vec<u64>,
    /// Per seat: permanently disqualified (one-way latch).
    pub permanently_disqualified: Vec<bool>,
    /// Games recorded so far.
    pub games_completed: u32,
    /// Games the tournament was asked for.
    pub num_games: u32,
}

impl View for TournamentState {
    type V = TournamentModel;

    open spec fn view(&self) -> TournamentModel {
        TournamentModel {
            totals: self.totals@,
            peak: self.peak_memory@,
            disqualified: self.permanently_disqualified@,
            games_completed: self.games_completed as int,
            num_games: self.num_games as int,
        }
    }
}

impl TournamentState {
    /// The state is internally consistent: one row per seat, and no seat
    /// has won more games than have been played.
    pub open spec fn wf(self) -> bool {
        &&& self.peak_memory@.len() == self.totals@.len()
        &&& self.permanently_disqualified@.len() == self.totals@.len()
        &&& self.games_completed <= self.num_games
        &&& forall|i: int|
            0 <= i < self.totals@.len() ==> (#[trigger] self.totals@[i]).0 <= self.games_completed
    }

    /// A fresh tournament over `num_players` seats: all aggregates zero,
    /// nobody disqualified.
    pub fn new(num_players: usize, num_games: u32) -> (state: TournamentState)
        ensures
            state.wf(),
            state.totals@.len() == num_players,
            state.games_completed == 0,
            state.num_games == num_games,
            forall|i: int| 0 <= i < num_players ==> (#[trigger] state.totals@[i]) == (0u32, 0i64),
            forall|i: int| 0 <= i < num_players ==> (#[trigger] state.peak_memory@[i]) == 0u64,
            forall|i: int|
                0 <= i < num_players ==> !(#[trigger] state.permanently_disqualified@[i]),
    {
        TournamentState {
            totals: crate::game::filled(num_players, (0u32, 0i64)),
            peak_memory: crate::game::filled(num_players, 0u64),
            permanently_disqualified: crate::game::filled(num_players, false),
            games_completed: 0,
            num_games,
        }
    }

    /// How many seats are still standing.
    pub fn active_count(&self) -> (c: usize)
        ensures
            c == active_seats(self.permanently_disqualified@),
    {
        count_active(&self.permanently_disqualified)
    }

    /// Whether another game is due: games remain and more than one seat is
    /// still standing.
    pub fn should_continue(&self) -> (r: bool)
        ensures
            r == (self.games_completed < self.num_games && active_seats(
                self.permanently_disqualified@,
            ) > 1),
    {
        self.games_completed < self.num_games && self.active_count() > 1
    }

    /// Fold one finished game into the aggregates.
    #[verifier::loop_isolation(false)]
    pub fn record_game(
        &mut self,
        results: &Vec<(u32, i64)>,
        usage: &Vec<u64>,
        disqualified: &Vec<bool>,
    )
        requires
            old(self).wf(),
            results@.len() == old(self).totals@.len(),
            usage@.len() == old(self).totals@.len(),
            disqualified@.len() == old(self).totals@.len(),
            old(self).games_completed < old(self).num_games,
            forall|i: int| 0 <= i < results@.len() ==> (#[trigger] results@[i]).0 <= 1,
        ensures
            final(self).wf(),
            final(self)@ == recorded(
                old(self)@,
                GameRecord { results: results@, usage: usage@, disqualified: disqualified@ },
            ),
            final(self).num_games == old(self).num_games,
            final(self).games_completed == old(self).games_completed + 1,
            forall|i: int|
                0 <= i < results@.len() ==> (#[trigger] final(self).peak_memory@[i])
                    >= old(self).peak_memory@[i],
            forall|i: int|
                0 <= i < results@.len() && old(self).permanently_disqualified@[i] ==> (
                #[trigger] final(self).permanently_disqualified@[i]),
            forall|i: int|
                0 <= i < results@.len() && results@[i] == (0u32, 0i64) ==> (
                #[trigger] final(self).totals@[i]) == old(self).totals@[i],
    {
        let n: usize = self.totals.len();
        let mut i: usize = 0;
        while i < n
            invariant
                0 <= i <= n,
                self.totals@.len() == n,
                self.peak_memory@.len() == n,
                self.permanently_disqualified@.len() == n,
                self.games_completed == old(self).games_completed,
                self.num_games == old(self).num_games,
                forall|k: int|
                    i <= k < n ==> (#[trigger] self.totals@[k]) == old(self).totals@[k],
                forall|k: int|
                    i <= k < n ==> (#[trigger] self.peak_memory@[k]) == old(self).peak_memory@[k],
                forall|k: int|
                    i <= k < n ==> (#[trigger] self.permanently_disqualified@[k]) == old(
                        self,
                    ).permanently_disqualified@[k],
                forall|k: int|
                    0 <= k < i ==> (#[trigger] self.totals@[k]) == ((old(self).totals@[k].0
                        + results@[k].0) as u32, sat_add_i64(
                        old(self).totals@[k].1,
                        results@[k].1,
                    )),
                forall|k: int|
                    0 <= k < i ==> (#[trigger] self.peak_memory@[k]) == (if usage@[k] > old(
                        self,
                    ).peak_memory@[k] {
                        usage@[k]
                    } else {
                        old(self).peak_memory@[k]
                    }),
                forall|k: int|
                    0 <= k < i ==> (#[trigger] self.permanently_disqualified@[k]) == (old(
                        self,
                    ).permanently_disqualified@[k] || disqualified@[k]),
            decreases n - i,
        {
            let row = self.totals[i];
            let wins: u32 = row.0 + results[i].0;
            let money: i64 = sat_add_i64_exec(row.1, results[i].1);
            self.totals.set(i, (wins, money));
            let peak = self.peak_memory[i];
            if usage[i] > peak {
                self.peak_memory.set(i, usage[i]);
            }
            if disqualified[i] {
                self.permanently_disqualified.set(i, true);
            }
            i = i + 1;
        }
        self.games_completed = self.games_completed + 1;
        proof {
            let g = GameRecord { results: results@, usage: usage@, disqualified: disqualified@ };
            assert(self@.totals =~= recorded(old(self)@, g).totals);
            assert(self@.peak =~= recorded(old(self)@, g).peak);
            assert(self@.disqualified =~= recorded(old(self)@, g).disqualified);
            assert(self@ == recorded(old(self)@, g));
        }
    }

    /// How often progress is published, as a count of games.
    pub open spec fn spec_update_interval(num_games: u32) -> int {
        if num_games as int / 100 > 5000 {
            num_games as int / 100
        } else {
            5000
        }
    }

    /// How often progress is published: at most every one per cent of the
    /// games, and no more often than every five thousand games.
    pub fn update_interval(num_games: u32) -> (r: u32)
        ensures
            r == TournamentState::spec_update_interval(num_games),
            r >= 1,
    {
        let hundredth: u32 = num_games / 100;
        if hundredth > 5000 {
            hundredth
        } else {
            5000
        }
    }

    /// Whether a progress checkpoint is due after the game just recorded.
    pub fn progress_due(&self) -> (r: bool)
        ensures
            r == (self.games_completed as int % TournamentState::spec_update_interval(
                self.num_games,
            ) == 0 || self.games_completed == self.num_games),
    {
        let interval = TournamentState::update_interval(self.num_games);
        self.games_completed % interval == 0 || self.games_completed == self.num_games
    }
}

/// Run a whole tournament: up to `num_games` games between the given seats,
/// stopping early once at most one seat is still standing. Each game's rows
/// are folded into the aggregates; a strategy fault or an exhausted turn
/// budget abandons the tournament.
#[verifier::loop_isolation(false)]
pub fn run_tournament<S: Strategy, D: DiceSource>(
    strategies: &mut Vec<S>,
    num_games: u32,
    dice: &mut D,
    turn_budget: u64,
) -> (r: Result<TournamentState, GameError>)
    requires
        1 <= old(strategies)@.len() <= MAX_SEATS,
    ensures
        final(strategies)@.len() == old(strategies)@.len(),
        (num_games == 0 || old(strategies)@.len() == 1) ==> r is Ok,
        r is Err ==> (num_games > 0 && old(strategies)@.len() > 1),
        match r {
            Ok(state) => {
                &&& state.wf()
                &&& state.totals@.len() == old(strategies)@.len()
                &&& state.num_games == num_games
                &&& state.games_completed <= num_games
                &&& ((num_games == 0 || old(strategies)@.len() == 1) ==> state.games_completed
                    == 0)
                &&& exists|games: Seq<GameRecord>|
                    {
                        &&& games.len() == state.games_completed
                        &&& state@ == #[trigger] recorded_all(
                            fresh_model(old(strategies)@.len() as int, num_games as int),
                            games,
                        )
                        &&& (forall|g: int|
                            0 <= g < games.len() ==> game_record_ok(
                                #[trigger] games[g],
                                old(strategies)@.len() as int,
                            ))
                        &&& (forall|g1: int, g2: int, i: int|
                            #![trigger games[g1].disqualified[i], games[g2].disqualified[i]]
                            0 <= g1 <= g2 < games.len() && 0 <= i < old(strategies)@.len()
                                && games[g1].disqualified[i] ==> games[g2].disqualified[i])
                    }
            },
            Err(_) => true,
        },
{
    let num_players: usize = strategies.len();
    let mut state = TournamentState::new(num_players, num_games);
    let ghost n = num_players as int;
    let ghost mut trace: Seq<GameRecord> = Seq::empty();
    proof {
        assert(state@.totals =~= fresh_model(n, num_games as int).totals);
        assert(state@.peak =~= fresh_model(n, num_games as int).peak);
        assert(state@.disqualified =~= fresh_model(n, num_games as int).disqualified);
        assert(state@ == fresh_model(n, num_games as int));
    }
    loop
        invariant
            strategies@.len() == num_players,
            state.wf(),
            state.totals@.len() == num_players,
            state.num_games == num_games,
            trace.len() == state.games_completed,
            state@ == recorded_all(fresh_model(n, num_games as int), trace),
            forall|g: int| 0 <= g < trace.len() ==> game_record_ok(#[trigger] trace[g], n),
            forall|g: int, i: int|
                #![trigger trace[g].disqualified[i]]
                0 <= g < trace.len() && 0 <= i < num_players && trace[g].disqualified[i]
                    ==> state.permanently_disqualified@[i],
            forall|g1: int, g2: int, i: int|
                #![trigger trace[g1].disqualified[i], trace[g2].disqualified[i]]
                0 <= g1 <= g2 < trace.len() && 0 <= i < num_players && trace[g1].disqualified[i]
                    ==> trace[g2].disqualified[i],
            state.games_completed > 0 ==> num_players > 1,
        decreases num_games - state.games_completed,
    {
        if state.games_completed == num_games {
            return Ok(state);
        }
        if state.active_count() <= 1 {
            return Ok(state);
        }
        proof {
            lemma_active_seats_exists(state.permanently_disqualified@);
            crate::game::lemma_active_seats_le_len(state.permanently_disqualified@);
        }
        match simulate_game(strategies, &state.permanently_disqualified, dice, turn_budget) {
            Err(e) => {
                return Err(e);
            },
            Ok(out) => {
                state.record_game(&out.0, &out.1, &out.2);
                proof {
                    let g = GameRecord {
                        results: out.0@,
                        usage: out.1@,
                        disqualified: out.2@,
                    };
                    assert(trace.push(g).drop_last() =~= trace);
                    trace = trace.push(g);
                }
            },
        }
    }
}

} // verus!
