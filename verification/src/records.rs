//! The records exchanged with the persistence boundary, and the validation
//! of a simulation request.

use vstd::prelude::*;

verus! {

/// A registered strategy component: identified by the content hash of its
/// bytes, stored on disk under `file_path`.
#[derive(Debug, Clone)]
pub struct Bot {
    /// The bot's identifier, handed out once at registration.
    pub id: String,
    /// Display name given at upload.
    pub name: String,
    /// Optional free-text description.
    pub description: Option<String>,
    /// Hex digest of the component bytes; unique across the registry.
    pub wasm_hash: String,
    /// Where the component bytes live on disk.
    pub file_path: String,
    /// When the record was created.
    pub created_at: String,
}

/// One submitted tournament and its lifecycle record.
#[derive(Debug, Clone)]
pub struct Simulation {
    /// The simulation's identifier.
    pub id: String,
    /// Lifecycle status: pending, running, completed or failed.
    pub status: String,
    /// Games asked for.
    pub num_games: u32,
    /// Games finished so far.
    pub games_completed: u32,
    /// When the record was created.
    pub created_at: String,
    /// When the run started, once it has.
    pub started_at: Option<String>,
    /// When the run finished, once it has.
    pub completed_at: Option<String>,
    /// Why the run failed, where it did.
    pub error_message: Option<String>,
}

/// One seat of one simulation, with its aggregated outcome.
#[derive(Debug, Clone)]
pub struct SimulationParticipant {
    /// The simulation this row belongs to.
    pub simulation_id: String,
    /// The bot seated here.
    pub bot_id: String,
    /// The seat index.
    pub player_index: i32,
    /// Games this seat won.
    pub games_won: i32,
    /// Net money over the whole simulation.
    pub total_money: i64,
    /// The seat's highest peak-memory reading, in bytes.
    pub peak_memory_bytes: u64,
    /// Whether the seat was permanently disqualified.
    pub disqualified: bool,
}

/// One row of a results query: a participant joined with its bot's name.
#[derive(Debug, Clone)]
pub struct ParticipantResult {
    /// The bot seated here.
    pub bot_id: String,
    /// That bot's display name.
    pub bot_name: String,
    /// The seat index.
    pub player_index: i32,
    /// Games this seat won.
    pub games_won: i32,
    /// Net money over the whole simulation.
    pub total_money: i64,
    /// The seat's highest peak-memory reading, in bytes.
    pub peak_memory_bytes: u64,
    /// Whether the seat was permanently disqualified.
    pub disqualified: bool,
}

/// The lifecycle of a simulation record.
#[derive(Debug, Clone, Copy, PartialEq, Eq, Structural)]
pub enum SimulationStatus {
    /// Submitted, waiting in the queue.
    Pending,
    /// Being run by the single worker.
    Running,
    /// Ran to the end; results are recorded.
    Completed,
    /// Abandoned on a strategy fault; the error is recorded.
    Failed,
}

/// What moves a simulation through its lifecycle.
#[derive(Debug, Clone, Copy, PartialEq, Eq, Structural)]
pub enum SimulationEvent {
    /// The worker picked the simulation up.
    Started,
    /// The run finished and its results were recorded.
    Finished,
    /// The run was abandoned on a fault.
    Faulted,
}

impl SimulationStatus {
    /// The lifecycle's single path: a pending simulation starts running,
    /// and a running one either completes or fails; any other move is
    /// refused.
    pub fn transition(self, event: SimulationEvent) -> (r: Option<SimulationStatus>)
        ensures
            r == match (self, event) {
                (SimulationStatus::Pending, SimulationEvent::Started) => Some(
                    SimulationStatus::Running,
                ),
                (SimulationStatus::Running, SimulationEvent::Finished) => Some(
                    SimulationStatus::Completed,
                ),
                (SimulationStatus::Running, SimulationEvent::Faulted) => Some(
                    SimulationStatus::Failed,
                ),
                _ => None::<SimulationStatus>,
            },
    {
        match (self, event) {
            (SimulationStatus::Pending, SimulationEvent::Started) => Some(
                SimulationStatus::Running,
            ),
            (SimulationStatus::Running, SimulationEvent::Finished) => Some(
                SimulationStatus::Completed,
            ),
            (SimulationStatus::Running, SimulationEvent::Faulted) => Some(SimulationStatus::Failed),
            _ => None,
        }
    }

    /// The label persisted for this status.
    pub fn label(&self) -> (r: &'static str)
        ensures
            match self {
                SimulationStatus::Pending => r@ == "pending"@,
                SimulationStatus::Running => r@ == "running"@,
                SimulationStatus::Completed => r@ == "completed"@,
                SimulationStatus::Failed => r@ == "failed"@,
            },
    {
        match self {
            SimulationStatus::Pending => "pending",
            SimulationStatus::Running => "running",
            SimulationStatus::Completed => "completed",
            SimulationStatus::Failed => "failed",
        }
    }

    /// Only a failed simulation carries an error message.
    pub open spec fn error_consistent(self, error_message: Option<Seq<char>>) -> bool {
        (error_message is Some) <==> (self == SimulationStatus::Failed)
    }
}

/// A results query named a bot the registry does not hold.
#[derive(Debug, Clone, Copy, PartialEq, Eq, Structural)]
pub struct UnknownBot;

/// The name of the first bot carrying `id`, if any.
pub open spec fn bot_name_for(bots: Seq<Bot>, id: Seq<char>) -> Option<Seq<char>>
    decreases bots.len(),
{
    if bots.len() == 0 {
        None
    } else if bots.first().id@ == id {
        Some(bots.first().name@)
    } else {
        bot_name_for(bots.drop_first(), id)
    }
}

/// The name of the first bot carrying `id`.
fn find_bot_name(bots: &Vec<Bot>, id: &String) -> (r: Option<String>)
    ensures
        match r {
            Some(name) => bot_name_for(bots@, id@) == Some(name@),
            None => bot_name_for(bots@, id@) is None,
        },
{
    let n: usize = bots.len();
    let mut j: usize = 0;
    proof {
        assert(bots@.skip(0) =~= bots@);
    }
    while j < n
        invariant
            0 <= j <= n,
            n == bots@.len(),
            bot_name_for(bots@, id@) == bot_name_for(bots@.skip(j as int), id@),
        decreases n - j,
    {
        proof {
            assert(bots@.skip(j as int).first() == bots@[j as int]);
            assert(bots@.skip(j as int).drop_first() =~= bots@.skip(j + 1));
        }
        if bots[j].id.eq(id) {
            return Some(bots[j].name.clone());
        }
        j = j + 1;
    }
    proof {
        assert(bots@.skip(n as int) =~= Seq::<Bot>::empty());
    }
    None
}

/// Assemble the rows a completed simulation reports: each participant, in
/// the stored order, joined with its bot's name. The assembly is a function
/// of the stored rows alone — querying a completed tournament is pure and
/// repeatable. A participant whose bot is unknown fails the whole query.
pub fn assemble_results(participants: &Vec<SimulationParticipant>, bots: &Vec<Bot>) -> (r: Result<
    Vec<ParticipantResult>,
    UnknownBot,
>)
    ensures
        (r is Ok) <==> (forall|i: int|
            0 <= i < participants@.len() ==> bot_name_for(
                bots@,
                (#[trigger] participants@[i]).bot_id@,
            ) is Some),
        match r {
            Ok(rows) => {
                &&& rows@.len() == participants@.len()
                &&& forall|i: int|
                    0 <= i < rows@.len() ==> {
                        let p = participants@[i];
                        let row = #[trigger] rows@[i];
                        &&& row.bot_id@ == p.bot_id@
                        &&& Some(row.bot_name@) == bot_name_for(bots@, p.bot_id@)
                        &&& row.player_index == p.player_index
                        &&& row.games_won == p.games_won
                        &&& row.total_money == p.total_money
                        &&& row.peak_memory_bytes == p.peak_memory_bytes
                        &&& row.disqualified == p.disqualified
                    }
            },
            Err(_) => true,
        },
{
    let n: usize = participants.len();
    let mut rows: Vec<ParticipantResult> = Vec::new();
    let mut i: usize = 0;
    while i < n
        invariant
            0 <= i <= n,
            n == participants@.len(),
            rows@.len() == i,
            forall|k: int|
                0 <= k < i ==> bot_name_for(
                    bots@,
                    (#[trigger] participants@[k]).bot_id@,
                ) is Some,
            forall|k: int|
                0 <= k < i ==> {
                    let p = participants@[k];
                    let row = #[trigger] rows@[k];
                    &&& row.bot_id@ == p.bot_id@
                    &&& Some(row.bot_name@) == bot_name_for(bots@, p.bot_id@)
                    &&& row.player_index == p.player_index
                    &&& row.games_won == p.games_won
                    &&& row.total_money == p.total_money
                    &&& row.peak_memory_bytes == p.peak_memory_bytes
                    &&& row.disqualified == p.disqualified
                },
        decreases n - i,
    {
        let p = &participants[i];
        match find_bot_name(bots, &p.bot_id) {
            None => {
                return Err(UnknownBot);
            },
            Some(bot_name) => {
                rows.push(
                    ParticipantResult {
                        bot_id: p.bot_id.clone(),
                        bot_name,
                        player_index: p.player_index,
                        games_won: p.games_won,
                        total_money: p.total_money,
                        peak_memory_bytes: p.peak_memory_bytes,
                        disqualified: p.disqualified,
                    },
                );
            },
        }
        i = i + 1;
    }
    Ok(rows)
}

/// Why a simulation request was rejected.
#[derive(Debug, Clone, Copy, PartialEq, Eq, Structural)]
pub enum SimulationRejected {
    /// The request named no bots.
    NoBots,
    /// The requested game count is not between one and one million.
    InvalidNumGames,
}

/// The largest game count a simulation may ask for.
pub const MAX_NUM_GAMES: i32 = 1_000_000;

/// Accept a simulation request exactly when it names at least one bot and
/// asks for between one and one million games; an empty roster is reported
/// before a bad game count.
pub fn validate_simulation_request(num_bots: usize, num_games: i32) -> (r: Result<
    (),
    SimulationRejected,
>)
    ensures
        r is Ok <==> (num_bots >= 1 && 1 <= num_games <= MAX_NUM_GAMES),
        r == Err::<(), SimulationRejected>(SimulationRejected::NoBots) <==> num_bots == 0,
        num_bots >= 1 ==> ((r == Err::<(), SimulationRejected>(
            SimulationRejected::InvalidNumGames,
        )) <==> !(1 <= num_games <= MAX_NUM_GAMES)),
{
    if num_bots == 0 {
        Err(SimulationRejected::NoBots)
    } else if num_games <= 0 || num_games > MAX_NUM_GAMES {
        Err(SimulationRejected::InvalidNumGames)
    } else {
        Ok(())
    }
}

} // verus!
