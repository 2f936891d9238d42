use pig_pen::records::{Bot, SimulationParticipant, UnknownBot, assemble_results};

fn bot(id: &str, name: &str) -> Bot {
    Bot {
        id: id.to_string(),
        name: name.to_string(),
        description: None,
        wasm_hash: format!("hash-{}", id),
        file_path: format!("bots/{}.wasm", id),
        created_at: "2024-01-01T00:00:00Z".to_string(),
    }
}

fn participant(bot_id: &str, seat: i32, wins: i32, money: i64) -> SimulationParticipant {
    SimulationParticipant {
        simulation_id: "sim-1".to_string(),
        bot_id: bot_id.to_string(),
        player_index: seat,
        games_won: wins,
        total_money: money,
        peak_memory_bytes: 2048,
        disqualified: false,
    }
}

#[test]
fn results_join_participants_with_bot_names() {
    let bots = vec![bot("b-1", "alpha"), bot("b-2", "beta")];
    let participants = vec![participant("b-2", 0, 3, 120), participant("b-1", 1, 7, -120)];
    let rows = assemble_results(&participants, &bots).unwrap();
    assert_eq!(rows.len(), 2);
    assert_eq!(rows[0].bot_id, "b-2");
    assert_eq!(rows[0].bot_name, "beta");
    assert_eq!(rows[0].player_index, 0);
    assert_eq!(rows[0].games_won, 3);
    assert_eq!(rows[0].total_money, 120);
    assert_eq!(rows[1].bot_id, "b-1");
    assert_eq!(rows[1].bot_name, "alpha");
    assert_eq!(rows[1].games_won, 7);
    assert_eq!(rows[1].total_money, -120);
    assert_eq!(rows[1].peak_memory_bytes, 2048);
    assert!(!rows[1].disqualified);
}

#[test]
fn querying_results_is_repeatable() {
    // Assembling the same stored rows twice gives the same answer.
    let bots = vec![bot("b-1", "alpha"), bot("b-2", "beta")];
    let participants = vec![participant("b-1", 0, 5, 40), participant("b-2", 1, 5, -40)];
    let first = assemble_results(&participants, &bots).unwrap();
    let second = assemble_results(&participants, &bots).unwrap();
    assert_eq!(first.len(), second.len());
    for (a, b) in first.iter().zip(second.iter()) {
        assert_eq!(a.bot_id, b.bot_id);
        assert_eq!(a.bot_name, b.bot_name);
        assert_eq!(a.player_index, b.player_index);
        assert_eq!(a.games_won, b.games_won);
        assert_eq!(a.total_money, b.total_money);
        assert_eq!(a.peak_memory_bytes, b.peak_memory_bytes);
        assert_eq!(a.disqualified, b.disqualified);
    }
}

#[test]
fn unknown_bot_fails_the_query() {
    let bots = vec![bot("b-1", "alpha")];
    let participants = vec![participant("b-1", 0, 1, 0), participant("b-9", 1, 0, 0)];
    assert_eq!(assemble_results(&participants, &bots).unwrap_err(), UnknownBot);
}
