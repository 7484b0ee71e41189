use sigil::voice::manager::{
    target_shard, ConnectDecision, ConnectOutcome, Credentials, GuildConnection, Probe, Recovery,
    StateDecision,
};

fn complete(guild: &mut GuildConnection) {
    assert!(guild.on_server_update(Some("endpoint".into()), "token".into()));
    assert_eq!(
        guild.on_state_update(1, 1, Some(50), "session".into()),
        StateDecision::Check
    );
}

fn connect(guild: &mut GuildConnection, alive: bool) -> Option<Credentials> {
    match guild.begin_connect(alive) {
        ConnectDecision::Connect(credentials) => Some(credentials),
        _ => None,
    }
}

const SILENT_DEATH: Probe = Probe { alive: false, frames_sent: 0, close_code: 4006 };

#[test]
fn shards() {
    assert_eq!(target_shard(u64::MAX, 0), 0);
    assert_eq!(target_shard(u64::MAX, 1), 0);
    assert_eq!(target_shard(5 << 22, 3), 2);
    assert_eq!(target_shard((5 << 22) - 1, 3), 1);
}

#[test]
fn connects_once_credentials_are_complete() {
    let mut guild = GuildConnection::new();
    assert!(matches!(guild.begin_connect(false), ConnectDecision::Incomplete));
    guild.on_server_update(Some("endpoint".into()), "token".into());
    assert!(matches!(guild.begin_connect(false), ConnectDecision::Incomplete));
    guild.on_state_update(1, 1, Some(50), "session".into());
    let credentials = connect(&mut guild, false).unwrap();
    assert_eq!(credentials.endpoint, "endpoint");
    assert_eq!(credentials.token, "token");
    assert_eq!(credentials.session_id, "session");
    assert_eq!(guild.take_pre_connect_delay(), 0);
}

#[test]
fn one_connection_at_a_time() {
    let mut guild = GuildConnection::new();
    complete(&mut guild);
    let credentials = connect(&mut guild, false).unwrap();
    complete(&mut guild);
    assert!(matches!(guild.begin_connect(false), ConnectDecision::AlreadyConnecting));
    assert!(guild.connect_finished(ConnectOutcome::Ready, credentials));
    // The same credentials again, while the connection lives.
    assert!(matches!(guild.begin_connect(true), ConnectDecision::AlreadyConnected));
    assert!(matches!(guild.begin_connect(true), ConnectDecision::Incomplete));
    complete(&mut guild);
    assert!(connect(&mut guild, false).is_some());
}

#[test]
fn failed_connections_are_forgotten() {
    for outcome in [ConnectOutcome::Died, ConnectOutcome::Failed] {
        let mut guild = GuildConnection::new();
        complete(&mut guild);
        let credentials = connect(&mut guild, false).unwrap();
        assert!(!guild.connect_finished(outcome, credentials));
        complete(&mut guild);
        assert!(connect(&mut guild, true).is_some());
    }
}

#[test]
fn other_users_do_not_matter() {
    let mut guild = GuildConnection::new();
    assert_eq!(
        guild.on_state_update(1, 2, Some(50), "session".into()),
        StateDecision::NotOurs
    );
    guild.on_server_update(Some("endpoint".into()), "token".into());
    assert!(matches!(guild.begin_connect(false), ConnectDecision::Incomplete));
}

#[test]
fn missing_endpoint_tears_down() {
    let mut guild = GuildConnection::new();
    complete(&mut guild);
    assert!(!guild.on_server_update(None, "token".into()));
    assert!(matches!(guild.begin_connect(false), ConnectDecision::Incomplete));
}

#[test]
fn three_attempts_then_none() {
    let mut guild = GuildConnection::new();
    complete(&mut guild);
    for (attempt, delay_ms, grace_ms) in [(1, 2_000, 1_000), (2, 4_000, 2_000), (3, 8_000, 4_000)] {
        let credentials = connect(&mut guild, false).unwrap();
        guild.connect_finished(ConnectOutcome::Ready, credentials);
        assert_eq!(
            guild.check_liveness(Some(SILENT_DEATH)),
            Recovery::Rejoin { channel_id: 50, attempt, delay_ms }
        );
        complete(&mut guild);
        assert!(matches!(guild.begin_connect(false), ConnectDecision::Suppressed));
        assert_eq!(
            guild.on_state_update(1, 1, None, "session".into()),
            StateDecision::Left { confirm: true }
        );
        assert_eq!(
            guild.on_state_update(1, 1, None, "session".into()),
            StateDecision::Left { confirm: false }
        );
        guild.begin_rejoin(attempt);
        complete(&mut guild);
        assert_eq!(guild.take_pre_connect_delay(), grace_ms);
        assert_eq!(guild.take_pre_connect_delay(), 0);
    }
    assert_eq!(guild.check_liveness(Some(SILENT_DEATH)), Recovery::GiveUp);
    // The counter starts anew.
    assert!(matches!(
        guild.check_liveness(Some(SILENT_DEATH)),
        Recovery::Rejoin { attempt: 1, .. }
    ));
}

#[test]
fn healthy_connections_reset_the_counter() {
    let mut guild = GuildConnection::new();
    complete(&mut guild);
    guild.check_liveness(Some(SILENT_DEATH));
    guild.check_liveness(Some(SILENT_DEATH));
    let healthy = [
        None,
        Some(Probe { alive: true, frames_sent: 0, close_code: 0 }),
        Some(Probe { alive: false, frames_sent: 1, close_code: 4006 }),
    ];
    for probe in healthy {
        assert_eq!(guild.check_liveness(probe), Recovery::Healthy);
        assert!(matches!(
            guild.check_liveness(Some(SILENT_DEATH)),
            Recovery::Rejoin { attempt: 1, .. }
        ));
    }
}

#[test]
fn some_deaths_are_final() {
    for close_code in [0, 1000, 4004, 4005, 4016] {
        let mut guild = GuildConnection::new();
        complete(&mut guild);
        let probe = Probe { close_code, ..SILENT_DEATH };
        assert_eq!(guild.check_liveness(Some(probe)), Recovery::NotRecoverable);
    }
    for close_code in [4006, 4014, 4015] {
        let mut guild = GuildConnection::new();
        let probe = Probe { close_code, ..SILENT_DEATH };
        assert_eq!(guild.check_liveness(Some(probe)), Recovery::NoChannel);
        complete(&mut guild);
        assert!(matches!(
            guild.check_liveness(Some(probe)),
            Recovery::Rejoin { attempt: 2, .. }
        ));
        guild.abort_rejoin();
        complete(&mut guild);
        assert!(connect(&mut guild, false).is_some());
    }
}

#[test]
fn joining_and_leaving() {
    let mut guild = GuildConnection::new();
    complete(&mut guild);
    guild.check_liveness(Some(SILENT_DEATH));
    guild.begin_join();
    complete(&mut guild);
    assert!(matches!(guild.begin_connect(false), ConnectDecision::Suppressed));
    guild.finish_join(60);
    assert!(connect(&mut guild, false).is_some());
    assert_eq!(
        guild.check_liveness(Some(SILENT_DEATH)),
        Recovery::Rejoin { channel_id: 60, attempt: 1, delay_ms: 2_000 }
    );
    guild.leave();
    assert!(matches!(guild.begin_connect(false), ConnectDecision::Incomplete));
    assert_eq!(guild.check_liveness(Some(SILENT_DEATH)), Recovery::NoChannel);
}
