//! What becomes of a guild's voice connection: when to connect, and when to try
//! again.
//!
//! [`GuildConnection`] holds what is known of one guild. It takes the events and
//! says what to do about them; waiting, sending and connecting is up to the
//! caller.

use vstd::prelude::*;
use vstd::string::*;

verus! {

/// Maximum consecutive auto-reconnect attempts before giving up.
pub const MAX_RECONNECT_ATTEMPTS: u8 = 3;

/// How long after Call insertion to check if the driver died immediately.
pub const LIVENESS_CHECK_DELAY_MS: u64 = 300;

/// Base rejoin delay applied AFTER Discord confirms leave.
/// Scales exponentially: attempt 1 → 2 s, attempt 2 → 4 s, attempt 3 → 8 s.
pub const BASE_REJOIN_DELAY_MS: u64 = 2_000;

/// Base of the pre-connect grace delay, which scales in the same way.
pub const BASE_PRE_CONNECT_DELAY_MS: u64 = 1_000;

/// Maximum seconds to wait for Discord's leave confirmation before proceeding.
pub const LEAVE_CONFIRM_TIMEOUT_SECS: u64 = 4;

/// Transition delay for a clean join (no stale session to wait out).
pub const JOIN_TRANSITION_DELAY_MS: u64 = 1_500;

/// The shard that a guild belongs to.
pub fn target_shard(guild_id: u64, num_shards: u64) -> (shard: u32)
    ensures
        shard == if num_shards <= 1 {
            0
        } else {
            ((guild_id / 0x40_0000) % num_shards) as u32
        },
{
    if num_shards <= 1 {
        0
    } else {
        assert(guild_id >> 22 == guild_id / 0x40_0000) by (bit_vector);
        ((guild_id >> 22) % num_shards) as u32
    }
}

/// What it takes to connect.
#[derive(Debug)]
pub struct Credentials {
    pub endpoint: String,
    pub token: String,
    pub session_id: String,
}

/// Credentials by their texts.
#[verifier::ext_equal]
pub struct CredentialsView {
    pub endpoint: Seq<char>,
    pub token: Seq<char>,
    pub session_id: Seq<char>,
}

impl View for Credentials {
    type V = CredentialsView;

    open spec fn view(&self) -> CredentialsView {
        CredentialsView {
            endpoint: self.endpoint@,
            token: self.token@,
            session_id: self.session_id@,
        }
    }
}

/// The text, if there is one.
pub open spec fn text_view(text: Option<String>) -> Option<Seq<char>> {
    match text {
        Some(text) => Some(text@),
        None => None,
    }
}

/// What is known of a guild.
#[verifier::ext_equal]
pub struct GuildView {
    /// What has come in of the next connection's credentials.
    pub pending_session: Option<Seq<char>>,
    pub pending_endpoint: Option<Seq<char>>,
    pub pending_token: Option<Seq<char>>,
    /// The credentials of the connection that was last made.
    pub active: Option<CredentialsView>,
    /// A connection is being made.
    pub connecting: bool,
    /// The channel that we were last in.
    pub last_channel: Option<u64>,
    /// How many attempts to reconnect there were in a row.
    pub reconnect_count: u8,
    /// We are between leaving and joining again.
    pub transitioning: bool,
    /// We wait for the confirmation that we left.
    pub awaiting_leave: bool,
    /// How long to wait before the next connection is made.
    pub pre_connect_delay_ms: u64,
}

impl GuildView {
    /// The counter of attempts stays within its bound.
    pub open spec fn wf(self) -> bool {
        self.reconnect_count <= MAX_RECONNECT_ATTEMPTS
    }

    /// Nothing is known.
    pub open spec fn initial() -> GuildView {
        GuildView {
            pending_session: None,
            pending_endpoint: None,
            pending_token: None,
            active: None,
            connecting: false,
            last_channel: None,
            reconnect_count: 0,
            transitioning: false,
            awaiting_leave: false,
            pre_connect_delay_ms: 0,
        }
    }

    /// Nothing is pending.
    pub open spec fn without_pending(self) -> GuildView {
        GuildView {
            pending_session: None,
            pending_endpoint: None,
            pending_token: None,
            ..self
        }
    }

    /// The connection, and what was to become one, are gone.
    pub open spec fn torn_down(self) -> GuildView {
        GuildView { active: None, connecting: false, ..self.without_pending() }
    }

    /// The credentials of the next connection, once they are complete.
    pub open spec fn pending(self) -> Option<CredentialsView> {
        match (self.pending_endpoint, self.pending_token, self.pending_session) {
            (Some(endpoint), Some(token), Some(session_id)) => Some(
                CredentialsView { endpoint, token, session_id },
            ),
            _ => None,
        }
    }

    /// Whether to connect, and the state afterwards. `alive` says whether there
    /// is a call whose connection is alive.
    pub open spec fn connect_decided(self, alive: bool) -> (ConnectStep, GuildView) {
        if self.transitioning {
            (ConnectStep::Suppressed, self)
        } else {
            match self.pending() {
                None => (ConnectStep::Incomplete, self),
                Some(credentials) => if self.connecting {
                    (ConnectStep::AlreadyConnecting, self)
                } else if self.active == Some(credentials) && alive {
                    (ConnectStep::AlreadyConnected, self.without_pending())
                } else {
                    (
                        ConnectStep::Connect(credentials),
                        GuildView { connecting: true, ..self.without_pending() },
                    )
                },
            }
        }
    }

    /// What to do about a dead connection, and the state afterwards.
    pub open spec fn death_handled(self, close_code: u16) -> (Recovery, GuildView) {
        let state = GuildView { active: None, ..self.without_pending() };
        if !recoverable(close_code) {
            (Recovery::NotRecoverable, state)
        } else if self.reconnect_count >= MAX_RECONNECT_ATTEMPTS {
            (Recovery::GiveUp, GuildView { reconnect_count: 0, ..state })
        } else {
            let attempt = (self.reconnect_count + 1) as u8;
            let state = GuildView { reconnect_count: attempt, ..state };
            match self.last_channel {
                None => (Recovery::NoChannel, state),
                Some(channel_id) => (
                    Recovery::Rejoin {
                        channel_id,
                        attempt,
                        delay_ms: scaled(BASE_REJOIN_DELAY_MS, attempt),
                    },
                    GuildView { transitioning: true, awaiting_leave: true, ..state },
                ),
            }
        }
    }
}

/// Whether to connect.
pub enum ConnectStep {
    /// No: we are between leaving and joining again.
    Suppressed,
    /// No: the credentials are not complete.
    Incomplete,
    /// No: a connection is being made.
    AlreadyConnecting,
    /// No: the connection with these credentials is alive.
    AlreadyConnected,
    /// Yes, with these.
    Connect(CredentialsView),
}

/// Whether to connect.
#[derive(Debug)]
pub enum ConnectDecision {
    /// No: we are between leaving and joining again.
    Suppressed,
    /// No: the credentials are not complete.
    Incomplete,
    /// No: a connection is being made.
    AlreadyConnecting,
    /// No: the connection with these credentials is alive.
    AlreadyConnected,
    /// Yes, with these. An old call goes first.
    Connect(Credentials),
}

impl View for ConnectDecision {
    type V = ConnectStep;

    open spec fn view(&self) -> ConnectStep {
        match self {
            ConnectDecision::Suppressed => ConnectStep::Suppressed,
            ConnectDecision::Incomplete => ConnectStep::Incomplete,
            ConnectDecision::AlreadyConnecting => ConnectStep::AlreadyConnecting,
            ConnectDecision::AlreadyConnected => ConnectStep::AlreadyConnected,
            ConnectDecision::Connect(credentials) => ConnectStep::Connect(credentials@),
        }
    }
}

/// What to do about a voice state of the guild.
#[derive(Debug, Clone, Copy, PartialEq, Eq, Structural)]
pub enum StateDecision {
    /// Nothing: it is not ours.
    NotOurs,
    /// We left: tear the call down. First tell who waits for the confirmation.
    Left { confirm: bool },
    /// See whether to connect.
    Check,
}

/// What is known of a connection some time after it was made.
#[derive(Debug, Clone, Copy, PartialEq, Eq, Structural)]
pub struct Probe {
    pub alive: bool,
    pub frames_sent: u64,
    pub close_code: u16,
}

/// What to do about a dead connection.
#[derive(Debug, Clone, Copy, PartialEq, Eq, Structural)]
pub enum Recovery {
    /// Nothing: the connection is healthy, or gone for another reason.
    Healthy,
    /// Nothing: with this close code there is no reconnecting.
    NotRecoverable,
    /// Nothing: there were too many attempts.
    GiveUp,
    /// Nothing: we do not know which channel to join.
    NoChannel,
    /// Leave, wait for the confirmation and then for `delay_ms`, and join again.
    Rejoin { channel_id: u64, attempt: u8, delay_ms: u64 },
}

/// The close codes behind which a new session may work: session invalid,
/// disconnected, server crashed.
pub open spec fn recoverable(close_code: u16) -> bool {
    close_code == 4006 || close_code == 4014 || close_code == 4015
}

/// `base` doubled with each attempt behind the first.
pub open spec fn scaled(base: u64, attempt: u8) -> u64 {
    if attempt <= 1 {
        base
    } else if attempt == 2 {
        (2 * base) as u64
    } else if attempt == 3 {
        (4 * base) as u64
    } else {
        (8 * base) as u64
    }
}

/// `base` doubled with each attempt behind the first.
fn scale(base: u64, attempt: u8) -> (delay: u64)
    requires
        base <= 2_000,
    ensures
        delay == scaled(base, attempt),
{
    if attempt <= 1 {
        base
    } else if attempt == 2 {
        2 * base
    } else if attempt == 3 {
        4 * base
    } else {
        8 * base
    }
}

/// How making a connection ended.
#[derive(Debug, Clone, Copy, PartialEq, Eq, Structural)]
pub enum ConnectOutcome {
    /// The driver is ready, and its connection alive.
    Ready,
    /// The connection died while it was made.
    Died,
    /// It failed, or took too long.
    Failed,
}

/// While a connection is being made, and between leaving and joining again, no
/// other is begun.
pub proof fn one_connection_at_a_time(guild: GuildView, alive: bool)
    requires
        guild.connecting || guild.transitioning,
    ensures
        !(guild.connect_decided(alive).0 is Connect),
        guild.connect_decided(alive).1 == guild,
{
}

/// The state after `n` recoverable deaths in a row, each behind a new
/// connection.
pub open spec fn after_deaths(guild: GuildView, n: nat) -> GuildView
    decreases n,
{
    if n == 0 {
        guild
    } else {
        after_deaths(guild, (n - 1) as nat).death_handled(4006).1
    }
}

/// Counted from a healthy connection, the first three deaths in a row are
/// followed by an attempt to rejoin, after 2, 4 and 8 seconds, and the fourth is
/// not.
pub proof fn three_attempts(guild: GuildView, channel_id: u64, close_code: u16)
    requires
        guild.reconnect_count == 0,
        guild.last_channel == Some(channel_id),
        close_code == 4006 || close_code == 4014 || close_code == 4015,
    ensures
        guild.death_handled(close_code).0 == (Recovery::Rejoin {
            channel_id,
            attempt: 1,
            delay_ms: 2_000,
        }),
        after_deaths(guild, 1).death_handled(close_code).0 == (Recovery::Rejoin {
            channel_id,
            attempt: 2,
            delay_ms: 4_000,
        }),
        after_deaths(guild, 2).death_handled(close_code).0 == (Recovery::Rejoin {
            channel_id,
            attempt: 3,
            delay_ms: 8_000,
        }),
        after_deaths(guild, 3).death_handled(close_code).0 == Recovery::GiveUp,
{
    reveal_with_fuel(after_deaths, 4);
}

/// What is known of one guild's voice connection.
pub struct GuildConnection {
    pending_session: Option<String>,
    pending_endpoint: Option<String>,
    pending_token: Option<String>,
    active: Option<Credentials>,
    connecting: bool,
    last_channel: Option<u64>,
    reconnect_count: u8,
    transitioning: bool,
    awaiting_leave: bool,
    pre_connect_delay_ms: u64,
}

impl View for GuildConnection {
    type V = GuildView;

    closed spec fn view(&self) -> GuildView {
        GuildView {
            pending_session: text_view(self.pending_session),
            pending_endpoint: text_view(self.pending_endpoint),
            pending_token: text_view(self.pending_token),
            active: match self.active {
                Some(credentials) => Some(credentials@),
                None => None,
            },
            connecting: self.connecting,
            last_channel: self.last_channel,
            reconnect_count: self.reconnect_count,
            transitioning: self.transitioning,
            awaiting_leave: self.awaiting_leave,
            pre_connect_delay_ms: self.pre_connect_delay_ms,
        }
    }
}

impl GuildConnection {
    /// Nothing is known.
    pub fn new() -> (guild: Self)
        ensures
            guild@ == GuildView::initial(),
            guild@.wf(),
    {
        Self {
            pending_session: None,
            pending_endpoint: None,
            pending_token: None,
            active: None,
            connecting: false,
            last_channel: None,
            reconnect_count: 0,
            transitioning: false,
            awaiting_leave: false,
            pre_connect_delay_ms: 0,
        }
    }

    fn clear_pending(&mut self)
        ensures
            final(self)@ == old(self)@.without_pending(),
    {
        self.pending_session = None;
        self.pending_endpoint = None;
        self.pending_token = None;
    }

    /// The connection, and what was to become one, are gone.
    pub fn tear_down(&mut self)
        ensures
            final(self)@ == old(self)@.torn_down(),
    {
        self.clear_pending();
        self.active = None;
        self.connecting = false;
    }

    /// A voice server update came. Says whether to see about connecting; without
    /// an endpoint the session is destroyed, and the call is to be torn down.
    pub fn on_server_update(&mut self, endpoint: Option<String>, token: String) -> (check: bool)
        ensures
            check == (endpoint is Some),
            final(self)@ == match endpoint {
                None => old(self)@.torn_down(),
                Some(endpoint) => GuildView {
                    pending_endpoint: Some(endpoint@),
                    pending_token: Some(token@),
                    ..old(self)@
                },
            },
    {
        match endpoint {
            None => {
                self.tear_down();
                false
            },
            Some(endpoint) => {
                self.pending_endpoint = Some(endpoint);
                self.pending_token = Some(token);
                true
            },
        }
    }

    /// A voice state came. Says what to do about it.
    pub fn on_state_update(
        &mut self,
        our_id: u64,
        user_id: u64,
        channel_id: Option<u64>,
        session_id: String,
    ) -> (decision: StateDecision)
        ensures
            decision == if user_id != our_id {
                StateDecision::NotOurs
            } else if channel_id is None {
                StateDecision::Left { confirm: old(self)@.awaiting_leave }
            } else {
                StateDecision::Check
            },
            final(self)@ == if user_id != our_id {
                old(self)@
            } else if channel_id is None {
                GuildView { awaiting_leave: false, ..old(self)@.torn_down() }
            } else {
                GuildView {
                    last_channel: channel_id,
                    pending_session: Some(session_id@),
                    ..old(self)@
                }
            },
    {
        if user_id != our_id {
            return StateDecision::NotOurs;
        }
        if channel_id.is_none() {
            let confirm: bool = self.awaiting_leave;
            self.awaiting_leave = false;
            self.tear_down();
            return StateDecision::Left { confirm };
        }
        self.last_channel = channel_id;
        self.pending_session = Some(session_id);
        StateDecision::Check
    }

    /// See whether to connect. `alive` says whether there is a call whose
    /// connection is alive.
    pub fn begin_connect(&mut self, alive: bool) -> (decision: ConnectDecision)
        ensures
            (decision@, final(self)@) == old(self)@.connect_decided(alive),
    {
        if self.transitioning {
            return ConnectDecision::Suppressed;
        }
        let credentials = match (
            &self.pending_endpoint,
            &self.pending_token,
            &self.pending_session,
        ) {
            (Some(endpoint), Some(token), Some(session_id)) => Credentials {
                endpoint: endpoint.clone(),
                token: token.clone(),
                session_id: session_id.clone(),
            },
            _ => return ConnectDecision::Incomplete,
        };
        if self.connecting {
            return ConnectDecision::AlreadyConnecting;
        }
        let same: bool = match &self.active {
            Some(active) => active.endpoint == credentials.endpoint && active.token
                == credentials.token && active.session_id == credentials.session_id,
            None => false,
        };
        self.clear_pending();
        if same && alive {
            return ConnectDecision::AlreadyConnected;
        }
        self.connecting = true;
        ConnectDecision::Connect(credentials)
    }

    /// How long to wait before the connection is made. Asking uses it up.
    pub fn take_pre_connect_delay(&mut self) -> (delay_ms: u64)
        ensures
            delay_ms == old(self)@.pre_connect_delay_ms,
            final(self)@ == (GuildView { pre_connect_delay_ms: 0, ..old(self)@ }),
    {
        let delay_ms: u64 = self.pre_connect_delay_ms;
        self.pre_connect_delay_ms = 0;
        delay_ms
    }

    /// Making a connection ended. Says whether there is a call now.
    ///
    /// The counter of attempts is not reset yet: a connection may die right
    /// after it was made.
    pub fn connect_finished(&mut self, outcome: ConnectOutcome, credentials: Credentials) -> (call:
        bool)
        ensures
            call == (outcome is Ready),
            final(self)@ == (GuildView {
                connecting: false,
                active: if outcome is Ready {
                    Some(credentials@)
                } else {
                    None
                },
                ..old(self)@
            }),
    {
        self.connecting = false;
        match outcome {
            ConnectOutcome::Ready => {
                self.active = Some(credentials);
                true
            },
            ConnectOutcome::Died | ConnectOutcome::Failed => {
                self.active = None;
                false
            },
        }
    }

    /// Some time after a connection was made: see whether it died without
    /// having sent a frame, and what to do about that. `probe` is `None` if the
    /// call is gone.
    pub fn check_liveness(&mut self, probe: Option<Probe>) -> (recovery: Recovery)
        requires
            old(self)@.wf(),
        ensures
            final(self)@.wf(),
            if died_silently(probe) {
                (recovery, final(self)@) == old(self)@.death_handled(probe->0.close_code)
            } else {
                recovery == Recovery::Healthy && final(self)@ == (GuildView {
                    reconnect_count: 0,
                    ..old(self)@
                })
            },
    {
        let close_code: u16 = match probe {
            Some(probe) => {
                if probe.alive || probe.frames_sent > 0 {
                    self.reconnect_count = 0;
                    return Recovery::Healthy;
                }
                probe.close_code
            },
            None => {
                self.reconnect_count = 0;
                return Recovery::Healthy;
            },
        };
        self.active = None;
        self.clear_pending();
        if close_code != 4006 && close_code != 4014 && close_code != 4015 {
            return Recovery::NotRecoverable;
        }
        if self.reconnect_count >= MAX_RECONNECT_ATTEMPTS {
            self.reconnect_count = 0;
            return Recovery::GiveUp;
        }
        self.reconnect_count = self.reconnect_count + 1;
        let attempt: u8 = self.reconnect_count;
        match self.last_channel {
            None => Recovery::NoChannel,
            Some(channel_id) => {
                self.transitioning = true;
                self.awaiting_leave = true;
                Recovery::Rejoin {
                    channel_id,
                    attempt,
                    delay_ms: scale(BASE_REJOIN_DELAY_MS, attempt),
                }
            },
        }
    }

    /// The message that we leave could not be sent: there is no rejoining.
    pub fn abort_rejoin(&mut self)
        ensures
            final(self)@ == (GuildView {
                transitioning: false,
                awaiting_leave: false,
                ..old(self)@
            }),
    {
        self.transitioning = false;
        self.awaiting_leave = false;
    }

    /// The wait is over: we are about to join again. The next connection waits
    /// for 1, 2 or 4 seconds, so that the old session is gone by then.
    pub fn begin_rejoin(&mut self, attempt: u8)
        ensures
            final(self)@ == (GuildView {
                pre_connect_delay_ms: scaled(BASE_PRE_CONNECT_DELAY_MS, attempt),
                transitioning: false,
                ..old(self)@.without_pending()
            }),
    {
        self.pre_connect_delay_ms = scale(BASE_PRE_CONNECT_DELAY_MS, attempt);
        self.transitioning = false;
        self.clear_pending();
    }

    /// A join was asked for: leave first, and do not connect meanwhile.
    pub fn begin_join(&mut self)
        ensures
            final(self)@ == (GuildView { transitioning: true, ..old(self)@.torn_down() }),
    {
        self.tear_down();
        self.transitioning = true;
    }

    /// The wait between leaving and joining is over.
    pub fn finish_join(&mut self, channel_id: u64)
        ensures
            final(self)@ == (GuildView {
                transitioning: false,
                last_channel: Some(channel_id),
                reconnect_count: 0,
                ..old(self)@
            }),
    {
        self.transitioning = false;
        self.last_channel = Some(channel_id);
        self.reconnect_count = 0;
    }

    /// We were asked to leave: forget everything.
    pub fn leave(&mut self)
        ensures
            final(self)@ == GuildView::initial(),
    {
        self.tear_down();
        self.last_channel = None;
        self.reconnect_count = 0;
        self.transitioning = false;
        self.awaiting_leave = false;
        self.pre_connect_delay_ms = 0;
    }
}

/// The connection is dead, and not one frame was sent over it.
pub open spec fn died_silently(probe: Option<Probe>) -> bool {
    probe matches Some(probe) && !probe.alive && probe.frames_sent == 0
}

/// As long as no connection is being made and we are not between leaving and
/// joining, complete credentials that differ in endpoint, token or session ID
/// from those of the last connection call for a new one with them, whether or not
/// the old one is alive.
pub proof fn new_credentials_connect(
    guild: &mut GuildConnection,
    alive: bool,
    decision: ConnectDecision,
    endpoint: Seq<char>,
    token: Seq<char>,
    session_id: Seq<char>,
)
    requires
        call_ensures(GuildConnection::begin_connect, (guild, alive), decision),
        !old(guild)@.transitioning,
        !old(guild)@.connecting,
        old(guild)@.pending_endpoint == Some(endpoint),
        old(guild)@.pending_token == Some(token),
        old(guild)@.pending_session == Some(session_id),
        old(guild)@.active matches Some(active) ==> active.endpoint != endpoint || active.token
            != token || active.session_id != session_id,
    ensures
        decision matches ConnectDecision::Connect(found) && found.endpoint@ == endpoint
            && found.token@ == token && found.session_id@ == session_id,
        final(guild)@ == (GuildView {
            connecting: true,
            pending_endpoint: None,
            pending_token: None,
            pending_session: None,
            ..old(guild)@
        }),
{
}

/// The credentials of the last connection call for a new one exactly if that
/// connection is dead.
pub proof fn known_credentials_connect_if_dead(
    guild: &mut GuildConnection,
    alive: bool,
    decision: ConnectDecision,
    active: CredentialsView,
)
    requires
        call_ensures(GuildConnection::begin_connect, (guild, alive), decision),
        !old(guild)@.transitioning,
        !old(guild)@.connecting,
        old(guild)@.active == Some(active),
        old(guild)@.pending_endpoint == Some(active.endpoint),
        old(guild)@.pending_token == Some(active.token),
        old(guild)@.pending_session == Some(active.session_id),
    ensures
        alive ==> decision is AlreadyConnected,
        !alive ==> (decision matches ConnectDecision::Connect(found) && found@ == active),
        final(guild)@ == (GuildView {
            connecting: !alive,
            pending_endpoint: None,
            pending_token: None,
            pending_session: None,
            ..old(guild)@
        }),
{
}

/// Between leaving and joining every connection is suppressed; else one that lacks
/// endpoint, token or session ID waits for it; and one that is complete waits for
/// the one that is being made. What is pending stays pending.
pub proof fn connections_wait(guild: &mut GuildConnection, alive: bool, decision: ConnectDecision)
    requires
        call_ensures(GuildConnection::begin_connect, (guild, alive), decision),
    ensures
        old(guild)@.transitioning <==> decision is Suppressed,
        !old(guild)@.transitioning && (old(guild)@.pending_endpoint is None
            || old(guild)@.pending_token is None || old(guild)@.pending_session is None)
            <==> decision is Incomplete,
        !old(guild)@.transitioning && old(guild)@.pending_endpoint is Some
            && old(guild)@.pending_token is Some && old(guild)@.pending_session is Some
            && old(guild)@.connecting <==> decision is AlreadyConnecting,
        decision is Suppressed || decision is Incomplete || decision is AlreadyConnecting
            ==> final(guild)@ == old(guild)@,
{
}

/// A server update and our own voice state, in either order, complete the
/// credentials: endpoint and token are those of the one, the session ID is that of
/// the other, and the channel is remembered.
pub proof fn updates_complete_credentials(
    first: &mut GuildConnection,
    second: &mut GuildConnection,
    server_first: bool,
    endpoint: String,
    token: String,
    our_id: u64,
    channel_id: u64,
    session_id: String,
    check: bool,
    decision: StateDecision,
)
    requires
        final(first)@ == old(second)@,
        server_first ==> call_ensures(
            GuildConnection::on_server_update,
            (first, Some(endpoint), token),
            check,
        ) && call_ensures(
            GuildConnection::on_state_update,
            (second, our_id, our_id, Some(channel_id), session_id),
            decision,
        ),
        !server_first ==> call_ensures(
            GuildConnection::on_state_update,
            (first, our_id, our_id, Some(channel_id), session_id),
            decision,
        ) && call_ensures(
            GuildConnection::on_server_update,
            (second, Some(endpoint), token),
            check,
        ),
    ensures
        check,
        decision == StateDecision::Check,
        final(second)@.pending_endpoint == Some(endpoint@),
        final(second)@.pending_token == Some(token@),
        final(second)@.pending_session == Some(session_id@),
        final(second)@.last_channel == Some(channel_id),
        final(second)@.active == old(first)@.active,
        final(second)@.connecting == old(first)@.connecting,
        final(second)@.transitioning == old(first)@.transitioning,
        final(second)@.awaiting_leave == old(first)@.awaiting_leave,
        final(second)@.reconnect_count == old(first)@.reconnect_count,
        final(second)@.pre_connect_delay_ms == old(first)@.pre_connect_delay_ms,
{
}

/// A server update without an endpoint, and the news that we are in no channel, end
/// the connection and drop what is pending. Who waits for the confirmation that we
/// left gets it then, once. The voice states of others change nothing.
pub proof fn losing_the_channel_ends_the_connection(
    guild: &mut GuildConnection,
    token: String,
    our_id: u64,
    user_id: u64,
    channel_id: Option<u64>,
    session_id: String,
    check: bool,
    decision: StateDecision,
    by_server: bool,
)
    requires
        by_server ==> call_ensures(
            GuildConnection::on_server_update,
            (guild, None, token),
            check,
        ),
        !by_server ==> call_ensures(
            GuildConnection::on_state_update,
            (guild, our_id, user_id, channel_id, session_id),
            decision,
        ),
    ensures
        by_server || (user_id == our_id && channel_id is None) ==> {
            &&& final(guild)@.active is None
            &&& !final(guild)@.connecting
            &&& final(guild)@.pending_endpoint is None
            &&& final(guild)@.pending_token is None
            &&& final(guild)@.pending_session is None
            &&& final(guild)@.last_channel == old(guild)@.last_channel
            &&& final(guild)@.transitioning == old(guild)@.transitioning
            &&& final(guild)@.reconnect_count == old(guild)@.reconnect_count
            &&& final(guild)@.pre_connect_delay_ms == old(guild)@.pre_connect_delay_ms
        },
        by_server ==> !check && final(guild)@.awaiting_leave == old(guild)@.awaiting_leave,
        !by_server && user_id == our_id && channel_id is None ==> decision
            == (StateDecision::Left { confirm: old(guild)@.awaiting_leave })
            && !final(guild)@.awaiting_leave,
        !by_server && user_id != our_id ==> decision == StateDecision::NotOurs && final(guild)@
            == old(guild)@,
{
}

/// A connection that is alive, that has sent a frame, or that is gone is healthy,
/// and the count of attempts begins anew.
pub proof fn healthy_connections_stay(
    guild: &mut GuildConnection,
    probe: Option<Probe>,
    recovery: Recovery,
)
    requires
        call_ensures(GuildConnection::check_liveness, (guild, probe), recovery),
        probe matches Some(found) ==> found.alive || found.frames_sent > 0,
    ensures
        recovery == Recovery::Healthy,
        final(guild)@ == (GuildView { reconnect_count: 0, ..old(guild)@ }),
{
}

/// A connection that died before its first frame is forgotten. With the close codes
/// 4006, 4014 and 4015, and with no other, it is tried again in the channel we were
/// in: up to three times in a row, with 2, 4 and 8 seconds in between, and not a
/// fourth time.
pub proof fn dead_connections_rejoin(
    guild: &mut GuildConnection,
    probe: Probe,
    recovery: Recovery,
)
    requires
        call_ensures(GuildConnection::check_liveness, (guild, Some(probe)), recovery),
        !probe.alive,
        probe.frames_sent == 0,
        old(guild)@.reconnect_count <= 3,
    ensures
        final(guild)@ == (GuildView {
            active: None,
            pending_endpoint: None,
            pending_token: None,
            pending_session: None,
            reconnect_count: final(guild)@.reconnect_count,
            transitioning: old(guild)@.transitioning || recovery is Rejoin,
            awaiting_leave: old(guild)@.awaiting_leave || recovery is Rejoin,
            ..old(guild)@
        }),
        recovery == Recovery::NotRecoverable <==> probe.close_code != 4006 && probe.close_code
            != 4014 && probe.close_code != 4015,
        recovery == Recovery::NotRecoverable ==> final(guild)@.reconnect_count
            == old(guild)@.reconnect_count,
        recovery != Recovery::NotRecoverable && old(guild)@.reconnect_count == 3 ==> recovery
            == Recovery::GiveUp && final(guild)@.reconnect_count == 0,
        recovery != Recovery::NotRecoverable && old(guild)@.reconnect_count < 3 ==> {
            &&& final(guild)@.reconnect_count == old(guild)@.reconnect_count + 1
            &&& match old(guild)@.last_channel {
                None => recovery == Recovery::NoChannel,
                Some(channel) => {
                    &&& recovery matches Recovery::Rejoin { channel_id, attempt, delay_ms }
                    &&& channel_id == channel
                    &&& attempt == old(guild)@.reconnect_count + 1
                    &&& attempt == 1 ==> delay_ms == 2000
                    &&& attempt == 2 ==> delay_ms == 4000
                    &&& attempt == 3 ==> delay_ms == 8000
                },
            }
        },
{
}

/// Behind the wait for rejoining, the next connection waits for 1, 2 and 4 seconds
/// at the first, second and third attempt; asking for that delay uses it up, so the
/// connection behind it waits for none.
pub proof fn rejoining_waits_once(
    begun: &mut GuildConnection,
    attempt: u8,
    asked: &mut GuildConnection,
    delay_ms: u64,
    asked_again: &mut GuildConnection,
    delay_again_ms: u64,
)
    requires
        1 <= attempt <= 3,
        call_ensures(GuildConnection::begin_rejoin, (begun, attempt), ()),
        final(begun)@ == old(asked)@,
        call_ensures(GuildConnection::take_pre_connect_delay, (asked,), delay_ms),
        final(asked)@ == old(asked_again)@,
        call_ensures(GuildConnection::take_pre_connect_delay, (asked_again,), delay_again_ms),
    ensures
        attempt == 1 ==> delay_ms == 1000,
        attempt == 2 ==> delay_ms == 2000,
        attempt == 3 ==> delay_ms == 4000,
        delay_again_ms == 0,
        final(begun)@ == (GuildView {
            transitioning: false,
            pending_endpoint: None,
            pending_token: None,
            pending_session: None,
            pre_connect_delay_ms: delay_ms,
            ..old(begun)@
        }),
        final(asked)@ == (GuildView { pre_connect_delay_ms: 0, ..final(begun)@ }),
{
}

/// A connection that is ready becomes the one whose credentials count; one that
/// died or failed leaves none. Either way none is being made any more, and the
/// attempts are still counted.
pub proof fn finished_connection_counts(
    guild: &mut GuildConnection,
    outcome: ConnectOutcome,
    credentials: Credentials,
    call: bool,
)
    requires
        call_ensures(GuildConnection::connect_finished, (guild, outcome, credentials), call),
    ensures
        call <==> outcome == ConnectOutcome::Ready,
        outcome == ConnectOutcome::Ready ==> final(guild)@ == (GuildView {
            active: Some(credentials@),
            connecting: false,
            ..old(guild)@
        }),
        outcome != ConnectOutcome::Ready ==> final(guild)@ == (GuildView {
            active: None,
            connecting: false,
            ..old(guild)@
        }),
{
}

/// From the request to join until the wait is over no connection is begun; then the
/// channel is the one that was asked for, the attempts count from zero, and
/// connections are made again.
pub proof fn joining_starts_over(
    begun: &mut GuildConnection,
    tried: &mut GuildConnection,
    alive: bool,
    decision: ConnectDecision,
    finished: &mut GuildConnection,
    channel_id: u64,
)
    requires
        call_ensures(GuildConnection::begin_join, (begun,), ()),
        final(begun)@ == old(tried)@,
        call_ensures(GuildConnection::begin_connect, (tried, alive), decision),
        final(tried)@ == old(finished)@,
        call_ensures(GuildConnection::finish_join, (finished, channel_id), ()),
    ensures
        decision is Suppressed,
        final(begun)@.last_channel == old(begun)@.last_channel,
        final(begun)@.reconnect_count == old(begun)@.reconnect_count,
        final(finished)@.last_channel == Some(channel_id),
        final(finished)@.reconnect_count == 0,
        !final(finished)@.transitioning,
        final(finished)@.active is None,
        !final(finished)@.connecting,
        final(finished)@.pending_endpoint is None,
        final(finished)@.pending_token is None,
        final(finished)@.pending_session is None,
        final(finished)@.awaiting_leave == old(begun)@.awaiting_leave,
        final(finished)@.pre_connect_delay_ms == old(begun)@.pre_connect_delay_ms,
{
}

/// A guild that was left is as one of which nothing was ever known.
pub proof fn leaving_forgets_everything(guild: &mut GuildConnection, fresh: GuildConnection)
    requires
        call_ensures(GuildConnection::leave, (guild,), ()),
        call_ensures(GuildConnection::new, (), fresh),
    ensures
        final(guild)@ == fresh@,
        fresh@.active is None,
        fresh@.last_channel is None,
        fresh@.pending_endpoint is None,
        fresh@.pending_token is None,
        fresh@.pending_session is None,
        !fresh@.connecting,
        !fresh@.transitioning,
        !fresh@.awaiting_leave,
        fresh@.reconnect_count == 0,
        fresh@.pre_connect_delay_ms == 0,
{
}

/// A rejoin that was given up no longer holds connections back, and nobody waits
/// for us to leave; all else stays.
pub proof fn aborted_rejoin_lets_connect(guild: &mut GuildConnection)
    requires
        call_ensures(GuildConnection::abort_rejoin, (guild,), ()),
    ensures
        !final(guild)@.transitioning,
        !final(guild)@.awaiting_leave,
        final(guild)@.active == old(guild)@.active,
        final(guild)@.pending() == old(guild)@.pending(),
        final(guild)@.connecting == old(guild)@.connecting,
        final(guild)@.last_channel == old(guild)@.last_channel,
        final(guild)@.reconnect_count == old(guild)@.reconnect_count,
        final(guild)@.pre_connect_delay_ms == old(guild)@.pre_connect_delay_ms,
{
}

/// A call that is torn down leaves neither a connection nor credentials for one,
/// and touches nothing else.
pub proof fn teardown_forgets_the_connection(guild: &mut GuildConnection)
    requires
        call_ensures(GuildConnection::tear_down, (guild,), ()),
    ensures
        final(guild)@.active is None,
        !final(guild)@.connecting,
        final(guild)@.pending_endpoint is None,
        final(guild)@.pending_token is None,
        final(guild)@.pending_session is None,
        final(guild)@.last_channel == old(guild)@.last_channel,
        final(guild)@.reconnect_count == old(guild)@.reconnect_count,
        final(guild)@.transitioning == old(guild)@.transitioning,
        final(guild)@.awaiting_leave == old(guild)@.awaiting_leave,
        final(guild)@.pre_connect_delay_ms == old(guild)@.pre_connect_delay_ms,
{
}

/// A guild belongs to the shard that its ID without the low 22 bits leaves as
/// remainder of the number of shards, and to shard 0 where there is only one.
pub proof fn shard_is_a_remainder(
    guild_id: u64,
    num_shards: u64,
    shard: u32,
    time: nat,
    low: nat,
    rounds: nat,
    rest: nat,
)
    requires
        call_ensures(target_shard, (guild_id, num_shards), shard),
        guild_id == 4194304 * time + low,
        low < 4194304,
        time == num_shards * rounds + rest,
        rest < num_shards <= 4294967296,
    ensures
        shard == rest,
        num_shards == 1 ==> shard == 0,
{
    assert(guild_id / 0x40_0000 == time);
    assert(num_shards * rounds == rounds * num_shards) by (nonlinear_arith);
    vstd::arithmetic::div_mod::lemma_fundamental_div_mod_converse(
        time as int,
        num_shards as int,
        rounds as int,
        rest as int,
    );
}

} // verus!
