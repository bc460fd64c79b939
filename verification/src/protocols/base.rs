//! What every exchange connection shares: statistics, capabilities, the
//! factory interface and the reconnection policy.
use vstd::prelude::*;
use vstd::arithmetic::power2::{pow2, lemma_pow2_pos, lemma_pow2_unfold, lemma_pow2_strictly_increases};

use crate::protocols::ninjatrader::NinjaTraderConnection;
use crate::protocols::websocket::WebSocketConnection;
use crate::types::{ExchangeConfig, ExchangeId, ExchangeIdView};

verus! {

#[verifier::external_type_specification]
#[verifier::external_body]
pub struct ExSystemTime(std::time::SystemTime);

#[verifier::external_type_specification]
#[verifier::external_body]
pub struct ExSystemTimeError(std::time::SystemTimeError);

/// `std::time::SystemTime::now()`. Nothing is claimed of the value: it is
/// whatever the system clock says.
#[verifier::external_body]
fn system_time_now() -> std::time::SystemTime {
    std::time::SystemTime::now()
}

/// `t.duration_since(std::time::UNIX_EPOCH)`: the time elapsed since the Unix
/// epoch, or an error for a time before it. Nothing is claimed of the value.
#[verifier::external_body]
fn since_unix_epoch(t: &std::time::SystemTime) -> Result<
    std::time::Duration,
    std::time::SystemTimeError,
> {
    t.duration_since(std::time::UNIX_EPOCH)
}

/// `std::time::Duration::as_nanos`: the whole duration in nanoseconds. Nothing
/// is claimed of the value.
#[verifier::external_body]
fn duration_nanos(d: &std::time::Duration) -> u128 {
    d.as_nanos()
}

/// The system clock's time as nanoseconds since the Unix epoch, cut to an `i64`
/// as `as` does; 0 for a clock set before the epoch.
pub(crate) fn unix_time_nanos() -> i64 {
    let now = system_time_now();
    match since_unix_epoch(&now) {
        Ok(d) => duration_nanos(&d) as i64,
        Err(_) => 0,
    }
}

/// Connection statistics; times are nanoseconds since the Unix epoch.
#[derive(Debug, Clone, Copy, PartialEq, Eq)]
pub struct ConnectionStats {
    pub messages_received: u64,
    pub bytes_received: u64,
    pub messages_sent: u64,
    pub bytes_sent: u64,
    pub last_message_time: Option<i64>,
    pub connection_time: Option<i64>,
    pub error_count: u64,
    pub reconnect_count: u64,
}

/// Statistics of a connection that has done nothing yet.
pub open spec fn zero_stats() -> ConnectionStats {
    ConnectionStats {
        messages_received: 0,
        bytes_received: 0,
        messages_sent: 0,
        bytes_sent: 0,
        last_message_time: None,
        connection_time: None,
        error_count: 0,
        reconnect_count: 0,
    }
}

impl Default for ConnectionStats {
    fn default() -> (r: Self)
        ensures
            r == zero_stats(),
    {
        ConnectionStats {
            messages_received: 0,
            bytes_received: 0,
            messages_sent: 0,
            bytes_sent: 0,
            last_message_time: None,
            connection_time: None,
            error_count: 0,
            reconnect_count: 0,
        }
    }
}

/// Exchange capabilities.
#[derive(Debug, Clone, Copy, PartialEq, Eq)]
pub enum ExchangeFeature {
    MarketData,
    OrderExecution,
    HistoricalData,
    AccountData,
    RealTimeNews,
    OptionsTrading,
    FuturesTrading,
    CryptoTrading,
}

/// Why a connection refused a request.
#[derive(Debug, PartialEq, Eq)]
pub enum ConnectionError {
    /// The exchange does not execute orders over this connection.
    OrderExecutionUnsupported,
}

/// A connection that a factory of this library can create.
pub enum ExchangeConnectionKind {
    NinjaTrader(NinjaTraderConnection),
    WebSocket(WebSocketConnection),
}

/// Why a factory made no connection.
#[derive(Debug, PartialEq, Eq)]
pub enum FactoryError {
    /// The configuration names an exchange the factory cannot serve.
    InvalidExchangeId,
    /// A factory's own reason.
    Other(String),
}

/// Factory for creating exchange connections.
pub trait ConnectionFactory {
    /// Create a new connection with the given configuration.
    fn create_connection(&self, config: ExchangeConfig) -> Result<
        ExchangeConnectionKind,
        FactoryError,
    >;

    /// Get the exchange ID this factory supports.
    fn exchange_id(&self) -> ExchangeId;

    /// Get supported features.
    fn supported_features(&self) -> Vec<ExchangeFeature>;
}

/// The state of a connection as plain values.
pub struct BaseConnectionView {
    pub exchange_id: ExchangeIdView,
    pub stats: ConnectionStats,
    pub connected: bool,
}

/// Base implementation for exchange connections: identity, configuration,
/// statistics and whether the connection is up.
pub struct BaseExchangeConnection {
    exchange_id: ExchangeId,
    config: ExchangeConfig,
    stats: ConnectionStats,
    is_connected: bool,
}

impl View for BaseExchangeConnection {
    type V = BaseConnectionView;

    closed spec fn view(&self) -> BaseConnectionView {
        BaseConnectionView {
            exchange_id: self.exchange_id@,
            stats: self.stats,
            connected: self.is_connected,
        }
    }
}

/// Whether one more received message of `bytes` bytes fits the counters.
pub open spec fn can_record_received(stats: ConnectionStats, bytes: usize) -> bool {
    stats.messages_received < u64::MAX && stats.bytes_received + bytes <= u64::MAX
}

/// Whether one more sent message of `bytes` bytes fits the counters.
pub open spec fn can_record_sent(stats: ConnectionStats, bytes: usize) -> bool {
    stats.messages_sent < u64::MAX && stats.bytes_sent + bytes <= u64::MAX
}

impl BaseExchangeConnection {
    /// The configuration the connection was made with.
    pub closed spec fn spec_config(&self) -> ExchangeConfig {
        self.config
    }

    /// Create a new base connection: not connected, all counters zero.
    pub fn new(exchange_id: ExchangeId, config: ExchangeConfig) -> (r: Self)
        ensures
            r@ == (BaseConnectionView {
                exchange_id: exchange_id@,
                stats: zero_stats(),
                connected: false,
            }),
            r.spec_config() == config,
    {
        BaseExchangeConnection {
            exchange_id,
            config,
            stats: ConnectionStats::default(),
            is_connected: false,
        }
    }

    /// Get the exchange ID.
    pub fn exchange_id(&self) -> (r: ExchangeId)
        ensures
            r@ == self@.exchange_id,
    {
        self.exchange_id.clone()
    }

    /// Get the configuration.
    pub fn config(&self) -> (r: &ExchangeConfig)
        ensures
            *r == self.spec_config(),
    {
        &self.config
    }

    /// Get connection statistics.
    pub fn get_stats(&self) -> (r: ConnectionStats)
        ensures
            r == self@.stats,
    {
        self.stats
    }

    /// Check if connected.
    pub fn is_connected(&self) -> (r: bool)
        ensures
            r == self@.connected,
    {
        self.is_connected
    }

    /// Set connection status, with `now` as the time of connecting.
    pub fn set_connected_at(&mut self, connected: bool, now: i64)
        ensures
            final(self)@.exchange_id == old(self)@.exchange_id,
            final(self)@.connected == connected,
            final(self)@.stats == (if connected {
                ConnectionStats { connection_time: Some(now), ..old(self)@.stats }
            } else {
                old(self)@.stats
            }),
            final(self).spec_config() == old(self).spec_config(),
    {
        self.is_connected = connected;
        if connected {
            self.stats.connection_time = Some(now);
        }
    }

    /// Set connection status; connecting records the clock's time.
    pub fn set_connected(&mut self, connected: bool)
        ensures
            final(self)@.exchange_id == old(self)@.exchange_id,
            final(self)@.connected == connected,
            connected ==> final(self)@.stats.connection_time is Some && final(self)@.stats == (
            ConnectionStats { connection_time: final(self)@.stats.connection_time, ..old(self)@.stats }),
            !connected ==> final(self)@.stats == old(self)@.stats,
            final(self).spec_config() == old(self).spec_config(),
    {
        let now = unix_time_nanos();
        self.set_connected_at(connected, now);
    }

    /// Whether one more received message of `bytes` bytes fits the counters.
    pub fn can_record_received(&self, bytes: usize) -> (r: bool)
        ensures
            r == can_record_received(self@.stats, bytes),
    {
        self.stats.messages_received < u64::MAX && bytes as u64 <= u64::MAX
            - self.stats.bytes_received
    }

    /// Update statistics for a received message, received at `now`.
    pub fn update_received_stats_at(&mut self, bytes: usize, now: i64)
        requires
            can_record_received(old(self)@.stats, bytes),
        ensures
            final(self)@ == (BaseConnectionView {
                stats: ConnectionStats {
                    messages_received: (old(self)@.stats.messages_received + 1) as u64,
                    bytes_received: (old(self)@.stats.bytes_received + bytes) as u64,
                    last_message_time: Some(now),
                    ..old(self)@.stats
                },
                ..old(self)@
            }),
            final(self).spec_config() == old(self).spec_config(),
    {
        self.stats.messages_received = self.stats.messages_received + 1;
        self.stats.bytes_received = self.stats.bytes_received + bytes as u64;
        self.stats.last_message_time = Some(now);
    }

    /// Update statistics for a received message, at the clock's time.
    pub fn update_received_stats(&mut self, bytes: usize)
        requires
            can_record_received(old(self)@.stats, bytes),
        ensures
            final(self)@.stats.last_message_time is Some,
            final(self)@ == (BaseConnectionView {
                stats: ConnectionStats {
                    messages_received: (old(self)@.stats.messages_received + 1) as u64,
                    bytes_received: (old(self)@.stats.bytes_received + bytes) as u64,
                    last_message_time: final(self)@.stats.last_message_time,
                    ..old(self)@.stats
                },
                ..old(self)@
            }),
            final(self).spec_config() == old(self).spec_config(),
    {
        let now = unix_time_nanos();
        self.update_received_stats_at(bytes, now);
    }

    /// Whether one more sent message of `bytes` bytes fits the counters.
    pub fn can_record_sent(&self, bytes: usize) -> (r: bool)
        ensures
            r == can_record_sent(self@.stats, bytes),
    {
        self.stats.messages_sent < u64::MAX && bytes as u64 <= u64::MAX - self.stats.bytes_sent
    }

    /// Update statistics for a sent message.
    pub fn update_sent_stats(&mut self, bytes: usize)
        requires
            can_record_sent(old(self)@.stats, bytes),
        ensures
            final(self)@ == (BaseConnectionView {
                stats: ConnectionStats {
                    messages_sent: (old(self)@.stats.messages_sent + 1) as u64,
                    bytes_sent: (old(self)@.stats.bytes_sent + bytes) as u64,
                    ..old(self)@.stats
                },
                ..old(self)@
            }),
            final(self).spec_config() == old(self).spec_config(),
    {
        self.stats.messages_sent = self.stats.messages_sent + 1;
        self.stats.bytes_sent = self.stats.bytes_sent + bytes as u64;
    }

    /// Increment error count.
    pub fn increment_error_count(&mut self)
        requires
            old(self)@.stats.error_count < u64::MAX,
        ensures
            final(self)@ == (BaseConnectionView {
                stats: ConnectionStats {
                    error_count: (old(self)@.stats.error_count + 1) as u64,
                    ..old(self)@.stats
                },
                ..old(self)@
            }),
            final(self).spec_config() == old(self).spec_config(),
    {
        self.stats.error_count = self.stats.error_count + 1;
    }

    /// Increment reconnect count.
    pub fn increment_reconnect_count(&mut self)
        requires
            old(self)@.stats.reconnect_count < u64::MAX,
        ensures
            final(self)@ == (BaseConnectionView {
                stats: ConnectionStats {
                    reconnect_count: (old(self)@.stats.reconnect_count + 1) as u64,
                    ..old(self)@.stats
                },
                ..old(self)@
            }),
            final(self).spec_config() == old(self).spec_config(),
    {
        self.stats.reconnect_count = self.stats.reconnect_count + 1;
    }
}

/// The wait before attempt number `attempt` (counted from 1): the base delay,
/// doubled for every attempt before it.
pub open spec fn backoff_delay_ms(delay_ms: u64, attempt: nat) -> int {
    delay_ms * pow2((attempt - 1) as nat)
}

/// Whether the wait before the attempt after `done` attempts fits a `u64`.
pub open spec fn backoff_fits(delay_ms: u64, done: u32) -> bool {
    done < 64 && backoff_delay_ms(delay_ms, (done + 1) as nat) <= u64::MAX
}

/// The reconnection policy as plain values.
pub struct ReconnectView {
    pub max_attempts: u32,
    pub delay_ms: u64,
    pub current_attempts: u32,
}

/// Whether another attempt may be made.
pub open spec fn attempt_allowed(v: ReconnectView) -> bool {
    v.current_attempts < v.max_attempts
}

/// The policy after asking for an attempt: one more attempt counted when one is allowed.
pub open spec fn after_attempt(v: ReconnectView) -> ReconnectView {
    if attempt_allowed(v) {
        ReconnectView { current_attempts: (v.current_attempts + 1) as u32, ..v }
    } else {
        v
    }
}

/// The policy after asking for `n` attempts in a row.
pub open spec fn attempts_after(v: ReconnectView, n: nat) -> ReconnectView
    decreases n,
{
    if n == 0 {
        v
    } else {
        after_attempt(attempts_after(v, (n - 1) as nat))
    }
}

/// Why no reconnection attempt is made.
#[derive(Debug, PartialEq, Eq)]
pub enum ReconnectError {
    /// Every allowed attempt has been made since the last reset.
    MaxAttemptsReached,
}

/// Reconnection logic for exchange connections: a bounded number of attempts
/// with exponential backoff.
pub struct ReconnectHandler {
    max_attempts: u32,
    delay_ms: u64,
    current_attempts: u32,
}

impl View for ReconnectHandler {
    type V = ReconnectView;

    closed spec fn view(&self) -> ReconnectView {
        ReconnectView {
            max_attempts: self.max_attempts,
            delay_ms: self.delay_ms,
            current_attempts: self.current_attempts,
        }
    }
}

impl ReconnectHandler {
    pub fn new(max_attempts: u32, delay_ms: u64) -> (r: Self)
        ensures
            r@ == (ReconnectView { max_attempts, delay_ms, current_attempts: 0 }),
    {
        ReconnectHandler { max_attempts, delay_ms, current_attempts: 0 }
    }

    /// Reset the reconnection attempt counter.
    pub fn reset(&mut self)
        ensures
            final(self)@ == (ReconnectView { current_attempts: 0, ..old(self)@ }),
    {
        self.current_attempts = 0;
    }

    /// Check if more attempts are available.
    pub fn has_attempts_left(&self) -> (r: bool)
        ensures
            r == attempt_allowed(self@),
    {
        self.current_attempts < self.max_attempts
    }

    /// Whether the wait before the next attempt can be computed without overflow.
    pub fn next_delay_fits(&self) -> (r: bool)
        ensures
            r == backoff_fits(self@.delay_ms, self@.current_attempts),
    {
        if self.current_attempts >= 64 {
            return false;
        }
        let p = power_of_two(self.current_attempts);
        proof {
            lemma_pow2_pos(self.current_attempts as nat);
        }
        let r = self.delay_ms <= u64::MAX / p;
        proof {
            let d = self.delay_ms as int;
            let q = p as int;
            let m = u64::MAX as int;
            assert((d <= m / q) == (d * q <= m)) by (nonlinear_arith)
                requires
                    q > 0,
                    m >= 0,
                    d >= 0,
            ;
        }
        r
    }

    /// Begin a reconnection attempt: when attempts are left, count one more and
    /// return how many milliseconds to wait before it; otherwise refuse and
    /// change nothing.
    pub fn begin_attempt(&mut self) -> (r: Result<u64, ReconnectError>)
        requires
            attempt_allowed(old(self)@) ==> backoff_fits(
                old(self)@.delay_ms,
                old(self)@.current_attempts,
            ),
        ensures
            final(self)@ == after_attempt(old(self)@),
            !attempt_allowed(old(self)@) ==> r == Err::<u64, ReconnectError>(
                ReconnectError::MaxAttemptsReached,
            ),
            attempt_allowed(old(self)@) ==> r == Ok::<u64, ReconnectError>(
                backoff_delay_ms(old(self)@.delay_ms, final(self)@.current_attempts as nat) as u64,
            ),
    {
        if self.current_attempts >= self.max_attempts {
            return Err(ReconnectError::MaxAttemptsReached);
        }
        let p = power_of_two(self.current_attempts);
        self.current_attempts = self.current_attempts + 1;
        proof {
            assert(pow2(((self.current_attempts as nat) - 1) as nat) == p);
            assert(self.delay_ms * p <= u64::MAX);
        }
        Ok(self.delay_ms * p)
    }
}

/// `2^e` for an exponent below 64.
fn power_of_two(e: u32) -> (r: u64)
    requires
        e < 64,
    ensures
        r == pow2(e as nat),
{
    let mut r: u64 = 1;
    let mut i: u32 = 0;
    proof {
        vstd::arithmetic::power2::lemma2_to64();
    }
    while i < e
        invariant
            i <= e < 64,
            r == pow2(i as nat),
        decreases e - i,
    {
        proof {
            lemma_pow2_unfold((i + 1) as nat);
            lemma_pow2_strictly_increases((i + 1) as nat, 64);
            vstd::arithmetic::power2::lemma2_to64();
        }
        r = r * 2;
        i = i + 1;
    }
    r
}

/// After a reset, asking for attempts again and again gets exactly
/// `max_attempts` of them: the `n`-th request is granted exactly when `n` is at
/// most `max_attempts`, and the policy has counted the granted ones.
pub proof fn law_attempt_budget(v: ReconnectView, n: nat)
    ensures
        attempts_after(ReconnectView { current_attempts: 0, ..v }, n).current_attempts == (if n
            <= v.max_attempts {
            n
        } else {
            v.max_attempts as nat
        }),
        attempt_allowed(attempts_after(ReconnectView { current_attempts: 0, ..v }, n)) <==> n
            < v.max_attempts,
        attempts_after(ReconnectView { current_attempts: 0, ..v }, n).max_attempts
            == v.max_attempts,
        attempts_after(ReconnectView { current_attempts: 0, ..v }, n).delay_ms == v.delay_ms,
    decreases n,
{
    if n > 0 {
        law_attempt_budget(v, (n - 1) as nat);
    }
}

/// Consecutive attempts wait twice as long as the one before.
pub proof fn law_backoff_doubles(delay_ms: u64, attempt: nat)
    requires
        attempt >= 1,
    ensures
        backoff_delay_ms(delay_ms, attempt + 1) == 2 * backoff_delay_ms(delay_ms, attempt),
{
    lemma_pow2_unfold(attempt);
    assert(delay_ms * (2 * pow2((attempt - 1) as nat)) == 2 * (delay_ms * pow2(
        (attempt - 1) as nat,
    ))) by (nonlinear_arith);
}

} // verus!
