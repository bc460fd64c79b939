//! Connection manager: the connections in use, one per exchange, with the
//! health of each.
use vstd::prelude::*;

use crate::assoc::{
    assoc_map, lemma_assoc_all, lemma_assoc_index, lemma_assoc_push, lemma_assoc_remove,
    lemma_assoc_update,
};
use crate::types::{ConnectionHealth, ConnectionStatus, ConnectionStatusView, ExchangeId, ExchangeIdView, Symbol};

verus! {

/// Why the manager refused a request.
#[derive(Debug, PartialEq)]
pub enum ManagerError {
    /// No connection is managed for the exchange.
    NoConnection(ExchangeId),
}

/// Why a health check gave no answer.
#[derive(Debug, PartialEq, Eq)]
pub enum HealthCheckError {
    /// The check itself failed.
    CheckFailed,
}

/// What a health check changed.
#[derive(Debug, PartialEq, Eq)]
pub enum HealthUpdate {
    /// The exchange is not managed (any more): nothing changed.
    Untracked,
    /// The health was recorded; whether the connection is healthy did not change.
    Unchanged,
    /// The connection is healthy again.
    BecameHealthy,
    /// The connection is no longer healthy.
    BecameUnhealthy,
    /// The check failed: the connection is recorded unhealthy, with one more error.
    CheckFailed,
}

/// The status of a connection that has just been added.
pub open spec fn fresh_status(id: ExchangeIdView) -> ConnectionStatusView {
    ConnectionStatusView {
        exchange_id: id,
        health: ConnectionHealth::Healthy,
        last_message_time: None,
        messages_received: 0,
        bytes_received: 0,
        error_count: 0,
    }
}

/// The status after a health check answered `health`.
pub open spec fn checked_status(s: ConnectionStatusView, health: ConnectionHealth) -> ConnectionStatusView {
    ConnectionStatusView { health, ..s }
}

/// The status after a health check failed.
pub open spec fn failed_status(s: ConnectionStatusView) -> ConnectionStatusView {
    ConnectionStatusView {
        health: ConnectionHealth::Unhealthy,
        error_count: (s.error_count + 1) as u64,
        ..s
    }
}

/// The statuses after a health check of `id` answered `result`: an answer becomes
/// its health, a failure marks it unhealthy with one more error; an exchange that
/// is not managed is left out.
pub open spec fn after_health_check(
    statuses: Map<ExchangeIdView, ConnectionStatusView>,
    id: ExchangeIdView,
    result: Result<ConnectionHealth, HealthCheckError>,
) -> Map<ExchangeIdView, ConnectionStatusView> {
    if !statuses.contains_key(id) {
        statuses
    } else {
        match result {
            Ok(h) => statuses.insert(id, checked_status(statuses[id], h)),
            Err(_) => statuses.insert(id, failed_status(statuses[id])),
        }
    }
}

/// How a health check of `id` that answered `result` changes its health.
pub open spec fn health_update(
    statuses: Map<ExchangeIdView, ConnectionStatusView>,
    id: ExchangeIdView,
    result: Result<ConnectionHealth, HealthCheckError>,
) -> HealthUpdate {
    if !statuses.contains_key(id) {
        HealthUpdate::Untracked
    } else {
        match result {
            Ok(h) => if (statuses[id].health == ConnectionHealth::Healthy) == (h
                == ConnectionHealth::Healthy) {
                HealthUpdate::Unchanged
            } else if h == ConnectionHealth::Healthy {
                HealthUpdate::BecameHealthy
            } else {
                HealthUpdate::BecameUnhealthy
            },
            Err(_) => HealthUpdate::CheckFailed,
        }
    }
}

/// Whether a health check result can be recorded for the exchange without overflow.
pub open spec fn check_fits(
    statuses: Map<ExchangeIdView, ConnectionStatusView>,
    id: ExchangeIdView,
    result: Result<ConnectionHealth, HealthCheckError>,
) -> bool {
    statuses.contains_key(id) && result is Err ==> statuses[id].error_count < u64::MAX
}

/// Manager for exchange connections with health tracking: at most one
/// connection per exchange, each with its status.
pub struct ExchangeConnectionManager<C> {
    statuses: Vec<ConnectionStatus>,
    connections: Vec<C>,
}

impl<C> ExchangeConnectionManager<C> {
    /// The managed exchanges, in order.
    pub closed spec fn ids(self) -> Seq<ExchangeIdView> {
        self.statuses@.map_values(|s: ConnectionStatus| s.exchange_id@)
    }

    /// Their statuses, in order.
    pub closed spec fn status_views(self) -> Seq<ConnectionStatusView> {
        self.statuses@.map_values(|s: ConnectionStatus| s@)
    }

    /// The connection of each managed exchange.
    pub closed spec fn connection_map(self) -> Map<ExchangeIdView, C> {
        assoc_map(self.ids(), self.connections@)
    }

    #[verifier::type_invariant]
    closed spec fn one_connection_per_exchange(self) -> bool {
        &&& self.ids().no_duplicates()
        &&& self.connections@.len() == self.statuses@.len()
    }
}

impl<C> View for ExchangeConnectionManager<C> {
    /// The status of each managed exchange.
    type V = Map<ExchangeIdView, ConnectionStatusView>;

    closed spec fn view(&self) -> Map<ExchangeIdView, ConnectionStatusView> {
        assoc_map(self.ids(), self.status_views())
    }
}

impl<C> ExchangeConnectionManager<C> {
    /// Create a new connection manager, with no connection.
    pub fn new() -> (r: Self)
        ensures
            r@ == Map::<ExchangeIdView, ConnectionStatusView>::empty(),
            r.connection_map() == Map::<ExchangeIdView, C>::empty(),
    {
        let r = ExchangeConnectionManager { statuses: Vec::new(), connections: Vec::new() };
        assert(r@ =~= Map::<ExchangeIdView, ConnectionStatusView>::empty());
        assert(r.connection_map() =~= Map::<ExchangeIdView, C>::empty());
        r
    }

    /// The position of the exchange, if it is managed.
    fn position(&self, exchange_id: &ExchangeId) -> (r: Option<usize>)
        ensures
            match r {
                Some(i) => i < self.ids().len() && self.ids()[i as int] == exchange_id@,
                None => !self.ids().contains(exchange_id@),
            },
    {
        let mut i: usize = 0;
        while i < self.statuses.len()
            invariant
                0 <= i <= self.statuses.len(),
                forall|j: int| 0 <= j < i ==> self.ids()[j] != exchange_id@,
            decreases self.statuses.len() - i,
        {
            if self.statuses[i].exchange_id.same_as(exchange_id) {
                return Some(i);
            }
            i = i + 1;
        }
        None
    }

    /// Add a connection: it replaces any connection of the same exchange, and its
    /// status starts healthy with all counters zero.
    pub fn add_connection(&mut self, exchange_id: ExchangeId, connection: C)
        ensures
            final(self)@ == old(self)@.insert(exchange_id@, fresh_status(exchange_id@)),
            final(self).connection_map() == old(self).connection_map().insert(exchange_id@, connection),
    {
        proof {
            use_type_invariant(&*self);
        }
        let ghost ids = self.ids();
        let ghost sv = self.status_views();
        let ghost cs = self.connections@;
        let ghost id = exchange_id@;
        let found = self.position(&exchange_id);
        let mut taken = Self::new();
        std::mem::swap(&mut taken, self);
        proof {
            use_type_invariant(&taken);
        }
        let ExchangeConnectionManager { mut statuses, mut connections } = taken;
        let status = ConnectionStatus {
            exchange_id,
            health: ConnectionHealth::Healthy,
            last_message_time: None,
            messages_received: 0,
            bytes_received: 0,
            error_count: 0,
        };
        match found {
            Some(i) => {
                proof {
                    lemma_assoc_update(ids, sv, i as int, fresh_status(id));
                    lemma_assoc_update(ids, cs, i as int, connection);
                }
                statuses.set(i, status);
                connections.set(i, connection);
                assert(statuses@.map_values(|s: ConnectionStatus| s.exchange_id@) =~= ids);
                assert(statuses@.map_values(|s: ConnectionStatus| s@) =~= sv.update(
                    i as int,
                    fresh_status(id),
                ));
            },
            None => {
                proof {
                    lemma_assoc_push(ids, sv, id, fresh_status(id));
                    lemma_assoc_push(ids, cs, id, connection);
                }
                statuses.push(status);
                connections.push(connection);
                assert(statuses@.map_values(|s: ConnectionStatus| s.exchange_id@) =~= ids.push(id));
                assert(statuses@.map_values(|s: ConnectionStatus| s@) =~= sv.push(
                    fresh_status(id),
                ));
            },
        }
        *self = ExchangeConnectionManager { statuses, connections };
    }

    /// Route a subscription to market data for `symbols` on the exchange: it goes
    /// to the exchange's managed connection, which is handed back with the symbols
    /// for the caller to subscribe on; refused when no connection of the exchange
    /// is managed.
    pub fn subscribe<'a>(&'a self, exchange_id: ExchangeId, symbols: &'a [Symbol]) -> (r: Result<
        (&'a C, &'a [Symbol]),
        ManagerError,
    >)
        ensures
            r is Ok <==> self@.contains_key(exchange_id@),
            r is Ok <==> self.connection_map().contains_key(exchange_id@),
            r matches Ok((c, s)) ==> *c == self.connection_map()[exchange_id@] && s@ == symbols@,
            r matches Err(ManagerError::NoConnection(e)) ==> e@ == exchange_id@,
    {
        proof {
            use_type_invariant(self);
            lemma_assoc_all(self.ids(), self.status_views());
            lemma_assoc_all(self.ids(), self.connections@);
        }
        match self.position(&exchange_id) {
            Some(i) => Ok((&self.connections[i], symbols)),
            None => Err(ManagerError::NoConnection(exchange_id)),
        }
    }

    /// Connection status of all exchanges: each managed exchange once, with
    /// whether it is healthy.
    pub fn connection_status(&self) -> (r: Vec<(ExchangeId, bool)>)
        ensures
            r@.map_values(|e: (ExchangeId, bool)| e.0@).no_duplicates(),
            r@.map_values(|e: (ExchangeId, bool)| e.0@).to_set() == self@.dom(),
            forall|k: int|
                0 <= k < r@.len() ==> self@.contains_key((#[trigger] r@[k]).0@) && r@[k].1 == (
                self@[r@[k].0@].health == ConnectionHealth::Healthy),
    {
        proof {
            use_type_invariant(self);
            lemma_assoc_all(self.ids(), self.status_views());
        }
        let mut out: Vec<(ExchangeId, bool)> = Vec::new();
        let mut i: usize = 0;
        while i < self.statuses.len()
            invariant
                0 <= i <= self.statuses.len(),
                out@.len() == i,
                forall|k: int|
                    0 <= k < i ==> (#[trigger] out@[k]).0@ == self.ids()[k] && out@[k].1 == (
                    self.status_views()[k].health == ConnectionHealth::Healthy),
            decreases self.statuses.len() - i,
        {
            let s = &self.statuses[i];
            out.push((s.exchange_id.clone(), s.health.is_healthy()));
            i = i + 1;
        }
        proof {
            assert(out@.map_values(|e: (ExchangeId, bool)| e.0@) =~= self.ids());
            assert(self.ids().to_set() =~= self@.dom());
        }
        out
    }

    /// Detailed status of one exchange, if it is managed.
    pub fn get_connection_status(&self, exchange_id: ExchangeId) -> (r: Option<ConnectionStatus>)
        ensures
            match r {
                Some(s) => self@.contains_key(exchange_id@) && s@ == self@[exchange_id@],
                None => !self@.contains_key(exchange_id@),
            },
    {
        proof {
            use_type_invariant(self);
            lemma_assoc_all(self.ids(), self.status_views());
        }
        match self.position(&exchange_id) {
            Some(i) => Some(self.statuses[i].clone()),
            None => None,
        }
    }

    /// The connection of one exchange, if it is managed.
    pub fn connection(&self, exchange_id: &ExchangeId) -> (r: Option<&C>)
        ensures
            match r {
                Some(c) => self.connection_map().contains_key(exchange_id@) && *c
                    == self.connection_map()[exchange_id@],
                None => !self.connection_map().contains_key(exchange_id@),
            },
    {
        proof {
            use_type_invariant(self);
            lemma_assoc_all(self.ids(), self.connections@);
        }
        match self.position(exchange_id) {
            Some(i) => Some(&self.connections[i]),
            None => None,
        }
    }

    /// Remove the connection of an exchange; refused when none is managed.
    pub fn remove_connection(&mut self, exchange_id: ExchangeId) -> (r: Result<(), ManagerError>)
        ensures
            r is Ok <==> old(self)@.contains_key(exchange_id@),
            r matches Err(ManagerError::NoConnection(e)) ==> e@ == exchange_id@,
            final(self)@ == old(self)@.remove(exchange_id@),
            final(self).connection_map() == old(self).connection_map().remove(exchange_id@),
    {
        proof {
            use_type_invariant(&*self);
            lemma_assoc_all(self.ids(), self.status_views());
        }
        let ghost ids = self.ids();
        let ghost sv = self.status_views();
        let ghost cs = self.connections@;
        let found = self.position(&exchange_id);
        match found {
            None => {
                proof {
                    assert(old(self)@.remove(exchange_id@) =~= old(self)@);
                    lemma_assoc_all(ids, cs);
                    assert(old(self).connection_map().remove(exchange_id@) =~= old(
                        self,
                    ).connection_map());
                }
                Err(ManagerError::NoConnection(exchange_id))
            },
            Some(i) => {
                proof {
                    lemma_assoc_remove(ids, sv, i as int);
                    lemma_assoc_remove(ids, cs, i as int);
                }
                let mut taken = Self::new();
                std::mem::swap(&mut taken, self);
                proof {
                    use_type_invariant(&taken);
                }
                let ExchangeConnectionManager { mut statuses, mut connections } = taken;
                statuses.remove(i);
                connections.remove(i);
                assert(statuses@.map_values(|s: ConnectionStatus| s.exchange_id@) =~= ids.remove(
                    i as int,
                ));
                assert(statuses@.map_values(|s: ConnectionStatus| s@) =~= sv.remove(i as int));
                *self = ExchangeConnectionManager { statuses, connections };
                Ok(())
            },
        }
    }

    /// Whether a health check result can be recorded for the exchange.
    pub fn can_record_check(
        &self,
        exchange_id: &ExchangeId,
        result: &Result<ConnectionHealth, HealthCheckError>,
    ) -> (r: bool)
        ensures
            r == check_fits(self@, exchange_id@, *result),
    {
        proof {
            use_type_invariant(self);
            lemma_assoc_all(self.ids(), self.status_views());
        }
        match self.position(exchange_id) {
            None => true,
            Some(i) => {
                proof {
                    lemma_assoc_index(self.ids(), self.status_views(), i as int);
                }
                result.is_ok() || self.statuses[i].error_count < u64::MAX
            },
        }
    }

    /// Record the result of a health check of an exchange: an answer becomes its
    /// health; a failed check marks it unhealthy and counts an error. Says how
    /// the connection's health changed.
    pub fn apply_health_check(
        &mut self,
        exchange_id: &ExchangeId,
        result: Result<ConnectionHealth, HealthCheckError>,
    ) -> (r: HealthUpdate)
        requires
            check_fits(old(self)@, exchange_id@, result),
        ensures
            final(self).connection_map() == old(self).connection_map(),
            final(self)@ == after_health_check(old(self)@, exchange_id@, result),
            r == health_update(old(self)@, exchange_id@, result),
    {
        proof {
            use_type_invariant(&*self);
            lemma_assoc_all(self.ids(), self.status_views());
        }
        let ghost ids = self.ids();
        let ghost sv = self.status_views();
        let ghost cs = self.connections@;
        let found = self.position(exchange_id);
        let i = match found {
            None => return HealthUpdate::Untracked,
            Some(i) => i,
        };
        proof {
            lemma_assoc_index(ids, sv, i as int);
        }
        let mut taken = Self::new();
        std::mem::swap(&mut taken, self);
        proof {
            use_type_invariant(&taken);
        }
        let ExchangeConnectionManager { mut statuses, connections } = taken;
        let old_status = statuses[i].clone();
        let was_healthy = old_status.health.is_healthy();
        let (new_status, update) = match result {
            Ok(health) => {
                let is_healthy = health.is_healthy();
                let update = if was_healthy == is_healthy {
                    HealthUpdate::Unchanged
                } else if is_healthy {
                    HealthUpdate::BecameHealthy
                } else {
                    HealthUpdate::BecameUnhealthy
                };
                (ConnectionStatus { health, ..old_status }, update)
            },
            Err(_) => (
                ConnectionStatus {
                    health: ConnectionHealth::Unhealthy,
                    error_count: old_status.error_count + 1,
                    ..old_status
                },
                HealthUpdate::CheckFailed,
            ),
        };
        let ghost nv = new_status@;
        proof {
            lemma_assoc_update(ids, sv, i as int, nv);
        }
        statuses.set(i, new_status);
        assert(statuses@.map_values(|s: ConnectionStatus| s.exchange_id@) =~= ids);
        assert(statuses@.map_values(|s: ConnectionStatus| s@) =~= sv.update(i as int, nv));
        *self = ExchangeConnectionManager { statuses, connections };
        update
    }
}

impl<C> Default for ExchangeConnectionManager<C> {
    fn default() -> (r: Self)
        ensures
            r@ == Map::<ExchangeIdView, ConnectionStatusView>::empty(),
    {
        Self::new()
    }
}

/// Adding a connection for an exchange that had none, then removing it, gives
/// back the statuses as they were.
pub proof fn law_add_then_remove(
    before: Map<ExchangeIdView, ConnectionStatusView>,
    id: ExchangeIdView,
)
    requires
        !before.contains_key(id),
    ensures
        before.insert(id, fresh_status(id)).remove(id) == before,
{
    assert(before.insert(id, fresh_status(id)).remove(id) =~= before);
}

/// A connection that was just added reads back healthy with zero counters, and
/// once removed it is no longer managed.
pub proof fn law_add_then_query(before: Map<ExchangeIdView, ConnectionStatusView>, id: ExchangeIdView)
    ensures
        before.insert(id, fresh_status(id)).contains_key(id),
        before.insert(id, fresh_status(id))[id] == fresh_status(id),
        before.insert(id, fresh_status(id))[id].health == ConnectionHealth::Healthy,
        before.insert(id, fresh_status(id))[id].exchange_id == id,
        before.insert(id, fresh_status(id))[id].last_message_time is None,
        before.insert(id, fresh_status(id))[id].messages_received == 0,
        before.insert(id, fresh_status(id))[id].bytes_received == 0,
        before.insert(id, fresh_status(id))[id].error_count == 0,
        !before.insert(id, fresh_status(id)).remove(id).contains_key(id),
{
}

/// One change of the statuses, as the manager's operations make it.
pub enum ManagerStep {
    /// `add_connection` for the exchange.
    Add(ExchangeIdView),
    /// `remove_connection` for the exchange.
    Remove(ExchangeIdView),
    /// `apply_health_check` for the exchange with a result.
    Check(ExchangeIdView, Result<ConnectionHealth, HealthCheckError>),
}

/// The statuses after one step.
pub open spec fn step_statuses(
    statuses: Map<ExchangeIdView, ConnectionStatusView>,
    step: ManagerStep,
) -> Map<ExchangeIdView, ConnectionStatusView> {
    match step {
        ManagerStep::Add(id) => statuses.insert(id, fresh_status(id)),
        ManagerStep::Remove(id) => statuses.remove(id),
        ManagerStep::Check(id, result) => after_health_check(statuses, id, result),
    }
}

/// The statuses after the steps, in order.
pub open spec fn run_steps(
    statuses: Map<ExchangeIdView, ConnectionStatusView>,
    steps: Seq<ManagerStep>,
) -> Map<ExchangeIdView, ConnectionStatusView>
    decreases steps.len(),
{
    if steps.len() == 0 {
        statuses
    } else {
        run_steps(step_statuses(statuses, steps[0]), steps.drop_first())
    }
}

proof fn lemma_run_steps_append(
    statuses: Map<ExchangeIdView, ConnectionStatusView>,
    a: Seq<ManagerStep>,
    c: Seq<ManagerStep>,
)
    ensures
        run_steps(statuses, a + c) == run_steps(run_steps(statuses, a), c),
    decreases a.len(),
{
    if a.len() > 0 {
        assert((a + c).drop_first() =~= a.drop_first() + c);
        lemma_run_steps_append(step_statuses(statuses, a[0]), a.drop_first(), c);
    } else {
        assert(a + c =~= c);
    }
}

proof fn lemma_unmanaged_stays(
    statuses: Map<ExchangeIdView, ConnectionStatusView>,
    id: ExchangeIdView,
    steps: Seq<ManagerStep>,
)
    requires
        !statuses.contains_key(id),
        forall|i: int| 0 <= i < steps.len() ==> steps[i] != ManagerStep::Add(id),
    ensures
        !run_steps(statuses, steps).contains_key(id),
    decreases steps.len(),
{
    if steps.len() > 0 {
        assert(steps[0] != ManagerStep::Add(id));
        let rest = steps.drop_first();
        assert forall|i: int| 0 <= i < rest.len() implies rest[i] != ManagerStep::Add(id) by {
            assert(rest[i] == steps[i + 1]);
        }
        lemma_unmanaged_stays(step_statuses(statuses, steps[0]), id, rest);
    }
}

/// Once the connection of an exchange is removed, a health check result for it
/// changes nothing, at any later point until its connection is added again: the
/// steps before the check (adding, removing or checking other exchanges, removing
/// or checking this one) keep it unmanaged, and the check leaves the statuses and
/// so all that follows as they would be without it.
pub proof fn law_removed_exchange_ignores_health_checks(
    statuses: Map<ExchangeIdView, ConnectionStatusView>,
    id: ExchangeIdView,
    before: Seq<ManagerStep>,
    result: Result<ConnectionHealth, HealthCheckError>,
    after: Seq<ManagerStep>,
)
    requires
        forall|i: int| 0 <= i < before.len() ==> before[i] != ManagerStep::Add(id),
    ensures
        !run_steps(statuses.remove(id), before).contains_key(id),
        health_update(run_steps(statuses.remove(id), before), id, result) == HealthUpdate::Untracked,
        run_steps(statuses.remove(id), before + seq![ManagerStep::Check(id, result)] + after)
            == run_steps(statuses.remove(id), before + after),
{
    let start = statuses.remove(id);
    lemma_unmanaged_stays(start, id, before);
    let mid = run_steps(start, before);
    let check = seq![ManagerStep::Check(id, result)];
    lemma_run_steps_append(start, before + check, after);
    lemma_run_steps_append(start, before, check);
    assert(check.drop_first() =~= Seq::<ManagerStep>::empty());
    assert(step_statuses(mid, check[0]) == mid);
    assert(run_steps(mid, check.drop_first()) == mid);
    assert(run_steps(mid, check) == mid);
    lemma_run_steps_append(start, before, after);
}

/// A health check of one exchange leaves every other exchange's status as it was.
pub proof fn law_health_check_touches_one_exchange(
    statuses: Map<ExchangeIdView, ConnectionStatusView>,
    id: ExchangeIdView,
    result: Result<ConnectionHealth, HealthCheckError>,
    other: ExchangeIdView,
)
    requires
        other != id,
    ensures
        after_health_check(statuses, id, result).contains_key(other) == statuses.contains_key(
            other,
        ),
        statuses.contains_key(other) ==> after_health_check(statuses, id, result)[other]
            == statuses[other],
        after_health_check(statuses, id, result).dom() == statuses.dom(),
{
    assert(after_health_check(statuses, id, result).dom() =~= statuses.dom());
}

/// A health check of a managed exchange records what it found: an answer `h`
/// becomes the exchange's health exactly, whichever of the health states it is;
/// a failure marks it unhealthy and counts one more error. Nothing else of its
/// status changes, and no exchange is added or dropped. The update says whether
/// the exchange went from healthy to not, or back.
pub proof fn law_health_check_records_the_answer(
    statuses: Map<ExchangeIdView, ConnectionStatusView>,
    id: ExchangeIdView,
    result: Result<ConnectionHealth, HealthCheckError>,
)
    requires
        statuses.contains_key(id),
        check_fits(statuses, id, result),
    ensures
        after_health_check(statuses, id, result).dom() == statuses.dom(),
        after_health_check(statuses, id, result)[id].exchange_id == statuses[id].exchange_id,
        after_health_check(statuses, id, result)[id].last_message_time
            == statuses[id].last_message_time,
        after_health_check(statuses, id, result)[id].messages_received
            == statuses[id].messages_received,
        after_health_check(statuses, id, result)[id].bytes_received
            == statuses[id].bytes_received,
        result matches Ok(h) ==> after_health_check(statuses, id, result)[id].health == h
            && after_health_check(statuses, id, result)[id].error_count == statuses[id].error_count,
        result is Err ==> after_health_check(statuses, id, result)[id].health
            == ConnectionHealth::Unhealthy && after_health_check(statuses, id, result)[id].error_count
            == statuses[id].error_count + 1,
        result is Err ==> health_update(statuses, id, result) == HealthUpdate::CheckFailed,
        result matches Ok(h) ==> (health_update(statuses, id, result) == HealthUpdate::BecameHealthy
            <==> statuses[id].health != ConnectionHealth::Healthy && h == ConnectionHealth::Healthy),
        result matches Ok(h) ==> (health_update(statuses, id, result)
            == HealthUpdate::BecameUnhealthy <==> statuses[id].health == ConnectionHealth::Healthy
            && h != ConnectionHealth::Healthy),
        result matches Ok(h) ==> (health_update(statuses, id, result) == HealthUpdate::Unchanged
            <==> (statuses[id].health == ConnectionHealth::Healthy) == (h
            == ConnectionHealth::Healthy)),
{
    assert(after_health_check(statuses, id, result).dom() =~= statuses.dom());
}

} // verus!
