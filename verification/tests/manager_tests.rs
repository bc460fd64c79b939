use exchange_connection_hub::manager::{ExchangeConnectionManager, HealthCheckError, HealthUpdate, ManagerError};
use exchange_connection_hub::protocols::ninjatrader::NinjaTraderConnection;
use exchange_connection_hub::types::{ConnectionHealth, ExchangeId};
use exchange_connection_hub::ExchangeConfig;

fn mock_connection() -> NinjaTraderConnection {
    NinjaTraderConnection::new(ExchangeConfig::ninjatrader("127.0.0.1:7496"))
}

#[test]
fn manager_test_connection_manager() {
    let mut manager = ExchangeConnectionManager::new();

    // Add a mock connection
    let exchange_id = ExchangeId::NinjaTrader;
    manager.add_connection(exchange_id.clone(), mock_connection());

    // Check connection status
    let status = manager.connection_status();
    assert_eq!(status.len(), 1);
    assert_eq!(status[0].0, exchange_id);
    assert!(status[0].1); // Should be healthy

    // Get detailed status
    let detailed_status = manager.get_connection_status(exchange_id.clone());
    assert!(detailed_status.is_some());
    assert_eq!(detailed_status.unwrap().exchange_id, exchange_id);
}

#[test]
fn integration_tests_test_connection_manager() {
    let mut manager = ExchangeConnectionManager::<NinjaTraderConnection>::new();

    // Initially no connections
    assert_eq!(manager.connection_status().len(), 0);

    // Test getting status for non-existent exchange
    let status = manager.get_connection_status(ExchangeId::NinjaTrader);
    assert!(status.is_none());

    // Test removing non-existent connection (should not panic)
    let result = manager.remove_connection(ExchangeId::NinjaTrader);
    assert!(result.is_err());
}

#[test]
fn fresh_status_and_removal() {
    let mut manager = ExchangeConnectionManager::new();
    manager.add_connection(ExchangeId::NinjaTrader, mock_connection());
    manager.add_connection(ExchangeId::WebSocket("b".to_string()), mock_connection());
    let s = manager.get_connection_status(ExchangeId::NinjaTrader).unwrap();
    assert_eq!(s.health, ConnectionHealth::Healthy);
    assert_eq!(s.messages_received, 0);
    assert_eq!(s.error_count, 0);
    assert_eq!(s.last_message_time, None);
    assert!(manager.connection(&ExchangeId::NinjaTrader).is_some());
    assert_eq!(manager.remove_connection(ExchangeId::NinjaTrader), Ok(()));
    assert!(manager.get_connection_status(ExchangeId::NinjaTrader).is_none());
    assert!(manager.connection(&ExchangeId::NinjaTrader).is_none());
    assert_eq!(manager.connection_status().len(), 1);
    assert_eq!(
        manager.remove_connection(ExchangeId::NinjaTrader),
        Err(ManagerError::NoConnection(ExchangeId::NinjaTrader))
    );
}

#[test]
fn adding_twice_keeps_one_entry() {
    let mut manager = ExchangeConnectionManager::new();
    manager.add_connection(ExchangeId::NinjaTrader, mock_connection());
    manager.add_connection(ExchangeId::NinjaTrader, mock_connection());
    assert_eq!(manager.connection_status().len(), 1);
}

#[test]
fn subscribe_needs_a_connection() {
    let mut manager = ExchangeConnectionManager::new();
    let symbols = vec!["ES".to_string(), "NQ".to_string()];
    assert_eq!(
        manager.subscribe(ExchangeId::NinjaTrader, &symbols).err(),
        Some(ManagerError::NoConnection(ExchangeId::NinjaTrader))
    );
    manager.add_connection(ExchangeId::NinjaTrader, 7u32);
    manager.add_connection(ExchangeId::Databento, 9u32);
    match manager.subscribe(ExchangeId::NinjaTrader, &symbols) {
        Ok((connection, to_subscribe)) => {
            assert_eq!(*connection, 7);
            assert_eq!(to_subscribe, &symbols[..]);
        }
        Err(e) => panic!("refused: {:?}", e),
    }
    assert!(matches!(manager.subscribe(ExchangeId::Databento, &symbols), Ok((9, _))));
    manager.remove_connection(ExchangeId::NinjaTrader).unwrap();
    assert!(manager.subscribe(ExchangeId::NinjaTrader, &symbols).is_err());
}

#[test]
fn removed_exchange_ignores_health_checks() {
    let mut manager = ExchangeConnectionManager::new();
    let id = ExchangeId::NinjaTrader;
    manager.add_connection(id.clone(), mock_connection());
    manager.add_connection(ExchangeId::Databento, mock_connection());
    manager.remove_connection(id.clone()).unwrap();
    assert_eq!(manager.apply_health_check(&id, Err(HealthCheckError::CheckFailed)), HealthUpdate::Untracked);
    assert_eq!(
        manager.apply_health_check(&id, Ok(ConnectionHealth::Disconnected)),
        HealthUpdate::Untracked
    );
    assert!(manager.get_connection_status(id.clone()).is_none());
    let other = manager.get_connection_status(ExchangeId::Databento).unwrap();
    assert_eq!(other.health, ConnectionHealth::Healthy);
    assert_eq!(other.error_count, 0);
    assert_eq!(manager.connection_status().len(), 1);
}

#[test]
fn health_checks_update_status() {
    let mut manager = ExchangeConnectionManager::new();
    let id = ExchangeId::NinjaTrader;
    manager.add_connection(id.clone(), mock_connection());
    assert_eq!(manager.apply_health_check(&id, Ok(ConnectionHealth::Healthy)), HealthUpdate::Unchanged);
    assert_eq!(
        manager.apply_health_check(&id, Ok(ConnectionHealth::Disconnected)),
        HealthUpdate::BecameUnhealthy
    );
    assert_eq!(manager.connection_status()[0].1, false);
    assert_eq!(
        manager.apply_health_check(&id, Ok(ConnectionHealth::Reconnecting)),
        HealthUpdate::Unchanged
    );
    assert_eq!(manager.apply_health_check(&id, Ok(ConnectionHealth::Healthy)), HealthUpdate::BecameHealthy);
    let r = Err(HealthCheckError::CheckFailed);
    assert!(manager.can_record_check(&id, &r));
    assert_eq!(manager.apply_health_check(&id, r), HealthUpdate::CheckFailed);
    let s = manager.get_connection_status(id.clone()).unwrap();
    assert_eq!(s.health, ConnectionHealth::Unhealthy);
    assert_eq!(s.error_count, 1);
    assert_eq!(
        manager.apply_health_check(&ExchangeId::Databento, Ok(ConnectionHealth::Healthy)),
        HealthUpdate::Untracked
    );
}
