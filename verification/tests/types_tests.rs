use exchange_connection_hub::json::JsonValue;
use exchange_connection_hub::types::{ConnectionHealth, ExchangeId, Settings};
use exchange_connection_hub::ExchangeConfig;

#[test]
fn test_exchange_config_creation() {
    // Test NinjaTrader config
    let nt_config = ExchangeConfig::ninjatrader("127.0.0.1:7496");
    assert_eq!(nt_config.connection_string, "127.0.0.1:7496");
    assert_eq!(nt_config.reconnect_attempts, 3);
    assert_eq!(nt_config.reconnect_delay_ms, 5000);

    // Test Interactive Brokers config
    let ib_config = ExchangeConfig::interactive_brokers("127.0.0.1:7497", 1);
    assert_eq!(ib_config.connection_string, "127.0.0.1:7497");
    assert_eq!(ib_config.settings.get("client_id"), Some(&JsonValue::from_i32(1)));

    // Test WebSocket config
    let ws_config = ExchangeConfig::websocket("binance", "wss://stream.binance.com:9443");
    assert_eq!(ws_config.connection_string, "wss://stream.binance.com:9443");

    // Test FIX config
    let fix_config = ExchangeConfig::fix("cme", "fix://cme.com:443");
    assert_eq!(fix_config.connection_string, "fix://cme.com:443");
}

#[test]
fn config_defaults_and_ids() {
    let c = ExchangeConfig::websocket("binance", "wss://x");
    assert_eq!(c.exchange_id, ExchangeId::WebSocket("binance".to_string()));
    assert!(c.credentials.is_none());
    assert_eq!(c.settings.len(), 0);
    let c = ExchangeConfig::fix("cme", "fix://x");
    assert_eq!(c.exchange_id, ExchangeId::FIX("cme".to_string()));
    assert_eq!(c.reconnect_attempts, 3);
    assert_eq!(c.reconnect_delay_ms, 5000);
    let c = ExchangeConfig::interactive_brokers("h", -7);
    assert_eq!(c.exchange_id, ExchangeId::InteractiveBrokers);
    assert_eq!(c.settings.len(), 1);
    match c.settings.get("client_id") {
        Some(JsonValue::Number(n)) => {
            assert_eq!(n.as_i64, Some(-7));
            assert_eq!(n.as_u64, None);
            assert_eq!(n.as_f64_bits, Some((-7.0f64).to_bits()));
        }
        other => panic!("unexpected {:?}", other),
    }
    assert_eq!(c.settings.get("other"), None);
}

#[test]
fn settings_replace_values() {
    let mut s = Settings::new();
    s.insert("a".to_string(), JsonValue::Bool(true));
    s.insert("b".to_string(), JsonValue::Null);
    s.insert("a".to_string(), JsonValue::Bool(false));
    assert_eq!(s.len(), 2);
    assert_eq!(s.get("a"), Some(&JsonValue::Bool(false)));
    assert_eq!(s.get("b"), Some(&JsonValue::Null));
}

#[test]
fn exchange_id_display_text() {
    assert_eq!(ExchangeId::NinjaTrader.to_display_string(), "ninjatrader");
    assert_eq!(ExchangeId::InteractiveBrokers.to_display_string(), "ibkr");
    assert_eq!(ExchangeId::Databento.to_display_string(), "databento");
    assert_eq!(ExchangeId::WebSocket("binance".to_string()).to_display_string(), "websocket:binance");
    assert_eq!(ExchangeId::FIX("cme".to_string()).to_display_string(), "fix:cme");
}

#[test]
fn exchange_id_comparison_and_clone() {
    let a = ExchangeId::WebSocket("x".to_string());
    assert!(a.same_as(&a.clone()));
    assert!(!a.same_as(&ExchangeId::WebSocket("y".to_string())));
    assert!(!a.same_as(&ExchangeId::FIX("x".to_string())));
    assert!(ExchangeId::Databento.same_as(&ExchangeId::Databento));
}

#[test]
fn only_healthy_is_healthy() {
    assert!(ConnectionHealth::Healthy.is_healthy());
    assert!(!ConnectionHealth::Unhealthy.is_healthy());
    assert!(!ConnectionHealth::Disconnected.is_healthy());
    assert!(!ConnectionHealth::Reconnecting.is_healthy());
}

#[test]
fn integer_number_reads_as_its_double() {
    for x in [0i32, 1, -1, 3, -7, 1000, i32::MAX, i32::MIN] {
        let v = JsonValue::from_i32(x);
        assert_eq!(v.as_f64_bits(), Some((x as f64).to_bits()));
    }
    assert_eq!(JsonValue::from_i32(1).as_f64_bits(), Some(0x3FF0_0000_0000_0000));
    let ib = ExchangeConfig::interactive_brokers("127.0.0.1:7497", 1);
    let client_id = ib.settings.get("client_id").unwrap();
    assert_eq!(client_id.as_u64(), Some(1));
    assert_eq!(client_id.as_f64_bits(), Some(1.0f64.to_bits()));
}

#[test]
fn settings_list_their_entries() {
    let mut s = Settings::new();
    s.insert("client_id".to_string(), JsonValue::from_i32(1));
    s.insert("depth".to_string(), JsonValue::from_i32(10));
    s.insert("client_id".to_string(), JsonValue::from_i32(2));
    let entries = s.entries();
    assert_eq!(entries.len(), 2);
    assert_eq!(entries.len(), s.len());
    for (name, value) in entries.iter() {
        assert_eq!(s.get(name), Some(value));
    }
    assert!(entries.iter().any(|(n, v)| n == "client_id" && *v == JsonValue::from_i32(2)));
    assert!(entries.iter().any(|(n, v)| n == "depth" && *v == JsonValue::from_i32(10)));
}
