use exchange_connection_hub::protocols::base::{
    ConnectionFactory, ExchangeConnectionKind, ExchangeFeature, FactoryError,
};
use exchange_connection_hub::registry::{
    AnyFactory, ExchangeConnectionRegistry, ExchangeRegistry, RegistryError,
};
use exchange_connection_hub::types::{ExchangeConfig, ExchangeId};

struct MockFactory;

impl ConnectionFactory for MockFactory {
    fn create_connection(&self, _config: ExchangeConfig) -> Result<ExchangeConnectionKind, FactoryError> {
        Err(FactoryError::Other("Mock factory".to_string()))
    }

    fn exchange_id(&self) -> ExchangeId {
        ExchangeId::NinjaTrader
    }

    fn supported_features(&self) -> Vec<ExchangeFeature> {
        vec![ExchangeFeature::MarketData, ExchangeFeature::OrderExecution]
    }
}

#[test]
fn test_registry() {
    let mut registry = ExchangeRegistry::new();

    // Register mock factory
    registry.register(AnyFactory::Custom(Box::new(MockFactory)));

    // Check if exchange is supported
    assert!(registry.is_supported(ExchangeId::NinjaTrader));
    assert!(!registry.is_supported(ExchangeId::InteractiveBrokers));

    // List exchanges
    let exchanges = registry.list_exchanges();
    assert!(exchanges.contains(&ExchangeId::NinjaTrader));

    // Get supported features
    let features = registry.get_supported_features(ExchangeId::NinjaTrader);
    assert!(features.contains(&ExchangeFeature::MarketData));
    assert!(features.contains(&ExchangeFeature::OrderExecution));

    // Get exchange info
    let info = registry.get_exchange_info();
    assert!(!info.is_empty());
}

#[test]
fn test_exchange_registry() {
    let registry = ExchangeRegistry::new();

    assert!(registry.is_supported(ExchangeId::NinjaTrader));
    let features = registry.get_supported_features(ExchangeId::NinjaTrader);
    assert!(features.contains(&ExchangeFeature::MarketData));

    assert!(registry.is_supported(ExchangeId::WebSocket("generic".to_string())));
    let features = registry.get_supported_features(ExchangeId::WebSocket("generic".to_string()));
    assert!(features.contains(&ExchangeFeature::MarketData));

    // List all exchanges
    let exchanges = registry.list_exchanges();
    println!("Registered exchanges: {:?}", exchanges);

    // Get exchange info
    let info = registry.get_exchange_info();
    assert!(!info.is_empty());
}

#[test]
fn default_registry_contents() {
    let registry = ExchangeRegistry::default();
    let exchanges = registry.list_exchanges();
    assert_eq!(exchanges.len(), 2);
    assert!(exchanges.contains(&ExchangeId::NinjaTrader));
    assert!(exchanges.contains(&ExchangeId::WebSocket("generic".to_string())));
    let info = registry.get_exchange_info();
    assert_eq!(info.len(), 2);
    for i in &info {
        assert_eq!(i.supported_features, vec![ExchangeFeature::MarketData]);
    }
    assert!(registry.get_supported_features(ExchangeId::Databento).is_empty());
}

#[test]
fn registering_again_replaces() {
    let mut registry = ExchangeRegistry::new();
    registry.register(AnyFactory::Custom(Box::new(MockFactory)));
    registry.register(AnyFactory::Custom(Box::new(MockFactory)));
    assert_eq!(registry.list_exchanges().len(), 2);
    assert_eq!(
        registry.get_supported_features(ExchangeId::NinjaTrader),
        vec![ExchangeFeature::MarketData, ExchangeFeature::OrderExecution]
    );
    assert_eq!(
        registry.create_connection(ExchangeId::NinjaTrader, ExchangeConfig::ninjatrader("x")).err(),
        Some(RegistryError::Factory(FactoryError::Other("Mock factory".to_string())))
    );
}

#[test]
fn create_connection_by_exchange() {
    let registry = ExchangeRegistry::new();
    assert!(matches!(
        registry.create_connection(ExchangeId::NinjaTrader, ExchangeConfig::ninjatrader("127.0.0.1:7496")),
        Ok(ExchangeConnectionKind::NinjaTrader(_))
    ));
    assert_eq!(
        registry.create_connection(ExchangeId::Databento, ExchangeConfig::ninjatrader("x")).err(),
        Some(RegistryError::NoFactory(ExchangeId::Databento))
    );
    assert!(matches!(
        registry.create_connection(
            ExchangeId::WebSocket("generic".to_string()),
            ExchangeConfig::websocket("binance", "wss://x")
        ),
        Ok(ExchangeConnectionKind::WebSocket(_))
    ));
    assert_eq!(
        registry
            .create_connection(ExchangeId::WebSocket("generic".to_string()), ExchangeConfig::fix("cme", "x"))
            .err(),
        Some(RegistryError::Factory(FactoryError::InvalidExchangeId))
    );
}

#[test]
fn empty_registry() {
    let registry = ExchangeConnectionRegistry::<AnyFactory>::empty();
    assert!(registry.list_exchanges().is_empty());
    assert!(!registry.is_supported(ExchangeId::NinjaTrader));
}

#[test]
fn websocket_exchange_by_its_own_name() {
    let registry = ExchangeRegistry::new();
    let made = registry.create_connection(
        ExchangeId::WebSocket("binance".to_string()),
        ExchangeConfig::websocket("binance", "wss://stream.binance.com:9443/ws/btcusdt@trade"),
    );
    match made {
        Ok(ExchangeConnectionKind::WebSocket(c)) => {
            assert_eq!(c.exchange_id(), ExchangeId::WebSocket("binance".to_string()));
        }
        _ => panic!("expected a WebSocket connection"),
    }
    // Only WebSocket names fall back on the generic factory.
    assert_eq!(
        registry
            .create_connection(ExchangeId::FIX("cme".to_string()), ExchangeConfig::fix("cme", "x"))
            .err(),
        Some(RegistryError::NoFactory(ExchangeId::FIX("cme".to_string())))
    );
    // Without the generic factory a WebSocket name has no factory.
    let empty = ExchangeConnectionRegistry::<AnyFactory>::empty();
    assert_eq!(
        empty
            .create_connection(
                ExchangeId::WebSocket("binance".to_string()),
                ExchangeConfig::websocket("binance", "wss://x"),
            )
            .err(),
        Some(RegistryError::NoFactory(ExchangeId::WebSocket("binance".to_string())))
    );
}

#[test]
fn registered_factory_gets_the_configuration() {
    let mut registry = ExchangeRegistry::new();
    registry.register(AnyFactory::Custom(Box::new(MockFactory)));
    let features = registry.get_supported_features(ExchangeId::NinjaTrader);
    assert_eq!(features, vec![ExchangeFeature::MarketData, ExchangeFeature::OrderExecution]);
    assert_eq!(
        registry
            .create_connection(ExchangeId::NinjaTrader, ExchangeConfig::ninjatrader("127.0.0.1:7496"))
            .err(),
        Some(RegistryError::Factory(FactoryError::Other("Mock factory".to_string())))
    );
}
