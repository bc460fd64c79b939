//! Registry of exchange connection factories, one per exchange.
use vstd::prelude::*;
use vstd::string::*;

use crate::assoc::{assoc_map, lemma_assoc_all, lemma_assoc_push, lemma_assoc_update};
use crate::protocols::base::{ConnectionFactory, ExchangeConnectionKind, ExchangeFeature, FactoryError};
use crate::protocols::ninjatrader::{NinjaTraderFactory, ninjatrader_created};
use crate::protocols::websocket::{WebSocketFactory, websocket_created};
use crate::types::{ExchangeConfig, ExchangeId, ExchangeIdView};

verus! {

/// Information about a registered exchange.
#[derive(Debug)]
pub struct RegisteredExchangeInfo {
    pub exchange_id: ExchangeId,
    pub supported_features: Vec<ExchangeFeature>,
}

/// Why the registry made no connection.
#[derive(Debug, PartialEq)]
pub enum RegistryError {
    /// No factory is registered for the exchange.
    NoFactory(ExchangeId),
    /// The exchange's factory refused.
    Factory(FactoryError),
}

/// The exchange and features a factory reported when it was registered.
struct Registration {
    exchange_id: ExchangeId,
    features: Vec<ExchangeFeature>,
}

/// Registry for exchange connection factories: at most one factory per exchange.
/// The factory at a position is the one registered with the entry there.
pub struct ExchangeConnectionRegistry<F> {
    entries: Vec<Registration>,
    factories: Vec<F>,
}

/// A factory the registry can hold: one of this library's, or any other.
pub enum AnyFactory {
    NinjaTrader(NinjaTraderFactory),
    WebSocket(WebSocketFactory),
    Custom(Box<dyn ConnectionFactory>),
}

impl ConnectionFactory for AnyFactory {
    fn create_connection(&self, config: ExchangeConfig) -> (r: Result<
        ExchangeConnectionKind,
        FactoryError,
    >)
        ensures
            self is NinjaTrader ==> ninjatrader_created(r, config),
            self is WebSocket ==> websocket_created(r, config),
    {
        match self {
            AnyFactory::NinjaTrader(f) => f.create_connection(config),
            AnyFactory::WebSocket(f) => f.create_connection(config),
            AnyFactory::Custom(f) => f.create_connection(config),
        }
    }

    fn exchange_id(&self) -> (r: ExchangeId)
        ensures
            self is NinjaTrader ==> r@ == ExchangeIdView::NinjaTrader,
            self is WebSocket ==> r@ == ExchangeIdView::WebSocket("generic"@),
    {
        match self {
            AnyFactory::NinjaTrader(f) => f.exchange_id(),
            AnyFactory::WebSocket(f) => f.exchange_id(),
            AnyFactory::Custom(f) => f.exchange_id(),
        }
    }

    fn supported_features(&self) -> (r: Vec<ExchangeFeature>)
        ensures
            !(self is Custom) ==> r@ == seq![ExchangeFeature::MarketData],
    {
        match self {
            AnyFactory::NinjaTrader(f) => f.supported_features(),
            AnyFactory::WebSocket(f) => f.supported_features(),
            AnyFactory::Custom(f) => f.supported_features(),
        }
    }
}

/// The exchange a new WebSocket connection falls back on: the generic WebSocket factory.
pub open spec fn generic_websocket() -> ExchangeIdView {
    ExchangeIdView::WebSocket("generic"@)
}

/// The registered exchange whose factory serves `id`: `id` itself where it has a
/// factory; for a WebSocket exchange without one of its own, the generic WebSocket
/// factory where that is registered; otherwise none.
pub open spec fn route(
    registered: Map<ExchangeIdView, Seq<ExchangeFeature>>,
    id: ExchangeIdView,
) -> Option<ExchangeIdView> {
    if registered.contains_key(id) {
        Some(id)
    } else if id is WebSocket && registered.contains_key(generic_websocket()) {
        Some(generic_websocket())
    } else {
        None
    }
}

/// The registry of this library's factories.
pub type ExchangeRegistry = ExchangeConnectionRegistry<AnyFactory>;

/// The registry a new one starts as: NinjaTrader and the generic WebSocket
/// factory, each offering market data.
pub open spec fn default_registry() -> Map<ExchangeIdView, Seq<ExchangeFeature>> {
    map![
        ExchangeIdView::NinjaTrader => seq![ExchangeFeature::MarketData],
        ExchangeIdView::WebSocket("generic"@) => seq![ExchangeFeature::MarketData],
    ]
}

impl<F> ExchangeConnectionRegistry<F> {
    /// The registered exchanges, in order.
    pub closed spec fn ids(self) -> Seq<ExchangeIdView> {
        self.entries@.map_values(|e: Registration| e.exchange_id@)
    }

    /// The features of the registered factories, in order.
    pub closed spec fn features(self) -> Seq<Seq<ExchangeFeature>> {
        self.entries@.map_values(|e: Registration| e.features@)
    }

    /// Each registered exchange with its factory.
    pub closed spec fn factory_map(self) -> Map<ExchangeIdView, F> {
        assoc_map(self.ids(), self.factories@)
    }

    /// The factory registered for `id` (meaningful when `id` is registered).
    pub open spec fn factory_for(self, id: ExchangeIdView) -> F {
        self.factory_map()[id]
    }

    #[verifier::type_invariant]
    closed spec fn one_factory_per_exchange(self) -> bool {
        &&& self.ids().no_duplicates()
        &&& self.factories@.len() == self.entries@.len()
    }
}

impl<F> View for ExchangeConnectionRegistry<F> {
    /// Each registered exchange with the features its factory offers.
    type V = Map<ExchangeIdView, Seq<ExchangeFeature>>;

    closed spec fn view(&self) -> Map<ExchangeIdView, Seq<ExchangeFeature>> {
        assoc_map(self.ids(), self.features())
    }
}

impl<F: ConnectionFactory> ExchangeConnectionRegistry<F> {
    /// A registry with no factory.
    pub fn empty() -> (r: Self)
        ensures
            r@ == Map::<ExchangeIdView, Seq<ExchangeFeature>>::empty(),
            r.factory_map() == Map::<ExchangeIdView, F>::empty(),
    {
        let r = ExchangeConnectionRegistry { entries: Vec::new(), factories: Vec::new() };
        assert(r@ =~= Map::<ExchangeIdView, Seq<ExchangeFeature>>::empty());
        assert(r.factory_map() =~= Map::<ExchangeIdView, F>::empty());
        r
    }


    /// The position of the factory for `exchange_id`, if one is registered.
    fn position(&self, exchange_id: &ExchangeId) -> (r: Option<usize>)
        ensures
            match r {
                Some(i) => i < self.ids().len() && self.ids()[i as int] == exchange_id@,
                None => !self.ids().contains(exchange_id@),
            },
    {
        let mut i: usize = 0;
        while i < self.entries.len()
            invariant
                0 <= i <= self.entries.len(),
                forall|j: int| 0 <= j < i ==> self.ids()[j] != exchange_id@,
            decreases self.entries.len() - i,
        {
            if self.entries[i].exchange_id.same_as(exchange_id) {
                return Some(i);
            }
            i = i + 1;
        }
        None
    }

    /// Register a factory under the exchange and with the features it reported;
    /// it replaces any factory registered for the same exchange.
    pub fn register_as(
        &mut self,
        exchange_id: ExchangeId,
        features: Vec<ExchangeFeature>,
        factory: F,
    )
        ensures
            final(self)@ == old(self)@.insert(exchange_id@, features@),
            final(self).factory_map() == old(self).factory_map().insert(exchange_id@, factory),
    {
        proof {
            use_type_invariant(&*self);
        }
        let ghost ids = self.ids();
        let ghost feats = self.features();
        let ghost facts = self.factories@;
        let ghost f = factory;
        let ghost id = exchange_id@;
        let ghost fs = features@;
        let found = self.position(&exchange_id);
        let mut taken = Self::empty();
        std::mem::swap(&mut taken, self);
        proof {
            use_type_invariant(&taken);
        }
        let ExchangeConnectionRegistry { mut entries, mut factories } = taken;
        let entry = Registration { exchange_id, features };
        match found {
            Some(i) => {
                proof {
                    lemma_assoc_update(ids, feats, i as int, fs);
                    lemma_assoc_update(ids, facts, i as int, f);
                }
                entries.set(i, entry);
                factories.set(i, factory);
                assert(entries@.map_values(|e: Registration| e.exchange_id@) =~= ids);
                assert(entries@.map_values(|e: Registration| e.features@) =~= feats.update(
                    i as int,
                    fs,
                ));
                assert(factories@ =~= facts.update(i as int, f));
            },
            None => {
                proof {
                    lemma_assoc_push(ids, feats, id, fs);
                    lemma_assoc_push(ids, facts, id, f);
                }
                entries.push(entry);
                factories.push(factory);
                assert(entries@.map_values(|e: Registration| e.exchange_id@) =~= ids.push(id));
                assert(entries@.map_values(|e: Registration| e.features@) =~= feats.push(fs));
                assert(factories@ =~= facts.push(f));
            },
        }
        assert(factories@.len() == entries@.len());
        assert(entries@.map_values(|e: Registration| e.exchange_id@).no_duplicates());
        *self = ExchangeConnectionRegistry { entries, factories };
    }

    /// Register a factory under the exchange it reports, with the features it
    /// reports; it replaces any factory registered for that exchange.
    pub fn register(&mut self, factory: F)
        ensures
            exists|id: ExchangeId, features: Vec<ExchangeFeature>|
                #![trigger call_ensures(F::exchange_id, (&factory,), id), call_ensures(F::supported_features, (&factory,), features)]
                call_ensures(F::exchange_id, (&factory,), id) && call_ensures(
                    F::supported_features,
                    (&factory,),
                    features,
                ) && final(self)@ == old(self)@.insert(id@, features@) && final(self).factory_map()
                    == old(self).factory_map().insert(id@, factory),
    {
        let exchange_id = factory.exchange_id();
        let features = factory.supported_features();
        self.register_as(exchange_id, features, factory);
    }

    /// Create a connection for the given exchange with the factory that serves it
    /// (see [`route`]): the factory gets the configuration and its answer is returned.
    pub fn create_connection(&self, exchange_id: ExchangeId, config: ExchangeConfig) -> (r: Result<
        ExchangeConnectionKind,
        RegistryError,
    >)
        ensures
            route(self@, exchange_id@) is None ==> (r matches Err(RegistryError::NoFactory(e))
                && e@ == exchange_id@),
            route(self@, exchange_id@) is Some ==> !(r matches Err(RegistryError::NoFactory(_))),
            route(self@, exchange_id@) is Some ==> exists|
                inner: Result<ExchangeConnectionKind, FactoryError>,
            |
                #[trigger] call_ensures(
                    F::create_connection,
                    (&self.factory_for(route(self@, exchange_id@)->Some_0), config),
                    inner,
                ) && r == (match inner {
                    Ok(c) => Ok(c),
                    Err(e) => Err(RegistryError::Factory(e)),
                }),
    {
        proof {
            use_type_invariant(self);
            lemma_assoc_all(self.ids(), self.features());
            lemma_assoc_all(self.ids(), self.factories@);
            reveal_strlit("generic");
        }
        let found = match self.position(&exchange_id) {
            Some(i) => Some(i),
            None => match &exchange_id {
                ExchangeId::WebSocket(_) => self.position(
                    &ExchangeId::WebSocket(String::from_str("generic")),
                ),
                _ => None,
            },
        };
        match found {
            None => Err(RegistryError::NoFactory(exchange_id)),
            Some(i) => match self.factories[i].create_connection(config) {
                Ok(c) => Ok(c),
                Err(e) => Err(RegistryError::Factory(e)),
            },
        }
    }

    /// Get all registered exchanges: each once.
    pub fn list_exchanges(&self) -> (r: Vec<ExchangeId>)
        ensures
            r@.map_values(|e: ExchangeId| e@).no_duplicates(),
            r@.map_values(|e: ExchangeId| e@).to_set() == self@.dom(),
    {
        proof {
            use_type_invariant(self);
            lemma_assoc_all(self.ids(), self.features());
        }
        let mut out: Vec<ExchangeId> = Vec::new();
        let mut i: usize = 0;
        while i < self.entries.len()
            invariant
                0 <= i <= self.entries.len(),
                out@.map_values(|e: ExchangeId| e@) == self.ids().subrange(0, i as int),
            decreases self.entries.len() - i,
        {
            let ghost prev = out@;
            assert(prev.map_values(|e: ExchangeId| e@).len() == i);
            assert(prev.len() == i);
            out.push(self.entries[i].exchange_id.clone());
            assert(out@.len() == i + 1);
            assert forall|k: int| 0 <= k < i + 1 implies #[trigger] out@[k]@ == self.ids()[k] by {
                if k < i {
                    assert(prev.map_values(|e: ExchangeId| e@)[k] == self.ids().subrange(0, i as int)[k]);
                }
            }
            assert(out@.map_values(|e: ExchangeId| e@) =~= self.ids().subrange(0, i + 1));
            i = i + 1;
        }
        proof {
            assert(self.ids().subrange(0, self.entries.len() as int) =~= self.ids());
            assert(self.ids().to_set() =~= self@.dom());
        }
        out
    }

    /// Get supported features for an exchange: none for an exchange without a factory.
    pub fn get_supported_features(&self, exchange_id: ExchangeId) -> (r: Vec<ExchangeFeature>)
        ensures
            r@ == (if self@.contains_key(exchange_id@) {
                self@[exchange_id@]
            } else {
                Seq::<ExchangeFeature>::empty()
            }),
    {
        proof {
            use_type_invariant(self);
            lemma_assoc_all(self.ids(), self.features());
        }
        match self.position(&exchange_id) {
            None => Vec::new(),
            Some(i) => self.entries[i].features.clone(),
        }
    }

    /// Check if an exchange is supported.
    pub fn is_supported(&self, exchange_id: ExchangeId) -> (r: bool)
        ensures
            r == self@.contains_key(exchange_id@),
    {
        proof {
            use_type_invariant(self);
            lemma_assoc_all(self.ids(), self.features());
        }
        self.position(&exchange_id).is_some()
    }

    /// Get information about all registered exchanges: one entry per exchange,
    /// with the features its factory offers.
    pub fn get_exchange_info(&self) -> (r: Vec<RegisteredExchangeInfo>)
        ensures
            r@.map_values(|i: RegisteredExchangeInfo| i.exchange_id@).no_duplicates(),
            r@.map_values(|i: RegisteredExchangeInfo| i.exchange_id@).to_set() == self@.dom(),
            forall|k: int|
                0 <= k < r@.len() ==> self@.contains_key((#[trigger] r@[k]).exchange_id@)
                    && r@[k].supported_features@ == self@[r@[k].exchange_id@],
    {
        proof {
            use_type_invariant(self);
            lemma_assoc_all(self.ids(), self.features());
        }
        let mut out: Vec<RegisteredExchangeInfo> = Vec::new();
        let mut i: usize = 0;
        while i < self.entries.len()
            invariant
                0 <= i <= self.entries.len(),
                out@.map_values(|i: RegisteredExchangeInfo| i.exchange_id@) == self.ids().subrange(
                    0,
                    i as int,
                ),
                forall|k: int|
                    0 <= k < out@.len() ==> (#[trigger] out@[k]).supported_features@
                        == self.features()[k],
            decreases self.entries.len() - i,
        {
            let ghost prev = out@;
            assert(prev.map_values(|e: RegisteredExchangeInfo| e.exchange_id@).len() == i);
            assert(prev.len() == i);
            out.push(
                RegisteredExchangeInfo {
                    exchange_id: self.entries[i].exchange_id.clone(),
                    supported_features: self.entries[i].features.clone(),
                },
            );
            assert forall|k: int| 0 <= k < i + 1 implies #[trigger] out@[k].exchange_id@ == self.ids()[k] by {
                if k < i {
                    assert(prev.map_values(|e: RegisteredExchangeInfo| e.exchange_id@)[k] == self.ids().subrange(0, i as int)[k]);
                }
            }
            assert(out@.map_values(|i: RegisteredExchangeInfo| i.exchange_id@) =~= self.ids().subrange(
                0,
                i + 1,
            ));
            i = i + 1;
        }
        proof {
            assert(self.ids().subrange(0, self.entries.len() as int) =~= self.ids());
            assert(self.ids().to_set() =~= self@.dom());
            assert forall|k: int| 0 <= k < out@.len() implies self@.contains_key((#[trigger] out@[k]).exchange_id@)
                && out@[k].supported_features@ == self@[out@[k].exchange_id@] by {
                assert(out@[k].exchange_id@ == self.ids()[k]);
            }
        }
        out
    }
}

impl ExchangeConnectionRegistry<AnyFactory> {
    /// Create a new exchange registry with the default factories.
    pub fn new() -> (r: Self)
        ensures
            r@ == default_registry(),
            r.factory_for(ExchangeIdView::NinjaTrader) is NinjaTrader,
            r.factory_for(generic_websocket()) is WebSocket,
    {
        let mut registry = Self::empty();
        registry.register_defaults();
        assert(registry@ =~= default_registry());
        registry
    }

    /// Register the default exchange factories: NinjaTrader, then WebSocket.
    fn register_defaults(&mut self)
        ensures
            final(self)@ == old(self)@.insert(
                ExchangeIdView::NinjaTrader,
                seq![ExchangeFeature::MarketData],
            ).insert(ExchangeIdView::WebSocket("generic"@), seq![ExchangeFeature::MarketData]),
            final(self).factory_for(ExchangeIdView::NinjaTrader) is NinjaTrader,
            final(self).factory_for(generic_websocket()) is WebSocket,
    {
        self.register_known(AnyFactory::NinjaTrader(NinjaTraderFactory::new()));
        self.register_known(AnyFactory::WebSocket(WebSocketFactory::new()));
    }

    /// Register one of this library's factories under the exchange it reports.
    fn register_known(&mut self, factory: AnyFactory)
        requires
            !(factory is Custom),
        ensures
            factory is NinjaTrader ==> final(self)@ == old(self)@.insert(
                ExchangeIdView::NinjaTrader,
                seq![ExchangeFeature::MarketData],
            ),
            factory is WebSocket ==> final(self)@ == old(self)@.insert(
                ExchangeIdView::WebSocket("generic"@),
                seq![ExchangeFeature::MarketData],
            ),
            factory is NinjaTrader ==> final(self).factory_map() == old(self).factory_map().insert(
                ExchangeIdView::NinjaTrader,
                factory,
            ),
            factory is WebSocket ==> final(self).factory_map() == old(self).factory_map().insert(
                generic_websocket(),
                factory,
            ),
    {
        let exchange_id = factory.exchange_id();
        let features = factory.supported_features();
        self.register_as(exchange_id, features, factory);
    }
}

impl Default for ExchangeConnectionRegistry<AnyFactory> {
    fn default() -> (r: Self)
        ensures
            r@ == default_registry(),
            r.factory_for(ExchangeIdView::NinjaTrader) is NinjaTrader,
            r.factory_for(generic_websocket()) is WebSocket,
    {
        Self::new()
    }
}

/// What registering gives back: the registered exchange is supported, with the
/// features of its factory, and every other exchange reads as before.
pub proof fn law_register_then_query(
    before: Map<ExchangeIdView, Seq<ExchangeFeature>>,
    id: ExchangeIdView,
    features: Seq<ExchangeFeature>,
    other: ExchangeIdView,
)
    ensures
        before.insert(id, features).contains_key(id),
        before.insert(id, features)[id] == features,
        other != id ==> (before.insert(id, features).contains_key(other) == before.contains_key(
            other,
        )),
        other != id && before.contains_key(other) ==> before.insert(id, features)[other]
            == before[other],
{
}

/// Which factory serves an exchange: one registered for the exchange itself
/// always serves it, whatever else is registered; a WebSocket exchange without
/// one of its own is served by the generic WebSocket factory where that is
/// registered; any other exchange without a factory has none.
pub proof fn law_route(registered: Map<ExchangeIdView, Seq<ExchangeFeature>>, id: ExchangeIdView)
    ensures
        registered.contains_key(id) ==> route(registered, id) == Some(id),
        !registered.contains_key(id) && id is WebSocket && registered.contains_key(
            ExchangeIdView::WebSocket("generic"@),
        ) ==> route(registered, id) == Some(ExchangeIdView::WebSocket("generic"@)),
        !registered.contains_key(id) && !(id is WebSocket) ==> route(registered, id) is None,
        !registered.contains_key(ExchangeIdView::WebSocket("generic"@)) ==> (route(registered, id)
            is Some <==> registered.contains_key(id)),
        route(registered, id) matches Some(k) ==> registered.contains_key(k),
{
}

/// After a factory is registered for an exchange, that factory serves it: the
/// exchange routes to itself and its factory is the one registered, whatever
/// was registered before, for it or for the generic WebSocket exchange.
pub proof fn law_registered_factory_serves<F>(
    before: Map<ExchangeIdView, Seq<ExchangeFeature>>,
    factories: Map<ExchangeIdView, F>,
    id: ExchangeIdView,
    features: Seq<ExchangeFeature>,
    factory: F,
)
    ensures
        route(before.insert(id, features), id) == Some(id),
        factories.insert(id, factory)[route(before.insert(id, features), id)->Some_0] == factory,
{
}

} // verus!
