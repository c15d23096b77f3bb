//! Reactor for validator nodes.
//!
//! Validator nodes join the validator-only network upon startup. The reactor hands each event to the
//! component that it is for.

use vstd::prelude::*;
use vstd::string::StringExecFns;

verus! {

/// The types of what components understand and of what they tell.
pub trait Parts: Sized {
    /// Identifies another node.
    type NodeId;

    type NetworkEvent;

    type DeployQueueEvent;

    type PingerEvent;

    type StorageRequest;

    type ApiServerEvent;

    type ConsensusEvent;

    type DeployGossiperEvent;

    type ContractRuntimeEvent;

    type ApiRequest;

    type DeployQueueRequest;

    type ContractRuntimeRequest;

    type PingerMessage;

    type ConsensusMessage;

    type DeployGossiperMessage;

    type Deploy;

    type DeployHash;

    type DeployHeader;
}

/// Reactor message.
pub enum Message<P: Parts> {
    /// Pinger component message.
    Pinger(P::PingerMessage),
    /// Consensus component message.
    Consensus(P::ConsensusMessage),
    /// Deploy gossiper component message.
    DeployGossiper(P::DeployGossiperMessage),
}

impl<P: Parts> Message<P> {
    /// Returns the text of this message, given that of what it carries.
    pub fn to_text(&self, detail: &str) -> (r: String)
        ensures
            r@ == match *self {
                Message::Pinger(_) => "Pinger::"@,
                Message::Consensus(_) => "Consensus::"@,
                Message::DeployGossiper(_) => "DeployGossiper::"@,
            } + detail@,
    {
        match self {
            Message::Pinger(_) => String::from_str("Pinger::").concat(detail),
            Message::Consensus(_) => String::from_str("Consensus::").concat(detail),
            Message::DeployGossiper(_) => String::from_str("DeployGossiper::").concat(detail),
        }
    }
}

/// A request to the network component, with the number of who is to be answered.
pub enum NetworkRequest<I, M> {
    /// Send a message on the network to a specific peer.
    SendMessage {
        dest: I,
        payload: M,
        responder: u64,
    },
    /// Send a message on the network to all peers.
    Broadcast {
        payload: M,
        responder: u64,
    },
    /// Gossip a message to a random subset of peers.
    Gossip {
        payload: M,
        count: usize,
        exclude: Vec<I>,
        responder: u64,
    },
}

impl<I, M> NetworkRequest<I, M> {
    /// The request with another payload.
    pub open spec fn with_payload<N>(self, payload: N) -> NetworkRequest<I, N> {
        match self {
            NetworkRequest::SendMessage { dest, responder, .. } => NetworkRequest::SendMessage { dest, payload, responder },
            NetworkRequest::Broadcast { responder, .. } => NetworkRequest::Broadcast { payload, responder },
            NetworkRequest::Gossip { count, exclude, responder, .. } => NetworkRequest::Gossip {
                payload,
                count,
                exclude,
                responder,
            },
        }
    }

    /// The payload.
    pub open spec fn spec_payload(self) -> M {
        match self {
            NetworkRequest::SendMessage { payload, .. } => payload,
            NetworkRequest::Broadcast { payload, .. } => payload,
            NetworkRequest::Gossip { payload, .. } => payload,
        }
    }

    /// Applies a function to the payload.
    pub fn map_payload<N, F: Fn(M) -> N>(self, wrap: F) -> (r: NetworkRequest<I, N>)
        requires
            call_requires(wrap, (self.spec_payload(),)),
        ensures
            exists|payload: N|
                call_ensures(wrap, (self.spec_payload(),), payload) && r == #[trigger] self.with_payload(payload),
    {
        match self {
            NetworkRequest::SendMessage { dest, payload, responder } => {
                let payload = wrap(payload);
                assert(self.with_payload(payload) == (NetworkRequest::SendMessage { dest, payload, responder }));
                NetworkRequest::SendMessage { dest, payload, responder }
            },
            NetworkRequest::Broadcast { payload, responder } => {
                let payload = wrap(payload);
                assert(self.with_payload(payload) == (NetworkRequest::<I, N>::Broadcast { payload, responder }));
                NetworkRequest::Broadcast { payload, responder }
            },
            NetworkRequest::Gossip { payload, count, exclude, responder } => {
                let payload = wrap(payload);
                assert(self.with_payload(payload) == (NetworkRequest::Gossip { payload, count, exclude, responder }));
                NetworkRequest::Gossip { payload, count, exclude, responder }
            },
        }
    }
}

/// Network component event.
pub enum NetworkEvent<P: Parts> {
    /// An event of the component itself.
    Own(P::NetworkEvent),
    /// A request to the component.
    Request(NetworkRequest<P::NodeId, Message<P>>),
}

/// Deploy queue component event.
pub enum DeployQueueEvent<P: Parts> {
    /// An event of the component itself.
    Own(P::DeployQueueEvent),
    /// A request to the component.
    Request(P::DeployQueueRequest),
}

/// Pinger component event.
pub enum PingerEvent<P: Parts> {
    /// An event of the component itself.
    Own(P::PingerEvent),
    /// A message for the component has come.
    MessageReceived {
        sender: P::NodeId,
        msg: P::PingerMessage,
    },
}

/// API server component event.
pub enum ApiServerEvent<P: Parts> {
    /// An event of the component itself.
    Own(P::ApiServerEvent),
    /// A request to the component.
    ApiRequest(P::ApiRequest),
}

/// Consensus component event.
pub enum ConsensusEvent<P: Parts> {
    /// An event of the component itself.
    Own(P::ConsensusEvent),
    /// A message for the component has come.
    MessageReceived {
        sender: P::NodeId,
        msg: P::ConsensusMessage,
    },
}

/// Deploy gossiper component event.
pub enum DeployGossiperEvent<P: Parts> {
    /// An event of the component itself.
    Own(P::DeployGossiperEvent),
    /// A message for the component has come.
    MessageReceived {
        sender: P::NodeId,
        message: P::DeployGossiperMessage,
    },
    /// A deploy has come from a client.
    DeployReceived {
        deploy: P::Deploy,
    },
}

/// Contract runtime component event.
pub enum ContractRuntimeEvent<P: Parts> {
    /// An event of the component itself.
    Own(P::ContractRuntimeEvent),
    /// A request to the component.
    Request(P::ContractRuntimeRequest),
}

/// Top-level event for the reactor.
pub enum Event<P: Parts> {
    /// Network event.
    Network(NetworkEvent<P>),
    /// Deploy queue event.
    DeployQueue(DeployQueueEvent<P>),
    /// Pinger event.
    Pinger(PingerEvent<P>),
    /// Storage event.
    Storage(P::StorageRequest),
    /// API server event.
    ApiServer(ApiServerEvent<P>),
    /// Consensus event.
    Consensus(ConsensusEvent<P>),
    /// Deploy gossiper event.
    DeployGossiper(DeployGossiperEvent<P>),
    /// Contract runtime event.
    ContractRuntime(ContractRuntimeEvent<P>),
    /// Network request.
    NetworkRequest(NetworkRequest<P::NodeId, Message<P>>),
    /// Deploy queue request.
    DeployQueueRequest(P::DeployQueueRequest),
    /// Network announcement: a message was received.
    NetworkAnnouncement {
        sender: P::NodeId,
        payload: Message<P>,
    },
    /// Storage announcement: a deploy was stored.
    StorageAnnouncement {
        deploy_hash: P::DeployHash,
        deploy_header: P::DeployHeader,
    },
    /// API server announcement: a deploy was received.
    ApiServerAnnouncement {
        deploy: P::Deploy,
    },
}

/// Where an event goes.
pub enum Route<P: Parts> {
    Network(NetworkEvent<P>),
    DeployQueue(DeployQueueEvent<P>),
    Pinger(PingerEvent<P>),
    Storage(P::StorageRequest),
    ApiServer(ApiServerEvent<P>),
    Consensus(ConsensusEvent<P>),
    DeployGossiper(DeployGossiperEvent<P>),
    ContractRuntime(ContractRuntimeEvent<P>),
    /// Add a deploy to the deploy buffer.
    AddDeploy {
        deploy_hash: P::DeployHash,
        deploy_header: P::DeployHeader,
    },
}

impl<P: Parts> Event<P> {
    /// Where the event goes: events go to their components, requests become events of the components
    /// they are for, received messages become events of the components that understand them, and
    /// deploys from clients are gossiped and, once they are stored, buffered.
    pub open spec fn route(self) -> Route<P> {
        match self {
            Event::Network(event) => Route::Network(event),
            Event::DeployQueue(event) => Route::DeployQueue(event),
            Event::Pinger(event) => Route::Pinger(event),
            Event::Storage(event) => Route::Storage(event),
            Event::ApiServer(event) => Route::ApiServer(event),
            Event::Consensus(event) => Route::Consensus(event),
            Event::DeployGossiper(event) => Route::DeployGossiper(event),
            Event::ContractRuntime(event) => Route::ContractRuntime(event),
            Event::NetworkRequest(req) => Route::Network(NetworkEvent::Request(req)),
            Event::DeployQueueRequest(req) => Route::DeployQueue(DeployQueueEvent::Request(req)),
            Event::NetworkAnnouncement { sender, payload } => match payload {
                Message::Consensus(msg) => Route::Consensus(ConsensusEvent::MessageReceived { sender, msg }),
                Message::Pinger(msg) => Route::Pinger(PingerEvent::MessageReceived { sender, msg }),
                Message::DeployGossiper(message) => Route::DeployGossiper(
                    DeployGossiperEvent::MessageReceived { sender, message },
                ),
            },
            Event::ApiServerAnnouncement { deploy } => Route::DeployGossiper(DeployGossiperEvent::DeployReceived { deploy }),
            Event::StorageAnnouncement { deploy_hash, deploy_header } => Route::AddDeploy { deploy_hash, deploy_header },
        }
    }

    /// Returns where the event goes.
    pub fn dispatch_event(self) -> (r: Route<P>)
        ensures
            r == self.route(),
    {
        match self {
            Event::Network(event) => Route::Network(event),
            Event::DeployQueue(event) => Route::DeployQueue(event),
            Event::Pinger(event) => Route::Pinger(event),
            Event::Storage(event) => Route::Storage(event),
            Event::ApiServer(event) => Route::ApiServer(event),
            Event::Consensus(event) => Route::Consensus(event),
            Event::DeployGossiper(event) => Route::DeployGossiper(event),
            Event::ContractRuntime(event) => Route::ContractRuntime(event),
            // Requests:
            Event::NetworkRequest(req) => Route::Network(NetworkEvent::Request(req)),
            Event::DeployQueueRequest(req) => Route::DeployQueue(DeployQueueEvent::Request(req)),
            // Announcements:
            Event::NetworkAnnouncement { sender, payload } => match payload {
                Message::Consensus(msg) => Route::Consensus(ConsensusEvent::MessageReceived { sender, msg }),
                Message::Pinger(msg) => Route::Pinger(PingerEvent::MessageReceived { sender, msg }),
                Message::DeployGossiper(message) => Route::DeployGossiper(
                    DeployGossiperEvent::MessageReceived { sender, message },
                ),
            },
            Event::ApiServerAnnouncement { deploy } => Route::DeployGossiper(DeployGossiperEvent::DeployReceived { deploy }),
            Event::StorageAnnouncement { deploy_hash, deploy_header } => Route::AddDeploy { deploy_hash, deploy_header },
        }
    }

    /// Returns the event of a request to the API server.
    pub fn from_api_request(request: P::ApiRequest) -> (r: Event<P>)
        ensures
            r == Event::<P>::ApiServer(ApiServerEvent::ApiRequest(request)),
    {
        Event::ApiServer(ApiServerEvent::ApiRequest(request))
    }

    /// Returns the event of a request to the contract runtime.
    pub fn from_contract_runtime_request(request: P::ContractRuntimeRequest) -> (r: Event<P>)
        ensures
            r == Event::<P>::ContractRuntime(ContractRuntimeEvent::Request(request)),
    {
        Event::ContractRuntime(ContractRuntimeEvent::Request(request))
    }

    /// Returns the event of a request to send a message of the consensus component.
    pub fn from_consensus_network_request(request: NetworkRequest<P::NodeId, P::ConsensusMessage>) -> (r: Event<P>)
        ensures
            r == Event::NetworkRequest(request.with_payload(Message::<P>::Consensus(request.spec_payload()))),
    {
        let wrap = |msg: P::ConsensusMessage| -> (m: Message<P>)
            ensures
                m == Message::<P>::Consensus(msg),
            { Message::Consensus(msg) };
        Event::NetworkRequest(request.map_payload(wrap))
    }

    /// Returns the event of a request to send a message of the pinger component.
    pub fn from_pinger_network_request(request: NetworkRequest<P::NodeId, P::PingerMessage>) -> (r: Event<P>)
        ensures
            r == Event::NetworkRequest(request.with_payload(Message::<P>::Pinger(request.spec_payload()))),
    {
        let wrap = |msg: P::PingerMessage| -> (m: Message<P>)
            ensures
                m == Message::<P>::Pinger(msg),
            { Message::Pinger(msg) };
        Event::NetworkRequest(request.map_payload(wrap))
    }

    /// Returns the event of a request to send a message of the deploy gossiper component.
    pub fn from_gossiper_network_request(request: NetworkRequest<P::NodeId, P::DeployGossiperMessage>) -> (r: Event<P>)
        ensures
            r == Event::NetworkRequest(request.with_payload(Message::<P>::DeployGossiper(request.spec_payload()))),
    {
        let wrap = |msg: P::DeployGossiperMessage| -> (m: Message<P>)
            ensures
                m == Message::<P>::DeployGossiper(msg),
            { Message::DeployGossiper(msg) };
        Event::NetworkRequest(request.map_payload(wrap))
    }

    /// What the text of an event starts with.
    pub open spec fn prefix(self) -> Seq<char> {
        match self {
            Event::Network(_) => "network: "@,
            Event::DeployQueue(_) => "deploy queue: "@,
            Event::Pinger(_) => "pinger: "@,
            Event::Storage(_) => "storage: "@,
            Event::ApiServer(_) => "api server: "@,
            Event::Consensus(_) => "consensus: "@,
            Event::DeployGossiper(_) => "deploy gossiper: "@,
            Event::ContractRuntime(_) => "contract runtime: "@,
            Event::NetworkRequest(_) => "network request: "@,
            Event::DeployQueueRequest(_) => "deploy queue request: "@,
            Event::NetworkAnnouncement { .. } => "network announcement: "@,
            Event::ApiServerAnnouncement { .. } => "api server announcement: "@,
            Event::StorageAnnouncement { .. } => "storage announcement: "@,
        }
    }

    /// Returns the text of this event, given that of what it carries.
    pub fn to_text(&self, detail: &str) -> (r: String)
        ensures
            r@ == self.prefix() + detail@,
    {
        let prefix = match self {
            Event::Network(_) => "network: ",
            Event::DeployQueue(_) => "deploy queue: ",
            Event::Pinger(_) => "pinger: ",
            Event::Storage(_) => "storage: ",
            Event::ApiServer(_) => "api server: ",
            Event::Consensus(_) => "consensus: ",
            Event::DeployGossiper(_) => "deploy gossiper: ",
            Event::ContractRuntime(_) => "contract runtime: ",
            Event::NetworkRequest(_) => "network request: ",
            Event::DeployQueueRequest(_) => "deploy queue request: ",
            Event::NetworkAnnouncement { .. } => "network announcement: ",
            Event::ApiServerAnnouncement { .. } => "api server announcement: ",
            Event::StorageAnnouncement { .. } => "storage announcement: ",
        };
        String::from_str(prefix).concat(detail)
    }
}

/// The events with which a reactor starts, from those of its components.
pub open spec fn startup<P: Parts>(
    network: Seq<P::NetworkEvent>,
    pinger: Seq<P::PingerEvent>,
    consensus: Seq<P::ConsensusEvent>,
) -> Seq<Event<P>> {
    network.map_values(|e: P::NetworkEvent| Event::<P>::Network(NetworkEvent::Own(e))) + pinger.map_values(
        |e: P::PingerEvent| Event::<P>::Pinger(PingerEvent::Own(e)),
    ) + consensus.map_values(|e: P::ConsensusEvent| Event::<P>::Consensus(ConsensusEvent::Own(e)))
}

/// Returns the events with which a reactor starts: those of the network, of the pinger and of
/// consensus, in that order.
pub fn init_events<P: Parts>(
    network: Vec<P::NetworkEvent>,
    pinger: Vec<P::PingerEvent>,
    consensus: Vec<P::ConsensusEvent>,
) -> (r: Vec<Event<P>>)
    ensures
        r@ == startup::<P>(network@, pinger@, consensus@),
{
    let ghost n = network@;
    let ghost p = pinger@;
    let ghost c = consensus@;
    let ghost goal = startup::<P>(n, p, c);
    let mut events: Vec<Event<P>> = Vec::new();
    let mut network = network;
    let mut pinger = pinger;
    let mut consensus = consensus;
    while network.len() > 0
        invariant
            goal == startup::<P>(n, p, c),
            events@.len() + network@.len() == n.len(),
            network@ == n.skip(events@.len() as int),
            events@ == goal.take(events@.len() as int),
        decreases network@.len(),
    {
        let ghost k = events@.len() as int;
        let event = network.remove(0);
        events.push(Event::Network(NetworkEvent::Own(event)));
        assert(network@ =~= n.skip(k + 1));
        assert(events@ =~= goal.take(k + 1));
    }
    while pinger.len() > 0
        invariant
            goal == startup::<P>(n, p, c),
            events@.len() + pinger@.len() == n.len() + p.len(),
            n.len() <= events@.len(),
            pinger@ == p.skip(events@.len() - n.len()),
            events@ == goal.take(events@.len() as int),
        decreases pinger@.len(),
    {
        let ghost k = events@.len() as int;
        let event = pinger.remove(0);
        events.push(Event::Pinger(PingerEvent::Own(event)));
        assert(pinger@ =~= p.skip(k + 1 - n.len()));
        assert(events@ =~= goal.take(k + 1));
    }
    while consensus.len() > 0
        invariant
            goal == startup::<P>(n, p, c),
            events@.len() + consensus@.len() == n.len() + p.len() + c.len(),
            n.len() + p.len() <= events@.len(),
            consensus@ == c.skip(events@.len() - n.len() - p.len()),
            events@ == goal.take(events@.len() as int),
        decreases consensus@.len(),
    {
        let ghost k = events@.len() as int;
        let event = consensus.remove(0);
        events.push(Event::Consensus(ConsensusEvent::Own(event)));
        assert(consensus@ =~= c.skip(k + 1 - n.len() - p.len()));
        assert(events@ =~= goal.take(k + 1));
    }
    assert(events@ =~= goal);
    events
}

/// What one component sends to another node is what the same component gets there: the payload of the
/// request that a component's request becomes is, when it arrives, handed to that component as the
/// message that was to be sent.
pub proof fn law_messages_reach_their_component<P: Parts>(
    sender: P::NodeId,
    consensus: NetworkRequest<P::NodeId, P::ConsensusMessage>,
    pinger: NetworkRequest<P::NodeId, P::PingerMessage>,
    gossiper: NetworkRequest<P::NodeId, P::DeployGossiperMessage>,
)
    ensures
        (Event::<P>::NetworkAnnouncement {
            sender,
            payload: consensus.with_payload(Message::<P>::Consensus(consensus.spec_payload())).spec_payload(),
        }).route() == Route::<P>::Consensus(
            ConsensusEvent::MessageReceived { sender, msg: consensus.spec_payload() },
        ),
        (Event::<P>::NetworkAnnouncement {
            sender,
            payload: pinger.with_payload(Message::<P>::Pinger(pinger.spec_payload())).spec_payload(),
        }).route() == Route::<P>::Pinger(PingerEvent::MessageReceived { sender, msg: pinger.spec_payload() }),
        (Event::<P>::NetworkAnnouncement {
            sender,
            payload: gossiper.with_payload(Message::<P>::DeployGossiper(gossiper.spec_payload())).spec_payload(),
        }).route() == Route::<P>::DeployGossiper(
            DeployGossiperEvent::MessageReceived { sender, message: gossiper.spec_payload() },
        ),
{
}

/// A component gets what is its own and what is meant for it, and nothing else: the network gets requests
/// to send, the deploy queue its requests, and consensus, pinger and gossiper the messages of their kind,
/// with who sent them; the gossiper also gets each deploy that comes in from outside, and each deploy that
/// was stored is added.
pub proof fn law_components_get_what_is_meant_for_them<P: Parts>(e: Event<P>)
    ensures
        match e.route() {
            Route::Network(NetworkEvent::Request(request)) => e == Event::<P>::NetworkRequest(request) || e == Event::<P>::Network(
                NetworkEvent::Request(request),
            ),
            Route::Network(own) => e == Event::<P>::Network(own),
            Route::DeployQueue(DeployQueueEvent::Request(request)) => e == Event::<P>::DeployQueueRequest(request) || e
                == Event::<P>::DeployQueue(DeployQueueEvent::Request(request)),
            Route::DeployQueue(own) => e == Event::<P>::DeployQueue(own),
            Route::Pinger(PingerEvent::MessageReceived { sender, msg }) => e == (Event::<P>::NetworkAnnouncement {
                sender,
                payload: Message::Pinger(msg),
            }) || e == Event::<P>::Pinger(PingerEvent::MessageReceived { sender, msg }),
            Route::Pinger(own) => e == Event::<P>::Pinger(own),
            Route::Storage(request) => e == Event::<P>::Storage(request),
            Route::ApiServer(own) => e == Event::<P>::ApiServer(own),
            Route::Consensus(ConsensusEvent::MessageReceived { sender, msg }) => e == (Event::<P>::NetworkAnnouncement {
                sender,
                payload: Message::Consensus(msg),
            }) || e == Event::<P>::Consensus(ConsensusEvent::MessageReceived { sender, msg }),
            Route::Consensus(own) => e == Event::<P>::Consensus(own),
            Route::DeployGossiper(DeployGossiperEvent::MessageReceived { sender, message }) => e == (
            Event::<P>::NetworkAnnouncement { sender, payload: Message::DeployGossiper(message) }) || e == Event::<P>::DeployGossiper(
                DeployGossiperEvent::MessageReceived { sender, message },
            ),
            Route::DeployGossiper(DeployGossiperEvent::DeployReceived { deploy }) => e == (Event::<P>::ApiServerAnnouncement {
                deploy,
            }) || e == Event::<P>::DeployGossiper(DeployGossiperEvent::DeployReceived { deploy }),
            Route::DeployGossiper(own) => e == Event::<P>::DeployGossiper(own),
            Route::ContractRuntime(own) => e == Event::<P>::ContractRuntime(own),
            Route::AddDeploy { deploy_hash, deploy_header } => e == (Event::<P>::StorageAnnouncement { deploy_hash, deploy_header }),
        },
{
}

/// Another payload changes nothing about where a request goes, whom it leaves out and who is answered.
pub proof fn law_payload_alone_changes<I, M, N>(request: NetworkRequest<I, M>, payload: N)
    ensures
        request.with_payload(payload).spec_payload() == payload,
        match (request, request.with_payload(payload)) {
            (
                NetworkRequest::SendMessage { dest, responder, .. },
                NetworkRequest::SendMessage { dest: to, responder: answered, .. },
            ) => to == dest && answered == responder,
            (NetworkRequest::Broadcast { responder, .. }, NetworkRequest::Broadcast { responder: answered, .. }) => answered
                == responder,
            (
                NetworkRequest::Gossip { count, exclude, responder, .. },
                NetworkRequest::Gossip { count: n, exclude: left_out, responder: answered, .. },
            ) => n == count && left_out == exclude && answered == responder,
            _ => false,
        },
{
}

/// At the start each component gets its own events in order, the network first, then the pinger, then
/// consensus.
pub proof fn law_startup_order<P: Parts>(
    network: Seq<P::NetworkEvent>,
    pinger: Seq<P::PingerEvent>,
    consensus: Seq<P::ConsensusEvent>,
    i: int,
)
    requires
        0 <= i < network.len() + pinger.len() + consensus.len(),
    ensures
        ({
            let all = startup::<P>(network, pinger, consensus);
            &&& all.len() == network.len() + pinger.len() + consensus.len()
            &&& i < network.len() ==> all[i] == Event::<P>::Network(NetworkEvent::Own(network[i]))
            &&& network.len() <= i < network.len() + pinger.len() ==> all[i] == Event::<P>::Pinger(
                PingerEvent::Own(pinger[i - network.len()]),
            )
            &&& network.len() + pinger.len() <= i ==> all[i] == Event::<P>::Consensus(
                ConsensusEvent::Own(consensus[i - network.len() - pinger.len()]),
            )
        }),
{
}

} // verus!
