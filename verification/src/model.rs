//! The connection service: the state machine that owns the single session.
//!
//! The service never touches the tree or the presentation surface; its only
//! effect is to emit events into the bridge and to hand back the network
//! action to perform. The blocking calls themselves (establishing a session,
//! tearing it down, the browse on the wire) are performed outside the
//! library in the network context, which reports each outcome back here.

use vstd::prelude::*;

use crate::app::AppMessage;
use crate::bridge::EventBridge;
use crate::types::{BrowseResult, ConnectionState, MessageSecurityMode, NodeId, SecurityPolicy};

verus! {

/// A request addressed to the connection service.
pub enum ModelMessage {
    /// Establish a session against the given endpoint with the given
    /// security parameters.
    Connect(String, SecurityPolicy, MessageSecurityMode),
    /// Tear the session down.
    Disconnect,
    /// Fetch the direct children of the given node.
    BrowseNode(NodeId),
}

/// A blocking operation the network context must perform on behalf of the
/// connection service.
pub enum NetworkAction {
    /// Establish a session.
    Connect(String, SecurityPolicy, MessageSecurityMode),
    /// Tear the session down; always succeeds.
    Disconnect,
    /// Browse the given node on the live session.
    Browse(NodeId),
}

/// The connection service's state machine. Decisions are made here, against
/// the session state; the network context only executes the returned
/// actions and reports their outcomes.
pub struct Model {
    state: ConnectionState,
}

impl Model {
    /// The session state as the service believes it.
    pub closed spec fn spec_state(&self) -> ConnectionState {
        self.state
    }

    /// A fresh service: no session.
    pub fn new() -> (m: Model)
        ensures
            m.spec_state() is Disconnected,
    {
        Model { state: ConnectionState::Disconnected }
    }

    /// Emit one diagnostic line for the console pane.
    pub fn log(&self, bridge: &mut EventBridge, msg: &str)
        ensures
            final(bridge)@.len() == old(bridge)@.len() + 1,
            final(bridge)@ == old(bridge)@.push(final(bridge)@.last()),
            final(bridge)@.last() matches AppMessage::Console(d) && d@ == msg@,
            final(bridge).history() == old(bridge).history().push(final(bridge)@.last()),
            final(bridge).delivered() == old(bridge).delivered(),
    {
        bridge.push(AppMessage::Console(msg.to_owned()));
    }

    /// A connect was requested: announce the attempt on the console and hand
    /// the blocking connect to the network context.
    pub fn connect(
        &mut self,
        bridge: &mut EventBridge,
        endpoint_url: &str,
        security_policy: SecurityPolicy,
        message_security_mode: MessageSecurityMode,
    ) -> (action: NetworkAction)
        ensures
            final(self).spec_state() is Connecting,
            final(bridge)@.len() == old(bridge)@.len() + 1,
            final(bridge)@ == old(bridge)@.push(final(bridge)@.last()),
            final(bridge)@.last() matches AppMessage::Console(d) && d@
                == "Attempting to connect to endpoint "@ + endpoint_url@,
            final(bridge).history() == old(bridge).history().push(final(bridge)@.last()),
            final(bridge).delivered() == old(bridge).delivered(),
            action matches NetworkAction::Connect(u, p, m) && u@ == endpoint_url@ && p
                == security_policy && m == message_security_mode,
    {
        let diag = String::from_str("Attempting to connect to endpoint ").concat(endpoint_url);
        self.log(bridge, diag.as_str());
        self.state = ConnectionState::Connecting;
        NetworkAction::Connect(endpoint_url.to_owned(), security_policy, message_security_mode)
    }

    /// The network context reports the outcome of a connect attempt. Success
    /// establishes the session and emits `Connected`; failure leaves no
    /// session and emits the cause on the console followed by
    /// `Disconnected`, so that a later retry starts from the same state.
    pub fn on_connect_result(&mut self, bridge: &mut EventBridge, outcome: Result<(), String>)
        ensures
            final(bridge)@.len() == old(bridge)@.len() + 2,
            final(bridge)@ == old(bridge)@.push(final(bridge)@[final(bridge)@.len() - 2]).push(
                final(bridge)@.last(),
            ),
            final(bridge).history() == old(bridge).history().push(
                final(bridge)@[final(bridge)@.len() - 2],
            ).push(final(bridge)@.last()),
            final(bridge).delivered() == old(bridge).delivered(),
            outcome is Ok ==> {
                &&& final(self).spec_state() is Connected
                &&& final(bridge)@[final(bridge)@.len() - 2] matches AppMessage::Console(d) && d@
                    == "Connection succeeded"@
                &&& final(bridge)@.last() is Connected
            },
            outcome matches Err(e) ==> {
                &&& final(self).spec_state() is Disconnected
                &&& final(bridge)@[final(bridge)@.len() - 2] matches AppMessage::Console(d) && d@
                    == "Connection failed, status code = "@ + e@
                &&& final(bridge)@.last() is Disconnected
            },
    {
        match outcome {
            Ok(()) => {
                self.log(bridge, "Connection succeeded");
                bridge.push(AppMessage::Connected);
                self.state = ConnectionState::Connected;
            }
            Err(e) => {
                let diag = String::from_str("Connection failed, status code = ").concat(
                    e.as_str(),
                );
                self.log(bridge, diag.as_str());
                bridge.push(AppMessage::Disconnected);
                self.state = ConnectionState::Disconnected;
            }
        }
    }

    /// Tear the session down. Emits `Disconnected` in every case, so the
    /// render context converges on the same state whether or not a session
    /// existed; the teardown itself is handed to the network context.
    pub fn disconnect(&mut self, bridge: &mut EventBridge) -> (action: NetworkAction)
        ensures
            final(self).spec_state() is Disconnected,
            action is Disconnect,
            final(bridge).delivered() == old(bridge).delivered(),
            old(self).spec_state() is Connected ==> {
                &&& final(bridge)@.len() == old(bridge)@.len() + 2
                &&& final(bridge)@ == old(bridge)@.push(
                    final(bridge)@[final(bridge)@.len() - 2],
                ).push(final(bridge)@.last())
                &&& final(bridge).history() == old(bridge).history().push(
                    final(bridge)@[final(bridge)@.len() - 2],
                ).push(final(bridge)@.last())
                &&& final(bridge)@[final(bridge)@.len() - 2] matches AppMessage::Console(d) && d@
                    == "Disconnecting from session"@
                &&& final(bridge)@.last() is Disconnected
            },
            !(old(self).spec_state() is Connected) ==> {
                &&& final(bridge)@ == old(bridge)@.push(AppMessage::Disconnected)
                &&& final(bridge).history() == old(bridge).history().push(
                    AppMessage::Disconnected,
                )
            },
    {
        let was_connected = match self.state {
            ConnectionState::Connected => true,
            _ => false,
        };
        if was_connected {
            self.log(bridge, "Disconnecting from session");
        }
        bridge.push(AppMessage::Disconnected);
        self.state = ConnectionState::Disconnected;
        NetworkAction::Disconnect
    }

    /// A browse was requested. With a live session the fetch is announced
    /// and handed to the network context; without one nothing useful can be
    /// resolved, so nothing is emitted and no action is taken.
    pub fn browse_node(&mut self, bridge: &mut EventBridge, parent_node_id: NodeId) -> (action:
        Option<NetworkAction>)
        ensures
            *final(self) == *old(self),
            final(bridge).delivered() == old(bridge).delivered(),
            old(self).spec_state() is Connected ==> {
                &&& action == Some(NetworkAction::Browse(parent_node_id))
                &&& final(bridge)@.len() == old(bridge)@.len() + 1
                &&& final(bridge)@ == old(bridge)@.push(final(bridge)@.last())
                &&& final(bridge).history() == old(bridge).history().push(final(bridge)@.last())
                &&& final(bridge)@.last() matches AppMessage::Console(d) && d@
                    == "Fetching children of node"@
            },
            !(old(self).spec_state() is Connected) ==> {
                &&& action is None
                &&& final(bridge)@ == old(bridge)@
                &&& final(bridge).history() == old(bridge).history()
            },
    {
        match self.state {
            ConnectionState::Connected => {
                self.log(bridge, "Fetching children of node");
                Some(NetworkAction::Browse(parent_node_id))
            }
            _ => None,
        }
    }

    /// The network context reports the outcome of a browse. A result, good
    /// or bad, travels to the render context as one `BrowseNodeResult`
    /// event; a call that failed outright produces no result event at all,
    /// only a console line, leaving the node expandable again.
    pub fn on_browse_response(
        &mut self,
        bridge: &mut EventBridge,
        parent_node_id: NodeId,
        outcome: Option<BrowseResult>,
    )
        ensures
            *final(self) == *old(self),
            final(bridge).delivered() == old(bridge).delivered(),
            outcome matches Some(result) ==> {
                &&& final(bridge)@ == old(bridge)@.push(
                    AppMessage::BrowseNodeResult(parent_node_id, result),
                )
                &&& final(bridge).history() == old(bridge).history().push(
                    AppMessage::BrowseNodeResult(parent_node_id, result),
                )
            },
            outcome is None ==> {
                &&& final(bridge)@.len() == old(bridge)@.len() + 1
                &&& final(bridge)@ == old(bridge)@.push(final(bridge)@.last())
                &&& final(bridge).history() == old(bridge).history().push(final(bridge)@.last())
                &&& final(bridge)@.last() matches AppMessage::Console(d) && d@
                    == "Fetch failed, no results"@
            },
    {
        match outcome {
            Some(result) => {
                bridge.push(AppMessage::BrowseNodeResult(parent_node_id, result));
            }
            None => {
                self.log(bridge, "Fetch failed, no results");
            }
        }
    }

    /// Dispatch one request: the actor's receive step.
    pub fn recv(&mut self, bridge: &mut EventBridge, msg: ModelMessage) -> (action: Option<
        NetworkAction>)
        ensures
            final(bridge).delivered() == old(bridge).delivered(),
            msg matches ModelMessage::Connect(u, p, m) ==> {
                &&& final(self).spec_state() is Connecting
                &&& action matches Some(NetworkAction::Connect(u2, p2, m2)) && u2@ == u@ && p2 == p
                    && m2 == m
            },
            msg is Disconnect ==> {
                &&& final(self).spec_state() is Disconnected
                &&& action matches Some(a) && a is Disconnect
            },
            msg matches ModelMessage::BrowseNode(id) ==> {
                &&& *final(self) == *old(self)
                &&& (old(self).spec_state() is Connected ==> action == Some(
                    NetworkAction::Browse(id),
                ))
                &&& (!(old(self).spec_state() is Connected) ==> action is None
                    && final(bridge)@ == old(bridge)@)
            },
    {
        match msg {
            ModelMessage::Connect(endpoint_url, security_policy, message_security_mode) => {
                Some(
                    self.connect(
                        bridge,
                        endpoint_url.as_str(),
                        security_policy,
                        message_security_mode,
                    ),
                )
            }
            ModelMessage::Disconnect => Some(self.disconnect(bridge)),
            ModelMessage::BrowseNode(parent_node_id) => self.browse_node(bridge, parent_node_id),
        }
    }
}

} // verus!
