//! The render context's side of the system: the events it receives and the
//! poll step that drains the bridge and drives the tree cache.

use vstd::prelude::*;

use crate::address_space_tree_view::{
    spec_render_commands, AddressSpaceTreeView, CacheView, RenderCommand,
};
use crate::bridge::EventBridge;
use crate::model::ModelMessage;
use crate::types::{BrowseResult, NodeId};

verus! {

/// An event addressed to the render context. Produced by the connection
/// service, carried by the event bridge, consumed by the poll step.
pub enum AppMessage {
    /// A diagnostic line for the console pane.
    Console(String),
    /// Stop rescheduling the poll loop; the only graceful shutdown path.
    Quit,
    /// The session was established.
    Connected,
    /// The session is gone (failed to establish, or torn down).
    Disconnected,
    /// The outcome of one browse call, keyed by the node that was browsed.
    BrowseNodeResult(NodeId, BrowseResult),
}

/// Mathematical value of the render context's state.
#[verifier::ext_equal]
pub struct AppView {
    pub cache: CacheView,
    pub is_connected: bool,
    /// The console pane's lines, oldest first.
    pub console: Seq<Seq<char>>,
}

/// What one poll step decided: whether to keep polling, the request to hand
/// to the connection service, and the commands for the renderer.
pub struct PollOutcome {
    pub keep_running: bool,
    pub request: Option<ModelMessage>,
    pub render: Vec<RenderCommand>,
}

/// The state one delivered event takes the render context to, with whether
/// polling continues and the request the event triggers.
pub open spec fn spec_handle_message(a: AppView, msg: AppMessage) -> (AppView, bool, Option<
    ModelMessage>) {
    match msg {
        AppMessage::Console(m) => (AppView { console: a.console.push(m@), ..a }, true, None),
        AppMessage::Quit => (a, false, None),
        AppMessage::Connected => (
            AppView { is_connected: true, cache: CacheView::spec_new(), ..a },
            true,
            Some(ModelMessage::BrowseNode(NodeId::spec_root_folder())),
        ),
        AppMessage::Disconnected => (AppView { is_connected: false, ..a }, true, None),
        AppMessage::BrowseNodeResult(p, br) => (
            AppView { cache: a.cache.spec_on_browse_result(p, br@), ..a },
            true,
            None,
        ),
    }
}

/// The render context: the tree cache, the connection indicator and the
/// console model. The widgets themselves live outside the library and only
/// mirror this state.
pub struct App {
    address_space_tree: AddressSpaceTreeView,
    is_connected: bool,
    console: Vec<String>,
}

impl View for App {
    type V = AppView;

    closed spec fn view(&self) -> AppView {
        AppView {
            cache: self.address_space_tree@,
            is_connected: self.is_connected,
            console: self.console@.map_values(|l: String| l@),
        }
    }
}

impl App {
    /// A fresh render context: empty tree, no session, empty console.
    pub fn new() -> (a: App)
        ensures
            a@.cache == CacheView::spec_new(),
            a@.cache.wf(),
            !a@.is_connected,
            a@.console == Seq::<Seq<char>>::empty(),
    {
        let a = App {
            address_space_tree: AddressSpaceTreeView::new(),
            is_connected: false,
            console: Vec::new(),
        };
        proof {
            assert(a@.console =~= Seq::<Seq<char>>::empty());
        }
        a
    }

    /// The tree cache, for rendering.
    pub fn tree(&self) -> (t: &AddressSpaceTreeView)
        ensures
            t@ == self@.cache,
    {
        &self.address_space_tree
    }

    /// Whether the render context believes a session is live.
    pub fn is_connected(&self) -> (r: bool)
        ensures
            r == self@.is_connected,
    {
        self.is_connected
    }

    /// How many lines the console model holds.
    pub fn console_count(&self) -> (n: usize)
        ensures
            n == self@.console.len(),
    {
        self.console.len()
    }

    /// The `i`-th console line, oldest first.
    pub fn console_line(&self, i: usize) -> (r: &String)
        requires
            i < self@.console.len(),
        ensures
            r@ == self@.console[i as int],
    {
        &self.console[i]
    }

    /// Append one line to the console model.
    pub fn console_write(&mut self, message: &str)
        ensures
            final(self)@ == (AppView {
                console: old(self)@.console.push(message@),
                ..old(self)@
            }),
    {
        self.console.push(message.to_owned());
        proof {
            assert(final(self)@ =~~= (AppView {
                console: old(self)@.console.push(message@),
                ..old(self)@
            }));
        }
    }

    /// Mirror the session state reported by the connection service.
    pub fn update_connection_state(&mut self, is_connected: bool)
        ensures
            final(self)@ == (AppView { is_connected, ..old(self)@ }),
    {
        self.is_connected = is_connected;
        proof {
            assert(final(self)@ =~~= (AppView { is_connected, ..old(self)@ }));
        }
    }

    /// The session was established: mark it, reset the tree and request a
    /// fresh population of the root.
    pub fn on_connected(&mut self) -> (r: ModelMessage)
        ensures
            final(self)@ == (AppView {
                is_connected: true,
                cache: CacheView::spec_new(),
                ..old(self)@
            }),
            final(self)@.cache.wf(),
            r == ModelMessage::BrowseNode(NodeId::spec_root_folder()),
    {
        self.update_connection_state(true);
        let r = self.address_space_tree.populate();
        proof {
            assert(final(self)@ =~~= (AppView {
                is_connected: true,
                cache: CacheView::spec_new(),
                ..old(self)@
            }));
        }
        r
    }

    /// The session is gone: mirror that; the tree keeps what was explored.
    pub fn on_disconnected(&mut self)
        ensures
            final(self)@ == (AppView { is_connected: false, ..old(self)@ }),
    {
        self.update_connection_state(false);
    }

    /// A browse result arrived: reconcile it into the tree.
    pub fn on_browse_node_result(
        &mut self,
        parent_node_id: NodeId,
        browse_node_result: BrowseResult,
    ) -> (cmds: Vec<RenderCommand>)
        requires
            old(self)@.cache.wf(),
        ensures
            final(self)@ == (AppView {
                cache: old(self)@.cache.spec_on_browse_result(
                    parent_node_id,
                    browse_node_result@,
                ),
                ..old(self)@
            }),
            final(self)@.cache.wf(),
            cmds@ == spec_render_commands(old(self)@.cache, parent_node_id, browse_node_result),
    {
        let cmds = self.address_space_tree.on_browse_node_result(
            parent_node_id,
            browse_node_result,
        );
        proof {
            assert(final(self)@ =~~= (AppView {
                cache: old(self)@.cache.spec_on_browse_result(
                    parent_node_id,
                    browse_node_result@,
                ),
                ..old(self)@
            }));
        }
        cmds
    }

    /// The presentation surface reports that the user expanded the node it
    /// resolved to `node_id`: dispatch at most one browse request for it.
    pub fn row_expanded(&mut self, node_id: NodeId) -> (r: Option<ModelMessage>)
        requires
            old(self)@.cache.wf(),
        ensures
            final(self)@ == (AppView {
                cache: old(self)@.cache.spec_row_expanded(node_id).0,
                ..old(self)@
            }),
            final(self)@.cache.wf(),
            r == match old(self)@.cache.spec_row_expanded(node_id).1 {
                Some(id) => Some(ModelMessage::BrowseNode(id)),
                None => None::<ModelMessage>,
            },
    {
        let r = self.address_space_tree.row_expanded(node_id);
        proof {
            assert(final(self)@ =~~= (AppView {
                cache: old(self)@.cache.spec_row_expanded(node_id).0,
                ..old(self)@
            }));
        }
        r
    }

    /// The cooperative poll step: drain at most one event from the bridge
    /// and act on it. Never blocks; an empty bridge changes nothing. The
    /// outcome says whether the loop keeps being rescheduled, which request
    /// to send to the connection service, and what the renderer must do.
    pub fn handle_messages(&mut self, bridge: &mut EventBridge) -> (r: PollOutcome)
        requires
            old(self)@.cache.wf(),
        ensures
            final(self)@.cache.wf(),
            final(bridge).history() == old(bridge).history(),
            old(bridge)@.len() == 0 ==> {
                &&& final(self)@ == old(self)@
                &&& final(bridge)@ == old(bridge)@
                &&& final(bridge).delivered() == old(bridge).delivered()
                &&& r.keep_running
                &&& r.request is None
                &&& r.render@ == Seq::<RenderCommand>::empty()
            },
            old(bridge)@.len() > 0 ==> {
                &&& final(bridge)@ == old(bridge)@.drop_first()
                &&& final(bridge).delivered() == old(bridge).delivered().push(old(bridge)@[0])
                &&& final(self)@ == spec_handle_message(old(self)@, old(bridge)@[0]).0
                &&& r.keep_running == spec_handle_message(old(self)@, old(bridge)@[0]).1
                &&& r.request == spec_handle_message(old(self)@, old(bridge)@[0]).2
                &&& r.render@ == (match old(bridge)@[0] {
                    AppMessage::BrowseNodeResult(p, br) => spec_render_commands(
                        old(self)@.cache,
                        p,
                        br,
                    ),
                    _ => Seq::<RenderCommand>::empty(),
                })
            },
    {
        match bridge.poll() {
            None => PollOutcome { keep_running: true, request: None, render: Vec::new() },
            Some(msg) => match msg {
                AppMessage::Console(message) => {
                    self.console_write(message.as_str());
                    PollOutcome { keep_running: true, request: None, render: Vec::new() }
                },
                AppMessage::Quit => PollOutcome {
                    keep_running: false,
                    request: None,
                    render: Vec::new(),
                },
                AppMessage::Connected => {
                    let req = self.on_connected();
                    PollOutcome { keep_running: true, request: Some(req), render: Vec::new() }
                },
                AppMessage::Disconnected => {
                    self.on_disconnected();
                    PollOutcome { keep_running: true, request: None, render: Vec::new() }
                },
                AppMessage::BrowseNodeResult(parent_node_id, browse_node_result) => {
                    let render = self.on_browse_node_result(parent_node_id, browse_node_result);
                    PollOutcome { keep_running: true, request: None, render }
                },
            },
        }
    }
}

} // verus!
