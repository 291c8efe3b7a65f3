use opcua_explorer::app::{App, AppMessage};
use opcua_explorer::bridge::EventBridge;
use opcua_explorer::model::{Model, ModelMessage, NetworkAction};
use opcua_explorer::new_connection_dlg::{
    connect_request, parse_message_security_mode, parse_security_policy,
};
use opcua_explorer::types::{
    BrowseResult, MessageSecurityMode, NodeId, Reference, SecurityPolicy,
};

fn nid(i: u64) -> NodeId {
    NodeId { namespace: 0, identifier: i }
}

fn reference(i: u64, name: &str) -> Reference {
    Reference {
        node_id: nid(i),
        browse_name: name.to_string(),
        display_name: name.to_string(),
        reference_type_id: nid(35),
    }
}

fn good(references: Vec<Reference>) -> BrowseResult {
    BrowseResult { status_good: true, references }
}

/// Runs poll steps until the bridge is drained, performing the requested
/// network work against a fixed fake address space: the root has children
/// 10 and 11, and node 10 has child 20.
fn run_to_idle(app: &mut App, bridge: &mut EventBridge, model: &mut Model) {
    while bridge.len() > 0 {
        let outcome = app.handle_messages(bridge);
        if let Some(request) = outcome.request {
            if let Some(action) = model.recv(bridge, request) {
                perform(action, bridge, model);
            }
        }
    }
}

fn perform(action: NetworkAction, bridge: &mut EventBridge, model: &mut Model) {
    match action {
        NetworkAction::Connect(_, _, _) => model.on_connect_result(bridge, Ok(())),
        NetworkAction::Disconnect => {}
        NetworkAction::Browse(id) => {
            let result = if id == NodeId::root_folder() {
                Some(good(vec![reference(10, "Objects"), reference(11, "Types")]))
            } else if id == nid(10) {
                Some(good(vec![reference(20, "Server")]))
            } else {
                None
            };
            model.on_browse_response(bridge, id, result);
        }
    }
}

#[test]
fn bridge_delivers_in_production_order() {
    let mut bridge = EventBridge::new();
    bridge.push(AppMessage::Connected);
    bridge.push(AppMessage::Disconnected);
    bridge.push(AppMessage::Quit);
    assert!(matches!(bridge.poll(), Some(AppMessage::Connected)));
    assert!(matches!(bridge.poll(), Some(AppMessage::Disconnected)));
    assert!(matches!(bridge.poll(), Some(AppMessage::Quit)));
    assert!(bridge.poll().is_none());
}

#[test]
fn empty_bridge_poll_is_non_blocking_no_op() {
    let mut bridge = EventBridge::new();
    assert!(bridge.poll().is_none());
    assert_eq!(bridge.len(), 0);
}

#[test]
fn connected_observed_before_browse_result() {
    // the ordering that matters: Connected first, then the result it caused
    let mut bridge = EventBridge::new();
    bridge.push(AppMessage::Connected);
    bridge.push(AppMessage::BrowseNodeResult(nid(10), good(vec![])));
    let first = bridge.poll().unwrap();
    let second = bridge.poll().unwrap();
    assert!(matches!(first, AppMessage::Connected));
    assert!(matches!(second, AppMessage::BrowseNodeResult(_, _)));
}

#[test]
fn quit_stops_the_poll_loop() {
    let mut app = App::new();
    let mut bridge = EventBridge::new();
    bridge.push(AppMessage::Quit);
    let outcome = app.handle_messages(&mut bridge);
    assert!(!outcome.keep_running);
}

#[test]
fn poll_on_empty_bridge_keeps_running_and_changes_nothing() {
    let mut app = App::new();
    let mut bridge = EventBridge::new();
    let outcome = app.handle_messages(&mut bridge);
    assert!(outcome.keep_running);
    assert!(outcome.request.is_none());
    assert!(outcome.render.is_empty());
}

#[test]
fn console_messages_accumulate_in_order() {
    let mut app = App::new();
    let mut bridge = EventBridge::new();
    bridge.push(AppMessage::Console("first".to_string()));
    bridge.push(AppMessage::Console("second".to_string()));
    app.handle_messages(&mut bridge);
    app.handle_messages(&mut bridge);
    assert_eq!(app.console_count(), 2);
    assert_eq!(app.console_line(0), "first");
    assert_eq!(app.console_line(1), "second");
}

#[test]
fn successful_connect_populates_the_root() {
    let mut app = App::new();
    let mut bridge = EventBridge::new();
    let mut model = Model::new();

    let request = connect_request("opc.tcp://localhost:4840/", "None", "None").unwrap();
    let action = model.recv(&mut bridge, request).unwrap();
    perform(action, &mut bridge, &mut model);
    run_to_idle(&mut app, &mut bridge, &mut model);

    assert!(app.is_connected());
    let tree = app.tree();
    assert_eq!(tree.root_child_count(), 2);
    let a = tree.root_child(0);
    let b = tree.root_child(1);
    assert_eq!(tree.node_id_of(a), nid(10));
    assert_eq!(tree.node_id_of(b), nid(11));
    assert!(tree.has_dummy_node(a));
    assert!(tree.has_dummy_node(b));
}

#[test]
fn user_expansion_fetches_children() {
    let mut app = App::new();
    let mut bridge = EventBridge::new();
    let mut model = Model::new();
    let request = connect_request("opc.tcp://localhost:4840/", "None", "None").unwrap();
    let action = model.recv(&mut bridge, request).unwrap();
    perform(action, &mut bridge, &mut model);
    run_to_idle(&mut app, &mut bridge, &mut model);

    if let Some(request) = app.row_expanded(nid(10)) {
        if let Some(action) = model.recv(&mut bridge, request) {
            perform(action, &mut bridge, &mut model);
        }
    }
    run_to_idle(&mut app, &mut bridge, &mut model);

    let tree = app.tree();
    let a = tree.root_child(0);
    assert!(!tree.has_dummy_node(a));
    assert_eq!(tree.child_count(a), 1);
    let c = tree.child_of(a, 0);
    assert_eq!(tree.node_id_of(c), nid(20));
    assert!(tree.has_dummy_node(c));
}

#[test]
fn rapid_double_expansion_observes_one_browse() {
    let mut app = App::new();
    let mut bridge = EventBridge::new();
    let mut model = Model::new();
    let request = connect_request("opc.tcp://localhost:4840/", "None", "None").unwrap();
    let action = model.recv(&mut bridge, request).unwrap();
    perform(action, &mut bridge, &mut model);
    run_to_idle(&mut app, &mut bridge, &mut model);

    let first = app.row_expanded(nid(10));
    let second = app.row_expanded(nid(10));
    assert!(first.is_some());
    assert!(second.is_none());
}

#[test]
fn failed_connect_reports_cause_and_stays_disconnected() {
    let mut app = App::new();
    let mut bridge = EventBridge::new();
    let mut model = Model::new();

    let request = connect_request("opc.tcp://nowhere:1/", "None", "None").unwrap();
    model.recv(&mut bridge, request).unwrap();
    model.on_connect_result(&mut bridge, Err("BadConnectionRejected".to_string()));
    run_to_idle(&mut app, &mut bridge, &mut model);

    assert!(!app.is_connected());
    assert_eq!(app.tree().root_child_count(), 0);
    let last = app.console_line(app.console_count() - 1);
    assert_eq!(last, "Connection failed, status code = BadConnectionRejected");
}

#[test]
fn browse_without_session_emits_nothing() {
    let mut bridge = EventBridge::new();
    let mut model = Model::new();
    let action = model.recv(&mut bridge, ModelMessage::BrowseNode(nid(10)));
    assert!(action.is_none());
    assert_eq!(bridge.len(), 0);
}

#[test]
fn disconnect_always_converges_to_disconnected() {
    let mut app = App::new();
    let mut bridge = EventBridge::new();
    let mut model = Model::new();

    // disconnecting with no session still emits Disconnected
    let action = model.recv(&mut bridge, ModelMessage::Disconnect);
    assert!(matches!(action, Some(NetworkAction::Disconnect)));
    run_to_idle(&mut app, &mut bridge, &mut model);
    assert!(!app.is_connected());

    // and so does disconnecting a live session
    let request = connect_request("opc.tcp://localhost:4840/", "None", "None").unwrap();
    let action = model.recv(&mut bridge, request).unwrap();
    perform(action, &mut bridge, &mut model);
    run_to_idle(&mut app, &mut bridge, &mut model);
    assert!(app.is_connected());
    model.recv(&mut bridge, ModelMessage::Disconnect);
    run_to_idle(&mut app, &mut bridge, &mut model);
    assert!(!app.is_connected());
}

#[test]
fn reconnect_after_disconnect_rebuilds_a_fresh_tree() {
    let mut app = App::new();
    let mut bridge = EventBridge::new();
    let mut model = Model::new();
    let request = connect_request("opc.tcp://localhost:4840/", "None", "None").unwrap();
    let action = model.recv(&mut bridge, request).unwrap();
    perform(action, &mut bridge, &mut model);
    run_to_idle(&mut app, &mut bridge, &mut model);

    // expand A so the first tree has three nodes
    if let Some(request) = app.row_expanded(nid(10)) {
        if let Some(action) = model.recv(&mut bridge, request) {
            perform(action, &mut bridge, &mut model);
        }
    }
    run_to_idle(&mut app, &mut bridge, &mut model);
    assert_eq!(app.tree().node_count(), 3);

    model.recv(&mut bridge, ModelMessage::Disconnect);
    run_to_idle(&mut app, &mut bridge, &mut model);

    let request = connect_request("opc.tcp://localhost:4840/", "None", "None").unwrap();
    let action = model.recv(&mut bridge, request).unwrap();
    perform(action, &mut bridge, &mut model);
    run_to_idle(&mut app, &mut bridge, &mut model);

    // the tree is the fresh first population again, prior history gone
    assert_eq!(app.tree().node_count(), 2);
    assert_eq!(app.tree().root_child_count(), 2);
}

#[test]
fn connect_attempt_is_announced_on_the_console() {
    let mut app = App::new();
    let mut bridge = EventBridge::new();
    let mut model = Model::new();
    let request = connect_request("opc.tcp://localhost:4840/", "None", "None").unwrap();
    let action = model.recv(&mut bridge, request).unwrap();
    perform(action, &mut bridge, &mut model);
    run_to_idle(&mut app, &mut bridge, &mut model);

    assert_eq!(
        app.console_line(0),
        "Attempting to connect to endpoint opc.tcp://localhost:4840/"
    );
    assert_eq!(app.console_line(1), "Connection succeeded");
}

#[test]
fn network_browse_failure_emits_no_result_and_keeps_placeholder() {
    let mut app = App::new();
    let mut bridge = EventBridge::new();
    let mut model = Model::new();
    let request = connect_request("opc.tcp://localhost:4840/", "None", "None").unwrap();
    let action = model.recv(&mut bridge, request).unwrap();
    perform(action, &mut bridge, &mut model);
    run_to_idle(&mut app, &mut bridge, &mut model);

    // node 11 is known to the tree but the canned session fails to browse it
    if let Some(request) = app.row_expanded(nid(11)) {
        if let Some(action) = model.recv(&mut bridge, request) {
            perform(action, &mut bridge, &mut model);
        }
    }
    run_to_idle(&mut app, &mut bridge, &mut model);

    let tree = app.tree();
    let b = tree.root_child(1);
    assert!(tree.has_dummy_node(b));
    assert_eq!(tree.child_count(b), 0);
    let last = app.console_line(app.console_count() - 1);
    assert_eq!(last, "Fetch failed, no results");
}

#[test]
fn parse_security_policy_accepts_known_names() {
    assert_eq!(parse_security_policy("None"), Some(SecurityPolicy::NoSecurity));
    assert_eq!(parse_security_policy("Basic128Rsa15"), Some(SecurityPolicy::Basic128Rsa15));
    assert_eq!(parse_security_policy("Basic256"), Some(SecurityPolicy::Basic256));
    assert_eq!(parse_security_policy("Basic256Sha256"), Some(SecurityPolicy::Basic256Sha256));
    assert_eq!(parse_security_policy("Sign"), None);
    assert_eq!(parse_security_policy(""), None);
}

#[test]
fn parse_message_security_mode_accepts_known_names() {
    assert_eq!(parse_message_security_mode("None"), Some(MessageSecurityMode::NoSecurity));
    assert_eq!(parse_message_security_mode("Sign"), Some(MessageSecurityMode::Sign));
    assert_eq!(
        parse_message_security_mode("SignAndEncrypt"),
        Some(MessageSecurityMode::SignAndEncrypt)
    );
    assert_eq!(parse_message_security_mode("Basic256"), None);
}

#[test]
fn connect_request_carries_the_dialog_fields() {
    let request = connect_request("opc.tcp://host:4840/", "Basic256", "Sign");
    match request {
        Some(ModelMessage::Connect(url, policy, mode)) => {
            assert_eq!(url, "opc.tcp://host:4840/");
            assert_eq!(policy, SecurityPolicy::Basic256);
            assert_eq!(mode, MessageSecurityMode::Sign);
        }
        _ => panic!("expected a connect request"),
    }
}

#[test]
fn connect_request_rejects_unknown_names() {
    assert!(connect_request("opc.tcp://host:4840/", "Bogus", "Sign").is_none());
    assert!(connect_request("opc.tcp://host:4840/", "Basic256", "Bogus").is_none());
}
