use networkinator::client::wasm_websocket::{
    reader_step, sender_step, PortFlags, ReaderAction, SenderAction, StreamEvent,
    WasmWebSocketPortState,
};

#[test]
fn new_port_is_idle() {
    let port = WasmWebSocketPortState::new();
    let f = port.flags();
    assert_eq!(
        f,
        PortFlags {
            started: false,
            starting: false,
            first_started: false,
            main_port: false,
            authenticated: false,
            listening_server: false,
            sending_server_message: false
        }
    );
}

#[test]
fn start_twice_opens_once() {
    let mut port = WasmWebSocketPortState::new();
    assert!(port.start());
    assert!(port.flags().starting);
    assert!(!port.start());
}

#[test]
fn connection_cycle() {
    let mut port = WasmWebSocketPortState::new();
    assert!(port.start());
    assert!(port.needs_socket_poll());
    assert_eq!(port.started(false), (false, false));
    assert_eq!(port.started(true), (true, true));
    assert!(!port.needs_socket_poll());
    assert_eq!(port.started(false), (true, false));
    assert!(port.flags().first_started && !port.flags().starting);
    assert!(port.listen_to_server(true));
    assert!(!port.listen_to_server(true));
    assert!(port.send_message_for_server(true));
    assert!(!port.send_message_for_server(true));
    port.authenticate_port();
    assert!(port.is_port_authenticated());
    assert_eq!(port.disconnected(None), (false, true));
    assert_eq!(port.disconnected(Some(true)), (true, true));
    let f = port.flags();
    assert!(!f.started && !f.starting && !f.authenticated);
    assert!(!f.listening_server && !f.sending_server_message && f.first_started);
    assert!(port.start());
}

#[test]
fn tasks_wait_for_socket_halves() {
    let mut port = WasmWebSocketPortState::new();
    assert!(!port.listen_to_server(false));
    assert!(!port.send_message_for_server(false));
    assert!(!port.flags().listening_server);
}

#[test]
fn main_port_flag() {
    let mut port = WasmWebSocketPortState::new();
    assert!(!port.is_main_port());
    assert!(port.as_main_port());
    assert!(port.is_main_port());
}

#[test]
fn reader_and_sender_steps() {
    assert_eq!(reader_step(StreamEvent::Bytes), ReaderAction::Forward);
    assert_eq!(reader_step(StreamEvent::Text), ReaderAction::WarnText);
    assert_eq!(reader_step(StreamEvent::Failed), ReaderAction::ReportDownAndStop);
    assert_eq!(reader_step(StreamEvent::Ended), ReaderAction::ReportDownAndStop);
    assert_eq!(sender_step(true, true), SenderAction::Stop);
    assert_eq!(sender_step(false, true), SenderAction::Send);
    assert_eq!(sender_step(false, false), SenderAction::Wait);
}

#[test]
fn first_connection_is_remembered() {
    let mut port = WasmWebSocketPortState::new();
    port.start();
    port.started(true);
    assert_eq!(port.disconnected(Some(false)), (true, false));
    assert!(port.flags().first_started);
    assert_eq!(port.disconnected(None), (false, true));
    port.start();
    assert!(port.flags().first_started && port.flags().starting && !port.flags().started);
}
