use tcp_ws_bridge::channel::{client_channel, MessageQueue};
use tcp_ws_bridge::clients::{delivery_result, TcpClient, TcpClientManager};
use tcp_ws_bridge::dispatch::{process_ws_to_tcp_messages, DispatchStep};
use tcp_ws_bridge::frame::{send_response, TcpError};
use tcp_ws_bridge::json::{Json, JsonError};
use tcp_ws_bridge::message::{
    process_data, render_message, ControlMessage, MessageType, TcpClientInfo,
};
use tcp_ws_bridge::session::{enrich, open_session, SessionEvent, SessionStep};
use tcp_ws_bridge::websocket::{
    process_if_current, process_ws_messages, read_request, route_json, settle_payload, unwrap_payload, WsIncoming,
    WsIncomingStep, WsRequest, WsServer, WsServerAction, WsServerEvent,
};

fn json(text: &str) -> Json {
    Json::from_text(text).unwrap()
}

fn text(json: &Json) -> String {
    json.to_text().unwrap()
}

fn rendered(message: MessageType) -> String {
    text(&render_message(message))
}

fn client(id: &str, addr: &str) -> TcpClient {
    TcpClient {
        client_id: id.to_string(),
        addr: addr.to_string(),
        sender: client_channel().0,
        connected_at: "2024-01-02T03:04:05+00:00".to_string(),
    }
}

fn is_uuid_v4(id: &str) -> bool {
    let chars: Vec<char> = id.chars().collect();
    chars.len() == 36
        && chars[14] == '4'
        && "89ab".contains(chars[19])
        && chars.iter().enumerate().all(|(i, c)| match i {
            8 | 13 | 18 | 23 => *c == '-',
            _ => "0123456789abcdef".contains(*c),
        })
}

fn is_rfc3339(time: &str) -> bool {
    let chars: Vec<char> = time.chars().collect();
    let n = chars.len();
    n >= 25
        && chars[4] == '-'
        && chars[7] == '-'
        && chars[10] == 'T'
        && chars[13] == ':'
        && chars[16] == ':'
        && (chars[n - 6] == '+' || chars[n - 6] == '-')
        && chars[n - 3] == ':'
}

#[test]
fn messages_are_rendered() {
    assert_eq!(
        rendered(MessageType::TcpToWs(json(r#"{"x":1}"#))),
        r#"{"payload":{"x":1},"type":"data"}"#
    );
    assert_eq!(
        rendered(MessageType::Control(ControlMessage::TcpClientConnected {
            client_id: "c1".to_string(),
            addr: "127.0.0.1:5000".to_string(),
        })),
        r#"{"action":"client_connected","addr":"127.0.0.1:5000","client_id":"c1","type":"control"}"#
    );
    assert_eq!(
        rendered(MessageType::Control(ControlMessage::TcpClientDisconnected {
            client_id: "c1".to_string(),
        })),
        r#"{"action":"client_disconnected","client_id":"c1","type":"control"}"#
    );
    assert_eq!(
        rendered(MessageType::Control(ControlMessage::RequestClientList)),
        r#"{"action":"unknown","type":"control"}"#
    );
    assert_eq!(
        rendered(MessageType::WsToTcp { target_id: "c1".to_string(), data: Json::Null }),
        r#"{"type":"unknown"}"#
    );
}

#[test]
fn lists_of_clients_are_rendered() {
    let list = vec![
        TcpClientInfo {
            client_id: "b".to_string(),
            addr: "1.1.1.1:1".to_string(),
            connected_at: "t1".to_string(),
        },
        TcpClientInfo {
            client_id: "a".to_string(),
            addr: "2.2.2.2:2".to_string(),
            connected_at: "t2".to_string(),
        },
    ];
    assert_eq!(
        rendered(MessageType::Control(ControlMessage::ClientList(list))),
        concat_lines(&[
            r#"{"action":"client_list","clients":["#,
            r#"{"addr":"1.1.1.1:1","client_id":"b","connected_at":"t1"},"#,
            r#"{"addr":"2.2.2.2:2","client_id":"a","connected_at":"t2"}],"#,
            r#""type":"control"}"#,
        ])
    );
    assert_eq!(
        rendered(MessageType::Control(ControlMessage::ClientList(Vec::new()))),
        r#"{"action":"client_list","clients":[],"type":"control"}"#
    );
}

fn concat_lines(lines: &[&str]) -> String {
    lines.concat()
}

#[test]
fn data_is_acknowledged() {
    assert_eq!(
        text(&process_data(json("[1]"))),
        r#"{"message":"数据已接收","received_data":[1],"status":"success"}"#
    );
}

#[test]
fn a_queue_gives_out_what_was_put_in() {
    let queue = MessageQueue::new();
    assert_eq!(queue.tcp_to_ws_sender.capacity(), Some(100));
    assert_eq!(queue.tcp_to_ws_receiver.capacity(), Some(100));
    assert_eq!(queue.ws_to_tcp_sender.capacity(), Some(100));
    assert_eq!(queue.ws_to_tcp_receiver.capacity(), Some(100));
    queue.tcp_to_ws_sender.try_send(MessageType::TcpToWs(Json::Bool(true))).unwrap();
    assert!(queue.ws_to_tcp_receiver.try_recv().is_err());
    assert!(matches!(
        queue.tcp_to_ws_receiver.try_recv(),
        Ok(MessageType::TcpToWs(Json::Bool(true)))
    ));
    queue
        .ws_to_tcp_sender
        .try_send(MessageType::Control(ControlMessage::RequestClientList))
        .unwrap();
    assert!(queue.tcp_to_ws_receiver.try_recv().is_err());
    assert!(matches!(
        queue.ws_to_tcp_receiver.try_recv(),
        Ok(MessageType::Control(ControlMessage::RequestClientList))
    ));
}

#[test]
fn a_queue_is_full_at_its_capacity() {
    let queue = MessageQueue::new();
    for _ in 0..100 {
        queue.tcp_to_ws_sender.try_send(MessageType::TcpToWs(Json::Null)).unwrap();
    }
    assert!(queue.tcp_to_ws_sender.try_send(MessageType::TcpToWs(Json::Null)).is_err());
}

#[test]
fn the_queue_of_a_client_holds_its_capacity() {
    let (sender, mut receiver) = client_channel();
    assert_eq!(sender.max_capacity(), 32);
    for _ in 0..32 {
        sender.try_send(Json::Null).unwrap();
    }
    assert!(sender.try_send(Json::Null).is_err());
    assert!(matches!(receiver.try_recv(), Ok(Json::Null)));
}

#[test]
fn a_client_is_added_found_and_removed() {
    let mut manager = TcpClientManager::new();
    let (sender, mut receiver) = client_channel();
    let id = manager.add_client("127.0.0.1:4000".to_string(), sender);
    assert!(is_uuid_v4(&id));
    let list = manager.get_client_list();
    assert_eq!(list.len(), 1);
    assert_eq!(list[0].client_id, id);
    assert_eq!(list[0].addr, "127.0.0.1:4000");
    assert!(is_rfc3339(&list[0].connected_at));
    let delivery = manager.send_to_client(&id, json("[1]")).ok().unwrap();
    assert_eq!(delivery.client_id, id);
    delivery.sender.try_send(delivery.data).unwrap();
    assert_eq!(text(&receiver.try_recv().unwrap()), "[1]");
    assert!(manager.remove_client(&id));
    assert!(!manager.remove_client(&id));
    assert_eq!(
        manager.send_to_client(&id, Json::Null).err().unwrap(),
        format!("Client {} not found", id)
    );
    assert!(manager.get_client_list().is_empty());
}

#[test]
fn every_client_is_listed_once() {
    let mut manager = TcpClientManager::new();
    for id in ["a", "b", "c"] {
        manager.insert_client(client(id, id));
    }
    assert!(manager.remove_client("b"));
    manager.insert_client(client("d", "d"));
    let mut names: Vec<String> =
        manager.get_client_list().iter().map(|info| info.client_id.clone()).collect();
    names.sort();
    assert_eq!(names, vec!["a", "c", "d"]);
}

#[test]
fn a_client_of_the_same_name_is_replaced() {
    let mut manager = TcpClientManager::new();
    manager.insert_client(client("a", "old"));
    manager.insert_client(client("b", "other"));
    manager.insert_client(client("a", "new"));
    let list = manager.get_client_list();
    assert_eq!(list.len(), 2);
    assert_eq!(list.iter().find(|info| info.client_id == "a").unwrap().addr, "new");
    assert_eq!(list.iter().find(|info| info.client_id == "b").unwrap().addr, "other");
    assert!(manager.remove_client("a"));
    assert!(!manager.remove_client("a"));
}

#[test]
fn two_clients_get_names_of_their_own() {
    let mut manager = TcpClientManager::new();
    let a = manager.add_client("x".to_string(), client_channel().0);
    let b = manager.add_client("x".to_string(), client_channel().0);
    assert_ne!(a, b);
    assert_eq!(manager.get_client_list().len(), 2);
}

#[test]
fn a_failed_delivery_is_told() {
    assert_eq!(delivery_result("c1", None), Ok(()));
    assert_eq!(
        delivery_result("c1", Some("channel closed".to_string())),
        Err("Failed to send message to client c1: channel closed".to_string())
    );
}

#[test]
fn messages_from_the_websocket_are_dispatched() {
    let mut manager = TcpClientManager::new();
    manager.insert_client(client("c1", "addr"));
    let data = MessageType::WsToTcp { target_id: "c1".to_string(), data: json("7") };
    match process_ws_to_tcp_messages(&manager, Some(data)) {
        DispatchStep::Deliver(delivery) => {
            assert_eq!(delivery.client_id, "c1");
            assert_eq!(text(&delivery.data), "7");
        }
        _ => panic!(),
    }
    let lost = MessageType::WsToTcp { target_id: "c2".to_string(), data: json("7") };
    match process_ws_to_tcp_messages(&manager, Some(lost)) {
        DispatchStep::Undeliverable(text) => assert_eq!(text, "Client c2 not found"),
        _ => panic!(),
    }
    let request = MessageType::Control(ControlMessage::RequestClientList);
    match process_ws_to_tcp_messages(&manager, Some(request)) {
        DispatchStep::Reply(MessageType::Control(ControlMessage::ClientList(list))) => {
            assert_eq!(list.len(), 1);
            assert_eq!(list[0].client_id, "c1");
            assert_eq!(list[0].addr, "addr");
            assert_eq!(list[0].connected_at, "2024-01-02T03:04:05+00:00");
        }
        _ => panic!(),
    }
    for other in [
        MessageType::TcpToWs(Json::Null),
        MessageType::Control(ControlMessage::ClientList(Vec::new())),
        MessageType::Control(ControlMessage::TcpClientDisconnected { client_id: "c1".to_string() }),
    ] {
        assert!(matches!(process_ws_to_tcp_messages(&manager, Some(other)), DispatchStep::Skip));
    }
    assert!(matches!(process_ws_to_tcp_messages(&manager, None), DispatchStep::Stop));
}

#[test]
fn requests_are_understood() {
    match read_request(json(r#"{"type":"data","target_id":"c1","payload":{"k":1}}"#)) {
        WsRequest::Data { target_id, payload } => {
            assert_eq!(target_id, "c1");
            assert_eq!(text(&payload), r#"{"k":1}"#);
        }
        _ => panic!(),
    }
    assert!(matches!(
        read_request(json(r#"{"type":"control","action":"request_client_list"}"#)),
        WsRequest::ClientList
    ));
    for source in [
        r#"{"type":"data","target_id":"c1"}"#,
        r#"{"type":"data","payload":1}"#,
        r#"{"type":"data","target_id":5,"payload":1}"#,
        r#"{"type":"control"}"#,
        r#"{"type":"control","action":"other"}"#,
        r#"{"type":"other"}"#,
        r#"{"type":1}"#,
        r#"{}"#,
        r#"[]"#,
        r#""data""#,
    ] {
        assert!(matches!(read_request(json(source)), WsRequest::Nothing));
    }
}

#[test]
fn a_payload_may_be_null() {
    match route_json(json(r#"{"type":"data","target_id":"c1","payload":null}"#)) {
        Some(MessageType::WsToTcp { data, .. }) => assert!(matches!(data, Json::Null)),
        _ => panic!(),
    }
}

#[test]
fn a_text_payload_that_is_json_is_read() {
    assert_eq!(text(&unwrap_payload(json(r#""{\"a\": 1}""#))), r#"{"a":1}"#);
    assert_eq!(text(&unwrap_payload(json(r#""plain""#))), r#""plain""#);
    assert_eq!(text(&unwrap_payload(json(r#""\"twice\"""#))), r#""twice""#);
    assert_eq!(text(&unwrap_payload(json("[\"1\"]"))), "[\"1\"]");
    assert!(matches!(settle_payload(Json::Null, Ok(Json::Bool(true))), Json::Bool(true)));
    let error = JsonError { message: String::new() };
    assert!(matches!(settle_payload(Json::Null, Err(error)), Json::Null));
}

#[test]
fn what_comes_in_on_the_websocket_is_handled() {
    let text_in = |text: &str| process_ws_messages(WsIncoming::Text(text.to_string()));
    match text_in(r#"{"type":"data","target_id":"c1","payload":"[1, 2]"}"#) {
        WsIncomingStep::Enqueue(MessageType::WsToTcp { target_id, data }) => {
            assert_eq!(target_id, "c1");
            assert_eq!(text(&data), "[1,2]");
        }
        _ => panic!(),
    }
    assert!(matches!(
        text_in(r#"{"type":"control","action":"request_client_list"}"#),
        WsIncomingStep::Enqueue(MessageType::Control(ControlMessage::RequestClientList))
    ));
    assert!(matches!(text_in(r#"{"type":"ping"}"#), WsIncomingStep::Skip));
    match text_in("hello") {
        WsIncomingStep::Invalid(error) => {
            assert_eq!(error.message, "expected value at line 1 column 1")
        }
        _ => panic!(),
    }
    assert!(matches!(process_ws_messages(WsIncoming::Other), WsIncomingStep::Skip));
    assert!(matches!(process_ws_messages(WsIncoming::Failed), WsIncomingStep::Stop));
    assert!(matches!(process_ws_messages(WsIncoming::Ended), WsIncomingStep::Stop));
}

#[test]
fn nothing_that_is_sent_is_a_request() {
    for message in [
        MessageType::TcpToWs(json(r#"{"type":"data","target_id":"c1","payload":1}"#)),
        MessageType::WsToTcp { target_id: "c1".to_string(), data: Json::Null },
        MessageType::Control(ControlMessage::RequestClientList),
        MessageType::Control(ControlMessage::ClientList(Vec::new())),
        MessageType::Control(ControlMessage::TcpClientConnected {
            client_id: "c1".to_string(),
            addr: "a".to_string(),
        }),
        MessageType::Control(ControlMessage::TcpClientDisconnected { client_id: "c1".to_string() }),
    ] {
        assert!(route_json(render_message(message)).is_none());
    }
}

#[test]
fn the_websocket_server_keeps_one_connection() {
    let mut server = WsServer::new();
    assert!(!server.connected);
    assert!(matches!(
        server.run_websocket_server(WsServerEvent::Accepted),
        WsServerAction::Handshake { close_old: false }
    ));
    assert!(matches!(
        server.run_websocket_server(WsServerEvent::HandshakeDone),
        WsServerAction::Install {
            request: MessageType::Control(ControlMessage::RequestClientList),
            connection: 1,
        }
    ));
    assert!(server.connected);
    assert!(matches!(
        server.run_websocket_server(WsServerEvent::AcceptFailed),
        WsServerAction::Nothing
    ));
    assert!(server.connected);
    assert!(matches!(
        server.run_websocket_server(WsServerEvent::Accepted),
        WsServerAction::Handshake { close_old: true }
    ));
    assert!(!server.connected);
    assert!(matches!(
        server.run_websocket_server(WsServerEvent::HandshakeFailed),
        WsServerAction::Nothing
    ));
    assert!(!server.connected);
}

#[test]
fn nothing_comes_through_a_replaced_connection() {
    let request = || {
        let source = r#"{"type":"data","target_id":"c1","payload":1}"#;
        WsIncoming::Text(source.to_string())
    };
    let mut server = WsServer::new();
    let connect = |server: &mut WsServer| {
        server.run_websocket_server(WsServerEvent::Accepted);
        match server.run_websocket_server(WsServerEvent::HandshakeDone) {
            WsServerAction::Install { connection, .. } => connection,
            _ => panic!(),
        }
    };
    let first = connect(&mut server);
    assert!(matches!(server.receive(first, request()), WsIncomingStep::Enqueue(_)));
    let second = connect(&mut server);
    assert_ne!(first, second);
    assert!(matches!(server.receive(first, request()), WsIncomingStep::Stop));
    assert!(matches!(server.receive(first, WsIncoming::Other), WsIncomingStep::Stop));
    assert!(matches!(server.receive(second, request()), WsIncomingStep::Enqueue(_)));
    server.run_websocket_server(WsServerEvent::SendFailed);
    assert!(matches!(server.receive(second, request()), WsIncomingStep::Enqueue(_)));
    server.run_websocket_server(WsServerEvent::Accepted);
    server.run_websocket_server(WsServerEvent::HandshakeFailed);
    assert!(matches!(server.receive(second, request()), WsIncomingStep::Stop));
    assert!(matches!(process_if_current(false, request()), WsIncomingStep::Stop));
    assert!(matches!(process_if_current(true, request()), WsIncomingStep::Enqueue(_)));
}

#[test]
fn connection_numbers_go_round() {
    let mut server = WsServer { connected: false, connection: u64::MAX };
    server.run_websocket_server(WsServerEvent::Accepted);
    assert_eq!(server.connection, 0);
}

#[test]
fn one_request_goes_out_for_each_handshake() {
    let mut server = WsServer::new();
    let mut requests = 0;
    for event in [
        WsServerEvent::Accepted,
        WsServerEvent::HandshakeDone,
        WsServerEvent::Accepted,
        WsServerEvent::HandshakeFailed,
        WsServerEvent::AcceptFailed,
        WsServerEvent::Accepted,
        WsServerEvent::HandshakeDone,
        WsServerEvent::SendFailed,
    ] {
        if let WsServerAction::Install { request, .. } = server.run_websocket_server(event) {
            assert!(matches!(
                request,
                MessageType::Control(ControlMessage::RequestClientList)
            ));
            requests += 1;
        }
    }
    assert_eq!(requests, 2);
}

#[test]
fn the_websocket_gets_what_was_queued_while_it_was_there() {
    let mut server = WsServer::new();
    let queued = |n: &str| WsServerEvent::Queued(MessageType::TcpToWs(json(n)));
    let mut sent = Vec::new();
    for event in [
        queued("1"),
        WsServerEvent::Accepted,
        WsServerEvent::HandshakeDone,
        queued("2"),
        WsServerEvent::Sent,
        queued("3"),
        WsServerEvent::SendFailed,
        queued("4"),
    ] {
        if let WsServerAction::Send(text) = server.run_websocket_server(event) {
            sent.push(text);
        }
    }
    assert_eq!(sent, vec![r#"{"payload":2,"type":"data"}"#, r#"{"payload":3,"type":"data"}"#]);
}

#[test]
fn a_text_on_the_websocket_reads_back_as_its_message() {
    let mut server = WsServer::new();
    server.run_websocket_server(WsServerEvent::Accepted);
    server.run_websocket_server(WsServerEvent::HandshakeDone);
    let message = || MessageType::TcpToWs(json(r#"{"a":["x",-7,null],"b":"\"\n"}"#));
    assert!(render_message(message()).reads_back());
    match server.run_websocket_server(WsServerEvent::Queued(message())) {
        WsServerAction::Send(sent) => {
            assert_eq!(text(&json(&sent)), rendered(message()));
            assert_eq!(json(&sent).member_text("type"), Some("data"));
        }
        _ => panic!(),
    }
}

#[test]
fn a_value_and_its_text_are_passed_on_alike() {
    for value in [r#"{"a":[1,true,null]}"#, "[]", "-7", "null"] {
        let queued = |payload: Json| {
            let request = json(r#"{"type":"data","target_id":"c1"}"#).set_member("payload", payload);
            assert!(request.reads_back());
            match process_ws_messages(WsIncoming::Text(text(&request))) {
                WsIncomingStep::Enqueue(MessageType::WsToTcp { target_id, data }) => {
                    assert_eq!(target_id, "c1");
                    text(&data)
                }
                _ => panic!(),
            }
        };
        assert_eq!(queued(json(value)), value);
        assert_eq!(queued(Json::Text(value.to_string())), value);
        assert_eq!(
            send_response(&Json::Text(value.to_string())).unwrap(),
            send_response(&json(value)).unwrap()
        );
    }
}

#[test]
fn the_websocket_server_sends_while_connected() {
    let mut server = WsServer::new();
    let message = || WsServerEvent::Queued(MessageType::TcpToWs(Json::Bool(true)));
    assert!(matches!(server.run_websocket_server(message()), WsServerAction::Drop));
    server.run_websocket_server(WsServerEvent::Accepted);
    server.run_websocket_server(WsServerEvent::HandshakeDone);
    match server.run_websocket_server(message()) {
        WsServerAction::Send(text) => assert_eq!(text, r#"{"payload":true,"type":"data"}"#),
        _ => panic!(),
    }
    assert!(matches!(
        server.run_websocket_server(WsServerEvent::Sent),
        WsServerAction::Nothing
    ));
    assert!(server.connected);
    assert!(matches!(
        server.run_websocket_server(WsServerEvent::QueueClosed),
        WsServerAction::Nothing
    ));
    assert!(server.connected);
    assert!(matches!(
        server.run_websocket_server(WsServerEvent::SendFailed),
        WsServerAction::Release
    ));
    assert!(!server.connected);
    assert!(matches!(server.run_websocket_server(message()), WsServerAction::Drop));
}

#[test]
fn objects_say_where_they_came_from() {
    assert_eq!(
        text(&enrich(json(r#"{"x":1,"client_id":"forged"}"#), "c1", "1.2.3.4:5", "now")),
        r#"{"client_id":"c1","source_addr":"1.2.3.4:5","timestamp":"now","x":1}"#
    );
    assert_eq!(text(&enrich(json("[1]"), "c1", "1.2.3.4:5", "now")), "[1]");
    assert_eq!(text(&enrich(json("\"s\""), "c1", "1.2.3.4:5", "now")), "\"s\"");
}

#[test]
fn a_session_runs_from_arrival_to_departure() {
    let mut manager = TcpClientManager::new();
    let (mut session, mut receiver, arrival) =
        open_session(&mut manager, "10.0.0.1:77".to_string());
    let id = session.client_id.clone();
    assert!(is_uuid_v4(&id));
    match arrival {
        MessageType::Control(ControlMessage::TcpClientConnected { client_id, addr }) => {
            assert_eq!(client_id, id);
            assert_eq!(addr, "10.0.0.1:77");
        }
        _ => panic!(),
    }

    match session.handle_tcp_client(&mut manager, SessionEvent::Received(json(r#"{"v":1}"#))) {
        SessionStep::Forward(MessageType::TcpToWs(data)) => {
            assert_eq!(data.member_text("client_id"), Some(id.as_str()));
            assert_eq!(data.member_text("source_addr"), Some("10.0.0.1:77"));
            assert!(is_rfc3339(data.member_text("timestamp").unwrap()));
            assert_eq!(text(data.member("v").unwrap()), "1");
        }
        _ => panic!(),
    }

    let delivery = manager.send_to_client(&id, json(r#"{"to":"you"}"#)).ok().unwrap();
    delivery.sender.try_send(delivery.data).unwrap();
    let data = receiver.try_recv().unwrap();
    let expected = send_response(&data).unwrap();
    match session.handle_tcp_client(&mut manager, SessionEvent::ForClient(data)) {
        SessionStep::Write(frame) => {
            assert_eq!(frame, expected);
            assert_eq!(frame, b"\x00\x00\x00\x10{\"to\":\"you\"}".to_vec());
        }
        _ => panic!(),
    }
    let step = session.handle_tcp_client(&mut manager, SessionEvent::Written);
    assert!(matches!(step, SessionStep::Wait));
    assert!(session.open);

    match session.handle_tcp_client(&mut manager, SessionEvent::ReadFailed(TcpError::TooLarge)) {
        SessionStep::Finish {
            result,
            notification: MessageType::Control(ControlMessage::TcpClientDisconnected { client_id }),
        } => {
            assert_eq!(result, Err(TcpError::TooLarge));
            assert_eq!(client_id, id);
        }
        _ => panic!(),
    }
    assert!(!session.open);
    assert!(manager.get_client_list().is_empty());
}

#[test]
fn a_session_ends_when_its_queue_closes_or_writing_fails() {
    let mut manager = TcpClientManager::new();
    let (mut session, _receiver, _) = open_session(&mut manager, "a".to_string());
    match session.handle_tcp_client(&mut manager, SessionEvent::QueueClosed) {
        SessionStep::Finish { result, .. } => assert_eq!(result, Ok(())),
        _ => panic!(),
    }
    let (mut session, _receiver, _) = open_session(&mut manager, "a".to_string());
    let failure = SessionEvent::WriteFailed("broken pipe".to_string());
    match session.handle_tcp_client(&mut manager, failure) {
        SessionStep::Finish { result, .. } => {
            assert_eq!(result, Err(TcpError::Io("broken pipe".to_string())))
        }
        _ => panic!(),
    }
    assert!(manager.get_client_list().is_empty());
}

#[test]
fn a_payload_goes_over_the_wire() {
    let sent = |payload: &str| {
        let source = format!(r#"{{"type":"data","target_id":"c1","payload":{}}}"#, payload);
        match route_json(json(&source)) {
            Some(MessageType::WsToTcp { data, .. }) => send_response(&data).unwrap()[4..].to_vec(),
            _ => panic!(),
        }
    };
    assert_eq!(sent(r#""hello there""#), b"hello there".to_vec());
    assert_eq!(sent(r#""{\"a\": [1, 2]}""#), b"{\"a\":[1,2]}".to_vec());
    assert_eq!(sent(r#""\"quoted\"""#), b"quoted".to_vec());
    assert_eq!(sent(r#"{"b":2,"a":1}"#), b"{\"a\":1,\"b\":2}".to_vec());
}

#[test]
fn a_request_for_the_clients_is_answered_in_full() {
    let mut manager = TcpClientManager::new();
    manager.insert_client(client("c1", "1.1.1.1:1"));
    let request = match process_ws_messages(WsIncoming::Text(
        r#"{"type":"control","action":"request_client_list"}"#.to_string(),
    )) {
        WsIncomingStep::Enqueue(message) => message,
        _ => panic!(),
    };
    let reply = match process_ws_to_tcp_messages(&manager, Some(request)) {
        DispatchStep::Reply(reply) => reply,
        _ => panic!(),
    };
    assert_eq!(
        rendered(reply),
        concat_lines(&[
            r#"{"action":"client_list","clients":["#,
            r#"{"addr":"1.1.1.1:1","client_id":"c1","connected_at":"2024-01-02T03:04:05+00:00"}],"#,
            r#""type":"control"}"#,
        ])
    );
}

#[test]
fn each_client_gets_what_is_meant_for_it_in_order() {
    let mut manager = TcpClientManager::new();
    let (mut first, mut first_queue, _) = open_session(&mut manager, "a".to_string());
    let (second, mut second_queue, _) = open_session(&mut manager, "b".to_string());
    for (id, data) in [
        (&first.client_id, "1"),
        (&second.client_id, "[2]"),
        (&first.client_id, "\"three\""),
        (&first.client_id, "{}"),
    ] {
        let message = MessageType::WsToTcp { target_id: id.clone(), data: json(data) };
        match process_ws_to_tcp_messages(&manager, Some(message)) {
            DispatchStep::Deliver(delivery) => delivery.sender.try_send(delivery.data).unwrap(),
            _ => panic!(),
        }
    }
    let mut written = Vec::new();
    while let Ok(data) = first_queue.try_recv() {
        match first.handle_tcp_client(&mut manager, SessionEvent::ForClient(data)) {
            SessionStep::Write(mut frame) => written.append(&mut frame),
            _ => panic!(),
        }
        first.handle_tcp_client(&mut manager, SessionEvent::Written);
    }
    assert_eq!(written, b"\0\0\0\x051\0\0\0\x09three\0\0\0\x06{}".to_vec());
    assert_eq!(text(&second_queue.try_recv().unwrap()), "[2]");
    assert!(second_queue.try_recv().is_err());
}

#[test]
fn messages_tell_who_is_connected() {
    let mut manager = TcpClientManager::new();
    let mut there: Vec<String> = Vec::new();
    let mut sessions = Vec::new();
    for addr in ["a", "b", "c"] {
        let (session, queue, arrival) = open_session(&mut manager, addr.to_string());
        match arrival {
            MessageType::Control(ControlMessage::TcpClientConnected { client_id, .. }) => {
                there.push(client_id)
            }
            _ => panic!(),
        }
        sessions.push((session, queue));
    }
    for event in [SessionEvent::Received(json("1")), SessionEvent::QueueClosed] {
        match sessions[1].0.handle_tcp_client(&mut manager, event) {
            SessionStep::Finish {
                notification:
                    MessageType::Control(ControlMessage::TcpClientDisconnected { client_id }),
                ..
            } => there.retain(|id| *id != client_id),
            SessionStep::Forward(_) => assert_eq!(there.len(), 3),
            _ => panic!(),
        }
    }
    let mut listed: Vec<String> =
        manager.get_client_list().iter().map(|info| info.client_id.clone()).collect();
    listed.sort();
    there.sort();
    assert_eq!(there.len(), 2);
    assert_eq!(listed, there);
}

#[test]
fn clients_come_and_go_without_touching_each_other() {
    let mut manager = TcpClientManager::new();
    let (first, mut first_queue, _) = open_session(&mut manager, "a".to_string());
    let (mut second, mut second_queue, _) = open_session(&mut manager, "b".to_string());
    for (id, data) in [(&first.client_id, "1"), (&second.client_id, "2")] {
        let delivery = manager.send_to_client(id, json(data)).ok().unwrap();
        delivery.sender.try_send(delivery.data).unwrap();
    }
    assert_eq!(text(&first_queue.try_recv().unwrap()), "1");
    assert!(first_queue.try_recv().is_err());
    assert_eq!(text(&second_queue.try_recv().unwrap()), "2");
    second.handle_tcp_client(&mut manager, SessionEvent::QueueClosed);
    assert!(manager.send_to_client(&second.client_id, Json::Null).is_err());
    assert!(manager.send_to_client(&first.client_id, Json::Null).is_ok());
}
