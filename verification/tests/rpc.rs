use serde_json::Value;
use signal::bridge::{frame_line, is_blank, react, QUEUE_CAPACITY};
use signal::commands::{Config, Step};
use signal::rpc::{send_message, RpcRequest, RpcResponse, SendParams};

fn decoded(doc: &str) -> Value {
    serde_json::from_str(doc).unwrap()
}

fn received(params: &str) -> RpcResponse {
    RpcResponse {
        jsonrpc: "2.0".to_string(),
        method: Some("receive".to_string()),
        params: Some(decoded(params)),
        result: None,
        id: None,
    }
}

fn config() -> Config {
    Config { api_url: Some("http://s/".to_string()), params: Some("&p".to_string()) }
}

#[test]
fn send_document_has_the_wire_shape() {
    assert_eq!(
        send_message("+1555", "Pong! 🏓"),
        "{\"jsonrpc\":\"2.0\",\"method\":\"send\",\"params\":{\"recipient\":[\"+1555\"],\"message\":\"Pong! 🏓\"},\"id\":1}"
    );
}

#[test]
fn send_document_decodes_to_recipient_and_message() {
    let texts = [
        "",
        "plain",
        "two\nlines",
        "quote \" and backslash \\ and slash /",
        "\u{0}\u{1}\u{7}\u{8}\u{9}\u{a}\u{b}\u{c}\u{d}\u{e}\u{1f} \u{7f}\u{80}\u{9f}",
        "📊 **Torrent Status:**\n\n✅ **100%** - Film (Idle)\n",
        "\\u0041 \\n \\\"",
        "\u{2028}\u{2029}\u{feff}\u{10ffff}",
    ];
    for recipient in texts {
        for message in texts {
            let doc = send_message(recipient, message);
            let value = decoded(&doc);
            assert_eq!(value["params"]["recipient"], Value::Array(vec![Value::String(recipient.to_string())]));
            assert_eq!(value["params"]["message"], Value::String(message.to_string()));
            assert_eq!(value["jsonrpc"], Value::String("2.0".to_string()));
            assert_eq!(value["method"], Value::String("send".to_string()));
            assert_eq!(value["id"].as_i64(), Some(1));
            assert_eq!(value["params"].as_object().unwrap().len(), 2);
            assert_eq!(value.as_object().unwrap().len(), 4);
        }
    }
}

#[test]
fn send_document_is_one_line() {
    let doc = send_message("+1\n555", "a\nb\r\nc\u{85}");
    assert!(!doc.contains('\n'));
    assert!(!doc.contains('\r'));
    assert_eq!(
        doc,
        "{\"jsonrpc\":\"2.0\",\"method\":\"send\",\"params\":{\"recipient\":[\"+1\\n555\"],\"message\":\"a\\nb\\r\\nc\u{85}\"},\"id\":1}"
    );
}

#[test]
fn control_characters_are_escaped_in_lower_case() {
    let doc = send_message("r", "\u{1b}\u{1f}\u{8}\u{c}\u{b}\t\"\\");
    assert_eq!(
        doc,
        "{\"jsonrpc\":\"2.0\",\"method\":\"send\",\"params\":{\"recipient\":[\"r\"],\"message\":\"\\u001b\\u001f\\b\\f\\u000b\\t\\\"\\\\\"},\"id\":1}"
    );
}

#[test]
fn request_is_written_member_by_member() {
    let request = RpcRequest {
        jsonrpc: "2.0",
        method: "send",
        params: SendParams {
            recipient: vec!["+1".to_string(), "+2".to_string(), "a\"b".to_string()],
            message: "hi".to_string(),
        },
        id: -42,
    };
    assert_eq!(
        request.to_json(),
        "{\"jsonrpc\":\"2.0\",\"method\":\"send\",\"params\":{\"recipient\":[\"+1\",\"+2\",\"a\\\"b\"],\"message\":\"hi\"},\"id\":-42}"
    );
    let none = RpcRequest {
        jsonrpc: "1.0",
        method: "x",
        params: SendParams { recipient: Vec::new(), message: String::new() },
        id: i64::MIN,
    };
    assert_eq!(
        none.to_json(),
        "{\"jsonrpc\":\"1.0\",\"method\":\"x\",\"params\":{\"recipient\":[],\"message\":\"\"},\"id\":-9223372036854775808}"
    );
    let most = RpcRequest { id: i64::MAX, ..none };
    assert!(most.to_json().ends_with(",\"id\":9223372036854775807}"));
    let zero = RpcRequest { id: 0, ..most };
    assert!(zero.to_json().ends_with(",\"id\":0}"));
}

#[test]
fn send_request_names_one_recipient() {
    let request = RpcRequest::send("+1555", "hello");
    assert_eq!(request.jsonrpc, "2.0");
    assert_eq!(request.method, "send");
    assert_eq!(request.params.recipient, vec!["+1555".to_string()]);
    assert_eq!(request.params.message, "hello");
    assert_eq!(request.id, 1);
}

#[test]
fn only_receive_with_parameters_is_acted_upon() {
    let mut response = received("{\"account\":\"+1\"}");
    assert_eq!(response.received(), Some(&decoded("{\"account\":\"+1\"}")));
    response.method = Some("Receive".to_string());
    assert_eq!(response.received(), None);
    response.method = Some("receive ".to_string());
    assert_eq!(response.received(), None);
    response.method = Some("send".to_string());
    assert_eq!(response.received(), None);
    response.method = None;
    assert_eq!(response.received(), None);
    response.method = Some("receive".to_string());
    response.params = None;
    assert_eq!(response.received(), None);
    response.result = Some(decoded("{\"envelope\":{}}"));
    assert_eq!(response.received(), None);
}

#[test]
fn lines_of_white_space_are_skipped() {
    for line in ["", " ", "\t", "\r", " \u{a0}\u{3000}\u{2028} ", "\u{85}"] {
        assert!(is_blank(line), "{:?}", line);
    }
    for line in ["{}", " x ", "\u{200b}", "\u{0}", "null"] {
        assert!(!is_blank(line), "{:?}", line);
    }
}

#[test]
fn documents_go_out_as_lines() {
    assert_eq!(frame_line("{}".to_string()), "{}\n");
    assert_eq!(frame_line(String::new()), "\n");
    assert_eq!(frame_line(send_message("a", "b\n")).matches('\n').count(), 1);
}

#[test]
fn full_queue_takes_no_more_until_one_is_taken() {
    assert_eq!(QUEUE_CAPACITY, 32);
    let (tx, mut rx) = tokio::sync::mpsc::channel::<String>(QUEUE_CAPACITY);
    for i in 0..32 {
        assert!(tx.try_send(send_message("+1", &i.to_string())).is_ok());
    }
    let late = send_message("+1", "32");
    match tx.try_send(late.clone()) {
        Err(tokio::sync::mpsc::error::TrySendError::Full(doc)) => assert_eq!(doc, late),
        _ => panic!("the queue took a document beyond its capacity"),
    }
    assert_eq!(rx.try_recv().unwrap(), send_message("+1", "0"));
    assert!(tx.try_send(late).is_ok());
    for i in 1..33 {
        assert_eq!(rx.try_recv().unwrap(), send_message("+1", &i.to_string()));
    }
    assert!(rx.try_recv().is_err());
}

#[test]
fn sender_waits_while_the_queue_is_full() {
    let runtime = tokio::runtime::Builder::new_current_thread().build().unwrap();
    runtime.block_on(async {
        let (tx, mut rx) = tokio::sync::mpsc::channel::<String>(QUEUE_CAPACITY);
        for i in 0..QUEUE_CAPACITY {
            tx.send(send_message("+1", &i.to_string())).await.unwrap();
        }
        let sent = std::sync::Arc::new(std::sync::atomic::AtomicBool::new(false));
        let flag = sent.clone();
        let late = tokio::spawn(async move {
            tx.send(send_message("+1", "late")).await.unwrap();
            flag.store(true, std::sync::atomic::Ordering::SeqCst);
        });
        for _ in 0..100 {
            tokio::task::yield_now().await;
        }
        assert!(!sent.load(std::sync::atomic::Ordering::SeqCst));
        assert_eq!(rx.recv().await.unwrap(), send_message("+1", "0"));
        late.await.unwrap();
        assert!(sent.load(std::sync::atomic::Ordering::SeqCst));
        for i in 1..QUEUE_CAPACITY {
            assert_eq!(rx.recv().await.unwrap(), send_message("+1", &i.to_string()));
        }
        assert_eq!(rx.recv().await.unwrap(), send_message("+1", "late"));
        assert_eq!(rx.recv().await, None);
    });
}

#[test]
fn received_message_leads_to_its_step() {
    let response = received(
        "{\"envelope\":{\"source\":\"+1555\",\"dataMessage\":{\"message\":\" ping \"}},\"account\":\"+1999\"}",
    );
    match react(&config(), &response) {
        Step::Reply { recipient, message } => {
            assert_eq!(recipient, "+1555");
            assert_eq!(message, "Pong! 🏓");
        },
        _ => panic!("no reply"),
    }
    let status = received(
        "{\"envelope\":{\"source\":\"+1555\",\"dataMessage\":{\"message\":\"status\"}},\"account\":\"+1999\"}",
    );
    assert!(matches!(react(&config(), &status), Step::Reply { .. }));
    let own = received(
        "{\"envelope\":{\"source\":\"+1999\",\"syncMessage\":{\"sentMessage\":{\"destination\":\"+1999\",\"message\":\"status\"}}},\"account\":\"+1999\"}",
    );
    assert!(matches!(react(&config(), &own), Step::Status { .. }));
}

#[test]
fn other_documents_lead_to_nothing() {
    let mut response = received(
        "{\"envelope\":{\"source\":\"+1555\",\"dataMessage\":{\"message\":\"ping\"}},\"account\":\"+1999\"}",
    );
    response.method = Some("other".to_string());
    assert!(matches!(react(&config(), &response), Step::Done));
    response.method = None;
    assert!(matches!(react(&config(), &response), Step::Done));
    response.method = Some("receive".to_string());
    response.params = None;
    assert!(matches!(react(&config(), &response), Step::Done));
    response.params = Some(Value::Null);
    assert!(matches!(react(&config(), &response), Step::Done));
    let chatter = received(
        "{\"envelope\":{\"source\":\"+1555\",\"dataMessage\":{\"message\":\"hello there\"}},\"account\":\"+1999\"}",
    );
    assert!(matches!(react(&config(), &chatter), Step::Done));
}
