use serde_json::Value;
use signal::router::{handle_incoming_message, Request};

fn routed(params: &str) -> Option<(String, String, String)> {
    let value: Value = serde_json::from_str(params).unwrap();
    handle_incoming_message(Some(&value)).map(|r: Request| (r.owner, r.requestor, r.text))
}

fn request(owner: &str, requestor: &str, text: &str) -> Option<(String, String, String)> {
    Some((owner.to_string(), requestor.to_string(), text.to_string()))
}

#[test]
fn data_message_is_a_request_of_its_source() {
    assert_eq!(
        routed("{\"envelope\":{\"source\":\"+1555\",\"dataMessage\":{\"message\":\"status\"}},\"account\":\"+1999\"}"),
        request("+1999", "+1555", "status")
    );
    assert_eq!(
        routed("{\"account\":\"+1999\",\"envelope\":{\"dataMessage\":{\"timestamp\":1,\"message\":\" Links for x \"},\"source\":\"+1555\",\"sourceDevice\":2}}"),
        request("+1999", "+1555", " Links for x ")
    );
}

#[test]
fn note_to_self_is_a_request_of_the_account() {
    assert_eq!(
        routed("{\"envelop\":1,\"envelope\":{\"source\":\"+1555\",\"syncMessage\":{\"sentMessage\":{\"destination\":\"+1999\",\"message\":\"status\"}}},\"account\":\"+1999\"}"),
        request("+1999", "+1999", "status")
    );
}

#[test]
fn note_to_self_shadows_the_data_message() {
    assert_eq!(
        routed("{\"envelope\":{\"source\":\"+1555\",\"syncMessage\":{\"sentMessage\":{\"destination\":\"+1999\",\"message\":\"ping\"}},\"dataMessage\":{\"message\":\"status\"}},\"account\":\"+1999\"}"),
        request("+1999", "+1999", "ping")
    );
}

#[test]
fn sync_message_to_another_is_ignored() {
    let to_other = "{\"envelope\":{\"source\":\"+1555\",\"syncMessage\":{\"sentMessage\":{\"destination\":\"+1777\",\"message\":\"ping\"}},\"dataMessage\":{\"message\":\"status\"}},\"account\":\"+1999\"}";
    assert_eq!(routed(to_other), None);
    let no_text = "{\"envelope\":{\"source\":\"+1555\",\"syncMessage\":{\"sentMessage\":{\"destination\":\"+1999\",\"message\":null}},\"dataMessage\":{\"message\":\"status\"}},\"account\":\"+1999\"}";
    assert_eq!(routed(no_text), None);
}

#[test]
fn sync_message_without_a_sent_message_decides_nothing() {
    let no_sent = "{\"envelope\":{\"source\":\"+1555\",\"syncMessage\":{\"readMessages\":[]},\"dataMessage\":{\"message\":\"status\"}},\"account\":\"+1999\"}";
    assert_eq!(routed(no_sent), request("+1999", "+1555", "status"));
    let null_sync = "{\"envelope\":{\"source\":\"+1555\",\"syncMessage\":null,\"dataMessage\":{\"message\":\"status\"}},\"account\":\"+1999\"}";
    assert_eq!(routed(null_sync), request("+1999", "+1555", "status"));
    let alone = "{\"envelope\":{\"source\":\"+1555\",\"syncMessage\":{\"readMessages\":[]}},\"account\":\"+1999\"}";
    assert_eq!(routed(alone), None);
    let null_sent = "{\"envelope\":{\"source\":\"+1555\",\"syncMessage\":{\"sentMessage\":null},\"dataMessage\":{\"message\":\"status\"}},\"account\":\"+1999\"}";
    assert_eq!(routed(null_sent), None);
}

#[test]
fn missing_identities_have_their_defaults() {
    assert_eq!(
        routed("{\"envelope\":{\"dataMessage\":{\"message\":\"ping\"}}}"),
        request("", "Unknown", "ping")
    );
    assert_eq!(
        routed("{\"envelope\":{\"source\":7,\"dataMessage\":{\"message\":\"ping\"}},\"account\":[\"+1999\"]}"),
        request("", "Unknown", "ping")
    );
    assert_eq!(
        routed("{\"envelope\":{\"source\":null,\"dataMessage\":{\"message\":\"ping\"}},\"account\":null}"),
        request("", "Unknown", "ping")
    );
    assert_eq!(
        routed("{\"envelope\":{\"syncMessage\":{\"sentMessage\":{\"message\":\"ping\"}}}}"),
        request("", "", "ping")
    );
    assert_eq!(
        routed("{\"envelope\":{\"syncMessage\":{\"sentMessage\":{\"message\":\"ping\"}}},\"account\":\"+1999\"}"),
        None
    );
    assert_eq!(
        routed("{\"envelope\":{\"syncMessage\":{\"sentMessage\":{\"destination\":\"\",\"message\":\"ping\"}}},\"account\":7}"),
        request("", "", "ping")
    );
}

#[test]
fn other_shapes_ask_for_nothing() {
    for params in [
        "null",
        "true",
        "7",
        "\"envelope\"",
        "[]",
        "[{\"envelope\":{\"dataMessage\":{\"message\":\"ping\"}}}]",
        "{}",
        "{\"envelope\":null}",
        "{\"envelope\":\"dataMessage\"}",
        "{\"envelope\":[]}",
        "{\"envelope\":{}}",
        "{\"envelope\":{\"source\":\"+1555\"},\"account\":\"+1999\"}",
        "{\"envelope\":{\"dataMessage\":null}}",
        "{\"envelope\":{\"dataMessage\":\"ping\"}}",
        "{\"envelope\":{\"dataMessage\":{}}}",
        "{\"envelope\":{\"dataMessage\":{\"message\":null}}}",
        "{\"envelope\":{\"dataMessage\":{\"message\":7}}}",
        "{\"envelope\":{\"dataMessage\":{\"message\":[\"ping\"]}}}",
        "{\"envelope\":{\"dataMessage\":{\"Message\":\"ping\"}}}",
        "{\"envelope\":{\"datamessage\":{\"message\":\"ping\"}}}",
        "{\"dataMessage\":{\"message\":\"ping\"}}",
        "{\"envelope\":{\"receiptMessage\":{\"when\":1}}}",
    ] {
        assert_eq!(routed(params), None, "{}", params);
    }
    assert!(handle_incoming_message(None).is_none());
}

#[test]
fn text_is_handed_on_as_it_came() {
    assert_eq!(
        routed("{\"envelope\":{\"source\":\"a\\\"b\",\"dataMessage\":{\"message\":\"\"}},\"account\":\"\\u00e9\"}"),
        request("é", "a\"b", "")
    );
}
