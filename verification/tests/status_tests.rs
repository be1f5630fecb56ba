use kcl::responses::StatusResponse;
use kcl::Message;

#[test]
fn status_line_names_the_handled_action() {
    let status = StatusResponse::for_message(Message::Initialize {
        shard_id: "shard1".to_string(),
    });
    assert_eq!(
        status.encode(),
        "{\"action\":\"status\",\"responseFor\":\"initialize\"}\n"
    );
}

#[test]
fn status_encoding_is_stable() {
    let status = StatusResponse::for_message(Message::LeaseLost);
    let first = status.encode();
    let second = status.encode();
    let third = status.encode();
    assert_eq!(first, second);
    assert_eq!(second, third);
    assert_eq!(first, "{\"action\":\"status\",\"responseFor\":\"leaseLost\"}\n");
}
