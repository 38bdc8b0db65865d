use polyblocks::cache::Cache;
use polyblocks::config::{OutputFormat, ServerInput};
use polyblocks::server::{parse_payload, Action, Event, Phase, Server, ServerRuntime};
use polyblocks::sink::{property_length, SinkError};
use polyblocks::wire::{encode_update, get_bar_update, get_socket_addr};

fn server() -> Server {
    let cache = Cache::new(
        " | ".to_string(),
        vec!["battery".to_string(), "weather".to_string()],
    );
    Server::new(ServerInput {
        server_id: "0".to_string(),
        cache,
        output_format: OutputFormat::Newline,
    })
}

fn rendered(action: Action) -> String {
    match action {
        Action::Render(s) => s,
        other => panic!("expected a render, got {:?}", other),
    }
}

#[test]
fn update_is_correct() {
    let actual_update = get_bar_update("potato\npotato_update");
    assert_eq!("potato".to_string(), actual_update.key);
    assert_eq!("potato_update".to_string(), actual_update.value);
}

#[test]
fn socket_addr_test() {
    assert_eq!("\032_polyblocks_socket", get_socket_addr("32"));
}

#[test]
fn extra_lines_are_ignored() {
    let update = parse_payload(b"battery\n80%\nextra garbage").unwrap();
    assert_eq!(update.key, "battery");
    assert_eq!(update.value, "80%");
    let mut s = server();
    rendered(s.step(Event::Bound));
    let line = rendered(s.step(Event::Received(b"battery\n80%\nextra garbage".to_vec())));
    assert_eq!(line, "80% | NONE");
}

#[test]
fn single_line_payload_sets_empty_value() {
    let update = get_bar_update("battery");
    assert_eq!(update.key, "battery");
    assert_eq!(update.value, "");
    let mut s = server();
    rendered(s.step(Event::Bound));
    let line = rendered(s.step(Event::Received(b"battery".to_vec())));
    assert_eq!(line, " | NONE");
}

#[test]
fn slot_name_is_lowercased() {
    let update = get_bar_update("BaTTery\nFull");
    assert_eq!(update.key, "battery");
    assert_eq!(update.value, "Full");
    let update = get_bar_update("ÄPFEL\nx");
    assert_eq!(update.key, "äpfel");
}

#[test]
fn carriage_returns_of_line_endings_are_dropped() {
    let update = get_bar_update("weather\r\nSunny\r\n");
    assert_eq!(update.key, "weather");
    assert_eq!(update.value, "Sunny");
    let update = get_bar_update("weather\nSunny\r");
    assert_eq!(update.value, "Sunny\r");
    let update = get_bar_update("");
    assert_eq!(update.key, "");
    assert_eq!(update.value, "");
}

#[test]
fn payload_that_is_not_text_is_dropped() {
    assert!(matches!(
        parse_payload(&[0x62, 0xff, 0x0a, 0x31]),
        Err(ServerRuntime::StringParse)
    ));
    let mut s = server();
    rendered(s.step(Event::Bound));
    match s.step(Event::Received(vec![0xc3, 0x28])) {
        Action::Report(ServerRuntime::StringParse) => (),
        other => panic!("unexpected {:?}", other),
    }
    match s.step(Event::ReadFailed) {
        Action::Report(ServerRuntime::StreamRead) => (),
        other => panic!("unexpected {:?}", other),
    }
    assert_eq!(s.input.cache.status(), "NONE | NONE");
    assert_eq!(s.phase, Phase::Serving);
}

#[test]
fn start_renders_the_placeholder_line() {
    let mut s = server();
    assert_eq!(s.phase, Phase::Starting);
    assert_eq!(rendered(s.step(Event::Bound)), "NONE | NONE");
    assert_eq!(s.phase, Phase::Serving);
    assert_eq!(s.output_format(), OutputFormat::Newline);
}

#[test]
fn bind_failure_serves_nothing() {
    let mut s = server();
    assert!(matches!(s.step(Event::BindFailed), Action::Abort));
    assert_eq!(s.phase, Phase::Stopped);
    assert!(matches!(
        s.step(Event::Received(b"battery\n80%".to_vec())),
        Action::Idle
    ));
    assert!(matches!(s.step(Event::Bound), Action::Idle));
    assert_eq!(s.input.cache.status(), "NONE | NONE");
}

#[test]
fn nothing_is_served_before_binding_or_after_shutdown() {
    let mut s = server();
    assert!(matches!(s.step(Event::Received(b"battery\n1".to_vec())), Action::Idle));
    rendered(s.step(Event::Bound));
    assert!(matches!(s.step(Event::Shutdown), Action::Close));
    assert!(matches!(s.step(Event::Received(b"battery\n1".to_vec())), Action::Idle));
    assert_eq!(s.input.cache.status(), "NONE | NONE");
}

#[test]
fn client_payload_reads_back() {
    let payload = encode_update("weather", "Sunny");
    assert_eq!(payload, "weather\nSunny");
    let update = get_bar_update(&payload);
    assert_eq!(update.key, "weather");
    assert_eq!(update.value, "Sunny");
}

#[test]
fn socket_addresses_differ_per_id() {
    assert_eq!(get_socket_addr("0"), "\u{0}0_polyblocks_socket");
    assert_ne!(get_socket_addr("1"), get_socket_addr("10"));
}

#[test]
fn property_length_counts_bytes() {
    assert_eq!(property_length("80% | NONE"), Ok(10));
    assert_eq!(property_length("é"), Ok(2));
    assert_ne!(property_length(""), Err(SinkError::TryFromU32Failure));
}
