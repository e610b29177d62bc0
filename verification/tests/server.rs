use remo_e_exporter::gate::CacheGate;
use remo_e_exporter::nature_client::{Appliance, EchonetliteProperties, SmartMeter};
use remo_e_exporter::server::{Response, Server, STATUS_INTERNAL_SERVER_ERROR, STATUS_OK};

#[test]
fn new_server_is_empty_and_due() {
    let server = Server::new(30);
    assert_eq!(server.gate, CacheGate { last: None, window: 30 });
    assert_eq!(server.engine.store().len(), 0);
}

#[test]
fn update_says_when_to_fetch() {
    let mut server = Server::new(30);
    assert!(server.update(100));
    assert_eq!(server.gate.last, Some(100));
    assert!(!server.update(100));
    assert!(!server.update(129));
    assert_eq!(server.gate.last, Some(100));
    assert!(server.update(130));
    assert_eq!(server.gate.last, Some(130));
    assert!(!server.update(159));
}

#[test]
fn update_leaves_the_metrics_alone() {
    let mut server = Server::new(30);
    let fetched = vec![Appliance {
        id: "id-1".to_string(),
        nickname: "Remo E".to_string(),
        smart_meter: Some(SmartMeter {
            echonetlite_properties: Some(vec![EchonetliteProperties {
                name: "measured_instantaneous".to_string(),
                epc: 0xE7,
                val: "432".to_string(),
                updated_at: 0,
            }]),
        }),
    }];
    assert!(server.update(0));
    assert_eq!(server.engine.update(fetched), Ok(()));
    let before = server.engine.snapshot();
    assert!(!server.update(1));
    assert!(server.update(30));
    assert_eq!(server.engine.snapshot(), before);
    assert_eq!(before.len(), 1);
}

#[test]
fn good_scrape_is_answered_with_the_metrics() {
    let body = b"remo_coefficient{id=\"id-1\",name=\"Remo E\"} 1\n".to_vec();
    let response = Server::serve_internal("text/plain; version=0.0.4", body.clone());
    assert_eq!(response.status, 200);
    assert_eq!(response.status, STATUS_OK);
    assert_eq!(response.content_type.as_deref(), Some("text/plain; version=0.0.4"));
    assert_eq!(response.body, body);
    let sent = Server::serve::<String>(Ok(Server::serve_internal("text/plain; version=0.0.4", body.clone())));
    assert_eq!(sent, response);
}

#[test]
fn failed_scrape_is_answered_with_an_empty_server_error() {
    let response = Server::serve(Err("connection refused".to_string()));
    assert_eq!(response.status, 500);
    assert_eq!(response.status, STATUS_INTERNAL_SERVER_ERROR);
    assert_eq!(response.content_type, None);
    assert!(response.body.is_empty());
    assert_eq!(response, Response { status: 500, content_type: None, body: vec![] });
}
