use weathrs::expo::{success_count, ExpoClient, ExpoPushResponse, ExpoPushTicket, CHUNK_SIZE};
use weathrs::notifications::{
    aggregate_outcomes, tags_header, Backend, GotifyClient, NotificationError, NotificationMessage,
    NotificationService, NtfyAuth, NtfyClient, Priority,
};

fn test_client() -> reqwest::Client {
    reqwest::Client::new()
}

#[test]
fn test_ntfy_client_creation() {
    let client = NtfyClient::new(test_client(), "https://ntfy.sh", "test-topic", None);
    assert_eq!(client.url, "https://ntfy.sh");
    assert_eq!(client.topic, "test-topic");
    assert!(client.auth.is_none());
}

#[test]
fn test_ntfy_client_with_token() {
    let client = NtfyClient::with_token(test_client(), "https://ntfy.sh", "test-topic", "my-token");
    assert!(client.auth.is_some());
    assert!(matches!(client.auth, Some(NtfyAuth::Token(_))));
}

#[test]
fn test_ntfy_client_with_basic_auth() {
    let client = NtfyClient::with_basic_auth(
        test_client(),
        "https://ntfy.sh",
        "test-topic",
        "myuser",
        "mypass",
    );
    assert!(client.auth.is_some());
    assert!(matches!(client.auth, Some(NtfyAuth::Basic { .. })));
}

#[test]
fn test_gotify_client_creation() {
    let client = GotifyClient::new(test_client(), "https://gotify.example.com", "my-app-token");
    assert_eq!(client.url, "https://gotify.example.com");
    assert_eq!(client.token, "my-app-token");
}

#[test]
fn trailing_slashes_are_dropped() {
    let client = NtfyClient::new(test_client(), "https://ntfy.sh//", "alerts", None);
    assert_eq!(client.url, "https://ntfy.sh");
    assert_eq!(client.endpoint(), "https://ntfy.sh/alerts");
    let gotify = GotifyClient::new(test_client(), "https://g.example/", "tok");
    assert_eq!(gotify.endpoint(), "https://g.example/message?token=tok");
}

#[test]
fn ntfy_auth_headers() {
    let token = NtfyClient::with_token(test_client(), "https://ntfy.sh", "t", "abc");
    assert_eq!(token.auth_header(), Some("Bearer abc".to_string()));
    let basic = NtfyClient::with_basic_auth(test_client(), "https://ntfy.sh", "t", "myuser", "mypass");
    assert_eq!(basic.auth_header(), Some("Basic bXl1c2VyOm15cGFzcw==".to_string()));
    let none = NtfyClient::new(test_client(), "https://ntfy.sh", "t", None);
    assert_eq!(none.auth_header(), None);
}

#[test]
fn tags_are_joined_by_commas() {
    assert_eq!(tags_header(&vec![]), None);
    assert_eq!(tags_header(&vec!["a".to_string()]), Some("a".to_string()));
    assert_eq!(
        tags_header(&vec!["warning".to_string(), "weather".to_string()]),
        Some("warning,weather".to_string())
    );
}

#[test]
fn priority_scales() {
    let all = [Priority::Min, Priority::Low, Priority::Default, Priority::High, Priority::Urgent];
    let ntfy: Vec<u8> = all.iter().map(|p| p.as_ntfy_priority()).collect();
    let gotify: Vec<u8> = all.iter().map(|p| p.as_gotify_priority()).collect();
    assert_eq!(ntfy, vec![1, 2, 3, 4, 5]);
    assert_eq!(gotify, vec![0, 2, 5, 7, 10]);
}

#[test]
fn test_priority_conversion() {
    assert_eq!(ExpoClient::convert_priority(Priority::Min), "normal");
    assert_eq!(ExpoClient::convert_priority(Priority::Low), "normal");
    assert_eq!(ExpoClient::convert_priority(Priority::Default), "default");
    assert_eq!(ExpoClient::convert_priority(Priority::High), "high");
    assert_eq!(ExpoClient::convert_priority(Priority::Urgent), "high");
}

#[test]
fn fan_out_one_failure_one_success_is_success() {
    let r = aggregate_outcomes(vec![Err(NotificationError::ServiceError("down".to_string())), Ok(())]);
    assert!(r.is_ok());
    let r = aggregate_outcomes(vec![Ok(()), Err(NotificationError::SendError("x".to_string()))]);
    assert!(r.is_ok());
}

#[test]
fn fan_out_all_failing_reports_first_error() {
    let r = aggregate_outcomes(vec![
        Err(NotificationError::ServiceError("first".to_string())),
        Err(NotificationError::SendError("second".to_string())),
    ]);
    assert!(matches!(r, Err(NotificationError::ServiceError(ref m)) if m == "first"));
}

#[test]
fn fan_out_with_no_backends_is_not_configured() {
    let r = aggregate_outcomes(vec![]);
    assert!(matches!(r, Err(NotificationError::NoServicesConfigured)));
    let service = NotificationService::new(None, None);
    assert!(!service.is_configured());
    assert!(matches!(service.send_targets(), Err(NotificationError::NoServicesConfigured)));
    assert!(matches!(service.ntfy_target(), Err(NotificationError::NoServicesConfigured)));
}

#[test]
fn configured_backends_in_order() {
    let ntfy = NtfyClient::new(test_client(), "https://ntfy.sh", "t", None);
    let gotify = GotifyClient::new(test_client(), "https://g.example", "tok");
    let service = NotificationService::new(Some(ntfy), Some(gotify));
    assert!(service.is_configured());
    let targets = service.send_targets().ok().unwrap();
    assert!(targets == vec![Backend::Ntfy, Backend::Gotify]);
}

fn message() -> NotificationMessage {
    NotificationMessage {
        title: "T".to_string(),
        body: "B".to_string(),
        priority: Priority::High,
        tags: vec![],
        city: None,
    }
}

#[test]
fn expo_push_message_fields() {
    let m = ExpoClient::build_push_message("ExponentPushToken[x]", &message());
    assert_eq!(m.to, "ExponentPushToken[x]");
    assert_eq!(m.title, Some("T".to_string()));
    assert_eq!(m.body, "B");
    assert_eq!(m.priority, Some("high".to_string()));
    assert_eq!(m.sound, Some("default".to_string()));
    assert_eq!(m.channel_id, Some("weather".to_string()));
    assert_eq!(m.ttl, Some(3600));
}

#[test]
fn expo_chunks_of_one_hundred() {
    let tokens: Vec<String> = (0..250).map(|i| format!("t{}", i)).collect();
    let chunks = ExpoClient::chunk_tokens(&tokens);
    assert_eq!(chunks.len(), 3);
    assert_eq!(chunks[0].len(), CHUNK_SIZE);
    assert_eq!(chunks[1].len(), 100);
    assert_eq!(chunks[2].len(), 50);
    assert_eq!(chunks[2][49], "t249");
    assert!(ExpoClient::chunk_tokens(&vec![]).is_empty());
}

#[test]
fn expo_chunk_failure_fails_each_recipient() {
    let r = ExpoClient::chunk_outcomes(3, Err("network down".to_string()));
    assert_eq!(r.len(), 3);
    assert_eq!(success_count(&r), 0);
    assert!(r.iter().all(|x| matches!(x, Err(NotificationError::ServiceError(m)) if m == "network down")));
}

#[test]
fn expo_ticket_statuses() {
    let resp = ExpoPushResponse {
        data: vec![
            ExpoPushTicket { status: "ok".to_string(), id: Some("1".to_string()), message: None },
            ExpoPushTicket { status: "error".to_string(), id: None, message: Some("DeviceNotRegistered".to_string()) },
            ExpoPushTicket { status: "error".to_string(), id: None, message: None },
        ],
    };
    let r = ExpoClient::chunk_outcomes(3, Ok(resp));
    assert_eq!(success_count(&r), 1);
    assert!(matches!(&r[1], Err(NotificationError::ServiceError(m)) if m == "DeviceNotRegistered"));
    assert!(matches!(&r[2], Err(NotificationError::ServiceError(m)) if m == "Unknown error"));
}
