use std::sync::mpsc;

use northcloud_oculus::feed::{
    decode_payload, parse_channel_list, parse_error_should_log, subscriber_step, subscriber_url,
    FeedConfigError, SETUP_ATTEMPTS, FeedMessage, LiveArticle, LiveArticleRaw, LiveFeedBuffer, PublisherMeta,
    RedisConnectionStatus, RedisFeedConfig, SubscriberEvent,
};

fn article(id: &str) -> LiveArticle {
    LiveArticle {
        id: id.to_string(),
        title: format!("title {}", id),
        channel: "test".to_string(),
        quality_score: Some(50),
        published_at: String::new(),
        topics: vec![],
    }
}

fn ids(b: &LiveFeedBuffer) -> Vec<String> {
    b.items.iter().map(|a| a.id.clone()).collect()
}

#[test]
fn buffer_constructors() {
    let (_tx, rx) = mpsc::channel::<FeedMessage>();
    let b = LiveFeedBuffer::new(rx, 0);
    assert_eq!(b.max_items, 1);
    assert!(b.is_enabled());
    assert_eq!(b.connection_status, RedisConnectionStatus::Connecting);
    let d = LiveFeedBuffer::disabled(5);
    assert_eq!(d.max_items, 5);
    assert!(!d.is_enabled());
    assert_eq!(d.connection_status, RedisConnectionStatus::Disabled);
    assert_eq!(RedisConnectionStatus::default(), RedisConnectionStatus::Disabled);
}

#[test]
fn buffer_keeps_newest_articles() {
    let mut b = LiveFeedBuffer::disabled(3);
    for i in 0..5 {
        b.push(article(&i.to_string()));
    }
    assert_eq!(ids(&b), vec!["2", "3", "4"]);
}

#[test]
fn drain_applies_messages_in_order() {
    let (tx, rx) = mpsc::channel::<FeedMessage>();
    let mut b = LiveFeedBuffer::new(rx, 2);
    tx.send(FeedMessage::Connected).unwrap();
    tx.send(FeedMessage::Article(article("a"))).unwrap();
    tx.send(FeedMessage::Article(article("b"))).unwrap();
    tx.send(FeedMessage::Article(article("c"))).unwrap();
    b.drain_receiver();
    assert_eq!(b.connection_status, RedisConnectionStatus::Connected);
    assert_eq!(ids(&b), vec!["b", "c"]);
    tx.send(FeedMessage::Disconnected).unwrap();
    b.drain_receiver();
    assert_eq!(b.connection_status, RedisConnectionStatus::Disconnected);
    assert_eq!(ids(&b), vec!["b", "c"]);
    b.drain_receiver();
    assert_eq!(b.connection_status, RedisConnectionStatus::Disconnected);
}

#[test]
fn drain_without_receiver_changes_nothing() {
    let mut b = LiveFeedBuffer::disabled(2);
    b.push(article("x"));
    b.drain_receiver();
    assert_eq!(ids(&b), vec!["x"]);
    assert_eq!(b.connection_status, RedisConnectionStatus::Disabled);
}

#[test]
fn article_from_raw_fills_defaults() {
    let raw = LiveArticleRaw { id: None, title: Some("T".to_string()), quality_score: None, topics: None, publisher: None };
    let a = LiveArticle::from_raw(raw, "chan".to_string());
    assert_eq!(a.id, "");
    assert_eq!(a.title, "T");
    assert_eq!(a.channel, "chan");
    assert_eq!(a.published_at, "");
    assert!(a.topics.is_empty());
    let raw = LiveArticleRaw {
        id: Some("dev-1".to_string()),
        title: None,
        quality_score: Some(77),
        topics: Some(vec!["dev".to_string()]),
        publisher: Some(PublisherMeta { channel: Some("pub".to_string()), published_at: Some("2024".to_string()) }),
    };
    let a = LiveArticle::from_raw(raw, "chan".to_string());
    assert_eq!(a.id, "dev-1");
    assert_eq!(a.channel, "pub");
    assert_eq!(a.quality_score, Some(77));
    assert_eq!(a.published_at, "2024");
    assert_eq!(a.topics, vec!["dev"]);
    let raw = LiveArticleRaw {
        id: None,
        title: None,
        quality_score: None,
        topics: None,
        publisher: Some(PublisherMeta { channel: None, published_at: None }),
    };
    assert_eq!(LiveArticle::from_raw(raw, "m".to_string()).channel, "m");
}

#[test]
fn channel_lists() {
    assert_eq!(parse_channel_list("articles:crime, articles:mining"), vec!["articles:crime", "articles:mining"]);
    assert_eq!(parse_channel_list(" , ,"), Vec::<String>::new());
    assert_eq!(parse_channel_list("a,,b ,"), vec!["a", "b"]);
    assert_eq!(parse_channel_list(""), Vec::<String>::new());
}

#[test]
fn config_from_settings() {
    let c = RedisFeedConfig::from_settings(None, None, Some("test".to_string()), None).unwrap();
    assert_eq!(c.addr, "127.0.0.1:6379");
    assert_eq!(c.password, None);
    assert_eq!(c.channels, vec!["test"]);
    assert_eq!(c.max_items, 20);
    let c = RedisFeedConfig::from_settings(
        Some("10.0.0.1:7000".to_string()),
        Some("pw".to_string()),
        Some("a,b".to_string()),
        Some("0".to_string()),
    )
    .unwrap();
    assert_eq!(c.addr, "10.0.0.1:7000");
    assert_eq!(c.password.as_deref(), Some("pw"));
    assert_eq!(c.max_items, 1);
    let c = RedisFeedConfig::from_settings(None, None, Some("a".to_string()), Some("abc".to_string())).unwrap();
    assert_eq!(c.max_items, 20);
    let c = RedisFeedConfig::from_settings(None, None, Some("a".to_string()), Some("35".to_string())).unwrap();
    assert_eq!(c.max_items, 35);
    let c = RedisFeedConfig::from_settings(None, Some("pw".to_string()), None, Some("5".to_string())).unwrap();
    assert_eq!(c.channels, vec!["test"]);
    assert_eq!(c.addr, "127.0.0.1:6379");
    assert_eq!(c.password.as_deref(), Some("pw"));
    assert_eq!(c.max_items, 5);
    assert_eq!(
        RedisFeedConfig::from_settings(None, None, Some(" , ".to_string()), None).unwrap_err(),
        FeedConfigError::NoChannels
    );
}

#[test]
fn subscriber_urls() {
    assert_eq!(subscriber_url("127.0.0.1:6379", None), "redis://127.0.0.1:6379");
    assert_eq!(subscriber_url("h:1", Some("s3cret")), "redis://:s3cret@h:1");
}

#[test]
fn parse_error_logging_is_rate_limited() {
    assert!(parse_error_should_log(1, false));
    assert!(!parse_error_should_log(2, false));
    assert!(parse_error_should_log(50, false));
    assert!(parse_error_should_log(100, false));
    assert!(!parse_error_should_log(51, false));
    assert!(parse_error_should_log(51, true));
}

#[test]
fn payload_decoding() {
    assert_eq!(decode_payload("{\"id\":\"x\"}".as_bytes().to_vec()).unwrap(), "{\"id\":\"x\"}");
    assert_eq!(decode_payload(vec![0xe2, 0x82, 0xac]).unwrap(), "\u{20ac}");
    assert!(decode_payload(vec![0xff, 0xfe]).is_err());
}

#[test]
fn subscriber_decisions() {
    for attempt in 1..SETUP_ATTEMPTS {
        let a = subscriber_step(SubscriberEvent::SetupFailed(attempt));
        assert!(a.report.is_none());
        assert!(a.retry_setup);
        assert!(!a.stop);
    }
    let a = subscriber_step(SubscriberEvent::SetupFailed(SETUP_ATTEMPTS));
    assert!(matches!(a.report, Some(FeedMessage::Disconnected)));
    assert!(!a.retry_setup);
    assert!(a.stop);
    assert_eq!(SETUP_ATTEMPTS, 5);
    let a = subscriber_step(SubscriberEvent::Subscribed);
    assert!(matches!(a.report, Some(FeedMessage::Connected)));
    assert!(!a.stop);
    let a = subscriber_step(SubscriberEvent::ReceiveFailed);
    assert!(matches!(a.report, Some(FeedMessage::Disconnected)));
    assert!(a.stop);
    let a = subscriber_step(SubscriberEvent::Unreadable);
    assert!(a.report.is_none());
    assert!(a.log_parse_error);
    assert!(!a.stop);
    let raw = LiveArticleRaw { id: Some("1".to_string()), title: None, quality_score: None, topics: None, publisher: None };
    let a = subscriber_step(SubscriberEvent::Received(raw, "ch".to_string()));
    match a.report {
        Some(FeedMessage::Article(art)) => {
            assert_eq!(art.id, "1");
            assert_eq!(art.channel, "ch");
        }
        _ => panic!("expected an article"),
    }
    assert!(a.stop_if_undelivered);
    assert!(!a.stop);
}
