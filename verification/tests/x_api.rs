use xtg::model::{CoreError, MediaKind};
use xtg::x_api::{
    best_video_url, bearer_header, build_media_map, build_x_source, decode_failure, http_failure, media_for_tweet,
    media_obj_to_item, millis_from_twitter_created_at, normalize_x_api_base, posts_from_timeline, timeline_query,
    timeline_url, user_id_from, user_lookup_url, validate_fetch, Attachments, FakeXSource, Includes, MediaObj,
    ReferencedTweet, Tweet, Variant, XSourceConfig,
};

fn variant(ct: Option<&str>, bitrate: Option<u64>, url: Option<&str>) -> Variant {
    Variant { content_type: ct.map(|s| s.into()), bitrate, url: url.map(|s| s.into()) }
}

fn media(key: &str, ty: &str, url: Option<&str>, variants: Option<Vec<Variant>>) -> MediaObj {
    MediaObj { media_key: key.into(), media_type: ty.into(), url: url.map(|s| s.into()), variants }
}

#[test]
fn best_video_picks_highest_mp4_bitrate_last_of_equal() {
    let vs = vec![
        variant(Some("video/mp4"), Some(800), Some("a")),
        variant(Some("application/x-mpegURL"), Some(9999), Some("hls")),
        variant(Some("video/mp4"), Some(2000), Some("b")),
        variant(Some("video/mp4"), Some(2000), Some("c")),
        variant(Some("video/mp4"), Some(5000), None),
    ];
    assert_eq!(best_video_url(&Some(vs)), Some("c".to_string()));
}

#[test]
fn best_video_falls_back_to_first_url() {
    let vs = vec![variant(None, None, None), variant(Some("application/x-mpegURL"), None, Some("hls"))];
    assert_eq!(best_video_url(&Some(vs)), Some("hls".to_string()));
    assert_eq!(best_video_url(&None), None);
    assert_eq!(best_video_url(&Some(vec![])), None);
    let missing_rate = vec![variant(Some("video/mp4"), None, Some("zero"))];
    assert_eq!(best_video_url(&Some(missing_rate)), Some("zero".to_string()));
}

#[test]
fn media_objects_to_items() {
    let photo = media_obj_to_item(&media("k", "photo", Some("p.jpg"), None)).unwrap();
    assert_eq!((photo.url.as_str(), photo.kind), ("p.jpg", MediaKind::Image));
    assert!(media_obj_to_item(&media("k", "photo", None, None)).is_none());
    let gif = media_obj_to_item(&media("k", "animated_gif", None, Some(vec![variant(Some("video/mp4"), Some(0), Some("g.mp4"))]))).unwrap();
    assert_eq!((gif.url.as_str(), gif.kind), ("g.mp4", MediaKind::Gif));
    let vid = media_obj_to_item(&media("k", "video", Some("thumb"), Some(vec![]))).is_none();
    assert!(vid);
    let other = media_obj_to_item(&media("k", "poll", Some("u"), None)).unwrap();
    assert_eq!(other.kind, MediaKind::Unknown);
}

#[test]
fn tweet_media_follow_keys_last_object_wins() {
    let inc = Includes {
        media: Some(vec![
            media("1", "photo", Some("old"), None),
            media("2", "photo", None, None),
            media("1", "photo", Some("new"), None),
        ]),
    };
    let table = build_media_map(Some(inc));
    let tw = Tweet {
        id: "9".into(),
        text: "t".into(),
        created_at: None,
        attachments: Some(Attachments { media_keys: vec!["1".into(), "2".into(), "3".into(), "1".into()] }),
        referenced_tweets: None,
    };
    let items = media_for_tweet(&tw, &table);
    let urls: Vec<&str> = items.iter().map(|m| m.url.as_str()).collect();
    assert_eq!(urls, vec!["new", "new"]);
    let none = Tweet { attachments: None, ..tw };
    assert!(media_for_tweet(&none, &build_media_map(None)).is_empty());
}

#[test]
fn reply_target_is_first_replied_to() {
    let tw = Tweet {
        id: "1".into(),
        text: "".into(),
        created_at: None,
        attachments: None,
        referenced_tweets: Some(vec![
            ReferencedTweet { ref_type: "quoted".into(), id: "5".into() },
            ReferencedTweet { ref_type: "replied_to".into(), id: "6".into() },
            ReferencedTweet { ref_type: "replied_to".into(), id: "7".into() },
        ]),
    };
    assert_eq!(tw.reply_to_id(), Some("6"));
}

#[test]
fn created_at_is_read_by_chrono() {
    assert_eq!(millis_from_twitter_created_at(" 2024-01-01T00:00:00.000Z "), Some(1704067200000));
    assert_eq!(millis_from_twitter_created_at("2024-01-01T08:00:00+08:00"), Some(1704067200000));
    assert_eq!(millis_from_twitter_created_at("yesterday"), None);
}

#[test]
fn timeline_becomes_posts() {
    let tweets = vec![Tweet {
        id: "42".into(),
        text: "hello".into(),
        created_at: Some("2024-01-01T00:00:00Z".into()),
        attachments: Some(Attachments { media_keys: vec!["m".into()] }),
        referenced_tweets: Some(vec![ReferencedTweet { ref_type: "replied_to".into(), id: "41".into() }]),
    }];
    let inc = Includes { media: Some(vec![media("m", "photo", Some("https://img/1.jpg"), None)]) };
    let posts = posts_from_timeline(&tweets, Some(inc), "alice");
    assert_eq!(posts.len(), 1);
    let p = &posts[0];
    assert_eq!(p.id, "42");
    assert_eq!(p.author_handle, "alice");
    assert_eq!(p.url.as_deref(), Some("https://x.com/alice/status/42"));
    assert_eq!(p.reply_to_url.as_deref(), Some("https://x.com/i/status/41"));
    assert_eq!(p.posted_at_ms, Some(1704067200000));
    assert_eq!(p.media.len(), 1);
}

#[test]
fn api_root_and_requests() {
    assert_eq!(normalize_x_api_base(None), "https://api.twitter.com");
    assert_eq!(normalize_x_api_base(Some("   ")), "https://api.twitter.com");
    assert_eq!(normalize_x_api_base(Some("https://proxy.example//")), "https://proxy.example");
    assert_eq!(bearer_header("  tok \n"), "Bearer tok");
    assert_eq!(user_lookup_url("https://api.twitter.com", "a b"), "https://api.twitter.com/2/users/by/username/a%20b");
    assert_eq!(user_lookup_url("B", "jack_1"), "B/2/users/by/username/jack_1");
    assert_eq!(user_lookup_url("B", "\u{e9}~/"), "B/2/users/by/username/%C3%A9~%2F");
    assert_eq!(timeline_url("B", "12"), "B/2/users/12/tweets");
    let q = timeline_query();
    assert_eq!(q[0], ("max_results".to_string(), "15".to_string()));
    assert_eq!(q.len(), 4);
}

#[test]
fn failure_messages() {
    let body = "x".repeat(600);
    match http_failure("X API 用户查询", 404, &body) {
        CoreError::Fetch(m) => assert_eq!(m, format!("X API 用户查询 HTTP 404: {}", "x".repeat(500))),
        _ => panic!(),
    }
    match decode_failure("解析时间线 JSON", "eof", "{") {
        CoreError::Fetch(m) => assert_eq!(m, "解析时间线 JSON: eof; body={"),
        _ => panic!(),
    }
    assert_eq!(user_id_from(Some("7".into())).unwrap(), "7");
    match user_id_from(None) {
        Err(CoreError::Fetch(m)) => assert_eq!(m, "X API：未找到该用户名或无权访问"),
        _ => panic!(),
    }
}

#[test]
fn fetch_checks() {
    assert_eq!(validate_fetch(" @@bob ", "t").unwrap(), "bob");
    match validate_fetch(" @ ", "t") {
        Err(CoreError::Fetch(m)) => assert_eq!(m, "empty handle"),
        _ => panic!(),
    }
    match validate_fetch("bob", "  ") {
        Err(CoreError::Fetch(m)) => assert_eq!(m, "未配置 X API Bearer Token"),
        _ => panic!(),
    }
}

#[test]
fn sources() {
    let f = FakeXSource::sample();
    assert_eq!(f.posts.len(), 1);
    assert_eq!(f.posts[0].id, "1234567890123456789");
    assert!(matches!(build_x_source(true, "", ""), XSourceConfig::Fake));
    match build_x_source(false, " tok ", " https://p.example/ ") {
        XSourceConfig::Api { bearer_token, api_base } => {
            assert_eq!(bearer_token, "tok");
            assert_eq!(api_base, "https://p.example");
        }
        _ => panic!(),
    }
    match build_x_source(false, "t", "  ") {
        XSourceConfig::Api { api_base, .. } => assert_eq!(api_base, "https://api.twitter.com"),
        _ => panic!(),
    }
}
