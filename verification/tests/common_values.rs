use video_share::clock::Timestamp;
use video_share::models::attachments::RecordType;
use video_share::token::ShareToken;
use video_share::url::compose;

#[test]
fn address_is_base_slash_key() {
    assert_eq!(compose("https://cdn.example.com", "abc/def.mp4"), "https://cdn.example.com/abc/def.mp4");
    assert_eq!(compose("", ""), "/");
    assert_eq!(compose("base", ""), "base/");
    assert_eq!(compose("", "key"), "/key");
}

#[test]
fn address_has_one_slash_at_the_joint() {
    assert_eq!(compose("https://cdn/", "/k"), "https://cdn/k");
    assert_eq!(compose("https://cdn/", "k"), "https://cdn/k");
    assert_eq!(compose("https://cdn", "/k"), "https://cdn/k");
    assert_eq!(compose("https://cdn", "k"), "https://cdn/k");
    assert_eq!(compose("https://cdn///", "///k"), "https://cdn/k");
    assert_eq!(compose("https://cdn.example.com/media/", "/2024/a.mp4"), "https://cdn.example.com/media/2024/a.mp4");
}

#[test]
fn address_keeps_the_slashes_inside_base_and_key() {
    assert_eq!(compose("https://cdn/a//b/", "/c//d/"), "https://cdn/a//b/c//d/");
    assert_eq!(compose("/", "/"), "/");
    assert_eq!(compose("//", "k"), "/k");
}

#[test]
fn address_has_no_pair_of_slashes_behind_the_scheme() {
    for base in ["https://cdn.example.com", "https://cdn.example.com/", "https://cdn.example.com/media//"] {
        for key in ["k", "/k", "//k", "a/b.mp4", "/a/b.mp4"] {
            let url = compose(base, key);
            assert_eq!(url.matches("//").count(), 1, "{}", url);
            assert!(url.starts_with("https://cdn.example.com"));
        }
    }
}

#[test]
fn address_keeps_unicode() {
    assert_eq!(compose("https://cdn/é", "vidéo.mp4"), "https://cdn/é/vidéo.mp4");
}

#[test]
fn record_type_has_a_name() {
    assert_eq!(RecordType::Video.name(), "video");
}

#[test]
fn record_type_parses_its_name_only() {
    assert_eq!(RecordType::parse("video"), Some(RecordType::Video));
    assert_eq!(RecordType::parse("Video"), None);
    assert_eq!(RecordType::parse("videos"), None);
    assert_eq!(RecordType::parse(""), None);
    assert_eq!(RecordType::parse(&RecordType::Video.name()), Some(RecordType::Video));
}

#[test]
fn timestamp_compares_by_microseconds() {
    let early = Timestamp::from_micros(1_000_000);
    let late = Timestamp::from_micros(1_000_001);
    assert!(early.is_before(&late));
    assert!(!late.is_before(&early));
    assert!(!early.is_before(&early));
    assert_eq!(early.micros, 1_000_000);
}

#[test]
fn clock_reads_the_current_time() {
    let before = chrono::Utc::now().timestamp_micros();
    let read = Timestamp::now();
    let after = chrono::Utc::now().timestamp_micros();
    assert!(before <= read.micros + 5_000_000);
    assert!(read.micros <= after + 5_000_000);
    // Later than 2020-01-01.
    assert!(read.micros > 1_577_836_800_000_000);
}

#[test]
fn token_keeps_its_bits() {
    let token = ShareToken::from_u128(0xa1a2a3a4_b1b2_c1c2_d1d2_d3d4d5d6d7d8);
    assert_eq!(token.as_u128(), 0xa1a2a3a4_b1b2_c1c2_d1d2_d3d4d5d6d7d8);
    assert_eq!(token, ShareToken { bits: 0xa1a2a3a4_b1b2_c1c2_d1d2_d3d4d5d6d7d8 });
}

#[test]
fn random_token_is_a_version_four_uuid() {
    for _ in 0..64 {
        let token = ShareToken::random();
        let uuid = uuid::Uuid::from_u128(token.as_u128());
        assert_eq!(uuid.get_version_num(), 4);
        assert_eq!(uuid.get_variant(), uuid::Variant::RFC4122);
        assert_eq!(
            token.bits & video_share::token::LAYOUT_MASK,
            video_share::token::RANDOM_LAYOUT
        );
    }
}

#[test]
fn random_tokens_differ() {
    let mut seen: Vec<u128> = Vec::new();
    for _ in 0..256 {
        let bits = ShareToken::random().as_u128();
        assert!(!seen.contains(&bits));
        seen.push(bits);
    }
}

#[test]
fn address_ends_with_the_key_behind_one_slash() {
    for (base, key) in [("https://cdn.example.com", "a1b2"), ("b", "k"), ("", "k"), ("x", "a/b")] {
        let url = compose(base, key);
        assert_eq!(url.len(), base.len() + 1 + key.len());
        assert!(url.starts_with(base));
        assert!(url.ends_with(key));
        assert_eq!(&url[base.len()..base.len() + 1], "/");
    }
}

#[test]
fn address_holds_a_plain_key_once() {
    let url = compose("https://cdn.example.com/media", "0a1b2c3d");
    assert_eq!(url.match_indices("0a1b2c3d").map(|(at, _)| at).collect::<Vec<usize>>(), vec![30]);
}

#[test]
fn address_may_hold_a_key_twice_that_the_base_holds() {
    let url = compose("http://cdn/x", "x");
    assert_eq!(url, "http://cdn/x/x");
    assert_eq!(url.matches("x").count(), 2);
}

#[test]
fn separator_never_pairs_up() {
    assert_eq!(compose("http://cdn", "k").matches("//").count(), 1);
    assert!(compose("http://cdn/", "k").ends_with("cdn/k"));
    assert!(compose("http://cdn", "/k").ends_with("cdn/k"));
    assert!(compose("http://cdn//", "//k").ends_with("cdn/k"));
}
