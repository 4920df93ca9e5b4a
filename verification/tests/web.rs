use waymark::config::Config;
use waymark::message::Message;
use waymark::message::RetrievedMessage;
use waymark::message::glyph_default;
use waymark::message::is_hidden;
use waymark::message::score;
use waymark::pack::Pack;
use waymark::pack::Template;
use waymark::pack::WordList;
use waymark::registry::PackRegistry;
use waymark::util::hash;
use waymark::util::is_housing_zone;
use waymark::web::WebError;
use waymark::web::check_quota;
use waymark::web::compose_message;
use waymark::web::normalize_vote;
use waymark::web::redeem_token_uses;
use waymark::web::validate_ward;

fn sample_pack(id: u128) -> Pack {
    Pack {
        name: "sample".to_string(),
        id,
        visible: true,
        order: 1,
        templates: vec![
            Template::Basic("hello {0}".to_string()),
            Template::List {
                template: "beware of {0}".to_string(),
                words: vec!["dragons".to_string(), "mimics".to_string()],
            },
            Template::Basic("good luck".to_string()),
        ],
        conjunctions: Some(vec!["!".to_string(), "then".to_string()]),
        words: Some(vec![WordList {
            name: "names".to_string(),
            words: vec!["traveler".to_string(), "friend".to_string()],
        }]),
    }
}

fn message(pack_id: u128) -> Message {
    Message {
        territory: 100,
        x: 0,
        y: 0,
        z: 0,
        yaw: 0,
        pack_id,
        template_1: 0,
        word_1_list: Some(0),
        word_1_word: Some(1),
        conjunction: None,
        template_2: None,
        word_2_list: None,
        word_2_word: None,
        glyph: glyph_default(),
    }
}

#[test]
fn ward_rules_follow_the_zone() {
    assert_eq!(validate_ward(282, None), Err(WebError::MissingWard));
    assert_eq!(validate_ward(282, Some(3)), Ok(()));
    assert_eq!(validate_ward(100, Some(3)), Err(WebError::UnnecessaryWard));
    assert_eq!(validate_ward(100, None), Ok(()));
    assert!(is_housing_zone(999));
    assert!(!is_housing_zone(1000));
}

#[test]
fn votes_collapse_to_a_sign() {
    assert_eq!(normalize_vote(-5), -1);
    assert_eq!(normalize_vote(-1), -1);
    assert_eq!(normalize_vote(0), 1);
    assert_eq!(normalize_vote(1), 1);
    assert_eq!(normalize_vote(5), 1);
}

#[test]
fn quota_counts_base_and_extra() {
    assert_eq!(check_quota(4, 5, 0), Ok(()));
    assert_eq!(check_quota(5, 5, 0), Err(WebError::TooManyMessages));
    assert_eq!(check_quota(5, 5, 1), Ok(()));
    assert_eq!(check_quota(0, 0, 0), Err(WebError::TooManyMessages));
}

#[test]
fn write_request_composes_with_basic_word() {
    let pack = sample_pack(7);
    let msg = message(7);
    assert_eq!(compose_message(&pack, &msg), Ok("hello friend".to_string()));
}

#[test]
fn write_request_list_template_ignores_list_slot() {
    let pack = sample_pack(7);
    let mut msg = message(7);
    msg.template_1 = 1;
    msg.word_1_list = None;
    msg.word_1_word = Some(0);
    assert_eq!(compose_message(&pack, &msg), Ok("beware of dragons".to_string()));
}

#[test]
fn write_request_with_conjunction_joins_clauses() {
    let pack = sample_pack(7);
    let mut msg = message(7);
    msg.conjunction = Some(0);
    msg.template_2 = Some(2);
    assert_eq!(compose_message(&pack, &msg), Ok("hello friend!\ngood luck".to_string()));
    msg.conjunction = Some(1);
    assert_eq!(compose_message(&pack, &msg), Ok("hello friend\nthen good luck".to_string()));
}

#[test]
fn write_request_missing_word_is_invalid_index() {
    let pack = sample_pack(7);
    let mut msg = message(7);
    msg.word_1_word = None;
    assert_eq!(compose_message(&pack, &msg), Err(WebError::InvalidIndex));
    let mut msg = message(7);
    msg.template_1 = 9;
    assert_eq!(compose_message(&pack, &msg), Err(WebError::InvalidIndex));
}

#[test]
fn registry_returns_the_latest_pack_per_id() {
    let mut registry = PackRegistry::new();
    assert!(registry.get(7).is_none());
    registry.add(sample_pack(7));
    registry.add(sample_pack(8));
    let mut replacement = sample_pack(7);
    replacement.name = "newer".to_string();
    registry.add(replacement);
    assert_eq!(registry.get(7).map(|p| p.name.clone()), Some("newer".to_string()));
    assert_eq!(registry.get(8).map(|p| p.name.clone()), Some("sample".to_string()));
    assert!(registry.get(9).is_none());
}

#[test]
fn token_redemption_never_drops_below_zero() {
    assert_eq!(redeem_token_uses(-1), -1);
    assert_eq!(redeem_token_uses(0), 0);
    assert_eq!(redeem_token_uses(1), 0);
    assert_eq!(redeem_token_uses(5), 4);
}

#[test]
fn error_replies_carry_status_code_and_text() {
    assert_eq!(WebError::MissingAuthToken.status(), 400);
    assert_eq!(WebError::InvalidIndex.status(), 404);
    assert_eq!(WebError::NoSuchMessage.status(), 404);
    assert_eq!(WebError::InvalidIndex.code(), "invalid_index");
    assert_eq!(WebError::MissingWard.code(), "missing_ward");
    assert_eq!(
        WebError::TooManyMessages.description(),
        "you have run out of messages - delete one and try again"
    );
}

#[test]
fn token_hash_is_a_stable_64_character_digest() {
    let a = hash("some token");
    let b = hash("some token");
    let c = hash("another token");
    assert_eq!(a.len(), 64);
    assert_eq!(c.len(), 64);
    assert_eq!(a, b);
    assert_ne!(a, c);
    assert_ne!(hash(""), "");
}

#[test]
fn scores_and_hiding_follow_the_votes() {
    assert_eq!(score(5, 3), 2);
    assert_eq!(score(3, 5), 0);
    assert!(is_hidden(0, 1, 0));
    assert!(!is_hidden(1, 1, 0));
    assert!(!is_hidden(0, 2, -5));
}

#[test]
fn adjusted_age_drops_a_week_per_score_point() {
    let mut m = RetrievedMessage {
        id: 1,
        x: 0,
        y: 0,
        z: 0,
        yaw: 0,
        message: "m".to_string(),
        positive_votes: 1,
        negative_votes: 0,
        user_vote: 0,
        glyph: 3,
        created_minutes: 0,
        user: 1,
        last_seen_minutes: 0,
    };
    assert_eq!(m.adjusted_time_since_posting(10085), 5);
    m.positive_votes = 0;
    assert_eq!(m.adjusted_time_since_posting(10085), 10085);
}

#[test]
fn config_is_plain_data() {
    let config = Config {
        address: "127.0.0.1:8080".to_string(),
        packs: "packs".to_string(),
        database: "messages.db".to_string(),
        vote_threshold_hide: 0,
        max_messages: 10,
    };
    assert_eq!(config.max_messages, 10);
}
