use fazzk::follower::followers_of_response;
use fazzk::follower::CookieData;
use fazzk::follower::FollowerContent;
use fazzk::follower::FollowerItem;
use fazzk::follower::FollowerResponse;
use fazzk::follower::User;

fn record(id: &str, name: &str) -> FollowerItem {
    FollowerItem {
        user: User {
            user_id_hash: id.to_string(),
            nickname: name.to_string(),
            profile_image_url: None,
        },
        following_since: "2024-01-01T00:00:00Z".to_string(),
    }
}

#[test]
fn successful_response_yields_its_entries() {
    let resp = FollowerResponse {
        code: 200,
        message: Some("Success".to_string()),
        content: Some(FollowerContent { data: vec![record("a", "alpha")] }),
    };
    let data = followers_of_response(resp).expect("entries");
    assert_eq!(data.len(), 1);
    assert_eq!(data[0].user.user_id_hash, "a");
}

#[test]
fn error_code_or_missing_payload_yields_nothing() {
    let resp = FollowerResponse {
        code: 401,
        message: Some("Unauthorized".to_string()),
        content: Some(FollowerContent { data: vec![record("a", "alpha")] }),
    };
    assert!(followers_of_response(resp).is_none());
    let resp = FollowerResponse { code: 200, message: None, content: None };
    assert!(followers_of_response(resp).is_none());
}

#[test]
fn records_clone_field_for_field() {
    let original = record("a", "alpha");
    let copy = original.clone();
    assert_eq!(copy.user.user_id_hash, "a");
    assert_eq!(copy.user.nickname, "alpha");
    assert_eq!(copy.user.profile_image_url, None);
    assert_eq!(copy.following_since, "2024-01-01T00:00:00Z");
}

#[test]
fn cookie_pair_clones_both_values() {
    let cookies = CookieData {
        nid_aut: "SECRET-REDACTED".to_string(),
        nid_ses: "SECRET-REDACTED".to_string(),
    };
    let copy = cookies.clone();
    assert_eq!(copy.nid_aut, cookies.nid_aut);
    assert_eq!(copy.nid_ses, cookies.nid_ses);
}
