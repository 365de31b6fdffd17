use tweetust::models::tweets::{Contributor, CurrentUserRetweet};

#[test]
fn contributors_compare_by_id_alone() {
    let a = Contributor { id: 7, screen_name: "alice".to_string() };
    let b = Contributor { id: 7, screen_name: "renamed_alice".to_string() };
    let c = Contributor { id: 8, screen_name: "alice".to_string() };
    assert_eq!(a, b);
    assert_ne!(a, c);
}

#[test]
fn current_user_retweet_compares_by_value() {
    assert_eq!(CurrentUserRetweet { id: 1 }, CurrentUserRetweet { id: 1 });
    assert_ne!(CurrentUserRetweet { id: 1 }, CurrentUserRetweet { id: 2 });
}
