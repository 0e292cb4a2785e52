use psdevbot::github_api::{GitHubApi, User, CACHE_CAPACITY};

fn user(url: &str) -> User {
    User {
        html_url: url.into(),
    }
}

#[test]
fn first_lookup_misses_and_later_ones_hit() {
    let mut api = GitHubApi::new("bot".into(), "pw".into());
    assert!(api.cached_user("xfix").is_none());
    api.store_user("xfix".into(), user("https://github.com/xfix"));
    assert_eq!(
        api.cached_user("xfix").map(|u| u.html_url),
        Some("https://github.com/xfix".to_string())
    );
    assert_eq!(
        api.cached_user("xfix").map(|u| u.html_url),
        Some("https://github.com/xfix".to_string())
    );
    assert_eq!(api.user(), "bot");
    assert_eq!(api.password(), "pw");
}

#[test]
fn storing_past_capacity_evicts_the_least_recently_used() {
    let mut api = GitHubApi::new("bot".into(), "pw".into());
    for i in 0..CACHE_CAPACITY {
        api.store_user(format!("user{}", i), user(&format!("u{}", i)));
    }
    for i in 0..CACHE_CAPACITY {
        assert!(api.cached_user(&format!("user{}", i)).is_some());
    }
    // user0 is now the least recently used; touching it makes user1 so.
    assert!(api.cached_user("user0").is_some());
    api.store_user("newcomer".into(), user("n"));
    assert!(api.cached_user("user1").is_none());
    assert!(api.cached_user("user0").is_some());
    assert!(api.cached_user("newcomer").is_some());
    assert_eq!(CACHE_CAPACITY, 100);
}

#[test]
fn profile_address() {
    assert_eq!(GitHubApi::user_url("xfix"), "https://api.github.com/users/xfix");
}
