use osugit::config::Config;
use osugit::models::{BeatmapSearch, RankStatus};
use osugit::osuapi::{AuthError, Osuapi, OsuToken, TokenStep, REQUEST_LIMIT};

fn credential_config() -> Config {
    Config {
        debug: true,
        repos: String::from("repos"),
        db_path: String::from("db"),
        oauth_client_id: String::from("1234"),
        oauth_client_secret: String::from("s3cr3t"),
        host: String::from("127.0.0.1"),
        port: 80,
        session_secret: String::from("x"),
        api_base_url: String::from("https://osu.ppy.sh/api/v2"),
        token_endpoint: String::from("https://osu.ppy.sh/oauth/token"),
        poll_interval: 30,
    }
}

fn credential_token(text: &str, lifetime: u64) -> OsuToken {
    OsuToken {
        token_type: String::from("Bearer"),
        expires_in: lifetime,
        access_token: String::from(text),
    }
}

fn cached_text(step: TokenStep) -> String {
    match step {
        TokenStep::Cached(t) => t.access_token,
        other => panic!("expected a cached credential, got {:?}", other),
    }
}

#[test]
fn first_caller_is_sent_to_the_token_endpoint() {
    let mut api = Osuapi::new(credential_config());
    match api.fetch_token(0) {
        TokenStep::Exchange(form) => {
            assert_eq!(form.url, "https://osu.ppy.sh/oauth/token");
            assert_eq!(form.content_type, "application/x-www-form-urlencoded");
            assert_eq!(form.client_id, "1234");
            assert_eq!(form.client_secret, "s3cr3t");
            assert_eq!(form.grant_type, "client_credentials");
            assert_eq!(form.scope, "public");
        }
        other => panic!("expected an exchange, got {:?}", other),
    }
}

#[test]
fn two_callers_share_one_exchange() {
    let mut api = Osuapi::new(credential_config());
    let mut exchanges = 0;
    if let TokenStep::Exchange(_) = api.fetch_token(100) {
        exchanges += 1;
    }
    let second = api.fetch_token(100);
    assert!(matches!(second, TokenStep::Wait));
    if let TokenStep::Exchange(_) = second {
        exchanges += 1;
    }
    api.token_received(100, credential_token("abc", 60));
    let first_text = cached_text(api.fetch_token(101));
    let second_text = cached_text(api.fetch_token(101));
    assert_eq!(exchanges, 1);
    assert_eq!(first_text, "abc");
    assert_eq!(second_text, "abc");
}

#[test]
fn cached_credential_lasts_until_its_lifetime_is_over() {
    let mut api = Osuapi::new(credential_config());
    assert!(matches!(api.fetch_token(0), TokenStep::Exchange(_)));
    api.token_received(0, credential_token("tok", 3600));
    assert_eq!(cached_text(api.fetch_token(3599)), "tok");
    let mut refreshes = 0;
    for _ in 0..3 {
        if let TokenStep::Exchange(_) = api.fetch_token(3601) {
            refreshes += 1;
        }
    }
    assert_eq!(refreshes, 1);
}

#[test]
fn credential_is_stale_at_the_very_end_of_its_lifetime() {
    let mut api = Osuapi::new(credential_config());
    api.token_received(0, credential_token("tok", 3600));
    assert!(matches!(api.fetch_token(3600), TokenStep::Exchange(_)));
}

#[test]
fn credential_with_a_huge_lifetime_stays_usable() {
    let mut api = Osuapi::new(credential_config());
    api.token_received(u64::MAX, credential_token("tok", u64::MAX));
    assert_eq!(cached_text(api.fetch_token(u64::MAX)), "tok");
}

#[test]
fn credential_of_no_lifetime_is_never_usable() {
    let mut api = Osuapi::new(credential_config());
    api.token_received(5, credential_token("tok", 0));
    assert!(matches!(api.fetch_token(5), TokenStep::Exchange(_)));
}

#[test]
fn failed_exchange_lets_the_next_caller_try() {
    let mut api = Osuapi::new(credential_config());
    assert!(matches!(api.fetch_token(0), TokenStep::Exchange(_)));
    assert!(matches!(api.fetch_token(0), TokenStep::Wait));
    api.token_failed();
    assert!(matches!(api.fetch_token(1), TokenStep::Exchange(_)));
}

#[test]
fn new_credential_replaces_the_old() {
    let mut api = Osuapi::new(credential_config());
    api.token_received(0, credential_token("old", 10));
    api.token_received(20, credential_token("new", 10));
    assert_eq!(cached_text(api.fetch_token(25)), "new");
}

#[test]
fn token_outcome_needs_success_and_a_body() {
    assert!(Osuapi::token_outcome(200, Some(credential_token("a", 1))).is_ok());
    assert_eq!(Osuapi::token_outcome(204, Some(credential_token("a", 1))).unwrap().access_token, "a");
    assert_eq!(Osuapi::token_outcome(200, None).unwrap_err(), AuthError::Rejected { status: 200 });
    assert_eq!(Osuapi::token_outcome(401, Some(credential_token("a", 1))).unwrap_err(), AuthError::Rejected { status: 401 });
    assert_eq!(Osuapi::token_outcome(300, Some(credential_token("a", 1))).unwrap_err(), AuthError::Rejected { status: 300 });
    assert_eq!(Osuapi::token_outcome(199, None).unwrap_err(), AuthError::Rejected { status: 199 });
}

#[test]
fn search_request_carries_the_bearer_and_the_class() {
    let api = Osuapi::new(credential_config());
    let req = api.search_beatmaps(&credential_token("abc", 1), RankStatus::Pending);
    assert_eq!(req.url, "https://osu.ppy.sh/api/v2/beatmapsets/search");
    assert_eq!(req.authorization, "Bearer abc");
    assert_eq!(req.query, Some((String::from("s"), String::from("pending"))));
}

#[test]
fn download_requests_name_the_file_and_the_record() {
    let api = Osuapi::new(credential_config());
    let token = credential_token("t0k", 1);
    let file = api.download_beatmap_file(&token, 123456);
    assert_eq!(file.url, "https://osu.ppy.sh/osu/123456");
    assert_eq!(file.authorization, "Bearer t0k");
    assert_eq!(file.query, None);
    let set = api.download_beatmapset(&token, 987);
    assert_eq!(set.url, "https://osu.ppy.sh/api/v2/beatmapsets/987/download");
    assert_eq!(set.authorization, "Bearer t0k");
    assert_eq!(set.query, None);
}

#[test]
fn download_outcome_accepts_only_status_200() {
    assert!(Osuapi::download_outcome(200, String::new()).is_ok());
    let e = Osuapi::download_outcome(404, String::from("not found")).unwrap_err();
    assert_eq!(e.status, 404);
    assert_eq!(e.body, "not found");
    assert!(Osuapi::download_outcome(201, String::new()).is_err());
    assert!(Osuapi::download_outcome(0, String::new()).is_err());
}

#[test]
fn search_outcome_needs_success_and_a_list() {
    let ok = Osuapi::search_outcome(200, String::from("{}"), Some(BeatmapSearch { beatmapsets: vec![] }));
    assert!(ok.unwrap().beatmapsets.is_empty());
    let e = Osuapi::search_outcome(200, String::from("oops"), None).unwrap_err();
    assert_eq!((e.status, e.body.as_str()), (200, "oops"));
    let e = Osuapi::search_outcome(500, String::from("down"), Some(BeatmapSearch { beatmapsets: vec![] }))
        .unwrap_err();
    assert_eq!((e.status, e.body.as_str()), (500, "down"));
}

#[test]
fn rank_status_numbers_and_words() {
    let all = [
        (RankStatus::Graveyard, -2, "graveyard"),
        (RankStatus::Wip, -1, "Wip"),
        (RankStatus::Pending, 0, "pending"),
        (RankStatus::Ranked, 1, "ranked"),
        (RankStatus::Approved, 2, "Approved"),
        (RankStatus::Qualified, 3, "qualified"),
        (RankStatus::Loved, 4, "loved"),
    ];
    for (status, code, word) in all {
        assert_eq!(status.code(), code);
        assert_eq!(status.query_word(), word);
    }
    assert_eq!(REQUEST_LIMIT, 1000);
}

#[test]
fn requests_go_to_the_configured_addresses() {
    let mut config = credential_config();
    config.api_base_url = String::from("http://localhost:9000/api");
    config.token_endpoint = String::from("http://localhost:9000/token");
    let mut api = Osuapi::new(config);
    match api.fetch_token(0) {
        TokenStep::Exchange(form) => assert_eq!(form.url, "http://localhost:9000/token"),
        other => panic!("expected an exchange, got {:?}", other),
    }
    let token = credential_token("abc", 1);
    assert_eq!(
        api.search_beatmaps(&token, RankStatus::Ranked).url,
        "http://localhost:9000/api/beatmapsets/search"
    );
    assert_eq!(
        api.download_beatmapset(&token, -3).url,
        "http://localhost:9000/api/beatmapsets/-3/download"
    );
}
