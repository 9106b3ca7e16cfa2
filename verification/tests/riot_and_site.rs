use portfolio_core::auth::AuthError;
use portfolio_core::riot::{
    account_url, get_puuid_by_name_and_tag, get_ranked_stats_by_puuid, ranked_stats_url,
    solo_queue_entry, LeagueV4,
};
use portfolio_core::site::education_courses;

#[test]
fn account_urls_embed_the_riot_id() {
    assert_eq!(
        account_url("Weetabicx", "EUW"),
        "https://europe.api.riotgames.com/riot/account/v1/accounts/by-riot-id/Weetabicx/EUW"
    );
    assert_eq!(
        ranked_stats_url("PUUID-1"),
        "https://euw1.api.riotgames.com/lol/league/v4/entries/by-puuid/PUUID-1"
    );
}

#[test]
fn account_response_is_projected() {
    let body = "{\"puuid\":\"P\",\"gameName\":\"Weetabicx\",\"tagLine\":\"EUW\"}";
    let acc = get_puuid_by_name_and_tag(200, body).expect("account body parses");
    assert_eq!(acc.puuid, "P");
    assert_eq!(acc.game_name, "Weetabicx");
    assert_eq!(acc.tag_line, "EUW");
}

#[test]
fn account_response_requires_every_field() {
    let body = "{\"puuid\":\"P\",\"gameName\":\"Weetabicx\"}";
    assert!(matches!(
        get_puuid_by_name_and_tag(200, body),
        Err(AuthError::MalformedResponse)
    ));
    match get_puuid_by_name_and_tag(404, "no such account") {
        Err(AuthError::UpstreamRejected(b)) => assert_eq!(b, "no such account"),
        _ => panic!("non-success status must be an upstream rejection"),
    }
}

fn league_body() -> &'static str {
    "[{\"leagueId\":\"L1\",\"queueType\":\"RANKED_FLEX_SR\",\"tier\":\"GOLD\",\"rank\":\"II\",\
      \"puuid\":\"P\",\"leaguePoints\":21,\"wins\":10,\"losses\":5,\
      \"veteran\":false,\"inactive\":false,\"freshBlood\":true,\"hotStreak\":false},\
     {\"leagueId\":\"L2\",\"queueType\":\"RANKED_SOLO_5x5\",\"tier\":\"PLATINUM\",\"rank\":\"IV\",\
      \"puuid\":\"P\",\"leaguePoints\":55,\"wins\":40,\"losses\":38,\
      \"veteran\":true,\"inactive\":false,\"freshBlood\":false,\"hotStreak\":true}]"
}

#[test]
fn ranked_stats_are_projected() {
    let entries = get_ranked_stats_by_puuid(200, league_body()).expect("league body parses");
    assert_eq!(entries.len(), 2);
    assert_eq!(entries[0].queue_type, "RANKED_FLEX_SR");
    assert_eq!(entries[1].tier, "PLATINUM");
    assert_eq!(entries[1].league_points, 55);
    assert_eq!(entries[1].wins, 40);
    assert_eq!(entries[1].losses, 38);
    assert!(entries[1].veteran);
    assert!(entries[1].hot_streak);
}

#[test]
fn ranked_stats_reject_out_of_range_counts() {
    let body = "[{\"leagueId\":\"L\",\"queueType\":\"Q\",\"tier\":\"T\",\"rank\":\"R\",\
      \"puuid\":\"P\",\"leaguePoints\":100000,\"wins\":1,\"losses\":1,\
      \"veteran\":false,\"inactive\":false,\"freshBlood\":false,\"hotStreak\":false}]";
    assert!(matches!(
        get_ranked_stats_by_puuid(200, body),
        Err(AuthError::MalformedResponse)
    ));
    assert!(matches!(
        get_ranked_stats_by_puuid(200, "{}"),
        Err(AuthError::MalformedResponse)
    ));
}

#[test]
fn solo_queue_entry_picks_the_first_solo_entry() {
    let entries = get_ranked_stats_by_puuid(200, league_body()).expect("league body parses");
    let solo = solo_queue_entry(&entries).expect("a solo-queue entry exists");
    assert_eq!(solo.league_id, "L2");
    let none: Vec<LeagueV4> = Vec::new();
    assert!(solo_queue_entry(&none).is_none());
}

#[test]
fn education_courses_read_newest_first() {
    let text = "[{\"course_code\":\"C1\",\"course_name\":\"Old\",\"year\":\"1\",\"grade\":\"A\"},\
                {\"course_code\":\"C2\",\"course_name\":\"New\",\"year\":\"2\",\"grade\":\"B\"}]";
    let courses = education_courses(text).expect("course file parses");
    assert_eq!(courses.len(), 2);
    assert_eq!(courses[0].course_code, "C2");
    assert_eq!(courses[1].course_code, "C1");
}

#[test]
fn education_courses_require_well_formed_rows() {
    assert!(education_courses("{}").is_none());
    assert!(education_courses("not json").is_none());
    let text = "[{\"course_code\":\"C1\"}]";
    assert!(education_courses(text).is_none());
}
