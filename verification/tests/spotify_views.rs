use portfolio_core::auth::{AuthError, SpotifyAuthCredentials};
use portfolio_core::json::Json;
use portfolio_core::spotify::{
    currently_playing_widget, get_current_track, get_recently_played, get_top_items,
    spotify_authorise, top_artists, top_items_response, top_tracks,
};

#[test]
fn no_content_is_nothing_playing() {
    // a 204 answer maps to the defined nothing-playing values,
    // never to a malformed-response error
    let data = get_current_track(204, "").expect("204 must not be an error");
    let view = currently_playing_widget(&data);
    assert_eq!(view.track_name, "Nothing playing...");
    assert_eq!(view.progress_ms, -1);
    assert_eq!(view.duration_ms, -1);
    assert_eq!(view.image_url, "/static/pause.jpg");
    assert_eq!(view.artist_name, "");
}

#[test]
fn playing_track_is_projected() {
    let body = "{\"progress_ms\":1000,\"item\":{\"name\":\"Song\",\"duration_ms\":200000,\
                \"album\":{\"images\":[{\"url\":\"http://img/0\"},{\"url\":\"http://img/1\"}],\
                \"artists\":[{\"name\":\"Artist\"}]}}}";
    let data = get_current_track(200, body).expect("success body parses");
    let view = currently_playing_widget(&data);
    assert_eq!(view.track_name, "Song");
    assert_eq!(view.progress_ms, 1000);
    assert_eq!(view.duration_ms, 200000);
    assert_eq!(view.image_url, "http://img/0");
    assert_eq!(view.artist_name, "Artist");
}

#[test]
fn missing_nested_fields_fall_back_to_defaults() {
    // a 200 body without album images still renders, with the
    // documented default for the image
    let body = "{\"progress_ms\":5,\"item\":{\"name\":\"Song\",\"duration_ms\":9,\"album\":{}}}";
    let data = get_current_track(200, body).expect("success body parses");
    let view = currently_playing_widget(&data);
    assert_eq!(view.track_name, "Song");
    assert_eq!(view.image_url, "/static/pause.jpg");
    assert_eq!(view.artist_name, "");
    // a fractional progress value is not an integer: the default holds
    let body = "{\"progress_ms\":12.5,\"item\":{\"name\":\"Song\"}}";
    let data = get_current_track(200, body).expect("success body parses");
    let view = currently_playing_widget(&data);
    assert_eq!(view.progress_ms, -1);
    assert_eq!(view.duration_ms, -1);
}

#[test]
fn current_track_statuses() {
    match get_current_track(502, "gateway down") {
        Err(AuthError::UpstreamRejected(b)) => assert_eq!(b, "gateway down"),
        _ => panic!("non-success status must be an upstream rejection"),
    }
    assert!(matches!(
        get_current_track(200, "not json"),
        Err(AuthError::MalformedResponse)
    ));
}

#[test]
fn authorise_url_is_form_encoded() {
    let creds = SpotifyAuthCredentials {
        client_id: "abc123".to_string(),
        client_secret: "unused".to_string(),
    };
    assert_eq!(
        spotify_authorise(&creds),
        "https://accounts.spotify.com/authorize?response_type=code&client_id=abc123\
         &scope=user-read-currently-playing+user-top-read+user-read-recently-played\
         &redirect_uri=https%3A%2F%2Fusmaanwahab.co.uk%2Fcallback"
    );
}

#[test]
fn top_items_request_shape() {
    let req = get_top_items("tracks", "short_term", 10, 0);
    assert_eq!(req.url, "https://api.spotify.com/v1/me/top/tracks");
    assert_eq!(req.params[0].0, "term");
    assert_eq!(req.params[0].1, "short_term");
    assert_eq!(req.params[1].0, "limit");
    assert_eq!(req.params[1].1, "10");
    assert_eq!(req.params[2].0, "offset");
    assert_eq!(req.params[2].1, "0");
}

#[test]
fn top_tracks_validates_term() {
    assert_eq!(
        top_tracks("weekly", None, None).unwrap_err(),
        "Term is not valid."
    );
    let req = top_tracks("long_term", None, None).expect("valid term");
    assert_eq!(req.url, "https://api.spotify.com/v1/me/top/tracks");
    assert_eq!(req.params[1].1, "10");
    assert_eq!(req.params[2].1, "0");
    let req = top_tracks("short_term", Some(25), Some(5)).expect("valid term");
    assert_eq!(req.params[1].1, "25");
    assert_eq!(req.params[2].1, "5");
}

#[test]
fn top_artists_validates_term() {
    assert_eq!(
        top_artists("sometimes", None, None).unwrap_err(),
        "Term is not valid."
    );
    let req = top_artists("medium_term", None, None).expect("valid term");
    assert_eq!(req.url, "https://api.spotify.com/v1/me/top/artists");
}

#[test]
fn top_items_response_statuses() {
    match top_items_response(403, "forbidden") {
        Err(AuthError::UpstreamRejected(b)) => assert_eq!(b, "forbidden"),
        _ => panic!("non-success status must be an upstream rejection"),
    }
    let v = top_items_response(200, "{\"items\":[]}").expect("success body parses");
    assert!(matches!(v.get("items"), Some(Json::Arr(_))));
}

#[test]
fn recently_played_projects_items() {
    let body = "{\"items\":[\
        {\"track\":{\"name\":\"One\",\
          \"album\":{\"images\":[{\"url\":\"a\"},{\"url\":\"b\"},{\"url\":\"c\"}]},\
          \"artists\":[{\"name\":\"A1\"}]}},\
        {\"track\":{\"name\":\"Two\"}}\
    ]}";
    let tracks = get_recently_played(200, body).expect("success body parses");
    assert_eq!(tracks.len(), 2);
    assert_eq!(tracks[0].name, "One");
    assert_eq!(tracks[0].image_url, "c");
    assert_eq!(tracks[0].artist, "A1");
    // the second item misses everything nested: empty-string defaults
    assert_eq!(tracks[1].name, "Two");
    assert_eq!(tracks[1].image_url, "");
    assert_eq!(tracks[1].artist, "");
}

#[test]
fn recently_played_without_items_is_empty() {
    let tracks = get_recently_played(200, "{}").expect("success body parses");
    assert_eq!(tracks.len(), 0);
    let tracks = get_recently_played(200, "{\"items\":true}").expect("non-array items");
    assert_eq!(tracks.len(), 0);
}

#[test]
fn recently_played_statuses() {
    match get_recently_played(500, "oops") {
        Err(AuthError::UpstreamRejected(b)) => assert_eq!(b, "oops"),
        _ => panic!("non-success status must be an upstream rejection"),
    }
    assert!(matches!(
        get_recently_played(200, "]["),
        Err(AuthError::MalformedResponse)
    ));
}
