//! The music-provider accessors: what each endpoint's response means
//! for the page that renders it. Each accessor here takes the HTTP
//! status and body that the web layer received and projects them,
//! field by field with documented defaults, into the flat values the
//! templates need.

use vstd::prelude::*;

use crate::auth::{spec_params_view, spec_redirect_uri, AuthError, SpotifyAuthCredentials};
use crate::json::{
    spec_dec_digits, spec_get, spec_index, spec_parse_json, Json, JsonModel,
};
use crate::urlenc::spec_query;

verus! {

/// A recently played track, as the page shows it.
pub struct Track {
    pub name: String,
    pub image_url: String,
    pub artist: String,
}

/// The mathematical shape of a track row.
pub struct TrackModel {
    pub name: Seq<char>,
    pub image_url: Seq<char>,
    pub artist: Seq<char>,
}

impl View for Track {
    type V = TrackModel;

    open spec fn view(&self) -> TrackModel {
        TrackModel { name: self.name@, image_url: self.image_url@, artist: self.artist@ }
    }
}

/// The view of an optional reference into a JSON tree.
pub open spec fn spec_opt_view(o: Option<&Json>) -> Option<JsonModel> {
    match o {
        Some(v) => Some(v@),
        None => None,
    }
}

/// Member lookup carried through an optional value.
pub open spec fn spec_get_opt(o: Option<JsonModel>, key: Seq<char>) -> Option<JsonModel> {
    match o {
        Some(v) => spec_get(v, key),
        None => None,
    }
}

/// Array indexing carried through an optional value.
pub open spec fn spec_index_opt(o: Option<JsonModel>, i: int) -> Option<JsonModel> {
    match o {
        Some(v) => spec_index(v, i),
        None => None,
    }
}

/// The string a field denotes, or `d` when it is absent or not a
/// string.
pub open spec fn spec_str_default(o: Option<JsonModel>, d: Seq<char>) -> Seq<char> {
    match o {
        Some(JsonModel::Str(s)) => s,
        _ => d,
    }
}

/// The integer a field denotes, or `d` when it is absent or not an
/// integer in `i64` range.
pub open spec fn spec_int_default(o: Option<JsonModel>, d: int) -> int {
    match o {
        Some(JsonModel::Int(n)) => n,
        _ => d,
    }
}

fn opt_get<'a>(o: Option<&'a Json>, key: &str) -> (r: Option<&'a Json>)
    ensures
        spec_opt_view(r) == spec_get_opt(spec_opt_view(o), key@),
{
    match o {
        Some(v) => v.get(key),
        None => None,
    }
}

fn opt_at<'a>(o: Option<&'a Json>, i: usize) -> (r: Option<&'a Json>)
    ensures
        spec_opt_view(r) == spec_index_opt(spec_opt_view(o), i as int),
{
    match o {
        Some(v) => v.at(i),
        None => None,
    }
}

fn str_default(o: Option<&Json>, d: &str) -> (r: String)
    ensures
        r@ == spec_str_default(spec_opt_view(o), d@),
{
    match o {
        Some(v) => match v.as_str() {
            Some(s) => s.clone(),
            None => String::from_str(d),
        },
        None => String::from_str(d),
    }
}

fn int_default(o: Option<&Json>, d: i64) -> (r: i64)
    ensures
        r as int == spec_int_default(spec_opt_view(o), d as int),
{
    match o {
        Some(v) => match v.as_i64() {
            Some(n) => n,
            None => d,
        },
        None => d,
    }
}

/// The scopes the site asks the provider for.
pub open spec fn spec_authorize_scope() -> Seq<char> {
    "user-read-currently-playing user-top-read user-read-recently-played"@
}

/// The query of the user-consent redirect.
pub open spec fn spec_authorize_params(client_id: Seq<char>) -> Seq<(Seq<char>, Seq<char>)> {
    seq![
        ("response_type"@, "code"@),
        ("client_id"@, client_id),
        ("scope"@, spec_authorize_scope()),
        ("redirect_uri"@, spec_redirect_uri()),
    ]
}

/// The provider's user-consent URL for these credentials.
pub open spec fn spec_authorize_url(client_id: Seq<char>) -> Seq<char> {
    "https://accounts.spotify.com/authorize?"@ + spec_query(spec_authorize_params(client_id))
}

/// The URL a user is redirected to for the one-time consent step.
pub fn spotify_authorise(creds: &SpotifyAuthCredentials) -> (r: String)
    ensures
        r@ == spec_authorize_url(creds.client_id@),
{
    let mut params: Vec<(String, String)> = Vec::new();
    params.push((String::from_str("response_type"), String::from_str("code")));
    params.push((String::from_str("client_id"), creds.client_id.clone()));
    params.push(
        (
            String::from_str("scope"),
            String::from_str("user-read-currently-playing user-top-read user-read-recently-played"),
        ),
    );
    params.push((String::from_str("redirect_uri"), String::from_str(
        "https://usmaanwahab.co.uk/callback",
    )));
    proof {
        assert(spec_params_view(params@) =~~= spec_authorize_params(creds.client_id@));
    }
    let query = crate::urlenc::form_urlencode(&params);
    let mut out = String::from_str("https://accounts.spotify.com/authorize?");
    out.append(query.as_str());
    out
}

/// What the currently-playing widget shows.
pub struct CurrentlyPlaying {
    pub track_name: String,
    pub progress_ms: i64,
    pub duration_ms: i64,
    pub image_url: String,
    pub artist_name: String,
}

/// The mathematical shape of the widget's values.
pub struct CurrentlyPlayingModel {
    pub track_name: Seq<char>,
    pub progress_ms: int,
    pub duration_ms: int,
    pub image_url: Seq<char>,
    pub artist_name: Seq<char>,
}

impl View for CurrentlyPlaying {
    type V = CurrentlyPlayingModel;

    open spec fn view(&self) -> CurrentlyPlayingModel {
        CurrentlyPlayingModel {
            track_name: self.track_name@,
            progress_ms: self.progress_ms as int,
            duration_ms: self.duration_ms as int,
            image_url: self.image_url@,
            artist_name: self.artist_name@,
        }
    }
}

/// Field-by-field projection of a playback-state object, each missing
/// or mistyped field replaced by its documented default.
pub open spec fn spec_currently_playing_of(v: JsonModel) -> CurrentlyPlayingModel {
    let item = spec_get(v, "item"@);
    let album = spec_get_opt(item, "album"@);
    CurrentlyPlayingModel {
        track_name: spec_str_default(spec_get_opt(item, "name"@), "Nothing playing..."@),
        progress_ms: spec_int_default(spec_get(v, "progress_ms"@), -1),
        duration_ms: spec_int_default(spec_get_opt(item, "duration_ms"@), -1),
        image_url: spec_str_default(
            spec_get_opt(spec_index_opt(spec_get_opt(album, "images"@), 0), "url"@),
            "/static/pause.jpg"@,
        ),
        artist_name: spec_str_default(
            spec_get_opt(spec_index_opt(spec_get_opt(album, "artists"@), 0), "name"@),
            ""@,
        ),
    }
}

/// The values shown when nothing is playing: every field at its
/// default.
pub open spec fn spec_nothing_playing() -> CurrentlyPlayingModel {
    CurrentlyPlayingModel {
        track_name: "Nothing playing..."@,
        progress_ms: -1,
        duration_ms: -1,
        image_url: "/static/pause.jpg"@,
        artist_name: ""@,
    }
}

/// Law: the empty playback state, which a `204` answer stands for,
/// projects to the nothing-playing values; it is never an error.
pub proof fn lemma_no_content_is_nothing_playing()
    ensures
        spec_currently_playing_of(JsonModel::Obj(Seq::empty())) == spec_nothing_playing(),
{
}

/// What the currently-playing endpoint's answer means: `204` is the
/// empty playback state (nothing playing), any other success carries a
/// JSON body, and any other status is the provider's rejection.
pub fn get_current_track(status: u16, body: &str) -> (r: Result<Json, AuthError>)
    ensures
        status == 204 ==> (r matches Ok(v) && v@ == JsonModel::Obj(Seq::empty())),
        status != 204 && crate::auth::spec_is_success(status) ==> match r {
            Ok(v) => spec_parse_json(body@) == Some(v@),
            Err(e) => e is MalformedResponse && spec_parse_json(body@) is None,
        },
        status != 204 && !crate::auth::spec_is_success(status) ==> (r matches Err(
            AuthError::UpstreamRejected(b),
        ) && b@ == body@),
{
    if status == 204 {
        let ms: Vec<(String, Json)> = Vec::new();
        let v = Json::Obj(ms);
        proof {
            assert(crate::json::spec_members_view(ms@) =~= Seq::<(Seq<char>, JsonModel)>::empty());
            assert(v@ == JsonModel::Obj(Seq::empty()));
        }
        return Ok(v);
    }
    if !(200 <= status && status < 300) {
        return Err(AuthError::UpstreamRejected(String::from_str(body)));
    }
    match crate::json::parse_json(body) {
        Some(v) => Ok(v),
        None => Err(AuthError::MalformedResponse),
    }
}

/// Projects a playback-state object into the widget's values.
pub fn currently_playing_widget(data: &Json) -> (r: CurrentlyPlaying)
    ensures
        r@ == spec_currently_playing_of(data@),
{
    let item = data.get("item");
    let album = opt_get(item, "album");
    let track_name = str_default(opt_get(item, "name"), "Nothing playing...");
    let progress_ms = int_default(data.get("progress_ms"), -1);
    let duration_ms = int_default(opt_get(item, "duration_ms"), -1);
    let image_url = str_default(
        opt_get(opt_at(opt_get(album, "images"), 0), "url"),
        "/static/pause.jpg",
    );
    let artist_name = str_default(opt_get(opt_at(opt_get(album, "artists"), 0), "name"), "");
    CurrentlyPlaying { track_name, progress_ms, duration_ms, image_url, artist_name }
}

/// A top-items request, ready for an HTTP client: the endpoint URL and
/// the query parameters.
#[derive(Debug)]
pub struct TopItemsRequest {
    pub url: String,
    pub params: Vec<(String, String)>,
}

/// The top-items endpoint for a kind of item.
pub open spec fn spec_top_items_url(item_type: Seq<char>) -> Seq<char> {
    "https://api.spotify.com/v1/me/top/"@ + item_type
}

/// The query of a top-items request.
pub open spec fn spec_top_items_params(term: Seq<char>, limit: int, offset: int) -> Seq<
    (Seq<char>, Seq<char>),
> {
    seq![
        ("term"@, term),
        ("limit"@, spec_dec_digits(limit as nat)),
        ("offset"@, spec_dec_digits(offset as nat)),
    ]
}

/// Builds the top-items request for a kind of item, a term, and a page.
pub fn get_top_items(item_type: &str, term: &str, limit: u16, offset: u16) -> (r: TopItemsRequest)
    ensures
        r.url@ == spec_top_items_url(item_type@),
        spec_params_view(r.params@) == spec_top_items_params(term@, limit as int, offset as int),
{
    let mut url = String::from_str("https://api.spotify.com/v1/me/top/");
    url.append(item_type);
    let mut params: Vec<(String, String)> = Vec::new();
    params.push((String::from_str("term"), String::from_str(term)));
    params.push((String::from_str("limit"), crate::json::uint_string(limit as u64)));
    params.push((String::from_str("offset"), crate::json::uint_string(offset as u64)));
    proof {
        assert(spec_params_view(params@) =~~= spec_top_items_params(
            term@,
            limit as int,
            offset as int,
        ));
    }
    TopItemsRequest { url, params }
}

/// What a top-items answer means: a success body must be JSON; any
/// other status is the provider's rejection, with the body kept.
pub fn top_items_response(status: u16, body: &str) -> (r: Result<Json, AuthError>)
    ensures
        crate::auth::spec_is_success(status) ==> match r {
            Ok(v) => spec_parse_json(body@) == Some(v@),
            Err(e) => e is MalformedResponse && spec_parse_json(body@) is None,
        },
        !crate::auth::spec_is_success(status) ==> (r matches Err(AuthError::UpstreamRejected(b))
            && b@ == body@),
{
    if !(200 <= status && status < 300) {
        return Err(AuthError::UpstreamRejected(String::from_str(body)));
    }
    match crate::json::parse_json(body) {
        Some(v) => Ok(v),
        None => Err(AuthError::MalformedResponse),
    }
}

/// Whether a top-items term is one the provider understands.
pub open spec fn spec_valid_term(t: Seq<char>) -> bool {
    t == "short_term"@ || t == "medium_term"@ || t == "long_term"@
}

/// The top-tracks page: a valid term gives the request for the
/// `tracks` endpoint with the page's defaults; any other term is
/// answered with the page's rejection text.
pub fn top_tracks(term: &str, limit: Option<u16>, offset: Option<u16>) -> (r: Result<
    TopItemsRequest,
    String,
>)
    ensures
        !spec_valid_term(term@) ==> (r matches Err(m) && m@ == "Term is not valid."@),
        spec_valid_term(term@) ==> (r matches Ok(t) && t.url@ == spec_top_items_url("tracks"@)
            && spec_params_view(t.params@) == spec_top_items_params(
            term@,
            (match limit {
                Some(l) => l,
                None => 10u16,
            }) as int,
            (match offset {
                Some(o) => o,
                None => 0u16,
            }) as int,
        )),
{
    if !(crate::json::str_eq(term, "short_term") || crate::json::str_eq(term, "medium_term")
        || crate::json::str_eq(term, "long_term")) {
        return Err(String::from_str("Term is not valid."));
    }
    let l = match limit {
        Some(l) => l,
        None => 10,
    };
    let o = match offset {
        Some(o) => o,
        None => 0,
    };
    Ok(get_top_items("tracks", term, l, o))
}

/// The top-artists page: as the top-tracks page, for the `artists`
/// endpoint.
pub fn top_artists(term: &str, limit: Option<u16>, offset: Option<u16>) -> (r: Result<
    TopItemsRequest,
    String,
>)
    ensures
        !spec_valid_term(term@) ==> (r matches Err(m) && m@ == "Term is not valid."@),
        spec_valid_term(term@) ==> (r matches Ok(t) && t.url@ == spec_top_items_url("artists"@)
            && spec_params_view(t.params@) == spec_top_items_params(
            term@,
            (match limit {
                Some(l) => l,
                None => 10u16,
            }) as int,
            (match offset {
                Some(o) => o,
                None => 0u16,
            }) as int,
        )),
{
    if !(crate::json::str_eq(term, "short_term") || crate::json::str_eq(term, "medium_term")
        || crate::json::str_eq(term, "long_term")) {
        return Err(String::from_str("Term is not valid."));
    }
    let l = match limit {
        Some(l) => l,
        None => 10,
    };
    let o = match offset {
        Some(o) => o,
        None => 0,
    };
    Ok(get_top_items("artists", term, l, o))
}

/// Field-by-field projection of one recently-played item, each missing
/// or mistyped field replaced by the empty string.
pub open spec fn spec_track_of(item: JsonModel) -> TrackModel {
    let track = spec_get(item, "track"@);
    TrackModel {
        name: spec_str_default(spec_get_opt(track, "name"@), ""@),
        image_url: spec_str_default(
            spec_get_opt(
                spec_index_opt(spec_get_opt(spec_get_opt(track, "album"@), "images"@), 2),
                "url"@,
            ),
            ""@,
        ),
        artist: spec_str_default(
            spec_get_opt(spec_index_opt(spec_get_opt(track, "artists"@), 0), "name"@),
            ""@,
        ),
    }
}

/// The view of a track list.
pub open spec fn spec_tracks_view(ts: Seq<Track>) -> Seq<TrackModel> {
    Seq::new(ts.len(), |i: int| ts[i]@)
}

/// The track rows of a recently-played response: one per element of
/// its `items` array, and none when that array is missing or not an
/// array.
pub open spec fn spec_recent_tracks_of(v: JsonModel) -> Seq<TrackModel> {
    match spec_get(v, "items"@) {
        Some(JsonModel::Arr(a)) => Seq::new(
            a.len(),
            |i: int|
                if 0 <= i < a.len() {
                    spec_track_of(a[i])
                } else {
                    spec_nothing_track()
                },
        ),
        _ => Seq::empty(),
    }
}

/// The row an item with nothing readable in it projects to.
pub open spec fn spec_nothing_track() -> TrackModel {
    TrackModel { name: ""@, image_url: ""@, artist: ""@ }
}

fn track_of(item: &Json) -> (r: Track)
    ensures
        r@ == spec_track_of(item@),
{
    let track = item.get("track");
    let album = opt_get(track, "album");
    let name = str_default(opt_get(track, "name"), "");
    let image_url = str_default(opt_get(opt_at(opt_get(album, "images"), 2), "url"), "");
    let artist = str_default(opt_get(opt_at(opt_get(track, "artists"), 0), "name"), "");
    Track { name, image_url, artist }
}

/// What the recently-played endpoint's answer means: a success body
/// must be JSON, whose `items` become the page's track rows; any other
/// status is the provider's rejection, with the body kept.
pub fn get_recently_played(status: u16, body: &str) -> (r: Result<Vec<Track>, AuthError>)
    ensures
        crate::auth::spec_is_success(status) ==> match r {
            Ok(ts) => spec_parse_json(body@) matches Some(v) && spec_tracks_view(ts@)
                == spec_recent_tracks_of(v),
            Err(e) => e is MalformedResponse && spec_parse_json(body@) is None,
        },
        !crate::auth::spec_is_success(status) ==> (r matches Err(AuthError::UpstreamRejected(b))
            && b@ == body@),
{
    if !(200 <= status && status < 300) {
        return Err(AuthError::UpstreamRejected(String::from_str(body)));
    }
    let v = match crate::json::parse_json(body) {
        Some(v) => v,
        None => {
            return Err(AuthError::MalformedResponse);
        },
    };
    let mut tracks: Vec<Track> = Vec::new();
    match v.get("items") {
        Some(items) => match items.as_arr() {
            Some(a) => {
                let n = a.len();
                for k in 0..n
                    invariant
                        n == a@.len(),
                        spec_get(v@, "items"@) == Some(
                            JsonModel::Arr(crate::json::spec_elems_view(a@)),
                        ),
                        spec_tracks_view(tracks@) =~= spec_recent_tracks_of(v@).take(k as int),
                        spec_recent_tracks_of(v@).len() == n,
                {
                    let t = track_of(&a[k]);
                    let ghost pre = tracks@;
                    tracks.push(t);
                    proof {
                        assert(crate::json::spec_elems_view(a@)[k as int] == a@[k as int]@);
                        assert(spec_recent_tracks_of(v@)[k as int] == spec_track_of(a@[k as int]@));
                        assert(tracks@ == pre.push(t));
                        assert(spec_tracks_view(pre).len() == pre.len());
                        assert(spec_recent_tracks_of(v@).take(k as int).len() == k as int);
                        assert(pre.len() == k as int);
                        assert(tracks@.len() == k + 1);
                        assert forall|j: int| 0 <= j < k + 1 implies spec_tracks_view(tracks@)[j]
                            == spec_recent_tracks_of(v@).take(k + 1)[j] by {
                            assert(spec_tracks_view(tracks@)[j] == tracks@[j]@);
                            if j < k {
                                assert(tracks@[j] == pre[j]);
                                assert(spec_tracks_view(pre)[j] == pre[j]@);
                                assert(spec_tracks_view(pre)[j] == spec_recent_tracks_of(
                                    v@,
                                ).take(k as int)[j]);
                            } else {
                                assert(tracks@[j] == t);
                            }
                        }
                        assert(spec_tracks_view(tracks@) =~= spec_recent_tracks_of(v@).take(k + 1));
                    }
                }
                proof {
                    assert(spec_recent_tracks_of(v@).take(n as int) =~= spec_recent_tracks_of(v@));
                    assert(spec_tracks_view(tracks@) =~= spec_recent_tracks_of(v@));
                }
                Ok(tracks)
            },
            None => {
                proof {
                    assert(spec_tracks_view(tracks@) =~= spec_recent_tracks_of(v@));
                }
                Ok(tracks)
            },
        },
        None => {
            proof {
                assert(spec_tracks_view(tracks@) =~= spec_recent_tracks_of(v@));
            }
            Ok(tracks)
        },
    }
}

} // verus!
