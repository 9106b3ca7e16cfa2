//! The OAuth2 token lifecycle: the cached token record, the refresh
//! decision, the merge of a refresh response with the cached record,
//! and the construction of token-endpoint requests under HTTP Basic
//! credentials.

use base64::Engine;
use vstd::prelude::*;
use vstd::utf8::encode_utf8;

use crate::json::{
    spec_get, spec_json_text, spec_member_lookup, spec_members_view, spec_parse_json, Json,
    JsonModel,
};

verus! {

/// Client id and secret for the provider's token endpoint.
pub struct SpotifyAuthCredentials {
    pub client_id: String,
    pub client_secret: String,
}

/// The token record persisted as the sole content of the cache file.
/// Its issue time is the cache file's modification time, kept outside
/// the record itself.
pub struct SpotifyAuthResponse {
    pub access_token: String,
    pub token_type: String,
    pub scope: Option<String>,
    pub expires_in: u16,
    pub refresh_token: Option<String>,
}

/// The mathematical shape of a token record.
pub struct AuthRecord {
    pub access_token: Seq<char>,
    pub token_type: Seq<char>,
    pub scope: Option<Seq<char>>,
    pub expires_in: int,
    pub refresh_token: Option<Seq<char>>,
}

impl View for SpotifyAuthResponse {
    type V = AuthRecord;

    open spec fn view(&self) -> AuthRecord {
        AuthRecord {
            access_token: self.access_token@,
            token_type: self.token_type@,
            scope: match self.scope {
                Some(s) => Some(s@),
                None => None,
            },
            expires_in: self.expires_in as int,
            refresh_token: match self.refresh_token {
                Some(s) => Some(s@),
                None => None,
            },
        }
    }
}

/// Why a token operation failed: the caller must reauthorize, the
/// provider could not be reached, the provider answered with a
/// non-success status (body kept for diagnostics), or its body was
/// not the JSON shape expected.
#[derive(Debug)]
pub enum AuthError {
    NotAuthenticated,
    UpstreamUnavailable,
    UpstreamRejected(String),
    MalformedResponse,
}

impl AuthError {
    /// The text a page shows for this failure.
    pub open spec fn spec_message(&self) -> Seq<char> {
        match self {
            AuthError::NotAuthenticated => "not authenticated"@,
            AuthError::UpstreamUnavailable => "upstream unavailable"@,
            AuthError::UpstreamRejected(body) => body@,
            AuthError::MalformedResponse => "malformed response"@,
        }
    }

    /// The text a page shows for this failure.
    pub fn message(&self) -> (m: String)
        ensures
            m@ == self.spec_message(),
    {
        match self {
            AuthError::NotAuthenticated => String::from_str("not authenticated"),
            AuthError::UpstreamUnavailable => String::from_str("upstream unavailable"),
            AuthError::UpstreamRejected(body) => body.clone(),
            AuthError::MalformedResponse => String::from_str("malformed response"),
        }
    }
}

/// A token issued at `mtime` with lifetime `expires_in` seconds is fresh
/// at `now` exactly when `now` lies strictly before the expiry instant.
pub open spec fn spec_is_fresh(now: u64, mtime: u64, expires_in: u16) -> bool {
    (now as int) < mtime + expires_in
}

/// Whether a cached token obtained at `mtime` with lifetime `expires_in`
/// is still valid at `now` (strictly before its expiry instant).
pub fn is_token_fresh(now: u64, mtime: u64, expires_in: u16) -> (r: bool)
    ensures
        r == spec_is_fresh(now, mtime, expires_in),
{
    (now as u128) < (mtime as u128) + (expires_in as u128)
}

/// What the refresher decides to do, given the cached record and the
/// clock.
pub enum RefreshDecision {
    /// The cached record is still valid: make no network call.
    UseCached,
    /// The record expired: issue exactly one token-endpoint request
    /// carrying this refresh token.
    Refresh(String),
    /// The record expired and holds no refresh token: the user must
    /// go through the authorization-code flow again.
    Reauthorize,
}

/// The mathematical shape of a refresh decision.
pub enum RefreshDecisionModel {
    UseCached,
    Refresh(Seq<char>),
    Reauthorize,
}

impl View for RefreshDecision {
    type V = RefreshDecisionModel;

    open spec fn view(&self) -> RefreshDecisionModel {
        match self {
            RefreshDecision::UseCached => RefreshDecisionModel::UseCached,
            RefreshDecision::Refresh(t) => RefreshDecisionModel::Refresh(t@),
            RefreshDecision::Reauthorize => RefreshDecisionModel::Reauthorize,
        }
    }
}

/// The refresher's policy: keep a fresh record; once `now` reaches the
/// expiry instant `mtime + expires_in`, exchange the stored refresh
/// token; without one, demand reauthorization.
pub open spec fn spec_refresh_plan(rec: AuthRecord, mtime: u64, now: u64) -> RefreshDecisionModel {
    if (now as int) < mtime + rec.expires_in {
        RefreshDecisionModel::UseCached
    } else {
        match rec.refresh_token {
            Some(t) => RefreshDecisionModel::Refresh(t),
            None => RefreshDecisionModel::Reauthorize,
        }
    }
}

/// Decides whether the cached record must be refreshed at `now`, given
/// the cache file's modification time `mtime`.
pub fn refresh_plan(cached: &SpotifyAuthResponse, mtime: u64, now: u64) -> (d: RefreshDecision)
    ensures
        d@ == spec_refresh_plan(cached@, mtime, now),
{
    if is_token_fresh(now, mtime, cached.expires_in) {
        RefreshDecision::UseCached
    } else {
        match &cached.refresh_token {
            Some(t) => RefreshDecision::Refresh(t.clone()),
            None => RefreshDecision::Reauthorize,
        }
    }
}

/// An optional string field of a record object: absent or `null` is an
/// absent value, a string is a present one, and any other shape is a
/// malformed record.
pub open spec fn spec_opt_str_field(v: JsonModel, key: Seq<char>) -> Option<Option<Seq<char>>> {
    match spec_get(v, key) {
        None => Some(None),
        Some(JsonModel::Null) => Some(None),
        Some(JsonModel::Str(s)) => Some(Some(s)),
        Some(_) => None,
    }
}

/// The token record an object denotes, if it has a string
/// `access_token`, a string `token_type`, an `expires_in` integer that
/// fits the record's field, and well-shaped optional `scope` and
/// `refresh_token` fields.
pub open spec fn spec_auth_record_of(v: JsonModel) -> Option<AuthRecord> {
    match (spec_get(v, "access_token"@), spec_get(v, "token_type"@), spec_get(v, "expires_in"@)) {
        (Some(JsonModel::Str(at)), Some(JsonModel::Str(tt)), Some(JsonModel::Int(ei))) => if 0 <= ei
            <= 65535 {
            match (spec_opt_str_field(v, "scope"@), spec_opt_str_field(v, "refresh_token"@)) {
                (Some(sc), Some(rt)) => Some(
                    AuthRecord {
                        access_token: at,
                        token_type: tt,
                        scope: sc,
                        expires_in: ei,
                        refresh_token: rt,
                    },
                ),
                _ => None,
            }
        } else {
            None
        },
        _ => None,
    }
}

/// The object under which a token record is persisted: every field
/// written out, absent options as `null`.
pub open spec fn spec_auth_json(m: AuthRecord) -> JsonModel {
    JsonModel::Obj(
        seq![
            ("access_token"@, JsonModel::Str(m.access_token)),
            ("token_type"@, JsonModel::Str(m.token_type)),
            (
                "scope"@,
                match m.scope {
                    Some(s) => JsonModel::Str(s),
                    None => JsonModel::Null,
                },
            ),
            ("expires_in"@, JsonModel::Int(m.expires_in)),
            (
                "refresh_token"@,
                match m.refresh_token {
                    Some(s) => JsonModel::Str(s),
                    None => JsonModel::Null,
                },
            ),
        ],
    )
}

fn opt_str_field(v: &Json, key: &str) -> (r: Option<Option<String>>)
    ensures
        match r {
            Some(None) => spec_opt_str_field(v@, key@) == Some(None::<Seq<char>>),
            Some(Some(s)) => spec_opt_str_field(v@, key@) == Some(Some(s@)),
            None => spec_opt_str_field(v@, key@) is None,
        },
{
    match v.get(key) {
        None => Some(None),
        Some(f) => match f {
            Json::Null => Some(None),
            Json::Str(s) => Some(Some(s.clone())),
            _ => None,
        },
    }
}

/// Reads a token record out of cache-file or token-endpoint text:
/// exactly the texts that parse as JSON and carry the record's fields
/// give a record; everything else is a malformed response.
pub fn parse_auth_response(text: &str) -> (r: Result<SpotifyAuthResponse, AuthError>)
    ensures
        match r {
            Ok(rec) => spec_parse_json(text@) matches Some(v) && spec_auth_record_of(v) == Some(
                rec@,
            ),
            Err(e) => e is MalformedResponse && match spec_parse_json(text@) {
                Some(v) => spec_auth_record_of(v) is None,
                None => true,
            },
        },
{
    let v = match crate::json::parse_json(text) {
        Some(v) => v,
        None => {
            return Err(AuthError::MalformedResponse);
        },
    };
    let at = match v.get("access_token") {
        Some(f) => match f.as_str() {
            Some(s) => s.clone(),
            None => {
                return Err(AuthError::MalformedResponse);
            },
        },
        None => {
            return Err(AuthError::MalformedResponse);
        },
    };
    let tt = match v.get("token_type") {
        Some(f) => match f.as_str() {
            Some(s) => s.clone(),
            None => {
                return Err(AuthError::MalformedResponse);
            },
        },
        None => {
            return Err(AuthError::MalformedResponse);
        },
    };
    let ei_i64 = match v.get("expires_in") {
        Some(f) => match f.as_i64() {
            Some(n) => n,
            None => {
                return Err(AuthError::MalformedResponse);
            },
        },
        None => {
            return Err(AuthError::MalformedResponse);
        },
    };
    if ei_i64 < 0 || ei_i64 > 65535 {
        return Err(AuthError::MalformedResponse);
    }
    let sc = match opt_str_field(&v, "scope") {
        Some(o) => o,
        None => {
            return Err(AuthError::MalformedResponse);
        },
    };
    let rt = match opt_str_field(&v, "refresh_token") {
        Some(o) => o,
        None => {
            return Err(AuthError::MalformedResponse);
        },
    };
    Ok(
        SpotifyAuthResponse {
            access_token: at,
            token_type: tt,
            scope: sc,
            expires_in: ei_i64 as u16,
            refresh_token: rt,
        },
    )
}

/// The cache-file text of a token record.
pub fn auth_cache_text(rec: &SpotifyAuthResponse) -> (r: String)
    ensures
        r@ == spec_json_text(spec_auth_json(rec@)),
{
    let mut ms: Vec<(String, Json)> = Vec::new();
    ms.push((String::from_str("access_token"), Json::Str(rec.access_token.clone())));
    ms.push((String::from_str("token_type"), Json::Str(rec.token_type.clone())));
    ms.push(
        (
            String::from_str("scope"),
            match &rec.scope {
                Some(s) => Json::Str(s.clone()),
                None => Json::Null,
            },
        ),
    );
    ms.push((String::from_str("expires_in"), Json::Int(rec.expires_in as i64)));
    ms.push(
        (
            String::from_str("refresh_token"),
            match &rec.refresh_token {
                Some(s) => Json::Str(s.clone()),
                None => Json::Null,
            },
        ),
    );
    let j = Json::Obj(ms);
    proof {
        assert(spec_members_view(ms@) =~~= spec_auth_json(rec@)->Obj_0);
        assert(j@ =~~= spec_auth_json(rec@));
    }
    j.to_text()
}

/// Law: a record written to the cache is read back unchanged: the
/// persisted object denotes exactly the record it was made from.
pub proof fn lemma_auth_record_round_trip(m: AuthRecord)
    requires
        0 <= m.expires_in <= 65535,
    ensures
        spec_auth_record_of(spec_auth_json(m)) == Some(m),
{
    reveal_strlit("access_token");
    reveal_strlit("token_type");
    reveal_strlit("scope");
    reveal_strlit("expires_in");
    reveal_strlit("refresh_token");
    let v = spec_auth_json(m);
    let ms = v->Obj_0;
    let t1 = ms.drop_first();
    let t2 = t1.drop_first();
    let t3 = t2.drop_first();
    let t4 = t3.drop_first();
    let t5 = t4.drop_first();
    assert(t1[0] == ms[1] && t1[1] == ms[2] && t1[2] == ms[3] && t1[3] == ms[4] && t1.len() == 4);
    assert(t2[0] == ms[2] && t2[1] == ms[3] && t2[2] == ms[4] && t2.len() == 3);
    assert(t3[0] == ms[3] && t3[1] == ms[4] && t3.len() == 2);
    assert(t4[0] == ms[4] && t4.len() == 1);
    assert(t5.len() == 0);
    assert("access_token"@.len() == 12);
    assert("token_type"@.len() == 10);
    assert("scope"@.len() == 5);
    assert("expires_in"@.len() == 10);
    assert("refresh_token"@.len() == 13);
    assert("token_type"@ != "expires_in"@) by {
        assert("token_type"@[0] == 't' && "expires_in"@[0] == 'e');
    }
    assert(spec_get(v, "access_token"@) == Some(ms[0].1));
    assert(spec_member_lookup(ms, "token_type"@) == spec_member_lookup(t1, "token_type"@));
    assert(spec_member_lookup(t1, "token_type"@) == Some(t1[0].1));
    assert(spec_member_lookup(ms, "scope"@) == spec_member_lookup(t1, "scope"@));
    assert(spec_member_lookup(t1, "scope"@) == spec_member_lookup(t2, "scope"@));
    assert(spec_member_lookup(t2, "scope"@) == Some(t2[0].1));
    assert(spec_member_lookup(ms, "expires_in"@) == spec_member_lookup(t1, "expires_in"@));
    assert(spec_member_lookup(t1, "expires_in"@) == spec_member_lookup(t2, "expires_in"@));
    assert(spec_member_lookup(t2, "expires_in"@) == spec_member_lookup(t3, "expires_in"@));
    assert(spec_member_lookup(t3, "expires_in"@) == Some(t3[0].1));
    assert(spec_member_lookup(ms, "refresh_token"@) == spec_member_lookup(t1, "refresh_token"@));
    assert(spec_member_lookup(t1, "refresh_token"@) == spec_member_lookup(t2, "refresh_token"@));
    assert(spec_member_lookup(t2, "refresh_token"@) == spec_member_lookup(t3, "refresh_token"@));
    assert(spec_member_lookup(t3, "refresh_token"@) == spec_member_lookup(t4, "refresh_token"@));
    assert(spec_member_lookup(t4, "refresh_token"@) == Some(t4[0].1));
    assert(spec_get(v, "token_type"@) == Some(ms[1].1));
    assert(spec_get(v, "scope"@) == Some(ms[2].1));
    assert(spec_get(v, "expires_in"@) == Some(ms[3].1));
    assert(spec_get(v, "refresh_token"@) == Some(ms[4].1));
}

/// Law: persistence is lossless. The cache text written for a record
/// parses back to the object it was printed from, and that object
/// denotes exactly the record: nothing of the token survives only in
/// memory.
pub proof fn lemma_cache_text_round_trip(m: AuthRecord)
    requires
        0 <= m.expires_in <= 65535,
    ensures
        spec_parse_json(spec_json_text(spec_auth_json(m))) == Some(spec_auth_json(m)),
        spec_auth_record_of(spec_auth_json(m)) == Some(m),
{
    let ms = spec_auth_json(m)->Obj_0;
    assert(crate::json_laws::spec_printable(spec_auth_json(m))) by {
        assert forall|k: int| 0 <= k < ms.len() implies crate::json_laws::spec_printable(
            #[trigger] ms[k].1,
        ) by {
            assert(0 <= m.expires_in <= 65535);
            if k == 0 {
                assert(ms[k].1 == JsonModel::Str(m.access_token));
            } else if k == 1 {
                assert(ms[k].1 == JsonModel::Str(m.token_type));
            } else if k == 3 {
                assert(ms[k].1 == JsonModel::Int(m.expires_in));
            }
        }
    }
    crate::json_laws::lemma_parse_of_printed(spec_auth_json(m));
    lemma_auth_record_round_trip(m);
}

/// How a refresh response replaces the cached record: a full replace,
/// except that a response without a refresh token keeps the old one.
pub open spec fn spec_merged_record(old_rec: AuthRecord, fresh: AuthRecord) -> AuthRecord {
    AuthRecord {
        refresh_token: match fresh.refresh_token {
            Some(t) => Some(t),
            None => old_rec.refresh_token,
        },
        ..fresh
    }
}

/// Replaces the cached record with a refresh response, carrying the old
/// refresh token forward when the response has none.
pub fn merge_refresh_response(old_rec: &SpotifyAuthResponse, fresh: SpotifyAuthResponse) -> (r:
    SpotifyAuthResponse)
    ensures
        r@ == spec_merged_record(old_rec@, fresh@),
{
    let refresh_token = match fresh.refresh_token {
        Some(t) => Some(t),
        None => match &old_rec.refresh_token {
            Some(t) => Some(t.clone()),
            None => None,
        },
    };
    SpotifyAuthResponse {
        access_token: fresh.access_token,
        token_type: fresh.token_type,
        scope: fresh.scope,
        expires_in: fresh.expires_in,
        refresh_token,
    }
}

/// Law: when the provider's refresh response carries no refresh token,
/// the merged record keeps the previous one.
pub proof fn lemma_refresh_token_carried_forward(old_rec: AuthRecord, fresh: AuthRecord)
    requires
        fresh.refresh_token is None,
    ensures
        spec_merged_record(old_rec, fresh).refresh_token == old_rec.refresh_token,
{
}

/// The character the standard base64 alphabet assigns to `v` in
/// `0 ..= 63`: `A`-`Z`, `a`-`z`, `0`-`9`, `+`, `/`.
pub open spec fn spec_b64_char(v: int) -> char {
    if v < 26 {
        ((65 + v) as u8) as char
    } else if v < 52 {
        ((71 + v) as u8) as char
    } else if v < 62 {
        ((v - 4) as u8) as char
    } else if v == 62 {
        '+'
    } else {
        '/'
    }
}

/// The standard base64 encoding with padding: three bytes become four
/// alphabet characters; a tail of one or two bytes is padded with `=`.
pub open spec fn spec_base64(bs: Seq<u8>) -> Seq<char>
    decreases bs.len(),
{
    if bs.len() == 0 {
        Seq::empty()
    } else if bs.len() == 1 {
        let b0 = bs[0] as int;
        seq![spec_b64_char(b0 / 4), spec_b64_char((b0 % 4) * 16), '=', '=']
    } else if bs.len() == 2 {
        let b0 = bs[0] as int;
        let b1 = bs[1] as int;
        seq![
            spec_b64_char(b0 / 4),
            spec_b64_char((b0 % 4) * 16 + b1 / 16),
            spec_b64_char((b1 % 16) * 4),
            '=',
        ]
    } else {
        let b0 = bs[0] as int;
        let b1 = bs[1] as int;
        let b2 = bs[2] as int;
        seq![
            spec_b64_char(b0 / 4),
            spec_b64_char((b0 % 4) * 16 + b1 / 16),
            spec_b64_char((b1 % 16) * 4 + b2 / 64),
            spec_b64_char(b2 % 64),
        ] + spec_base64(bs.skip(3))
    }
}

/// Relies on base64's `Engine::encode` with the `STANDARD` engine: the
/// RFC 4648 section 4 alphabet, with `=` padding. Inputs long enough to
/// overflow its output-size computation are kept out.
#[verifier::external_body]
fn base64_standard(bytes: &Vec<u8>) -> (r: String)
    requires
        bytes@.len() <= usize::MAX / 4,
    ensures
        r@ == spec_base64(bytes@),
{
    base64::engine::general_purpose::STANDARD.encode(bytes.as_slice())
}

/// The HTTP Basic authorization header value built from the client
/// credentials: `Basic ` and the base64 of `id:secret` in UTF-8.
pub open spec fn spec_basic_auth(id: Seq<char>, secret: Seq<char>) -> Seq<char> {
    "Basic "@ + spec_base64(encode_utf8(id + ":"@ + secret))
}

/// Builds the HTTP Basic authorization header for the credentials.
/// `None` only when the encoded credential text would overflow the
/// base64 output size, which no real credential reaches.
pub fn basic_auth_header(creds: &SpotifyAuthCredentials) -> (r: Option<String>)
    ensures
        match r {
            Some(h) => h@ == spec_basic_auth(creds.client_id@, creds.client_secret@),
            None => encode_utf8(creds.client_id@ + ":"@ + creds.client_secret@).len() > usize::MAX
                / 4,
        },
{
    let mut joined = String::new();
    joined.append(creds.client_id.as_str());
    joined.append(":");
    joined.append(creds.client_secret.as_str());
    proof {
        assert(joined@ =~= creds.client_id@ + ":"@ + creds.client_secret@);
    }
    let bytes = joined.as_str().as_bytes_vec();
    if bytes.len() > usize::MAX / 4 {
        return None;
    }
    let b64 = base64_standard(&bytes);
    let mut out = String::from_str("Basic ");
    out.append(b64.as_str());
    Some(out)
}

/// A token-endpoint request, ready for an HTTP client: the endpoint,
/// the Basic authorization header value, and the form fields.
pub struct TokenRequest {
    pub url: String,
    pub authorization: String,
    pub params: Vec<(String, String)>,
}

/// The view of a form-field list.
pub open spec fn spec_params_view(ps: Seq<(String, String)>) -> Seq<(Seq<char>, Seq<char>)> {
    Seq::new(ps.len(), |i: int| (ps[i].0@, ps[i].1@))
}

/// The provider's token endpoint.
pub open spec fn spec_token_endpoint() -> Seq<char> {
    "https://accounts.spotify.com/api/token"@
}

/// The redirect URI registered for the authorization-code flow.
pub open spec fn spec_redirect_uri() -> Seq<char> {
    "https://usmaanwahab.co.uk/callback"@
}

/// The form fields of an authorization-code exchange.
pub open spec fn spec_exchange_params(code: Seq<char>) -> Seq<(Seq<char>, Seq<char>)> {
    seq![
        ("grant_type"@, "authorization_code"@),
        ("code"@, code),
        ("redirect_uri"@, spec_redirect_uri()),
    ]
}

/// The form fields of a refresh-token exchange.
pub open spec fn spec_refresh_params(token: Seq<char>) -> Seq<(Seq<char>, Seq<char>)> {
    seq![("grant_type"@, "refresh_token"@), ("refresh_token"@, token)]
}

/// The one-time authorization-code exchange request (the bootstrap a
/// human completes once). `None` only on credentials too long to
/// encode.
pub fn request_spotify_access_token(creds: &SpotifyAuthCredentials, code: &str) -> (r: Option<
    TokenRequest,
>)
    ensures
        match r {
            Some(t) => t.url@ == spec_token_endpoint() && t.authorization@ == spec_basic_auth(
                creds.client_id@,
                creds.client_secret@,
            ) && spec_params_view(t.params@) == spec_exchange_params(code@),
            None => encode_utf8(creds.client_id@ + ":"@ + creds.client_secret@).len() > usize::MAX
                / 4,
        },
{
    let authorization = match basic_auth_header(creds) {
        Some(h) => h,
        None => {
            return None;
        },
    };
    let mut params: Vec<(String, String)> = Vec::new();
    params.push((String::from_str("grant_type"), String::from_str("authorization_code")));
    params.push((String::from_str("code"), String::from_str(code)));
    params.push((String::from_str("redirect_uri"), String::from_str(
        "https://usmaanwahab.co.uk/callback",
    )));
    proof {
        assert(spec_params_view(params@) =~~= spec_exchange_params(code@));
    }
    Some(
        TokenRequest {
            url: String::from_str("https://accounts.spotify.com/api/token"),
            authorization,
            params,
        },
    )
}

/// The refresh-token exchange request. `None` only on credentials too
/// long to encode.
pub fn refresh_token_request(creds: &SpotifyAuthCredentials, refresh_token: &str) -> (r: Option<
    TokenRequest,
>)
    ensures
        match r {
            Some(t) => t.url@ == spec_token_endpoint() && t.authorization@ == spec_basic_auth(
                creds.client_id@,
                creds.client_secret@,
            ) && spec_params_view(t.params@) == spec_refresh_params(refresh_token@),
            None => encode_utf8(creds.client_id@ + ":"@ + creds.client_secret@).len() > usize::MAX
                / 4,
        },
{
    let authorization = match basic_auth_header(creds) {
        Some(h) => h,
        None => {
            return None;
        },
    };
    let mut params: Vec<(String, String)> = Vec::new();
    params.push((String::from_str("grant_type"), String::from_str("refresh_token")));
    params.push((String::from_str("refresh_token"), String::from_str(refresh_token)));
    proof {
        assert(spec_params_view(params@) =~~= spec_refresh_params(refresh_token@));
    }
    Some(
        TokenRequest {
            url: String::from_str("https://accounts.spotify.com/api/token"),
            authorization,
            params,
        },
    )
}

/// Whether an HTTP status reports success.
pub open spec fn spec_is_success(status: u16) -> bool {
    200 <= status < 300
}

/// What the token endpoint's answer to an authorization-code exchange
/// means: a non-success status is the provider's rejection, with the
/// body kept; a success body must carry a token record, which becomes
/// the new cache content. The existing cache is touched only on `Ok`.
pub fn apply_exchange_response(status: u16, body: &str) -> (r: Result<
    SpotifyAuthResponse,
    AuthError,
>)
    ensures
        !spec_is_success(status) ==> (r matches Err(AuthError::UpstreamRejected(b)) && b@ == body@),
        spec_is_success(status) ==> match r {
            Ok(rec) => spec_parse_json(body@) matches Some(v) && spec_auth_record_of(v) == Some(
                rec@,
            ),
            Err(e) => e is MalformedResponse && match spec_parse_json(body@) {
                Some(v) => spec_auth_record_of(v) is None,
                None => true,
            },
        },
{
    if !(200 <= status && status < 300) {
        return Err(AuthError::UpstreamRejected(String::from_str(body)));
    }
    parse_auth_response(body)
}

/// What the token endpoint's answer to a refresh means: as for the
/// exchange, except that a successful record replaces the cached one
/// with the old refresh token carried forward when the response has
/// none.
pub fn apply_refresh_response(old_rec: &SpotifyAuthResponse, status: u16, body: &str) -> (r: Result<
    SpotifyAuthResponse,
    AuthError,
>)
    ensures
        !spec_is_success(status) ==> (r matches Err(AuthError::UpstreamRejected(b)) && b@ == body@),
        spec_is_success(status) ==> match r {
            Ok(rec) => spec_parse_json(body@) matches Some(v) && spec_auth_record_of(v) matches
                Some(fresh) && rec@ == spec_merged_record(old_rec@, fresh),
            Err(e) => e is MalformedResponse && match spec_parse_json(body@) {
                Some(v) => spec_auth_record_of(v) is None,
                None => true,
            },
        },
{
    if !(200 <= status && status < 300) {
        return Err(AuthError::UpstreamRejected(String::from_str(body)));
    }
    match parse_auth_response(body) {
        Ok(fresh) => Ok(merge_refresh_response(old_rec, fresh)),
        Err(e) => Err(e),
    }
}

/// An HTTP method of an authorised resource request.
#[derive(PartialEq, Eq, Structural)]
pub enum HttpMethod {
    Get,
    Post,
}

/// A resource request, ready for an HTTP client: method, URL, and the
/// Bearer authorization header value.
pub struct PreparedRequest {
    pub method: HttpMethod,
    pub url: String,
    pub authorization: String,
}

/// The Bearer authorization header value for an access token.
pub open spec fn spec_bearer(token: Seq<char>) -> Seq<char> {
    "Bearer "@ + token
}

/// Builds the authorised request for a fresh token record: the given
/// method and URL, under `Bearer` and the record's access token.
pub fn authorised_spotify_client(method: HttpMethod, url: &str, rec: &SpotifyAuthResponse) -> (r:
    PreparedRequest)
    ensures
        r.method == method,
        r.url@ == url@,
        r.authorization@ == spec_bearer(rec@.access_token),
{
    let mut authorization = String::from_str("Bearer ");
    authorization.append(rec.access_token.as_str());
    PreparedRequest { method, url: String::from_str(url), authorization }
}

/// The page answer of the authorization-code callback route, given the
/// outcome of the exchange that the route performed.
pub fn callback(outcome: Result<(), AuthError>) -> (r: Result<String, String>)
    ensures
        match outcome {
            Ok(()) => r matches Ok(s) && s@ == "Success"@,
            Err(e) => r matches Err(s) && s@ == e.spec_message(),
        },
{
    match outcome {
        Ok(()) => Ok(String::from_str("Success")),
        Err(e) => Err(e.message()),
    }
}

/// Law: a record still within its lifetime is used as it is; the
/// refresher makes no network call and the cache is left unchanged.
pub proof fn lemma_fresh_cache_is_kept(rec: AuthRecord, mtime: u64, now: u64)
    requires
        rec.expires_in > 0,
        (now as int) < mtime + rec.expires_in,
    ensures
        spec_refresh_plan(rec, mtime, now) == RefreshDecisionModel::UseCached,
{
}

/// Law: a record whose lifetime has passed forces exactly one exchange
/// of the stored refresh token at the token endpoint.
pub proof fn lemma_expired_cache_refreshes(rec: AuthRecord, mtime: u64, now: u64)
    requires
        (now as int) >= mtime + rec.expires_in,
        rec.refresh_token is Some,
    ensures
        spec_refresh_plan(rec, mtime, now) == RefreshDecisionModel::Refresh(
            rec.refresh_token->Some_0,
        ),
{
}

} // verus!
