//! The game-statistics accessors: request URLs for the account and
//! ranked-stats endpoints, and the strict projection of their JSON
//! answers into the records the pages need. Unlike the music widgets,
//! these records have no defaults: a missing or mistyped field makes
//! the whole answer malformed.

use vstd::prelude::*;

use crate::auth::AuthError;
use crate::json::{spec_get, spec_parse_json, Json, JsonModel};

verus! {

/// The API key read from the process environment.
pub struct RiotConfig {
    pub key: String,
}

/// An account record: the player's stable identifier and riot id.
pub struct AccountV1 {
    pub puuid: String,
    pub game_name: String,
    pub tag_line: String,
}

/// The mathematical shape of an account record.
pub struct AccountV1Model {
    pub puuid: Seq<char>,
    pub game_name: Seq<char>,
    pub tag_line: Seq<char>,
}

impl View for AccountV1 {
    type V = AccountV1Model;

    open spec fn view(&self) -> AccountV1Model {
        AccountV1Model {
            puuid: self.puuid@,
            game_name: self.game_name@,
            tag_line: self.tag_line@,
        }
    }
}

/// One ranked-queue entry of a player.
pub struct LeagueV4 {
    pub league_id: String,
    pub queue_type: String,
    pub tier: String,
    pub rank: String,
    pub puuid: String,
    pub league_points: u16,
    pub wins: u16,
    pub losses: u16,
    pub veteran: bool,
    pub inactive: bool,
    pub fresh_blood: bool,
    pub hot_streak: bool,
}

/// The mathematical shape of a ranked-queue entry.
pub struct LeagueV4Model {
    pub league_id: Seq<char>,
    pub queue_type: Seq<char>,
    pub tier: Seq<char>,
    pub rank: Seq<char>,
    pub puuid: Seq<char>,
    pub league_points: int,
    pub wins: int,
    pub losses: int,
    pub veteran: bool,
    pub inactive: bool,
    pub fresh_blood: bool,
    pub hot_streak: bool,
}

impl View for LeagueV4 {
    type V = LeagueV4Model;

    open spec fn view(&self) -> LeagueV4Model {
        LeagueV4Model {
            league_id: self.league_id@,
            queue_type: self.queue_type@,
            tier: self.tier@,
            rank: self.rank@,
            puuid: self.puuid@,
            league_points: self.league_points as int,
            wins: self.wins as int,
            losses: self.losses as int,
            veteran: self.veteran,
            inactive: self.inactive,
            fresh_blood: self.fresh_blood,
            hot_streak: self.hot_streak,
        }
    }
}

/// The account-lookup endpoint for a riot id.
pub open spec fn spec_account_url(name: Seq<char>, tag: Seq<char>) -> Seq<char> {
    "https://europe.api.riotgames.com/riot/account/v1/accounts/by-riot-id/"@ + name + "/"@ + tag
}

/// The URL of the account lookup for a riot id.
pub fn account_url(name: &str, tag: &str) -> (r: String)
    ensures
        r@ == spec_account_url(name@, tag@),
{
    let mut url = String::from_str(
        "https://europe.api.riotgames.com/riot/account/v1/accounts/by-riot-id/",
    );
    url.append(name);
    url.append("/");
    url.append(tag);
    url
}

/// The ranked-stats endpoint for a player.
pub open spec fn spec_ranked_stats_url(puuid: Seq<char>) -> Seq<char> {
    "https://euw1.api.riotgames.com/lol/league/v4/entries/by-puuid/"@ + puuid
}

/// The URL of the ranked-stats lookup for a player.
pub fn ranked_stats_url(puuid: &str) -> (r: String)
    ensures
        r@ == spec_ranked_stats_url(puuid@),
{
    let mut url = String::from_str(
        "https://euw1.api.riotgames.com/lol/league/v4/entries/by-puuid/",
    );
    url.append(puuid);
    url
}

/// A required string field.
pub open spec fn spec_str_field(v: JsonModel, key: Seq<char>) -> Option<Seq<char>> {
    match spec_get(v, key) {
        Some(JsonModel::Str(s)) => Some(s),
        _ => None,
    }
}

/// A required integer field that fits a `u16`.
pub open spec fn spec_u16_field(v: JsonModel, key: Seq<char>) -> Option<int> {
    match spec_get(v, key) {
        Some(JsonModel::Int(n)) => if 0 <= n <= 65535 {
            Some(n)
        } else {
            None
        },
        _ => None,
    }
}

/// A required boolean field.
pub open spec fn spec_bool_field(v: JsonModel, key: Seq<char>) -> Option<bool> {
    match spec_get(v, key) {
        Some(JsonModel::Bool(b)) => Some(b),
        _ => None,
    }
}

pub fn json_str_field(v: &Json, key: &str) -> (r: Option<String>)
    ensures
        match r {
            Some(s) => spec_str_field(v@, key@) == Some(s@),
            None => spec_str_field(v@, key@) is None,
        },
{
    match v.get(key) {
        Some(f) => match f.as_str() {
            Some(s) => Some(s.clone()),
            None => None,
        },
        None => None,
    }
}

fn u16_field(v: &Json, key: &str) -> (r: Option<u16>)
    ensures
        match r {
            Some(n) => spec_u16_field(v@, key@) == Some(n as int),
            None => spec_u16_field(v@, key@) is None,
        },
{
    match v.get(key) {
        Some(f) => match f.as_i64() {
            Some(n) => if 0 <= n && n <= 65535 {
                Some(n as u16)
            } else {
                None
            },
            None => None,
        },
        None => None,
    }
}

fn bool_field(v: &Json, key: &str) -> (r: Option<bool>)
    ensures
        match r {
            Some(b) => spec_bool_field(v@, key@) == Some(b),
            None => spec_bool_field(v@, key@) is None,
        },
{
    match v.get(key) {
        Some(f) => f.as_bool(),
        None => None,
    }
}

/// The account record an object denotes: its `puuid`, `gameName` and
/// `tagLine` strings, all required.
pub open spec fn spec_account_of(v: JsonModel) -> Option<AccountV1Model> {
    let puuid = spec_str_field(v, "puuid"@);
    let game_name = spec_str_field(v, "gameName"@);
    let tag_line = spec_str_field(v, "tagLine"@);
    if puuid is Some && game_name is Some && tag_line is Some {
        Some(
            AccountV1Model {
                puuid: puuid->Some_0,
                game_name: game_name->Some_0,
                tag_line: tag_line->Some_0,
            },
        )
    } else {
        None
    }
}

/// What the account endpoint's answer means: a success body must carry
/// the account record; any other status is the provider's rejection.
pub fn get_puuid_by_name_and_tag(status: u16, body: &str) -> (r: Result<AccountV1, AuthError>)
    ensures
        crate::auth::spec_is_success(status) ==> match r {
            Ok(acc) => spec_parse_json(body@) matches Some(v) && spec_account_of(v) == Some(acc@),
            Err(e) => e is MalformedResponse && match spec_parse_json(body@) {
                Some(v) => spec_account_of(v) is None,
                None => true,
            },
        },
        !crate::auth::spec_is_success(status) ==> (r matches Err(AuthError::UpstreamRejected(b))
            && b@ == body@),
{
    if !(200 <= status && status < 300) {
        return Err(AuthError::UpstreamRejected(String::from_str(body)));
    }
    let v = match crate::json::parse_json(body) {
        Some(v) => v,
        None => {
            return Err(AuthError::MalformedResponse);
        },
    };
    let puuid = match json_str_field(&v, "puuid") {
        Some(s) => s,
        None => {
            return Err(AuthError::MalformedResponse);
        },
    };
    let game_name = match json_str_field(&v, "gameName") {
        Some(s) => s,
        None => {
            return Err(AuthError::MalformedResponse);
        },
    };
    let tag_line = match json_str_field(&v, "tagLine") {
        Some(s) => s,
        None => {
            return Err(AuthError::MalformedResponse);
        },
    };
    Ok(AccountV1 { puuid, game_name, tag_line })
}

/// The ranked entry an object denotes: all twelve fields required,
/// counts fitting `u16`.
pub open spec fn spec_league_of(v: JsonModel) -> Option<LeagueV4Model> {
    let league_id = spec_str_field(v, "leagueId"@);
    let queue_type = spec_str_field(v, "queueType"@);
    let tier = spec_str_field(v, "tier"@);
    let rank = spec_str_field(v, "rank"@);
    let puuid = spec_str_field(v, "puuid"@);
    let league_points = spec_u16_field(v, "leaguePoints"@);
    let wins = spec_u16_field(v, "wins"@);
    let losses = spec_u16_field(v, "losses"@);
    let veteran = spec_bool_field(v, "veteran"@);
    let inactive = spec_bool_field(v, "inactive"@);
    let fresh_blood = spec_bool_field(v, "freshBlood"@);
    let hot_streak = spec_bool_field(v, "hotStreak"@);
    if league_id is Some && queue_type is Some && tier is Some && rank is Some && puuid is Some
        && league_points is Some && wins is Some && losses is Some && veteran is Some && inactive
        is Some && fresh_blood is Some && hot_streak is Some {
        Some(
            LeagueV4Model {
                league_id: league_id->Some_0,
                queue_type: queue_type->Some_0,
                tier: tier->Some_0,
                rank: rank->Some_0,
                puuid: puuid->Some_0,
                league_points: league_points->Some_0,
                wins: wins->Some_0,
                losses: losses->Some_0,
                veteran: veteran->Some_0,
                inactive: inactive->Some_0,
                fresh_blood: fresh_blood->Some_0,
                hot_streak: hot_streak->Some_0,
            },
        )
    } else {
        None
    }
}

fn league_of(v: &Json) -> (r: Option<LeagueV4>)
    ensures
        match r {
            Some(e) => spec_league_of(v@) == Some(e@),
            None => spec_league_of(v@) is None,
        },
{
    let league_id = match json_str_field(v, "leagueId") {
        Some(s) => s,
        None => {
            return None;
        },
    };
    let queue_type = match json_str_field(v, "queueType") {
        Some(s) => s,
        None => {
            return None;
        },
    };
    let tier = match json_str_field(v, "tier") {
        Some(s) => s,
        None => {
            return None;
        },
    };
    let rank = match json_str_field(v, "rank") {
        Some(s) => s,
        None => {
            return None;
        },
    };
    let puuid = match json_str_field(v, "puuid") {
        Some(s) => s,
        None => {
            return None;
        },
    };
    let league_points = match u16_field(v, "leaguePoints") {
        Some(n) => n,
        None => {
            return None;
        },
    };
    let wins = match u16_field(v, "wins") {
        Some(n) => n,
        None => {
            return None;
        },
    };
    let losses = match u16_field(v, "losses") {
        Some(n) => n,
        None => {
            return None;
        },
    };
    let veteran = match bool_field(v, "veteran") {
        Some(b) => b,
        None => {
            return None;
        },
    };
    let inactive = match bool_field(v, "inactive") {
        Some(b) => b,
        None => {
            return None;
        },
    };
    let fresh_blood = match bool_field(v, "freshBlood") {
        Some(b) => b,
        None => {
            return None;
        },
    };
    let hot_streak = match bool_field(v, "hotStreak") {
        Some(b) => b,
        None => {
            return None;
        },
    };
    Some(
        LeagueV4 {
            league_id,
            queue_type,
            tier,
            rank,
            puuid,
            league_points,
            wins,
            losses,
            veteran,
            inactive,
            fresh_blood,
            hot_streak,
        },
    )
}

/// The entries a ranked-stats answer denotes, starting at element `k`:
/// all entries well-formed, or nothing.
pub open spec fn spec_league_seq(a: Seq<JsonModel>) -> Option<Seq<LeagueV4Model>>
    decreases a.len(),
{
    if a.len() == 0 {
        Some(Seq::empty())
    } else {
        match (spec_league_of(a[0]), spec_league_seq(a.drop_first())) {
            (Some(m), Some(rest)) => Some(seq![m] + rest),
            _ => None,
        }
    }
}

/// The entry list a ranked-stats answer denotes: an array of
/// well-formed entries, or nothing.
pub open spec fn spec_league_list_of(v: JsonModel) -> Option<Seq<LeagueV4Model>> {
    match v {
        JsonModel::Arr(a) => spec_league_seq(a),
        _ => None,
    }
}

/// The view of an entry list.
pub open spec fn spec_league_view(es: Seq<LeagueV4>) -> Seq<LeagueV4Model> {
    Seq::new(es.len(), |i: int| es[i]@)
}

fn league_items(a: &Vec<Json>, k: usize) -> (r: Option<Vec<LeagueV4>>)
    requires
        k <= a@.len(),
    ensures
        match r {
            Some(es) => spec_league_seq(crate::json::spec_elems_view(a@).skip(k as int)) == Some(
                spec_league_view(es@),
            ),
            None => spec_league_seq(crate::json::spec_elems_view(a@).skip(k as int)) is None,
        },
    decreases a@.len() - k,
{
    let ghost full = crate::json::spec_elems_view(a@);
    if k == a.len() {
        let es: Vec<LeagueV4> = Vec::new();
        proof {
            assert(full.skip(k as int) =~= Seq::<JsonModel>::empty());
            assert(spec_league_view(es@) =~= Seq::<LeagueV4Model>::empty());
        }
        return Some(es);
    }
    proof {
        assert(full.skip(k as int)[0] == a@[k as int]@);
    }
    let e = match league_of(&a[k]) {
        Some(e) => e,
        None => {
            return None;
        },
    };
    let rest = match league_items(a, k + 1) {
        Some(r) => r,
        None => {
            proof {
                assert(full.skip(k as int).drop_first() =~= full.skip(k + 1));
            }
            return None;
        },
    };
    let mut out: Vec<LeagueV4> = Vec::new();
    let ghost e0 = e@;
    out.push(e);
    let mut tail = rest;
    let ghost tail0 = tail@;
    out.append(&mut tail);
    proof {
        assert(full.skip(k as int).drop_first() =~= full.skip(k + 1));
        assert(spec_league_view(out@) =~= seq![e0] + spec_league_view(tail0));
    }
    Some(out)
}

/// What the ranked-stats endpoint's answer means: a success body must
/// be an array of well-formed entries; any other status is the
/// provider's rejection.
pub fn get_ranked_stats_by_puuid(status: u16, body: &str) -> (r: Result<Vec<LeagueV4>, AuthError>)
    ensures
        crate::auth::spec_is_success(status) ==> match r {
            Ok(es) => spec_parse_json(body@) matches Some(v) && spec_league_list_of(v) == Some(
                spec_league_view(es@),
            ),
            Err(e) => e is MalformedResponse && match spec_parse_json(body@) {
                Some(v) => spec_league_list_of(v) is None,
                None => true,
            },
        },
        !crate::auth::spec_is_success(status) ==> (r matches Err(AuthError::UpstreamRejected(b))
            && b@ == body@),
{
    if !(200 <= status && status < 300) {
        return Err(AuthError::UpstreamRejected(String::from_str(body)));
    }
    let v = match crate::json::parse_json(body) {
        Some(v) => v,
        None => {
            return Err(AuthError::MalformedResponse);
        },
    };
    let a = match v.as_arr() {
        Some(a) => a,
        None => {
            return Err(AuthError::MalformedResponse);
        },
    };
    proof {
        assert(crate::json::spec_elems_view(a@).skip(0) =~= crate::json::spec_elems_view(a@));
    }
    match league_items(a, 0) {
        Some(es) => Ok(es),
        None => Err(AuthError::MalformedResponse),
    }
}

/// The first ranked entry played in the solo queue, if any: the one
/// the league page shows.
pub fn solo_queue_entry<'a>(entries: &'a Vec<LeagueV4>) -> (r: Option<&'a LeagueV4>)
    ensures
        match r {
            Some(e) => exists|i: int|
                0 <= i < entries@.len() && entries@[i] == *e && entries@[i].queue_type@
                    == "RANKED_SOLO_5x5"@ && forall|j: int|
                    0 <= j < i ==> #[trigger] (entries@[j].queue_type@) != "RANKED_SOLO_5x5"@,
            None => forall|j: int|
                0 <= j < entries@.len() ==> #[trigger] (entries@[j].queue_type@)
                    != "RANKED_SOLO_5x5"@,
        },
{
    let n = entries.len();
    for k in 0..n
        invariant
            n == entries@.len(),
            forall|j: int| 0 <= j < k ==> #[trigger] (entries@[j].queue_type@)
                != "RANKED_SOLO_5x5"@,
    {
        if crate::json::str_eq(entries[k].queue_type.as_str(), "RANKED_SOLO_5x5") {
            return Some(&entries[k]);
        }
    }
    None
}

} // verus!
