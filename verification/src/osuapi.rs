use vstd::prelude::*;
use vstd::string::*;
use crate::config::Config;
use crate::models::{BeatmapSearch, RankStatus};
use crate::text::{decimal_text, join2, join3, render_i32};

verus! {

/// A bearer credential as the token endpoint hands it out.
#[derive(Debug)]
pub struct OsuToken {
    pub token_type: String,
    /// Declared lifetime in seconds.
    pub expires_in: u64,
    pub access_token: String,
}

pub struct OsuTokenView {
    pub token_type: Seq<char>,
    pub expires_in: u64,
    pub access_token: Seq<char>,
}

impl View for OsuToken {
    type V = OsuTokenView;

    open spec fn view(&self) -> OsuTokenView {
        OsuTokenView {
            token_type: self.token_type@,
            expires_in: self.expires_in,
            access_token: self.access_token@,
        }
    }
}

impl OsuToken {
    /// A copy with the same contents.
    pub fn duplicate(&self) -> (r: OsuToken)
        ensures
            r@ == self@,
    {
        OsuToken {
            token_type: self.token_type.clone(),
            expires_in: self.expires_in,
            access_token: self.access_token.clone(),
        }
    }
}

/// The form that is posted to the token endpoint.
#[derive(Debug)]
pub struct TokenRequest {
    pub url: String,
    pub content_type: String,
    pub client_id: String,
    pub client_secret: String,
    pub grant_type: String,
    pub scope: String,
}

/// A `GET` on the catalog with a bearer credential.
#[derive(Debug)]
pub struct ApiRequest {
    pub url: String,
    /// Value of the `Authorization` header.
    pub authorization: String,
    /// The one query parameter, as name and value, where there is one.
    pub query: Option<(String, String)>,
}

/// What a caller who asks for a credential does next.
#[derive(Debug)]
pub enum TokenStep {
    /// The cached credential is usable: no exchange is made.
    Cached(OsuToken),
    /// No usable credential is cached and no exchange is under way: the
    /// caller makes this one and reports how it went.
    Exchange(TokenRequest),
    /// Another caller's exchange is under way: wait for it to end, then ask
    /// again.
    Wait,
}

/// The credential exchange failed.
#[derive(Debug, PartialEq, Eq)]
pub enum AuthError {
    /// The token endpoint could not be reached.
    Unreachable,
    /// The token endpoint answered with this status and no usable
    /// credential.
    Rejected { status: u16 },
}

/// The catalog answered a search or a download with a failure.
#[derive(Debug, PartialEq, Eq)]
pub struct UpstreamError {
    pub status: u16,
    pub body: String,
}

/// A credential issued at `issue_instant` with the declared `lifetime` (both
/// in seconds) may be used at `now` while its lifetime has not run out.
pub open spec fn usable_at(issue_instant: int, lifetime: int, now: int) -> bool {
    issue_instant + lifetime > now
}

/// The `Authorization` header that carries `token`.
pub open spec fn bearer(token: Seq<char>) -> Seq<char> {
    "Bearer "@ + token
}

pub open spec fn success(status: u16) -> bool {
    200 <= status < 300
}

/// The catalog's cap on requests that are under way at once.
pub const REQUEST_LIMIT: usize = 1000;

/// The form that asks the token endpoint for a credential.
pub open spec fn is_token_form(
    q: TokenRequest,
    endpoint: Seq<char>,
    client_id: Seq<char>,
    client_secret: Seq<char>,
) -> bool {
    &&& q.url@ == endpoint
    &&& q.content_type@ == "application/x-www-form-urlencoded"@
    &&& q.client_id@ == client_id
    &&& q.client_secret@ == client_secret
    &&& q.grant_type@ == "client_credentials"@
    &&& q.scope@ == "public"@
}

/// The client of the catalog, with the one credential it shares among all
/// its calls.
#[derive(Debug)]
pub struct Osuapi {
    config: Config,
    is_fetching_token: bool,
    token: Option<(u64, OsuToken)>,
}

impl Osuapi {
    /// The cached credential with its issue instant, if one is cached.
    pub closed spec fn cached(&self) -> Option<(u64, OsuTokenView)> {
        match self.token {
            Some((at, t)) => Some((at, t@)),
            None => None,
        }
    }

    /// Whether a caller is making an exchange whose end is not known yet.
    pub closed spec fn refreshing(&self) -> bool {
        self.is_fetching_token
    }

    /// Address under which the catalog's API is reached.
    pub closed spec fn base_url(&self) -> Seq<char> {
        self.config.api_base_url@
    }

    /// Address of the endpoint that hands out credentials.
    pub closed spec fn token_endpoint(&self) -> Seq<char> {
        self.config.token_endpoint@
    }

    pub closed spec fn client_id(&self) -> Seq<char> {
        self.config.oauth_client_id@
    }

    pub closed spec fn client_secret(&self) -> Seq<char> {
        self.config.oauth_client_secret@
    }

    /// Whether a credential is cached that may be used at `now`.
    pub open spec fn has_usable(&self, now: u64) -> bool {
        self.cached() matches Some((at, t)) && usable_at(at as int, t.expires_in as int, now as int)
    }

    /// The credential that a caller at `now` is handed from the cache, if
    /// the cache holds a usable one.
    pub open spec fn handed_out(&self, now: u64) -> Option<OsuTokenView> {
        match self.cached() {
            Some((at, t)) => if usable_at(at as int, t.expires_in as int, now as int) {
                Some(t)
            } else {
                None
            },
            None => None,
        }
    }

    /// A client with nothing cached.
    pub fn new(config: Config) -> (r: Osuapi)
        ensures
            r.cached() is None,
            !r.refreshing(),
            r.base_url() == config.api_base_url@,
            r.token_endpoint() == config.token_endpoint@,
            r.client_id() == config.oauth_client_id@,
            r.client_secret() == config.oauth_client_secret@,
    {
        Osuapi { config, is_fetching_token: false, token: None }
    }

    /// Answers a caller who needs a credential at `now` (seconds on the
    /// caller's clock). A usable cached credential is handed out as it is.
    /// Otherwise a stale one is dropped, and the first caller to find none is
    /// told which exchange to make; until that caller reports, through
    /// `token_received` or `token_failed`, every other caller is told to
    /// wait, so that no second exchange is started.
    pub fn fetch_token(&mut self, now: u64) -> (r: TokenStep)
        ensures
            final(self).base_url() == old(self).base_url(),
            final(self).token_endpoint() == old(self).token_endpoint(),
            final(self).client_id() == old(self).client_id(),
            final(self).client_secret() == old(self).client_secret(),
            r matches TokenStep::Cached(t) ==> old(self).handed_out(now) == Some(t@),
            old(self).handed_out(now) is None ==> !(r is Cached),
            old(self).has_usable(now) ==> {
                &&& final(self).cached() == old(self).cached()
                &&& final(self).refreshing() == old(self).refreshing()
                &&& r matches TokenStep::Cached(t)
                &&& old(self).cached() matches Some((_, v))
                &&& t@ == v
            },
            !old(self).has_usable(now) ==> final(self).cached() is None && final(self).refreshing(),
            !old(self).has_usable(now) && old(self).refreshing() ==> r is Wait,
            !old(self).has_usable(now) && !old(self).refreshing() ==> (r matches TokenStep::Exchange(
                q,
            ) && is_token_form(
                q,
                old(self).token_endpoint(),
                old(self).client_id(),
                old(self).client_secret(),
            )),
    {
        match &self.token {
            Some((at, t)) => {
                let wide_at: u128 = *at as u128;
                let wide_life: u128 = t.expires_in as u128;
                let wide_now: u128 = now as u128;
                if wide_at + wide_life > wide_now {
                    return TokenStep::Cached(t.duplicate());
                }
            },
            None => {},
        }
        self.token = None;
        if self.is_fetching_token {
            return TokenStep::Wait;
        }
        self.is_fetching_token = true;
        TokenStep::Exchange(
            TokenRequest {
                url: self.config.token_endpoint.clone(),
                content_type: String::from_str("application/x-www-form-urlencoded"),
                client_id: self.config.oauth_client_id.clone(),
                client_secret: self.config.oauth_client_secret.clone(),
                grant_type: String::from_str("client_credentials"),
                scope: String::from_str("public"),
            },
        )
    }

    /// Judges the answer to a credential exchange: `parsed` is the credential
    /// read from the body, if the body held one.
    pub fn token_outcome(status: u16, parsed: Option<OsuToken>) -> (r: Result<OsuToken, AuthError>)
        ensures
            r is Ok <==> success(status) && parsed is Some,
            r matches Ok(t) ==> t == parsed->0,
            r matches Err(e) ==> e == (AuthError::Rejected { status }),
    {
        if 200 <= status && status < 300 {
            match parsed {
                Some(t) => Ok(t),
                None => Err(AuthError::Rejected { status }),
            }
        } else {
            Err(AuthError::Rejected { status })
        }
    }

    /// Caches a credential that an exchange started at `issued_at` brought.
    /// It replaces whatever was cached.
    pub fn token_received(&mut self, issued_at: u64, token: OsuToken)
        ensures
            final(self).cached() == Some((issued_at, token@)),
            !final(self).refreshing(),
            final(self).base_url() == old(self).base_url(),
            final(self).token_endpoint() == old(self).token_endpoint(),
            final(self).client_id() == old(self).client_id(),
            final(self).client_secret() == old(self).client_secret(),
    {
        self.token = Some((issued_at, token));
        self.is_fetching_token = false;
    }

    /// Notes that the exchange under way has failed: the next caller who
    /// finds no usable credential makes a new one.
    pub fn token_failed(&mut self)
        ensures
            final(self).cached() == old(self).cached(),
            !final(self).refreshing(),
            final(self).base_url() == old(self).base_url(),
            final(self).token_endpoint() == old(self).token_endpoint(),
            final(self).client_id() == old(self).client_id(),
            final(self).client_secret() == old(self).client_secret(),
    {
        self.is_fetching_token = false;
    }

    /// The search for the records of one review class.
    pub fn search_beatmaps(&self, token: &OsuToken, rank_status: RankStatus) -> (r: ApiRequest)
        ensures
            r.url@ == self.base_url() + "/beatmapsets/search"@,
            r.authorization@ == bearer(token.access_token@),
            r.query matches Some((name, value)) && name@ == "s"@ && value@
                == rank_status.query_word_spec(),
    {
        ApiRequest {
            url: join2(self.config.api_base_url.as_str(), "/beatmapsets/search"),
            authorization: join2("Bearer ", token.access_token.as_str()),
            query: Some((String::from_str("s"), String::from_str(rank_status.query_word()))),
        }
    }

    /// Judges the answer to a search: `parsed` is the list read from the body,
    /// if the body held one.
    pub fn search_outcome(
        status: u16,
        body: String,
        parsed: Option<BeatmapSearch>,
    ) -> (r: Result<BeatmapSearch, UpstreamError>)
        ensures
            r is Ok <==> success(status) && parsed is Some,
            r matches Ok(s) ==> s == parsed->0,
            r matches Err(e) ==> e.status == status && e.body == body,
    {
        if 200 <= status && status < 300 {
            match parsed {
                Some(s) => Ok(s),
                None => Err(UpstreamError { status, body }),
            }
        } else {
            Err(UpstreamError { status, body })
        }
    }

    /// The download of one file of a record.
    pub fn download_beatmap_file(&self, token: &OsuToken, map_id: i32) -> (r: ApiRequest)
        ensures
            r.url@ == "https://osu.ppy.sh/osu/"@ + decimal_text(map_id as int),
            r.authorization@ == bearer(token.access_token@),
            r.query is None,
    {
        let id: String = render_i32(map_id);
        ApiRequest {
            url: join2("https://osu.ppy.sh/osu/", id.as_str()),
            authorization: join2("Bearer ", token.access_token.as_str()),
            query: None,
        }
    }

    /// The download of a record's archive.
    pub fn download_beatmapset(&self, token: &OsuToken, mapset_id: i32) -> (r: ApiRequest)
        ensures
            r.url@ == self.base_url() + "/beatmapsets/"@ + decimal_text(mapset_id as int)
                + "/download"@,
            r.authorization@ == bearer(token.access_token@),
            r.query is None,
    {
        let id: String = render_i32(mapset_id);
        let head: String = join3(self.config.api_base_url.as_str(), "/beatmapsets/", id.as_str());
        ApiRequest {
            url: join2(head.as_str(), "/download"),
            authorization: join2("Bearer ", token.access_token.as_str()),
            query: None,
        }
    }

    /// Judges the head of a download's answer. Only status 200 lets the body
    /// be written out; with any other status the body is the complaint.
    pub fn download_outcome(status: u16, body: String) -> (r: Result<(), UpstreamError>)
        ensures
            r is Ok <==> status == 200,
            r matches Err(e) ==> e.status == status && e.body == body,
    {
        if status == 200 {
            Ok(())
        } else {
            Err(UpstreamError { status, body })
        }
    }
}

/// All callers share one credential: once an exchange has brought one, every
/// caller who asks while it lasts is handed that same credential from the
/// cache, the caller who waited for the exchange like any other.
pub proof fn callers_share_the_credential(
    api: Osuapi,
    issued_at: u64,
    token: OsuTokenView,
    first: u64,
    second: u64,
)
    requires
        api.cached() == Some((issued_at, token)),
        usable_at(issued_at as int, token.expires_in as int, first as int),
        usable_at(issued_at as int, token.expires_in as int, second as int),
    ensures
        api.handed_out(first) == Some(token),
        api.handed_out(second) == api.handed_out(first),
{
}

} // verus!
