//! The authorization gate's data and decisions.
//!
//! Token parsing and signature checking belong to the pluggable validator
//! outside this crate; here live the validator's result type, the
//! configuration of the production validator with its derived URLs, the
//! decision taken over a token's verified claims, and the extraction of the
//! token from a request's query string.

use vstd::prelude::*;
use vstd::string::StringExecFns;

verus! {

/// What validating a token yields: who the caller is and whether they may
/// host.
#[derive(Debug)]
pub struct AuthResult {
    pub user_id: String,
    pub is_host: bool,
}

/// Mathematical view of an authorization result.
#[verifier::ext_equal]
pub ghost struct AuthResultView {
    pub user_id: Seq<char>,
    pub is_host: bool,
}

impl View for AuthResult {
    type V = AuthResultView;

    open spec fn view(&self) -> AuthResultView {
        AuthResultView { user_id: self.user_id@, is_host: self.is_host }
    }
}

impl Clone for AuthResult {
    fn clone(&self) -> (r: Self)
        ensures
            r@ == self@,
    {
        AuthResult { user_id: self.user_id.clone(), is_host: self.is_host }
    }
}

/// A pluggable token validator. Implementations live with the process that
/// owns the network; nothing is assumed of them.
pub trait JwtValidator {
    fn validate(&self, token: &str) -> Result<AuthResult, String>;
}

/// Configuration of the production validator: the user pool whose keys sign
/// the tokens and the client they are issued to.
#[derive(Debug)]
pub struct CognitoValidator {
    pub region: String,
    pub user_pool_id: String,
    pub client_id: String,
}

impl CognitoValidator {
    /// A validator configuration for the given pool and client.
    pub fn new(region: String, user_pool_id: String, client_id: String) -> (r: CognitoValidator)
        ensures
            r.region == region,
            r.user_pool_id == user_pool_id,
            r.client_id == client_id,
    {
        CognitoValidator { region, user_pool_id, client_id }
    }

    /// The URL the pool's signing keys are served from.
    pub fn jwks_url(&self) -> (r: String)
        ensures
            r@ == "https://cognito-idp."@ + self.region@ + ".amazonaws.com/"@ + self.user_pool_id@
                + "/.well-known/jwks.json"@,
    {
        let mut s = ("https://cognito-idp.").to_owned();
        s.append(self.region.as_str());
        s.append(".amazonaws.com/");
        s.append(self.user_pool_id.as_str());
        s.append("/.well-known/jwks.json");
        s
    }

    /// The issuer a valid token must name.
    pub fn expected_issuer(&self) -> (r: String)
        ensures
            r@ == "https://cognito-idp."@ + self.region@ + ".amazonaws.com/"@
                + self.user_pool_id@,
    {
        let mut s = ("https://cognito-idp.").to_owned();
        s.append(self.region.as_str());
        s.append(".amazonaws.com/");
        s.append(self.user_pool_id.as_str());
        s
    }
}

/// The group whose members may host games.
pub open spec fn spec_hosts_group() -> Seq<char> {
    "Trivia-Hosts"@
}

/// Decide authorization from a token's verified claims: the token must be an
/// access token for the expected client; hosting additionally requires
/// membership in the hosts group.
pub fn auth_from_claims(
    sub: String,
    groups: Vec<String>,
    token_use: &str,
    client_id: &str,
    expected_client_id: &str,
) -> (r: Result<AuthResult, &'static str>)
    ensures
        token_use@ != "access"@ ==> (r matches Err(m) && m@
            == "Invalid token_use: expected 'access'"@),
        token_use@ == "access"@ && client_id@ != expected_client_id@ ==> (r matches Err(m) && m@
            == "Invalid client_id"@),
        token_use@ == "access"@ && client_id@ == expected_client_id@ ==> (r matches Ok(a) && a@
            == (AuthResultView {
            user_id: sub@,
            is_host: exists|i: int|
                0 <= i < groups.deep_view().len() && groups.deep_view()[i] == spec_hosts_group(),
        })),
{
    if !crate::norm::str_eq(token_use, "access") {
        return Err("Invalid token_use: expected 'access'");
    }
    if !crate::norm::str_eq(client_id, expected_client_id) {
        return Err("Invalid client_id");
    }
    let mut is_host = false;
    let mut i: usize = 0;
    while i < groups.len()
        invariant
            i <= groups@.len(),
            is_host ==> exists|j: int|
                0 <= j < i && groups.deep_view()[j] == spec_hosts_group(),
            !is_host ==> forall|j: int|
                0 <= j < i ==> groups.deep_view()[j] != spec_hosts_group(),
        decreases groups@.len() - i,
    {
        if crate::norm::str_eq(groups[i].as_str(), "Trivia-Hosts") {
            proof {
                assert(groups.deep_view()[i as int] == spec_hosts_group());
            }
            is_host = true;
        } else {
            proof {
                assert(groups.deep_view()[i as int] != spec_hosts_group());
            }
        }
        i = i + 1;
    }
    Ok(AuthResult { user_id: sub, is_host })
}

/// The first `&`-separated pair of `q` whose key is exactly `token`: the
/// value after its `=`, or nothing when no pair matches.
pub open spec fn token_in_query(q: Seq<char>) -> Option<Seq<char>>
    decreases q.len(),
    via token_in_query_decreases
{
    let end = first_amp(q);
    let pair = q.take(end);
    if is_token_pair(pair) {
        Some(pair.skip(6))
    } else if end == q.len() {
        None
    } else {
        token_in_query(q.skip(end + 1))
    }
}

/// The index of the first `&` in `q`, or its length when there is none.
pub open spec fn first_amp(q: Seq<char>) -> int
    decreases q.len(),
{
    if q.len() == 0 {
        0
    } else if q[0] == '&' {
        0
    } else {
        1 + first_amp(q.drop_first())
    }
}

/// Whether a pair reads `token=` followed by its value.
pub open spec fn is_token_pair(pair: Seq<char>) -> bool {
    &&& pair.len() >= 6
    &&& pair[0] == 't'
    &&& pair[1] == 'o'
    &&& pair[2] == 'k'
    &&& pair[3] == 'e'
    &&& pair[4] == 'n'
    &&& pair[5] == '='
}

/// `first_amp` always lies between zero and the length.
proof fn lemma_first_amp_bounds(q: Seq<char>)
    ensures
        0 <= first_amp(q) <= q.len(),
    decreases q.len(),
{
    if q.len() > 0 && q[0] != '&' {
        lemma_first_amp_bounds(q.drop_first());
    }
}

#[via_fn]
proof fn token_in_query_decreases(q: Seq<char>) {
    lemma_first_amp_bounds(q);
}

proof fn lemma_first_amp_characterization(q: Seq<char>, k: int)
    requires
        0 <= k <= q.len(),
        forall|j: int| 0 <= j < k ==> q[j] != '&',
        k == q.len() || q[k] == '&',
    ensures
        first_amp(q) == k,
    decreases q.len(),
{
    if q.len() == 0 {
    } else if k == 0 {
    } else {
        lemma_first_amp_characterization(q.drop_first(), k - 1);
    }
}

/// Extract the `token` query parameter from a request URI's query string.
pub fn extract_token_from_query(query: &str) -> (r: Option<String>)
    ensures
        match r {
            Some(v) => token_in_query(query@) == Some(v@),
            None => token_in_query(query@) is None,
        },
{
    let n = query.unicode_len();
    let mut start: usize = 0;
    proof {
        assert(query@.skip(0) =~= query@);
    }
    loop
        invariant
            start <= n,
            n == query@.len(),
            token_in_query(query@) == token_in_query(query@.skip(start as int)),
        decreases n - start,
    {
        // Find the end of the pair that begins at `start`.
        let ghost rest = query@.skip(start as int);
        let mut end: usize = start;
        while end < n && query.get_char(end) != '&'
            invariant
                start <= end <= n,
                n == query@.len(),
                forall|j: int| start <= j < end ==> query@[j] != '&',
            decreases n - end,
        {
            end = end + 1;
        }
        proof {
            assert forall|j: int| 0 <= j < end - start implies rest[j] != '&' by {
                assert(rest[j] == query@[start + j]);
            }
            if end < n {
                assert(rest[end - start as int] == query@[end as int]);
            }
            lemma_first_amp_characterization(rest, end - start as int);
        }
        // Does this pair start with `token=`?
        let is_token = end - start >= 6 && query.get_char(start) == 't' && query.get_char(
            start + 1,
        ) == 'o' && query.get_char(start + 2) == 'k' && query.get_char(start + 3) == 'e'
            && query.get_char(start + 4) == 'n' && query.get_char(start + 5) == '=';
        proof {
            let pair = rest.take(end - start as int);
            assert forall|j: int| 0 <= j < end - start implies pair[j] == query@[start + j] by {}
            assert(is_token == is_token_pair(pair));
        }
        if is_token {
            let value = query.substring_char(start + 6, end);
            proof {
                let pair = rest.take(end - start as int);
                assert(pair.skip(6) =~= query@.subrange(start + 6, end as int));
            }
            return Some(value.to_owned());
        }
        if end == n {
            return None;
        }
        proof {
            let pair = rest.take(end - start as int);
            assert(rest.skip(end - start as int + 1) =~= query@.skip(end as int + 1));
        }
        start = end + 1;
    }
}

} // verus!
