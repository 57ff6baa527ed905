use vstd::prelude::*;

verus! {

/// The claims carried inside a signed token: issue and expiry times in
/// unix seconds, the subject identity and its admin flag at issuance.
/// The admin flag is a snapshot: it is not re-checked per request.
#[derive(Debug)]
pub struct UserToken {
    pub iat: i64,
    pub exp: i64,
    pub user: String,
    pub isadmin: bool,
}

/// The signing configuration, fixed once at process start: the secret
/// key and the token lifetime in seconds. Rotating the key invalidates
/// every outstanding token.
pub struct TokenConfig {
    pub secret: Vec<u8>,
    pub ttl: i64,
}

impl TokenConfig {
    /// The lifetime is never negative.
    pub open spec fn wf(self) -> bool {
        0 <= self.ttl
    }

    pub fn new(secret: Vec<u8>, ttl: i64) -> (r: TokenConfig)
        requires
            0 <= ttl,
        ensures
            r.wf(),
            r.secret == secret,
            r.ttl == ttl,
    {
        TokenConfig { secret, ttl }
    }
}

/// The compact signed token that the web-token library produces for
/// exactly these claims under this secret: a function of its arguments
/// alone.
pub uninterp spec fn jwt_of(
    iat: i64,
    exp: i64,
    user: Seq<char>,
    isadmin: bool,
    secret: Seq<u8>,
) -> Seq<char>;

/// Whether a token carries a valid HS256 signature under this secret,
/// as the web-token library's signature check decides it: a function of
/// the token and the secret alone.
pub uninterp spec fn hs256_valid(token: Seq<char>, secret: Seq<u8>) -> bool;

/// The characters that are trimmed around the token of a bearer header.
pub open spec fn is_space(c: char) -> bool {
    c == ' ' || c == '\t' || c == '\r' || c == '\n'
}

/// Relies on jsonwebtoken::encode with the default HS256 header: the
/// result is a deterministic compact encoding of exactly these claims,
/// signed with the secret; its serialization is made of base64url
/// characters and dots, so it holds no whitespace. Encoding never
/// fails: HS256 signing accepts a key of every length and these claims
/// always serialize.
#[verifier::external_body]
fn encode_token(iat: i64, exp: i64, user: &str, isadmin: bool, secret: &[u8]) -> (r: Option<
    String,
>)
    ensures
        r is Some,
        (r matches Some(t) ==> t@ == jwt_of(iat, exp, user@, isadmin, secret@)),
        (r matches Some(t) ==> forall|k: int| 0 <= k < t@.len() ==> !is_space(t@[k])),
{
    let mut claims = serde_json::Map::new();
    claims.insert("iat".to_string(), serde_json::Value::from(iat));
    claims.insert("exp".to_string(), serde_json::Value::from(exp));
    claims.insert("user".to_string(), serde_json::Value::from(user));
    claims.insert("isadmin".to_string(), serde_json::Value::from(isadmin));
    jsonwebtoken::encode(
        &jsonwebtoken::Header::default(),
        &serde_json::Value::Object(claims),
        &jsonwebtoken::EncodingKey::from_secret(secret),
    )
    .ok()
}

/// Relies on jsonwebtoken::decode with HS256, signature check on, clock
/// checks off (the caller checks expiry against its own clock), and on
/// serde_json::Value accessors to read the claim fields back. Whatever
/// token encode_token produced under this secret decodes to exactly the
/// claims that went in, and nothing comes back for a token whose
/// signature does not verify under this secret.
#[verifier::external_body]
fn decode_token(token: &str, secret: &[u8]) -> (r: Option<UserToken>)
    ensures
        (r is Some ==> hs256_valid(token@, secret@)),
        (r is None ==> forall|iat: i64, exp: i64, user: Seq<char>, isadmin: bool|
            token@ != jwt_of(iat, exp, user, isadmin, secret@)),
        (r matches Some(c) ==> forall|iat: i64, exp: i64, user: Seq<char>, isadmin: bool|
            token@ == jwt_of(iat, exp, user, isadmin, secret@) ==> (c.iat == iat && c.exp == exp
                && c.user@ == user && c.isadmin == isadmin)),
{
    let mut v = jsonwebtoken::Validation::new(jsonwebtoken::Algorithm::HS256);
    v.validate_exp = false;
    v.validate_aud = false;
    v.required_spec_claims.clear();
    let key = jsonwebtoken::DecodingKey::from_secret(secret);
    let d = jsonwebtoken::decode::<serde_json::Value>(token, &key, &v).ok()?;
    let iat = d.claims.get("iat")?.as_i64()?;
    let exp = d.claims.get("exp")?.as_i64()?;
    let user = d.claims.get("user")?.as_str()?.to_string();
    let isadmin = d.claims.get("isadmin")?.as_bool()?;
    Some(UserToken { iat, exp, user, isadmin })
}

/// The sequence with its leading whitespace dropped.
pub open spec fn trim_left(s: Seq<char>) -> Seq<char>
    decreases s.len(),
{
    if s.len() > 0 && is_space(s.first()) {
        trim_left(s.drop_first())
    } else {
        s
    }
}

/// The sequence with its trailing whitespace dropped.
pub open spec fn trim_right(s: Seq<char>) -> Seq<char>
    decreases s.len(),
{
    if s.len() > 0 && is_space(s.last()) {
        trim_right(s.drop_last())
    } else {
        s
    }
}

/// The sequence with whitespace dropped on both ends.
pub open spec fn spec_trim(s: Seq<char>) -> Seq<char> {
    trim_right(trim_left(s))
}

/// The header opens with the scheme name, case-insensitively.
pub open spec fn bearer_prefix(h: Seq<char>) -> bool {
    &&& h.len() >= 6
    &&& (h[0] == 'b' || h[0] == 'B')
    &&& (h[1] == 'e' || h[1] == 'E')
    &&& (h[2] == 'a' || h[2] == 'A')
    &&& (h[3] == 'r' || h[3] == 'R')
    &&& (h[4] == 'e' || h[4] == 'E')
    &&& (h[5] == 'r' || h[5] == 'R')
}

/// The token part of a bearer header: what stands after the scheme,
/// trimmed of surrounding whitespace; nothing for any other header.
pub open spec fn spec_strip_bearer(h: Seq<char>) -> Option<Seq<char>> {
    if bearer_prefix(h) {
        Some(spec_trim(h.subrange(6, h.len() as int)))
    } else {
        None
    }
}

/// Dropping leading whitespace is taking the subrange that starts at
/// the first non-whitespace position.
proof fn lemma_trim_left_subrange(s: Seq<char>, k: int)
    requires
        0 <= k <= s.len(),
        forall|j: int| 0 <= j < k ==> is_space(s[j]),
        k < s.len() ==> !is_space(s[k]),
    ensures
        trim_left(s) == s.subrange(k, s.len() as int),
    decreases k,
{
    if k == 0 {
        assert(s.subrange(0, s.len() as int) =~= s);
    } else {
        assert(is_space(s[0]));
        let t = s.drop_first();
        lemma_trim_left_subrange(t, k - 1);
        assert(t.subrange(k - 1, t.len() as int) =~= s.subrange(k, s.len() as int));
    }
}

/// Dropping trailing whitespace is taking the subrange that ends after
/// the last non-whitespace position.
proof fn lemma_trim_right_subrange(s: Seq<char>, k: int)
    requires
        0 <= k <= s.len(),
        forall|j: int| k <= j < s.len() ==> is_space(s[j]),
        k > 0 ==> !is_space(s[k - 1]),
    ensures
        trim_right(s) == s.subrange(0, k),
    decreases s.len() - k,
{
    if k == s.len() {
        assert(s.subrange(0, s.len() as int) =~= s);
    } else {
        assert(is_space(s.last()));
        let t = s.drop_last();
        lemma_trim_right_subrange(t, k);
        assert(t.subrange(0, k) =~= s.subrange(0, k));
    }
}

fn is_space_char(c: char) -> (r: bool)
    ensures
        r == is_space(c),
{
    c == ' ' || c == '\t' || c == '\r' || c == '\n'
}

/// The token of a case-insensitive `bearer` header, trimmed of
/// surrounding whitespace; nothing for a header of any other shape.
pub fn strip_bearer(h: &str) -> (r: Option<String>)
    ensures
        (r matches Some(t) ==> spec_strip_bearer(h@) == Some(t@)),
        r is None ==> spec_strip_bearer(h@) is None,
{
    let n = h.unicode_len();
    if n < 6 {
        return None;
    }
    let c0 = h.get_char(0);
    let c1 = h.get_char(1);
    let c2 = h.get_char(2);
    let c3 = h.get_char(3);
    let c4 = h.get_char(4);
    let c5 = h.get_char(5);
    if !((c0 == 'b' || c0 == 'B') && (c1 == 'e' || c1 == 'E') && (c2 == 'a' || c2 == 'A') && (c3
        == 'r' || c3 == 'R') && (c4 == 'e' || c4 == 'E') && (c5 == 'r' || c5 == 'R')) {
        return None;
    }
    let mut lo: usize = 6;
    while lo < n && is_space_char(h.get_char(lo))
        invariant
            6 <= lo <= n,
            n == h@.len(),
            forall|j: int| 6 <= j < lo ==> is_space(h@[j]),
        decreases n - lo,
    {
        lo += 1;
    }
    let mut hi: usize = n;
    while hi > lo && is_space_char(h.get_char(hi - 1))
        invariant
            lo <= hi <= n,
            n == h@.len(),
            forall|j: int| hi <= j < n ==> is_space(h@[j]),
        decreases hi,
    {
        hi -= 1;
    }
    let t = h.substring_char(lo, hi);
    proof {
        let rest = h@.subrange(6, n as int);
        lemma_trim_left_subrange(rest, lo - 6);
        let mid = rest.subrange(lo - 6, rest.len() as int);
        assert(mid =~= h@.subrange(lo as int, n as int));
        lemma_trim_right_subrange(mid, hi - lo);
        assert(mid.subrange(0, hi - lo) =~= h@.subrange(lo as int, hi as int));
    }
    Some(t.to_owned())
}

/// A header made of the scheme, one space and a whitespace-free token
/// strips back to exactly that token.
pub proof fn lemma_strip_bearer_roundtrip(h: Seq<char>, t: Seq<char>)
    requires
        h == "bearer "@ + t,
        forall|k: int| 0 <= k < t.len() ==> !is_space(t[k]),
    ensures
        spec_strip_bearer(h) == Some(t),
{
    reveal_strlit("bearer ");
    assert(bearer_prefix(h));
    let rest = h.subrange(6, h.len() as int);
    assert(rest =~= seq![' '] + t);
    lemma_trim_left_subrange(rest, 1);
    assert(trim_left(rest) =~= t);
    lemma_trim_right_subrange(trim_left(rest), t.len() as int);
    assert(trim_left(rest).subrange(0, t.len() as int) =~= t);
}

/// Issue a token for this identity and admin flag at clock `now`: the
/// expiry is the issue time plus the configured lifetime. A token is
/// always issued, except where that sum leaves the representable range.
pub fn generate_token(cfg: &TokenConfig, username: &str, isadmin: bool, now: i64) -> (r: Option<
    String,
>)
    requires
        cfg.wf(),
    ensures
        now + cfg.ttl > i64::MAX ==> r is None,
        now + cfg.ttl <= i64::MAX ==> r is Some,
        (r matches Some(t) ==> now + cfg.ttl <= i64::MAX),
        (r matches Some(t) ==> t@ == jwt_of(
            now,
            (now + cfg.ttl) as i64,
            username@,
            isadmin,
            cfg.secret@,
        )),
        (r matches Some(t) ==> forall|k: int| 0 <= k < t@.len() ==> !is_space(t@[k])),
{
    if now <= i64::MAX - cfg.ttl {
        encode_token(now, now + cfg.ttl, username, isadmin, cfg.secret.as_slice())
    } else {
        None
    }
}

/// Verify a bearer header at clock `now`: reject malformed headers,
/// signature mismatches and expired tokens uniformly by returning
/// nothing. Claims come back only for a header whose token carries a
/// valid signature under the configured secret; every token this
/// configuration issued comes back with exactly the identity and admin
/// flag it carries, as long as the clock has not passed its expiry; and
/// no claims with a passed expiry are ever returned.
pub fn decode(cfg: &TokenConfig, header: &str, now: i64) -> (r: Option<UserToken>)
    ensures
        (r matches Some(c) ==> now <= c.exp),
        (r matches Some(c) ==> spec_strip_bearer(header@) matches Some(tok) && hs256_valid(
            tok,
            cfg.secret@,
        )),
        spec_strip_bearer(header@) is None ==> r is None,
        forall|iat: i64, exp: i64, user: Seq<char>, isadmin: bool|
            spec_strip_bearer(header@) == Some(jwt_of(iat, exp, user, isadmin, cfg.secret@)) && now
                <= exp ==> (r matches Some(c) && c.iat == iat && c.exp == exp && c.user@ == user
                && c.isadmin == isadmin),
        forall|iat: i64, exp: i64, user: Seq<char>, isadmin: bool|
            spec_strip_bearer(header@) == Some(jwt_of(iat, exp, user, isadmin, cfg.secret@)) && now
                > exp ==> r is None,
{
    match strip_bearer(header) {
        None => None,
        Some(tok) => {
            match decode_token(tok.as_str(), cfg.secret.as_slice()) {
                None => None,
                Some(c) => {
                    if now <= c.exp {
                        Some(c)
                    } else {
                        None
                    }
                },
            }
        },
    }
}

} // verus!
