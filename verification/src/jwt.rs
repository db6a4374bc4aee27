//! The session token engine: issuing and verifying signed, self-contained
//! access and refresh credentials. The signing library and the clock sit
//! behind trusted wrappers; claims serialization, expiry arithmetic, and
//! the kind check are verified.

use vstd::prelude::*;
use vstd::string::{StrSliceExecFns, StringExecFns};
use base64::Engine;
use crate::claims::{Claims, ClaimsView, TokenType};
use crate::codec::{claims_payload, lemma_parse_payload, parse_claims, parse_claims_str, payload_spec};
use crate::config::SecurityConfig;
use crate::errors::AppError;
use crate::jellyfin::{UserInfo, UserInfoView};

verus! {

/// Seconds per day.
pub const DAY_SECONDS: i64 = 86400;

/// What the signing library produces for a key and a payload: signing is
/// deterministic (HMAC-SHA-256 under a fixed default header).
pub uninterp spec fn jwt_of(secret: Seq<u8>, payload: Seq<char>) -> Seq<char>;

/// What decoding a token under a key yields: `None` when the token's
/// format, signature or payload is rejected, otherwise the payload text.
pub uninterp spec fn jwt_payload_of(secret: Seq<u8>, token: Seq<char>) -> Option<Seq<char>>;

/// What the standard base64 alphabet encodes a byte string to.
pub uninterp spec fn b64_of(bytes: Seq<u8>) -> Seq<char>;

/// The signing wrappers guarantee this of every token they hand out:
/// decoding under the same key gives the signed payload back.
pub open spec fn signing_round_trip(secret: Seq<u8>, payload: Seq<char>) -> bool {
    jwt_payload_of(secret, jwt_of(secret, payload)) == Some(payload)
}

/// Relies on jsonwebtoken::encode with the default header (HS256): the
/// token is a deterministic function of key and payload, and decoding it
/// under the same key (jsonwebtoken::decode) yields the payload again.
/// The call cannot fail: the canonical payload of a well-formed claims
/// value is valid JSON (so the raw-value wrapping succeeds), HMAC signing
/// under the built-in provider accepts keys of every length, and the
/// token has the three-part dotted form, hence is never empty. No other
/// crypto provider is installed anywhere in this process.
#[verifier::external_body]
fn jwt_sign(secret: &Vec<u8>, payload: &String) -> (r: Option<String>)
    requires
        exists|c: ClaimsView| #[trigger] payload_spec(c) == payload@ && c.wf(),
    ensures
        r is Some,
        r is Some ==> r.unwrap()@ == jwt_of(secret@, payload@) && signing_round_trip(
            secret@,
            payload@,
        ) && r.unwrap()@.len() > 0,
{
    let raw = match serde_json::value::RawValue::from_string(payload.clone()) {
        Ok(raw) => raw,
        Err(_) => return None,
    };
    let key = jsonwebtoken::EncodingKey::from_secret(secret.as_slice());
    jsonwebtoken::encode(&jsonwebtoken::Header::default(), &raw, &key).ok()
}

/// Relies on jsonwebtoken::decode with HS256, checking format and
/// signature only: acceptance and the payload handed back are functions
/// of key and token alone.
#[verifier::external_body]
fn jwt_verify(secret: &Vec<u8>, token: &str) -> (r: Option<String>)
    ensures
        (r is Some <==> jwt_payload_of(secret@, token@) is Some),
        r is Some ==> r.unwrap()@ == jwt_payload_of(secret@, token@).unwrap(),
{
    let key = jsonwebtoken::DecodingKey::from_secret(secret.as_slice());
    let mut validation = jsonwebtoken::Validation::default();
    validation.validate_exp = false;
    validation.required_spec_claims.clear();
    let data = jsonwebtoken::decode::<Box<serde_json::value::RawValue>>(token, &key, &validation);
    match data {
        Ok(data) => Some(data.claims.get().to_string()),
        Err(_) => None,
    }
}

/// Relies on chrono::Utc::now: the clock reading in seconds since the
/// Unix epoch; nothing is assumed of the value.
#[verifier::external_body]
pub fn unix_now() -> i64 {
    chrono::Utc::now().timestamp()
}

/// Relies on rand::random: 32 bytes from the thread-local generator;
/// nothing is assumed of their values beyond the count.
#[verifier::external_body]
fn random_bytes() -> (r: Vec<u8>)
    ensures
        r@.len() == 32,
{
    rand::random::<[u8; 32]>().to_vec()
}

/// Relies on base64's standard-alphabet engine: the encoding is a
/// function of the input bytes alone.
#[verifier::external_body]
fn b64_standard(bytes: &Vec<u8>) -> (r: String)
    ensures
        r@ == b64_of(bytes@),
{
    base64::engine::general_purpose::STANDARD.encode(bytes.as_slice())
}

/// The last second of the UTC day that `now` falls in.
pub open spec fn end_of_day(now: int) -> int {
    now - (now % (DAY_SECONDS as int)) + (DAY_SECONDS as int) - 1
}

/// The claims of an access token issued to `u` at time `now`.
pub open spec fn access_claims(u: UserInfoView, now: int) -> ClaimsView {
    ClaimsView {
        sub: u.user_id,
        username: u.username,
        is_admin: u.is_administrator,
        exp: end_of_day(now),
        iat: now,
        token_type: TokenType::Access,
    }
}

/// The claims of a refresh token issued to `u` at time `now` with the
/// configured lifetime in days.
pub open spec fn refresh_claims(u: UserInfoView, now: int, days: int) -> ClaimsView {
    ClaimsView {
        sub: u.user_id,
        username: u.username,
        is_admin: u.is_administrator,
        exp: now + days * (DAY_SECONDS as int),
        iat: now,
        token_type: TokenType::Refresh,
    }
}

/// The complete behavior of token verification at a clock time: decode,
/// parse, expiry, then kind, each failure distinct.
pub open spec fn validate_spec(
    secret: Seq<u8>,
    token: Seq<char>,
    expected: TokenType,
    now: int,
) -> Result<ClaimsView, AppError> {
    match jwt_payload_of(secret, token) {
        None => Err(AppError::Unauthorized),
        Some(p) => match parse_claims(p) {
            None => Err(AppError::Unauthorized),
            Some(c) => if c.exp < now {
                Err(AppError::TokenExpired)
            } else if c.token_type != expected {
                Err(AppError::InvalidToken)
            } else {
                Ok(c)
            },
        },
    }
}

/// Issues and verifies session credentials with a process-wide secret.
pub struct JwtManager {
    secret: Vec<u8>,
    refresh_token_expiry_days: u64,
}

impl JwtManager {
    /// The signing secret's bytes.
    pub closed spec fn spec_secret(&self) -> Seq<u8> {
        self.secret@
    }

    /// The configured refresh-token lifetime in days.
    pub closed spec fn spec_refresh_days(&self) -> int {
        self.refresh_token_expiry_days as int
    }

    /// Build an engine from the security settings: a configured non-empty
    /// secret is used as given; otherwise a random one is generated, which
    /// invalidates all outstanding tokens on restart.
    pub fn new(config: &SecurityConfig) -> (r: Self)
        ensures
            r.spec_refresh_days() == config.refresh_token_expiry_days as int,
            config.jwt_secret matches Some(s) ==> (s@.len() > 0 ==> r.spec_secret()
                == vstd::utf8::encode_utf8(s@)),
    {
        let secret: Vec<u8> = match &config.jwt_secret {
            Some(s) => {
                if s.as_str().unicode_len() > 0 {
                    s.as_str().as_bytes_vec()
                } else {
                    Self::generate_secret()
                }
            },
            None => Self::generate_secret(),
        };
        JwtManager { secret, refresh_token_expiry_days: config.refresh_token_expiry_days }
    }

    /// A fresh 256-bit secret, carried as its base64 text as configured
    /// secrets would be.
    fn generate_secret() -> Vec<u8> {
        let bytes = random_bytes();
        let encoded = b64_standard(&bytes);
        encoded.as_str().as_bytes_vec()
    }

    /// Issue an access token at clock time `now`: it expires at the end of
    /// the current UTC day. Issuance succeeds at every clock reading the
    /// day arithmetic can represent; a negative or overflowing reading is
    /// an internal fault. The token is the signed encoding of exactly the
    /// access claims.
    pub fn create_access_token_at(&self, user_info: &UserInfo, now: i64) -> (r: Result<
        String,
        AppError,
    >)
        ensures
            (0 <= now && now < i64::MAX - DAY_SECONDS) ==> r is Ok,
            r is Ok ==> ({
                let c = access_claims(user_info@, now as int);
                &&& 0 <= now
                &&& c.wf()
                &&& r.unwrap()@ == jwt_of(self.spec_secret(), payload_spec(c))
                &&& signing_round_trip(self.spec_secret(), payload_spec(c))
                &&& r.unwrap()@.len() > 0
            }),
            now < 0 ==> r is Err,
    {
        if now < 0 || now >= i64::MAX - DAY_SECONDS {
            return Err(AppError::Internal(String::from_str("clock out of range")));
        }
        let eod: i64 = now / DAY_SECONDS * DAY_SECONDS + (DAY_SECONDS - 1);
        let claims = Claims {
            sub: user_info.user_id.clone(),
            username: user_info.username.clone(),
            is_admin: user_info.is_administrator,
            exp: eod,
            iat: now,
            token_type: TokenType::Access,
        };
        proof {
            assert(eod as int == end_of_day(now as int));
            assert(claims@ == access_claims(user_info@, now as int));
        }
        let payload = claims_payload(&claims);
        proof {
            assert(payload_spec(claims@) == payload@ && claims@.wf());
        }
        match jwt_sign(&self.secret, &payload) {
            Some(token) => Ok(token),
            None => Err(AppError::Internal(String::from_str("token encoding failed"))),
        }
    }

    /// Issue a refresh token at clock time `now`: it expires after the
    /// configured number of days. Issuance succeeds whenever the expiry
    /// fits a signed 64-bit count; clock or lifetime arithmetic that will
    /// not fit is an internal fault.
    pub fn create_refresh_token_at(&self, user_info: &UserInfo, now: i64) -> (r: Result<
        String,
        AppError,
    >)
        ensures
            (0 <= now && self.spec_refresh_days() <= ((i64::MAX - now) as int) / (
            DAY_SECONDS as int)) ==> r is Ok,
            r is Ok ==> ({
                let c = refresh_claims(user_info@, now as int, self.spec_refresh_days());
                &&& 0 <= now
                &&& c.wf()
                &&& r.unwrap()@ == jwt_of(self.spec_secret(), payload_spec(c))
                &&& signing_round_trip(self.spec_secret(), payload_spec(c))
                &&& r.unwrap()@.len() > 0
            }),
            now < 0 ==> r is Err,
    {
        if now < 0 {
            return Err(AppError::Internal(String::from_str("clock out of range")));
        }
        let headroom: u64 = ((i64::MAX - now) as u64) / (DAY_SECONDS as u64);
        if self.refresh_token_expiry_days > headroom {
            return Err(AppError::Internal(String::from_str("refresh lifetime out of range")));
        }
        let days: i64 = self.refresh_token_expiry_days as i64;
        proof {
            assert(days * (DAY_SECONDS as int) <= i64::MAX - now) by (nonlinear_arith)
                requires
                    0 <= days,
                    days <= ((i64::MAX - now) as int) / (DAY_SECONDS as int),
                    0 <= now,
            ;
        }
        let exp: i64 = now + days * DAY_SECONDS;
        let claims = Claims {
            sub: user_info.user_id.clone(),
            username: user_info.username.clone(),
            is_admin: user_info.is_administrator,
            exp,
            iat: now,
            token_type: TokenType::Refresh,
        };
        proof {
            assert(claims@ == refresh_claims(user_info@, now as int, self.spec_refresh_days()));
        }
        let payload = claims_payload(&claims);
        proof {
            assert(payload_spec(claims@) == payload@ && claims@.wf());
        }
        match jwt_sign(&self.secret, &payload) {
            Some(token) => Ok(token),
            None => Err(AppError::Internal(String::from_str("token encoding failed"))),
        }
    }

    /// Issue an access token at the current clock time; an accepted
    /// result is a non-empty signed encoding of the identity's access
    /// claims at some non-negative clock reading.
    pub fn create_access_token(&self, user_info: &UserInfo) -> (r: Result<String, AppError>)
        ensures
            r is Ok ==> r.unwrap()@.len() > 0,
            r is Ok ==> exists|t: int|
                {
                    &&& 0 <= t
                    &&& r.unwrap()@ == jwt_of(
                        self.spec_secret(),
                        payload_spec(#[trigger] access_claims(user_info@, t)),
                    )
                    &&& signing_round_trip(self.spec_secret(), payload_spec(access_claims(user_info@, t)))
                },
    {
        let now = unix_now();
        let r = self.create_access_token_at(user_info, now);
        proof {
            if r is Ok {
                assert(exists|t: int|
                    {
                        &&& 0 <= t
                        &&& r.unwrap()@ == jwt_of(
                            self.spec_secret(),
                            payload_spec(#[trigger] access_claims(user_info@, t)),
                        )
                        &&& signing_round_trip(
                            self.spec_secret(),
                            payload_spec(access_claims(user_info@, t)),
                        )
                    }) by {
                    assert(0 <= now as int && r.unwrap()@ == jwt_of(
                        self.spec_secret(),
                        payload_spec(access_claims(user_info@, now as int)),
                    ) && signing_round_trip(
                        self.spec_secret(),
                        payload_spec(access_claims(user_info@, now as int)),
                    ));
                }
            }
        }
        r
    }

    /// Issue a refresh token at the current clock time; an accepted
    /// result is a non-empty signed encoding of the identity's refresh
    /// claims at some non-negative clock reading.
    pub fn create_refresh_token(&self, user_info: &UserInfo) -> (r: Result<String, AppError>)
        ensures
            r is Ok ==> r.unwrap()@.len() > 0,
            r is Ok ==> exists|t: int|
                {
                    &&& 0 <= t
                    &&& r.unwrap()@ == jwt_of(
                        self.spec_secret(),
                        payload_spec(
                            #[trigger] refresh_claims(user_info@, t, self.spec_refresh_days()),
                        ),
                    )
                    &&& signing_round_trip(
                        self.spec_secret(),
                        payload_spec(refresh_claims(user_info@, t, self.spec_refresh_days())),
                    )
                },
    {
        let now = unix_now();
        let r = self.create_refresh_token_at(user_info, now);
        proof {
            if r is Ok {
                let c = refresh_claims(user_info@, now as int, self.spec_refresh_days());
                assert(0 <= now as int && r.unwrap()@ == jwt_of(
                    self.spec_secret(),
                    payload_spec(c),
                ) && signing_round_trip(self.spec_secret(), payload_spec(c)));
            }
        }
        r
    }

    /// Verify a token as the expected kind at clock time `now`: the result
    /// is exactly what [`validate_spec`] says of it, with decode failures,
    /// expiry and kind mismatch each reported distinctly.
    pub fn validate_token_at(&self, token: &str, expected_type: TokenType, now: i64) -> (r: Result<
        Claims,
        AppError,
    >)
        ensures
            match r {
                Ok(c) => validate_spec(self.spec_secret(), token@, expected_type, now as int)
                    == Ok::<ClaimsView, AppError>(c@),
                Err(e) => validate_spec(self.spec_secret(), token@, expected_type, now as int)
                    == Err::<ClaimsView, AppError>(e),
            },
    {
        let payload = match jwt_verify(&self.secret, token) {
            Some(p) => p,
            None => {
                return Err(AppError::Unauthorized);
            },
        };
        let claims = match parse_claims_str(payload.as_str()) {
            Some(c) => c,
            None => {
                return Err(AppError::Unauthorized);
            },
        };
        if claims.exp < now {
            return Err(AppError::TokenExpired);
        }
        if !(claims.token_type == expected_type) {
            return Err(AppError::InvalidToken);
        }
        Ok(claims)
    }

    /// Verify a token as the expected kind at the current clock time.
    /// Whatever the clock read, an accepted token decodes under this
    /// engine's secret to exactly the returned claims, and its kind
    /// matches the expected one.
    pub fn validate_token(&self, token: &str, expected_type: TokenType) -> (r: Result<
        Claims,
        AppError,
    >)
        ensures
            r matches Ok(c) ==> ({
                &&& jwt_payload_of(self.spec_secret(), token@) is Some
                &&& parse_claims(jwt_payload_of(self.spec_secret(), token@).unwrap()) == Some(c@)
                &&& c@.token_type == expected_type
            }),
    {
        let now = unix_now();
        self.validate_token_at(token, expected_type, now)
    }
}

// ---------- what the engine guarantees end to end ----------

/// An access token issued at time `t_issue` verifies as an access token at
/// any time up to the end of that UTC day and yields exactly the
/// identity's claims; at any later time it fails with the expiry error.
/// Stated under the signing round trip that the wrappers guarantee of
/// every token they produce.
pub proof fn lemma_access_token_verifies(
    secret: Seq<u8>,
    u: UserInfoView,
    t_issue: int,
    t_check: int,
)
    requires
        0 <= t_issue,
        end_of_day(t_issue) <= i64::MAX,
    ensures
        ({
            let c = access_claims(u, t_issue);
            let token = jwt_of(secret, payload_spec(c));
            signing_round_trip(secret, payload_spec(c)) ==> validate_spec(
                secret,
                token,
                TokenType::Access,
                t_check,
            ) == if t_check <= end_of_day(t_issue) {
                Ok::<ClaimsView, AppError>(c)
            } else {
                Err::<ClaimsView, AppError>(AppError::TokenExpired)
            }
        }),
{
    let c = access_claims(u, t_issue);
    if signing_round_trip(secret, payload_spec(c)) {
        assert(0 <= t_issue % 86400 < 86400);
        lemma_parse_payload(c);
    }
}

/// A token issued as one kind never verifies as the other: within its
/// validity window verification fails with the kind-mismatch error, and
/// after it with the expiry error — in both directions.
pub proof fn lemma_kind_mismatch_rejected(
    secret: Seq<u8>,
    u: UserInfoView,
    t_issue: int,
    t_check: int,
    days: int,
)
    requires
        0 <= t_issue,
        0 <= days,
        end_of_day(t_issue) <= i64::MAX,
        t_issue + days * (DAY_SECONDS as int) <= i64::MAX,
    ensures
        ({
            let c = access_claims(u, t_issue);
            signing_round_trip(secret, payload_spec(c)) ==> validate_spec(
                secret,
                jwt_of(secret, payload_spec(c)),
                TokenType::Refresh,
                t_check,
            ) == if t_check <= end_of_day(t_issue) {
                Err::<ClaimsView, AppError>(AppError::InvalidToken)
            } else {
                Err::<ClaimsView, AppError>(AppError::TokenExpired)
            }
        }),
        ({
            let c = refresh_claims(u, t_issue, days);
            signing_round_trip(secret, payload_spec(c)) ==> validate_spec(
                secret,
                jwt_of(secret, payload_spec(c)),
                TokenType::Access,
                t_check,
            ) == if t_check <= c.exp {
                Err::<ClaimsView, AppError>(AppError::InvalidToken)
            } else {
                Err::<ClaimsView, AppError>(AppError::TokenExpired)
            }
        }),
{
    let ca = access_claims(u, t_issue);
    if signing_round_trip(secret, payload_spec(ca)) {
        assert(0 <= t_issue % 86400 < 86400);
        lemma_parse_payload(ca);
    }
    let cr = refresh_claims(u, t_issue, days);
    if signing_round_trip(secret, payload_spec(cr)) {
        assert(0 <= days * (DAY_SECONDS as int)) by (nonlinear_arith)
            requires
                0 <= days,
        ;
        lemma_parse_payload(cr);
    }
}

/// A refresh token issued at time `t_issue` verifies as a refresh token at
/// any time up to its configured expiry and yields exactly the identity's
/// claims; at any later time it fails with the expiry error. Stated under
/// the signing round trip that the wrappers guarantee of every token they
/// produce.
pub proof fn lemma_refresh_token_verifies(
    secret: Seq<u8>,
    u: UserInfoView,
    t_issue: int,
    t_check: int,
    days: int,
)
    requires
        0 <= t_issue,
        0 <= days,
        t_issue + days * (DAY_SECONDS as int) <= i64::MAX,
    ensures
        ({
            let c = refresh_claims(u, t_issue, days);
            let token = jwt_of(secret, payload_spec(c));
            signing_round_trip(secret, payload_spec(c)) ==> validate_spec(
                secret,
                token,
                TokenType::Refresh,
                t_check,
            ) == if t_check <= c.exp {
                Ok::<ClaimsView, AppError>(c)
            } else {
                Err::<ClaimsView, AppError>(AppError::TokenExpired)
            }
        }),
{
    let c = refresh_claims(u, t_issue, days);
    if signing_round_trip(secret, payload_spec(c)) {
        assert(0 <= days * (DAY_SECONDS as int)) by (nonlinear_arith)
            requires
                0 <= days,
        ;
        lemma_parse_payload(c);
    }
}

/// Verification is entirely determined by the verifying engine's own
/// decoding: an access token signed under one secret fails under an engine
/// whose decoding rejects it — and rejecting every token signed under a
/// key it does not hold is exactly what the signing library's signature
/// check does. The cryptographic rejection itself lives in that library;
/// what is proved here is that nothing downstream of it can resurrect a
/// rejected token.
pub proof fn lemma_cross_secret_rejected(
    issuing_secret: Seq<u8>,
    verifying_secret: Seq<u8>,
    u: UserInfoView,
    t_issue: int,
    expected: TokenType,
    t_check: int,
)
    ensures
        ({
            let token = jwt_of(issuing_secret, payload_spec(access_claims(u, t_issue)));
            jwt_payload_of(verifying_secret, token) is None ==> validate_spec(
                verifying_secret,
                token,
                expected,
                t_check,
            ) == Err::<ClaimsView, AppError>(AppError::Unauthorized)
        }),
{
}

} // verus!
