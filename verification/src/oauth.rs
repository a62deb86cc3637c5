//! Per-session authorization state and the store that maps session
//! keys to it.
//!
//! A session starts as `NeedsUserAuth` and transitions exactly once to
//! `FinishedAuth` on a successful code exchange; on any exchange
//! failure the entry is deleted rather than retried. The store's
//! transition functions are the only writer paths.

use vstd::hash_map::StringHashMap;
use vstd::prelude::*;
use vstd::string::*;
use vstd::utf8::{
    char_is_scalar, encode_scalar, has_width_3_encoding, has_width_4_encoding,
    last_continuation_byte, leading_byte_width_1, leading_byte_width_2, leading_byte_width_3,
    leading_byte_width_4, second_last_continuation_byte, third_last_continuation_byte,
};

use crate::errors::AuthError;
use crate::rng::random_u64;
use crate::oauth_token::{
    spec_token_checked_post, spec_valid_response, OAuthToken, TokenResponseData,
};

verus! {

/// What the application must know to send a user to the authorization
/// endpoint: env-supplied client credentials and redirect URL, plus
/// the fixed endpoint and scope.
pub struct ClientConfig {
    pub client_id: String,
    pub client_secret: String,
    pub redirect_url: String,
    pub auth_url: String,
    pub token_url: String,
    pub scope: String,
}

impl Clone for ClientConfig {
    /// Clones the configuration; the copy equals the original.
    fn clone(&self) -> (res: Self)
        ensures
            res == *self,
    {
        ClientConfig {
            client_id: self.client_id.clone(),
            client_secret: self.client_secret.clone(),
            redirect_url: self.redirect_url.clone(),
            auth_url: self.auth_url.clone(),
            token_url: self.token_url.clone(),
            scope: self.scope.clone(),
        }
    }
}

/// The authorization state of one session: awaiting user consent, or
/// authenticated with a refreshable credential.
pub enum UserState {
    NeedsUserAuth(ClientConfig),
    FinishedAuth(OAuthToken),
}

impl Clone for UserState {
    /// Clones the state; the copy equals the original.
    fn clone(&self) -> (res: Self)
        ensures
            res == *self,
    {
        match self {
            UserState::NeedsUserAuth(cfg) => UserState::NeedsUserAuth(cfg.clone()),
            UserState::FinishedAuth(t) => UserState::FinishedAuth(
                OAuthToken {
                    token: t.token.clone(),
                    expiration: t.expiration,
                    refresh_token: t.refresh_token.clone(),
                },
            ),
        }
    }
}

impl UserState {
    /// The state's invariant: an issued credential is well formed.
    pub open spec fn wf(self) -> bool {
        match self {
            UserState::NeedsUserAuth(cfg) => true,
            UserState::FinishedAuth(t) => t.wf(),
        }
    }

    /// Returns a live access token for an authenticated session; a
    /// session still awaiting consent yields `AuthRequired` untouched.
    pub fn token_checked(&mut self, now: u64, refresh_response: Option<TokenResponseData>) -> (res:
        Result<String, AuthError>)
        requires
            old(self).wf(),
        ensures
            final(self).wf(),
            match *old(self) {
                UserState::NeedsUserAuth(cfg) => *final(self) == *old(self) && res == Err::<
                    String,
                    AuthError,
                >(AuthError::AuthRequired),
                UserState::FinishedAuth(t) => *final(self) is FinishedAuth
                    && spec_token_checked_post(
                    t,
                    (*final(self))->FinishedAuth_0,
                    now,
                    refresh_response,
                    res,
                ),
            },
    {
        match self {
            UserState::FinishedAuth(token) => token.token_checked(now, refresh_response),
            UserState::NeedsUserAuth(_) => Err(AuthError::AuthRequired),
        }
    }
}

/// The process-wide table from session key to authorization state.
/// Entries live until explicitly replaced or removed; the store itself
/// never expires them.
pub struct TokenStore {
    map: StringHashMap<UserState>,
}

impl View for TokenStore {
    type V = Map<Seq<char>, UserState>;

    closed spec fn view(&self) -> Map<Seq<char>, UserState> {
        self.map@
    }
}

impl TokenStore {
    /// The store's invariant: every stored state is well formed.
    pub open spec fn wf(&self) -> bool {
        forall|k: Seq<char>| #[trigger] self@.contains_key(k) ==> self@[k].wf()
    }

    /// Creates an empty store.
    pub fn new() -> (s: TokenStore)
        ensures
            s@ == Map::<Seq<char>, UserState>::empty(),
            s.wf(),
    {
        TokenStore { map: StringHashMap::new() }
    }

    /// Binds a session key to a state, replacing any previous binding.
    pub fn put(&mut self, key: String, state: UserState)
        requires
            old(self).wf(),
            state.wf(),
        ensures
            final(self).wf(),
            final(self)@ == old(self)@.insert(key@, state),
    {
        self.map.insert(key, state);
        proof {
            assert forall|k: Seq<char>| #[trigger] self@.contains_key(k) implies self@[k].wf() by {
                if k != key@ {
                    assert(old(self)@.contains_key(k));
                }
            }
        }
    }

    /// Removes a session entirely; absent keys are left as they are.
    pub fn remove(&mut self, key: &str)
        requires
            old(self).wf(),
        ensures
            final(self).wf(),
            final(self)@ == old(self)@.remove(key@),
    {
        self.map.remove(key);
        proof {
            assert forall|k: Seq<char>| #[trigger] self@.contains_key(k) implies self@[k].wf() by {
                assert(old(self)@.contains_key(k));
            }
        }
    }

    /// Whether a session key is bound.
    pub fn contains(&self, key: &str) -> (b: bool)
        ensures
            b == self@.contains_key(key@),
    {
        self.map.contains_key(key)
    }

    /// Performs the one-shot `NeedsUserAuth` to `FinishedAuth`
    /// transition for a session, from the outcome of the code exchange
    /// against the token endpoint. A missing session is
    /// "authentication required"; a failed or invalid exchange deletes
    /// the entry; a session that already finished is left untouched.
    pub fn complete_session(&mut self, key: &str, now: u64, exchange: Option<
        TokenResponseData,
    >) -> (res: Result<(), AuthError>)
        requires
            old(self).wf(),
        ensures
            final(self).wf(),
            ({
                let m = old(self)@;
                if !m.contains_key(key@) {
                    res == Err::<(), AuthError>(AuthError::AuthRequired) && final(self)@ == m
                } else {
                    match m[key@] {
                        UserState::FinishedAuth(t) => res == Err::<(), AuthError>(
                            AuthError::ExchangeFailed,
                        ) && final(self)@ == m,
                        UserState::NeedsUserAuth(cfg) => {
                            if exchange is Some && spec_valid_response(now, exchange->0) {
                                &&& res == Ok::<(), AuthError>(())
                                &&& final(self)@.contains_key(key@)
                                &&& final(self)@[key@] is FinishedAuth
                                &&& final(self)@[key@]->FinishedAuth_0.spec_from_response(
                                    now,
                                    exchange->0,
                                )
                                &&& final(self)@ == m.insert(key@, final(self)@[key@])
                            } else {
                                res == Err::<(), AuthError>(AuthError::ExchangeFailed)
                                    && final(self)@ == m.remove(key@)
                            }
                        },
                    }
                }
            }),
    {
        match self.map.get(key) {
            None => {
                return Err(AuthError::AuthRequired);
            },
            Some(state) => match state {
                UserState::FinishedAuth(_) => {
                    return Err(AuthError::ExchangeFailed);
                },
                UserState::NeedsUserAuth(_) => {},
            },
        }
        let data = match exchange {
            None => {
                self.map.remove(key);
                return Err(AuthError::ExchangeFailed);
            },
            Some(data) => data,
        };
        match OAuthToken::try_from_response(now, &data) {
            Ok(token) => {
                self.map.insert(key.to_owned(), UserState::FinishedAuth(token));
                Ok(())
            },
            Err(_) => {
                self.map.remove(key);
                Err(AuthError::ExchangeFailed)
            },
        }
    }

    /// The stored refresh token of an authenticated session, handed
    /// out so the caller can present it to the token endpoint.
    pub fn refresh_token_of(&self, key: &str) -> (r: Option<String>)
        ensures
            match r {
                Some(t) => self@.contains_key(key@) && self@[key@] is FinishedAuth && t@
                    == self@[key@]->FinishedAuth_0.refresh_token@,
                None => !self@.contains_key(key@) || !(self@[key@] is FinishedAuth),
            },
    {
        match self.map.get(key) {
            Some(UserState::FinishedAuth(t)) => Some(t.refresh_token.clone()),
            Some(UserState::NeedsUserAuth(_)) => None,
            None => None,
        }
    }

    /// Returns a live access token for the session, refreshing the
    /// stored credential from the supplied refresh outcome when it has
    /// expired. A missing or unauthenticated session is
    /// "authentication required".
    pub fn token_checked(&mut self, key: &str, now: u64, refresh_response: Option<
        TokenResponseData,
    >) -> (res: Result<String, AuthError>)
        requires
            old(self).wf(),
        ensures
            final(self).wf(),
            ({
                let m = old(self)@;
                if !m.contains_key(key@) || !(m[key@] is FinishedAuth) {
                    res == Err::<String, AuthError>(AuthError::AuthRequired) && final(self)@ == m
                } else {
                    &&& final(self)@.contains_key(key@)
                    &&& final(self)@[key@] is FinishedAuth
                    &&& spec_token_checked_post(
                        m[key@]->FinishedAuth_0,
                        final(self)@[key@]->FinishedAuth_0,
                        now,
                        refresh_response,
                        res,
                    )
                    &&& final(self)@ == m.insert(key@, final(self)@[key@])
                }
            }),
    {
        let mut state = match self.map.get(key) {
            None => {
                return Err(AuthError::AuthRequired);
            },
            Some(state) => match state {
                UserState::FinishedAuth(_) => state.clone(),
                UserState::NeedsUserAuth(_) => {
                    return Err(AuthError::AuthRequired);
                },
            },
        };
        let res = state.token_checked(now, refresh_response);
        self.map.insert(key.to_owned(), state);
        proof {
            assert(old(self)@.insert(key@, self@[key@]) =~= self@);
        }
        res
    }
}

/// An RFC 3986 unreserved character, which percent-encoding passes
/// through unchanged.
pub open spec fn spec_is_unreserved(c: char) -> bool {
    let n = c as int;
    (97 <= n && n <= 122) || (65 <= n && n <= 90) || (48 <= n && n <= 57) || n == 45 || n == 46
        || n == 95 || n == 126
}

/// The upper-case hexadecimal digit of a value below sixteen.
pub open spec fn spec_hex_upper(n: int) -> char {
    if n == 0 {
        '0'
    } else if n == 1 {
        '1'
    } else if n == 2 {
        '2'
    } else if n == 3 {
        '3'
    } else if n == 4 {
        '4'
    } else if n == 5 {
        '5'
    } else if n == 6 {
        '6'
    } else if n == 7 {
        '7'
    } else if n == 8 {
        '8'
    } else if n == 9 {
        '9'
    } else if n == 10 {
        'A'
    } else if n == 11 {
        'B'
    } else if n == 12 {
        'C'
    } else if n == 13 {
        'D'
    } else if n == 14 {
        'E'
    } else {
        'F'
    }
}

/// A byte as a percent escape: `%` and two upper-case hex digits.
pub open spec fn spec_enc_byte(b: int) -> Seq<char> {
    seq!['%', spec_hex_upper(b / 16), spec_hex_upper(b % 16)]
}

/// A byte string as a run of percent escapes.
pub open spec fn spec_enc_bytes(bytes: Seq<u8>) -> Seq<char>
    decreases bytes.len(),
{
    if bytes.len() == 0 {
        Seq::<char>::empty()
    } else {
        spec_enc_byte(bytes[0] as int) + spec_enc_bytes(bytes.skip(1))
    }
}

/// One character percent-encoded: an unreserved character passes
/// through; any other becomes the percent escapes of its UTF-8 bytes.
pub open spec fn spec_enc_char(c: char) -> Seq<char> {
    if spec_is_unreserved(c) {
        seq![c]
    } else {
        spec_enc_bytes(encode_scalar(c as u32))
    }
}

/// A string percent-encoded character for character.
pub open spec fn spec_urlencode(s: Seq<char>) -> Seq<char>
    decreases s.len(),
{
    if s.len() == 0 {
        Seq::<char>::empty()
    } else {
        spec_enc_char(s[0]) + spec_urlencode(s.skip(1))
    }
}

/// The authorization redirect for a configuration and a session key:
/// the code-grant query with client, scope and redirect
/// percent-encoded, and the key as the `state` parameter.
pub open spec fn spec_authorize_url(config: ClientConfig, state: Seq<char>) -> Seq<char> {
    config.auth_url@ + "?response_type=code&client_id="@ + spec_urlencode(config.client_id@)
        + "&scope="@ + spec_urlencode(config.scope@) + "&redirect_uri="@ + spec_urlencode(
        config.redirect_url@,
    ) + "&state="@ + state
}

/// Whether percent-encoding passes the character through unchanged.
fn is_unreserved(c: char) -> (b: bool)
    ensures
        b == spec_is_unreserved(c),
{
    let n = c as u32;
    (97 <= n && n <= 122) || (65 <= n && n <= 90) || (48 <= n && n <= 57) || n == 45 || n == 46
        || n == 95 || n == 126
}

/// The upper-case hexadecimal digit of a value below sixteen.
fn hex_upper(n: u32) -> (r: &'static str)
    requires
        n < 16,
    ensures
        r@.len() == 1,
        r@[0] == spec_hex_upper(n as int),
{
    let s = match n {
        0 => "0",
        1 => "1",
        2 => "2",
        3 => "3",
        4 => "4",
        5 => "5",
        6 => "6",
        7 => "7",
        8 => "8",
        9 => "9",
        10 => "A",
        11 => "B",
        12 => "C",
        13 => "D",
        14 => "E",
        _ => "F",
    };
    proof {
        reveal_strlit("0");
        reveal_strlit("1");
        reveal_strlit("2");
        reveal_strlit("3");
        reveal_strlit("4");
        reveal_strlit("5");
        reveal_strlit("6");
        reveal_strlit("7");
        reveal_strlit("8");
        reveal_strlit("9");
        reveal_strlit("A");
        reveal_strlit("B");
        reveal_strlit("C");
        reveal_strlit("D");
        reveal_strlit("E");
        reveal_strlit("F");
    }
    s
}

/// Appends the percent escape of one byte.
fn enc_byte(r: &mut String, b: u32)
    requires
        b < 256,
    ensures
        final(r)@ == old(r)@ + spec_enc_byte(b as int),
{
    r.append("%");
    r.append(hex_upper(b / 16));
    r.append(hex_upper(b % 16));
    proof {
        reveal_strlit("%");
        assert("%"@ =~= seq!['%']);
        assert(r@ =~= old(r)@ + spec_enc_byte(b as int));
    }
}

proof fn lemma_enc_bytes1(b0: u8)
    ensures
        spec_enc_bytes(seq![b0]) == spec_enc_byte(b0 as int),
{
    assert(seq![b0].skip(1) =~= Seq::<u8>::empty());
    assert(spec_enc_bytes(Seq::<u8>::empty()) == Seq::<char>::empty());
    assert(spec_enc_bytes(seq![b0]) =~= spec_enc_byte(b0 as int));
}

proof fn lemma_enc_bytes2(b0: u8, b1: u8)
    ensures
        spec_enc_bytes(seq![b0, b1]) == spec_enc_byte(b0 as int) + spec_enc_byte(b1 as int),
{
    lemma_enc_bytes1(b1);
    assert(seq![b0, b1].skip(1) =~= seq![b1]);
    assert(spec_enc_bytes(seq![b0, b1]) =~= spec_enc_byte(b0 as int) + spec_enc_byte(b1 as int));
}

proof fn lemma_enc_bytes3(b0: u8, b1: u8, b2: u8)
    ensures
        spec_enc_bytes(seq![b0, b1, b2]) == spec_enc_byte(b0 as int) + spec_enc_byte(b1 as int)
            + spec_enc_byte(b2 as int),
{
    lemma_enc_bytes2(b1, b2);
    assert(seq![b0, b1, b2].skip(1) =~= seq![b1, b2]);
    assert(spec_enc_bytes(seq![b0, b1, b2]) =~= spec_enc_byte(b0 as int) + spec_enc_byte(b1 as int)
        + spec_enc_byte(b2 as int));
}

proof fn lemma_enc_bytes4(b0: u8, b1: u8, b2: u8, b3: u8)
    ensures
        spec_enc_bytes(seq![b0, b1, b2, b3]) == spec_enc_byte(b0 as int) + spec_enc_byte(b1 as int)
            + spec_enc_byte(b2 as int) + spec_enc_byte(b3 as int),
{
    lemma_enc_bytes3(b1, b2, b3);
    assert(seq![b0, b1, b2, b3].skip(1) =~= seq![b1, b2, b3]);
    assert(spec_enc_bytes(seq![b0, b1, b2, b3]) =~= spec_enc_byte(b0 as int) + spec_enc_byte(
        b1 as int,
    ) + spec_enc_byte(b2 as int) + spec_enc_byte(b3 as int));
}

/// Appends the percent escapes of a character's UTF-8 bytes.
fn enc_char_utf8(r: &mut String, c: char)
    ensures
        final(r)@ == old(r)@ + spec_enc_bytes(encode_scalar(c as u32)),
{
    let code = c as u32;
    let ghost r0 = r@;
    proof {
        char_is_scalar(c);
    }
    if code < 0x80 {
        proof {
            assert((code & 0x7F) < 256 && (code & 0x7F) == ((code & 0x7F) as u8) as u32) by (bit_vector);
        }
        enc_byte(r, code & 0x7F);
        proof {
            let bs = encode_scalar(code);
            assert(bs =~= seq![leading_byte_width_1(code)]);
            lemma_enc_bytes1(leading_byte_width_1(code));
            assert(r@ =~= r0 + spec_enc_bytes(bs));
        }
    } else if code < 0x800 {
        proof {
            assert((0xC0u32 | ((code >> 6) & 0x1F)) < 256 && (0xC0u32 | ((code >> 6) & 0x1F)) == (
            0xC0u8 | (((code >> 6) & 0x1F) as u8)) as u32) by (bit_vector);
            assert((0x80u32 | (code & 0x3F)) < 256 && (0x80u32 | (code & 0x3F)) == (0x80u8 | ((code
                & 0x3F) as u8)) as u32) by (bit_vector);
        }
        enc_byte(r, 0xC0 | ((code >> 6) & 0x1F));
        enc_byte(r, 0x80 | (code & 0x3F));
        proof {
            let bs = encode_scalar(code);
            assert(bs =~= seq![leading_byte_width_2(code), last_continuation_byte(code)]);
            lemma_enc_bytes2(leading_byte_width_2(code), last_continuation_byte(code));
            assert(r@ =~= r0 + spec_enc_bytes(bs));
        }
    } else if code < 0x10000 {
        proof {
            assert((0xE0u32 | ((code >> 12) & 0x0F)) < 256 && (0xE0u32 | ((code >> 12) & 0x0F)) == (
            0xE0u8 | (((code >> 12) & 0x0F) as u8)) as u32) by (bit_vector);
            assert((0x80u32 | ((code >> 6) & 0x3F)) < 256 && (0x80u32 | ((code >> 6) & 0x3F)) == (
            0x80u8 | (((code >> 6) & 0x3F) as u8)) as u32) by (bit_vector);
            assert((0x80u32 | (code & 0x3F)) < 256 && (0x80u32 | (code & 0x3F)) == (0x80u8 | ((code
                & 0x3F) as u8)) as u32) by (bit_vector);
        }
        enc_byte(r, 0xE0 | ((code >> 12) & 0x0F));
        enc_byte(r, 0x80 | ((code >> 6) & 0x3F));
        enc_byte(r, 0x80 | (code & 0x3F));
        proof {
            let bs = encode_scalar(code);
            assert(has_width_3_encoding(code));
            assert(bs =~= seq![
                leading_byte_width_3(code),
                second_last_continuation_byte(code),
                last_continuation_byte(code),
            ]);
            lemma_enc_bytes3(
                leading_byte_width_3(code),
                second_last_continuation_byte(code),
                last_continuation_byte(code),
            );
            assert(r@ =~= r0 + spec_enc_bytes(bs));
        }
    } else {
        proof {
            assert((0xF0u32 | ((code >> 18) & 0x7)) < 256 && (0xF0u32 | ((code >> 18) & 0x7)) == (
            0xF0u8 | (((code >> 18) & 0x7) as u8)) as u32) by (bit_vector);
            assert((0x80u32 | ((code >> 12) & 0x3F)) < 256 && (0x80u32 | ((code >> 12) & 0x3F)) == (
            0x80u8 | (((code >> 12) & 0x3F) as u8)) as u32) by (bit_vector);
            assert((0x80u32 | ((code >> 6) & 0x3F)) < 256 && (0x80u32 | ((code >> 6) & 0x3F)) == (
            0x80u8 | (((code >> 6) & 0x3F) as u8)) as u32) by (bit_vector);
            assert((0x80u32 | (code & 0x3F)) < 256 && (0x80u32 | (code & 0x3F)) == (0x80u8 | ((code
                & 0x3F) as u8)) as u32) by (bit_vector);
        }
        enc_byte(r, 0xF0 | ((code >> 18) & 0x7));
        enc_byte(r, 0x80 | ((code >> 12) & 0x3F));
        enc_byte(r, 0x80 | ((code >> 6) & 0x3F));
        enc_byte(r, 0x80 | (code & 0x3F));
        proof {
            let bs = encode_scalar(code);
            assert(has_width_4_encoding(code));
            assert(bs =~= seq![
                leading_byte_width_4(code),
                third_last_continuation_byte(code),
                second_last_continuation_byte(code),
                last_continuation_byte(code),
            ]);
            lemma_enc_bytes4(
                leading_byte_width_4(code),
                third_last_continuation_byte(code),
                second_last_continuation_byte(code),
                last_continuation_byte(code),
            );
            assert(r@ =~= r0 + spec_enc_bytes(bs));
        }
    }
}

/// Percent-encodes a query-parameter value.
pub fn urlencode(s: &str) -> (r: String)
    ensures
        r@ == spec_urlencode(s@),
{
    let n = s.unicode_len();
    let mut r = String::new();
    let mut i: usize = 0;
    proof {
        assert(s@.skip(0) =~= s@);
        assert(r@ + spec_urlencode(s@) =~= spec_urlencode(s@));
    }
    while i < n
        invariant
            n == s@.len(),
            i <= n,
            spec_urlencode(s@) == r@ + spec_urlencode(s@.skip(i as int)),
        decreases n - i,
    {
        let ghost r0 = r@;
        let ghost rest = s@.skip(i as int);
        let c = s.get_char(i);
        if is_unreserved(c) {
            r.append(s.substring_char(i, i + 1));
            proof {
                assert(s@.subrange(i as int, i as int + 1) =~= seq![rest[0]]);
                assert(spec_enc_char(rest[0]) =~= seq![rest[0]]);
            }
        } else {
            enc_char_utf8(&mut r, c);
            proof {
                assert(r@ =~= r0 + spec_enc_char(rest[0]));
            }
        }
        proof {
            assert(rest.skip(1) =~= s@.skip(i as int + 1));
            assert(spec_urlencode(rest) == spec_enc_char(rest[0]) + spec_urlencode(
                s@.skip(i as int + 1),
            ));
            assert(r0 + spec_urlencode(rest) =~= r@ + spec_urlencode(s@.skip(i as int + 1)));
        }
        i += 1;
    }
    proof {
        assert(s@.skip(n as int) =~= Seq::<char>::empty());
        assert(r@ + Seq::<char>::empty() =~= r@);
    }
    r
}

/// Whether a character is an upper-case hexadecimal digit.
pub open spec fn spec_is_hex_upper(c: char) -> bool {
    (48 <= c as int && c as int <= 57) || (65 <= c as int && c as int <= 70)
}

/// The printable session key a random draw denotes: the draw's sixteen
/// nibbles, highest first, each as an upper-case hexadecimal digit.
pub open spec fn spec_session_key(x: u64) -> Seq<char> {
    Seq::new(16, |i: int| spec_hex_upper(((x >> ((60 - 4 * i) as u64)) & 0xf) as int))
}

/// Every character of a session key is an upper-case hexadecimal digit.
pub proof fn lemma_session_key_hex(x: u64)
    ensures
        forall|i: int| 0 <= i < 16 ==> spec_is_hex_upper(#[trigger] spec_session_key(x)[i]),
{
    assert forall|i: int| 0 <= i < 16 implies spec_is_hex_upper(
        #[trigger] spec_session_key(x)[i],
    ) by {
        let shift = (60 - 4 * i) as u64;
        assert((x >> shift) & 0xf < 16) by (bit_vector);
    }
}

/// Derives the printable session key from a random draw.
fn session_key_from(x: u64) -> (r: String)
    ensures
        r@.len() == 16,
        r@ == spec_session_key(x),
{
    let mut r = String::new();
    let mut i: usize = 0;
    while i < 16
        invariant
            i <= 16,
            r@.len() == i,
            forall|j: int| 0 <= j < i ==> r@[j] == spec_session_key(x)[j],
        decreases 16 - i,
    {
        let shift: u64 = 60 - 4 * (i as u64);
        let nibble = x >> shift;
        let low = (nibble & 0xf) as u32;
        proof {
            assert((nibble & 0xf) < 16) by (bit_vector);
            assert(shift == (60 - 4 * (i as int)) as u64);
        }
        r.append(hex_upper(low));
        i += 1;
    }
    proof {
        assert(r@ =~= spec_session_key(x));
    }
    r
}

/// Builds the authorization redirect URL for a session key.
pub fn authorize_url(config: &ClientConfig, state: &str) -> (r: String)
    ensures
        r@ == spec_authorize_url(*config, state@),
{
    let mut r = String::from_str(config.auth_url.as_str());
    r.append("?response_type=code&client_id=");
    let enc_client = urlencode(config.client_id.as_str());
    r.append(enc_client.as_str());
    r.append("&scope=");
    let enc_scope = urlencode(config.scope.as_str());
    r.append(enc_scope.as_str());
    r.append("&redirect_uri=");
    let enc_redirect = urlencode(config.redirect_url.as_str());
    r.append(enc_redirect.as_str());
    r.append("&state=");
    r.append(state);
    proof {
        assert(r@ =~= spec_authorize_url(*config, state@));
    }
    r
}

/// Opens a new session: draws a fresh session key, binds it to
/// `NeedsUserAuth` with the given configuration, and returns the
/// authorization redirect URL together with the key. The key is the
/// session key the draw denotes: whatever the draw, sixteen upper-case
/// hexadecimal digits.
pub fn begin_oauth(store: &mut TokenStore, config: ClientConfig) -> (r: (String, String))
    requires
        old(store).wf(),
    ensures
        final(store).wf(),
        final(store)@ == old(store)@.insert(r.1@, UserState::NeedsUserAuth(config)),
        r.0@ == spec_authorize_url(config, r.1@),
        r.1@.len() == 16,
        forall|i: int| 0 <= i < r.1@.len() ==> spec_is_hex_upper(#[trigger] r.1@[i]),
{
    let draw = random_u64();
    let key = session_key_from(draw);
    proof {
        lemma_session_key_hex(draw);
    }
    let url = authorize_url(&config, key.as_str());
    store.put(key.clone(), UserState::NeedsUserAuth(config));
    (url, key)
}

} // verus!
