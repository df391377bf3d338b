//! Authentication: the user model, the credential store behind Basic
//! authentication, scope checks, and the configuration types of the
//! single-sign-on providers (whose flows are external collaborators).
use vstd::prelude::*;
use crate::kvmap::StringMap;
use crate::parse::first_index_of;
use crate::strutil::str_eq;

verus! {

/// An authenticated identity and what it may do.
#[derive(Clone)]
pub struct User {
    pub username: String,
    pub roles: Vec<String>,
    pub scopes: Vec<String>,
}

/// The claims carried by an issued token.
#[derive(Clone)]
pub struct AuthToken {
    pub username: String,
    pub roles: Vec<String>,
    pub scopes: Vec<String>,
    pub exp: u64,
    pub iat: u64,
}

/// What a `username:password` configuration entry denotes: the name before
/// the first colon and the password after it, or nothing without a colon.
pub open spec fn user_entry(s: Seq<char>) -> Option<(Seq<char>, Seq<char>)> {
    let i = first_index_of(s, ':');
    if i == s.len() {
        None
    } else {
        Some((s.take(i), s.skip(i + 1)))
    }
}

/// The credential map a list of entries denotes; later entries win.
pub open spec fn users_of(entries: Seq<String>) -> Map<Seq<char>, Seq<char>>
    decreases entries.len(),
{
    if entries.len() == 0 {
        Map::empty()
    } else {
        match user_entry(entries.last()@) {
            Some(p) => users_of(entries.drop_last()).insert(p.0, p.1),
            None => users_of(entries.drop_last()),
        }
    }
}

/// Verifies credentials and derives scopes. Token and OIDC modes are
/// verified elsewhere; this service answers for Basic mode.
pub struct AuthService {
    pub mode: crate::config::AuthMode,
    pub jwt_secret: String,
    pub users: StringMap<String>,
}

impl AuthService {
    pub open spec fn wf(&self) -> bool {
        self.users.wf()
    }

    /// Builds the service from the configuration: the mode, the token
    /// secret, and the credential entries of the Basic section.
    pub fn new(config: &crate::config::AuthConfig) -> (r: Self)
        ensures
            r.wf(),
            r.mode == config.mode,
            r.jwt_secret@ == config.jwt_secret@,
            r.users@ =~= match config.basic {
                Some(b) => users_of(b.users@),
                None => Map::<Seq<char>, Seq<char>>::empty(),
            },
    {
        let mut users: StringMap<String> = StringMap::new();
        if let Some(basic) = &config.basic {
            let n = basic.users.len();
            let mut i: usize = 0;
            while i < n
                invariant
                    i <= n,
                    n == basic.users@.len(),
                    users.wf(),
                    users@ =~= users_of(basic.users@.take(i as int)),
                decreases n - i,
            {
                let entry = &basic.users[i];
                let entry_len = entry.as_str().unicode_len();
                proof {
                    crate::parse::lemma_first_index_of(entry@, ':');
                    assert(basic.users@.take(i as int + 1).drop_last() =~= basic.users@.take(
                        i as int,
                    ));
                    assert(basic.users@.take(i as int + 1).last() == basic.users@[i as int]);
                }
                match crate::parse::find_char(entry.as_str(), ':') {
                    Some(pos) => {
                        let name = entry.as_str().substring_char(0, pos);
                        let pass = entry.as_str().substring_char(pos + 1, entry_len);
                        users.insert(name.to_owned(), pass.to_owned());
                    },
                    None => {},
                }
                i = i + 1;
            }
            proof {
                assert(basic.users@.take(n as int) =~= basic.users@);
            }
        }
        AuthService {
            mode: match config.mode {
                crate::config::AuthMode::Basic => crate::config::AuthMode::Basic,
                crate::config::AuthMode::Token => crate::config::AuthMode::Token,
                crate::config::AuthMode::Oidc => crate::config::AuthMode::Oidc,
            },
            jwt_secret: config.jwt_secret.clone(),
            users,
        }
    }

    /// Verifies a username and password against the credential store, and
    /// hands back the identity with the configured deployment's default
    /// grant strings. Grants are matched by `scope_matches`, whose glob is
    /// the trailing position only, so these two grants cover requirements
    /// that equal them verbatim; wider access is granted through tokens
    /// whose scopes name repositories or end in a trailing glob.
    pub fn authenticate(&self, username: &str, password: &str) -> (r: Option<User>)
        requires
            self.wf(),
            self.mode is Basic,
        ensures
            r is Some <==> (self.users@.contains_key(username@) && self.users@[username@]
                == password@),
            match r {
                Some(u) => u.username@ == username@ && u.roles@.len() == 1 && u.roles@[0]@
                    == "user"@ && u.scopes@.len() == 2 && u.scopes@[0]@ == "repository:*:pull"@
                    && u.scopes@[1]@ == "repository:*:push"@,
                None => true,
            },
    {
        match self.users.get(username) {
            Some(stored) => {
                if str_eq(stored.as_str(), password) {
                    let mut roles: Vec<String> = Vec::new();
                    roles.push("user".to_owned());
                    let mut scopes: Vec<String> = Vec::new();
                    scopes.push("repository:*:pull".to_owned());
                    scopes.push("repository:*:push".to_owned());
                    Some(User { username: username.to_owned(), roles, scopes })
                } else {
                    None
                }
            },
            None => None,
        }
    }
}

/// The verification hook's decision on bearer claims: an unexpired token
/// yields the identity and scopes it carries, an expired one yields
/// nothing.
pub fn user_from_claims(sub: String, scopes: Vec<String>, exp: u64, now: u64) -> (r: Option<User>)
    ensures
        r is Some <==> exp > now,
        match r {
            Some(u) => u.username == sub && u.scopes == scopes && u.roles@.len() == 0,
            None => true,
        },
{
    if exp > now {
        Some(User { username: sub, roles: Vec::new(), scopes })
    } else {
        None
    }
}

/// Whether a granted scope covers a required one: they are equal, or the
/// grant ends in `*` and the requirement extends its stem.
pub open spec fn scope_matches(granted: Seq<char>, required: Seq<char>) -> bool {
    granted == required || (granted.len() > 0 && granted.last() == '*' && required.len()
        >= granted.len() - 1 && required.take(granted.len() - 1) == granted.drop_last())
}

/// Decides whether one granted scope covers the required one.
pub fn scope_covers(granted: &str, required: &str) -> (r: bool)
    ensures
        r == scope_matches(granted@, required@),
{
    let glen = granted.unicode_len();
    let rlen = required.unicode_len();
    if str_eq(granted, required) {
        return true;
    }
    if glen == 0 {
        return false;
    }
    if granted.get_char(glen - 1) != '*' {
        return false;
    }
    if rlen < glen - 1 {
        return false;
    }
    let stem = granted.substring_char(0, glen - 1);
    let head = required.substring_char(0, glen - 1);
    proof {
        assert(stem@ =~= granted@.drop_last());
        assert(head@ =~= required@.take(granted@.len() - 1));
    }
    str_eq(stem, head)
}

/// Whether a user holds a scope that covers the required one.
pub fn check_scope(user: &User, required: &str) -> (r: bool)
    ensures
        r == exists|i: int|
            0 <= i < user.scopes@.len() && scope_matches(#[trigger] user.scopes@[i]@, required@),
{
    let n = user.scopes.len();
    let mut i: usize = 0;
    while i < n
        invariant
            i <= n,
            n == user.scopes@.len(),
            forall|j: int| 0 <= j < i ==> !scope_matches(#[trigger] user.scopes@[j]@, required@),
        decreases n - i,
    {
        if scope_covers(user.scopes[i].as_str(), required) {
            return true;
        }
        i = i + 1;
    }
    false
}

/// Azure AD application settings.
#[derive(Clone)]
pub struct AzureConfig {
    pub tenant_id: String,
    pub client_id: String,
    pub client_secret: String,
    pub redirect_uri: String,
}

/// GitHub OAuth application settings.
#[derive(Clone)]
pub struct GitHubConfig {
    pub client_id: String,
    pub client_secret: String,
    pub redirect_uri: String,
}

/// Google OAuth application settings.
#[derive(Clone)]
pub struct GoogleConfig {
    pub client_id: String,
    pub client_secret: String,
    pub redirect_uri: String,
}

/// The OAuth provider set.
#[derive(Clone)]
pub struct OAuthConfig {
    pub azure: Option<AzureConfig>,
    pub github: Option<GitHubConfig>,
    pub google: Option<GoogleConfig>,
}

/// An identity as an OAuth provider reports it.
#[derive(Clone)]
pub struct OAuthUser {
    pub id: String,
    pub email: String,
    pub name: String,
    pub avatar_url: Option<String>,
    pub provider: String,
}

/// Holds the OAuth provider settings; the flows themselves are external
/// collaborators driven outside the verified core.
pub struct OAuthService {
    pub config: OAuthConfig,
}

impl OAuthService {
    pub fn new(config: OAuthConfig) -> (r: Self)
        ensures
            r.config == config,
    {
        OAuthService { config }
    }
}

/// OpenID Connect client settings.
#[derive(Clone)]
pub struct OidcConfig {
    pub enabled: bool,
    pub issuer_url: String,
    pub client_id: String,
    pub client_secret: String,
    pub redirect_uri: String,
}

/// An identity as an OIDC provider reports it.
#[derive(Clone)]
pub struct OidcUser {
    pub id: String,
    pub email: String,
    pub name: String,
    pub provider: String,
}

/// Holds the OIDC client settings; discovery and token exchange are
/// external collaborators driven outside the verified core.
pub struct OidcService {
    pub config: OidcConfig,
}

impl OidcService {
    pub fn new(config: OidcConfig) -> (r: Self)
        ensures
            r.config == config,
    {
        OidcService { config }
    }
}

/// What the standard base64 alphabet decodes a string to, when it decodes
/// at all: a function of the input alone.
pub uninterp spec fn b64_decode_of(s: Seq<char>) -> Option<Seq<u8>>;

/// Relies on base64's standard engine: decodes or fails, on the input
/// alone.
#[verifier::external_body]
fn b64_decode(s: &str) -> (r: Option<Vec<u8>>)
    ensures
        match (r, b64_decode_of(s@)) {
            (Some(v), Some(b)) => v@ == b,
            (None, None) => true,
            _ => false,
        },
{
    <base64::engine::GeneralPurpose as base64::Engine>::decode(
        &base64::engine::general_purpose::STANDARD,
        s,
    ).ok()
}

/// Relies on String::from_utf8: the characters whose UTF-8 encoding is
/// exactly these bytes, or failure when no characters encode to them.
#[verifier::external_body]
fn utf8_decode(b: Vec<u8>) -> (r: Option<String>)
    ensures
        match r {
            Some(s) => vstd::utf8::encode_utf8(s@) == b@,
            None => !(exists|chars: Seq<char>| vstd::utf8::encode_utf8(chars) == b@),
        },
{
    String::from_utf8(b).ok()
}

/// What a decoded `Basic` credential blob denotes: the characters before
/// the first colon and those after it.
pub open spec fn spec_basic_credentials(chars: Seq<char>) -> Option<(Seq<char>, Seq<char>)> {
    let i = first_index_of(chars, ':');
    if i == chars.len() {
        None
    } else {
        Some((chars.take(i), chars.skip(i + 1)))
    }
}

/// Unpacks the payload of a `Basic` authorization header: base64, then
/// UTF-8, then `username:password`. It succeeds exactly when the header
/// decodes to text with a colon, and every failure is `None`.
pub fn parse_basic_credentials(encoded: &str) -> (r: Option<(String, String)>)
    ensures
        r is Some <==> (match b64_decode_of(encoded@) {
            Some(bytes) => exists|chars: Seq<char>|
                #[trigger] vstd::utf8::encode_utf8(chars) == bytes && spec_basic_credentials(
                    chars,
                ) is Some,
            None => false,
        }),
        match r {
            Some(cred) => exists|chars: Seq<char>|
                {
                    &&& b64_decode_of(encoded@) == Some(vstd::utf8::encode_utf8(chars))
                    &&& #[trigger] spec_basic_credentials(chars) == Some((cred.0@, cred.1@))
                },
            None => true,
        },
{
    let bytes = match b64_decode(encoded) {
        Some(b) => b,
        None => {
            return None;
        },
    };
    let ghost bytes_view = bytes@;
    let text = match utf8_decode(bytes) {
        Some(t) => t,
        None => {
            return None;
        },
    };
    let text_len = text.as_str().unicode_len();
    let pos = match crate::parse::find_char(text.as_str(), ':') {
        Some(p) => p,
        None => {
            proof {
                crate::parse::lemma_first_index_of(text@, ':');
                assert(spec_basic_credentials(text@) is None);
                // the encoding pins the characters: no other decoding of
                // these bytes could hold a colon
                if exists|chars: Seq<char>|
                    #[trigger] vstd::utf8::encode_utf8(chars) == bytes_view
                        && spec_basic_credentials(chars) is Some {
                    let chars = choose|chars: Seq<char>|
                        #[trigger] vstd::utf8::encode_utf8(chars) == bytes_view
                            && spec_basic_credentials(chars) is Some;
                    vstd::utf8::encode_utf8_decode_utf8(chars);
                    vstd::utf8::encode_utf8_decode_utf8(text@);
                    assert(chars == text@);
                }
            }
            return None;
        },
    };
    let username = text.as_str().substring_char(0, pos);
    let password = text.as_str().substring_char(pos + 1, text_len);
    proof {
        assert(spec_basic_credentials(text@) == Some((username@, password@)));
        assert(vstd::utf8::encode_utf8(text@) == bytes_view);
    }
    Some((username.to_owned(), password.to_owned()))
}

} // verus!
