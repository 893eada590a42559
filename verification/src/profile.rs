//! The profiles of the command line tools: which server a profile talks
//! to, and where its secret key comes from.

use vstd::prelude::*;
use vstd::string::StringExecFns;
use crate::records::optional_text;
use crate::store::optional_str;

verus! {

/// What a caller may do.
#[derive(Clone, Copy, Debug, PartialEq, Eq, Structural)]
pub enum Role {
    User,
    ReadAll,
    Write,
    SuperAdmin,
}

/// A secret key, as its bytes in little-endian order.
#[derive(Debug)]
pub struct SecretKey {
    pub bytes: Vec<u8>,
}

impl View for SecretKey {
    type V = Seq<u8>;

    open spec fn view(&self) -> Seq<u8> {
        self.bytes@
    }
}

impl SecretKey {
    /// Reads a key from its hexadecimal form.
    pub fn from_hex(hex: &str) -> (r: Option<SecretKey>)
        ensures
            optional_key(r) == secret_key_of_hex(hex@),
    {
        secret_key_from_hex(hex)
    }

    /// A copy of the key.
    pub fn copy(&self) -> (r: SecretKey)
        ensures
            r@ == self@,
    {
        let mut bytes: Vec<u8> = Vec::new();
        let mut i: usize = 0;
        while i < self.bytes.len()
            invariant
                i <= self.bytes.len(),
                bytes@ == self.bytes@.take(i as int),
            decreases self.bytes.len() - i,
        {
            bytes.push(self.bytes[i]);
            assert(bytes@ =~= self.bytes@.take(i + 1));
            i = i + 1;
        }
        assert(bytes@ =~= self.bytes@);
        SecretKey { bytes }
    }
}

pub open spec fn optional_key(k: Option<SecretKey>) -> Option<Seq<u8>> {
    match k {
        Some(key) => Some(key@),
        None => None,
    }
}

/// Why a profile's server could not be made out.
#[derive(Debug)]
pub enum ProfileError {
    /// The text is no URL.
    UrlParseError,
    /// The URL names no host.
    InvalidServerUrl(String),
}

/// One profile of the tools.
#[derive(Debug)]
pub struct Profile {
    pub name: String,
    pub address: String,
    pub secret_key: Option<SecretKey>,
    pub secret_key_envar: Option<String>,
    pub roles: Vec<Role>,
    pub server: String,
}

/// All the profiles of a user.
#[derive(Debug)]
pub struct UserData {
    pub profiles: Vec<Profile>,
}

/// The bytes of the secret key that a text in hexadecimal stands for, if
/// it stands for one: what `RistrettoSecretKey::from_hex` of `tari_crypto`
/// makes of the text.
pub uninterp spec fn secret_key_of_hex(hex: Seq<char>) -> Option<Seq<u8>>;

/// Calls `RistrettoSecretKey::from_hex` and hands out the bytes of the key
/// that it gives, or nothing where it gives an error. The contract only
/// names the result: it depends on the text alone.
#[verifier::external_body]
fn secret_key_from_hex(hex: &str) -> (r: Option<SecretKey>)
    ensures
        optional_key(r) == secret_key_of_hex(hex@),
{
    let parsed = <tari_crypto::ristretto::RistrettoSecretKey as tari_crypto::tari_utilities::hex::Hex>::from_hex(hex);
    parsed.ok().map(
        |k| SecretKey { bytes: tari_crypto::tari_utilities::ByteArray::as_bytes(&k).to_vec() },
    )
}

/// The host that a text names when it is read as a URL: nothing where the
/// text is no URL, and no host where the URL has none. This is what
/// `Url::parse` of `url` and then `Url::host_str` give.
pub uninterp spec fn url_host(text: Seq<char>) -> Option<Option<Seq<char>>>;

pub open spec fn host_view(h: Option<Option<String>>) -> Option<Option<Seq<char>>> {
    match h {
        Some(Some(s)) => Some(Some(s@)),
        Some(None) => Some(None),
        None => None,
    }
}

/// Calls `Url::parse` and, on the URL that it gives, `Url::host_str`. The
/// result depends on the text alone.
#[verifier::external_body]
fn parse_host(text: &str) -> (r: Option<Option<String>>)
    ensures
        host_view(r) == url_host(text@),
{
    reqwest::Url::parse(text).ok().map(|u| u.host_str().map(|h| h.to_string()))
}

/// The key that a profile signs with: the key that it holds, or else the
/// key that the value of its environment variable stands for.
pub open spec fn chosen_key(
    held: Option<Seq<u8>>,
    variable: Option<Seq<char>>,
    value: Option<Seq<char>>,
) -> Option<Seq<u8>> {
    match held {
        Some(k) => Some(k),
        None => match (variable, value) {
            (Some(_), Some(v)) => secret_key_of_hex(v),
            _ => None,
        },
    }
}

/// What is made of a server's address once it has been read as a URL: its
/// host, or why it has none.
pub open spec fn host_or_reason(server: Seq<char>, parsed: Option<Option<Seq<char>>>) -> Result<
    Seq<char>,
    Option<Seq<char>>,
> {
    match parsed {
        Some(Some(h)) => Ok(h),
        Some(None) => Err(Some(server)),
        None => Err(None),
    }
}

pub open spec fn host_result(r: Result<String, ProfileError>) -> Result<Seq<char>, Option<Seq<char>>> {
    match r {
        Ok(h) => Ok(h@),
        Err(ProfileError::InvalidServerUrl(s)) => Err(Some(s@)),
        Err(ProfileError::UrlParseError) => Err(None),
    }
}

/// Makes the host, or the error, of what reading a server's address as a
/// URL gave.
pub fn host_of_parsed(server: &str, parsed: Option<Option<String>>) -> (r: Result<
    String,
    ProfileError,
>)
    ensures
        host_result(r) == host_or_reason(server@, host_view(parsed)),
{
    match parsed {
        Some(Some(h)) => Ok(h),
        Some(None) => Err(ProfileError::InvalidServerUrl(String::from_str(server))),
        None => Err(ProfileError::UrlParseError),
    }
}

/// The address of the server when nothing else is configured: the scheme,
/// `http` unless one is given; the host, `localhost` unless one is given;
/// and the port, if one is given, or 4444 where neither host nor port is.
pub open spec fn server_address(
    schema: Option<Seq<char>>,
    host: Option<Seq<char>>,
    port: Option<Seq<char>>,
) -> Seq<char> {
    let scheme = match schema {
        Some(s) => s,
        None => "http"@,
    };
    match (host, port) {
        (Some(h), Some(p)) => scheme + "://"@ + h + ":"@ + p,
        (Some(h), None) => scheme + "://"@ + h,
        (None, Some(p)) => scheme + "://localhost:"@ + p,
        (None, None) => scheme + "://localhost:4444"@,
    }
}

/// Writes the address of the server from what the environment gives.
pub fn default_server_address(schema: Option<&str>, host: Option<&str>, port: Option<&str>) -> (r:
    String)
    ensures
        r@ == server_address(optional_str(schema), optional_str(host), optional_str(port)),
{
    let mut s = match schema {
        Some(scheme) => String::from_str(scheme),
        None => String::from_str("http"),
    };
    match (host, port) {
        (Some(h), Some(p)) => {
            s.append("://");
            s.append(h);
            s.append(":");
            s.append(p);
        },
        (Some(h), None) => {
            s.append("://");
            s.append(h);
        },
        (None, Some(p)) => {
            s.append("://localhost:");
            s.append(p);
        },
        (None, None) => {
            s.append("://localhost:4444");
        },
    }
    s
}

/// The address of the server from what the environment gives, if it is a
/// URL.
pub fn default_server_url(schema: Option<&str>, host: Option<&str>, port: Option<&str>) -> (r:
    Result<String, ProfileError>)
    ensures
        match r {
            Ok(address) => address@ == server_address(
                optional_str(schema),
                optional_str(host),
                optional_str(port),
            ) && url_host(address@) is Some,
            Err(e) => e is UrlParseError && url_host(
                server_address(optional_str(schema), optional_str(host), optional_str(port)),
            ) is None,
        },
{
    let address = default_server_address(schema, host, port);
    match parse_host(address.as_str()) {
        Some(_) => Ok(address),
        None => Err(ProfileError::UrlParseError),
    }
}

impl Profile {
    /// The key that the profile signs with. `envar_value` is what the
    /// environment holds under the name in `secret_key_envar`, if it holds
    /// anything.
    pub fn secret_key(&self, envar_value: Option<&str>) -> (r: Option<SecretKey>)
        ensures
            optional_key(r) == chosen_key(
                optional_key(self.secret_key),
                optional_text(self.secret_key_envar),
                optional_str(envar_value),
            ),
    {
        match &self.secret_key {
            Some(k) => Some(k.copy()),
            None => match (&self.secret_key_envar, envar_value) {
                (Some(_), Some(v)) => secret_key_from_hex(v),
                _ => None,
            },
        }
    }

    /// The host of a server's address.
    pub fn server_url_for(server: &str) -> (r: Result<String, ProfileError>)
        ensures
            host_result(r) == host_or_reason(server@, url_host(server@)),
    {
        let parsed = parse_host(server);
        host_of_parsed(server, parsed)
    }

    /// The profile that a user starts with: the name `default`, no key, the
    /// role of a user, and the given server.
    pub fn with_server(address: String, server: String) -> (r: Profile)
        ensures
            r.name@ == "default"@,
            r.address@ == address@,
            r.secret_key is None,
            r.secret_key_envar is None,
            r.roles@ == seq![Role::User],
            r.server@ == server@,
    {
        let mut roles: Vec<Role> = Vec::new();
        roles.push(Role::User);
        Profile {
            name: String::from_str("default"),
            address,
            secret_key: None,
            secret_key_envar: None,
            roles,
            server,
        }
    }
}

} // verus!
