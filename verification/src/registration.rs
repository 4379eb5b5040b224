//! Matrix ids and the registration document handed to the homeserver.
//!
//! The registration claims exactly one exclusive user namespace: the
//! bot's own Matrix id, regex-escaped and anchored. The document's other
//! fields are fixed: rate limiting off, ephemeral push, device
//! masquerading and device management all on.

use vstd::prelude::*;

use crate::error::Error;
use crate::types::Config;
use crate::types::NamespaceEntry;
use crate::types::Namespaces;
use crate::types::Registration;

verus! {

/// A character with significance in a regular expression.
pub open spec fn is_regex_meta(c: char) -> bool {
    c == '\\' || c == '.' || c == '+' || c == '*' || c == '?' || c == '(' || c == ')' || c == '|'
        || c == '[' || c == ']' || c == '{' || c == '}' || c == '^' || c == '$' || c == '#' || c
        == '&' || c == '-' || c == '~'
}

/// Each meta character gains a backslash; everything else stands.
pub open spec fn spec_regex_escape(s: Seq<char>) -> Seq<char>
    decreases s.len(),
{
    if s.len() == 0 {
        Seq::<char>::empty()
    } else {
        (if is_regex_meta(s[0]) {
            seq!['\\', s[0]]
        } else {
            seq![s[0]]
        }) + spec_regex_escape(s.drop_first())
    }
}

/// Relies on regex::escape: every regex meta character (backslash, `.`,
/// `+`, `*`, `?`, parentheses, `|`, brackets, braces, `^`, `$`, `#`,
/// `&`, `-`, `~`) is prefixed with a backslash; all other characters
/// pass unchanged.
#[verifier::external_body]
fn escape_regex(s: &String) -> (r: String)
    ensures
        r@ == spec_regex_escape(s@),
{
    regex::escape(s.as_str())
}

/// The string an appservice URL becomes once the given port is set on
/// it, if the URL parses and can carry a port.
pub uninterp spec fn url_with_port_of(url: Seq<char>, port: u16) -> Option<Seq<char>>;

/// Relies on url's Url::parse and Url::set_port: both are functions of
/// their arguments alone; parse failure and a URL that cannot carry a
/// port yield nothing.
#[verifier::external_body]
fn url_with_port(url: &String, port: u16) -> (r: Option<String>)
    ensures
        r is Some <==> url_with_port_of(url@, port) is Some,
        r matches Some(s) ==> s@ == url_with_port_of(url@, port).unwrap(),
{
    match url::Url::parse(url.as_str()) {
        Ok(mut parsed) => match parsed.set_port(Some(port)) {
            Ok(()) => Some(String::from(parsed)),
            Err(()) => None,
        },
        Err(_) => None,
    }
}

/// `@localpart:server`: the full Matrix id of a user.
pub fn make_mxid(localpart: &String, server_name: &String) -> (r: String)
    ensures
        r@ == "@"@ + localpart@ + ":"@ + server_name@,
{
    let r = String::from_str("@").concat(localpart.as_str()).concat(":").concat(
        server_name.as_str(),
    );
    proof {
        assert(r@ =~= "@"@ + localpart@ + ":"@ + server_name@);
    }
    r
}

/// The shape of a full Matrix user id: an `@`, a non-empty localpart, a
/// colon, a non-empty server name.
pub open spec fn spec_valid_mxid(s: Seq<char>) -> bool {
    &&& s.len() >= 4
    &&& s[0] == '@'
    &&& exists|i: int| 2 <= i < s.len() - 1 && s[i] == ':'
}

/// Whether `s` has the shape of a full Matrix user id.
pub fn is_valid_mxid(s: &String) -> (r: bool)
    ensures
        r == spec_valid_mxid(s@),
{
    let sstr = s.as_str();
    let n = sstr.unicode_len();
    if n < 4 {
        return false;
    }
    if sstr.get_char(0) != '@' {
        return false;
    }
    let mut i: usize = 2;
    while i < n - 1
        invariant
            2 <= i <= n - 1,
            n == s@.len(),
            4 <= n,
            sstr@ == s@,
            s@[0] == '@',
            forall|k: int| 2 <= k < i ==> s@[k] != ':',
        decreases n - i,
    {
        if sstr.get_char(i) == ':' {
            return true;
        }
        i += 1;
    }
    false
}

/// The regex of the bot's exclusive user namespace: the full Matrix id,
/// escaped and anchored.
pub open spec fn spec_namespace_regex(mxid: Seq<char>) -> Seq<char> {
    "^"@ + spec_regex_escape(mxid) + "$"@
}

/// Builds the registration document: the appservice URL with its port
/// made explicit, the configured tokens and localpart, rate limiting
/// off, a single exclusive user namespace matching exactly the bot's
/// Matrix id, and the ephemeral-push, device-masquerading and
/// device-management flags all set. Fails only when the configured URL
/// cannot carry the port.
pub fn build_registration(config: &Config) -> (r: Result<Registration, Error>)
    ensures
        r is Ok <==> url_with_port_of(config.appservice.url@, config.appservice.port) is Some,
        r matches Ok(reg) ==> {
            &&& reg.id@ == config.appservice.id@
            &&& reg.url@ == url_with_port_of(
                config.appservice.url@,
                config.appservice.port,
            ).unwrap()
            &&& reg.as_token@ == config.appservice.as_token@
            &&& reg.hs_token@ == config.appservice.hs_token@
            &&& reg.sender_localpart@ == config.appservice.username@
            &&& reg.rate_limited == Some(false)
            &&& reg.protocols is None
            &&& reg.namespaces.users@.len() == 1
            &&& reg.namespaces.users@[0].exclusive
            &&& reg.namespaces.users@[0].regex@ == spec_namespace_regex(
                "@"@ + config.appservice.username@ + ":"@ + config.homeserver.server_name@,
            )
            &&& reg.namespaces.aliases@.len() == 0
            &&& reg.namespaces.rooms@.len() == 0
            &&& reg.receive_ephemeral == Some(true)
            &&& reg.device_masquerading == Some(true)
            &&& reg.device_management == Some(true)
        },
        r matches Err(e) ==> e is Other,
{
    let url = match url_with_port(&config.appservice.url, config.appservice.port) {
        Some(u) => u,
        None => {
            return Err(
                Error::Other(String::from_str("appservice URL cannot carry an explicit port")),
            );
        },
    };
    let mxid = make_mxid(&config.appservice.username, &config.homeserver.server_name);
    let escaped = escape_regex(&mxid);
    let regex = String::from_str("^").concat(escaped.as_str()).concat("$");
    proof {
        assert(regex@ =~= spec_namespace_regex(mxid@));
    }
    let mut users: Vec<NamespaceEntry> = Vec::new();
    users.push(NamespaceEntry { exclusive: true, regex });
    Ok(
        Registration {
            id: config.appservice.id.clone(),
            url,
            as_token: config.appservice.as_token.clone(),
            hs_token: config.appservice.hs_token.clone(),
            sender_localpart: config.appservice.username.clone(),
            namespaces: Namespaces { users, aliases: Vec::new(), rooms: Vec::new() },
            rate_limited: Some(false),
            protocols: None,
            receive_ephemeral: Some(true),
            device_masquerading: Some(true),
            device_management: Some(true),
        },
    )
}

} // verus!
