use vstd::prelude::*;
use vstd::string::StrSliceExecFns;
use vstd::string::StringExecFns;
use prs_lib::Plaintext;
use url::Url;
use crate::filter::{Filter, filter_of_text};

verus! {

/// A login held in the local password store.
#[derive(Debug, PartialEq, Eq)]
pub struct LocalLogin {
    pub password: String,
    pub username: String,
    /// The absolute URL in its normalized form.
    pub hostname: String,
    /// The host part of `hostname`, where it has one.
    pub host: Option<String>,
    pub filter: Option<Filter>,
}

/// The value of a `LocalLogin`.
pub struct LocalView {
    pub password: Seq<char>,
    pub username: Seq<char>,
    pub hostname: Seq<char>,
    pub host: Option<Seq<char>>,
    pub filter: Option<Filter>,
}

/// A login held by the sync service.
#[derive(Debug, PartialEq, Eq)]
pub struct RemoteLogin {
    pub id: String,
    pub username: String,
    pub password: String,
    /// The absolute URL in its normalized form.
    pub hostname: String,
}

/// The value of a `RemoteLogin`.
pub struct RemoteView {
    pub id: Seq<char>,
    pub username: Seq<char>,
    pub password: Seq<char>,
    pub hostname: Seq<char>,
}

/// An absolute URL as parsed: its normalized text and its host.
#[derive(Debug, PartialEq, Eq)]
pub struct ParsedUrl {
    pub text: String,
    pub host: Option<String>,
}

/// Why a secret could not be turned into a login.
#[derive(Clone, Copy, Debug, PartialEq, Eq, Structural)]
pub enum ExtractError {
    /// The hostname is not an absolute URL.
    InvalidUrl,
    /// The `fxa` property is neither `include` nor `exclude`.
    UnknownFilter,
}

pub open spec fn opt_str(o: Option<String>) -> Option<Seq<char>> {
    match o {
        Some(s) => Some(s@),
        None => None,
    }
}

impl View for LocalLogin {
    type V = LocalView;

    open spec fn view(&self) -> LocalView {
        LocalView {
            password: self.password@,
            username: self.username@,
            hostname: self.hostname@,
            host: opt_str(self.host),
            filter: self.filter,
        }
    }
}

impl View for RemoteLogin {
    type V = RemoteView;

    open spec fn view(&self) -> RemoteView {
        RemoteView {
            id: self.id@,
            username: self.username@,
            password: self.password@,
            hostname: self.hostname@,
        }
    }
}

pub open spec fn url_view(u: Option<ParsedUrl>) -> Option<(Seq<char>, Option<Seq<char>>)> {
    match u {
        Some(p) => Some((p.text@, opt_str(p.host))),
        None => None,
    }
}

pub open spec fn outcome_view(r: Result<Option<LocalLogin>, ExtractError>) -> Result<
    Option<LocalView>,
    ExtractError,
> {
    match r {
        Ok(Some(l)) => Ok(Some(l@)),
        Ok(None) => Ok(None),
        Err(e) => Err(e),
    }
}

/// Names the first line of a body as `prs_lib::Plaintext::first_line` reads it.
pub uninterp spec fn first_line_of(body: Seq<u8>) -> Option<Seq<char>>;

/// Names the value of a property of a body as `prs_lib::Plaintext::property` finds it.
pub uninterp spec fn property_of(body: Seq<u8>, name: Seq<char>) -> Option<Seq<char>>;

/// Names the normalized text of what `url::Url::parse` makes of a string.
pub uninterp spec fn parsed_url_of(s: Seq<char>) -> Option<Seq<char>>;

/// Names the host of what `url::Url::parse` makes of a string.
pub uninterp spec fn url_host_of(s: Seq<char>) -> Option<Seq<char>>;

/// Relies on prs_lib::Plaintext::first_line for the password line of a body;
/// a body that is not UTF-8 has none.
#[verifier::external_body]
fn first_line(body: &Vec<u8>) -> (r: Option<String>)
    ensures
        opt_str(r) == first_line_of(body@),
{
    let p = Plaintext::from(body.clone()).first_line().ok()?;
    p.unsecure_to_str().ok().map(|s| s.to_string())
}

/// Relies on prs_lib::Plaintext::property for the value of one `key: value` line.
#[verifier::external_body]
fn property(body: &Vec<u8>, name: &str) -> (r: Option<String>)
    ensures
        opt_str(r) == property_of(body@, name@),
{
    let p = Plaintext::from(body.clone()).property(name).ok()?;
    p.unsecure_to_str().ok().map(|s| s.to_string())
}

/// Relies on url::Url::parse, with Url::as_str and Url::host_str of what it returns.
#[verifier::external_body]
fn parse_url(s: &str) -> (r: Option<ParsedUrl>)
    ensures
        r is None <==> parsed_url_of(s@) is None,
        r matches Some(p) ==> Some(p.text@) == parsed_url_of(s@) && opt_str(p.host)
            == url_host_of(s@),
{
    let u = Url::parse(s).ok()?;
    Some(ParsedUrl { text: u.as_str().to_string(), host: u.host_str().map(|h| h.to_string()) })
}

/// Where the last segment of a slash-separated name starts.
pub open spec fn segment_start(s: Seq<char>) -> int
    decreases s.len(),
{
    if s.len() == 0 {
        0
    } else if s.last() == '/' {
        s.len() as int
    } else {
        segment_start(s.drop_last())
    }
}

pub proof fn lemma_segment_start_bounds(s: Seq<char>)
    ensures
        0 <= segment_start(s) <= s.len(),
        segment_start(s) > 0 ==> s[segment_start(s) - 1] == '/',
    decreases s.len(),
{
    if s.len() > 0 && s.last() != '/' {
        lemma_segment_start_bounds(s.drop_last());
    }
}

/// The final segment of a slash-separated name.
pub open spec fn last_segment(s: Seq<char>) -> Seq<char> {
    s.subrange(segment_start(s), s.len() as int)
}

/// The segment before the final one, where there is a non-empty one.
pub open spec fn parent_segment(s: Seq<char>) -> Option<Seq<char>> {
    let st = segment_start(s);
    if st == 0 {
        None
    } else {
        let seg = last_segment(s.subrange(0, st - 1));
        if seg.len() == 0 {
            None
        } else {
            Some(seg)
        }
    }
}

fn find_segment_start(s: &str) -> (r: usize)
    ensures
        r == segment_start(s@),
{
    let mut j: usize = s.unicode_len();
    assert(s@.subrange(0, j as int) == s@);
    while j > 0 && s.get_char(j - 1) != '/'
        invariant
            j <= s@.len(),
            segment_start(s@) == segment_start(s@.subrange(0, j as int)),
        decreases j,
    {
        assert(s@.subrange(0, j as int).drop_last() == s@.subrange(0, j - 1));
        j = j - 1;
    }
    j
}

/// The final segment of a slash-separated secret name.
pub fn name_segment(name: &str) -> (r: String)
    ensures
        r@ == last_segment(name@),
{
    proof {
        lemma_segment_start_bounds(name@);
    }
    let st = find_segment_start(name);
    String::from_str(name.substring_char(st, name.unicode_len()))
}

/// The segment of a slash-separated secret name that names its directory.
pub fn parent_name_segment(name: &str) -> (r: Option<String>)
    ensures
        opt_str(r) == parent_segment(name@),
{
    proof {
        lemma_segment_start_bounds(name@);
    }
    let st = find_segment_start(name);
    if st == 0 {
        return None;
    }
    let seg = name_segment(name.substring_char(0, st - 1));
    if seg.unicode_len() == 0 {
        None
    } else {
        Some(seg)
    }
}

/// The value of the first property among `keys` that the body holds.
pub open spec fn first_property(body: Seq<u8>, keys: Seq<Seq<char>>) -> Option<Seq<char>>
    decreases keys.len(),
{
    if keys.len() == 0 {
        None
    } else {
        match property_of(body, keys[0]) {
            Some(v) => Some(v),
            None => first_property(body, keys.drop_first()),
        }
    }
}

pub open spec fn user_keys() -> Seq<Seq<char>> {
    seq!["login"@, "username"@, "user"@]
}

pub open spec fn url_keys() -> Seq<Seq<char>> {
    seq!["url"@, "uri"@, "website"@, "site"@, "link"@, "launch"@]
}

pub open spec fn marker_key() -> Seq<char> {
    "fxa"@
}

pub open spec fn https_prefix() -> Seq<char> {
    "https://"@
}

pub open spec fn key_texts(keys: Seq<&str>) -> Seq<Seq<char>> {
    keys.map_values(|k: &str| k@)
}

/// Looks the properties up in the order of `keys` and returns the first value found.
pub fn property_any(body: &Vec<u8>, keys: &Vec<&str>) -> (r: Option<String>)
    ensures
        opt_str(r) == first_property(body@, key_texts(keys@)),
{
    let mut i: usize = 0;
    assert(key_texts(keys@).subrange(0, keys@.len() as int) == key_texts(keys@));
    while i < keys.len()
        invariant
            i <= keys@.len(),
            first_property(body@, key_texts(keys@)) == first_property(
                body@,
                key_texts(keys@).subrange(i as int, keys@.len() as int),
            ),
        decreases keys@.len() - i,
    {
        proof {
            let ks = key_texts(keys@).subrange(i as int, keys@.len() as int);
            assert(ks.drop_first() == key_texts(keys@).subrange(i + 1, keys@.len() as int));
            assert(ks[0] == keys@[i as int]@);
        }
        let v = property(body, keys[i]);
        if v.is_some() {
            return v;
        }
        i = i + 1;
    }
    None
}

/// The text that the hostname is parsed from: the first URL property, else an
/// `https://` URL made of the directory segment of the name.
pub open spec fn url_source_of(name: Seq<char>, url_prop: Option<Seq<char>>) -> Option<Seq<char>> {
    match url_prop {
        Some(u) => Some(u),
        None => match parent_segment(name) {
            Some(p) => Some(https_prefix() + p),
            None => None,
        },
    }
}

/// Chooses the text that the hostname of a secret is parsed from.
pub fn url_source(name: &str, url_prop: Option<String>) -> (r: Option<String>)
    ensures
        opt_str(r) == url_source_of(name@, opt_str(url_prop)),
{
    match url_prop {
        Some(u) => Some(u),
        None => match parent_name_segment(name) {
            Some(p) => {
                let prefix = String::from_str("https://");
                Some(prefix.concat(p.as_str()))
            },
            None => None,
        },
    }
}

/// What a secret becomes, given its name, the first line of its body, the first
/// username property, the parsed hostname (`Ok(None)` where there is no text to
/// parse, `Err` where parsing failed) and the marker property.
pub open spec fn assembled(
    name: Seq<char>,
    password: Option<Seq<char>>,
    user_prop: Option<Seq<char>>,
    url: Result<Option<(Seq<char>, Option<Seq<char>>)>, ()>,
    marker: Option<Seq<char>>,
) -> Result<Option<LocalView>, ExtractError> {
    match password {
        None => Ok(None),
        Some(pw) => match url {
            Ok(None) => Ok(None),
            Err(_) => Err(ExtractError::InvalidUrl),
            Ok(Some((text, host))) => {
                if marker is Some && filter_of_text(marker->0) is None {
                    Err(ExtractError::UnknownFilter)
                } else {
                    Ok(
                        Some(
                            LocalView {
                                password: pw,
                                username: match user_prop {
                                    Some(u) => u,
                                    None => last_segment(name),
                                },
                                hostname: text,
                                host,
                                filter: match marker {
                                    Some(m) => filter_of_text(m),
                                    None => None,
                                },
                            },
                        ),
                    )
                }
            },
        },
    }
}

pub open spec fn parse_outcome(src: Option<Seq<char>>) -> Result<
    Option<(Seq<char>, Option<Seq<char>>)>,
    (),
> {
    match src {
        None => Ok(None),
        Some(s) => match parsed_url_of(s) {
            None => Err(()),
            Some(t) => Ok(Some((t, url_host_of(s)))),
        },
    }
}

/// What a secret with this name and decrypted body becomes: skipped (`Ok(None)`),
/// a login, or an error.
pub open spec fn extracted(name: Seq<char>, body: Seq<u8>) -> Result<Option<LocalView>, ExtractError> {
    assembled(
        name,
        first_line_of(body),
        first_property(body, user_keys()),
        parse_outcome(url_source_of(name, first_property(body, url_keys()))),
        property_of(body, marker_key()),
    )
}

impl LocalLogin {
    /// Builds a login from the parts read out of a secret.
    pub fn assemble(
        name: &str,
        password: Option<String>,
        user_prop: Option<String>,
        url: Result<Option<ParsedUrl>, ()>,
        marker: Option<String>,
    ) -> (r: Result<Option<LocalLogin>, ExtractError>)
        ensures
            outcome_view(r) == assembled(
                name@,
                opt_str(password),
                opt_str(user_prop),
                match url {
                    Ok(u) => Ok(url_view(u)),
                    Err(e) => Err(e),
                },
                opt_str(marker),
            ),
    {
        let password = match password {
            None => return Ok(None),
            Some(p) => p,
        };
        let parsed = match url {
            Ok(None) => return Ok(None),
            Err(_) => return Err(ExtractError::InvalidUrl),
            Ok(Some(p)) => p,
        };
        let filter = match marker {
            Some(m) => match Filter::try_from(m.as_str()) {
                Ok(f) => Some(f),
                Err(_) => return Err(ExtractError::UnknownFilter),
            },
            None => None,
        };
        let username = match user_prop {
            Some(u) => u,
            None => name_segment(name),
        };
        Ok(Some(LocalLogin { password, username, hostname: parsed.text, host: parsed.host, filter }))
    }

    /// Reads a login out of a secret's name and decrypted body.
    pub fn new(name: &str, body: &Vec<u8>) -> (r: Result<Option<LocalLogin>, ExtractError>)
        ensures
            outcome_view(r) == extracted(name@, body@),
    {
        let password = first_line(body);
        if password.is_none() {
            return Ok(None);
        }
        let user_names: Vec<&str> = vec!["login", "username", "user"];
        let url_names: Vec<&str> = vec!["url", "uri", "website", "site", "link", "launch"];
        assert(key_texts(user_names@) =~= user_keys());
        assert(key_texts(url_names@) =~= url_keys());
        let user_prop = property_any(body, &user_names);
        let url_prop = property_any(body, &url_names);
        let src = url_source(name, url_prop);
        let url = match src {
            None => Ok(None),
            Some(s) => match parse_url(s.as_str()) {
                None => Err(()),
                Some(p) => Ok(Some(p)),
            },
        };
        let marker = property(body, "fxa");
        LocalLogin::assemble(name, password, user_prop, url, marker)
    }
}

impl LocalLogin {
    /// A login with the same value as this one.
    pub fn copy_login(&self) -> (r: LocalLogin)
        ensures
            r@ == self@,
    {
        let host = match &self.host {
            Some(h) => Some(h.clone()),
            None => None,
        };
        LocalLogin {
            password: self.password.clone(),
            username: self.username.clone(),
            hostname: self.hostname.clone(),
            host,
            filter: self.filter,
        }
    }
}

} // verus!
