//! Repository URLs.
use vstd::prelude::*;
use vstd::string::*;
use vstd::utf8::encode_utf8;

use gix::bstr::ByteSlice;

use crate::decode::{text_of, to_text};
use crate::mirror::{SyncError, SyncErrorView};
use crate::text::{decimal, opt_view, push_decimal, res_view, same_bytes, same_text};

verus! {

/// How a repository is reached.
#[derive(Debug)]
pub enum Scheme {
    File,
    Git,
    Ssh,
    Http,
    Https,
    /// Any other protocol.
    Ext(String),
}

/// The view of a [`Scheme`].
pub enum SchemeView {
    File,
    Git,
    Ssh,
    Http,
    Https,
    Ext(Seq<char>),
}

impl View for Scheme {
    type V = SchemeView;

    open spec fn view(&self) -> SchemeView {
        match self {
            Scheme::File => SchemeView::File,
            Scheme::Git => SchemeView::Git,
            Scheme::Ssh => SchemeView::Ssh,
            Scheme::Http => SchemeView::Http,
            Scheme::Https => SchemeView::Https,
            Scheme::Ext(name) => SchemeView::Ext(name@),
        }
    }
}

impl SchemeView {
    /// The name of the scheme.
    pub open spec fn name(self) -> Seq<char> {
        match self {
            SchemeView::File => "file"@,
            SchemeView::Git => "git"@,
            SchemeView::Ssh => "ssh"@,
            SchemeView::Http => "http"@,
            SchemeView::Https => "https"@,
            SchemeView::Ext(name) => name,
        }
    }
}

impl Scheme {
    /// The name of the scheme.
    pub fn as_str(&self) -> (r: &str)
        ensures
            r@ == self@.name(),
    {
        match self {
            Scheme::File => "file",
            Scheme::Git => "git",
            Scheme::Ssh => "ssh",
            Scheme::Http => "http",
            Scheme::Https => "https",
            Scheme::Ext(name) => name.as_str(),
        }
    }

    fn same(&self, other: &Scheme) -> (r: bool)
        ensures
            r == (self@ == other@),
    {
        match (self, other) {
            (Scheme::File, Scheme::File) => true,
            (Scheme::Git, Scheme::Git) => true,
            (Scheme::Ssh, Scheme::Ssh) => true,
            (Scheme::Http, Scheme::Http) => true,
            (Scheme::Https, Scheme::Https) => true,
            (Scheme::Ext(a), Scheme::Ext(b)) => *a == *b,
            _ => false,
        }
    }
}

/// A repository URL in its parts.
#[derive(Debug)]
pub struct Url {
    pub scheme: Scheme,
    pub user: Option<String>,
    pub password: Option<String>,
    pub host: Option<String>,
    /// Whether it was written as a bare path or like an argument of `scp`.
    pub alternative_form: bool,
    pub port: Option<u16>,
    pub path: Vec<u8>,
}

/// The view of a [`Url`].
#[verifier::ext_equal]
pub struct UrlView {
    pub scheme: SchemeView,
    pub user: Option<Seq<char>>,
    pub password: Option<Seq<char>>,
    pub host: Option<Seq<char>>,
    pub alternative_form: bool,
    pub port: Option<u16>,
    pub path: Seq<u8>,
}

impl View for Url {
    type V = UrlView;

    open spec fn view(&self) -> UrlView {
        UrlView {
            scheme: self.scheme@,
            user: opt_view(self.user),
            password: opt_view(self.password),
            host: opt_view(self.host),
            alternative_form: self.alternative_form,
            port: self.port,
            path: self.path@,
        }
    }
}

impl UrlView {
    /// A URL with a user has a host.
    pub open spec fn valid(self) -> bool {
        self.user is Some ==> self.host is Some
    }
}

/// The URL that a text says, or why it says none.
pub uninterp spec fn url_of(text: Seq<u8>) -> Result<UrlView, Seq<char>>;

/// Calls `gix::url::parse`. Of a URL that it accepts, this says only that a user comes with a
/// host.
#[verifier::external_body]
pub(crate) fn parse(text: &[u8]) -> (r: Result<Url, String>)
    ensures
        res_view(r) == url_of(text@),
        r matches Ok(url) ==> url@.valid(),
{
    gix::url::parse(text.as_bstr()).map_err(|e| e.to_string()).map(|url| Url {
        scheme: match url.scheme {
            gix::url::Scheme::File => Scheme::File,
            gix::url::Scheme::Git => Scheme::Git,
            gix::url::Scheme::Ssh => Scheme::Ssh,
            gix::url::Scheme::Http => Scheme::Http,
            gix::url::Scheme::Https => Scheme::Https,
            gix::url::Scheme::Ext(name) => Scheme::Ext(name),
        },
        alternative_form: url.serialize_alternative_form,
        path: url.path.into(),
        user: url.user, password: url.password, host: url.host, port: url.port,
    })
}

/// The text of a URL.
pub uninterp spec fn url_bytes(url: UrlView) -> Seq<u8>;

/// Calls `gix::Url::to_bstring`, which panics on a URL with a user and no host.
#[verifier::external_body]
pub(crate) fn to_bytes(url: Url) -> (r: Vec<u8>)
    requires
        url@.valid(),
    ensures
        r@ == url_bytes(url@),
{
    gix::Url {
        scheme: match url.scheme {
            Scheme::File => gix::url::Scheme::File,
            Scheme::Git => gix::url::Scheme::Git,
            Scheme::Ssh => gix::url::Scheme::Ssh,
            Scheme::Http => gix::url::Scheme::Http,
            Scheme::Https => gix::url::Scheme::Https,
            Scheme::Ext(name) => gix::url::Scheme::Ext(name),
        },
        serialize_alternative_form: url.alternative_form,
        path: url.path.into(),
        user: url.user, password: url.password, host: url.host, port: url.port,
    }.to_bstring().into()
}

impl UrlView {
    /// `scheme://host[:port]`, the part of a URL that credentials are scoped to.
    pub open spec fn origin(self) -> Seq<char> {
        let host = match self.host {
            Some(host) => host,
            None => Seq::empty(),
        };
        match self.port {
            Some(port) => self.scheme.name() + "://"@ + host + ":"@ + decimal(port as nat),
            None => self.scheme.name() + "://"@ + host,
        }
    }

    /// The path that the URL names on this machine, if it is local.
    pub open spec fn local_path(self) -> Option<Seq<u8>> {
        if self.scheme is File {
            Some(self.path)
        } else {
            None
        }
    }

    /// A local URL with `resolved` as its path, where there is a real path; any other as it is.
    pub open spec fn canonical(self, resolved: Option<Seq<u8>>) -> UrlView {
        match resolved {
            Some(resolved) => if self.scheme is File {
                UrlView { path: resolved, ..self }
            } else {
                self
            },
            None => self,
        }
    }

    /// The URL with asterisks for its password, if it has one.
    pub open spec fn masked(self) -> UrlView {
        if self.password is Some {
            UrlView { password: Some("***"@), ..self }
        } else {
            self
        }
    }
}

/// `scheme://host[:port]`, the part of `url` credentials are scoped to.
pub fn origin_of(url: &Url) -> (r: String)
    ensures
        r@ == url@.origin(),
{
    let mut out = url.scheme.as_str().to_owned().concat("://");
    if let Some(host) = &url.host {
        out.append(host.as_str());
    }
    if let Some(port) = url.port {
        out.append(":");
        push_decimal(&mut out, port as u64);
    }
    assert(out@ =~= url@.origin());
    out
}

/// The path that the URL in `text` names on this machine, if the text says a local URL.
pub open spec fn local_path_in(text: Seq<u8>) -> Option<Seq<u8>> {
    match url_of(text) {
        Ok(url) => url.local_path(),
        Err(_) => None,
    }
}

/// The path that the URL in `text` names on this machine, if the text says a local URL.
pub fn local_path(text: &[u8]) -> (r: Option<Vec<u8>>)
    ensures
        opt_view(r) == local_path_in(text@),
{
    match parse(text) {
        Ok(url) => match url.scheme {
            Scheme::File => Some(url.path),
            _ => None,
        },
        Err(_) => None,
    }
}

/// A clone stores local paths canonicalized, so local URLs are compared by their real path.
pub fn canonical(url: Url, resolved: Option<Vec<u8>>) -> (r: Url)
    ensures
        r@ == url@.canonical(opt_view(resolved)),
{
    let mut url = url;
    if let Some(resolved) = resolved {
        if let Scheme::File = url.scheme {
            url.path = resolved;
        }
    }
    url
}

/// Whether two URLs agree in all their parts.
pub fn same_url(a: &Url, b: &Url) -> (r: bool)
    ensures
        r == (a@ == b@),
{
    let ports: bool = match (a.port, b.port) {
        (Some(x), Some(y)) => x == y,
        (None, None) => true,
        _ => false,
    };
    a.scheme.same(&b.scheme) && same_text(&a.user, &b.user) && same_text(&a.password, &b.password)
        && same_text(&a.host, &b.host) && a.alternative_form == b.alternative_form && ports
        && same_bytes(a.path.as_slice(), b.path.as_slice())
}

/// The URL with asterisks for its password, if it has one.
pub fn mask(url: Url) -> (r: Url)
    ensures
        r@ == url@.masked(),
{
    let mut url = url;
    if url.password.is_some() {
        url.password = Some("***".to_owned());
    }
    url
}

/// A text for error messages: a URL with a password is written with asterisks for it, and any
/// other text stays as it is.
pub open spec fn redacted_text(text: Seq<char>) -> Seq<char> {
    match url_of(text_bytes(text)) {
        Ok(url) => if url.password is Some {
            text_of(url_bytes(url.masked()))
        } else {
            text
        },
        Err(_) => text,
    }
}

/// The bytes of a text in UTF-8.
pub open spec fn text_bytes(text: Seq<char>) -> Seq<u8> {
    encode_utf8(text)
}

/// `url` with any password removed, for error messages.
pub fn redacted(url: &str) -> (r: String)
    ensures
        r@ == redacted_text(url@),
{
    match parse(url.as_bytes()) {
        Ok(parsed) => if parsed.password.is_some() {
            to_text(to_bytes(mask(parsed)).as_slice())
        } else {
            url.to_owned()
        },
        Err(_) => url.to_owned(),
    }
}

/// Whether a cache that was cloned from the URL `found` is one of the URL `expected`; the real
/// paths are those of local URLs.
pub open spec fn origin_matches(
    found: Result<UrlView, Seq<char>>,
    real_found: Option<Seq<u8>>,
    expected: UrlView,
    real_expected: Option<Seq<u8>>,
) -> bool {
    match found {
        Ok(found) => found.canonical(real_found) == expected.canonical(real_expected),
        Err(_) => false,
    }
}

/// Whether a cache that was cloned from the URL `found` is one of the URL `expected`.
pub fn match_origin(
    found: Result<Url, String>,
    real_found: Option<Vec<u8>>,
    expected: Url,
    real_expected: Option<Vec<u8>>,
) -> (r: bool)
    ensures
        r == origin_matches(
            res_view(found),
            opt_view(real_found),
            expected@,
            opt_view(real_expected),
        ),
{
    match found {
        Ok(found) => same_url(&canonical(found, real_found), &canonical(expected, real_expected)),
        Err(_) => false,
    }
}

/// What checking the origin of a cache gives. The URL is checked first; the cache belongs to it if
/// its own URL agrees.
pub open spec fn origin_check(
    found: Option<Seq<u8>>,
    real_found: Option<Seq<u8>>,
    url: Seq<char>,
    real_expected: Option<Seq<u8>>,
) -> Result<(), SyncErrorView> {
    match url_of(text_bytes(url)) {
        Err(e) => Err(SyncErrorView::Git(e)),
        Ok(expected) => match found {
            None => Err(SyncErrorView::UrlMismatch { expected: url, found: Seq::empty() }),
            Some(text) => if origin_matches(url_of(text), real_found, expected, real_expected) {
                Ok(())
            } else {
                Err(
                    SyncErrorView::UrlMismatch {
                        expected: url,
                        found: redacted_text(text_of(text)),
                    },
                )
            },
        },
    }
}

/// The view of the result of a check.
pub open spec fn check_view(r: Result<(), SyncError>) -> Result<(), SyncErrorView> {
    match r {
        Ok(_) => Ok(()),
        Err(e) => Err(e@),
    }
}

/// Checks that a cache whose remote has the URL `found` is a mirror of `url`. The real paths are
/// those of the two URLs' [`local_path`]s, where they have one.
pub fn check_origin(
    found: Option<Vec<u8>>,
    real_found: Option<Vec<u8>>,
    url: &str,
    real_expected: Option<Vec<u8>>,
) -> (r: Result<(), SyncError>)
    ensures
        check_view(r) == origin_check(
            opt_view(found),
            opt_view(real_found),
            url@,
            opt_view(real_expected),
        ),
{
    let expected = match parse(url.as_bytes()) {
        Ok(expected) => expected,
        Err(e) => return Err(SyncError::git(e)),
    };
    match found {
        None => {
            let none = String::new();
            assert(none@ =~= Seq::<char>::empty());
            Err(SyncError::UrlMismatch { expected: url.to_owned(), found: none })
        },
        Some(text) => if match_origin(
            parse(text.as_slice()),
            real_found,
            expected,
            real_expected,
        ) {
            Ok(())
        } else {
            let found = redacted(to_text(text.as_slice()).as_str());
            Err(SyncError::UrlMismatch { expected: url.to_owned(), found })
        },
    }
}

/// A cache that was cloned from the very URL that is expected is accepted.
pub proof fn law_cache_of_the_same_url_is_accepted(url: Seq<char>, resolved: Option<Seq<u8>>)
    requires
        url_of(text_bytes(url)) is Ok,
    ensures
        origin_check(Some(text_bytes(url)), resolved, url, resolved) == Ok::<(), SyncErrorView>(()),
{
}

/// Local URLs that lead to the same real path are the same origin, however their paths are
/// written.
pub proof fn law_local_urls_match_by_real_path(a: UrlView, b: UrlView, resolved: Seq<u8>)
    requires
        a.scheme is File,
        a == (UrlView { path: a.path, ..b }),
    ensures
        origin_matches(Ok(a), Some(resolved), b, Some(resolved)),
{
}

/// URLs that are not local are the same origin only if they agree in every part.
pub proof fn law_remote_urls_match_exactly(
    a: UrlView,
    real_a: Option<Seq<u8>>,
    b: UrlView,
    real_b: Option<Seq<u8>>,
)
    requires
        !(a.scheme is File),
    ensures
        origin_matches(Ok(a), real_a, b, real_b) <==> a == b,
{
}

/// A password leaves no trace in an error message: URLs that differ in it alone read alike.
pub proof fn law_password_leaves_no_trace(a: Seq<char>, b: Seq<char>)
    requires
        url_of(text_bytes(a)) is Ok,
        url_of(text_bytes(b)) is Ok,
        url_of(text_bytes(a))->Ok_0.password is Some,
        url_of(text_bytes(b))->Ok_0 == (UrlView {
            password: url_of(text_bytes(b))->Ok_0.password,
            ..url_of(text_bytes(a))->Ok_0
        }),
        url_of(text_bytes(b))->Ok_0.password is Some,
    ensures
        redacted_text(a) == redacted_text(b),
{
}

/// The names of the schemes.
pub proof fn law_schemes_are_named(name: Seq<char>)
    ensures
        SchemeView::File.name() == "file"@,
        SchemeView::Git.name() == "git"@,
        SchemeView::Ssh.name() == "ssh"@,
        SchemeView::Http.name() == "http"@,
        SchemeView::Https.name() == "https"@,
        SchemeView::Ext(name).name() == name,
{
}

/// The origin of a URL is its scheme, its host and its port, if it has one. The user, the
/// password, the path and the way it was written make no difference.
pub proof fn law_origin_is_scheme_host_and_port(url: UrlView, other: UrlView)
    ensures
        url.host is Some && url.port is None ==> url.origin() == url.scheme.name() + "://"@
            + url.host->0,
        url.host is Some && url.port is Some ==> url.origin() == url.scheme.name() + "://"@
            + url.host->0 + ":"@ + decimal(url.port->0 as nat),
        url.host is None && url.port is None ==> url.origin() == url.scheme.name() + "://"@,
        url.host is None && url.port is Some ==> url.origin() == url.scheme.name() + "://"@ + ":"@
            + decimal(url.port->0 as nat),
        other == (UrlView { scheme: url.scheme, host: url.host, port: url.port, ..other })
            ==> other.origin() == url.origin(),
{
    assert("://"@ + Seq::<char>::empty() =~= "://"@);
    assert(url.scheme.name() + "://"@ + Seq::<char>::empty() =~= url.scheme.name() + "://"@);
}

/// A URL is local exactly if its scheme is that of files, and then its path is what it names.
pub proof fn law_only_files_are_local(url: UrlView, text: Seq<u8>)
    ensures
        url.scheme is File ==> url.local_path() == Some(url.path),
        !(url.scheme is File) ==> url.local_path() is None,
        url_of(text) == Ok::<_, Seq<char>>(url) && url.scheme is File ==> local_path_in(text)
            == Some(url.path),
        url_of(text) == Ok::<_, Seq<char>>(url) && !(url.scheme is File) ==> local_path_in(
            text,
        ) is None,
        url_of(text) is Err ==> local_path_in(text) is None,
{
}

/// A real path takes the place of the path of a local URL, and nothing else of any URL changes.
pub proof fn law_only_local_paths_are_resolved(url: UrlView, resolved: Seq<u8>)
    ensures
        url.canonical(None) == url,
        !(url.scheme is File) ==> url.canonical(Some(resolved)) == url,
        url.scheme is File ==> url.canonical(Some(resolved)).path == resolved,
        url.canonical(Some(resolved)) == (UrlView {
            path: url.canonical(Some(resolved)).path,
            ..url
        }),
{
}

/// A password is masked with asterisks, and nothing else of a URL changes.
pub proof fn law_only_the_password_is_masked(url: UrlView)
    ensures
        url.password is Some ==> url.masked().password == Some("***"@),
        url.password is None ==> url.masked().password is None,
        url.masked() == (UrlView { password: url.masked().password, ..url }),
{
}

/// A text is redacted exactly if it is a URL with a password, and then written as that URL with
/// asterisks for the password; any other text stays as it is.
pub proof fn law_only_passwords_are_redacted(text: Seq<char>)
    ensures
        ({
            let parsed = url_of(encode_utf8(text));
            &&& parsed is Err ==> redacted_text(text) == text
            &&& parsed is Ok && parsed->Ok_0.password is None ==> redacted_text(text) == text
            &&& parsed is Ok && parsed->Ok_0.password is Some ==> redacted_text(text) == text_of(
                url_bytes(UrlView { password: Some("***"@), ..parsed->Ok_0 }),
            )
        }),
{
}

/// Two origins agree exactly if they agree in every part, the path of a local one being the real
/// path where that is known. What is no URL agrees with none.
pub proof fn law_origins_agree_in_every_part(
    a: UrlView,
    b: UrlView,
    real_a: Option<Seq<u8>>,
    real_b: Option<Seq<u8>>,
    cause: Seq<char>,
)
    ensures
        ({
            let path_a = if a.scheme is File && real_a is Some {
                real_a->0
            } else {
                a.path
            };
            let path_b = if b.scheme is File && real_b is Some {
                real_b->0
            } else {
                b.path
            };
            origin_matches(Ok(a), real_a, b, real_b) <==> {
                &&& path_a == path_b
                &&& a.scheme == b.scheme
                &&& a.user == b.user
                &&& a.password == b.password
                &&& a.host == b.host
                &&& a.port == b.port
                &&& a.alternative_form == b.alternative_form
            }
        }),
        !origin_matches(Err(cause), real_a, b, real_b),
{
}

/// A cache is accepted exactly if it has a URL that agrees with the expected one. If not, the error
/// says the URL that was expected and, redacted, the one that was found.
pub proof fn law_mismatch_says_both_urls(
    found: Option<Seq<u8>>,
    real_found: Option<Seq<u8>>,
    url: Seq<char>,
    real_expected: Option<Seq<u8>>,
)
    ensures
        ({
            let expected = url_of(encode_utf8(url));
            let result = origin_check(found, real_found, url, real_expected);
            &&& expected matches Err(e) ==> result == Err::<(), _>(SyncErrorView::Git(e))
            &&& expected is Ok && found is None ==> result == Err::<(), _>(
                SyncErrorView::UrlMismatch { expected: url, found: Seq::empty() },
            )
            &&& expected is Ok && found is Some ==> {
                let agrees = origin_matches(
                    url_of(found->0),
                    real_found,
                    expected->Ok_0,
                    real_expected,
                );
                &&& agrees ==> result is Ok
                &&& !agrees ==> result == Err::<(), _>(
                    SyncErrorView::UrlMismatch {
                        expected: url,
                        found: redacted_text(text_of(found->0)),
                    },
                )
            }
        }),
{
}

/// Text is written in UTF-8.
pub proof fn law_text_is_written_in_utf8(text: Seq<char>)
    ensures
        text_bytes(text) == encode_utf8(text),
{
}

/// A URL is seen with all its parts, and a check as what it gave.
pub proof fn law_urls_are_seen_in_full(url: Url, name: String, check: Result<(), SyncError>)
    ensures
        url@.scheme == url.scheme@,
        url.user matches Some(s) ==> url@.user == Some(s@),
        url.user is None ==> url@.user is None,
        url.password matches Some(s) ==> url@.password == Some(s@),
        url.password is None ==> url@.password is None,
        url.host matches Some(s) ==> url@.host == Some(s@),
        url.host is None ==> url@.host is None,
        url@.alternative_form == url.alternative_form,
        url@.port == url.port,
        url@.path == url.path@,
        Scheme::File@ == SchemeView::File,
        Scheme::Git@ == SchemeView::Git,
        Scheme::Ssh@ == SchemeView::Ssh,
        Scheme::Http@ == SchemeView::Http,
        Scheme::Https@ == SchemeView::Https,
        Scheme::Ext(name)@ == SchemeView::Ext(name@),
        check is Ok ==> check_view(check) is Ok,
        check matches Err(e) ==> check_view(check) == Err::<(), _>(e@),
{
}

} // verus!
