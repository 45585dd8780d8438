//! Calls into the uuid, url, hex, sha2, serde_json and dunce crates.
use crate::text::{ascii_lower, is_hex_digit};
use vstd::prelude::*;

verus! {

/// A UUID in its hyphenated form, with hexadecimal digits of either case.
pub open spec fn is_hyphenated(s: Seq<char>) -> bool {
    &&& s.len() == 36
    &&& forall|i: int|
        0 <= i < 36 ==> if i == 8 || i == 13 || i == 18 || i == 23 {
            #[trigger] s[i] == '-'
        } else {
            is_hex_digit(s[i])
        }
}

/// The texts that name a UUID: 32 hexadecimal digits, the hyphenated form, that
/// form in braces, or that form behind `urn:uuid:`.
pub open spec fn is_uuid(s: Seq<char>) -> bool {
    ||| s.len() == 32 && forall|i: int| 0 <= i < 32 ==> is_hex_digit(#[trigger] s[i])
    ||| is_hyphenated(s)
    ||| s.len() == 38 && s[0] == '{' && s[37] == '}' && is_hyphenated(s.subrange(1, 37))
    ||| s.len() == 45 && ascii_lower(s.subrange(0, 9)) == "urn:uuid:"@ && is_hyphenated(
        s.subrange(9, 45),
    )
}

/// `uuid::Uuid::parse_str` succeeds on exactly the texts that name a UUID.
#[verifier::external_body]
pub(crate) fn uuid_accepts(s: &str) -> (r: bool)
    ensures
        r == is_uuid(s@),
{
    uuid::Uuid::parse_str(s).is_ok()
}

/// `uuid::Uuid::new_v4` returns sixteen bytes, random but for the version and
/// variant bits.
#[verifier::external_body]
pub(crate) fn random_uuid() -> (r: Vec<u8>)
    ensures
        r@.len() == 16,
        r@[6] / 16 == 4,
        r@[8] / 64 == 2,
{
    uuid::Uuid::new_v4().as_bytes().to_vec()
}

/// The lower-case hexadecimal digit of a number below sixteen.
pub open spec fn hex_digit(n: int) -> char {
    if n < 10 {
        (n + 48) as u8 as char
    } else {
        (n + 87) as u8 as char
    }
}

/// Two lower-case hexadecimal digits for each byte, the high one first.
pub open spec fn hex_text(b: Seq<u8>) -> Seq<char> {
    Seq::new(
        2 * b.len(),
        |i: int|
            if i % 2 == 0 {
                hex_digit(b[i / 2] as int / 16)
            } else {
                hex_digit(b[i / 2] as int % 16)
            },
    )
}

/// `hex::encode` writes each byte as two lower-case hexadecimal digits.
#[verifier::external_body]
pub(crate) fn hex_encode(bytes: &Vec<u8>) -> (r: String)
    ensures
        r@ == hex_text(bytes@),
{
    hex::encode(bytes)
}

/// The SHA-256 digest of some bytes.
pub uninterp spec fn sha256(bytes: Seq<u8>) -> Seq<u8>;

/// `sha2::Sha256::digest` returns the SHA-256 digest, which has 32 bytes.
#[verifier::external_body]
pub(crate) fn sha256_digest(bytes: &[u8]) -> (r: Vec<u8>)
    ensures
        r@ == sha256(bytes@),
        r@.len() == 32,
{
    <sha2::Sha256 as sha2::Digest>::digest(bytes).to_vec()
}

/// A character as it stands in a JSON string literal.
pub open spec fn json_escape(c: char) -> Seq<char> {
    if c == '"' || c == '\\' {
        seq!['\\', c]
    } else if c == '\u{8}' {
        seq!['\\', 'b']
    } else if c == '\t' {
        seq!['\\', 't']
    } else if c == '\n' {
        seq!['\\', 'n']
    } else if c == '\u{c}' {
        seq!['\\', 'f']
    } else if c == '\r' {
        seq!['\\', 'r']
    } else if 0x20 > c as int {
        seq!['\\', 'u', '0', '0'] + hex_text(seq![c as u8])
    } else {
        seq![c]
    }
}

/// A text as it stands between the quotes of a JSON string literal.
pub open spec fn json_escaped(s: Seq<char>) -> Seq<char>
    decreases s.len(),
{
    if s.len() == 0 {
        Seq::empty()
    } else {
        json_escaped(s.drop_last()) + json_escape(s.last())
    }
}

/// The JSON string literal of a text.
pub open spec fn json_quoted(s: Seq<char>) -> Seq<char> {
    seq!['"'] + json_escaped(s) + seq!['"']
}

proof fn lemma_escaped_front(s: Seq<char>)
    requires
        s.len() > 0,
    ensures
        json_escaped(s) == json_escape(s[0]) + json_escaped(s.drop_first()),
    decreases s.len(),
{
    if s.len() == 1 {
        assert(s.drop_last() =~= Seq::<char>::empty());
        assert(s.drop_first() =~= Seq::<char>::empty());
        assert(json_escaped(s) =~= json_escape(s[0]) + json_escaped(s.drop_first()));
    } else {
        lemma_escaped_front(s.drop_last());
        let rest = s.drop_first();
        assert(s.drop_last().drop_first() =~= rest.drop_last());
        assert(rest.last() == s.last());
        assert(json_escaped(s) =~= json_escape(s[0]) + json_escaped(rest));
    }
}

/// The first character behind which a text goes on is told by how it is escaped.
proof fn lemma_escape_is_told(c: char, d: char, x: Seq<char>, y: Seq<char>)
    requires
        json_escape(c) + x == json_escape(d) + y,
    ensures
        c == d,
        x == y,
{
    let e = json_escape(c);
    let f = json_escape(d);
    let s = e + x;
    assert(s[0] == e[0] && s[0] == f[0]);
    if e.len() > 1 && f.len() > 1 {
        assert(s[1] == e[1] && s[1] == f[1]);
        if e.len() == 6 && f.len() == 6 {
            assert(s[4] == e[4] && s[4] == f[4]);
            assert(s[5] == e[5] && s[5] == f[5]);
            assert(e[4] == hex_text(seq![c as u8])[0] && e[5] == hex_text(seq![c as u8])[1]);
            assert(f[4] == hex_text(seq![d as u8])[0] && f[5] == hex_text(seq![d as u8])[1]);
        }
    }
    assert(c == d);
    assert(x =~= s.subrange(e.len() as int, s.len() as int));
    assert(y =~= s.subrange(f.len() as int, s.len() as int));
}

/// Where a JSON string literal ends, and what it stands for, is told by its characters.
pub proof fn lemma_quoted_is_told(a: Seq<char>, b: Seq<char>, x: Seq<char>, y: Seq<char>)
    requires
        json_escaped(a) + seq!['"'] + x == json_escaped(b) + seq!['"'] + y,
    ensures
        a == b,
        x == y,
    decreases a.len(),
{
    let s = json_escaped(a) + seq!['"'] + x;
    if a.len() > 0 {
        lemma_escaped_front(a);
        assert(s[0] == json_escape(a[0])[0]);
    } else {
        assert(s[0] == '"');
    }
    if b.len() > 0 {
        lemma_escaped_front(b);
        assert(s[0] == json_escape(b[0])[0]);
    } else {
        assert(s[0] == '"');
    }
    if a.len() > 0 {
        let p = json_escaped(a.drop_first()) + seq!['"'] + x;
        let q = json_escaped(b.drop_first()) + seq!['"'] + y;
        assert(s =~= json_escape(a[0]) + p);
        assert(s =~= json_escape(b[0]) + q);
        lemma_escape_is_told(a[0], b[0], p, q);
        lemma_quoted_is_told(a.drop_first(), b.drop_first(), x, y);
        assert(a =~= seq![a[0]] + a.drop_first());
        assert(b =~= seq![b[0]] + b.drop_first());
    } else {
        assert(a =~= b);
        assert(x =~= s.subrange(1, s.len() as int));
        assert(y =~= s.subrange(1, s.len() as int));
    }
}

/// `serde_json::to_string` on a string slice succeeds and returns its JSON string literal:
/// quotes, backslashes and control characters are escaped, and every other character stands
/// as it is.
#[verifier::external_body]
pub(crate) fn json_quote(s: &str) -> (r: String)
    ensures
        r@ == json_quoted(s@),
{
    serde_json::to_string(s).unwrap_or_default()
}

/// `dunce::simplified` returns a path as it is unless it begins with the Windows
/// verbatim prefix; of such a path nothing is claimed, since the result differs
/// between systems.
#[verifier::external_body]
pub(crate) fn simplified_path(path: &str) -> (r: String)
    ensures
        !crate::text::has_prefix(path@, "\\\\?\\"@) ==> r@ == path@,
{
    dunce::simplified(std::path::Path::new(path)).to_string_lossy().into_owned()
}

/// What the host of a URL is.
#[derive(Clone, Copy, PartialEq, Eq, Structural, Debug)]
pub enum HostKind {
    Absent,
    Domain,
    /// An IPv4 address, as its 32-bit number.
    V4(u32),
    /// An IPv6 address, as its 128-bit number.
    V6(u128),
}

/// The parts of a URL that the bridge's rules read.
pub struct UrlParts {
    pub scheme: String,
    pub username: String,
    pub password: Option<String>,
    pub host: Option<String>,
    pub host_kind: HostKind,
    /// The port, or the default port of the scheme.
    pub port: Option<u16>,
    /// The URL in its normal form.
    pub text: String,
}

/// The mathematical value of [`UrlParts`].
pub struct UrlModel {
    pub scheme: Seq<char>,
    pub username: Seq<char>,
    pub password: Option<Seq<char>>,
    pub host: Option<Seq<char>>,
    pub host_kind: HostKind,
    pub port: Option<u16>,
    pub text: Seq<char>,
}

impl View for UrlParts {
    type V = UrlModel;

    open spec fn view(&self) -> UrlModel {
        UrlModel {
            scheme: self.scheme@,
            username: self.username@,
            password: crate::text::opt_text(self.password),
            host: crate::text::opt_text(self.host),
            host_kind: self.host_kind,
            port: self.port,
            text: self.text@,
        }
    }
}

/// The URL that a text writes, or the words in which the parser refuses it.
pub uninterp spec fn parsed_url(s: Seq<char>) -> Result<UrlModel, Seq<char>>;

/// `url::Url::parse`, with the parts of the URL that it returns, or the text of its
/// error.
#[verifier::external_body]
pub(crate) fn url_parts(s: &str) -> (r: Result<UrlParts, String>)
    ensures
        match r {
            Ok(u) => parsed_url(s@) == Ok::<UrlModel, Seq<char>>(u@),
            Err(e) => parsed_url(s@) == Err::<UrlModel, Seq<char>>(e@),
        },
{
    let url = url::Url::parse(s).map_err(|e| e.to_string())?;
    let host_kind = match url.host() {
        None => HostKind::Absent,
        Some(url::Host::Domain(_)) => HostKind::Domain,
        Some(url::Host::Ipv4(a)) => HostKind::V4(u32::from(a)),
        Some(url::Host::Ipv6(a)) => HostKind::V6(u128::from(a)),
    };
    let scheme = url.scheme().to_string();
    let username = url.username().to_string();
    let password = url.password().map(str::to_string);
    let host = url.host_str().map(str::to_string);
    let port = url.port_or_known_default();
    Ok(UrlParts { scheme, username, password, host, host_kind, port, text: url.to_string() })
}

/// The url crate holds positions in a URL as 32-bit numbers; texts up to this many
/// characters keep every position in range, escapes counted.
pub const URL_TEXT_LIMIT: usize = 0x07ff_ffff;

/// The URL that results from giving a URL another host.
pub uninterp spec fn url_with_host(url: Seq<char>, host: Seq<char>) -> Option<Seq<char>>;

/// `url::Url::set_host` on the URL that a text writes; nothing where the text writes
/// no URL or the host is refused.
#[verifier::external_body]
pub(crate) fn set_url_host(url: &str, host: &str) -> (r: Option<String>)
    requires
        url@.len() <= URL_TEXT_LIMIT,
        host@.len() <= URL_TEXT_LIMIT,
    ensures
        crate::text::opt_text(r) == url_with_host(url@, host@),
{
    let mut parsed = url::Url::parse(url).ok()?;
    parsed.set_host(Some(host)).ok()?;
    Some(parsed.to_string())
}

/// The URL that results from giving a URL another port.
pub uninterp spec fn url_with_port(url: Seq<char>, port: Option<u16>) -> Option<Seq<char>>;

/// `url::Url::set_port` on the URL that a text writes; nothing where the text writes
/// no URL or the URL can have no port.
#[verifier::external_body]
pub(crate) fn set_url_port(url: &str, port: Option<u16>) -> (r: Option<String>)
    requires
        url@.len() <= URL_TEXT_LIMIT,
    ensures
        crate::text::opt_text(r) == url_with_port(url@, port),
{
    let mut parsed = url::Url::parse(url).ok()?;
    parsed.set_port(port).ok()?;
    Some(parsed.to_string())
}

/// The URL that results from giving a URL another scheme.
pub uninterp spec fn url_with_scheme(url: Seq<char>, scheme: Seq<char>) -> Option<Seq<char>>;

/// `url::Url::set_scheme` on the URL that a text writes; nothing where the text
/// writes no URL or the scheme is refused.
#[verifier::external_body]
pub(crate) fn set_url_scheme(url: &str, scheme: &str) -> (r: Option<String>)
    requires
        url@.len() <= URL_TEXT_LIMIT,
        scheme@.len() <= URL_TEXT_LIMIT,
    ensures
        crate::text::opt_text(r) == url_with_scheme(url@, scheme@),
{
    let mut parsed = url::Url::parse(url).ok()?;
    parsed.set_scheme(scheme).ok()?;
    Some(parsed.to_string())
}

/// The URL that results from giving a URL another path.
pub uninterp spec fn url_with_path(url: Seq<char>, path: Seq<char>) -> Option<Seq<char>>;

/// `url::Url::set_path` on the URL that a text writes; nothing where the text writes
/// no URL.
#[verifier::external_body]
pub(crate) fn set_url_path(url: &str, path: &str) -> (r: Option<String>)
    requires
        url@.len() <= URL_TEXT_LIMIT,
        path@.len() <= URL_TEXT_LIMIT,
    ensures
        crate::text::opt_text(r) == url_with_path(url@, path@),
{
    let mut parsed = url::Url::parse(url).ok()?;
    parsed.set_path(path);
    Some(parsed.to_string())
}

/// The URL that results from giving a URL another query, or none.
pub uninterp spec fn url_with_query(url: Seq<char>, query: Option<Seq<char>>) -> Option<Seq<char>>;

/// `url::Url::set_query` on the URL that a text writes; nothing where the text writes
/// no URL.
#[verifier::external_body]
pub(crate) fn set_url_query(url: &str, query: Option<String>) -> (r: Option<String>)
    requires
        url@.len() <= URL_TEXT_LIMIT,
        query is Some ==> query->0@.len() <= URL_TEXT_LIMIT,
    ensures
        crate::text::opt_text(r) == url_with_query(url@, crate::text::opt_text(query)),
{
    let mut parsed = url::Url::parse(url).ok()?;
    parsed.set_query(query.as_deref());
    Some(parsed.to_string())
}

/// The URL that results from taking the fragment off a URL.
pub uninterp spec fn url_without_fragment(url: Seq<char>) -> Option<Seq<char>>;

/// `url::Url::set_fragment` with no fragment, on the URL that a text writes; nothing
/// where the text writes no URL.
#[verifier::external_body]
pub(crate) fn drop_url_fragment(url: &str) -> (r: Option<String>)
    requires
        url@.len() <= URL_TEXT_LIMIT,
    ensures
        crate::text::opt_text(r) == url_without_fragment(url@),
{
    let mut parsed = url::Url::parse(url).ok()?;
    parsed.set_fragment(None);
    Some(parsed.to_string())
}

/// Whether a host is the local machine: the name `localhost`, an IPv4 address of
/// the network 127.0.0.0/8, or the IPv6 address `::1`.
pub open spec fn is_loopback_host(url: UrlModel) -> bool {
    ||| url.host is Some && ascii_lower(url.host->0) == "localhost"@
    ||| match url.host_kind {
        HostKind::V4(n) => n / 0x100_0000 == 127,
        HostKind::V6(n) => n == 1,
        _ => false,
    }
}

/// Whether the host of a URL is the local machine.
pub fn host_is_loopback(url: &UrlParts) -> (r: bool)
    ensures
        r == is_loopback_host(url@),
{
    let named = match &url.host {
        Some(h) => crate::text::same_text(crate::text::to_ascii_lower(h.as_str()).as_str(), "localhost"),
        None => false,
    };
    if named {
        return true;
    }
    match url.host_kind {
        HostKind::V4(n) => n / 0x100_0000 == 127,
        HostKind::V6(n) => n == 1,
        _ => false,
    }
}

/// A UUID text from its sixteen bytes: hexadecimal digits in groups of eight, four,
/// four, four and twelve.
pub open spec fn uuid_text(b: Seq<u8>) -> Seq<char> {
    let h = hex_text(b);
    h.subrange(0, 8) + seq!['-'] + h.subrange(8, 12) + seq!['-'] + h.subrange(12, 16) + seq!['-']
        + h.subrange(16, 20) + seq!['-'] + h.subrange(20, 32)
}

/// The hyphenated text of a UUID.
pub fn format_uuid(b: &Vec<u8>) -> (r: String)
    requires
        b@.len() == 16,
    ensures
        r@ == uuid_text(b@),
        is_hyphenated(r@),
{
    let h = crate::text::chars_of(hex_encode(b).as_str());
    let mut out: String = crate::text::string_of(&h, 0, 8);
    out.append("-");
    out.append(crate::text::string_of(&h, 8, 12).as_str());
    out.append("-");
    out.append(crate::text::string_of(&h, 12, 16).as_str());
    out.append("-");
    out.append(crate::text::string_of(&h, 16, 20).as_str());
    out.append("-");
    out.append(crate::text::string_of(&h, 20, 32).as_str());
    proof {
        reveal_strlit("-");
        assert("-"@ =~= seq!['-']);
        assert(out@ =~= uuid_text(b@));
        lemma_hex_text(b@);
    }
    out
}

/// The hexadecimal text of some bytes has two digits for each byte and nothing else.
pub proof fn lemma_hex_text(b: Seq<u8>)
    ensures
        hex_text(b).len() == 2 * b.len(),
        forall|i: int| 0 <= i < 2 * b.len() ==> is_hex_digit(#[trigger] hex_text(b)[i]),
{
    assert forall|i: int| 0 <= i < 2 * b.len() implies is_hex_digit(#[trigger] hex_text(b)[i]) by {
        let n = b[i / 2] as int;
        assert(0 <= n / 16 < 16);
        assert(0 <= n % 16 < 16);
    }
}

/// The hyphenated text of a random UUID: that of sixteen bytes with the version and variant
/// bits of one.
pub open spec fn is_random_uuid(t: Seq<char>) -> bool {
    exists|b: Seq<u8>|
        b.len() == 16 && b[6] / 16 == 4 && b[8] / 64 == 2 && t == #[trigger] uuid_text(b)
}

/// A random UUID in its hyphenated text.
pub fn fresh_uuid() -> (r: String)
    ensures
        is_hyphenated(r@),
        is_uuid(r@),
        is_random_uuid(r@),
{
    format_uuid(&random_uuid())
}

} // verus!
