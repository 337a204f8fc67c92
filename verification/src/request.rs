//! The upload request of one batch: where it goes and what it carries.

use crate::error::BuildError;
use crate::error::UploadError;
use crate::payload::EncodedPayload;
use vstd::prelude::*;
use vstd::string::*;
use vstd::utf8::encode_scalar;
use vstd::utf8::encode_utf8;

verus! {

/// Where the batches of a run go, and under whose name.
#[derive(Clone, Debug, PartialEq, Eq)]
pub struct Endpoint {
    /// Scheme, host and possibly port of the ingestion endpoint.
    pub url: String,
    pub org: String,
    pub bucket: String,
    pub token: String,
}

/// The mathematical value of an [`Endpoint`].
pub struct EndpointView {
    pub url: Seq<char>,
    pub org: Seq<char>,
    pub bucket: Seq<char>,
    pub token: Seq<char>,
}

impl View for Endpoint {
    type V = EndpointView;

    open spec fn view(&self) -> EndpointView {
        EndpointView { url: self.url@, org: self.org@, bucket: self.bucket@, token: self.token@ }
    }
}

/// One HTTP POST, described in plain values: it can be sent any number of
/// times, and sending it changes nothing in it.
#[derive(Clone, Debug, PartialEq, Eq)]
pub struct UploadRequest {
    pub url: String,
    /// The query parameters, name and value, in the order they are sent.
    pub query: Vec<(String, String)>,
    /// The headers, name and value, in the order they are sent.
    pub headers: Vec<(String, String)>,
    pub body: Vec<u8>,
}

/// The mathematical value of an [`UploadRequest`].
pub struct UploadRequestView {
    pub url: Seq<char>,
    pub query: Seq<(Seq<char>, Seq<char>)>,
    pub headers: Seq<(Seq<char>, Seq<char>)>,
    pub body: Seq<u8>,
}

/// The texts of a list of name-value pairs.
pub open spec fn pairs_view(pairs: Seq<(String, String)>) -> Seq<(Seq<char>, Seq<char>)> {
    pairs.map_values(|p: (String, String)| (p.0@, p.1@))
}

impl View for UploadRequest {
    type V = UploadRequestView;

    open spec fn view(&self) -> UploadRequestView {
        UploadRequestView {
            url: self.url@,
            query: pairs_view(self.query@),
            headers: pairs_view(self.headers@),
            body: self.body@,
        }
    }
}

/// `s` without the slashes at its end.
pub open spec fn trim_trailing_slashes(s: Seq<char>) -> Seq<char>
    decreases s.len(),
{
    if s.len() > 0 && s.last() == '/' {
        trim_trailing_slashes(s.drop_last())
    } else {
        s
    }
}

/// The URL that batches are posted to: the base without the slashes at its
/// end, then the write path.
pub open spec fn write_url(base: Seq<char>) -> Seq<char> {
    trim_trailing_slashes(base) + "/api/v2/write"@
}

/// The value of the `Authorization` header for a token.
pub open spec fn authorization_value(token: Seq<char>) -> Seq<char> {
    "Token "@ + token
}

/// True for the bytes that `http` takes in a header value: the tab, and
/// everything from the space upwards but DEL.
pub open spec fn header_byte_ok(b: u8) -> bool {
    (b >= 32 && b != 127) || b == 9
}

/// True when a text, in UTF-8, is made of bytes that a header value may hold.
pub open spec fn header_value_ok(value: Seq<char>) -> bool {
    forall|i: int|
        0 <= i < encode_utf8(value).len() ==> header_byte_ok(#[trigger] encode_utf8(value)[i])
}

/// True for the characters that a header value may hold: the tab, and
/// everything from the space upwards but DEL.
pub open spec fn header_char_ok(c: char) -> bool {
    c == '\t' || (c >= ' ' && c != '\u{7f}')
}

/// The bytes of a character in UTF-8 may stand in a header value exactly
/// when the character may: an ASCII character is its own byte, and the bytes
/// of any other are all 128 or more.
proof fn lemma_header_scalar(c: char)
    ensures
        encode_scalar(c as u32).len() >= 1,
        header_char_ok(c) <==> forall|j: int|
            0 <= j < encode_scalar(c as u32).len() ==> header_byte_ok(
                #[trigger] encode_scalar(c as u32)[j],
            ),
{
    let v = c as u32;
    let bytes = encode_scalar(v);
    if v <= 0x7F {
        assert((v & 0x7F) as u8 == v) by (bit_vector)
            requires
                v <= 0x7F,
        ;
        assert(bytes[0] == v);
    } else {
        assert(0xC0u8 | ((v >> 6) & 0x1F) as u8 >= 0x80) by (bit_vector);
        assert(0xE0u8 | ((v >> 12) & 0x0F) as u8 >= 0x80) by (bit_vector);
        assert(0xF0u8 | ((v >> 18) & 0x7) as u8 >= 0x80) by (bit_vector);
        assert(0x80u8 | (v & 0x3F) as u8 >= 0x80) by (bit_vector);
        assert(0x80u8 | ((v >> 6) & 0x3F) as u8 >= 0x80) by (bit_vector);
        assert(0x80u8 | ((v >> 12) & 0x3F) as u8 >= 0x80) by (bit_vector);
    }
}

/// A text may stand in a header value exactly when each of its characters
/// may: characters beyond ASCII are taken, control characters other than the
/// tab are not.
pub proof fn lemma_header_value_chars(value: Seq<char>)
    ensures
        header_value_ok(value) <==> forall|i: int|
            0 <= i < value.len() ==> header_char_ok(#[trigger] value[i]),
    decreases value.len(),
{
    if value.len() > 0 {
        let head = encode_scalar(value[0] as u32);
        let rest = value.drop_first();
        let tail = encode_utf8(rest);
        let all = encode_utf8(value);
        assert(all == head + tail);
        lemma_header_scalar(value[0]);
        lemma_header_value_chars(rest);
        if header_value_ok(value) {
            assert forall|j: int| 0 <= j < head.len() implies header_byte_ok(#[trigger] head[j]) by {
                assert(all[j] == head[j]);
            }
            assert forall|j: int| 0 <= j < tail.len() implies header_byte_ok(#[trigger] tail[j]) by {
                assert(all[head.len() + j] == tail[j]);
            }
            assert forall|i: int| 0 <= i < value.len() implies header_char_ok(
                #[trigger] value[i],
            ) by {
                if i > 0 {
                    assert(rest[i - 1] == value[i]);
                }
            }
        }
        if forall|i: int| 0 <= i < value.len() ==> header_char_ok(#[trigger] value[i]) {
            assert forall|i: int| 0 <= i < rest.len() implies header_char_ok(#[trigger] rest[i]) by {
                assert(rest[i] == value[i + 1]);
            }
            assert(header_char_ok(value[0]));
            assert forall|j: int| 0 <= j < all.len() implies header_byte_ok(#[trigger] all[j]) by {
                if j < head.len() {
                    assert(all[j] == head[j]);
                } else {
                    assert(all[j] == tail[j - head.len()]);
                }
            }
        }
    }
}

/// Whether `reqwest` takes a text as the URL of a request: `Url::parse`
/// accepts it, and the URL that it gives has a host.
pub uninterp spec fn url_accepted(url: Seq<char>) -> bool;

/// `http::HeaderValue::from_str`, asked only whether it succeeds: it does
/// when every byte of the text is a tab or is at least 32 and not 127.
#[verifier::external_body]
pub(crate) fn header_value_accepted(value: &str) -> (ok: bool)
    ensures
        ok == header_value_ok(value@),
{
    http::HeaderValue::from_str(value).is_ok()
}

/// `reqwest::Url::parse` and, on what it gives, `Url::has_host`: the two
/// tests that `reqwest` makes of a text before it builds a request for it.
#[verifier::external_body]
pub(crate) fn url_is_accepted(url: &str) -> (ok: bool)
    ensures
        ok == url_accepted(url@),
{
    match reqwest::Url::parse(url) {
        Ok(parsed) => parsed.has_host(),
        Err(_) => false,
    }
}

/// The request that posts `payload` to `endpoint`.
pub open spec fn request_for(endpoint: EndpointView, payload: EncodedPayload) -> UploadRequestView {
    UploadRequestView {
        url: write_url(endpoint.url),
        query: seq![
            ("org"@, endpoint.org),
            ("bucket"@, endpoint.bucket),
            ("precision"@, "ns"@),
        ],
        headers: seq![
            ("Authorization"@, authorization_value(endpoint.token)),
            ("Accept"@, "application/json"@),
            ("Content-Encoding"@, payload.content_encoding.spec_label()),
            ("Content-Type"@, "text/plain; charset=utf-8"@),
        ],
        body: payload.body@,
    }
}

/// What is left of a text without the slashes at its end is the text up to
/// its last character that is no slash: it does not end in a slash, and
/// only slashes were dropped.
pub proof fn lemma_trim_trailing_slashes(s: Seq<char>)
    ensures
        trim_trailing_slashes(s).len() <= s.len(),
        trim_trailing_slashes(s) == s.take(trim_trailing_slashes(s).len() as int),
        trim_trailing_slashes(s).len() > 0 ==> trim_trailing_slashes(s).last() != '/',
        forall|i: int| trim_trailing_slashes(s).len() <= i < s.len() ==> #[trigger] s[i] == '/',
    decreases s.len(),
{
    if s.len() > 0 && s.last() == '/' {
        let rest = s.drop_last();
        lemma_trim_trailing_slashes(rest);
        let kept = trim_trailing_slashes(rest).len() as int;
        assert(rest.take(kept) =~= s.take(kept));
        assert forall|i: int| kept <= i < s.len() implies #[trigger] s[i] == '/' by {
            if i < rest.len() {
                assert(rest[i] == s[i]);
            }
        }
    } else {
        assert(s.take(s.len() as int) =~= s);
    }
}

/// The URL that batches are posted to, for the base URL of an endpoint.
pub fn make_write_url(base: &str) -> (url: String)
    ensures
        url@ == write_url(base@),
{
    let mut keep: usize = base.unicode_len();
    proof {
        assert(base@.take(keep as int) =~= base@);
    }
    while keep > 0 && base.get_char(keep - 1) == '/'
        invariant
            keep <= base@.len(),
            trim_trailing_slashes(base@) == trim_trailing_slashes(base@.take(keep as int)),
        decreases keep,
    {
        proof {
            assert(base@.take(keep as int).drop_last() =~= base@.take(keep - 1));
        }
        keep = keep - 1;
    }
    proof {
        assert(base@.take(keep as int) =~= base@.subrange(0, keep as int));
    }
    let mut url = String::from_str(base.substring_char(0, keep));
    url.append("/api/v2/write");
    url
}

/// The value of the `Authorization` header for a token.
pub fn make_authorization(token: &str) -> (value: String)
    ensures
        value@ == authorization_value(token@),
{
    let mut value = String::from_str("Token ");
    value.append(token);
    value
}

/// What the outside crates say of the two parts of a request that they
/// must take: the write URL and the value of the `Authorization` header.
#[derive(Clone, Copy, Debug, PartialEq, Eq)]
pub struct Acceptance {
    pub url: bool,
    pub token: bool,
}

/// The request that posts `payload` to `endpoint`, once it is known whether
/// its URL and its token are accepted.
///
/// Fails with [`BuildError::Url`] when the URL is not accepted, and
/// otherwise with [`BuildError::Token`] when the token is not.
pub fn request_from(endpoint: &Endpoint, payload: EncodedPayload, accepted: Acceptance) -> (r:
    Result<UploadRequest, UploadError>)
    ensures
        !accepted.url ==> r == Err::<UploadRequest, UploadError>(
            UploadError::BuildRequest(BuildError::Url),
        ),
        accepted.url && !accepted.token ==> r == Err::<UploadRequest, UploadError>(
            UploadError::BuildRequest(BuildError::Token),
        ),
        accepted.url && accepted.token ==> (r matches Ok(request) && request@ == request_for(
            endpoint@,
            payload,
        )),
{
    if !accepted.url {
        return Err(UploadError::BuildRequest(BuildError::Url));
    }
    if !accepted.token {
        return Err(UploadError::BuildRequest(BuildError::Token));
    }
    let mut query: Vec<(String, String)> = Vec::new();
    query.push(("org".to_owned(), endpoint.org.clone()));
    query.push(("bucket".to_owned(), endpoint.bucket.clone()));
    query.push(("precision".to_owned(), "ns".to_owned()));
    let mut headers: Vec<(String, String)> = Vec::new();
    headers.push(("Authorization".to_owned(), make_authorization(endpoint.token.as_str())));
    headers.push(("Accept".to_owned(), "application/json".to_owned()));
    headers.push(("Content-Encoding".to_owned(), payload.content_encoding.label().to_owned()));
    headers.push(("Content-Type".to_owned(), "text/plain; charset=utf-8".to_owned()));
    let request = UploadRequest {
        url: make_write_url(endpoint.url.as_str()),
        query,
        headers,
        body: payload.body,
    };
    proof {
        assert(request@.query =~= request_for(endpoint@, payload).query);
        assert(request@.headers =~= request_for(endpoint@, payload).headers);
    }
    Ok(request)
}

/// Builds the request that posts `payload` to `endpoint`.
///
/// Fails with [`BuildError::Url`] when the write URL is not one that a
/// request can be sent to, and otherwise with [`BuildError::Token`] when the
/// token cannot stand in a header value.
pub fn build_request(endpoint: &Endpoint, payload: EncodedPayload) -> (r: Result<
    UploadRequest,
    UploadError,
>)
    ensures
        !url_accepted(write_url(endpoint@.url)) ==> r == Err::<UploadRequest, UploadError>(
            UploadError::BuildRequest(BuildError::Url),
        ),
        url_accepted(write_url(endpoint@.url)) && !header_value_ok(
            authorization_value(endpoint@.token),
        ) ==> r == Err::<UploadRequest, UploadError>(UploadError::BuildRequest(BuildError::Token)),
        url_accepted(write_url(endpoint@.url)) && header_value_ok(
            authorization_value(endpoint@.token),
        ) ==> (r matches Ok(request) && request@ == request_for(endpoint@, payload)),
{
    let url = make_write_url(endpoint.url.as_str());
    let authorization = make_authorization(endpoint.token.as_str());
    let accepted = Acceptance {
        url: url_is_accepted(url.as_str()),
        token: header_value_accepted(authorization.as_str()),
    };
    request_from(endpoint, payload, accepted)
}

} // verus!
