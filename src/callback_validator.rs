//! Authentication of an incoming webhook: no query parameters, the required
//! headers present and well formed, and the body signed with the shared secret.
use hmac::{Hmac, Mac};
use sha2::Sha256;
use vstd::prelude::*;
use vstd::utf8::encode_utf8;

use crate::app_config::AppConfig;
use crate::app_errors::{AppErrors, SignatureFailure};
use crate::text::{parse_u128, parses_within, to_chars};

verus! {

/// The headers that every webhook must carry.
#[derive(Clone, Copy, Debug, PartialEq, Eq, Structural)]
pub enum RequiredHeader {
    HookId,
    Event,
    Delivery,
    Signature,
    Signature256,
    UserAgent,
    InstallationTargetType,
    InstallationTargetId,
}

impl RequiredHeader {
    pub open spec fn spec_name(self) -> Seq<char> {
        match self {
            RequiredHeader::HookId => "X-GitHub-Hook-ID"@,
            RequiredHeader::Event => "X-GitHub-Event"@,
            RequiredHeader::Delivery => "X-GitHub-Delivery"@,
            RequiredHeader::Signature => "X-Hub-Signature"@,
            RequiredHeader::Signature256 => "X-Hub-Signature-256"@,
            RequiredHeader::UserAgent => "User-Agent"@,
            RequiredHeader::InstallationTargetType => "X-GitHub-Hook-Installation-Target-Type"@,
            RequiredHeader::InstallationTargetId => "X-GitHub-Hook-Installation-Target-ID"@,
        }
    }

    /// The header's name as the platform writes it.
    pub fn name(&self) -> (r: &'static str)
        ensures
            r@ == self.spec_name(),
    {
        match self {
            RequiredHeader::HookId => "X-GitHub-Hook-ID",
            RequiredHeader::Event => "X-GitHub-Event",
            RequiredHeader::Delivery => "X-GitHub-Delivery",
            RequiredHeader::Signature => "X-Hub-Signature",
            RequiredHeader::Signature256 => "X-Hub-Signature-256",
            RequiredHeader::UserAgent => "User-Agent",
            RequiredHeader::InstallationTargetType => "X-GitHub-Hook-Installation-Target-Type",
            RequiredHeader::InstallationTargetId => "X-GitHub-Hook-Installation-Target-ID",
        }
    }
}

/// One header line of a request: its name and its raw value.
pub struct HeaderEntry {
    pub name: String,
    pub value: Vec<u8>,
}

/// The headers of a request, in the order they came.
pub struct RequestHeaders {
    pub entries: Vec<HeaderEntry>,
}

impl View for RequestHeaders {
    type V = Seq<(Seq<char>, Seq<u8>)>;

    open spec fn view(&self) -> Seq<(Seq<char>, Seq<u8>)> {
        self.entries@.map_values(|e: HeaderEntry| (e.name@, e.value@))
    }
}

/// A character with ASCII upper case folded to lower case.
pub open spec fn ascii_fold(c: char) -> int {
    if 'A' <= c <= 'Z' {
        c as int + 32
    } else {
        c as int
    }
}

/// Header names are compared without regard to ASCII case.
pub open spec fn same_name(a: Seq<char>, b: Seq<char>) -> bool {
    &&& a.len() == b.len()
    &&& forall|i: int| 0 <= i < a.len() ==> ascii_fold(#[trigger] a[i]) == ascii_fold(b[i])
}

/// The value of the first header called `name`, if there is one.
pub open spec fn header_value(h: Seq<(Seq<char>, Seq<u8>)>, name: Seq<char>) -> Option<Seq<u8>>
    decreases h.len(),
{
    if h.len() == 0 {
        None
    } else if same_name(h[0].0, name) {
        Some(h[0].1)
    } else {
        header_value(h.drop_first(), name)
    }
}

/// A byte that may stand in a header value read as text.
pub open spec fn is_visible_ascii_byte(b: u8) -> bool {
    (32 <= b && b < 127) || b == 9
}

pub open spec fn is_visible_ascii(v: Seq<u8>) -> bool {
    forall|i: int| 0 <= i < v.len() ==> is_visible_ascii_byte(#[trigger] v[i])
}

/// ASCII bytes read as characters.
pub open spec fn ascii_chars(v: Seq<u8>) -> Seq<char> {
    Seq::new(v.len(), |i: int| v[i] as char)
}

pub open spec fn starts_with(t: Seq<char>, p: Seq<char>) -> bool {
    p.len() <= t.len() && t.subrange(0, p.len() as int) == p
}

/// The required headers, in the order in which they are checked.
pub open spec fn required_headers() -> Seq<RequiredHeader> {
    seq![
        RequiredHeader::HookId,
        RequiredHeader::Event,
        RequiredHeader::Delivery,
        RequiredHeader::Signature,
        RequiredHeader::Signature256,
        RequiredHeader::UserAgent,
        RequiredHeader::InstallationTargetType,
        RequiredHeader::InstallationTargetId,
    ]
}

/// The headers whose value must start with a given text, in checking order.
pub open spec fn prefixed_headers() -> Seq<(RequiredHeader, Seq<char>)> {
    seq![
        (RequiredHeader::Signature256, "sha256="@),
        (RequiredHeader::Signature, "sha1="@),
        (RequiredHeader::UserAgent, "GitHub-Hookshot/"@),
    ]
}

/// The headers whose value must be an unsigned integer, in checking order.
pub open spec fn integer_headers() -> Seq<RequiredHeader> {
    seq![RequiredHeader::HookId, RequiredHeader::InstallationTargetId]
}

/// The text of a header that is present.
pub open spec fn header_text(h: Seq<(Seq<char>, Seq<u8>)>, r: RequiredHeader) -> Seq<char> {
    ascii_chars(header_value(h, r.spec_name())->0)
}

/// The first of `hs` that is missing or not visible ASCII.
pub open spec fn presence_failure(h: Seq<(Seq<char>, Seq<u8>)>, hs: Seq<RequiredHeader>) -> Option<
    AppErrors,
>
    decreases hs.len(),
{
    if hs.len() == 0 {
        None
    } else {
        match header_value(h, hs[0].spec_name()) {
            None => Some(AppErrors::MissingHeader(hs[0])),
            Some(v) => if !is_visible_ascii(v) {
                Some(AppErrors::HeaderParsingError(hs[0]))
            } else {
                presence_failure(h, hs.drop_first())
            },
        }
    }
}

/// The first of `ps` whose value does not start with its text.
pub open spec fn prefix_failure(h: Seq<(Seq<char>, Seq<u8>)>, ps: Seq<(RequiredHeader, Seq<char>)>) -> Option<
    AppErrors,
>
    decreases ps.len(),
{
    if ps.len() == 0 {
        None
    } else if !starts_with(header_text(h, ps[0].0), ps[0].1) {
        Some(AppErrors::HeaderInvalidFormatError(ps[0].0))
    } else {
        prefix_failure(h, ps.drop_first())
    }
}

/// The first of `hs` whose value is not an unsigned integer.
pub open spec fn integer_failure(h: Seq<(Seq<char>, Seq<u8>)>, hs: Seq<RequiredHeader>) -> Option<
    AppErrors,
>
    decreases hs.len(),
{
    if hs.len() == 0 {
        None
    } else if !parses_within(header_text(h, hs[0]), u128::MAX as nat) {
        Some(AppErrors::HeaderInvalidFormatError(hs[0]))
    } else {
        integer_failure(h, hs.drop_first())
    }
}

/// The first header check that fails, if any.
pub open spec fn header_failure(h: Seq<(Seq<char>, Seq<u8>)>) -> Option<AppErrors> {
    match presence_failure(h, required_headers()) {
        Some(e) => Some(e),
        None => match prefix_failure(h, prefixed_headers()) {
            Some(e) => Some(e),
            None => integer_failure(h, integer_headers()),
        },
    }
}

/// The hex digest that the signature-256 header carries after `sha256=`.
pub open spec fn signature_hex(h: Seq<(Seq<char>, Seq<u8>)>) -> Seq<u8> {
    let v = header_value(h, RequiredHeader::Signature256.spec_name())->0;
    v.subrange("sha256="@.len() as int, v.len() as int)
}

/// The value of a hex digit, either case.
pub open spec fn hex_digit(b: u8) -> Option<u8> {
    if 48 <= b <= 57 {
        Some((b - 48) as u8)
    } else if 97 <= b <= 102 {
        Some((b - 87) as u8)
    } else if 65 <= b <= 70 {
        Some((b - 55) as u8)
    } else {
        None
    }
}

/// An even number of hex digits.
pub open spec fn is_hex_text(s: Seq<u8>) -> bool {
    &&& s.len() % 2 == 0
    &&& forall|i: int| 0 <= i < s.len() ==> (#[trigger] hex_digit(s[i])) is Some
}

/// The bytes that pairs of hex digits stand for, high digit first.
pub open spec fn hex_bytes(s: Seq<u8>) -> Seq<u8> {
    Seq::new(
        s.len() / 2,
        |i: int| (hex_digit(s[2 * i])->0 * 16 + hex_digit(s[2 * i + 1])->0) as u8,
    )
}

/// The HMAC-SHA256 of `message` under `key`.
pub uninterp spec fn hmac_sha256(key: Seq<u8>, message: Seq<u8>) -> Seq<u8>;

/// Why the hex digest `hex` does not sign `body` under `secret`, if it does not.
pub open spec fn signature_failure(hex: Seq<u8>, body: Seq<u8>, secret: Seq<u8>) -> Option<
    SignatureFailure,
> {
    if hex.len() % 2 != 0 {
        Some(SignatureFailure::OddLength)
    } else if !is_hex_text(hex) {
        Some(SignatureFailure::InvalidHex)
    } else if hex_bytes(hex) != hmac_sha256(secret, body) {
        Some(SignatureFailure::Mismatch)
    } else {
        None
    }
}

/// The outcome of authenticating a request with `query_count` query
/// parameters, headers `h` and body `body`, under the shared `secret`.
pub open spec fn authentication(
    query_count: usize,
    h: Seq<(Seq<char>, Seq<u8>)>,
    body: Seq<u8>,
    secret: Seq<u8>,
) -> Result<(), AppErrors> {
    if query_count != 0 {
        Err(AppErrors::TooManyQueryParams(query_count))
    } else {
        match header_failure(h) {
            Some(e) => Err(e),
            None => match signature_failure(signature_hex(h), body, secret) {
                Some(f) => Err(AppErrors::SignatureError(f)),
                None => Ok(()),
            },
        }
    }
}

/// Relies on `hex::decode`: an even number of hex digits of either case is
/// turned into bytes, high digit first; anything else is refused.
#[verifier::external_body]
fn decode_hex(s: &[u8]) -> (r: Option<Vec<u8>>)
    ensures
        r is Some <==> is_hex_text(s@),
        r is Some ==> r->0@ == hex_bytes(s@),
{
    hex::decode(s).ok()
}

/// Relies on `hmac::Hmac<sha2::Sha256>`: `new_from_slice` takes a key of any
/// length (hmac's `HmacCore` never refuses one), then `update` and `finalize`
/// give the MAC of the message.
#[verifier::external_body]
fn compute_hmac_sha256(key: &[u8], message: &[u8]) -> (r: Option<Vec<u8>>)
    ensures
        r is Some,
        r is Some ==> r->0@ == hmac_sha256(key@, message@),
{
    match <Hmac<Sha256> as Mac>::new_from_slice(key) {
        Ok(mut mac) => {
            mac.update(message);
            Some(mac.finalize().into_bytes().to_vec())
        },
        Err(_) => None,
    }
}

fn fold_char(c: char) -> (r: u32)
    ensures
        r as int == ascii_fold(c),
{
    if 'A' <= c && c <= 'Z' {
        c as u32 + 32
    } else {
        c as u32
    }
}

/// Whether two header names are the same, ASCII case aside.
pub fn names_match(a: &str, b: &str) -> (r: bool)
    ensures
        r == same_name(a@, b@),
{
    let x = to_chars(a);
    let y = to_chars(b);
    if x.len() != y.len() {
        return false;
    }
    let mut i: usize = 0;
    while i < x.len()
        invariant
            x@ == a@,
            y@ == b@,
            i <= x.len() == y.len(),
            forall|j: int| 0 <= j < i ==> ascii_fold(#[trigger] x@[j]) == ascii_fold(y@[j]),
        decreases x.len() - i,
    {
        if fold_char(x[i]) != fold_char(y[i]) {
            return false;
        }
        i = i + 1;
    }
    true
}

/// The position of the first header called `name`.
pub fn header_index(headers: &RequestHeaders, name: &str) -> (r: Option<usize>)
    ensures
        match header_value(headers@, name@) {
            None => r is None,
            Some(v) => r matches Some(k) && k < headers.entries@.len() && headers.entries@[k as int].value@
                == v,
        },
{
    let ghost h = headers@;
    let mut i: usize = 0;
    assert(h.subrange(0, h.len() as int) =~= h);
    while i < headers.entries.len()
        invariant
            h == headers@,
            h.len() == headers.entries@.len(),
            i <= h.len(),
            header_value(h, name@) == header_value(h.subrange(i as int, h.len() as int), name@),
        decreases h.len() - i,
    {
        let ghost rest = h.subrange(i as int, h.len() as int);
        assert(rest[0] == h[i as int]);
        assert(h[i as int] == (headers.entries@[i as int].name@, headers.entries@[i as int].value@));
        if names_match(headers.entries[i].name.as_str(), name) {
            return Some(i);
        }
        assert(rest.drop_first() =~= h.subrange(i + 1, h.len() as int));
        i = i + 1;
    }
    None
}

/// The value of a header read as ASCII text, or `None` where it is not
/// visible ASCII.
fn ascii_text(v: &Vec<u8>) -> (r: Option<Vec<char>>)
    ensures
        r is Some <==> is_visible_ascii(v@),
        r is Some ==> r->0@ == ascii_chars(v@),
{
    let mut out: Vec<char> = Vec::new();
    let mut i: usize = 0;
    while i < v.len()
        invariant
            i <= v.len(),
            forall|j: int| 0 <= j < i ==> is_visible_ascii_byte(#[trigger] v@[j]),
            out@ == ascii_chars(v@.subrange(0, i as int)),
        decreases v.len() - i,
    {
        let b = v[i];
        if !((32u8 <= b && b < 127u8) || b == 9u8) {
            return None;
        }
        out.push(b as char);
        assert(ascii_chars(v@.subrange(0, i + 1)) =~= ascii_chars(v@.subrange(0, i as int)).push(
            b as char,
        ));
        i = i + 1;
    }
    assert(v@.subrange(0, v@.len() as int) =~= v@);
    Some(out)
}

fn chars_start_with(t: &Vec<char>, p: &Vec<char>) -> (r: bool)
    ensures
        r == starts_with(t@, p@),
{
    if p.len() > t.len() {
        return false;
    }
    crate::text::matches_at(t, p, 0)
}

/// Checks that every required header is there and well formed, and reports
/// the first one that is not.
pub fn validate_headers(headers: &RequestHeaders) -> (r: Result<(), AppErrors>)
    ensures
        match header_failure(headers@) {
            Some(e) => r == Err::<(), AppErrors>(e),
            None => r is Ok,
        },
{
    let ghost h = headers@;
    let required: Vec<RequiredHeader> = vec![
        RequiredHeader::HookId,
        RequiredHeader::Event,
        RequiredHeader::Delivery,
        RequiredHeader::Signature,
        RequiredHeader::Signature256,
        RequiredHeader::UserAgent,
        RequiredHeader::InstallationTargetType,
        RequiredHeader::InstallationTargetId,
    ];
    assert(required@ =~= required_headers());
    assert(required@.subrange(0, required@.len() as int) =~= required@);
    let mut i: usize = 0;
    while i < required.len()
        invariant
            h == headers@,
            required@ == required_headers(),
            i <= required@.len(),
            presence_failure(h, required@) == presence_failure(
                h,
                required@.subrange(i as int, required@.len() as int),
            ),
        decreases required@.len() - i,
    {
        let ghost rest = required@.subrange(i as int, required@.len() as int);
        assert(rest[0] == required@[i as int]);
        assert(rest.drop_first() =~= required@.subrange(i + 1, required@.len() as int));
        let header = required[i];
        match header_index(headers, header.name()) {
            None => {
                return Err(AppErrors::MissingHeader(header));
            },
            Some(k) => {
                if ascii_text(&headers.entries[k].value).is_none() {
                    return Err(AppErrors::HeaderParsingError(header));
                }
            },
        }
        i = i + 1;
    }
    assert(required@.subrange(required@.len() as int, required@.len() as int) =~= Seq::<
        RequiredHeader,
    >::empty());

    let prefixed: Vec<(RequiredHeader, &str)> = vec![
        (RequiredHeader::Signature256, "sha256="),
        (RequiredHeader::Signature, "sha1="),
        (RequiredHeader::UserAgent, "GitHub-Hookshot/"),
    ];
    assert(prefixed@.map_values(|p: (RequiredHeader, &str)| (p.0, p.1@)) =~= prefixed_headers());
    assert(prefixed_headers().subrange(0, 3) =~= prefixed_headers());
    let mut i: usize = 0;
    while i < prefixed.len()
        invariant
            h == headers@,
            presence_failure(h, required_headers()) is None,
            i <= prefixed@.len(),
            prefixed@.map_values(|p: (RequiredHeader, &str)| (p.0, p.1@)) == prefixed_headers(),
            prefix_failure(h, prefixed_headers()) == prefix_failure(
                h,
                prefixed_headers().subrange(i as int, prefixed_headers().len() as int),
            ),
        decreases prefixed@.len() - i,
    {
        let ghost ps = prefixed_headers();
        let ghost rest = ps.subrange(i as int, ps.len() as int);
        assert(rest[0] == ps[i as int]);
        assert(rest.drop_first() =~= ps.subrange(i + 1, ps.len() as int));
        let (header, prefix) = prefixed[i];
        proof {
            lemma_present_of_required(h, required_headers(), header);
        }
        let k = match header_index(headers, header.name()) {
            Some(k) => k,
            None => {
                return Err(AppErrors::MissingHeader(header));
            },
        };
        let text = match ascii_text(&headers.entries[k].value) {
            Some(t) => t,
            None => {
                return Err(AppErrors::HeaderParsingError(header));
            },
        };
        if !chars_start_with(&text, &to_chars(prefix)) {
            return Err(AppErrors::HeaderInvalidFormatError(header));
        }
        i = i + 1;
    }
    assert(prefixed_headers().subrange(3, 3) =~= Seq::<(RequiredHeader, Seq<char>)>::empty());

    let integers: Vec<RequiredHeader> = vec![
        RequiredHeader::HookId,
        RequiredHeader::InstallationTargetId,
    ];
    assert(integers@ =~= integer_headers());
    assert(integers@.subrange(0, 2) =~= integers@);
    let mut i: usize = 0;
    while i < integers.len()
        invariant
            h == headers@,
            presence_failure(h, required_headers()) is None,
            prefix_failure(h, prefixed_headers()) is None,
            i <= integers@.len(),
            integers@ == integer_headers(),
            integer_failure(h, integers@) == integer_failure(
                h,
                integers@.subrange(i as int, integers@.len() as int),
            ),
        decreases integers@.len() - i,
    {
        let ghost rest = integers@.subrange(i as int, integers@.len() as int);
        assert(rest[0] == integers@[i as int]);
        assert(rest.drop_first() =~= integers@.subrange(i + 1, integers@.len() as int));
        let header = integers[i];
        proof {
            lemma_present_of_required(h, required_headers(), header);
        }
        let k = match header_index(headers, header.name()) {
            Some(k) => k,
            None => {
                return Err(AppErrors::MissingHeader(header));
            },
        };
        let text = match ascii_text(&headers.entries[k].value) {
            Some(t) => t,
            None => {
                return Err(AppErrors::HeaderParsingError(header));
            },
        };
        if parse_u128(&text).is_none() {
            return Err(AppErrors::HeaderInvalidFormatError(header));
        }
        i = i + 1;
    }
    assert(integers@.subrange(2, 2) =~= Seq::<RequiredHeader>::empty());
    Ok(())
}

/// A header among `hs` is present and visible ASCII where no presence check
/// of `hs` fails.
proof fn lemma_present_of_required(h: Seq<(Seq<char>, Seq<u8>)>, hs: Seq<RequiredHeader>, r: RequiredHeader)
    requires
        presence_failure(h, hs) is None,
        hs.contains(r),
    ensures
        header_value(h, r.spec_name()) is Some,
        is_visible_ascii(header_value(h, r.spec_name())->0),
    decreases hs.len(),
{
    if hs[0] != r {
        let k = choose|k: int| 0 <= k < hs.len() && hs[k] == r;
        assert(hs.drop_first()[k - 1] == r);
        lemma_present_of_required(h, hs.drop_first(), r);
    }
}

/// Whether two byte sequences are equal, comparing every byte whatever the
/// earlier ones were.
fn bytes_equal(a: &Vec<u8>, b: &Vec<u8>) -> (r: bool)
    ensures
        r == (a@ == b@),
{
    if a.len() != b.len() {
        return false;
    }
    let mut same = true;
    let mut i: usize = 0;
    assert(a@.subrange(0, 0) =~= b@.subrange(0, 0));
    while i < a.len()
        invariant
            i <= a.len() == b.len(),
            same == (a@.subrange(0, i as int) == b@.subrange(0, i as int)),
        decreases a.len() - i,
    {
        let equal_here = a[i] == b[i];
        proof {
            assert(a@.subrange(0, i + 1) =~= a@.subrange(0, i as int).push(a@[i as int]));
            assert(b@.subrange(0, i + 1) =~= b@.subrange(0, i as int).push(b@[i as int]));
            if a@.subrange(0, i + 1) == b@.subrange(0, i + 1) {
                assert(a@.subrange(0, i + 1)[i as int] == b@.subrange(0, i + 1)[i as int]);
                assert(a@.subrange(0, i as int) =~= a@.subrange(0, i + 1).drop_last());
                assert(b@.subrange(0, i as int) =~= b@.subrange(0, i + 1).drop_last());
            }
        }
        if !equal_here {
            same = false;
        }
        i = i + 1;
    }
    assert(a@.subrange(0, a@.len() as int) =~= a@);
    assert(b@.subrange(0, b@.len() as int) =~= b@);
    same
}

/// Checks that the value of the signature-256 header, `sha256=` followed by
/// hex digits, is the HMAC-SHA256 of the body under the shared secret.
pub fn verify_signature(payload_body: &Vec<u8>, signature: &Vec<u8>, secret: &[u8]) -> (r: Result<
    (),
    SignatureFailure,
>)
    requires
        starts_with(ascii_chars(signature@), "sha256="@),
    ensures
        match signature_failure(
            signature@.subrange("sha256="@.len() as int, signature@.len() as int),
            payload_body@,
            secret@,
        ) {
            Some(f) => r == Err::<(), SignatureFailure>(f),
            None => r is Ok,
        },
{
    let skip = to_chars("sha256=").len();
    let mut hex: Vec<u8> = Vec::new();
    let mut i: usize = skip;
    while i < signature.len()
        invariant
            skip <= i <= signature.len(),
            hex@ == signature@.subrange(skip as int, i as int),
        decreases signature.len() - i,
    {
        hex.push(signature[i]);
        i = i + 1;
    }
    if hex.len() % 2 != 0 {
        return Err(SignatureFailure::OddLength);
    }
    let expected = match decode_hex(hex.as_slice()) {
        Some(d) => d,
        None => {
            return Err(SignatureFailure::InvalidHex);
        },
    };
    let computed = match compute_hmac_sha256(secret, payload_body.as_slice()) {
        Some(m) => m,
        None => {
            return Err(SignatureFailure::Mismatch);
        },
    };
    if !bytes_equal(&computed, &expected) {
        return Err(SignatureFailure::Mismatch);
    }
    Ok(())
}

/// Authenticates a webhook request: it must carry no query parameter, every
/// required header well formed, and a body signed with the app's shared
/// secret. The body is then ready to be read as an event.
pub fn callback_validator(
    app_config: &AppConfig,
    query_params: &Vec<(String, String)>,
    headers: &RequestHeaders,
    payload: &Vec<u8>,
) -> (r: Result<(), AppErrors>)
    ensures
        r == authentication(
            query_params.len(),
            headers@,
            payload@,
            encode_utf8(app_config.callback_token@),
        ),
{
    if query_params.len() != 0 {
        return Err(AppErrors::TooManyQueryParams(query_params.len()));
    }
    match validate_headers(headers) {
        Ok(()) => {},
        Err(e) => {
            return Err(e);
        },
    }
    proof {
        lemma_present_of_required(headers@, required_headers(), RequiredHeader::Signature256);
        assert(prefixed_headers()[0] == (RequiredHeader::Signature256, "sha256="@));
    }
    let k = match header_index(headers, RequiredHeader::Signature256.name()) {
        Some(k) => k,
        None => {
            return Err(AppErrors::MissingHeader(RequiredHeader::Signature256));
        },
    };
    let secret: &[u8] = app_config.callback_token.as_str().as_bytes();
    match verify_signature(payload, &headers.entries[k].value, secret) {
        Ok(()) => Ok(()),
        Err(f) => Err(AppErrors::SignatureError(f)),
    }
}


/// The signature-256 header is there and carries, after `sha256=`, the hex
/// form of the HMAC-SHA256 of `body` under `secret`.
pub open spec fn signature_matches(h: Seq<(Seq<char>, Seq<u8>)>, body: Seq<u8>, secret: Seq<u8>) -> bool {
    &&& header_value(h, RequiredHeader::Signature256.spec_name()) is Some
    &&& starts_with(header_text(h, RequiredHeader::Signature256), "sha256="@)
    &&& is_hex_text(signature_hex(h))
    &&& hex_bytes(signature_hex(h)) == hmac_sha256(secret, body)
}

/// A required header is present and reads as visible ASCII.
pub open spec fn is_present(h: Seq<(Seq<char>, Seq<u8>)>, r: RequiredHeader) -> bool {
    header_value(h, r.spec_name()) matches Some(v) && is_visible_ascii(v)
}

/// Every required header is present and each is well formed on its own.
pub open spec fn headers_well_formed(h: Seq<(Seq<char>, Seq<u8>)>) -> bool {
    &&& forall|k: int| 0 <= k < required_headers().len() ==> is_present(h, #[trigger] required_headers()[k])
    &&& forall|k: int| 0 <= k < prefixed_headers().len() ==> starts_with(
        header_text(h, (#[trigger] prefixed_headers()[k]).0),
        prefixed_headers()[k].1,
    )
    &&& forall|k: int| 0 <= k < integer_headers().len() ==> parses_within(
        header_text(h, #[trigger] integer_headers()[k]),
        u128::MAX as nat,
    )
}

proof fn lemma_presence_none(h: Seq<(Seq<char>, Seq<u8>)>, hs: Seq<RequiredHeader>)
    ensures
        presence_failure(h, hs) is None <==> forall|k: int| 0 <= k < hs.len() ==> is_present(h, #[trigger] hs[k]),
    decreases hs.len(),
{
    if hs.len() > 0 {
        lemma_presence_none(h, hs.drop_first());
        if presence_failure(h, hs) is None {
            assert forall|k: int| 0 <= k < hs.len() implies is_present(h, #[trigger] hs[k]) by {
                if k > 0 {
                    assert(hs[k] == hs.drop_first()[k - 1]);
                }
            }
        }
        if forall|k: int| 0 <= k < hs.len() ==> is_present(h, #[trigger] hs[k]) {
            assert(is_present(h, hs[0]));
            assert forall|k: int| 0 <= k < hs.drop_first().len() implies is_present(
                h,
                #[trigger] hs.drop_first()[k],
            ) by {
                assert(hs.drop_first()[k] == hs[k + 1]);
            }
        }
    }
}

proof fn lemma_prefix_none(h: Seq<(Seq<char>, Seq<u8>)>, ps: Seq<(RequiredHeader, Seq<char>)>)
    ensures
        prefix_failure(h, ps) is None <==> forall|k: int| 0 <= k < ps.len() ==> starts_with(
            header_text(h, (#[trigger] ps[k]).0),
            ps[k].1,
        ),
    decreases ps.len(),
{
    if ps.len() > 0 {
        lemma_prefix_none(h, ps.drop_first());
        if prefix_failure(h, ps) is None {
            assert forall|k: int| 0 <= k < ps.len() implies starts_with(
                header_text(h, (#[trigger] ps[k]).0),
                ps[k].1,
            ) by {
                if k > 0 {
                    assert(ps[k] == ps.drop_first()[k - 1]);
                }
            }
        }
        if forall|k: int| 0 <= k < ps.len() ==> starts_with(header_text(h, (#[trigger] ps[k]).0), ps[k].1) {
            assert(starts_with(header_text(h, ps[0].0), ps[0].1));
            assert forall|k: int| 0 <= k < ps.drop_first().len() implies starts_with(
                header_text(h, (#[trigger] ps.drop_first()[k]).0),
                ps.drop_first()[k].1,
            ) by {
                assert(ps.drop_first()[k] == ps[k + 1]);
            }
        }
    }
}

proof fn lemma_integer_none(h: Seq<(Seq<char>, Seq<u8>)>, hs: Seq<RequiredHeader>)
    ensures
        integer_failure(h, hs) is None <==> forall|k: int| 0 <= k < hs.len() ==> parses_within(
            header_text(h, #[trigger] hs[k]),
            u128::MAX as nat,
        ),
    decreases hs.len(),
{
    if hs.len() > 0 {
        lemma_integer_none(h, hs.drop_first());
        if integer_failure(h, hs) is None {
            assert forall|k: int| 0 <= k < hs.len() implies parses_within(
                header_text(h, #[trigger] hs[k]),
                u128::MAX as nat,
            ) by {
                if k > 0 {
                    assert(hs[k] == hs.drop_first()[k - 1]);
                }
            }
        }
        if forall|k: int| 0 <= k < hs.len() ==> parses_within(header_text(h, #[trigger] hs[k]), u128::MAX as nat) {
            assert(parses_within(header_text(h, hs[0]), u128::MAX as nat));
            assert forall|k: int| 0 <= k < hs.drop_first().len() implies parses_within(
                header_text(h, #[trigger] hs.drop_first()[k]),
                u128::MAX as nat,
            ) by {
                assert(hs.drop_first()[k] == hs[k + 1]);
            }
        }
    }
}

/// The header checks, made one after the other, pass exactly when every
/// required header is present and well formed.
pub proof fn lemma_header_checks_pass_iff(h: Seq<(Seq<char>, Seq<u8>)>)
    ensures
        header_failure(h) is None <==> headers_well_formed(h),
{
    lemma_presence_none(h, required_headers());
    lemma_prefix_none(h, prefixed_headers());
    lemma_integer_none(h, integer_headers());
}

/// Authentication succeeds exactly when the request has no query parameter,
/// every required header is present and well formed, and the signature-256
/// header signs the body under the shared secret.
pub proof fn lemma_authentication_succeeds_iff(
    query_count: usize,
    h: Seq<(Seq<char>, Seq<u8>)>,
    body: Seq<u8>,
    secret: Seq<u8>,
)
    ensures
        authentication(query_count, h, body, secret) is Ok <==> {
            &&& query_count == 0
            &&& headers_well_formed(h)
            &&& signature_matches(h, body, secret)
        },
{
    lemma_header_checks_pass_iff(h);
    if headers_well_formed(h) {
        assert(is_present(h, required_headers()[4]));
        assert(starts_with(header_text(h, prefixed_headers()[0].0), prefixed_headers()[0].1));
    }
}

/// A body that the signature-256 header does not sign under the shared
/// secret is refused, whatever the rest of the request holds.
pub proof fn lemma_unsigned_body_refused(
    query_count: usize,
    h: Seq<(Seq<char>, Seq<u8>)>,
    body: Seq<u8>,
    secret: Seq<u8>,
)
    requires
        !signature_matches(h, body, secret),
    ensures
        authentication(query_count, h, body, secret) is Err,
{
    lemma_authentication_succeeds_iff(query_count, h, body, secret);
}

/// `h` without the headers called `name`.
pub open spec fn without_header(h: Seq<(Seq<char>, Seq<u8>)>, name: Seq<char>) -> Seq<(Seq<char>, Seq<u8>)>
    decreases h.len(),
{
    if h.len() == 0 {
        h
    } else if same_name(h[0].0, name) {
        without_header(h.drop_first(), name)
    } else {
        seq![h[0]] + without_header(h.drop_first(), name)
    }
}

proof fn lemma_without_header_lookup(h: Seq<(Seq<char>, Seq<u8>)>, name: Seq<char>)
    ensures
        header_value(without_header(h, name), name) is None,
    decreases h.len(),
{
    if h.len() > 0 {
        lemma_without_header_lookup(h.drop_first(), name);
        if !same_name(h[0].0, name) {
            let w = seq![h[0]] + without_header(h.drop_first(), name);
            assert(w[0] == h[0]);
            assert(w.drop_first() =~= without_header(h.drop_first(), name));
        }
    }
}

/// Taking any required header out of a request makes authentication fail.
pub proof fn lemma_missing_header_refused(
    query_count: usize,
    h: Seq<(Seq<char>, Seq<u8>)>,
    body: Seq<u8>,
    secret: Seq<u8>,
    r: RequiredHeader,
)
    ensures
        authentication(query_count, without_header(h, r.spec_name()), body, secret) is Err,
{
    let w = without_header(h, r.spec_name());
    lemma_without_header_lookup(h, r.spec_name());
    let k: int = match r {
        RequiredHeader::HookId => 0,
        RequiredHeader::Event => 1,
        RequiredHeader::Delivery => 2,
        RequiredHeader::Signature => 3,
        RequiredHeader::Signature256 => 4,
        RequiredHeader::UserAgent => 5,
        RequiredHeader::InstallationTargetType => 6,
        RequiredHeader::InstallationTargetId => 7,
    };
    assert(required_headers()[k] == r);
    assert(!is_present(w, required_headers()[k]));
    lemma_authentication_succeeds_iff(query_count, w, body, secret);
}

} // verus!
