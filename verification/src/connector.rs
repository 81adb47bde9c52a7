//! The connector boundary: request construction and response
//! classification for the three broker operations, and the traits
//! through which the transport is injected.
//!
//! The library builds every URL, query string and commit body itself and
//! states their exact contents; performing the HTTP exchange is the
//! embedding application's part, injected through the traits at the end
//! of this module.

use vstd::prelude::*;
use vstd::arithmetic::div_mod::lemma_fundamental_div_mod;
use vstd::string::StringSliceAdditionalSpecFns;

use crate::model::ClientError;
use crate::model::Cursor;
use crate::model::CursorView;
use crate::model::StreamId;
use crate::model::StreamInfo;
use crate::model::SubscriptionId;

verus! {

/// Appends the bytes of `add` to `out`.
pub fn append_bytes(out: &mut Vec<u8>, add: &[u8])
    ensures
        final(out)@ == old(out)@ + add@,
{
    let mut i: usize = 0;
    while i < add.len()
        invariant
            i <= add.len(),
            out@ == old(out)@ + add@.subrange(0, i as int),
        decreases add@.len() - i,
    {
        out.push(add[i]);
        assert(add@.subrange(0, i + 1 as int) =~= add@.subrange(0, i as int).push(add@[i as int]));
        assert(old(out)@ + add@.subrange(0, i + 1 as int) =~= (old(out)@ + add@.subrange(
            0,
            i as int,
        )).push(add@[i as int]));
        i = i + 1;
    }
    assert(add@.subrange(0, add@.len() as int) =~= add@);
}

/// The decimal digits of `n`, most significant first.
pub open spec fn spec_dec(n: int) -> Seq<u8>
    decreases n
    when n >= 0
{
    if n < 10 {
        seq![(48 + n) as u8]
    } else {
        spec_dec(n / 10).push((48 + n % 10) as u8)
    }
}

/// Writes `n` in decimal.
pub fn dec_bytes(n: u64) -> (r: Vec<u8>)
    ensures
        r@ == spec_dec(n as int),
    decreases n,
{
    if n < 10 {
        let mut v: Vec<u8> = Vec::new();
        v.push(48 + n as u8);
        proof {
            assert(v@ =~= spec_dec(n as int));
        }
        v
    } else {
        let mut v: Vec<u8> = dec_bytes(n / 10);
        v.push(48 + (n % 10) as u8);
        v
    }
}

/// Every byte is a decimal digit.
pub open spec fn all_digits(s: Seq<u8>) -> bool {
    forall|i: int| 0 <= i < s.len() ==> 48 <= #[trigger] s[i] <= 57
}

/// The numeric value of a digit string, most significant first.
pub open spec fn dec_value(s: Seq<u8>) -> int
    decreases s.len(),
{
    if s.len() == 0 {
        0
    } else {
        dec_value(s.drop_last()) * 10 + (s.last() - 48)
    }
}

proof fn lemma_dec_value_nonneg(s: Seq<u8>)
    requires
        all_digits(s),
    ensures
        dec_value(s) >= 0,
    decreases s.len(),
{
    if s.len() > 0 {
        assert(all_digits(s.drop_last()));
        lemma_dec_value_nonneg(s.drop_last());
    }
}

proof fn lemma_dec_value_extend(s: Seq<u8>, k: int)
    requires
        all_digits(s),
        0 <= k <= s.len(),
    ensures
        dec_value(s.subrange(0, k)) <= dec_value(s),
    decreases s.len() - k,
{
    if k < s.len() {
        let p = s.subrange(0, k);
        let q = s.subrange(0, k + 1);
        assert(q.drop_last() =~= p);
        assert(all_digits(p));
        lemma_dec_value_nonneg(p);
        assert(dec_value(q) == dec_value(p) * 10 + (s[k] - 48));
        lemma_dec_value_extend(s, k + 1);
    } else {
        assert(s.subrange(0, k) =~= s);
    }
}

/// Reads a decimal number.  Succeeds exactly on a non-empty digit string
/// whose value fits.
pub fn parse_u64(s: &[u8]) -> (r: Option<u64>)
    ensures
        match r {
            Option::Some(v) => s@.len() > 0 && all_digits(s@) && v as int == dec_value(s@),
            Option::None => !(s@.len() > 0 && all_digits(s@) && dec_value(s@) <= u64::MAX),
        },
{
    if s.len() == 0 {
        return Option::None;
    }
    let mut acc: u64 = 0;
    let mut i: usize = 0;
    while i < s.len()
        invariant
            0 < s@.len(),
            i <= s.len(),
            all_digits(s@.subrange(0, i as int)),
            acc as int == dec_value(s@.subrange(0, i as int)),
        decreases s@.len() - i,
    {
        let b: u8 = s[i];
        if b < 48 || b > 57 {
            return Option::None;
        }
        let d: u64 = (b - 48) as u64;
        let limit: u64 = (u64::MAX - d) / 10;
        proof {
            lemma_fundamental_div_mod((u64::MAX - d) as int, 10);
        }
        if acc > limit {
            proof {
                if all_digits(s@) && dec_value(s@) <= u64::MAX {
                    assert(s@.subrange(0, i + 1 as int).drop_last() =~= s@.subrange(0, i as int));
                    assert(dec_value(s@.subrange(0, i + 1 as int)) == acc * 10 + d);
                    lemma_dec_value_extend(s@, i + 1);
                    assert(false);
                }
            }
            return Option::None;
        }
        acc = acc * 10 + d;
        proof {
            assert(s@.subrange(0, i + 1 as int).drop_last() =~= s@.subrange(0, i as int));
        }
        i = i + 1;
    }
    proof {
        assert(s@.subrange(0, s@.len() as int) =~= s@);
    }
    Option::Some(acc)
}

/// Mathematical image of the connector settings.
pub struct ConnectorSettingsView {
    pub stream_keep_alive_limit: u64,
    pub stream_limit: u64,
    pub stream_timeout_secs: u64,
    pub batch_flush_timeout_secs: u64,
    pub batch_limit: u64,
    pub max_uncommitted_events: u64,
    pub nakadi_host: Seq<u8>,
}

/// Settings for the streaming read.  Integer and duration fields treat 0
/// as unset; unset fields are left out of the stream query string.  The
/// host is the URL prefix of the broker, without a trailing slash.
pub struct ConnectorSettings {
    pub stream_keep_alive_limit: u64,
    pub stream_limit: u64,
    pub stream_timeout_secs: u64,
    pub batch_flush_timeout_secs: u64,
    pub batch_limit: u64,
    pub max_uncommitted_events: u64,
    pub nakadi_host: Vec<u8>,
}

impl View for ConnectorSettings {
    type V = ConnectorSettingsView;

    open spec fn view(&self) -> ConnectorSettingsView {
        ConnectorSettingsView {
            stream_keep_alive_limit: self.stream_keep_alive_limit,
            stream_limit: self.stream_limit,
            stream_timeout_secs: self.stream_timeout_secs,
            batch_flush_timeout_secs: self.batch_flush_timeout_secs,
            batch_limit: self.batch_limit,
            max_uncommitted_events: self.max_uncommitted_events,
            nakadi_host: self.nakadi_host@,
        }
    }
}

/// One query parameter, `&`-prefixed, or nothing when the value is unset.
pub open spec fn amp_param(name: Seq<u8>, v: u64) -> Seq<u8> {
    if v == 0 {
        Seq::empty()
    } else {
        ("&").spec_bytes() + name + ("=").spec_bytes() + spec_dec(v as int)
    }
}

/// All enabled parameters, each with a leading `&`.
pub open spec fn spec_query_amp(s: ConnectorSettingsView) -> Seq<u8> {
    amp_param(("stream_keep_alive_limit").spec_bytes(), s.stream_keep_alive_limit) + amp_param(
        ("stream_limit").spec_bytes(),
        s.stream_limit,
    ) + amp_param(("stream_timeout").spec_bytes(), s.stream_timeout_secs) + amp_param(
        ("batch_flush_timeout").spec_bytes(),
        s.batch_flush_timeout_secs,
    ) + amp_param(("batch_limit").spec_bytes(), s.batch_limit) + amp_param(
        ("max_uncommitted_events").spec_bytes(),
        s.max_uncommitted_events,
    )
}

/// The stream query string: the enabled parameters joined with `&`.
pub open spec fn spec_stream_query(s: ConnectorSettingsView) -> Seq<u8> {
    let q = spec_query_amp(s);
    if q.len() == 0 {
        q
    } else {
        q.skip(1)
    }
}

fn push_amp_param(out: &mut Vec<u8>, name: &str, v: u64)
    ensures
        final(out)@ == old(out)@ + amp_param(name.spec_bytes(), v),
{
    if v != 0 {
        append_bytes(out, ("&").as_bytes());
        append_bytes(out, name.as_bytes());
        append_bytes(out, ("=").as_bytes());
        let digits: Vec<u8> = dec_bytes(v);
        append_bytes(out, digits.as_slice());
        assert(out@ =~= old(out)@ + amp_param(name.spec_bytes(), v));
    } else {
        assert(out@ =~= old(out)@ + amp_param(name.spec_bytes(), v));
    }
}

/// Builds the query string of the streaming read: every enabled setting,
/// in a fixed order, each as `name=value`; unset settings are omitted.
pub fn stream_query(s: &ConnectorSettings) -> (r: Vec<u8>)
    ensures
        r@ == spec_stream_query(s@),
{
    let mut q: Vec<u8> = Vec::new();
    push_amp_param(&mut q, "stream_keep_alive_limit", s.stream_keep_alive_limit);
    push_amp_param(&mut q, "stream_limit", s.stream_limit);
    push_amp_param(&mut q, "stream_timeout", s.stream_timeout_secs);
    push_amp_param(&mut q, "batch_flush_timeout", s.batch_flush_timeout_secs);
    push_amp_param(&mut q, "batch_limit", s.batch_limit);
    push_amp_param(&mut q, "max_uncommitted_events", s.max_uncommitted_events);
    proof {
        assert(q@ =~= spec_query_amp(s@));
    }
    if q.len() == 0 {
        q
    } else {
        let r: Vec<u8> = crate::wire::copy_range(q.as_slice(), 1, q.len());
        proof {
            assert(q@.subrange(1, q@.len() as int) =~= q@.skip(1));
        }
        r
    }
}

/// A broker host the library accepts: an `http` or `https` URL prefix
/// with something after the scheme, printable ASCII throughout (no
/// spaces or control bytes), and no trailing slash, since the library
/// appends each operation's path itself.
pub open spec fn spec_valid_host(h: Seq<u8>) -> bool {
    let http = ("http://").spec_bytes();
    let https = ("https://").spec_bytes();
    &&& ((h.len() > http.len() && h.subrange(0, http.len() as int) == http) || (h.len()
        > https.len() && h.subrange(0, https.len() as int) == https))
    &&& forall|i: int| 0 <= i < h.len() ==> 33 <= #[trigger] h[i] <= 126
    &&& h[h.len() - 1] != 47
}

fn has_prefix(s: &[u8], p: &[u8]) -> (r: bool)
    ensures
        r == (s@.len() >= p@.len() && s@.subrange(0, p@.len() as int) == p@),
{
    if s.len() < p.len() {
        return false;
    }
    let mut i: usize = 0;
    while i < p.len()
        invariant
            i <= p.len() <= s.len(),
            forall|m: int| 0 <= m < i ==> s@[m] == p@[m],
        decreases p@.len() - i,
    {
        if s[i] != p[i] {
            proof {
                if s@.subrange(0, p@.len() as int) == p@ {
                    assert(s@.subrange(0, p@.len() as int)[i as int] == s@[i as int]);
                    assert(false);
                }
            }
            return false;
        }
        i = i + 1;
    }
    proof {
        assert(s@.subrange(0, p@.len() as int) =~= p@);
    }
    true
}

/// Checks that the bytes are a host the library accepts.
pub fn valid_host(h: &[u8]) -> (r: bool)
    ensures
        r == spec_valid_host(h@),
{
    let http: &[u8] = ("http://").as_bytes();
    let https: &[u8] = ("https://").as_bytes();
    let scheme_ok: bool = (h.len() > http.len() && has_prefix(h, http)) || (h.len() > https.len()
        && has_prefix(h, https));
    if !scheme_ok {
        return false;
    }
    let mut i: usize = 0;
    while i < h.len()
        invariant
            i <= h.len(),
            forall|m: int| 0 <= m < i ==> 33 <= #[trigger] h@[m] <= 126,
        decreases h@.len() - i,
    {
        if h[i] < 33 || h[i] > 126 {
            return false;
        }
        i = i + 1;
    }
    h[h.len() - 1] != 47
}

/// URL of the streaming read, query included when any setting is set.
pub open spec fn spec_events_url(host: Seq<u8>, sub: Seq<u8>, query: Seq<u8>) -> Seq<u8> {
    host + ("/subscriptions/").spec_bytes() + sub + ("/events").spec_bytes() + (if query.len() == 0 {
        Seq::<u8>::empty()
    } else {
        ("?").spec_bytes() + query
    })
}

/// URL of the cursor commit.
pub open spec fn spec_cursors_url(host: Seq<u8>, sub: Seq<u8>) -> Seq<u8> {
    host + ("/subscriptions/").spec_bytes() + sub + ("/cursors").spec_bytes()
}

/// URL of the subscription diagnostics.
pub open spec fn spec_stats_url(host: Seq<u8>, sub: Seq<u8>) -> Seq<u8> {
    host + ("/subscriptions/").spec_bytes() + sub + ("/stats").spec_bytes()
}

/// Builds the URL of the streaming read for these settings.
pub fn events_url(s: &ConnectorSettings, sub: &SubscriptionId) -> (r: Vec<u8>)
    ensures
        r@ == spec_events_url(s@.nakadi_host, sub@, spec_stream_query(s@)),
{
    let mut out: Vec<u8> = Vec::new();
    append_bytes(&mut out, s.nakadi_host.as_slice());
    append_bytes(&mut out, ("/subscriptions/").as_bytes());
    append_bytes(&mut out, sub.as_bytes().as_slice());
    append_bytes(&mut out, ("/events").as_bytes());
    let q: Vec<u8> = stream_query(s);
    if q.len() > 0 {
        append_bytes(&mut out, ("?").as_bytes());
        append_bytes(&mut out, q.as_slice());
    }
    proof {
        assert(out@ =~= spec_events_url(s@.nakadi_host, sub@, spec_stream_query(s@)));
    }
    out
}

/// Builds the URL of the cursor commit.
pub fn cursors_url(host: &Vec<u8>, sub: &SubscriptionId) -> (r: Vec<u8>)
    ensures
        r@ == spec_cursors_url(host@, sub@),
{
    let mut out: Vec<u8> = Vec::new();
    append_bytes(&mut out, host.as_slice());
    append_bytes(&mut out, ("/subscriptions/").as_bytes());
    append_bytes(&mut out, sub.as_bytes().as_slice());
    append_bytes(&mut out, ("/cursors").as_bytes());
    proof {
        assert(out@ =~= spec_cursors_url(host@, sub@));
    }
    out
}

/// Builds the URL of the subscription diagnostics.
pub fn stats_url(host: &Vec<u8>, sub: &SubscriptionId) -> (r: Vec<u8>)
    ensures
        r@ == spec_stats_url(host@, sub@),
{
    let mut out: Vec<u8> = Vec::new();
    append_bytes(&mut out, host.as_slice());
    append_bytes(&mut out, ("/subscriptions/").as_bytes());
    append_bytes(&mut out, sub.as_bytes().as_slice());
    append_bytes(&mut out, ("/stats").as_bytes());
    proof {
        assert(out@ =~= spec_stats_url(host@, sub@));
    }
    out
}

/// Classifies the response of the streaming read.  The stream id comes
/// from the stream-id response header; HTTP 200 without that header
/// breaks the broker's contract.
pub fn read_response_outcome(status: u16, stream_id_header: Option<Vec<u8>>, body: Vec<u8>) -> (r:
    Result<StreamId, ClientError>)
    ensures
        status == 200 ==> (match stream_id_header {
            Option::Some(h) => r matches Result::Ok(sid) && sid@ == h@,
            Option::None => r matches Result::Err(e) && e is InvalidResponse,
        }),
        status == 400 ==> (r matches Result::Err(e) && e matches ClientError::Request(m) && m@
            == body@),
        status == 403 ==> (r matches Result::Err(e) && e matches ClientError::Forbidden(m) && m@
            == body@),
        status == 404 ==> (r matches Result::Err(e) && e matches ClientError::NoSubscription(m)
            && m@ == body@),
        status == 409 ==> (r matches Result::Err(e) && e matches ClientError::Conflict(m) && m@
            == body@),
        !(status == 200 || status == 400 || status == 403 || status == 404 || status == 409) ==> (
        r matches Result::Err(e) && e matches ClientError::Internal(st) && st == status),
{
    if status == 200 {
        match stream_id_header {
            Option::Some(h) => Result::Ok(StreamId::from_bytes(h)),
            Option::None => Result::Err(ClientError::InvalidResponse(body)),
        }
    } else if status == 400 {
        Result::Err(ClientError::Request(body))
    } else if status == 403 {
        Result::Err(ClientError::Forbidden(body))
    } else if status == 404 {
        Result::Err(ClientError::NoSubscription(body))
    } else if status == 409 {
        Result::Err(ClientError::Conflict(body))
    } else {
        Result::Err(ClientError::Internal(status))
    }
}

/// Classifies the response of a cursor commit.  200 and 204 are success;
/// 422 means the broker refused the cursor.
pub fn commit_response_outcome(status: u16, body: Vec<u8>) -> (r: Result<(), ClientError>)
    ensures
        status == 200 || status == 204 ==> r is Ok,
        status == 400 ==> (r matches Result::Err(e) && e matches ClientError::Request(m) && m@
            == body@),
        status == 403 ==> (r matches Result::Err(e) && e matches ClientError::Forbidden(m) && m@
            == body@),
        status == 404 ==> (r matches Result::Err(e) && e matches ClientError::NoSubscription(m)
            && m@ == body@),
        status == 409 ==> (r matches Result::Err(e) && e matches ClientError::Conflict(m) && m@
            == body@),
        status == 422 ==> (r matches Result::Err(e) && e matches
            ClientError::CursorUnprocessable(m) && m@ == body@),
        !(status == 200 || status == 204 || status == 400 || status == 403 || status == 404
            || status == 409 || status == 422) ==> (r matches Result::Err(e) && e matches
            ClientError::Internal(st) && st == status),
{
    if status == 200 || status == 204 {
        Result::Ok(())
    } else if status == 400 {
        Result::Err(ClientError::Request(body))
    } else if status == 403 {
        Result::Err(ClientError::Forbidden(body))
    } else if status == 404 {
        Result::Err(ClientError::NoSubscription(body))
    } else if status == 409 {
        Result::Err(ClientError::Conflict(body))
    } else if status == 422 {
        Result::Err(ClientError::CursorUnprocessable(body))
    } else {
        Result::Err(ClientError::Internal(status))
    }
}

/// Classifies the response of the diagnostics request; on success the
/// body is handed over verbatim.
pub fn stats_response_outcome(status: u16, body: Vec<u8>) -> (r: Result<StreamInfo, ClientError>)
    ensures
        status == 200 ==> (r matches Result::Ok(info) && info@ == body@),
        status == 400 ==> (r matches Result::Err(e) && e matches ClientError::Request(m) && m@
            == body@),
        status == 403 ==> (r matches Result::Err(e) && e matches ClientError::Forbidden(m) && m@
            == body@),
        status == 404 ==> (r matches Result::Err(e) && e matches ClientError::NoSubscription(m)
            && m@ == body@),
        !(status == 200 || status == 400 || status == 403 || status == 404) ==> (
        r matches Result::Err(e) && e matches ClientError::Internal(st) && st == status),
{
    if status == 200 {
        Result::Ok(StreamInfo { raw: body })
    } else if status == 400 {
        Result::Err(ClientError::Request(body))
    } else if status == 403 {
        Result::Err(ClientError::Forbidden(body))
    } else if status == 404 {
        Result::Err(ClientError::NoSubscription(body))
    } else {
        Result::Err(ClientError::Internal(status))
    }
}

/// The JSON object of one cursor, its fields emitted verbatim.
pub open spec fn spec_cursor_json(c: CursorView) -> Seq<u8> {
    ("{\"event_type\":\"").spec_bytes() + c.event_type + ("\",\"partition\":\"").spec_bytes()
        + c.partition + ("\",\"offset\":\"").spec_bytes() + c.offset + (
    "\",\"cursor_token\":\"").spec_bytes() + c.cursor_token + ("\"}").spec_bytes()
}

/// The views of a sequence of cursors.
pub open spec fn cursors_view(cs: Seq<Cursor>) -> Seq<CursorView> {
    cs.map_values(|c: Cursor| c@)
}

/// Comma-separated cursor objects.
pub open spec fn spec_cursors_json(cs: Seq<CursorView>) -> Seq<u8>
    decreases cs.len(),
{
    if cs.len() == 0 {
        Seq::empty()
    } else if cs.len() == 1 {
        spec_cursor_json(cs[0])
    } else {
        spec_cursors_json(cs.drop_last()) + (",").spec_bytes() + spec_cursor_json(cs.last())
    }
}

/// The body of a commit request.
pub open spec fn spec_commit_body(cs: Seq<CursorView>) -> Seq<u8> {
    ("{\"items\":[").spec_bytes() + spec_cursors_json(cs) + ("]}").spec_bytes()
}

fn push_cursor_json(out: &mut Vec<u8>, c: &Cursor)
    ensures
        final(out)@ == old(out)@ + spec_cursor_json(c@),
{
    append_bytes(out, ("{\"event_type\":\"").as_bytes());
    append_bytes(out, c.event_type.as_slice());
    append_bytes(out, ("\",\"partition\":\"").as_bytes());
    append_bytes(out, c.partition.as_slice());
    append_bytes(out, ("\",\"offset\":\"").as_bytes());
    append_bytes(out, c.offset.as_slice());
    append_bytes(out, ("\",\"cursor_token\":\"").as_bytes());
    append_bytes(out, c.cursor_token.as_slice());
    append_bytes(out, ("\"}").as_bytes());
    assert(out@ =~= old(out)@ + spec_cursor_json(c@));
}

/// Builds the body of a commit request for these cursors, in order.
pub fn commit_body(cursors: &Vec<Cursor>) -> (r: Vec<u8>)
    ensures
        r@ == spec_commit_body(cursors_view(cursors@)),
{
    let mut out: Vec<u8> = Vec::new();
    append_bytes(&mut out, ("{\"items\":[").as_bytes());
    let mut i: usize = 0;
    while i < cursors.len()
        invariant
            i <= cursors.len(),
            out@ == ("{\"items\":[").spec_bytes() + spec_cursors_json(
                cursors_view(cursors@.subrange(0, i as int)),
            ),
        decreases cursors@.len() - i,
    {
        if i > 0 {
            append_bytes(&mut out, (",").as_bytes());
        }
        push_cursor_json(&mut out, &cursors[i]);
        proof {
            let pre = cursors_view(cursors@.subrange(0, i as int));
            let post = cursors_view(cursors@.subrange(0, i + 1 as int));
            assert(post.drop_last() =~= pre);
            assert(post.last() == cursors@[i as int]@);
            assert(out@ =~= ("{\"items\":[").spec_bytes() + spec_cursors_json(post));
        }
        i = i + 1;
    }
    append_bytes(&mut out, ("]}").as_bytes());
    proof {
        assert(cursors@.subrange(0, cursors@.len() as int) =~= cursors@);
        assert(out@ =~= spec_commit_body(cursors_view(cursors@)));
    }
    out
}

/// A fully built commit request: everything the transport needs to POST
/// the cursors, and the cursors themselves for inspection.
pub struct CommitRequest {
    pub url: Vec<u8>,
    pub stream_id: StreamId,
    pub body: Vec<u8>,
    pub cursors: Vec<Cursor>,
}

impl CommitRequest {
    /// The stream-affinity rule made syntactic: the request carries
    /// exactly the stream id it was built with, and its body holds
    /// exactly its cursors.
    pub open spec fn wf(&self, host: Seq<u8>, sub: Seq<u8>) -> bool {
        &&& self.url@ == spec_cursors_url(host, sub)
        &&& self.body@ == spec_commit_body(cursors_view(self.cursors@))
    }
}

/// Builds the commit request for these cursors under this stream id.
pub fn build_commit_request(
    host: &Vec<u8>,
    stream_id: &StreamId,
    sub: &SubscriptionId,
    cursors: Vec<Cursor>,
) -> (r: CommitRequest)
    ensures
        r.stream_id@ == stream_id@,
        r.cursors@ == cursors@,
        r.wf(host@, sub@),
{
    let url: Vec<u8> = cursors_url(host, sub);
    let body: Vec<u8> = commit_body(&cursors);
    CommitRequest { url, stream_id: stream_id.duplicate(), body, cursors }
}

/// A bearer credential for the broker.
pub struct Token(pub Vec<u8>);

/// Supplies the bearer token attached to every request; no token means
/// the authorization header is simply omitted.
pub trait ProvidesToken {
    fn get_token(&self) -> Option<Token>;
}

/// The value of the authorization header for a token.
pub open spec fn spec_bearer(token: Seq<u8>) -> Seq<u8> {
    ("Bearer ").spec_bytes() + token
}

/// Builds the value of the authorization header.
pub fn bearer_header_value(token: &Token) -> (r: Vec<u8>)
    ensures
        r@ == spec_bearer(token.0@),
{
    let mut out: Vec<u8> = Vec::new();
    append_bytes(&mut out, ("Bearer ").as_bytes());
    append_bytes(&mut out, token.0.as_slice());
    proof {
        assert(out@ =~= spec_bearer(token.0@));
    }
    out
}

/// Opens the streaming read.  The stream id that comes back with the
/// body is the one under which every cursor of this stream must be
/// committed.
pub trait ReadsStream {
    type StreamingSource;

    fn read(&self, subscription: &SubscriptionId) -> Result<
        (Self::StreamingSource, StreamId),
        ClientError,
    >;
}

/// Commits cursors.  The same stream id with which the cursors were
/// received must be used.
pub trait Checkpoints {
    fn checkpoint(
        &self,
        stream_id: &StreamId,
        subscription: &SubscriptionId,
        cursors: &[Cursor],
    ) -> Result<(), ClientError>;
}

/// Fetches subscription diagnostics.
pub trait ProvidesStreamInfo {
    fn stream_info(&self, subscription: &SubscriptionId) -> Result<StreamInfo, ClientError>;
}

/// The full connector boundary, shared across streams; it is stateless.
pub trait NakadiConnector: ReadsStream + Checkpoints + ProvidesStreamInfo {
    fn settings(&self) -> &ConnectorSettings;
}

/// Builds `ConnectorSettings` step by step; the host is the one field
/// without a default.
pub struct ConnectorSettingsBuilder {
    pub stream_keep_alive_limit: u64,
    pub stream_limit: u64,
    pub stream_timeout_secs: u64,
    pub batch_flush_timeout_secs: u64,
    pub batch_limit: u64,
    pub max_uncommitted_events: u64,
    pub nakadi_host: Option<Vec<u8>>,
}

impl ConnectorSettingsBuilder {
    /// Everything unset: every number 0, no host.
    pub fn new() -> (r: ConnectorSettingsBuilder)
        ensures
            r.stream_keep_alive_limit == 0,
            r.stream_limit == 0,
            r.stream_timeout_secs == 0,
            r.batch_flush_timeout_secs == 0,
            r.batch_limit == 0,
            r.max_uncommitted_events == 0,
            r.nakadi_host is None,
    {
        ConnectorSettingsBuilder {
            stream_keep_alive_limit: 0,
            stream_limit: 0,
            stream_timeout_secs: 0,
            batch_flush_timeout_secs: 0,
            batch_limit: 0,
            max_uncommitted_events: 0,
            nakadi_host: Option::None,
        }
    }

    pub fn stream_keep_alive_limit(self, v: u64) -> (r: ConnectorSettingsBuilder)
        ensures
            r == (ConnectorSettingsBuilder { stream_keep_alive_limit: v, ..self }),
    {
        ConnectorSettingsBuilder { stream_keep_alive_limit: v, ..self }
    }

    pub fn stream_limit(self, v: u64) -> (r: ConnectorSettingsBuilder)
        ensures
            r == (ConnectorSettingsBuilder { stream_limit: v, ..self }),
    {
        ConnectorSettingsBuilder { stream_limit: v, ..self }
    }

    pub fn stream_timeout_secs(self, v: u64) -> (r: ConnectorSettingsBuilder)
        ensures
            r == (ConnectorSettingsBuilder { stream_timeout_secs: v, ..self }),
    {
        ConnectorSettingsBuilder { stream_timeout_secs: v, ..self }
    }

    pub fn batch_flush_timeout_secs(self, v: u64) -> (r: ConnectorSettingsBuilder)
        ensures
            r == (ConnectorSettingsBuilder { batch_flush_timeout_secs: v, ..self }),
    {
        ConnectorSettingsBuilder { batch_flush_timeout_secs: v, ..self }
    }

    pub fn batch_limit(self, v: u64) -> (r: ConnectorSettingsBuilder)
        ensures
            r == (ConnectorSettingsBuilder { batch_limit: v, ..self }),
    {
        ConnectorSettingsBuilder { batch_limit: v, ..self }
    }

    pub fn max_uncommitted_events(self, v: u64) -> (r: ConnectorSettingsBuilder)
        ensures
            r == (ConnectorSettingsBuilder { max_uncommitted_events: v, ..self }),
    {
        ConnectorSettingsBuilder { max_uncommitted_events: v, ..self }
    }

    pub fn nakadi_host(self, host: Vec<u8>) -> (r: ConnectorSettingsBuilder)
        ensures
            r == (ConnectorSettingsBuilder { nakadi_host: Option::Some(host), ..self }),
    {
        ConnectorSettingsBuilder { nakadi_host: Option::Some(host), ..self }
    }

    /// Mathematical image of the builder.
    pub open spec fn bview(&self) -> BuilderView {
        BuilderView {
            stream_keep_alive_limit: self.stream_keep_alive_limit,
            stream_limit: self.stream_limit,
            stream_timeout_secs: self.stream_timeout_secs,
            batch_flush_timeout_secs: self.batch_flush_timeout_secs,
            batch_limit: self.batch_limit,
            max_uncommitted_events: self.max_uncommitted_events,
            nakadi_host: match self.nakadi_host {
                Option::Some(h) => Option::Some(h@),
                Option::None => Option::None,
            },
        }
    }

    /// Finishes the settings.  Fails exactly on the fatal construction
    /// errors: no host was given, or the host is not a URL the library
    /// accepts; the returned bytes say which.
    pub fn build(self) -> (r: Result<ConnectorSettings, Vec<u8>>)
        ensures
            (match self.nakadi_host {
                Option::Some(h) => spec_valid_host(h@),
                Option::None => false,
            }) ==> (self.nakadi_host matches Option::Some(h) && r matches Result::Ok(s) && s@ == (
            ConnectorSettingsView {
                stream_keep_alive_limit: self.stream_keep_alive_limit,
                stream_limit: self.stream_limit,
                stream_timeout_secs: self.stream_timeout_secs,
                batch_flush_timeout_secs: self.batch_flush_timeout_secs,
                batch_limit: self.batch_limit,
                max_uncommitted_events: self.max_uncommitted_events,
                nakadi_host: h@,
            })),
            !(match self.nakadi_host {
                Option::Some(h) => spec_valid_host(h@),
                Option::None => false,
            }) ==> r is Err,
    {
        match self.nakadi_host {
            Option::Some(h) => {
                if !valid_host(h.as_slice()) {
                    let mut m: Vec<u8> = Vec::new();
                    append_bytes(&mut m, ("the broker host is not a usable URL").as_bytes());
                    return Result::Err(m);
                }
                Result::Ok(
                    ConnectorSettings {
                        stream_keep_alive_limit: self.stream_keep_alive_limit,
                        stream_limit: self.stream_limit,
                        stream_timeout_secs: self.stream_timeout_secs,
                        batch_flush_timeout_secs: self.batch_flush_timeout_secs,
                        batch_limit: self.batch_limit,
                        max_uncommitted_events: self.max_uncommitted_events,
                        nakadi_host: h,
                    },
                )
            },
            Option::None => {
                let mut m: Vec<u8> = Vec::new();
                append_bytes(&mut m, ("no broker host was given").as_bytes());
                Result::Err(m)
            },
        }
    }
}

/// Mathematical image of a settings builder.
pub struct BuilderView {
    pub stream_keep_alive_limit: u64,
    pub stream_limit: u64,
    pub stream_timeout_secs: u64,
    pub batch_flush_timeout_secs: u64,
    pub batch_limit: u64,
    pub max_uncommitted_events: u64,
    pub nakadi_host: Option<Seq<u8>>,
}

/// The builder with nothing set.
pub open spec fn spec_builder_defaults() -> BuilderView {
    BuilderView {
        stream_keep_alive_limit: 0,
        stream_limit: 0,
        stream_timeout_secs: 0,
        batch_flush_timeout_secs: 0,
        batch_limit: 0,
        max_uncommitted_events: 0,
        nakadi_host: Option::None,
    }
}

/// A value that `parse_u64` accepts.
pub open spec fn valid_u64(value: Seq<u8>) -> bool {
    value.len() > 0 && all_digits(value) && dec_value(value) <= u64::MAX
}

/// Applies one environment variable to the builder.  An unknown name
/// changes nothing; a known numeric name must carry a decimal value;
/// the host is taken verbatim.
pub open spec fn spec_apply_pair(b: BuilderView, name: Seq<u8>, value: Seq<u8>) -> Option<
    BuilderView,
> {
    if name == ("NAKADION_STREAM_KEEP_ALIVE_LIMIT").spec_bytes() {
        if valid_u64(value) {
            Option::Some(BuilderView { stream_keep_alive_limit: dec_value(value) as u64, ..b })
        } else {
            Option::None
        }
    } else if name == ("NAKADION_STREAM_LIMIT").spec_bytes() {
        if valid_u64(value) {
            Option::Some(BuilderView { stream_limit: dec_value(value) as u64, ..b })
        } else {
            Option::None
        }
    } else if name == ("NAKADION_STREAM_TIMEOUT_SECS").spec_bytes() {
        if valid_u64(value) {
            Option::Some(BuilderView { stream_timeout_secs: dec_value(value) as u64, ..b })
        } else {
            Option::None
        }
    } else if name == ("NAKADION_BATCH_FLUSH_TIMEOUT_SECS").spec_bytes() {
        if valid_u64(value) {
            Option::Some(BuilderView { batch_flush_timeout_secs: dec_value(value) as u64, ..b })
        } else {
            Option::None
        }
    } else if name == ("NAKADION_BATCH_LIMIT").spec_bytes() {
        if valid_u64(value) {
            Option::Some(BuilderView { batch_limit: dec_value(value) as u64, ..b })
        } else {
            Option::None
        }
    } else if name == ("NAKADION_MAX_UNCOMMITED_EVENTS").spec_bytes() {
        if valid_u64(value) {
            Option::Some(BuilderView { max_uncommitted_events: dec_value(value) as u64, ..b })
        } else {
            Option::None
        }
    } else if name == ("NAKADION_NAKADI_HOST").spec_bytes() {
        Option::Some(BuilderView { nakadi_host: Option::Some(value), ..b })
    } else {
        Option::Some(b)
    }
}

/// The views of a sequence of name-value pairs.
pub open spec fn pairs_view(s: Seq<(Vec<u8>, Vec<u8>)>) -> Seq<(Seq<u8>, Seq<u8>)> {
    s.map_values(|p: (Vec<u8>, Vec<u8>)| (p.0@, p.1@))
}

/// A variable whose value the builder must parse as a number.
pub open spec fn spec_numeric_name(name: Seq<u8>) -> bool {
    ||| name == ("NAKADION_STREAM_KEEP_ALIVE_LIMIT").spec_bytes()
    ||| name == ("NAKADION_STREAM_LIMIT").spec_bytes()
    ||| name == ("NAKADION_STREAM_TIMEOUT_SECS").spec_bytes()
    ||| name == ("NAKADION_BATCH_FLUSH_TIMEOUT_SECS").spec_bytes()
    ||| name == ("NAKADION_BATCH_LIMIT").spec_bytes()
    ||| name == ("NAKADION_MAX_UNCOMMITED_EVENTS").spec_bytes()
}

/// A pair the application of the variables fails on.
pub open spec fn spec_pair_fails(name: Seq<u8>, value: Seq<u8>) -> bool {
    spec_numeric_name(name) && !valid_u64(value)
}

/// The name of the first pair, at or after `i`, whose value fails to
/// parse.
pub open spec fn spec_first_bad_from(pairs: Seq<(Seq<u8>, Seq<u8>)>, i: int) -> Option<Seq<u8>>
    decreases pairs.len() - i
    when 0 <= i <= pairs.len()
{
    if i >= pairs.len() {
        Option::None
    } else if spec_pair_fails(pairs[i].0, pairs[i].1) {
        Option::Some(pairs[i].0)
    } else {
        spec_first_bad_from(pairs, i + 1)
    }
}

/// Applies the pairs left to right; a later pair overrides an earlier
/// one, and the first unparsable value fails the whole application.
pub open spec fn spec_apply_pairs(b: BuilderView, pairs: Seq<(Seq<u8>, Seq<u8>)>) -> Option<
    BuilderView,
>
    decreases pairs.len(),
{
    if pairs.len() == 0 {
        Option::Some(b)
    } else {
        match spec_apply_pairs(b, pairs.drop_last()) {
            Option::Some(b2) => spec_apply_pair(b2, pairs.last().0, pairs.last().1),
            Option::None => Option::None,
        }
    }
}

proof fn lemma_apply_pairs_none(b: BuilderView, pairs: Seq<(Seq<u8>, Seq<u8>)>, k: int)
    requires
        0 <= k <= pairs.len(),
        spec_apply_pairs(b, pairs.subrange(0, k)) is None,
    ensures
        spec_apply_pairs(b, pairs) is None,
    decreases pairs.len() - k,
{
    if k == pairs.len() {
        assert(pairs.subrange(0, k) =~= pairs);
    } else {
        assert(pairs.subrange(0, k + 1).drop_last() =~= pairs.subrange(0, k));
        lemma_apply_pairs_none(b, pairs, k + 1);
    }
}

/// Builds settings from environment-style pairs: each pair a variable
/// name and its value, applied in order over the defaults.  The value of
/// an unparsable variable fails the whole application, and the returned
/// bytes name that variable.
pub fn settings_builder_from_pairs(pairs: &Vec<(Vec<u8>, Vec<u8>)>) -> (r: Result<
    ConnectorSettingsBuilder,
    Vec<u8>,
>)
    ensures
        match r {
            Result::Ok(b) => spec_apply_pairs(spec_builder_defaults(), pairs_view(pairs@))
                == Option::Some(b.bview()) && spec_first_bad_from(pairs_view(pairs@), 0) is None,
            Result::Err(m) => spec_apply_pairs(spec_builder_defaults(), pairs_view(pairs@))
                is None && spec_first_bad_from(pairs_view(pairs@), 0) == Option::Some(m@),
        },
{
    let mut b: ConnectorSettingsBuilder = ConnectorSettingsBuilder::new();
    let mut i: usize = 0;
    while i < pairs.len()
        invariant
            i <= pairs.len(),
            spec_apply_pairs(spec_builder_defaults(), pairs_view(pairs@).subrange(0, i as int))
                == Option::Some(b.bview()),
            spec_first_bad_from(pairs_view(pairs@), 0) == spec_first_bad_from(
                pairs_view(pairs@),
                i as int,
            ),
        decreases pairs@.len() - i,
    {
        let ghost pre = pairs_view(pairs@).subrange(0, i as int);
        let ghost post = pairs_view(pairs@).subrange(0, i + 1 as int);
        proof {
            assert(post.drop_last() =~= pre);
            assert(post.last() == (pairs@[i as int].0@, pairs@[i as int].1@));
        }
        let name: &Vec<u8> = &pairs[i].0;
        let value: &Vec<u8> = &pairs[i].1;
        if crate::model::slices_eq(name.as_slice(), ("NAKADION_STREAM_KEEP_ALIVE_LIMIT").as_bytes())
        {
            match parse_u64(value.as_slice()) {
                Option::Some(v) => {
                    b = b.stream_keep_alive_limit(v);
                },
                Option::None => {
                    proof {
                        lemma_apply_pairs_none(
                            spec_builder_defaults(),
                            pairs_view(pairs@),
                            i + 1 as int,
                        );
                    }
                    return Result::Err(crate::model::bytes_copy(name));
                },
            }
        } else if crate::model::slices_eq(name.as_slice(), ("NAKADION_STREAM_LIMIT").as_bytes()) {
            match parse_u64(value.as_slice()) {
                Option::Some(v) => {
                    b = b.stream_limit(v);
                },
                Option::None => {
                    proof {
                        lemma_apply_pairs_none(
                            spec_builder_defaults(),
                            pairs_view(pairs@),
                            i + 1 as int,
                        );
                    }
                    return Result::Err(crate::model::bytes_copy(name));
                },
            }
        } else if crate::model::slices_eq(
            name.as_slice(),
            ("NAKADION_STREAM_TIMEOUT_SECS").as_bytes(),
        ) {
            match parse_u64(value.as_slice()) {
                Option::Some(v) => {
                    b = b.stream_timeout_secs(v);
                },
                Option::None => {
                    proof {
                        lemma_apply_pairs_none(
                            spec_builder_defaults(),
                            pairs_view(pairs@),
                            i + 1 as int,
                        );
                    }
                    return Result::Err(crate::model::bytes_copy(name));
                },
            }
        } else if crate::model::slices_eq(
            name.as_slice(),
            ("NAKADION_BATCH_FLUSH_TIMEOUT_SECS").as_bytes(),
        ) {
            match parse_u64(value.as_slice()) {
                Option::Some(v) => {
                    b = b.batch_flush_timeout_secs(v);
                },
                Option::None => {
                    proof {
                        lemma_apply_pairs_none(
                            spec_builder_defaults(),
                            pairs_view(pairs@),
                            i + 1 as int,
                        );
                    }
                    return Result::Err(crate::model::bytes_copy(name));
                },
            }
        } else if crate::model::slices_eq(name.as_slice(), ("NAKADION_BATCH_LIMIT").as_bytes()) {
            match parse_u64(value.as_slice()) {
                Option::Some(v) => {
                    b = b.batch_limit(v);
                },
                Option::None => {
                    proof {
                        lemma_apply_pairs_none(
                            spec_builder_defaults(),
                            pairs_view(pairs@),
                            i + 1 as int,
                        );
                    }
                    return Result::Err(crate::model::bytes_copy(name));
                },
            }
        } else if crate::model::slices_eq(
            name.as_slice(),
            ("NAKADION_MAX_UNCOMMITED_EVENTS").as_bytes(),
        ) {
            match parse_u64(value.as_slice()) {
                Option::Some(v) => {
                    b = b.max_uncommitted_events(v);
                },
                Option::None => {
                    proof {
                        lemma_apply_pairs_none(
                            spec_builder_defaults(),
                            pairs_view(pairs@),
                            i + 1 as int,
                        );
                    }
                    return Result::Err(crate::model::bytes_copy(name));
                },
            }
        } else if crate::model::slices_eq(name.as_slice(), ("NAKADION_NAKADI_HOST").as_bytes()) {
            b = b.nakadi_host(crate::model::bytes_copy(value));
        }
        i = i + 1;
    }
    proof {
        assert(pairs_view(pairs@).subrange(0, pairs@.len() as int) =~= pairs_view(pairs@));
    }
    Result::Ok(b)
}

} // verus!
