//! The relay bridge: building the HTTP requests that forward organ events.
//!
//! Observed organ events are relayed to a backend service as fire-and-forget
//! HTTP POSTs. This module decides the request: the full URL for each logical
//! endpoint and the exact body, with JSON string escaping applied to every
//! value inserted into a body template. The surrounding application performs
//! the POST on a background thread with a bounded timeout, logs the outcome,
//! and never surfaces a network failure to the caller.

use vstd::prelude::*;
use vstd::string::StrSliceExecFns;
use vstd::string::StringExecFns;

verus! {

/// The logical backend endpoints events are relayed to.
#[derive(Clone, Copy, PartialEq, Eq, Structural, Debug)]
pub enum RelayEndpoint {
    /// A batch of observed events.
    Batch,
    /// A single observed message.
    Message,
    /// A connection-status change.
    Status,
}

/// The path under the backend base address for each endpoint.
pub open spec fn endpoint_suffix(e: RelayEndpoint) -> Seq<char> {
    match e {
        RelayEndpoint::Batch => "/whatsapp/batch"@,
        RelayEndpoint::Message => "/whatsapp/message"@,
        RelayEndpoint::Status => "/whatsapp/status"@,
    }
}

/// The lowercase hexadecimal digit for a value below sixteen.
pub open spec fn hex_digit(v: int) -> char {
    if v == 0 {
        '0'
    } else if v == 1 {
        '1'
    } else if v == 2 {
        '2'
    } else if v == 3 {
        '3'
    } else if v == 4 {
        '4'
    } else if v == 5 {
        '5'
    } else if v == 6 {
        '6'
    } else if v == 7 {
        '7'
    } else if v == 8 {
        '8'
    } else if v == 9 {
        '9'
    } else if v == 10 {
        'a'
    } else if v == 11 {
        'b'
    } else if v == 12 {
        'c'
    } else if v == 13 {
        'd'
    } else if v == 14 {
        'e'
    } else {
        'f'
    }
}

/// How one character is written inside a JSON string literal: quote and
/// backslash get a backslash escape, control characters the `\u00` form, and
/// everything else stands for itself.
pub open spec fn json_escaped_char(c: char) -> Seq<char> {
    if c == '"' {
        seq!['\\', '"']
    } else if c == '\\' {
        seq!['\\', '\\']
    } else if (c as int) < 32 {
        seq!['\\', 'u', '0', '0', hex_digit(c as int / 16), hex_digit(c as int % 16)]
    } else {
        seq![c]
    }
}

/// A string written inside a JSON string literal, character by character.
pub open spec fn json_escaped(s: Seq<char>) -> Seq<char>
    decreases s.len(),
{
    if s.len() == 0 {
        Seq::empty()
    } else {
        json_escaped_char(s.first()) + json_escaped(s.drop_first())
    }
}

/// Escaping a string is escaping all but its last character, then its last.
proof fn lemma_json_escaped_snoc(s: Seq<char>)
    requires
        s.len() > 0,
    ensures
        json_escaped(s) == json_escaped(s.drop_last()) + json_escaped_char(s.last()),
    decreases s.len(),
{
    if s.len() == 1 {
        assert(s.drop_first() =~= Seq::<char>::empty());
        assert(s.drop_last() =~= Seq::<char>::empty());
        assert(json_escaped(s) =~= json_escaped(s.drop_last()) + json_escaped_char(s.last()));
    } else {
        lemma_json_escaped_snoc(s.drop_first());
        assert(s.drop_first().drop_last() =~= s.drop_last().drop_first());
        assert(s.drop_first().last() == s.last());
        assert(s.drop_last().first() == s.first());
        assert(json_escaped(s) =~= json_escaped(s.drop_last()) + json_escaped_char(s.last()));
    }
}

/// The JSON body of a status relay: the reported status value and the
/// timestamp attached at send time, each inserted with JSON string escaping,
/// so the body is a well-formed JSON object whatever the values hold.
pub open spec fn status_body_view(status: Seq<char>, timestamp: Seq<char>) -> Seq<char> {
    "{\"status\":\""@ + json_escaped(status) + "\",\"timestamp\":\""@ + json_escaped(timestamp)
        + "\"}"@
}

/// The characters an RFC 3339 date-time string is built from: digits and the
/// date-time punctuation — never a quote, backslash or control character.
pub open spec fn is_timestamp_char(c: char) -> bool {
    ('0' <= c && c <= '9') || c == '-' || c == ':' || c == '+' || c == '.' || c == 'T' || c == 'Z'
}

/// Does the string consist of timestamp characters only?
pub open spec fn timestamp_chars(s: Seq<char>) -> bool {
    forall|i: int| 0 <= i < s.len() ==> is_timestamp_char(#[trigger] s[i])
}

/// A string of timestamp characters needs no JSON escaping: escaped
/// insertion leaves it unchanged.
pub proof fn lemma_timestamp_chars_verbatim(s: Seq<char>)
    requires
        timestamp_chars(s),
    ensures
        json_escaped(s) == s,
    decreases s.len(),
{
    if s.len() > 0 {
        assert(is_timestamp_char(s.first()));
        assert(json_escaped_char(s.first()) =~= seq![s.first()]);
        assert(timestamp_chars(s.drop_first())) by {
            assert(forall|i: int|
                0 <= i < s.drop_first().len() ==> #[trigger] s.drop_first()[i] == s[i + 1]);
        }
        lemma_timestamp_chars_verbatim(s.drop_first());
        assert(json_escaped(s) =~= s);
    }
}

/// One planned HTTP POST: where to send and what to send. The content type
/// is always `content_type()`.
pub struct RelayRequest {
    pub url: String,
    pub body: String,
}

/// The content type every relay request is sent with.
pub fn content_type() -> (r: &'static str)
    ensures
        r@ == "application/json"@,
{
    "application/json"
}

/// The path for an endpoint.
pub fn endpoint_path(e: RelayEndpoint) -> (r: &'static str)
    ensures
        r@ == endpoint_suffix(e),
{
    match e {
        RelayEndpoint::Batch => "/whatsapp/batch",
        RelayEndpoint::Message => "/whatsapp/message",
        RelayEndpoint::Status => "/whatsapp/status",
    }
}

/// The full URL for an endpoint under the backend base address.
pub fn relay_url(base: &str, e: RelayEndpoint) -> (r: String)
    ensures
        r@ == base@ + endpoint_suffix(e),
{
    let mut url = base.to_owned();
    url.append(endpoint_path(e));
    url
}

/// The lowercase hexadecimal digit for a value below sixteen.
fn hex_digit_str(v: u32) -> (r: &'static str)
    requires
        v < 16,
    ensures
        r@ =~= seq![hex_digit(v as int)],
{
    let r: &'static str = if v == 0 {
        "0"
    } else if v == 1 {
        "1"
    } else if v == 2 {
        "2"
    } else if v == 3 {
        "3"
    } else if v == 4 {
        "4"
    } else if v == 5 {
        "5"
    } else if v == 6 {
        "6"
    } else if v == 7 {
        "7"
    } else if v == 8 {
        "8"
    } else if v == 9 {
        "9"
    } else if v == 10 {
        "a"
    } else if v == 11 {
        "b"
    } else if v == 12 {
        "c"
    } else if v == 13 {
        "d"
    } else if v == 14 {
        "e"
    } else {
        "f"
    };
    proof {
        reveal_strlit("0");
        reveal_strlit("1");
        reveal_strlit("2");
        reveal_strlit("3");
        reveal_strlit("4");
        reveal_strlit("5");
        reveal_strlit("6");
        reveal_strlit("7");
        reveal_strlit("8");
        reveal_strlit("9");
        reveal_strlit("a");
        reveal_strlit("b");
        reveal_strlit("c");
        reveal_strlit("d");
        reveal_strlit("e");
        reveal_strlit("f");
    }
    r
}

/// Write a string as the content of a JSON string literal: quote and
/// backslash escaped, control characters in the `\u00` form, everything else
/// unchanged.
pub fn escape_json(s: &str) -> (r: String)
    ensures
        r@ == json_escaped(s@),
{
    let n = s.unicode_len();
    let mut out = String::new();
    let mut i: usize = 0;
    while i < n
        invariant
            i <= n,
            n == s@.len(),
            out@ == json_escaped(s@.take(i as int)),
        decreases n - i,
    {
        let c = s.get_char(i);
        let v = c as u32;
        if c == '"' {
            out.append("\\\"");
            proof {
                reveal_strlit("\\\"");
                assert("\\\""@ =~= json_escaped_char(c));
            }
        } else if c == '\\' {
            out.append("\\\\");
            proof {
                reveal_strlit("\\\\");
                assert("\\\\"@ =~= json_escaped_char(c));
            }
        } else if v < 32 {
            out.append("\\u00");
            out.append(hex_digit_str(v / 16));
            out.append(hex_digit_str(v % 16));
            proof {
                reveal_strlit("\\u00");
                assert("\\u00"@ + seq![hex_digit(v as int / 16)] + seq![hex_digit(v as int % 16)]
                    =~= json_escaped_char(c));
            }
        } else {
            out.append(s.substring_char(i, i + 1));
            proof {
                assert(s@.subrange(i as int, i + 1) =~= json_escaped_char(c));
            }
        }
        proof {
            lemma_json_escaped_snoc(s@.take(i + 1));
            assert(s@.take(i + 1).drop_last() =~= s@.take(i as int));
            assert(s@.take(i + 1).last() == c);
            assert(out@ =~= json_escaped(s@.take(i + 1)));
        }
        i += 1;
    }
    proof {
        assert(s@.take(n as int) =~= s@);
    }
    out
}

/// Build the body of a status relay from the status value and the timestamp,
/// escaping both.
pub fn status_body(status: &str, timestamp: &str) -> (r: String)
    ensures
        r@ == status_body_view(status@, timestamp@),
{
    let mut b = "{\"status\":\"".to_owned();
    b.append(escape_json(status).as_str());
    b.append("\",\"timestamp\":\"");
    b.append(escape_json(timestamp).as_str());
    b.append("\"}");
    proof {
        assert(b@ =~= status_body_view(status@, timestamp@));
    }
    b
}

/// Relies on chrono's `From<SystemTime>` impl for `DateTime<Utc>`, which
/// reads the clock handed to it without panicking even before the Unix
/// epoch, and on `DateTime::to_rfc3339`, which writes that instant using
/// only digits and the `-:+.TZ` punctuation — never a quote, backslash or
/// control character. The value depends on the clock, so nothing more is
/// claimed of it.
#[verifier::external_body]
fn now_rfc3339() -> (r: String)
    ensures
        timestamp_chars(r@),
{
    chrono::DateTime::<chrono::Utc>::from(std::time::SystemTime::now()).to_rfc3339()
}

/// The request relaying a single observed message: the caller-supplied JSON
/// payload is posted unchanged to the message endpoint.
pub fn message_request(base: &str, payload: String) -> (r: RelayRequest)
    ensures
        r.url@ == base@ + endpoint_suffix(RelayEndpoint::Message),
        r.body == payload,
{
    RelayRequest { url: relay_url(base, RelayEndpoint::Message), body: payload }
}

/// The request relaying a batch of observed events: the caller-supplied JSON
/// payload is posted unchanged to the batch endpoint.
pub fn batch_request(base: &str, payload: String) -> (r: RelayRequest)
    ensures
        r.url@ == base@ + endpoint_suffix(RelayEndpoint::Batch),
        r.body == payload,
{
    RelayRequest { url: relay_url(base, RelayEndpoint::Batch), body: payload }
}

/// The request relaying a status change: the body carries the status value,
/// escaped, and a timestamp read from the clock at send time — not at
/// observation time — so relay latency stays visible. The timestamp is made
/// of timestamp characters alone, so it stands in the body unchanged and the
/// body is a well-formed JSON object.
pub fn status_request(base: &str, status: &str) -> (r: RelayRequest)
    ensures
        r.url@ == base@ + endpoint_suffix(RelayEndpoint::Status),
        exists|ts: Seq<char>|
            timestamp_chars(ts) && json_escaped(ts) == ts && r.body@ == status_body_view(
                status@,
                ts,
            ),
{
    let ts = now_rfc3339();
    let body = status_body(status, ts.as_str());
    proof {
        lemma_timestamp_chars_verbatim(ts@);
        assert(timestamp_chars(ts@) && json_escaped(ts@) == ts@ && body@ == status_body_view(
            status@,
            ts@,
        ));
    }
    RelayRequest { url: relay_url(base, RelayEndpoint::Status), body }
}

} // verus!
