//! Building the prefilled "new issue" URL from a report.
//!
//! The URL is the tracker's "new issue" form address with `title`
//! and `body` query parameters appended in that order. The two query
//! values are the percent-encoded UTF-8 bytes of the title and of
//! the rendered body, so decoding either value recovers the original
//! text exactly.

use vstd::prelude::*;
use vstd::utf8::*;
use crate::percent::{
    pct_encode,
    pct_decode,
    pct_append,
    query_value_safe,
    lemma_pct_encode_ascii,
    lemma_pct_decode_encode,
    lemma_pct_encode_query_safe,
};
use crate::report::{IssueReport, ReportView, body_text};

verus! {

/// The UTF-8 bytes of the complete URL for a report: the form
/// address and `title` key, the encoded title, the `body` key, the
/// encoded body.
pub open spec fn url_bytes(r: ReportView) -> Seq<u8> {
    encode_utf8("https://github.com/aws/amazon-q-developer-cli/issues/new?title="@) + title_query(
        r,
    ) + encode_utf8("&body="@) + body_query(r)
}

/// The value of the URL's `title` query parameter.
pub open spec fn title_query(r: ReportView) -> Seq<u8> {
    pct_encode(encode_utf8(r.title))
}

/// The value of the URL's `body` query parameter.
pub open spec fn body_query(r: ReportView) -> Seq<u8> {
    pct_encode(encode_utf8(body_text(r)))
}

/// Appends the UTF-8 bytes of `s` to `out`.
fn append_str_bytes(out: &mut Vec<u8>, s: &str)
    ensures
        final(out)@ == old(out)@ + encode_utf8(s@),
{
    let bs = s.as_bytes();
    let n = bs.len();
    let mut i: usize = 0;
    while i < n
        invariant
            n == bs@.len(),
            i <= n,
            bs@ == encode_utf8(s@),
            out@ == old(out)@ + bs@.take(i as int),
        decreases n - i,
    {
        out.push(bs[i]);
        proof {
            assert(bs@.take(i + 1 as int) =~= bs@.take(i as int).push(bs@[i as int]));
            assert(out@ =~= old(out)@ + bs@.take(i + 1 as int));
        }
        i = i + 1;
    }
    proof {
        assert(bs@.take(n as int) =~= bs@);
    }
}

/// A sequence of ASCII bytes is a valid UTF-8 encoding.
proof fn lemma_ascii_bytes_valid_utf8(s: Seq<u8>)
    requires
        forall|i: int| 0 <= i < s.len() ==> #[trigger] s[i] < 0x80,
    ensures
        valid_utf8(s),
{
    assert(s.subrange(0, 0) =~= Seq::<u8>::empty());
    assert(partial_valid_utf8(s, 0));
    partial_valid_utf8_extend_ascii_block(s, 0, s.len() as int);
    assert(s.subrange(0, s.len() as int) =~= s);
}

/// The URL bytes of any report are a valid UTF-8 encoding.
pub proof fn lemma_url_bytes_valid(r: ReportView)
    ensures
        valid_utf8(url_bytes(r)),
{
    let head = encode_utf8("https://github.com/aws/amazon-q-developer-cli/issues/new?title="@);
    let sep = encode_utf8("&body="@);
    encode_utf8_valid_utf8("https://github.com/aws/amazon-q-developer-cli/issues/new?title="@);
    encode_utf8_valid_utf8("&body="@);
    lemma_pct_encode_ascii(encode_utf8(r.title));
    lemma_ascii_bytes_valid_utf8(title_query(r));
    lemma_pct_encode_ascii(encode_utf8(body_text(r)));
    lemma_ascii_bytes_valid_utf8(body_query(r));
    valid_utf8_concat(head, title_query(r));
    valid_utf8_concat(head + title_query(r), sep);
    valid_utf8_concat(head + title_query(r) + sep, body_query(r));
}

/// Relies on `String::from_utf8`: on valid UTF-8 input it returns
/// `Ok` with the string whose UTF-8 encoding is those bytes.
#[verifier::external_body]
fn string_from_utf8(bytes: Vec<u8>) -> (r: String)
    requires
        valid_utf8(bytes@),
    ensures
        encode_utf8(r@) == bytes@,
{
    String::from_utf8(bytes).unwrap()
}

impl IssueReport {
    /// The complete prefilled-issue URL for this report. Pure and
    /// total: the URL is a function of the report alone.
    pub fn build(&self) -> (r: String)
        ensures
            encode_utf8(r@) == url_bytes(self@),
            r@ == decode_utf8(url_bytes(self@)),
    {
        let body = self.render_body();
        let mut bytes: Vec<u8> = Vec::new();
        append_str_bytes(
            &mut bytes,
            "https://github.com/aws/amazon-q-developer-cli/issues/new?title=",
        );
        pct_append(&mut bytes, self.title.as_str().as_bytes());
        append_str_bytes(&mut bytes, "&body=");
        pct_append(&mut bytes, body.as_str().as_bytes());
        proof {
            assert(bytes@ =~= url_bytes(self@));
            lemma_url_bytes_valid(self@);
        }
        let r = string_from_utf8(bytes);
        proof {
            encode_utf8_decode_utf8(r@);
        }
        r
    }
}

/// Determinism: the URL is a function of the report alone — any two
/// strings whose UTF-8 bytes are the URL bytes of the same report
/// are byte-identical, hence equal.
pub proof fn lemma_build_deterministic(r: ReportView, u1: Seq<char>, u2: Seq<char>)
    requires
        encode_utf8(u1) == url_bytes(r),
        encode_utf8(u2) == url_bytes(r),
    ensures
        u1 == u2,
{
    encode_utf8_decode_utf8(u1);
    encode_utf8_decode_utf8(u2);
}

/// Round trip: percent-decoding a query value of the URL yields the
/// UTF-8 bytes of the original text, and decoding those bytes
/// recovers the title and the assembled body, character for
/// character.
pub proof fn lemma_query_roundtrip(r: ReportView)
    ensures
        pct_decode(title_query(r)) == Some(encode_utf8(r.title)),
        decode_utf8(encode_utf8(r.title)) == r.title,
        pct_decode(body_query(r)) == Some(encode_utf8(body_text(r))),
        decode_utf8(encode_utf8(body_text(r))) == body_text(r),
{
    lemma_pct_decode_encode(encode_utf8(r.title));
    lemma_pct_decode_encode(encode_utf8(body_text(r)));
    encode_utf8_decode_utf8(r.title);
    encode_utf8_decode_utf8(body_text(r));
}

/// Escaping: neither query value of the URL holds a raw `&`, `=`,
/// `#` or `?`, and `%` occurs in them only as the start of a
/// two-digit escape.
pub proof fn lemma_query_values_safe(r: ReportView)
    ensures
        query_value_safe(title_query(r)),
        query_value_safe(body_query(r)),
{
    lemma_pct_encode_query_safe(encode_utf8(r.title));
    lemma_pct_encode_query_safe(encode_utf8(body_text(r)));
}

} // verus!
