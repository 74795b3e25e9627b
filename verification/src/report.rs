//! The report record and the bytes in which it persists.
//!
//! A record is laid out as: a format tag of eight bytes; the repository
//! identifier and the report location, each as its byte length in four
//! bytes, little end first, followed by its UTF-8 bytes; the reporter's
//! identity; the time of creation in eight bytes, little end first; the
//! badge reference.

use vstd::prelude::*;
use vstd::bytes::{
    lemma_auto_spec_u32_to_from_le_bytes, lemma_auto_spec_u64_to_from_le_bytes,
    spec_u32_from_le_bytes, spec_u32_to_le_bytes, spec_u64_from_le_bytes, spec_u64_to_le_bytes,
    u32_from_le_bytes, u32_to_le_bytes, u64_from_le_bytes, u64_to_le_bytes,
};
use vstd::slice::{slice_subrange, slice_to_vec};
use vstd::utf8::{decode_utf8, encode_utf8, valid_utf8};
use crate::address::Address;
use crate::error::RegistryError;

verus! {

/// The room that a record reserves for its two strings, in bytes.
#[derive(Clone, Copy, Debug, PartialEq, Eq, Structural)]
pub struct Limits {
    pub max_repository_id_len: u32,
    pub max_report_url_len: u32,
}

/// The bytes of a record besides its two strings: the format tag, two
/// length prefixes, two identities and the time.
pub const FIXED_LEN: u64 = 88;

/// A vulnerability report: who reported what, where the report is to be
/// read, when it was stored, and the mint of its badge once one is issued.
#[derive(Clone, Debug)]
pub struct VulnerabilityReport {
    /// Names the repository that the report is about.
    pub repository_id: String,
    /// Where the report's content is found; not interpreted.
    pub report_url: String,
    /// Who stored the report, and alone may extend it.
    pub reporter: Address,
    /// When the report was stored; never changed.
    pub timestamp: i64,
    /// The mint of the badge; all zero until one is issued.
    pub badge_reference: Address,
}

/// A report as plain values.
pub struct ReportView {
    pub repository_id: Seq<char>,
    pub report_url: Seq<char>,
    pub reporter: Seq<u8>,
    pub timestamp: i64,
    pub badge_reference: Seq<u8>,
}

impl View for VulnerabilityReport {
    type V = ReportView;

    open spec fn view(&self) -> ReportView {
        ReportView {
            repository_id: self.repository_id@,
            report_url: self.report_url@,
            reporter: self.reporter@,
            timestamp: self.timestamp,
            badge_reference: self.badge_reference@,
        }
    }
}

impl ReportView {
    /// Whether the report can be laid out: its identities have thirty-two
    /// bytes and the byte length of each string fits its prefix.
    pub open spec fn well_formed(self) -> bool {
        &&& self.reporter.len() == 32
        &&& self.badge_reference.len() == 32
        &&& encode_utf8(self.repository_id).len() <= u32::MAX
        &&& encode_utf8(self.report_url).len() <= u32::MAX
    }

    /// Whether the two strings keep within `limits`.
    pub open spec fn within(self, limits: Limits) -> bool {
        &&& encode_utf8(self.repository_id).len() <= limits.max_repository_id_len
        &&& encode_utf8(self.report_url).len() <= limits.max_report_url_len
    }

    /// Whether a badge has been issued for the report.
    pub open spec fn badged(self) -> bool {
        self.badge_reference != Address::sentinel_view()
    }
}

/// The report that `reporter` stores at the time `now`: no badge yet.
pub open spec fn new_report(
    reporter: Seq<u8>,
    repository_id: Seq<char>,
    report_url: Seq<char>,
    now: i64,
) -> ReportView {
    ReportView {
        repository_id,
        report_url,
        reporter,
        timestamp: now,
        badge_reference: Address::sentinel_view(),
    }
}

impl Limits {
    /// Whether a repository identifier and a report location keep within
    /// the limits, by their bytes.
    pub fn allow(&self, repository_id: &str, report_url: &str) -> (allowed: bool)
        ensures
            allowed == (encode_utf8(repository_id@).len() <= self.max_repository_id_len
                && encode_utf8(report_url@).len() <= self.max_report_url_len),
    {
        repository_id.as_bytes().len() <= self.max_repository_id_len as usize
            && report_url.as_bytes().len() <= self.max_report_url_len as usize
    }
}

/// The format tag that opens every record.
pub open spec fn format_tag() -> Seq<u8> {
    seq![219u8, 119u8, 63u8, 125u8, 101u8, 147u8, 0u8, 122u8]
}

/// A string as it lies in a record: its byte length, then its bytes.
pub open spec fn text_field(text: Seq<char>) -> Seq<u8> {
    spec_u32_to_le_bytes(encode_utf8(text).len() as u32) + encode_utf8(text)
}

/// The bytes of a record.
pub open spec fn record_bytes(report: ReportView) -> Seq<u8> {
    format_tag() + text_field(report.repository_id) + text_field(report.report_url)
        + report.reporter + spec_u64_to_le_bytes(report.timestamp as u64)
        + report.badge_reference
}

/// The bytes that a record reserves under `limits`.
pub open spec fn record_space(limits: Limits) -> int {
    FIXED_LEN + limits.max_repository_id_len + limits.max_report_url_len
}

/// The string that lies at `at` in `data`, and where it ends.
pub open spec fn parse_text(data: Seq<u8>, at: int) -> Option<(Seq<char>, int)> {
    if at + 4 > data.len() {
        None
    } else {
        let len = spec_u32_from_le_bytes(data.subrange(at, at + 4)) as int;
        if at + 4 + len > data.len() {
            None
        } else if !valid_utf8(data.subrange(at + 4, at + 4 + len)) {
            None
        } else {
            Some((decode_utf8(data.subrange(at + 4, at + 4 + len)), at + 4 + len))
        }
    }
}

/// The report that `data` begins with. What follows the record in `data`
/// is not looked at.
pub open spec fn parse_record(data: Seq<u8>) -> Option<ReportView> {
    if data.len() < 8 || data.subrange(0, 8) != format_tag() {
        None
    } else {
        match parse_text(data, 8) {
            None => None,
            Some((repository_id, url_at)) => match parse_text(data, url_at) {
                None => None,
                Some((report_url, rest_at)) => if rest_at + 72 > data.len() {
                    None
                } else {
                    Some(
                        ReportView {
                            repository_id,
                            report_url,
                            reporter: data.subrange(rest_at, rest_at + 32),
                            timestamp: spec_u64_from_le_bytes(
                                data.subrange(rest_at + 32, rest_at + 40),
                            ) as i64,
                            badge_reference: data.subrange(rest_at + 40, rest_at + 72),
                        },
                    )
                },
            },
        }
    }
}

/// A report that may be missing, as plain values.
pub open spec fn report_view(report: Option<VulnerabilityReport>) -> Option<ReportView> {
    match report {
        Some(r) => Some(r@),
        None => None,
    }
}

/// The format tag.
pub fn format_tag_bytes() -> (tag: [u8; 8])
    ensures
        tag@ == format_tag(),
{
    let tag: [u8; 8] = [219, 119, 63, 125, 101, 147, 0, 122];
    assert(tag@ =~= format_tag());
    tag
}

/// Puts `bytes` at the end of `out`.
fn append(out: &mut Vec<u8>, bytes: &[u8])
    ensures
        final(out)@ == old(out)@ + bytes@,
{
    let mut i: usize = 0;
    while i < bytes.len()
        invariant
            i <= bytes@.len(),
            out@ == old(out)@ + bytes@.subrange(0, i as int),
        decreases bytes@.len() - i,
    {
        out.push(bytes[i]);
        assert(bytes@.subrange(0, i + 1) =~= bytes@.subrange(0, i as int).push(bytes@[i as int]));
        i += 1;
    }
    assert(bytes@.subrange(0, i as int) =~= bytes@);
}

/// Calls `String::from_utf8` of std. Trusted: there is a string exactly
/// when the bytes are valid UTF-8, and its UTF-8 bytes are the given ones.
#[verifier::external_body]
fn string_from_utf8(bytes: Vec<u8>) -> (text: Option<String>)
    ensures
        text is Some <==> valid_utf8(bytes@),
        text matches Some(s) ==> encode_utf8(s@) == bytes@,
{
    String::from_utf8(bytes).ok()
}

impl VulnerabilityReport {
    /// The report that `reporter` stores at the time `now`, with no badge;
    /// refused where a string is longer than `limits` allow.
    pub fn new(
        limits: &Limits,
        reporter: Address,
        repository_id: String,
        report_url: String,
        now: i64,
    ) -> (result: Result<VulnerabilityReport, RegistryError>)
        ensures
            result is Ok <==> new_report(reporter@, repository_id@, report_url@, now).within(
                *limits,
            ),
            result matches Ok(report) ==> report@ == new_report(
                reporter@,
                repository_id@,
                report_url@,
                now,
            ),
            result matches Err(error) ==> error == RegistryError::CapacityExceeded,
    {
        if !limits.allow(repository_id.as_str(), report_url.as_str()) {
            return Err(RegistryError::CapacityExceeded);
        }
        Ok(
            VulnerabilityReport {
                repository_id,
                report_url,
                reporter,
                timestamp: now,
                badge_reference: Address::sentinel(),
            },
        )
    }

    /// Whether a badge has been issued for the report.
    pub fn has_badge(&self) -> (badged: bool)
        ensures
            badged == self@.badged(),
    {
        !self.badge_reference.is_sentinel()
    }

    /// The bytes of the record; none where a string is too long for its
    /// length prefix.
    pub fn encode(&self) -> (bytes: Option<Vec<u8>>)
        ensures
            bytes is Some <==> self@.well_formed(),
            bytes matches Some(b) ==> b@ == record_bytes(self@),
    {
        let id = self.repository_id.as_str().as_bytes();
        let url = self.report_url.as_str().as_bytes();
        if id.len() > 0xffff_ffff || url.len() > 0xffff_ffff {
            return None;
        }
        let tag = format_tag_bytes();
        let mut out: Vec<u8> = Vec::new();
        append(&mut out, tag.as_slice());
        let id_len = u32_to_le_bytes(id.len() as u32);
        append(&mut out, id_len.as_slice());
        append(&mut out, id);
        let url_len = u32_to_le_bytes(url.len() as u32);
        append(&mut out, url_len.as_slice());
        append(&mut out, url);
        append(&mut out, self.reporter.bytes.as_slice());
        let time = u64_to_le_bytes(#[verifier::truncate] (self.timestamp as u64));
        append(&mut out, time.as_slice());
        append(&mut out, self.badge_reference.bytes.as_slice());
        assert(out@ =~= record_bytes(self@));
        Some(out)
    }

    /// The report that `data` begins with, if it begins with one.
    pub fn decode(data: &[u8]) -> (report: Option<VulnerabilityReport>)
        ensures
            report_view(report) == parse_record(data@),
    {
        if data.len() < 8 {
            return None;
        }
        let tag = format_tag_bytes();
        let head = slice_subrange(data, 0, 8);
        let mut i: usize = 0;
        while i < 8
            invariant
                i <= 8,
                head@.len() == 8,
                tag@.len() == 8,
                head@ == data@.subrange(0, 8),
                tag@ == format_tag(),
                forall|j: int| 0 <= j < i ==> head@[j] == tag@[j],
            decreases 8 - i,
        {
            if head[i] != tag[i] {
                assert(data@.subrange(0, 8)[i as int] != format_tag()[i as int]);
                return None;
            }
            i += 1;
        }
        assert(head@ =~= tag@);
        let (repository_id, url_at) = match read_text(data, 8) {
            Some(found) => found,
            None => { return None; },
        };
        let (report_url, rest_at) = match read_text(data, url_at) {
            Some(found) => found,
            None => { return None; },
        };
        if data.len() - rest_at < 72 {
            return None;
        }
        let reporter = match Address::from_slice(slice_subrange(data, rest_at, rest_at + 32)) {
            Some(a) => a,
            None => { return None; },
        };
        let time = u64_from_le_bytes(slice_subrange(data, rest_at + 32, rest_at + 40));
        let badge_reference = match Address::from_slice(
            slice_subrange(data, rest_at + 40, rest_at + 72),
        ) {
            Some(a) => a,
            None => { return None; },
        };
        Some(
            VulnerabilityReport {
                repository_id,
                report_url,
                reporter,
                timestamp: #[verifier::truncate] (time as i64),
                badge_reference,
            },
        )
    }
}

/// Reads the string that lies at `at` in `data`.
fn read_text(data: &[u8], at: usize) -> (found: Option<(String, usize)>)
    requires
        at <= data@.len(),
    ensures
        match found {
            Some((text, end)) => parse_text(data@, at as int) == Some((text@, end as int)),
            None => parse_text(data@, at as int) is None,
        },
        found matches Some((_, end)) ==> end <= data@.len(),
{
    if data.len() - at < 4 {
        return None;
    }
    let len = u32_from_le_bytes(slice_subrange(data, at, at + 4));
    if data.len() - at - 4 < len as usize {
        return None;
    }
    let end = at + 4 + len as usize;
    let body = slice_to_vec(slice_subrange(data, at + 4, end));
    match string_from_utf8(body) {
        Some(text) => {
            proof {
                vstd::utf8::encode_utf8_decode_utf8(text@);
            }
            Some((text, end))
        },
        None => None,
    }
}

/// A record has its fixed part and the bytes of its two strings.
pub proof fn lemma_record_len(report: ReportView)
    requires
        report.well_formed(),
    ensures
        record_bytes(report).len() == FIXED_LEN + encode_utf8(report.repository_id).len()
            + encode_utf8(report.report_url).len(),
{
    lemma_auto_spec_u32_to_from_le_bytes();
    lemma_auto_spec_u64_to_from_le_bytes();
}

/// A time survives its passage through eight bytes.
proof fn lemma_time_round_trip(time: i64)
    ensures
        spec_u64_from_le_bytes(spec_u64_to_le_bytes(time as u64)) as i64 == time,
{
    lemma_auto_spec_u64_to_from_le_bytes();
    assert(((time as u64) as i64) == time) by (bit_vector);
}

/// A string is read back from where it was laid out.
proof fn lemma_parse_text_field(text: Seq<char>, before: Seq<u8>, after: Seq<u8>)
    requires
        encode_utf8(text).len() <= u32::MAX,
    ensures
        parse_text(before + text_field(text) + after, before.len() as int) == Some(
            (text, (before.len() + text_field(text).len()) as int),
        ),
        text_field(text).len() == 4 + encode_utf8(text).len(),
{
    lemma_auto_spec_u32_to_from_le_bytes();
    vstd::utf8::encode_utf8_valid_utf8(text);
    vstd::utf8::encode_utf8_decode_utf8(text);
    let body = encode_utf8(text);
    let prefix = spec_u32_to_le_bytes(body.len() as u32);
    let data = before + text_field(text) + after;
    let at = before.len() as int;
    assert(data.subrange(at, at + 4) =~= prefix);
    assert(data.subrange(at + 4, at + 4 + body.len()) =~= body);
}

/// Reading a record gives the report that was laid out, whatever follows
/// the record.
pub proof fn lemma_parse_record_bytes(report: ReportView, after: Seq<u8>)
    requires
        report.well_formed(),
    ensures
        parse_record(record_bytes(report) + after) == Some(report),
{
    lemma_auto_spec_u64_to_from_le_bytes();
    lemma_time_round_trip(report.timestamp);
    let id = text_field(report.repository_id);
    let url = text_field(report.report_url);
    let time = spec_u64_to_le_bytes(report.timestamp as u64);
    let tail = report.reporter + time + report.badge_reference + after;
    let data = record_bytes(report) + after;
    assert(data =~= format_tag() + id + (url + tail));
    lemma_parse_text_field(report.repository_id, format_tag(), url + tail);
    assert(data =~= (format_tag() + id) + url + tail);
    lemma_parse_text_field(report.report_url, format_tag() + id, tail);
    let rest_at: int = 8 + (id.len() + url.len()) as int;
    assert(data.subrange(0, 8) =~= format_tag());
    assert(data.subrange(rest_at, rest_at + 32) =~= report.reporter);
    assert(data.subrange(rest_at + 32, rest_at + 40) =~= time);
    assert(data.subrange(rest_at + 40, rest_at + 72) =~= report.badge_reference);
}

/// What is read from `data` is a report that can be laid out, and `data`
/// begins with its record.
pub proof fn lemma_record_of_parse(data: Seq<u8>)
    requires
        parse_record(data) is Some,
    ensures
        parse_record(data).unwrap().well_formed(),
        record_bytes(parse_record(data).unwrap()).len() <= data.len(),
        data.subrange(0, record_bytes(parse_record(data).unwrap()).len() as int) == record_bytes(
            parse_record(data).unwrap(),
        ),
{
    lemma_auto_spec_u32_to_from_le_bytes();
    lemma_auto_spec_u64_to_from_le_bytes();
    let report = parse_record(data).unwrap();
    let (id_text, url_at) = parse_text(data, 8).unwrap();
    let (url_text, rest_at) = parse_text(data, url_at).unwrap();
    let id_len = spec_u32_from_le_bytes(data.subrange(8, 12));
    let id_body = data.subrange(12, 12 + id_len);
    let url_len = spec_u32_from_le_bytes(data.subrange(url_at, url_at + 4));
    let url_body = data.subrange(url_at + 4, url_at + 4 + url_len);
    vstd::utf8::decode_utf8_encode_utf8(id_body);
    vstd::utf8::decode_utf8_encode_utf8(url_body);
    assert(encode_utf8(id_text) == id_body);
    assert(encode_utf8(url_text) == url_body);
    assert(text_field(id_text) =~= data.subrange(8, url_at));
    assert(text_field(url_text) =~= data.subrange(url_at, rest_at));
    let time = spec_u64_from_le_bytes(data.subrange(rest_at + 32, rest_at + 40));
    assert(((time as i64) as u64) == time) by (bit_vector);
    assert(spec_u64_to_le_bytes(report.timestamp as u64) == data.subrange(
        rest_at + 32,
        rest_at + 40,
    ));
    assert(record_bytes(report) =~= data.subrange(0, rest_at + 72));
}

} // verus!
