//! What the upload step derives from a file: the server endpoints, the
//! device asset id and the text fields of the multipart request.
use vstd::prelude::*;

use crate::text::{chars_of, decimal, is_white_space, push_char, push_decimal, string_of, white_space};

verus! {

/// `s` without its trailing `/` characters.
pub open spec fn trim_slashes(s: Seq<char>) -> Seq<char>
    decreases s.len(),
{
    if s.len() > 0 && s.last() == '/' {
        trim_slashes(s.drop_last())
    } else {
        s
    }
}

/// `s` with every whitespace character removed.
pub open spec fn strip_white_space(s: Seq<char>) -> Seq<char>
    decreases s.len(),
{
    if s.len() == 0 {
        s
    } else {
        let rest = strip_white_space(s.drop_last());
        if white_space(s.last()) {
            rest
        } else {
            rest.push(s.last())
        }
    }
}

/// The server's base URL with trailing slashes removed.
pub fn base_url(server_url: &str) -> (r: String)
    ensures
        r@ == trim_slashes(server_url@),
{
    let c = chars_of(server_url);
    let mut end: usize = c.len();
    assert(c@.subrange(0, c@.len() as int) =~= c@);
    while end > 0 && c[end - 1] == '/'
        invariant
            end <= c@.len(),
            trim_slashes(c@) == trim_slashes(c@.subrange(0, end as int)),
        decreases end,
    {
        assert(c@.subrange(0, end as int).drop_last() =~= c@.subrange(0, end - 1));
        end = end - 1;
    }
    let kept = c.as_slice().split_at(end).0;
    let mut v: Vec<char> = Vec::new();
    let mut i: usize = 0;
    while i < end
        invariant
            i <= end,
            end <= c@.len(),
            kept@ == c@.subrange(0, end as int),
            v@ == kept@.subrange(0, i as int),
        decreases end - i,
    {
        v.push(kept[i]);
        i = i + 1;
    }
    assert(v@ =~= c@.subrange(0, end as int));
    string_of(&v)
}

/// The connectivity probe endpoint.
pub fn statistics_url(server_url: &str) -> (r: String)
    ensures
        r@ == trim_slashes(server_url@) + "/api/server/statistics"@,
{
    let mut r = base_url(server_url);
    r.append("/api/server/statistics");
    r
}

/// The bulk existence check endpoint.
pub fn bulk_check_url(server_url: &str) -> (r: String)
    ensures
        r@ == trim_slashes(server_url@) + "/api/assets/bulk-upload-check"@,
{
    let mut r = base_url(server_url);
    r.append("/api/assets/bulk-upload-check");
    r
}

/// The upload endpoint.
pub fn assets_url(server_url: &str) -> (r: String)
    ensures
        r@ == trim_slashes(server_url@) + "/api/assets"@,
{
    let mut r = base_url(server_url);
    r.append("/api/assets");
    r
}

/// The device asset id: `<file name>-<size in bytes>` with all whitespace
/// removed.
pub open spec fn device_asset_id_of(file_name: Seq<char>, size: nat) -> Seq<char> {
    strip_white_space(file_name + seq!['-'] + decimal(size))
}

/// Builds the device asset id of a file from its name and size.
pub fn device_asset_id(file_name: &str, size: u64) -> (r: String)
    ensures
        r@ == device_asset_id_of(file_name@, size as nat),
{
    let mut joined = String::from_str(file_name);
    push_char(&mut joined, '-');
    push_decimal(&mut joined, size);
    assert(joined@ =~= file_name@ + seq!['-'] + decimal(size as nat));
    let c = chars_of(joined.as_str());
    let mut v: Vec<char> = Vec::new();
    let mut i: usize = 0;
    while i < c.len()
        invariant
            i <= c@.len(),
            v@ == strip_white_space(c@.subrange(0, i as int)),
        decreases c@.len() - i,
    {
        let ch = c[i];
        assert(c@.subrange(0, i + 1).drop_last() =~= c@.subrange(0, i as int));
        if !is_white_space(ch) {
            v.push(ch);
        }
        i = i + 1;
    }
    assert(c@.subrange(0, c@.len() as int) =~= c@);
    string_of(&v)
}

/// The RFC 3339 text of the UTC instant `secs` seconds and `nanos`
/// nanoseconds after the Unix epoch.
pub uninterp spec fn rfc3339_text(secs: int, nanos: int) -> Seq<char>;

/// Relies on `chrono::DateTime::from_timestamp` (`None` only when the day
/// falls outside chrono's years -262143..=262142, or `nanos` is invalid;
/// within ±8·10¹² seconds of the epoch every `nanos` below 10⁹ is accepted)
/// and `DateTime::to_rfc3339`, whose text depends on the instant alone.
#[verifier::external_body]
fn rfc3339_utc(secs: i64, nanos: u32) -> (r: Option<String>)
    ensures
        r matches Some(t) ==> t@ == rfc3339_text(secs as int, nanos as int),
        nanos < 1_000_000_000 && -8_000_000_000_000 <= secs <= 8_000_000_000_000 ==> r is Some,
{
    chrono::DateTime::from_timestamp(secs, nanos).map(|d| d.to_rfc3339())
}

/// A time as whole seconds since the Unix epoch (negative before it) and the
/// nanoseconds within that second.
#[derive(Clone, Copy, Debug, PartialEq, Eq)]
pub struct Timestamp {
    pub secs: i64,
    pub nanos: u32,
}

/// The signed number of nanoseconds from the epoch that a timestamp denotes.
pub open spec fn epoch_nanos(t: Timestamp) -> int {
    t.secs * 1_000_000_000 + t.nanos
}

/// The timestamp of a time that lies `secs` seconds and `nanos`
/// nanoseconds before (or, when `before_epoch` is false, after) the epoch;
/// `None` when the seconds do not fit.
pub fn timestamp_of(before_epoch: bool, secs: u64, nanos: u32) -> (r: Option<Timestamp>)
    requires
        nanos < 1_000_000_000,
    ensures
        r matches Some(t) ==> t.nanos < 1_000_000_000 && epoch_nanos(t) == (if before_epoch {
            -(secs * 1_000_000_000 + nanos)
        } else {
            secs * 1_000_000_000 + nanos
        }),
        r is None <==> secs >= 0x7FFF_FFFF_FFFF_FFFF,
{
    if secs >= 0x7FFF_FFFF_FFFF_FFFF {
        return None;
    }
    let s = secs as i64;
    if !before_epoch {
        Some(Timestamp { secs: s, nanos })
    } else if nanos == 0 {
        Some(Timestamp { secs: -s, nanos: 0 })
    } else {
        let t = Timestamp { secs: -s - 1, nanos: 1_000_000_000 - nanos };
        assert(epoch_nanos(t) == -(secs * 1_000_000_000 + nanos)) by (nonlinear_arith)
            requires t.secs == -(secs as int) - 1, t.nanos == 1_000_000_000 - nanos;
        Some(t)
    }
}

/// The RFC 3339 text of a timestamp, when chrono can represent it; it
/// always can within ±8·10¹² seconds of the epoch.
pub fn timestamp_text(t: Timestamp) -> (r: Option<String>)
    ensures
        r matches Some(s) ==> s@ == rfc3339_text(t.secs as int, t.nanos as int),
        t.nanos < 1_000_000_000 && -8_000_000_000_000 <= t.secs <= 8_000_000_000_000 ==> r is Some,
{
    rfc3339_utc(t.secs, t.nanos)
}

/// The text fields of one upload request, and the name of its binary part.
pub struct UploadForm {
    pub device_asset_id: String,
    pub device_id: String,
    pub file_created_at: String,
    pub file_modified_at: String,
    pub is_favorite: String,
    pub file_name: String,
}

/// The fixed device identifier sent with every upload.
pub open spec fn device_id_text() -> Seq<char> {
    seq!['I', 'm', 'm', 'i', 'c', 'h', 'A', 'u', 't', 'o', 'U', 'p', 'l', 'o', 'a', 'd', 'e', 'r']
}

pub open spec fn unknown_name() -> Seq<char> {
    seq!['u', 'n', 'k', 'n', 'o', 'w', 'n']
}

/// The fields of an upload: the creation time falls back to the
/// modification time, a missing file name to `unknown`; the device id is
/// fixed and the file is never marked favourite.
pub fn upload_form(
    file_name: Option<String>,
    size: u64,
    created: Option<String>,
    modified: String,
) -> (r: UploadForm)
    ensures
        r.file_name@ == (match file_name {
            Some(n) => n@,
            None => unknown_name(),
        }),
        r.device_asset_id@ == device_asset_id_of(r.file_name@, size as nat),
        r.device_id@ == device_id_text(),
        r.file_created_at@ == (match created {
            Some(c) => c@,
            None => modified@,
        }),
        r.file_modified_at@ == modified@,
        r.is_favorite@ == seq!['f', 'a', 'l', 's', 'e'],
{
    let name = match file_name {
        Some(n) => n,
        None => {
            let v = vec!['u', 'n', 'k', 'n', 'o', 'w', 'n'];
            assert(v@ =~= unknown_name());
            string_of(&v)
        },
    };
    let id = device_asset_id(name.as_str(), size);
    let dv = vec!['I', 'm', 'm', 'i', 'c', 'h', 'A', 'u', 't', 'o', 'U', 'p', 'l', 'o', 'a', 'd', 'e', 'r'];
    assert(dv@ =~= device_id_text());
    let device_id = string_of(&dv);
    let fv = vec!['f', 'a', 'l', 's', 'e'];
    assert(fv@ =~= seq!['f', 'a', 'l', 's', 'e']);
    let is_favorite = string_of(&fv);
    let file_created_at = match created {
        Some(c) => c,
        None => modified.clone(),
    };
    UploadForm {
        device_asset_id: id,
        device_id,
        file_created_at,
        file_modified_at: modified,
        is_favorite,
        file_name: name,
    }
}

/// How many of the given per-file outcomes are successful uploads.
pub open spec fn count_true(s: Seq<bool>) -> nat
    decreases s.len(),
{
    if s.len() == 0 {
        0
    } else {
        count_true(s.drop_last()) + if s.last() { 1nat } else { 0nat }
    }
}

/// Counts the files of a pass that were uploaded.
pub fn count_uploaded(outcomes: &Vec<bool>) -> (r: usize)
    ensures
        r == count_true(outcomes@),
{
    let mut n: usize = 0;
    let mut i: usize = 0;
    while i < outcomes.len()
        invariant
            i <= outcomes@.len(),
            n == count_true(outcomes@.subrange(0, i as int)),
            n <= i,
        decreases outcomes@.len() - i,
    {
        assert(outcomes@.subrange(0, i + 1).drop_last() =~= outcomes@.subrange(0, i as int));
        if outcomes[i] {
            n = n + 1;
        }
        i = i + 1;
    }
    assert(outcomes@.subrange(0, i as int) =~= outcomes@);
    n
}

} // verus!
