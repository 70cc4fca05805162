//! Content digests of candidate files: SHA-1, written as lowercase hex.
use sha1::Digest;
use vstd::prelude::*;

verus! {

/// The SHA-1 digest of a byte sequence.
pub uninterp spec fn sha1_of(data: Seq<u8>) -> Seq<u8>;

/// The lowercase hex digit for `v < 16`.
pub open spec fn hex_digit(v: u8) -> char {
    if v < 10 {
        (v + 48) as char
    } else {
        (v - 10 + 97) as char
    }
}

/// Two lowercase hex digits per byte, high nibble first.
pub open spec fn hex_lower(b: Seq<u8>) -> Seq<char> {
    Seq::new(
        (2 * b.len()) as nat,
        |k: int| if k % 2 == 0 { hex_digit(b[k / 2] / 16) } else { hex_digit(b[k / 2] % 16) },
    )
}

/// Relies on `sha1::Sha1::digest`: the 160-bit digest of the input, which
/// depends on the bytes alone.
#[verifier::external_body]
fn sha1_digest(data: &[u8]) -> (r: Vec<u8>)
    ensures
        r@ == sha1_of(data@),
        r@.len() == 20,
{
    sha1::Sha1::digest(data).to_vec()
}

/// Relies on `hex::encode`: each byte becomes two digits from
/// `0123456789abcdef`, high nibble first.
#[verifier::external_body]
fn hex_encode(b: &[u8]) -> (r: String)
    ensures
        r@ == hex_lower(b@),
{
    hex::encode(b)
}

/// The digest text of a file's content: SHA-1 in lowercase hex (40
/// characters).
pub fn digest_hex(data: &[u8]) -> (r: String)
    ensures
        r@ == hex_lower(sha1_of(data@)),
        r@.len() == 40,
{
    let d = sha1_digest(data);
    hex_encode(d.as_slice())
}

/// A file found by a scan, with its digest and its content, kept for the
/// upload.
pub struct Candidate {
    pub path: String,
    pub digest: String,
    pub data: Vec<u8>,
}

impl Candidate {
    pub open spec fn wf(&self) -> bool {
        &&& self.digest@ == hex_lower(sha1_of(self.data@))
        &&& self.digest@.len() == 40
    }

    /// Indexes one file: computes the digest of its content.
    pub fn new(path: String, data: Vec<u8>) -> (r: Candidate)
        ensures
            r.wf(),
            r.path@ == path@,
            r.data@ == data@,
    {
        let digest = digest_hex(data.as_slice());
        Candidate { path, digest, data }
    }

    /// A copy of this candidate with the same path, digest and content.
    pub fn duplicate(&self) -> (r: Candidate)
        ensures
            r.path@ == self.path@,
            r.digest@ == self.digest@,
            r.data@ == self.data@,
    {
        let mut data: Vec<u8> = Vec::new();
        let mut i: usize = 0;
        while i < self.data.len()
            invariant
                i <= self.data@.len(),
                data@ == self.data@.subrange(0, i as int),
            decreases self.data@.len() - i,
        {
            data.push(self.data[i]);
            i = i + 1;
        }
        assert(data@ =~= self.data@);
        Candidate { path: self.path.clone(), digest: self.digest.clone(), data }
    }
}

} // verus!
