//! Deciding when the API's TLS certificate and key have changed on disk and must be
//! reloaded: the files are hashed with SHA-256 and the digests compared with the last
//! ones loaded.

use crate::bytes::bytes_equal;
use vstd::prelude::*;

verus! {

/// The SHA-256 digest of some bytes, as `sha2::Sha256` computes it.
pub uninterp spec fn sha256_digest(data: Seq<u8>) -> Seq<u8>;

/// Calls `sha2::Sha256::digest`; its result is named [sha256_digest], and a SHA-256
/// digest is 32 bytes long.
#[verifier::external_body]
fn sha256(data: &[u8]) -> (r: Vec<u8>)
    ensures
        r@ == sha256_digest(data@),
        r@.len() == 32,
{
    <sha2::Sha256 as sha2::Digest>::digest(data).to_vec()
}

/// The digest of a file's contents, see [sha256_digest].
pub fn hash_file_contents(contents: &[u8]) -> (r: Vec<u8>)
    ensures
        r@ == sha256_digest(contents@),
        r@.len() == 32,
{
    sha256(contents)
}

/// The digests of the certificate and the key files.
pub struct TlsHashes {
    pub cert: Vec<u8>,
    pub key: Vec<u8>,
}

/// Whether the files have changed since the hashes in `current` were taken: either digest
/// differs.
pub fn needs_reload(current: &TlsHashes, latest: &TlsHashes) -> (r: bool)
    ensures
        r == (current.cert@ != latest.cert@ || current.key@ != latest.key@),
{
    !bytes_equal(current.cert.as_slice(), latest.cert.as_slice()) || !bytes_equal(
        current.key.as_slice(),
        latest.key.as_slice(),
    )
}

/// The hashes to compare against next time: the latest ones once the server was told to
/// reload, the current ones when telling it failed.
pub fn after_reload(current: TlsHashes, latest: TlsHashes, reload_sent: bool) -> (r: TlsHashes)
    ensures
        r.cert@ == (if reload_sent {
            latest.cert@
        } else {
            current.cert@
        }),
        r.key@ == (if reload_sent {
            latest.key@
        } else {
            current.key@
        }),
{
    if reload_sent {
        latest
    } else {
        current
    }
}

} // verus!
