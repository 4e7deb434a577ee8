//! The archiving, compression and hashing that the packing tool leaves to
//! `tar`, `flate2` and `sha2`.
use vstd::prelude::*;
use std::io::Write;
use sha2::Digest;

verus! {

/// A tar archive being written into memory by `tar::Builder` (Verus does
/// not take the builder's `Write` bound, so the builder is held here).
#[verifier::external_body]
pub struct TarArchive {
    builder: tar::Builder<Vec<u8>>,
}

/// The members a tar builder writing into memory has been given so far, in
/// order: path in the archive, contents and permission bits.
pub uninterp spec fn tar_members(b: TarArchive) -> Seq<(Seq<char>, Seq<u8>, u32)>;

/// What finishing the tar archive of these members gives: its bytes, each
/// member with a GNU header that holds its path, size and permission bits
/// and otherwise zeros; or the message of the error the crate reports.
pub uninterp spec fn tar_archive(members: Seq<(Seq<char>, Seq<u8>, u32)>) -> Result<
    Seq<u8>,
    Seq<char>,
>;

/// Whether a builder holding `members` refuses one more member with this
/// path, contents and permission bits, and with what message: `None` when
/// it takes it. What `append_data` checks depends on the path (the crate
/// refuses absolute paths, paths with `..`, paths with a nul byte, empty
/// paths and some over-long ones) and on writing into the builder's vector.
pub uninterp spec fn tar_refusal(
    members: Seq<(Seq<char>, Seq<u8>, u32)>,
    path: Seq<char>,
    data: Seq<u8>,
    mode: u32,
) -> Option<Seq<char>>;

/// `tar::Builder::new` over an empty vector: a builder with no member yet.
#[verifier::external_body]
pub(crate) fn tar_builder() -> (b: TarArchive)
    ensures
        tar_members(b) == Seq::<(Seq<char>, Seq<u8>, u32)>::empty(),
{
    TarArchive { builder: tar::Builder::new(Vec::new()) }
}

/// `tar::Builder::append_data` with a header from `tar::Header::new_gnu`
/// whose size is that of `data` and whose mode is `mode`: it succeeds
/// exactly when the builder does not refuse the member (`tar_refusal`), and
/// then the builder holds one member more; a refusal comes with the
/// crate's message. Which paths are refused, and the wording, are left to
/// the name.
#[verifier::external_body]
pub(crate) fn tar_append(b: &mut TarArchive, path: &str, data: &[u8], mode: u32) -> (r:
    Result<(), String>)
    ensures
        r is Ok <==> tar_refusal(tar_members(*old(b)), path@, data@, mode) is None,
        r matches Err(e) ==> tar_refusal(tar_members(*old(b)), path@, data@, mode) == Some(e@),
        r is Ok ==> tar_members(*final(b)) == tar_members(*old(b)).push((path@, data@, mode)),
{
    let mut header = tar::Header::new_gnu();
    header.set_size(data.len() as u64);
    header.set_mode(mode);
    header.set_cksum();
    b.builder.append_data(&mut header, path, data).map_err(|e| e.to_string())
}

/// `tar::Builder::into_inner`: finishes the archive (two zero blocks) and
/// hands back its bytes, or fails with the message, as `tar_archive` says.
#[verifier::external_body]
pub(crate) fn tar_finish(b: TarArchive) -> (r: Result<Vec<u8>, String>)
    ensures
        r matches Ok(bytes) ==> (tar_archive(tar_members(b)) matches Ok(t) && t == bytes@),
        r matches Err(e) ==> (tar_archive(tar_members(b)) matches Err(m) && m == e@),
{
    b.builder.into_inner().map_err(|e| e.to_string())
}

/// The gzip stream `flate2` writes for these bytes at its default level,
/// with its default header (no name, no time); or the message of the error
/// the encoder reports.
pub uninterp spec fn gzip_default(data: Seq<u8>) -> Result<Seq<u8>, Seq<char>>;

/// `flate2::write::GzEncoder` over a vector at `Compression::default()`:
/// the bytes written, then `finish`; it gives the stream, or fails with the
/// message, as `gzip_default` says.
#[verifier::external_body]
pub(crate) fn gzip(data: &[u8]) -> (r: Result<Vec<u8>, String>)
    ensures
        r matches Ok(z) ==> (gzip_default(data@) matches Ok(g) && g == z@),
        r matches Err(e) ==> (gzip_default(data@) matches Err(m) && m == e@),
{
    let mut gz = flate2::write::GzEncoder::new(Vec::new(), flate2::Compression::default());
    gz.write_all(data).map_err(|e| e.to_string())?;
    gz.finish().map_err(|e| e.to_string())
}

/// The SHA-256 digest of a sequence of bytes.
pub uninterp spec fn sha256_digest(data: Seq<u8>) -> Seq<u8>;

/// `sha2::Sha256::digest`: the 32 bytes of the SHA-256 digest of `data`.
#[verifier::external_body]
pub(crate) fn sha256(data: &[u8]) -> (r: Vec<u8>)
    ensures
        r@ == sha256_digest(data@),
        r@.len() == 32,
{
    sha2::Sha256::digest(data).to_vec()
}

} // verus!
