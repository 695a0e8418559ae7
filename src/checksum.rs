//! Checksum of a node's data and the filesystem check that compares the
//! checksums of all nodes.
use sha2::Digest;
use vstd::prelude::*;
use crate::types::ErrorCode;

verus! {

/// The SHA-256 digest of `data`.
pub uninterp spec fn sha256_of(data: Seq<u8>) -> Seq<u8>;

/// Relies on `sha2::Sha256::digest`: the SHA-256 digest of `data`, which is
/// 32 bytes long.
#[verifier::external_body]
fn sha256(data: &[u8]) -> (r: Vec<u8>)
    ensures
        r@ == sha256_of(data@),
        r@.len() == 32,
{
    sha2::Sha256::digest(data).to_vec()
}

/// The contents of `files`, one after the other.
pub open spec fn concat_all(files: Seq<Vec<u8>>) -> Seq<u8>
    decreases files.len(),
{
    if files.len() == 0 {
        Seq::empty()
    } else {
        concat_all(files.drop_last()) + files.last()@
    }
}

/// The checksum of a node's data: the digest of the contents of its data
/// files, in the order given (the files sorted by name).
pub fn data_checksum(files: &Vec<Vec<u8>>) -> (r: Vec<u8>)
    ensures
        r@ == sha256_of(concat_all(files@)),
        r@.len() == 32,
{
    let mut all: Vec<u8> = Vec::new();
    let mut i: usize = 0;
    while i < files.len()
        invariant
            i <= files@.len(),
            all@ == concat_all(files@.subrange(0, i as int)),
        decreases files@.len() - i,
    {
        let f = &files[i];
        let ghost before = all@;
        let mut j: usize = 0;
        while j < f.len()
            invariant
                j <= f@.len(),
                all@ == before + f@.subrange(0, j as int),
            decreases f@.len() - j,
        {
            all.push(f[j]);
            j = j + 1;
            assert(all@ =~= before + f@.subrange(0, j as int));
        }
        proof {
            let s = files@.subrange(0, i + 1);
            assert(s.drop_last() =~= files@.subrange(0, i as int));
            assert(f@.subrange(0, f@.len() as int) =~= f@);
        }
        i = i + 1;
    }
    assert(files@.subrange(0, files@.len() as int) =~= files@);
    sha256(all.as_slice())
}

/// The verdict of a filesystem check: the local checksum must equal the
/// checksum of every peer, else the data is corrupted.
pub fn checksums_agree(local: &Vec<u8>, peers: &Vec<Vec<u8>>) -> (r: Result<(), ErrorCode>)
    ensures
        r is Ok <==> forall|i: int| 0 <= i < peers@.len() ==> (#[trigger] peers@[i])@ == local@,
        r is Err ==> r == Err::<(), ErrorCode>(ErrorCode::Corrupted),
{
    let mut i: usize = 0;
    while i < peers.len()
        invariant
            i <= peers@.len(),
            forall|k: int| 0 <= k < i ==> (#[trigger] peers@[k])@ == local@,
        decreases peers@.len() - i,
    {
        if !bytes_equal(&peers[i], local) {
            return Err(ErrorCode::Corrupted);
        }
        i = i + 1;
    }
    Ok(())
}

fn bytes_equal(a: &Vec<u8>, b: &Vec<u8>) -> (r: bool)
    ensures
        r == (a@ == b@),
{
    if a.len() != b.len() {
        return false;
    }
    let mut i: usize = 0;
    while i < a.len()
        invariant
            i <= a@.len() == b@.len(),
            forall|k: int| 0 <= k < i ==> a@[k] == b@[k],
        decreases a@.len() - i,
    {
        if a[i] != b[i] {
            return false;
        }
        i = i + 1;
    }
    assert(a@ =~= b@);
    true
}

} // verus!
