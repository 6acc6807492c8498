//! What happens before a client sends its first query.
use crate::bytes::{big_endian, read_big_endian};
use vstd::prelude::*;
use vstd::slice::slice_subrange;
use vstd::utf8::encode_utf8;

verus! {

/// The code of a request for GSSAPI encryption.
pub const GSSENC_REQUEST: u64 = 80_877_104;

/// Whether the first bytes of a connection ask for GSSAPI encryption: eight bytes, of which
/// the last four are the code.
pub open spec fn asks_gssenc(peeked: Seq<u8>) -> bool {
    peeked.len() == 8 && big_endian(peeked.subrange(4, 8)) == GSSENC_REQUEST
}

/// Whether the first bytes of a connection ask for GSSAPI encryption. Such a request is taken
/// from the connection and refused.
pub fn detect_gssencmode(peeked: &[u8]) -> (r: bool)
    ensures
        r == asks_gssenc(peeked@),
{
    peeked.len() == 8 && read_big_endian(slice_subrange(peeked, 4, 8)) == GSSENC_REQUEST
}

/// `pgwire::api::auth::md5pass::hash_md5_password`: the answer that a client with this name and
/// password owes to this salt.
pub uninterp spec fn md5_answer(user: Seq<char>, password: Seq<char>, salt: Seq<u8>) -> Seq<char>;

/// `hash_md5_password` of pgwire, as [`md5_answer`] names it.
#[verifier::external_body]
fn hash_md5(user: &str, password: &str, salt: &[u8]) -> (r: String)
    ensures
        r@ == md5_answer(user@, password@, salt@),
{
    pgwire::api::auth::md5pass::hash_md5_password(user, password, salt)
}

/// A password check that every user passes with the password `pencil`.
#[derive(Debug)]
pub struct DummyAuthSource;

impl DummyAuthSource {
    /// The salt that `user` is sent, and the answer that is expected.
    pub fn get_password(&self, user: &str) -> (r: (Vec<u8>, Vec<u8>))
        ensures
            r.0@ == seq![0u8, 0, 0, 0],
            r.1@ == encode_utf8(md5_answer(user@, "pencil"@, seq![0u8, 0, 0, 0])),
    {
        let salt: Vec<u8> = vec![0, 0, 0, 0];
        assert(salt@ =~= seq![0u8, 0, 0, 0]);
        let hash = hash_md5(user, "pencil", salt.as_slice());
        let mut bytes: Vec<u8> = Vec::new();
        bytes.extend_from_slice(hash.as_str().as_bytes());
        assert(bytes@ =~= encode_utf8(hash@));
        (salt, bytes)
    }
}

/// A connection asks for GSSAPI encryption exactly if its first eight bytes end in 1234 and 5680,
/// as
/// two numbers of two bytes.
pub proof fn encryption_is_asked_for(peeked: Seq<u8>)
    ensures
        asks_gssenc(peeked) <==> peeked.len() == 8 && peeked[4] == 4 && peeked[5] == 210
            && peeked[6] == 22 && peeked[7] == 48,
{
    if peeked.len() == 8 {
        let s = peeked.subrange(4, 8);
        let s3 = s.drop_last();
        let s2 = s3.drop_last();
        let s1 = s2.drop_last();
        assert(s1.drop_last() =~= Seq::empty());
        assert(big_endian(s1.drop_last()) == 0);
        assert(big_endian(s1) == peeked[4]);
        assert(big_endian(s2) == big_endian(s1) * 256 + peeked[5]);
        assert(big_endian(s3) == big_endian(s2) * 256 + peeked[6]);
        assert(big_endian(s) == big_endian(s3) * 256 + peeked[7]);
    }
}

} // verus!
