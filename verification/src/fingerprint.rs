//! The identifier of a finding: a digest of the place where it stands.

use vstd::prelude::*;
use vstd::utf8::encode_utf8;
use crate::bytes::{decimal, append_bytes, append_decimal};
use crate::finding::StrictResult;

verus! {

/// The byte that stands between the parts of a key, `_`.
pub const SEPARATOR: u8 = 95;

/// The key of a finding: file name, line number, column and line text, the
/// numbers in decimal, joined by `_`.
pub open spec fn key_of(filename: Seq<char>, lineno: nat, col: nat, line: Seq<char>) -> Seq<u8> {
    encode_utf8(filename) + seq![SEPARATOR] + decimal(lineno) + seq![SEPARATOR] + decimal(col)
        + seq![SEPARATOR] + encode_utf8(line)
}

/// A digit of a hexadecimal number in lower case.
pub open spec fn is_hex_digit(c: char) -> bool {
    ('0' <= c && c <= '9') || ('a' <= c && c <= 'f')
}

/// An identifier: thirty-two hexadecimal digits in lower case.
pub open spec fn is_identifier(id: Seq<char>) -> bool {
    &&& id.len() == 32
    &&& forall|i: int| 0 <= i < id.len() ==> is_hex_digit(#[trigger] id[i])
}

/// The MD5 digest of `key`, written as hexadecimal digits.
pub uninterp spec fn md5_hex(key: Seq<u8>) -> Seq<char>;

/// Runs `crypto::md5::Md5` over `key` (`Md5::new`, `Digest::input`,
/// `Digest::result_str`): the result is the digest of these bytes and of nothing
/// else, sixteen bytes written as thirty-two hexadecimal digits in lower case.
#[verifier::external_body]
fn hex_digest(key: &[u8]) -> (r: String)
    ensures
        r@ == md5_hex(key@),
        is_identifier(r@),
{
    let mut md5 = crypto::md5::Md5::new();
    crypto::digest::Digest::input(&mut md5, key);
    crypto::digest::Digest::result_str(&mut md5)
}

impl StrictResult {
    /// The key of this finding.
    pub open spec fn key(&self) -> Seq<u8> {
        key_of(self.filename@, self.lineno as nat, self.col as nat, self.line@)
    }

    /// The key of this finding, as bytes.
    pub fn key_bytes(&self) -> (r: Vec<u8>)
        ensures
            r@ == self.key(),
    {
        let mut key: Vec<u8> = Vec::new();
        append_bytes(&mut key, self.filename.as_str().as_bytes());
        key.push(SEPARATOR);
        append_decimal(&mut key, self.lineno as u64);
        key.push(SEPARATOR);
        append_decimal(&mut key, self.col as u64);
        key.push(SEPARATOR);
        append_bytes(&mut key, self.line.as_str().as_bytes());
        assert(key@ =~= self.key());
        key
    }

    /// The identifier of this finding: the digest of its key. It depends on
    /// the four parts of the finding and on nothing else.
    pub fn gen_md5hash(&self) -> (r: String)
        ensures
            r@ == md5_hex(self.key()),
            is_identifier(r@),
    {
        let key = self.key_bytes();
        hex_digest(key.as_slice())
    }
}

/// Two findings with the same file name, line number, column and line text
/// have the same identifier.
pub proof fn lemma_same_parts_same_identifier(a: StrictResult, b: StrictResult)
    requires
        a.filename@ == b.filename@,
        a.lineno == b.lineno,
        a.col == b.col,
        a.line@ == b.line@,
    ensures
        md5_hex(a.key()) == md5_hex(b.key()),
{
}

} // verus!
