//! SHA-256 content hashes and their lowercase hexadecimal text.

use vstd::prelude::*;
use vstd::string::*;

verus! {

/// A SHA-256 computation in progress.
///
/// Trusted: the hasher of the `sha2` crate (`sha2::Sha256`) is an alias of a
/// deeply generic type that cannot be declared to Verus, so it is held
/// opaquely in this struct, which has no other field. `absorbed` names the
/// message that the hasher has taken in so far.
#[verifier::external_body]
pub struct RunningDigest {
    inner: sha2::Sha256,
}

/// The bytes that a running digest has been fed, in order.
pub uninterp spec fn absorbed(h: RunningDigest) -> Seq<u8>;

/// The SHA-256 digest of a message: 32 bytes.
pub uninterp spec fn sha256(data: Seq<u8>) -> Seq<u8>;

impl RunningDigest {
    /// Starts a digest over the empty message.
    ///
    /// Trusted: `sha2::Digest::new`, which creates a hasher in its initial
    /// state, one that has processed no data.
    #[verifier::external_body]
    pub(crate) fn start() -> (h: RunningDigest)
        ensures
            absorbed(h) == Seq::<u8>::empty(),
    {
        RunningDigest { inner: sha2::Digest::new() }
    }

    /// Feeds more of the message.
    ///
    /// Trusted: `sha2::Digest::update`, which processes the data as the
    /// continuation of what was processed before; feeding a message in pieces
    /// is the same as feeding it at once.
    #[verifier::external_body]
    pub(crate) fn absorb(&mut self, data: &[u8])
        ensures
            absorbed(*final(self)) == absorbed(*old(self)) + data@,
    {
        sha2::Digest::update(&mut self.inner, data)
    }

    /// Ends the computation and returns the digest of all that was fed.
    ///
    /// Trusted: `sha2::Digest::finalize` on `sha2::Sha256`, whose output size
    /// is the type-level number 32; the array is copied into a vector.
    #[verifier::external_body]
    pub(crate) fn finish(self) -> (out: Vec<u8>)
        ensures
            out@ == sha256(absorbed(self)),
            out@.len() == 32,
    {
        sha2::Digest::finalize(self.inner).to_vec()
    }
}

/// The lowercase hexadecimal digit of a value below sixteen.
pub open spec fn hex_digit(n: int) -> char {
    if n == 0 {
        '0'
    } else if n == 1 {
        '1'
    } else if n == 2 {
        '2'
    } else if n == 3 {
        '3'
    } else if n == 4 {
        '4'
    } else if n == 5 {
        '5'
    } else if n == 6 {
        '6'
    } else if n == 7 {
        '7'
    } else if n == 8 {
        '8'
    } else if n == 9 {
        '9'
    } else if n == 10 {
        'a'
    } else if n == 11 {
        'b'
    } else if n == 12 {
        'c'
    } else if n == 13 {
        'd'
    } else if n == 14 {
        'e'
    } else {
        'f'
    }
}

/// Whether a character is one of `0`..`9`, `a`..`f`.
pub open spec fn is_hex_char(c: char) -> bool {
    exists|n: int| 0 <= n < 16 && c == #[trigger] hex_digit(n)
}

/// The lowercase hexadecimal text of a byte string: two digits per byte, the
/// high half first.
pub open spec fn hex_of(bytes: Seq<u8>) -> Seq<char> {
    Seq::new(
        2 * bytes.len(),
        |i: int|
            if i % 2 == 0 {
                hex_digit(bytes[i / 2] as int / 16)
            } else {
                hex_digit(bytes[i / 2] as int % 16)
            },
    )
}

/// The digest of a message as the store uses it: its SHA-256 digest. The
/// hasher only ever returns 32 bytes; so that every digest has that length
/// in proofs too, 32 zero bytes stand for any other value that `sha256`
/// might name.
pub open spec fn digest_of(data: Seq<u8>) -> Seq<u8> {
    if sha256(data).len() == 32 {
        sha256(data)
    } else {
        Seq::new(32, |i: int| 0u8)
    }
}

/// The content hash of a byte string as text: 64 lowercase hexadecimal digits.
pub open spec fn content_hash(data: Seq<u8>) -> Seq<char> {
    hex_of(digest_of(data))
}

/// A content hash is 64 characters long, all of them hexadecimal digits.
pub proof fn lemma_content_hash_shape(data: Seq<u8>)
    ensures
        content_hash(data).len() == 64,
        vstd::utf8::is_ascii_chars(content_hash(data)),
        forall|i: int| 0 <= i < 64 ==> is_hex_char(#[trigger] content_hash(data)[i]),
{
    lemma_hex_of_is_plain(digest_of(data));
}

/// A hexadecimal text is ASCII, and none of its characters is outside
/// `0`..`9`, `a`..`f`.
pub proof fn lemma_hex_of_is_plain(bytes: Seq<u8>)
    ensures
        hex_of(bytes).len() == 2 * bytes.len(),
        vstd::utf8::is_ascii_chars(hex_of(bytes)),
        forall|i: int| 0 <= i < hex_of(bytes).len() ==> is_hex_char(#[trigger] hex_of(bytes)[i]),
{
    let h = hex_of(bytes);
    assert forall|i: int| 0 <= i < h.len() implies '\0' <= #[trigger] h[i] <= '\u{7f}'
        && is_hex_char(h[i]) by {
        let b = bytes[i / 2] as int;
        let n = if i % 2 == 0 {
            b / 16
        } else {
            b % 16
        };
        assert(0 <= n < 16);
        assert(h[i] == hex_digit(n));
    }
}

fn hex_text(n: u8) -> (text: &'static str)
    requires
        n < 16,
    ensures
        text@ == seq![hex_digit(n as int)],
{
    proof {
        reveal_strlit("0");
        reveal_strlit("1");
        reveal_strlit("2");
        reveal_strlit("3");
        reveal_strlit("4");
        reveal_strlit("5");
        reveal_strlit("6");
        reveal_strlit("7");
        reveal_strlit("8");
        reveal_strlit("9");
        reveal_strlit("a");
        reveal_strlit("b");
        reveal_strlit("c");
        reveal_strlit("d");
        reveal_strlit("e");
        reveal_strlit("f");
    }
    let text = if n == 0 {
        "0"
    } else if n == 1 {
        "1"
    } else if n == 2 {
        "2"
    } else if n == 3 {
        "3"
    } else if n == 4 {
        "4"
    } else if n == 5 {
        "5"
    } else if n == 6 {
        "6"
    } else if n == 7 {
        "7"
    } else if n == 8 {
        "8"
    } else if n == 9 {
        "9"
    } else if n == 10 {
        "a"
    } else if n == 11 {
        "b"
    } else if n == 12 {
        "c"
    } else if n == 13 {
        "d"
    } else if n == 14 {
        "e"
    } else {
        "f"
    };
    assert(text@ =~= seq![hex_digit(n as int)]);
    text
}

/// Writes a byte string as lowercase hexadecimal text.
pub fn to_hex(bytes: &[u8]) -> (s: String)
    ensures
        s@ == hex_of(bytes@),
{
    let mut s = String::new();
    let n: usize = bytes.len();
    let mut i: usize = 0;
    while i < n
        invariant
            n == bytes@.len(),
            i <= n,
            s@.len() == 2 * i,
            forall|j: int| 0 <= j < 2 * i ==> s@[j] == hex_of(bytes@)[j],
        decreases n - i,
    {
        let b: u8 = bytes[i];
        s.append(hex_text(b / 16));
        s.append(hex_text(b % 16));
        i = i + 1;
    }
    assert(s@ =~= hex_of(bytes@));
    s
}

/// Hashes a byte string in one piece and returns the hash as text.
pub fn hash_bytes(data: &[u8]) -> (hash: String)
    ensures
        hash@ == content_hash(data@),
{
    let mut h = RunningDigest::start();
    h.absorb(data);
    assert(Seq::<u8>::empty() + data@ =~= data@);
    let out = h.finish();
    to_hex(out.as_slice())
}

} // verus!
