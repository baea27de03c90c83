//! Validation of a downloaded file against the size and digest that its request names.

use crate::request::ChecksumView;
use crate::request::RequestChecksum;
use md5::Digest;
use vstd::prelude::*;
use vstd::string::StringExecFns;

verus! {

/// Why a file failed validation.
#[derive(Debug)]
pub enum ChecksumError {
    /// The expected digest is not hexadecimal of the algorithm's length; carries the
    /// algorithm's name and the text.
    InvalidInput(String),
    /// The file could not be opened.
    FileOpen(std::io::Error),
    /// The file is not as long as expected; both lengths in bytes.
    InvalidSize { found: u64, expected: u64 },
    /// The file could not be read to its end.
    FileRead(std::io::Error),
    /// The file's digest is not the expected one.
    Mismatch,
}

/// What a [`ChecksumError`] holds, as a mathematical value.
pub enum ChecksumErrorView {
    InvalidInput(Seq<char>),
    FileOpen,
    InvalidSize { found: u64, expected: u64 },
    FileRead,
    Mismatch,
}

impl View for ChecksumError {
    type V = ChecksumErrorView;

    open spec fn view(&self) -> ChecksumErrorView {
        match self {
            ChecksumError::InvalidInput(text) => ChecksumErrorView::InvalidInput(text@),
            ChecksumError::FileOpen(_) => ChecksumErrorView::FileOpen,
            ChecksumError::InvalidSize { found, expected } => ChecksumErrorView::InvalidSize {
                found: *found,
                expected: *expected,
            },
            ChecksumError::FileRead(_) => ChecksumErrorView::FileRead,
            ChecksumError::Mismatch => ChecksumErrorView::Mismatch,
        }
    }
}

/// The view of the result of a validation.
pub open spec fn verdict_view(r: Result<(), ChecksumError>) -> Result<(), ChecksumErrorView> {
    match r {
        Ok(()) => Ok(()),
        Err(error) => Err(error@),
    }
}

/// The MD5 digest of `data`: what a hasher of the `md-5` crate returns once it has
/// taken in `data`.
pub uninterp spec fn md5_digest(data: Seq<u8>) -> Seq<u8>;

/// The SHA-1 digest of `data`: what a hasher of the `sha1` crate returns once it has
/// taken in `data`.
pub uninterp spec fn sha1_digest(data: Seq<u8>) -> Seq<u8>;

/// The SHA-256 digest of `data`: what a SHA-256 hasher of the `sha2` crate returns
/// once it has taken in `data`.
pub uninterp spec fn sha256_digest(data: Seq<u8>) -> Seq<u8>;

/// The SHA-512 digest of `data`: what a SHA-512 hasher of the `sha2` crate returns
/// once it has taken in `data`.
pub uninterp spec fn sha512_digest(data: Seq<u8>) -> Seq<u8>;

/// The digest of `data` by the algorithm with the number `algorithm`: 0 for MD5, 1 for
/// SHA-1, 2 for SHA-256, and SHA-512 otherwise.
pub open spec fn digest_by(algorithm: int, data: Seq<u8>) -> Seq<u8> {
    if algorithm == 0 {
        md5_digest(data)
    } else if algorithm == 1 {
        sha1_digest(data)
    } else if algorithm == 2 {
        sha256_digest(data)
    } else {
        sha512_digest(data)
    }
}

/// A hasher of one of the four algorithms, part of the way through its input.
///
/// It holds a boxed hasher of the `md-5`, `sha1` or `sha2` crate. The verifier does
/// not look inside: all that is known of a state is what the functions below claim
/// of [`absorbed`] and [`algorithm_of`].
#[verifier::external_body]
pub struct DigestState {
    inner: Box<dyn md5::digest::DynDigest + Send>,
}

/// The bytes that a hasher has taken in so far, in order.
pub uninterp spec fn absorbed(state: DigestState) -> Seq<u8>;

/// The number of the algorithm that a hasher was made for, as [`digest_by`] counts.
pub uninterp spec fn algorithm_of(state: DigestState) -> int;

/// Calls `md5::Md5::new`, which makes a hasher that has taken in nothing.
#[verifier::external_body]
fn md5_state() -> (state: DigestState)
    ensures
        absorbed(state) == Seq::<u8>::empty(),
        algorithm_of(state) == 0,
{
    DigestState { inner: Box::new(md5::Md5::new()) }
}

/// Calls `sha1::Sha1::new`, which makes a hasher that has taken in nothing.
#[verifier::external_body]
fn sha1_state() -> (state: DigestState)
    ensures
        absorbed(state) == Seq::<u8>::empty(),
        algorithm_of(state) == 1,
{
    DigestState { inner: Box::new(sha1::Sha1::new()) }
}

/// Calls `sha2::Sha256::new`, which makes a hasher that has taken in nothing.
#[verifier::external_body]
fn sha256_state() -> (state: DigestState)
    ensures
        absorbed(state) == Seq::<u8>::empty(),
        algorithm_of(state) == 2,
{
    DigestState { inner: Box::new(sha2::Sha256::new()) }
}

/// Calls `sha2::Sha512::new`, which makes a hasher that has taken in nothing.
#[verifier::external_body]
fn sha512_state() -> (state: DigestState)
    ensures
        absorbed(state) == Seq::<u8>::empty(),
        algorithm_of(state) == 3,
{
    DigestState { inner: Box::new(sha2::Sha512::new()) }
}

/// Calls `DynDigest::update`, which takes `data` in after what the hasher has taken
/// in before. However the input is cut into pieces, the hasher ends in the state of
/// one that took it in at once.
#[verifier::external_body]
fn absorb(state: &mut DigestState, data: &[u8])
    ensures
        absorbed(*final(state)) == absorbed(*old(state)) + data@,
        algorithm_of(*final(state)) == algorithm_of(*old(state)),
{
    state.inner.update(data)
}

/// Calls `DynDigest::finalize`, which returns the digest of all that the hasher has
/// taken in, by the hasher's algorithm.
#[verifier::external_body]
fn conclude(state: DigestState) -> (digest: Vec<u8>)
    ensures
        digest@ == if algorithm_of(state) == 0 {
            md5_digest(absorbed(state))
        } else if algorithm_of(state) == 1 {
            sha1_digest(absorbed(state))
        } else if algorithm_of(state) == 2 {
            sha256_digest(absorbed(state))
        } else {
            sha512_digest(absorbed(state))
        },
{
    state.inner.finalize().into_vec()
}

/// The value of the hexadecimal digit `c`, in either case.
pub open spec fn hex_digit(c: char) -> Option<int> {
    if '0' <= c <= '9' {
        Some(c as u32 - '0' as u32)
    } else if 'a' <= c <= 'f' {
        Some(c as u32 - 'a' as u32 + 10)
    } else if 'A' <= c <= 'F' {
        Some(c as u32 - 'A' as u32 + 10)
    } else {
        None
    }
}

/// Whether `text` writes exactly `len` bytes in hexadecimal: two digits for each.
pub open spec fn is_hex_of(text: Seq<char>, len: int) -> bool {
    &&& text.len() == 2 * len
    &&& forall|i: int| 0 <= i < text.len() ==> hex_digit(#[trigger] text[i]) is Some
}

/// The bytes that `text` writes in hexadecimal, the high digit of each byte first.
pub open spec fn hex_bytes(text: Seq<char>) -> Seq<u8> {
    Seq::new(
        text.len() / 2,
        |i: int| (16 * hex_digit(text[2 * i])->0 + hex_digit(text[2 * i + 1])->0) as u8,
    )
}

/// Calls `hex::decode_to_slice` on a buffer of `len` bytes. That function takes the
/// text's UTF-8 bytes two by two, reads each as a hexadecimal digit of either case,
/// and fails on an odd length, on a length other than twice the buffer's, and on any
/// byte that is no digit; a character outside ASCII gives such a byte.
#[verifier::external_body]
fn decode_hex(text: &str, len: usize) -> (r: Option<Vec<u8>>)
    requires
        len <= 64,
    ensures
        r is Some <==> is_hex_of(text@, len as int),
        r matches Some(bytes) ==> bytes@ == hex_bytes(text@),
{
    let mut out = vec![0u8; len];
    match hex::decode_to_slice(text, &mut out) {
        Ok(()) => Some(out),
        Err(_) => None,
    }
}

/// The number of bytes in a digest of the algorithm that `checksum` names.
pub open spec fn digest_len(checksum: ChecksumView) -> int {
    match checksum {
        ChecksumView::Md5(_) => 16,
        ChecksumView::Sha1(_) => 20,
        ChecksumView::Sha256(_) => 32,
        ChecksumView::Sha512(_) => 64,
    }
}

/// The hexadecimal text that `checksum` carries.
pub open spec fn digest_text(checksum: ChecksumView) -> Seq<char> {
    match checksum {
        ChecksumView::Md5(sum) => sum,
        ChecksumView::Sha1(sum) => sum,
        ChecksumView::Sha256(sum) => sum,
        ChecksumView::Sha512(sum) => sum,
    }
}

/// The name of the algorithm of `checksum`, as error messages give it.
pub open spec fn algorithm_name(checksum: ChecksumView) -> Seq<char> {
    match checksum {
        ChecksumView::Md5(_) => "MD5"@,
        ChecksumView::Sha1(_) => "SHA1"@,
        ChecksumView::Sha256(_) => "SHA256"@,
        ChecksumView::Sha512(_) => "SHA512"@,
    }
}

/// The number of the algorithm that `checksum` names, as [`digest_by`] counts.
pub open spec fn algorithm(checksum: ChecksumView) -> int {
    match checksum {
        ChecksumView::Md5(_) => 0,
        ChecksumView::Sha1(_) => 1,
        ChecksumView::Sha256(_) => 2,
        ChecksumView::Sha512(_) => 3,
    }
}

/// The digest of `content` by the algorithm that `checksum` names.
pub open spec fn digest_of(checksum: ChecksumView, content: Seq<u8>) -> Seq<u8> {
    digest_by(algorithm(checksum), content)
}

/// The verdict on a file's length alone.
pub open spec fn size_verdict(found: u64, expected: u64) -> Result<(), ChecksumErrorView> {
    if found == expected {
        Ok(())
    } else {
        Err(ChecksumErrorView::InvalidSize { found, expected })
    }
}

/// The verdict on a file of the expected length whose digest is `actual`: the
/// expected digest must be well-formed hexadecimal, and must write `actual`.
pub open spec fn digest_verdict(checksum: ChecksumView, actual: Seq<u8>) -> Result<
    (),
    ChecksumErrorView,
> {
    if !is_hex_of(digest_text(checksum), digest_len(checksum)) {
        Err(
            ChecksumErrorView::InvalidInput(
                algorithm_name(checksum) + " "@ + digest_text(checksum),
            ),
        )
    } else if hex_bytes(digest_text(checksum)) != actual {
        Err(ChecksumErrorView::Mismatch)
    } else {
        Ok(())
    }
}

/// The verdict on a file that holds `content`: its length is checked first, then the
/// form of the expected digest, then the digest itself.
pub open spec fn verdict(content: Seq<u8>, expected_size: u64, checksum: ChecksumView) -> Result<
    (),
    ChecksumErrorView,
> {
    if content.len() != expected_size {
        Err(ChecksumErrorView::InvalidSize { found: content.len() as u64, expected: expected_size })
    } else {
        digest_verdict(checksum, digest_of(checksum, content))
    }
}

/// Checks a file's length, in bytes, against the expected one. Callers that know the
/// length before they have the content can fail here without reading the file.
pub fn check_size(found: u64, expected: u64) -> (r: Result<(), ChecksumError>)
    ensures
        verdict_view(r) == size_verdict(found, expected),
{
    if found == expected {
        Ok(())
    } else {
        Err(ChecksumError::InvalidSize { found, expected })
    }
}

/// Whether the two buffers hold the same bytes.
fn same_bytes(a: &[u8], b: &[u8]) -> (r: bool)
    ensures
        r == (a@ == b@),
{
    if a.len() != b.len() {
        return false;
    }
    let n = a.len();
    let mut i: usize = 0;
    while i < n
        invariant
            n == a@.len(),
            n == b@.len(),
            i <= n,
            forall|k: int| 0 <= k < i ==> a@[k] == b@[k],
        decreases n - i,
    {
        if a[i] != b[i] {
            return false;
        }
        i += 1;
    }
    proof {
        assert(a@ =~= b@);
    }
    true
}

/// Decodes the digest that `checksum` expects. Callers that read a file piece by
/// piece can reject a malformed digest here before they read anything.
pub fn expected_digest(checksum: &RequestChecksum) -> (r: Result<Vec<u8>, ChecksumError>)
    ensures
        r is Ok <==> is_hex_of(digest_text(checksum@), digest_len(checksum@)),
        r matches Ok(bytes) ==> bytes@ == hex_bytes(digest_text(checksum@)),
        r matches Err(error) ==> error@ == ChecksumErrorView::InvalidInput(
            algorithm_name(checksum@) + " "@ + digest_text(checksum@),
        ),
{
    let (name, sum, len): (&str, &String, usize) = match checksum {
        RequestChecksum::Md5(sum) => ("MD5", sum, 16),
        RequestChecksum::Sha1(sum) => ("SHA1", sum, 20),
        RequestChecksum::Sha256(sum) => ("SHA256", sum, 32),
        RequestChecksum::Sha512(sum) => ("SHA512", sum, 64),
    };
    match decode_hex(sum.as_str(), len) {
        Some(bytes) => Ok(bytes),
        None => {
            let mut message = String::from_str(name);
            message.append(" ");
            message.append(sum.as_str());
            Err(ChecksumError::InvalidInput(message))
        },
    }
}

/// Decides on a file of the expected length from the digest computed over it.
pub fn compare_digest(expected_hash: &RequestChecksum, actual: &[u8]) -> (r: Result<
    (),
    ChecksumError,
>)
    ensures
        verdict_view(r) == digest_verdict(expected_hash@, actual@),
{
    match expected_digest(expected_hash) {
        Err(error) => Err(error),
        Ok(expected) => {
            if same_bytes(expected.as_slice(), actual) {
                Ok(())
            } else {
                Err(ChecksumError::Mismatch)
            }
        },
    }
}

/// The validation of one file, part of the way through the file.
///
/// A verifier starts from the file's length and the expected size and digest, takes
/// the file's content piece by piece, and decides at the end.
pub struct ChecksumVerifier {
    /// The digest that the file must have.
    pub expected: Vec<u8>,
    /// The hasher that takes the file's content in.
    pub state: DigestState,
}

impl ChecksumVerifier {
    /// The bytes that the verifier has taken in so far.
    pub open spec fn fed(self) -> Seq<u8> {
        absorbed(self.state)
    }

    /// Whether the verifier is the one that [`ChecksumVerifier::begin`] makes for
    /// `checksum`, after any number of pieces.
    pub open spec fn is_for(self, checksum: ChecksumView) -> bool {
        &&& is_hex_of(digest_text(checksum), digest_len(checksum))
        &&& self.expected@ == hex_bytes(digest_text(checksum))
        &&& algorithm_of(self.state) == algorithm(checksum)
    }

    /// The verdict once the verifier has taken in all of the file.
    pub open spec fn outcome(self) -> Result<(), ChecksumErrorView> {
        if self.expected@ == digest_by(algorithm_of(self.state), self.fed()) {
            Ok(())
        } else {
            Err(ChecksumErrorView::Mismatch)
        }
    }

    /// Starts the validation of a file that is `found_size` bytes long. The length is
    /// checked first, then the form of the expected digest; a file that fails either
    /// check is rejected before any of its content is read.
    pub fn begin(found_size: u64, expected_size: u64, expected_hash: &RequestChecksum) -> (r:
        Result<ChecksumVerifier, ChecksumError>)
        ensures
            match r {
                Ok(verifier) => {
                    &&& found_size == expected_size
                    &&& verifier.is_for(expected_hash@)
                    &&& verifier.fed() == Seq::<u8>::empty()
                },
                Err(error) => if found_size != expected_size {
                    error@ == (ChecksumErrorView::InvalidSize {
                        found: found_size,
                        expected: expected_size,
                    })
                } else {
                    !is_hex_of(digest_text(expected_hash@), digest_len(expected_hash@)) && error@
                        == ChecksumErrorView::InvalidInput(
                        algorithm_name(expected_hash@) + " "@ + digest_text(expected_hash@),
                    )
                },
            },
    {
        match check_size(found_size, expected_size) {
            Err(error) => Err(error),
            Ok(()) => match expected_digest(expected_hash) {
                Err(error) => Err(error),
                Ok(expected) => {
                    let state = match expected_hash {
                        RequestChecksum::Md5(_) => md5_state(),
                        RequestChecksum::Sha1(_) => sha1_state(),
                        RequestChecksum::Sha256(_) => sha256_state(),
                        RequestChecksum::Sha512(_) => sha512_state(),
                    };
                    Ok(ChecksumVerifier { expected, state })
                },
            },
        }
    }

    /// Takes in the next piece of the file.
    pub fn update(&mut self, piece: &[u8])
        ensures
            final(self).fed() == old(self).fed() + piece@,
            final(self).expected == old(self).expected,
            algorithm_of(final(self).state) == algorithm_of(old(self).state),
    {
        absorb(&mut self.state, piece)
    }

    /// Decides on the file, all of which has been taken in.
    pub fn finish(self) -> (r: Result<(), ChecksumError>)
        ensures
            verdict_view(r) == self.outcome(),
    {
        let actual = conclude(self.state);
        if same_bytes(self.expected.as_slice(), actual.as_slice()) {
            Ok(())
        } else {
            Err(ChecksumError::Mismatch)
        }
    }
}

/// Validates the content of a downloaded file against the expected size and digest.
pub fn compare_hash(content: &[u8], expected_size: u64, expected_hash: &RequestChecksum) -> (r:
    Result<(), ChecksumError>)
    ensures
        verdict_view(r) == verdict(content@, expected_size, expected_hash@),
{
    let found = content.len() as u64;
    match ChecksumVerifier::begin(found, expected_size, expected_hash) {
        Err(error) => Err(error),
        Ok(verifier) => {
            let mut verifier = verifier;
            verifier.update(content);
            proof {
                assert(Seq::<u8>::empty() + content@ =~= content@);
            }
            verifier.finish()
        },
    }
}

/// The content of a file that was read in the pieces of `pieces`, in order.
pub open spec fn joined(pieces: Seq<Seq<u8>>) -> Seq<u8>
    decreases pieces.len(),
{
    if pieces.len() == 0 {
        Seq::empty()
    } else {
        joined(pieces.drop_last()) + pieces.last()
    }
}

/// A file that is read piece by piece gets the verdict of its whole content,
/// however it is cut into pieces: a verifier that was begun for `checksum` and has
/// taken in exactly the pieces of `pieces` decides as [`verdict`] does on the file
/// that they make up.
pub proof fn lemma_pieces_do_not_matter(
    verifier: ChecksumVerifier,
    pieces: Seq<Seq<u8>>,
    expected_size: u64,
    checksum: ChecksumView,
)
    requires
        verifier.is_for(checksum),
        verifier.fed() == joined(pieces),
        joined(pieces).len() == expected_size,
    ensures
        verifier.outcome() == verdict(joined(pieces), expected_size, checksum),
{
}

/// Validation is a function of the file's content and of what is expected: two
/// runs over the same unmodified file, whatever each one returns within its contract,
/// return the same verdict.
pub proof fn lemma_validation_is_idempotent(
    content: Seq<u8>,
    expected_size: u64,
    checksum: ChecksumView,
    first: Result<(), ChecksumError>,
    second: Result<(), ChecksumError>,
)
    requires
        verdict_view(first) == verdict(content, expected_size, checksum),
        verdict_view(second) == verdict(content, expected_size, checksum),
    ensures
        verdict_view(first) == verdict_view(second),
        first is Ok <==> second is Ok,
{
}

/// A file of the wrong length is rejected with both lengths, whatever its digest
/// and whatever the form of the expected digest.
pub proof fn lemma_size_is_checked_first(content: Seq<u8>, expected_size: u64, checksum: ChecksumView)
    requires
        content.len() <= u64::MAX,
        content.len() != expected_size,
    ensures
        verdict(content, expected_size, checksum) == Err::<(), ChecksumErrorView>(
            ChecksumErrorView::InvalidSize { found: content.len() as u64, expected: expected_size },
        ),
{
}

} // verus!
