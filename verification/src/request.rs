//! Download requests, as `apt-get --print-uris` prints them.

use crate::text;
use vstd::prelude::*;
use vstd::slice::slice_subrange;
use vstd::std_specs::cmp::PartialEqSpecImpl;
use vstd::string::StringExecFns;
use vstd::string::StrSliceExecFns;

verus! {

/// `std::io::Error`, carried through as an opaque value.
#[verifier::external_type_specification]
#[verifier::external_body]
pub struct ExIoError(std::io::Error);

/// Why a line of `apt-get --print-uris` could not be read as a request.
#[derive(Debug)]
pub enum RequestError {
    /// The `apt-get` command itself failed.
    Command(std::io::Error),
    /// The line holds no word at all; carries the line.
    UriNotFound(String),
    /// The first word is not a URI between single quotes; carries the word.
    UriInvalid(String),
    /// The line ends after the URI; carries the line.
    NameNotFound(String),
    /// The line ends after the name; carries the line.
    SizeNotFound(String),
    /// The third word is not an unsigned 64-bit number; carries the word.
    SizeParse(String),
    /// The line ends after the size; carries the line.
    ChecksumNotFound(String),
    /// The fourth word starts with no known checksum label; carries the word.
    UnknownChecksum(String),
}

/// The digest that a downloaded file must have, written in hexadecimal.
#[derive(Debug, Clone, Eq, PartialEq)]
pub enum RequestChecksum {
    Md5(String),
    Sha1(String),
    Sha256(String),
    Sha512(String),
}

/// A file to download: where it is, what to call it, and what it must hold.
#[derive(Debug, Clone, Eq)]
pub struct Request {
    pub uri: String,
    pub name: String,
    pub size: u64,
    pub checksum: RequestChecksum,
}

impl PartialEq for Request {
    /// Two requests are the same request when their URIs match.
    fn eq(&self, other: &Self) -> (r: bool) {
        self.uri == other.uri
    }
}

impl PartialEqSpecImpl for Request {
    open spec fn obeys_eq_spec() -> bool {
        true
    }

    open spec fn eq_spec(&self, other: &Self) -> bool {
        self.uri@ == other.uri@
    }
}

impl std::hash::Hash for Request {
    /// Hashes the URI alone, in keeping with `eq`.
    #[verifier::external_body]
    fn hash<H: std::hash::Hasher>(&self, state: &mut H) {
        self.uri.hash(state);
    }
}

/// What a [`RequestChecksum`] holds, as a mathematical value.
pub enum ChecksumView {
    Md5(Seq<char>),
    Sha1(Seq<char>),
    Sha256(Seq<char>),
    Sha512(Seq<char>),
}

impl View for RequestChecksum {
    type V = ChecksumView;

    open spec fn view(&self) -> ChecksumView {
        match self {
            RequestChecksum::Md5(sum) => ChecksumView::Md5(sum@),
            RequestChecksum::Sha1(sum) => ChecksumView::Sha1(sum@),
            RequestChecksum::Sha256(sum) => ChecksumView::Sha256(sum@),
            RequestChecksum::Sha512(sum) => ChecksumView::Sha512(sum@),
        }
    }
}

/// What a [`Request`] holds, as a mathematical value.
pub struct RequestView {
    pub uri: Seq<char>,
    pub name: Seq<char>,
    pub size: u64,
    pub checksum: ChecksumView,
}

impl View for Request {
    type V = RequestView;

    open spec fn view(&self) -> RequestView {
        RequestView {
            uri: self.uri@,
            name: self.name@,
            size: self.size,
            checksum: self.checksum@,
        }
    }
}

/// What a [`RequestError`] holds, as a mathematical value.
pub enum RequestErrorView {
    Command,
    UriNotFound(Seq<char>),
    UriInvalid(Seq<char>),
    NameNotFound(Seq<char>),
    SizeNotFound(Seq<char>),
    SizeParse(Seq<char>),
    ChecksumNotFound(Seq<char>),
    UnknownChecksum(Seq<char>),
}

impl View for RequestError {
    type V = RequestErrorView;

    open spec fn view(&self) -> RequestErrorView {
        match self {
            RequestError::Command(_) => RequestErrorView::Command,
            RequestError::UriNotFound(line) => RequestErrorView::UriNotFound(line@),
            RequestError::UriInvalid(word) => RequestErrorView::UriInvalid(word@),
            RequestError::NameNotFound(line) => RequestErrorView::NameNotFound(line@),
            RequestError::SizeNotFound(line) => RequestErrorView::SizeNotFound(line@),
            RequestError::SizeParse(word) => RequestErrorView::SizeParse(word@),
            RequestError::ChecksumNotFound(line) => RequestErrorView::ChecksumNotFound(line@),
            RequestError::UnknownChecksum(word) => RequestErrorView::UnknownChecksum(word@),
        }
    }
}

/// The view of the result of parsing.
pub open spec fn result_view(r: Result<Request, RequestError>) -> Result<
    RequestView,
    RequestErrorView,
> {
    match r {
        Ok(request) => Ok(request@),
        Err(error) => Err(error@),
    }
}

/// Whether `word` is a URI between single quotes: it starts and ends with a
/// single quote and is more than three bytes long in UTF-8, which leaves at least
/// two characters between the quotes, or one that is not ASCII.
pub open spec fn is_quoted_uri(word: Seq<char>) -> bool {
    &&& word.len() >= 3
    &&& word.first() == '\''
    &&& word.last() == '\''
    &&& (word.len() > 3 || word[1] as u32 >= 0x80)
}

/// The checksum that `word` names: one of the labels `MD5Sum`, `SHA1`, `SHA256`
/// and `SHA512`, a colon, and the digest.
pub open spec fn checksum_of(word: Seq<char>) -> Option<ChecksumView> {
    if let Some(sum) = text::strip_prefix(word, "MD5Sum:"@) {
        Some(ChecksumView::Md5(sum))
    } else if let Some(sum) = text::strip_prefix(word, "SHA1:"@) {
        Some(ChecksumView::Sha1(sum))
    } else if let Some(sum) = text::strip_prefix(word, "SHA256:"@) {
        Some(ChecksumView::Sha256(sum))
    } else if let Some(sum) = text::strip_prefix(word, "SHA512:"@) {
        Some(ChecksumView::Sha512(sum))
    } else {
        None
    }
}

/// The word number `n` of `line`; the empty text where the line has no such word.
pub open spec fn word_text(line: Seq<char>, n: nat) -> Seq<char> {
    match text::nth_word(line, n, false) {
        Some((start, end)) => line.subrange(start, end),
        None => Seq::empty(),
    }
}

/// What a line of `apt-get --print-uris` means. Its words, parted by whitespace, are
/// the quoted URI, the file name, the size in bytes, and the labelled checksum; words
/// after the fourth are ignored. The first field that is missing or malformed decides
/// the error.
pub open spec fn parse_line(line: Seq<char>) -> Result<RequestView, RequestErrorView> {
    if text::nth_word(line, 0, false) is None {
        Err(RequestErrorView::UriNotFound(line))
    } else if !is_quoted_uri(word_text(line, 0)) {
        Err(RequestErrorView::UriInvalid(word_text(line, 0)))
    } else if text::nth_word(line, 1, false) is None {
        Err(RequestErrorView::NameNotFound(line))
    } else if text::nth_word(line, 2, false) is None {
        Err(RequestErrorView::SizeNotFound(line))
    } else if text::parse_unsigned(word_text(line, 2), u64::MAX as int) is None {
        Err(RequestErrorView::SizeParse(word_text(line, 2)))
    } else if text::nth_word(line, 3, false) is None {
        Err(RequestErrorView::ChecksumNotFound(line))
    } else if checksum_of(word_text(line, 3)) is None {
        Err(RequestErrorView::UnknownChecksum(word_text(line, 3)))
    } else {
        Ok(
            RequestView {
                uri: word_text(line, 0).subrange(1, word_text(line, 0).len() - 1),
                name: word_text(line, 1),
                size: text::parse_unsigned(word_text(line, 2), u64::MAX as int)->0 as u64,
                checksum: checksum_of(word_text(line, 3))->0,
            },
        )
    }
}

/// Reads the labelled checksum in `word`, whose characters are `chars`.
fn parse_checksum(word: &str, chars: &[char]) -> (r: Option<RequestChecksum>)
    requires
        chars@ == word@,
    ensures
        match r {
            Some(checksum) => checksum_of(word@) == Some(checksum@),
            None => checksum_of(word@) is None,
        },
{
    let len = chars.len();
    if let Some(n) = text::prefix_len(chars, "MD5Sum:") {
        Some(RequestChecksum::Md5(word.substring_char(n, len).to_owned()))
    } else if let Some(n) = text::prefix_len(chars, "SHA1:") {
        Some(RequestChecksum::Sha1(word.substring_char(n, len).to_owned()))
    } else if let Some(n) = text::prefix_len(chars, "SHA256:") {
        Some(RequestChecksum::Sha256(word.substring_char(n, len).to_owned()))
    } else if let Some(n) = text::prefix_len(chars, "SHA512:") {
        Some(RequestChecksum::Sha512(word.substring_char(n, len).to_owned()))
    } else {
        None
    }
}

impl Request {
    /// Reads one line of `apt-get --print-uris`.
    pub fn parse(line: &str) -> (r: Result<Request, RequestError>)
        ensures
            result_view(r) == parse_line(line@),
    {
        let owned = text::to_chars(line);
        let chars = owned.as_slice();
        proof {
            reveal_with_fuel(text::nth_word, 4);
        }
        let (a0, b0) = match text::next_word(chars, 0, false) {
            Some(bounds) => bounds,
            None => {
                return Err(RequestError::UriNotFound(line.to_owned()));
            },
        };
        let quoted = line.substring_char(a0, b0);
        let quoted_chars = slice_subrange(chars, a0, b0);
        proof {
            assert(text::nth_word(line@, 0, false) == Some((a0 as int, b0 as int)));
            assert(word_text(line@, 0) == quoted@);
            assert(quoted_chars@ == quoted@);
        }
        let width = b0 - a0;
        if !(width >= 3 && quoted_chars[0] == '\'' && quoted_chars[width - 1] == '\'' && (width > 3
            || quoted_chars[1] as u32 >= 0x80)) {
            return Err(RequestError::UriInvalid(quoted.to_owned()));
        }
        proof {
            assert(text::nth_word(line@, 1, false) == text::word_at(line@, b0 as int, false));
        }
        let (a1, b1) = match text::next_word(chars, b0, false) {
            Some(bounds) => bounds,
            None => {
                return Err(RequestError::NameNotFound(line.to_owned()));
            },
        };
        proof {
            assert(text::nth_word(line@, 2, false) == text::word_at(line@, b1 as int, false));
        }
        let (a2, b2) = match text::next_word(chars, b1, false) {
            Some(bounds) => bounds,
            None => {
                return Err(RequestError::SizeNotFound(line.to_owned()));
            },
        };
        let size = match text::parse_u64(slice_subrange(chars, a2, b2)) {
            Some(size) => size,
            None => {
                return Err(RequestError::SizeParse(line.substring_char(a2, b2).to_owned()));
            },
        };
        proof {
            assert(text::nth_word(line@, 3, false) == text::word_at(line@, b2 as int, false));
        }
        let (a3, b3) = match text::next_word(chars, b2, false) {
            Some(bounds) => bounds,
            None => {
                return Err(RequestError::ChecksumNotFound(line.to_owned()));
            },
        };
        let label = line.substring_char(a3, b3);
        let checksum = match parse_checksum(label, slice_subrange(chars, a3, b3)) {
            Some(checksum) => checksum,
            None => {
                return Err(RequestError::UnknownChecksum(label.to_owned()));
            },
        };
        Ok(
            Request {
                uri: quoted.substring_char(1, b0 - a0 - 1).to_owned(),
                name: line.substring_char(a1, b1).to_owned(),
                size,
                checksum,
            },
        )
    }
}

impl std::str::FromStr for Request {
    type Err = RequestError;

    /// Reads one line of `apt-get --print-uris`, as [`Request::parse`] does.
    fn from_str(line: &str) -> (r: Result<Self, Self::Err>)
        ensures
            result_view(r) == parse_line(line@),
    {
        Request::parse(line)
    }
}

} // verus!
