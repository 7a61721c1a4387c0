//! The document format of a change fragment: a metadata block between two
//! delimiter lines, followed by the changelog line.

use crate::change::FrontMatter;
use crate::error::ChangelogError;
use vstd::prelude::*;
use vstd::string::StrSliceExecFns;

verus! {

/// A fragment cut into its parts, before anything is decoded.
#[derive(Debug)]
pub struct RawFragment {
    /// The text of the metadata block.
    pub frontmatter: String,
    /// The text after the metadata block, as it stands in the document;
    /// `None` where no delimiter line closes the block.
    pub body: Option<String>,
}

/// The mathematical content of a [`RawFragment`].
pub struct RawFragmentView {
    pub frontmatter: Seq<char>,
    pub body: Option<Seq<char>>,
}

impl View for RawFragment {
    type V = RawFragmentView;

    open spec fn view(&self) -> RawFragmentView {
        RawFragmentView {
            frontmatter: self.frontmatter@,
            body: match self.body {
                Some(body) => Some(body@),
                None => None,
            },
        }
    }
}

/// Whether the delimiter, three hyphens and a line feed, stands in `text` at
/// position `at`.
pub open spec fn delimiter_at(text: Seq<char>, at: int) -> bool {
    &&& 0 <= at
    &&& at + 4 <= text.len()
    &&& text[at] == '-'
    &&& text[at + 1] == '-'
    &&& text[at + 2] == '-'
    &&& text[at + 3] == '\n'
}

/// Whether the first delimiter of `text` stands at position `at`.
pub open spec fn first_delimiter_at(text: Seq<char>, at: int) -> bool {
    &&& delimiter_at(text, at)
    &&& forall|k: int| 0 <= k < at ==> !delimiter_at(text, k)
}

/// What stands before the first delimiter of `text` and what stands after
/// it; `None` where `text` holds no delimiter.
pub open spec fn split_at_delimiter(text: Seq<char>) -> Option<(Seq<char>, Seq<char>)> {
    if exists|at: int| first_delimiter_at(text, at) {
        let at = choose|at: int| first_delimiter_at(text, at);
        Some((text.take(at), text.skip(at + 4)))
    } else {
        None
    }
}

/// The parts of a document. What stands before the first delimiter is
/// dropped. The metadata block runs from there to the second delimiter, or to
/// the end of the document where there is no second one. The body is all that
/// follows the second delimiter, further delimiters included. A document
/// without delimiter has no parts.
pub open spec fn framed(text: Seq<char>) -> Option<RawFragmentView> {
    match split_at_delimiter(text) {
        None => None,
        Some((_, rest)) => match split_at_delimiter(rest) {
            None => Some(RawFragmentView { frontmatter: rest, body: None }),
            Some((block, body)) => Some(RawFragmentView { frontmatter: block, body: Some(body) }),
        },
    }
}

/// Whether `char::is_whitespace` holds of `c`, that is, whether `c` has the
/// Unicode property `White_Space`. The characters are not listed here.
pub uninterp spec fn is_white_space(c: char) -> bool;

/// `text` without the white space at its start.
pub open spec fn trimmed_start(text: Seq<char>) -> Seq<char>
    decreases text.len(),
{
    if text.len() > 0 && is_white_space(text.first()) {
        trimmed_start(text.drop_first())
    } else {
        text
    }
}

/// `text` without the white space at its end.
pub open spec fn trimmed_end(text: Seq<char>) -> Seq<char>
    decreases text.len(),
{
    if text.len() > 0 && is_white_space(text.last()) {
        trimmed_end(text.drop_last())
    } else {
        text
    }
}

/// `text` without the white space around it.
pub open spec fn trimmed(text: Seq<char>) -> Seq<char> {
    trimmed_end(trimmed_start(text))
}

/// Calls `char::is_whitespace`. Trusted: the result is what
/// [`is_white_space`] names.
#[verifier::external_body]
fn is_whitespace(c: char) -> (white: bool)
    ensures
        white == is_white_space(c),
{
    c.is_whitespace()
}

/// Copies the characters of a text into a vector.
fn chars_of(text: &str) -> (chars: Vec<char>)
    ensures
        chars@ == text@,
{
    let mut chars: Vec<char> = Vec::new();
    for c in it: text.chars()
        invariant
            it.seq() == text@,
            chars@ == text@.take(it.index() as int),
    {
        chars.push(c);
    }
    chars
}

/// Returns `text` without the white space around it.
pub fn trim(text: &str) -> (inner: String)
    ensures
        inner@ == trimmed(text@),
{
    let chars = chars_of(text);
    let len = chars.len();
    let mut start: usize = 0;
    assert(chars@.skip(0) =~= chars@);
    while start < len && is_whitespace(chars[start])
        invariant
            start <= len,
            len == chars.len(),
            trimmed_start(chars@) == trimmed_start(chars@.skip(start as int)),
        decreases len - start,
    {
        assert(chars@.skip(start as int).drop_first() =~= chars@.skip(start + 1));
        start += 1;
    }
    let ghost tail = chars@.skip(start as int);
    let mut end: usize = len;
    while end > start && is_whitespace(chars[end - 1])
        invariant
            start <= end <= len,
            len == chars.len(),
            tail == chars@.skip(start as int),
            trimmed_end(tail) == trimmed_end(chars@.subrange(start as int, end as int)),
        decreases end,
    {
        assert(chars@.subrange(start as int, end as int).drop_last() =~= chars@.subrange(
            start as int,
            end - 1,
        ));
        end -= 1;
    }
    text.substring_char(start, end).to_owned()
}

/// Looks for the first delimiter that starts at `from` or later.
fn find_delimiter(chars: &Vec<char>, from: usize) -> (found: Option<usize>)
    requires
        from <= chars.len(),
    ensures
        match found {
            Some(at) => {
                &&& from <= at
                &&& delimiter_at(chars@, at as int)
                &&& forall|k: int| from <= k < at ==> !delimiter_at(chars@, k)
            },
            None => forall|k: int| from <= k ==> !delimiter_at(chars@, k),
        },
{
    let len = chars.len();
    let mut at: usize = from;
    while at < len && len - at >= 4
        invariant
            from <= at <= len,
            len == chars.len(),
            forall|k: int| from <= k < at ==> !delimiter_at(chars@, k),
        decreases len - at,
    {
        if chars[at] == '-' && chars[at + 1] == '-' && chars[at + 2] == '-' && chars[at + 3]
            == '\n' {
            return Some(at);
        }
        at += 1;
    }
    None
}

/// A delimiter stands in what follows position `from` exactly where it stands
/// in the whole text, counted from `from`.
proof fn lemma_delimiter_after(text: Seq<char>, from: int)
    requires
        0 <= from <= text.len(),
    ensures
        forall|k: int| 0 <= k ==> delimiter_at(text.skip(from), k) == delimiter_at(text, from + k),
{
}

/// Cuts a document into its parts.
///
/// Fails exactly when the document holds no delimiter line, and so no
/// metadata block.
pub fn split_file_content(content: &str) -> (parts: Result<RawFragment, ChangelogError>)
    ensures
        match parts {
            Ok(raw) => framed(content@) == Some(raw@),
            Err(error) => framed(content@) is None && error is MissingFrontmatter,
        },
{
    let chars = chars_of(content);
    let len = chars.len();
    match find_delimiter(&chars, 0) {
        None => Err(ChangelogError::MissingFrontmatter),
        Some(first) => {
            let start = first + 4;
            let ghost rest = content@.skip(start as int);
            proof {
                assert(first_delimiter_at(content@, first as int));
                lemma_delimiter_after(content@, start as int);
            }
            match find_delimiter(&chars, start) {
                None => {
                    let frontmatter = content.substring_char(start, len).to_owned();
                    Ok(RawFragment { frontmatter, body: None })
                },
                Some(second) => {
                    let frontmatter = content.substring_char(start, second).to_owned();
                    let body = content.substring_char(second + 4, len).to_owned();
                    proof {
                        assert(first_delimiter_at(rest, second - start));
                        assert(frontmatter@ =~= rest.take(second - start));
                        assert(body@ =~= rest.skip(second - start + 4));
                    }
                    Ok(RawFragment { frontmatter, body: Some(body) })
                },
            }
        },
    }
}

/// Settles what a fragment holds, once its metadata block has been decoded.
///
/// A block that could not be decoded is reported first; then a missing body.
/// Otherwise the result is the metadata and the body without the white space
/// around it.
pub fn parse_file_content(raw: RawFragment, decoded: Result<FrontMatter, serde_yaml::Error>) -> (parsed:
    Result<(FrontMatter, String), ChangelogError>)
    ensures
        match parsed {
            Ok((frontmatter, body)) => {
                &&& decoded == Ok::<FrontMatter, serde_yaml::Error>(frontmatter)
                &&& raw@.body is Some
                &&& body@ == trimmed(raw@.body->0)
            },
            Err(ChangelogError::InvalidFrontmatter(reason)) => decoded == Err::<
                FrontMatter,
                serde_yaml::Error,
            >(reason),
            Err(ChangelogError::MissingBody) => decoded is Ok && raw@.body is None,
            Err(_) => false,
        },
{
    match decoded {
        Err(reason) => Err(ChangelogError::InvalidFrontmatter(reason)),
        Ok(frontmatter) => match raw.body {
            None => Err(ChangelogError::MissingBody),
            Some(body) => Ok((frontmatter, trim(body.as_str()))),
        },
    }
}

} // verus!
