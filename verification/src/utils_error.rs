//! The error of the utility layer, and the cutting short of long details
//! in messages.

use vstd::prelude::*;
use vstd::string::*;
use vstd::utf8::decode_utf8;
use vstd::utf8::encode_utf8;
use vstd::utf8::is_char_boundary;
use crate::text::decimal;
use crate::text::push_decimal;

verus! {

/// An error of the utility layer.
#[derive(Debug, PartialEq, Eq)]
pub enum ApolloUtilsError {
    ComputeError(String),
}

impl ApolloUtilsError {
    /// The text of the error.
    pub fn message(&self) -> (s: String)
        ensures
            s@ == match self {
                ApolloUtilsError::ComputeError(m) => m@,
            },
    {
        match self {
            ApolloUtilsError::ComputeError(m) => m.clone(),
        }
    }
}

/// The number of bytes of a detail that are shown where the process is
/// not verbose.
pub const TRUNCATE_LIMIT: usize = 4096;

/// A detail of an error message that is cut short unless the process is
/// verbose.
#[derive(Clone, Copy, Debug, PartialEq, Eq)]
pub struct TruncateErrorDetail<'a>(pub &'a str);

/// What is shown of a detail.
///
/// All of it where the process is verbose or the detail takes no more
/// than 4096 bytes. Else its first 4096 bytes, followed by the note that
/// says how many bytes were left out.
pub open spec fn truncated(text: Seq<char>, verbose: bool) -> Seq<char> {
    let bytes = encode_utf8(text);
    if verbose || bytes.len() <= 4096 {
        text
    } else {
        decode_utf8(bytes.subrange(0, 4096)) + " ...(set APOLLO_VERBOSE=1 to see full response ("@
            + decimal((bytes.len() - 4096) as nat) + " more characters))"@
    }
}

/// Whether the detail can be cut where it has to be: it is shown whole,
/// or its byte 4096 begins a character.
pub open spec fn can_truncate(text: Seq<char>, verbose: bool) -> bool {
    let bytes = encode_utf8(text);
    verbose || bytes.len() <= 4096 || is_char_boundary(bytes, 4096)
}

impl<'a> TruncateErrorDetail<'a> {
    /// What is shown of the detail.
    pub fn render(&self, verbose: bool) -> (s: String)
        requires
            can_truncate(self.0@, verbose),
        ensures
            s@ == truncated(self.0@, verbose),
    {
        let text: &str = self.0;
        let len = text.as_bytes().len();
        if verbose || len <= TRUNCATE_LIMIT {
            return String::from_str(text);
        }
        let (head, _) = text.split_at(TRUNCATE_LIMIT);
        proof {
            vstd::utf8::encode_utf8_decode_utf8(head@);
        }
        let n_more = len - TRUNCATE_LIMIT;
        let mut s = String::from_str(head);
        s.append(" ...(set APOLLO_VERBOSE=1 to see full response (");
        push_decimal(&mut s, n_more);
        s.append(" more characters))");
        assert(s@ =~= truncated(self.0@, verbose));
        s
    }

    /// What is shown of the detail, or `None` where the cut would fall
    /// inside a character.
    pub fn try_render(&self, verbose: bool) -> (r: Option<String>)
        ensures
            match r {
                Some(s) => can_truncate(self.0@, verbose) && s@ == truncated(self.0@, verbose),
                None => !can_truncate(self.0@, verbose),
            },
    {
        let text: &str = self.0;
        if verbose || text.as_bytes().len() <= TRUNCATE_LIMIT || text.is_char_boundary(
            TRUNCATE_LIMIT,
        ) {
            Some(self.render(verbose))
        } else {
            None
        }
    }
}

/// A detail of at most 4096 bytes is shown whole, and so is every detail
/// where the process is verbose.
pub proof fn lemma_short_detail_is_whole(text: Seq<char>, verbose: bool)
    requires
        verbose || encode_utf8(text).len() <= 4096,
    ensures
        truncated(text, verbose) == text,
{
}

} // verus!
