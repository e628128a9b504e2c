//! Finding the expressions that a text holds, by regular expression.

use vstd::prelude::*;

verus! {

/// One match of a pattern: the text that matched, and the text that one
/// named group of the pattern took, where the group took part in the match.
#[derive(Debug, PartialEq)]
pub struct Capture {
    pub whole: String,
    pub group: Option<String>,
}

impl View for Capture {
    type V = (Seq<char>, Option<Seq<char>>);

    open spec fn view(&self) -> (Seq<char>, Option<Seq<char>>) {
        (
            self.whole@,
            match self.group {
                Some(g) => Some(g@),
                None => None,
            },
        )
    }
}

/// What a list of captures stands for.
pub open spec fn captures_model(captures: Seq<Capture>) -> Seq<(Seq<char>, Option<Seq<char>>)> {
    Seq::new(captures.len(), |i: int| captures[i]@)
}

/// The successive matches of the regular expression `pattern` in `text`,
/// each with what the group named `group` took; `None` where `pattern` is
/// not a regular expression.
pub uninterp spec fn regex_captures(pattern: Seq<char>, group: Seq<char>, text: Seq<char>) -> Option<Seq<(Seq<char>, Option<Seq<char>>)>>;

/// Compiles `pattern` with `regex::Regex::new` and walks
/// `Regex::captures_iter` over `text`. The result is what the `regex` crate
/// finds: its successive non-overlapping matches, in order, and for each
/// the text of the group named `group`. Nothing more is claimed of it.
#[verifier::external_body]
pub(crate) fn captures_of(pattern: &str, group: &str, text: &str) -> (found: Option<Vec<Capture>>)
    ensures
        match found {
            Some(captures) => regex_captures(pattern@, group@, text@) == Some(
                captures_model(captures@),
            ),
            None => regex_captures(pattern@, group@, text@) is None,
        },
{
    let re = match regex::Regex::new(pattern) {
        Ok(re) => re,
        Err(_) => return None,
    };
    let mut found = Vec::new();
    for c in re.captures_iter(text) {
        let group = match c.name(group) {
            Some(m) => Some(m.as_str().to_string()),
            None => None,
        };
        found.push(Capture { whole: c[0].to_string(), group });
    }
    Some(found)
}

} // verus!
