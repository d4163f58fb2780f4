//! Regular-expression matching through the `regex` crate.
use vstd::prelude::*;

verus! {

/// The capture groups of one regex match, group 0 first; a group that did
/// not take part in the match is `None`. `None` as a whole: no match.
pub type TextCaps = Option<Vec<Option<Vec<char>>>>;

/// What `TextCaps` stands for.
pub type CapsModel = Option<Seq<Option<Seq<char>>>>;

pub open spec fn group_model(g: Option<Vec<char>>) -> Option<Seq<char>> {
    match g {
        Some(t) => Some(t@),
        None => None,
    }
}

pub open spec fn caps_model(c: TextCaps) -> CapsModel {
    match c {
        Some(groups) => Some(groups@.map_values(|g: Option<Vec<char>>| group_model(g))),
        None => None,
    }
}

/// What `regex::Regex::new(pattern)` and then `Regex::captures(haystack)`
/// give, as capture groups (group 0 first); `None` when the pattern does not
/// compile or does not match.
pub uninterp spec fn regex_captures(pattern: Seq<char>, haystack: Seq<char>) -> CapsModel;

/// Compiles `pattern` with `regex::Regex::new` and searches `haystack` with
/// `Regex::captures`. The contract claims that the groups returned are
/// `regex_captures(pattern, haystack)`, and, as the crate documents for
/// `Captures::len` and `Captures::get(0)`, that a match has group 0 present.
#[verifier::external_body]
pub(crate) fn regex_capture(pattern: &str, haystack: &Vec<char>) -> (res: TextCaps)
    ensures
        caps_model(res) == regex_captures(pattern@, haystack@),
        res matches Some(groups) ==> groups@.len() >= 1 && groups@[0] is Some,
{
    let text: String = haystack.iter().collect();
    let re = match regex::Regex::new(pattern) {
        Ok(re) => re,
        Err(_) => return None,
    };
    let caps = re.captures(&text)?;
    Some(caps.iter().map(|g| g.map(|m| m.as_str().chars().collect())).collect())
}

/// Whether group `i` of `c` took part in a match.
pub open spec fn group_present(c: CapsModel, i: int) -> bool {
    match c {
        Some(groups) => 0 <= i < groups.len() && groups[i] is Some,
        None => false,
    }
}

/// The text of group `i` of `c`, empty where the group is absent.
pub open spec fn group_text(c: CapsModel, i: int) -> Seq<char> {
    match c {
        Some(groups) => if 0 <= i < groups.len() {
            match groups[i] {
                Some(t) => t,
                None => Seq::empty(),
            }
        } else {
            Seq::empty()
        },
        None => Seq::empty(),
    }
}

/// Whether group `i` of `c` took part in a match.
pub fn group_present_exec(c: &TextCaps, i: usize) -> (res: bool)
    ensures
        res == group_present(caps_model(*c), i as int),
{
    match c {
        Some(groups) => i < groups.len() && groups[i].is_some(),
        None => false,
    }
}

/// The text of group `i` of `c`, empty where the group is absent.
pub fn group_text_exec(c: &TextCaps, i: usize) -> (res: Vec<char>)
    ensures
        res@ == group_text(caps_model(*c), i as int),
{
    match c {
        Some(groups) => {
            if i < groups.len() {
                match &groups[i] {
                    Some(t) => t.clone(),
                    None => Vec::new(),
                }
            } else {
                Vec::new()
            }
        },
        None => Vec::new(),
    }
}

} // verus!
