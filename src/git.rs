use vstd::prelude::*;
use vstd::string::*;

verus! {

#[verifier::external_type_specification]
#[verifier::external_body]
pub struct ExRegexError(regex::Error);

/// Local version-control discovery. Opening the checkout happens outside
/// the library; reading its remote URL happens here.
pub struct Git {}

/// Whether `pattern` is a valid regular expression.
pub uninterp spec fn regex_compiles(pattern: Seq<char>) -> bool;

/// The first match of the regular expression `pattern` in `text`, seen
/// through group `group`: `None` where nothing matches, `Some(None)` where
/// the group took no part in the match, else the text the group matched.
pub uninterp spec fn regex_group(pattern: Seq<char>, text: Seq<char>, group: nat) -> Option<Option<Seq<char>>>;

/// What a capture gives as a character sequence.
pub open spec fn capture_view(o: Option<Option<String>>) -> Option<Option<Seq<char>>> {
    match o {
        Some(Some(s)) => Some(Some(s@)),
        Some(None) => Some(None),
        None => None,
    }
}

/// The text of a remote URL part: what the group matched, empty where it
/// took no part; `None` where nothing matched.
pub open spec fn url_part(c: Option<Option<Seq<char>>>) -> Option<Seq<char>> {
    match c {
        Some(Some(s)) => Some(s),
        Some(None) => Some(Seq::empty()),
        None => None,
    }
}

pub open spec fn opt_view(o: Option<String>) -> Option<Seq<char>> {
    match o {
        Some(s) => Some(s@),
        None => None,
    }
}

/// The owner is what stands between `github.com/` (or `github.com:`) and the next `/`.
pub open spec fn owner_pattern() -> Seq<char> {
    "github\\.com[/:](.*?)/"@
}

/// The repository is what follows the owner, without a trailing `.git`.
pub open spec fn repo_pattern() -> Seq<char> {
    "github\\.com[/:].*?/(.*?)(\\.git)?$"@
}

/// Relies on `regex::Regex::new`, `Regex::captures` and `Captures::get`:
/// compiles `pattern` (failing exactly where it is not a valid expression)
/// and gives group `group` of the leftmost-first match in `text`.
#[verifier::external_body]
fn capture_group(pattern: &str, text: &str, group: usize) -> (r: Result<Option<Option<String>>, regex::Error>)
    ensures
        r is Ok <==> regex_compiles(pattern@),
        r matches Ok(c) ==> capture_view(c) == regex_group(pattern@, text@, group as nat),
{
    let re = regex::Regex::new(pattern)?;
    Ok(re.captures(text).map(|c| c.get(group).map(|m| m.as_str().to_string())))
}

fn part_of(c: Option<Option<String>>) -> (r: Option<String>)
    ensures
        opt_view(r) == url_part(capture_view(c)),
{
    match c {
        Some(Some(s)) => Some(s),
        Some(None) => Some(String::new()),
        None => None,
    }
}

impl Git {
    /// The repository owner named by a remote URL, if the URL names one.
    pub fn owner_from_url(url: &str) -> (r: Option<String>)
        ensures
            regex_compiles(owner_pattern()) ==> opt_view(r) == url_part(
                regex_group(owner_pattern(), url@, 1),
            ),
            !regex_compiles(owner_pattern()) ==> r is None,
    {
        match capture_group("github\\.com[/:](.*?)/", url, 1) {
            Ok(c) => part_of(c),
            Err(_) => None,
        }
    }

    /// The repository name named by a remote URL, if the URL names one.
    pub fn repo_from_url(url: &str) -> (r: Option<String>)
        ensures
            regex_compiles(repo_pattern()) ==> opt_view(r) == url_part(
                regex_group(repo_pattern(), url@, 1),
            ),
            !regex_compiles(repo_pattern()) ==> r is None,
    {
        match capture_group("github\\.com[/:].*?/(.*?)(\\.git)?$", url, 1) {
            Ok(c) => part_of(c),
            Err(_) => None,
        }
    }
}

} // verus!
