//! Decision logic of the issue-tracker collaborator: request
//! validation, the authentication verdict drawn from the CLI's
//! diagnostic output, and parsing the issue number out of a result
//! URL. Running the CLI itself is subprocess work and stays outside
//! the library; these functions take its output as plain values.

use vstd::prelude::*;
use vstd::string::StringExecFns;
use vstd::string::StrSliceExecFns;
use crate::text::{
    contains_str, find_str, first_occ, has_substring, lemma_first_occ_is_match, trim_end_paren,
    trim_end_paren_str, trim_spec, trim_str,
};

verus! {

/// The authentication state of the issue-tracker CLI.
#[derive(Debug, Clone)]
pub struct GitHubAuthStatus {
    pub authenticated: bool,
    pub user: Option<String>,
    pub scopes: Option<Vec<String>>,
}

/// A created issue: its URL and number.
#[derive(Debug, Clone)]
pub struct GitHubIssueResult {
    pub url: String,
    pub number: u32,
}

/// The ways an issue-creation request can be rejected before anything
/// runs.
#[derive(Debug, Clone, Copy, PartialEq, Eq, Structural)]
pub enum IssueArgError {
    /// The repository argument is empty.
    EmptyRepo,
    /// The title argument is empty.
    EmptyTitle,
    /// The repository argument holds no `/` separator.
    RepoFormat,
}

impl IssueArgError {
    /// A short description of the rejection.
    pub fn message(&self) -> (r: String)
        ensures
            *self is EmptyRepo ==> r@ == "Repository cannot be empty"@,
            *self is EmptyTitle ==> r@ == "Title cannot be empty"@,
            *self is RepoFormat ==> r@ == "Repository must be in format 'owner/repo'"@,
    {
        match self {
            IssueArgError::EmptyRepo => String::from_str("Repository cannot be empty"),
            IssueArgError::EmptyTitle => String::from_str("Title cannot be empty"),
            IssueArgError::RepoFormat => String::from_str(
                "Repository must be in format 'owner/repo'",
            ),
        }
    }
}

/// Validates an issue-creation request: the repository must be
/// non-empty and hold a `/` separator, and the title must be
/// non-empty. The checks apply in that order.
pub fn validate_issue_args(repo: &str, title: &str) -> (r: Result<(), IssueArgError>)
    ensures
        repo@.len() == 0 ==> r == Err::<(), IssueArgError>(IssueArgError::EmptyRepo),
        repo@.len() > 0 && title@.len() == 0 ==> r == Err::<(), IssueArgError>(
            IssueArgError::EmptyTitle,
        ),
        repo@.len() > 0 && title@.len() > 0 && !has_substring(repo@, "/"@) ==> r == Err::<
            (),
            IssueArgError,
        >(IssueArgError::RepoFormat),
        repo@.len() > 0 && title@.len() > 0 && has_substring(repo@, "/"@) ==> r is Ok,
{
    if repo.unicode_len() == 0 {
        return Err(IssueArgError::EmptyRepo);
    }
    if title.unicode_len() == 0 {
        return Err(IssueArgError::EmptyTitle);
    }
    if !contains_str(repo, "/") {
        return Err(IssueArgError::RepoFormat);
    }
    Ok(())
}

/// The authentication verdict the status check owes, given whether the
/// CLI binary was found, whether its status command succeeded, its
/// diagnostic output, and the login name already read from that
/// output. Scopes are reported as the fixed pair the application asks
/// for whenever the output mentions either of them.
pub fn auth_status_from_output(
    gh_available: bool,
    success: bool,
    stderr: &str,
    user: Option<String>,
) -> (r: GitHubAuthStatus)
    ensures
        !gh_available ==> !r.authenticated && r.user is None && r.scopes is None,
        gh_available && (!success || has_substring(stderr@, "not logged in"@)) ==> !r.authenticated
            && r.user is None && r.scopes is None,
        gh_available && success && !has_substring(stderr@, "not logged in"@) ==> {
            &&& r.authenticated
            &&& r.user == user
            &&& (r.scopes is Some <==> (has_substring(stderr@, "repo"@) || has_substring(
                stderr@,
                "write:project"@,
            )))
            &&& (r.scopes matches Some(sc) ==> sc@.len() == 2 && sc@[0]@ == "repo"@ && sc@[1]@
                == "write:project"@)
        },
{
    if !gh_available {
        return GitHubAuthStatus { authenticated: false, user: None, scopes: None };
    }
    if !success || contains_str(stderr, "not logged in") {
        return GitHubAuthStatus { authenticated: false, user: None, scopes: None };
    }
    let scopes = if contains_str(stderr, "repo") || contains_str(stderr, "write:project") {
        let mut sc: Vec<String> = Vec::new();
        sc.push(String::from_str("repo"));
        sc.push(String::from_str("write:project"));
        Some(sc)
    } else {
        None
    };
    GitHubAuthStatus { authenticated: true, user, scopes }
}

/// Is `c` an ascii decimal digit?
pub open spec fn is_digit(c: char) -> bool {
    ('0' as u32) <= (c as u32) && (c as u32) <= ('9' as u32)
}

/// `s` is one or more decimal digits.
pub open spec fn all_digits(s: Seq<char>) -> bool {
    s.len() > 0 && forall|i: int| 0 <= i < s.len() ==> is_digit(#[trigger] s[i])
}

/// The number the digit string `s` denotes.
pub open spec fn digits_val(s: Seq<char>) -> int
    decreases s.len(),
{
    if s.len() == 0 {
        0
    } else {
        digits_val(s.drop_last()) * 10 + ((s.last() as u32) - ('0' as u32))
    }
}

/// A digit string denotes a non-negative number.
pub proof fn lemma_digits_val_nonneg(s: Seq<char>)
    requires
        forall|i: int| 0 <= i < s.len() ==> is_digit(#[trigger] s[i]),
    ensures
        digits_val(s) >= 0,
    decreases s.len(),
{
    if s.len() > 0 {
        lemma_digits_val_nonneg(s.drop_last());
    }
}

/// A prefix of a digit string denotes no more than the whole string.
pub proof fn lemma_digits_val_prefix(s: Seq<char>, k: int)
    requires
        0 <= k <= s.len(),
        forall|i: int| 0 <= i < s.len() ==> is_digit(#[trigger] s[i]),
    ensures
        digits_val(s.take(k)) <= digits_val(s),
    decreases s.len() - k,
{
    if k < s.len() {
        lemma_digits_val_prefix(s, k + 1);
        let t = s.take(k + 1);
        assert(t.drop_last() =~= s.take(k));
        assert(t.last() == s[k]);
        lemma_digits_val_nonneg(s.take(k));
        assert(digits_val(t) == digits_val(s.take(k)) * 10 + ((s[k] as u32) - ('0' as u32)));
        assert(digits_val(s.take(k)) <= digits_val(t));
    } else {
        assert(s.take(k) =~= s);
    }
}

/// The number a segment denotes under the standard unsigned parse: an
/// optional leading `+`, then one or more digits, the value fitting in
/// 32 bits.
pub open spec fn spec_parse_u32(s: Seq<char>) -> Option<u32> {
    let body = if s.len() > 0 && s[0] == '+' {
        s.skip(1)
    } else {
        s
    };
    if all_digits(body) && digits_val(body) <= u32::MAX {
        Some(digits_val(body) as u32)
    } else {
        None
    }
}

/// The position of the last occurrence of `c` in `s`.
pub open spec fn last_index_of(s: Seq<char>, c: char) -> Option<int>
    decreases s.len(),
{
    if s.len() == 0 {
        None
    } else if s.last() == c {
        Some(s.len() - 1)
    } else {
        last_index_of(s.drop_last(), c)
    }
}

/// The text after the last `/` of a URL, or the whole text when it has
/// none.
pub open spec fn last_segment(url: Seq<char>) -> Seq<char> {
    match last_index_of(url, '/') {
        Some(i) => url.skip(i + 1),
        None => url,
    }
}

/// Finds the last occurrence of `c` in `s`.
pub fn find_last_char(s: &str, c: char) -> (r: Option<usize>)
    ensures
        match r {
            Some(i) => i < s@.len() && Some(i as int) == last_index_of(s@, c),
            None => last_index_of(s@, c) is None,
        },
{
    let n = s.unicode_len();
    let mut i: usize = n;
    proof {
        assert(s@.take(n as int) =~= s@);
    }
    while i > 0
        invariant
            i <= n,
            n == s@.len(),
            last_index_of(s@, c) == last_index_of(s@.take(i as int), c),
        decreases i,
    {
        let ch = s.get_char(i - 1);
        proof {
            assert(s@.take(i as int).last() == s@[i as int - 1]);
        }
        if ch == c {
            return Some(i - 1);
        }
        proof {
            assert(s@.take(i as int).drop_last() =~= s@.take(i as int - 1));
        }
        i = i - 1;
    }
    proof {
        assert(s@.take(0).len() == 0);
    }
    None
}

/// Parses a segment as a 32-bit unsigned number.
pub fn parse_u32_str(seg: &str) -> (r: Option<u32>)
    ensures
        r == spec_parse_u32(seg@),
{
    let n = seg.unicode_len();
    let mut start: usize = 0;
    if n > 0 && seg.get_char(0) == '+' {
        start = 1;
    }
    let ghost body = if start == 1 {
        seg@.skip(1)
    } else {
        seg@
    };
    proof {
        if start == 0 {
            assert(body =~= seg@.skip(0));
        }
    }
    if start >= n {
        proof {
            assert(seg@.skip(0) =~= seg@);
            assert(body.len() == 0);
        }
        return None;
    }
    let mut i: usize = start;
    let mut val: u64 = 0;
    while i < n
        invariant
            start <= i <= n,
            n == seg@.len(),
            start <= 1,
            start == 1 ==> seg@.len() > 0 && seg@[0] == '+',
            start == 0 ==> !(seg@.len() > 0 && seg@[0] == '+'),
            body == seg@.skip(start as int),
            body.len() == n - start,
            forall|k: int| 0 <= k < i - start ==> is_digit(#[trigger] body[k]),
            val == digits_val(body.take(i - start)),
            val <= u32::MAX,
        decreases n - i,
    {
        let c = seg.get_char(i);
        proof {
            assert(body[i - start] == seg@[i as int]);
        }
        if (c as u32) < ('0' as u32) || (c as u32) > ('9' as u32) {
            proof {
                assert(seg@.skip(0) =~= seg@);
                assert(!is_digit(body[i - start]));
                assert(!all_digits(body));
            }
            return None;
        }
        let d: u32 = (c as u32) - ('0' as u32);
        let next: u64 = val * 10 + (d as u64);
        proof {
            let t = body.take(i - start + 1);
            assert(t.drop_last() =~= body.take(i - start));
            assert(t.last() == body[i - start]);
        }
        if next > u32::MAX as u64 {
            proof {
                if all_digits(body) {
                    let t = body.take(i - start + 1);
                    assert(t.drop_last() =~= body.take(i - start));
                    assert(t.last() == body[i - start]);
                    assert(digits_val(t) == val * 10 + d);
                    lemma_digits_val_prefix(body, i - start + 1);
                    assert(digits_val(body) >= digits_val(t));
                    assert(digits_val(body) > u32::MAX);
                }
                assert(seg@.skip(0) =~= seg@);
                assert(!(all_digits(body) && digits_val(body) <= u32::MAX));
            }
            return None;
        }
        val = next;
        i = i + 1;
    }
    proof {
        assert(seg@.skip(0) =~= seg@);
        assert(body.take(i - start) =~= body);
        assert(all_digits(body));
    }
    Some(val as u32)
}

/// Parses the issue number out of a result URL: the text after the
/// last `/`, read as a 32-bit unsigned number.
pub fn parse_issue_number(url: &str) -> (r: Option<u32>)
    ensures
        r == spec_parse_u32(last_segment(url@)),
{
    let n = url.unicode_len();
    match find_last_char(url, '/') {
        Some(i) => {
            let seg = url.substring_char(i + 1, n);
            proof {
                assert(last_segment(url@) == url@.skip(i as int + 1));
            }
            proof {
                assert(seg@ =~= last_segment(url@));
            }
            parse_u32_str(seg)
        },
        None => parse_u32_str(url),
    }
}

/// The line of the diagnostic output that announces the login, without
/// its line ending: the line around the first occurrence of the
/// announcement text, or nothing when it never occurs.
pub open spec fn login_line(stderr: Seq<char>) -> Option<Seq<char>> {
    match first_occ(stderr, "Logged in to github.com as"@) {
        Some(m) => {
            let start = match last_index_of(stderr.take(m), '\n') {
                Some(p) => p + 1,
                None => 0,
            };
            let end = match first_occ(stderr.skip(m), "\n"@) {
                Some(d) => m + d,
                None => stderr.len() as int,
            };
            let raw = stderr.subrange(start, end);
            Some(
                if raw.len() > 0 && raw.last() == '\r' {
                    raw.drop_last()
                } else {
                    raw
                },
            )
        },
        None => None,
    }
}

/// The piece of the line between its first and second `as ` separator
/// (to its end when there is no second), or nothing when the line has
/// no separator.
pub open spec fn after_as(line: Seq<char>) -> Option<Seq<char>> {
    match first_occ(line, "as "@) {
        Some(a) => {
            let rest = line.skip(a + "as "@.len());
            Some(
                match first_occ(rest, "as "@) {
                    Some(b) => rest.take(b),
                    None => rest,
                },
            )
        },
        None => None,
    }
}

/// The login name the diagnostic output announces: the piece after the
/// `as ` separator of the announcement line, with trailing ` (` pairs
/// and surrounding whitespace stripped.
pub open spec fn spec_login_user(stderr: Seq<char>) -> Option<Seq<char>> {
    match login_line(stderr) {
        Some(line) => match after_as(line) {
            Some(piece) => Some(trim_spec(trim_end_paren(piece))),
            None => None,
        },
        None => None,
    }
}

/// Reads the login name out of the status command's diagnostic output.
pub fn extract_login_user(stderr: &str) -> (r: Option<String>)
    ensures
        match r {
            Some(u) => spec_login_user(stderr@) == Some(u@),
            None => spec_login_user(stderr@) is None,
        },
{
    let n = stderr.unicode_len();
    let m = match find_str(stderr, "Logged in to github.com as") {
        Some(m) => m,
        None => {
            return None;
        },
    };
    proof {
        lemma_first_occ_is_match(stderr@, "Logged in to github.com as"@);
    }
    let pre = stderr.substring_char(0, m);
    proof {
        assert(pre@ =~= stderr@.take(m as int));
    }
    let start = match find_last_char(pre, '\n') {
        Some(p) => p + 1,
        None => 0,
    };
    let tail = stderr.substring_char(m, n);
    proof {
        assert(tail@ =~= stderr@.skip(m as int));
    }
    let end = match find_str(tail, "\n") {
        Some(d) => {
            proof {
                lemma_first_occ_is_match(tail@, "\n"@);
                reveal_strlit("\n");
            }
            m + d
        },
        None => n,
    };
    let raw = stderr.substring_char(start, end);
    proof {
        assert(raw@ =~= stderr@.subrange(start as int, end as int));
    }
    let rl = raw.unicode_len();
    let line = if rl > 0 && raw.get_char(rl - 1) == '\r' {
        let t = raw.substring_char(0, rl - 1);
        proof {
            assert(t@ =~= raw@.drop_last());
        }
        t
    } else {
        raw
    };
    proof {
        assert(login_line(stderr@) == Some(line@));
    }
    let ll = line.unicode_len();
    let a = match find_str(line, "as ") {
        Some(a) => a,
        None => {
            return None;
        },
    };
    proof {
        lemma_first_occ_is_match(line@, "as "@);
        reveal_strlit("as ");
    }
    let rest = line.substring_char(a + 3, ll);
    proof {
        assert(rest@ =~= line@.skip(a as int + 3));
    }
    let piece = match find_str(rest, "as ") {
        Some(b) => {
            proof {
                lemma_first_occ_is_match(rest@, "as "@);
            }
            let t = rest.substring_char(0, b);
            proof {
                assert(t@ =~= rest@.take(b as int));
            }
            t
        },
        None => rest,
    };
    proof {
        assert(after_as(line@) == Some(piece@));
    }
    let user = trim_str(trim_end_paren_str(piece));
    Some(String::from_str(user))
}

/// Builds the issue record from its URL: the number is parsed from the
/// URL's last segment.
pub fn issue_result_from_url(url: String) -> (r: Option<GitHubIssueResult>)
    ensures
        spec_parse_u32(last_segment(url@)) is Some ==> (r matches Some(ir) && ir.url == url
            && ir.number == spec_parse_u32(last_segment(url@))->0),
        spec_parse_u32(last_segment(url@)) is None ==> r is None,
{
    match parse_issue_number(url.as_str()) {
        Some(number) => Some(GitHubIssueResult { url, number }),
        None => None,
    }
}

} // verus!
