//! Opening the issue or the pull request of the current branch in the browser.
use vstd::prelude::*;
use crate::pattern::{compile_pattern, pattern_capture, pattern_is_match, regex_capture, regex_compiles, regex_is_match};
use crate::text::{concat_str, signed_decimal, signed_decimal_string, str_eq};

verus! {

/// The `-w` option: which page to open.
pub struct ViewHandler {
    pub command: String,
}

/// What the `-w` option asks for.
#[derive(Clone, Copy, Debug, PartialEq, Eq)]
pub enum WebAction {
    /// `true` (the flag alone): the issue list.
    DefaultPage,
    /// `pr` or `p`: the pull request of the branch's issue.
    PullRequest,
    /// `issue` or `i`: the branch's issue.
    Issue,
    /// Anything else: only the supported values are listed.
    Unsupported,
}

/// The action for a value of the option.
pub open spec fn web_action_of(command: Seq<char>) -> WebAction {
    if command == "true"@ {
        WebAction::DefaultPage
    } else if command == "pr"@ || command == "p"@ {
        WebAction::PullRequest
    } else if command == "issue"@ || command == "i"@ {
        WebAction::Issue
    } else {
        WebAction::Unsupported
    }
}

/// A pull request as `gh pr list --json title,number` reports it.
#[derive(Clone, Debug)]
pub struct PrEntry {
    pub number: Option<i64>,
    pub title: Option<String>,
}

/// Why the pull request could not be looked up.
#[derive(Clone, Copy, Debug, PartialEq, Eq)]
pub enum ViewError {
    /// The fixed title pattern was refused by the regex engine.
    InvalidPattern,
    /// A title matched without its issue-number group.
    MissingCapture,
    /// The pull request found has no number.
    MissingNumber,
}

/// The pattern that finds the issue number (`#123`) in a pull request's title.
pub open spec fn pr_title_pattern() -> Seq<char> {
    ".*#(\\d+).*"@
}

/// The first pull request, in list order, whose title names `issue_id`:
/// `Ok(Some(number))` for it, `Ok(None)` when there is none, `Err` when a
/// matching title lacks the number group first.
pub open spec fn pr_search(prs: Seq<PrEntry>, issue_id: Seq<char>) -> Result<Option<Option<i64>>, ()>
    decreases prs.len(),
{
    if prs.len() == 0 {
        Ok(None)
    } else {
        let pr = prs[0];
        match pr.title {
            None => pr_search(prs.drop_first(), issue_id),
            Some(t) => if regex_is_match(pr_title_pattern(), t@) {
                match regex_capture(pr_title_pattern(), t@, 1) {
                    None => Err(()),
                    Some(n) => if n == issue_id {
                        Ok(Some(pr.number))
                    } else {
                        pr_search(prs.drop_first(), issue_id)
                    },
                }
            } else {
                pr_search(prs.drop_first(), issue_id)
            },
        }
    }
}

/// Whether the pull request's title names the issue: it matches the title
/// pattern and its captured number is exactly `issue_id`.
pub open spec fn names_issue(pr: PrEntry, issue_id: Seq<char>) -> bool {
    match pr.title {
        Some(t) => regex_is_match(pr_title_pattern(), t@) && regex_capture(pr_title_pattern(), t@, 1)
            == Some(issue_id),
        None => false,
    }
}

/// A pull request is opened only if its title names the issue exactly, and
/// it is the first that does; when none is found, no title names the issue.
pub proof fn lemma_pr_search_finds_first_naming(prs: Seq<PrEntry>, issue_id: Seq<char>)
    ensures
        pr_search(prs, issue_id) matches Ok(Some(num)) ==> exists|k: int|
            0 <= k < prs.len() && #[trigger] names_issue(prs[k], issue_id) && prs[k].number == num
                && forall|j: int| 0 <= j < k ==> !names_issue(prs[j], issue_id),
        pr_search(prs, issue_id) == Ok::<Option<Option<i64>>, ()>(None) ==> forall|j: int|
            0 <= j < prs.len() ==> !names_issue(prs[j], issue_id),
    decreases prs.len(),
{
    if prs.len() > 0 {
        let rest = prs.drop_first();
        lemma_pr_search_finds_first_naming(rest, issue_id);
        if let Ok(Some(num)) = pr_search(prs, issue_id) {
            if names_issue(prs[0], issue_id) {
                assert(names_issue(prs[0], issue_id) && prs[0].number == num);
            } else {
                let k = choose|k: int|
                    0 <= k < rest.len() && #[trigger] names_issue(rest[k], issue_id) && rest[k].number
                        == num && forall|j: int| 0 <= j < k ==> !names_issue(rest[j], issue_id);
                assert(prs[k + 1] == rest[k]);
                assert forall|j: int| 0 <= j < k + 1 implies !names_issue(prs[j], issue_id) by {
                    if j > 0 {
                        assert(prs[j] == rest[j - 1]);
                    }
                }
                assert(names_issue(prs[k + 1], issue_id));
            }
        }
        if pr_search(prs, issue_id) == Ok::<Option<Option<i64>>, ()>(None) {
            assert forall|j: int| 0 <= j < prs.len() implies !names_issue(prs[j], issue_id) by {
                if j > 0 {
                    assert(prs[j] == rest[j - 1]);
                }
            }
        }
    }
}

impl ViewHandler {
    /// A handler for the option's value.
    pub fn new(command: String) -> (res: Self)
        ensures
            res.command == command,
    {
        Self { command }
    }

    /// What the option asks for.
    pub fn web_action(&self) -> (res: WebAction)
        ensures
            res == web_action_of(self.command@),
    {
        let c = self.command.as_str();
        if str_eq(c, "true") {
            WebAction::DefaultPage
        } else if str_eq(c, "pr") || str_eq(c, "p") {
            WebAction::PullRequest
        } else if str_eq(c, "issue") || str_eq(c, "i") {
            WebAction::Issue
        } else {
            WebAction::Unsupported
        }
    }

    /// The command that opens the issue in the browser.
    pub fn issue_web_command(&self, issue_id: &str) -> (res: String)
        ensures
            res@ == "gh issue view "@ + issue_id@ + " --web"@,
    {
        let head = concat_str("gh issue view ", issue_id);
        concat_str(head.as_str(), " --web")
    }

    /// The command that opens the pull request with the given number.
    pub fn pr_web_command(&self, number: i64) -> (res: String)
        ensures
            res@ == "gh pr view "@ + signed_decimal(number as int) + " --web"@,
    {
        let digits = signed_decimal_string(number);
        let head = concat_str("gh pr view ", digits.as_str());
        concat_str(head.as_str(), " --web")
    }

    /// Looks through the pull requests for the first whose title names the
    /// issue, and gives the command that opens it; `None` when none does.
    pub fn open_pr_command(&self, prs: &Vec<PrEntry>, issue_id: &str) -> (res: Result<
        Option<String>,
        ViewError,
    >)
        ensures
            !regex_compiles(pr_title_pattern()) ==> res == Err::<Option<String>, ViewError>(
                ViewError::InvalidPattern,
            ),
            regex_compiles(pr_title_pattern()) ==> match pr_search(prs@, issue_id@) {
                Err(_) => res == Err::<Option<String>, ViewError>(ViewError::MissingCapture),
                Ok(None) => res matches Ok(None),
                Ok(Some(None)) => res == Err::<Option<String>, ViewError>(ViewError::MissingNumber),
                Ok(Some(Some(n))) => res matches Ok(Some(cmd)) && cmd@ == "gh pr view "@
                    + signed_decimal(n as int) + " --web"@,
            },
    {
        let issue_id_re = match compile_pattern(".*#(\\d+).*") {
            Ok(re) => re,
            Err(_) => return Err(ViewError::InvalidPattern),
        };
        let mut i: usize = 0;
        assert(prs@.skip(0) == prs@);
        while i < prs.len()
            invariant
                i <= prs.len(),
                issue_id_re@ == pr_title_pattern(),
                regex_compiles(pr_title_pattern()),
                pr_search(prs@, issue_id@) == pr_search(prs@.skip(i as int), issue_id@),
            decreases prs.len() - i,
        {
            let pr = &prs[i];
            assert(prs@.skip(i as int)[0] == *pr);
            assert(prs@.skip(i as int).drop_first() == prs@.skip(i + 1));
            match &pr.title {
                Some(title) => {
                    if pattern_is_match(&issue_id_re, title.as_str()) {
                        let issue_number = match pattern_capture(&issue_id_re, title.as_str(), 1) {
                            Some(n) => n,
                            None => return Err(ViewError::MissingCapture),
                        };
                        if str_eq(issue_number.as_str(), issue_id) {
                            return match pr.number {
                                Some(n) => Ok(Some(self.pr_web_command(n))),
                                None => Err(ViewError::MissingNumber),
                            };
                        }
                    }
                },
                None => {},
            }
            i = i + 1;
        }
        Ok(None)
    }
}

/// The command that opens the repository's issue list.
pub fn default_web_command() -> (res: String)
    ensures
        res@ == "gh issue list --web"@,
{
    "gh issue list --web".to_string()
}

/// The command that lists the open pull requests with their titles.
pub fn pr_list_command() -> (res: String)
    ensures
        res@ == "gh pr list --json title,number -L 100"@,
{
    "gh pr list --json title,number -L 100".to_string()
}

} // verus!
