//! Branch names: the issue id in the current branch, the remote branches
//! that `git branch -r` lists, and the base branch for a new issue branch.
use vstd::prelude::*;
use vstd::string::StringSliceAdditionalSpecFns;
use vstd::utf8::{decode_utf8, encode_utf8, encode_utf8_decode_utf8, is_char_boundary};
use crate::config::Config;
use crate::pattern::{
    compile_pattern, pattern_capture, pattern_is_match, regex_capture, regex_compiles,
    regex_is_match,
};
use crate::text::{
    concat_str, decimal, decimal_string, first_index_of, split_chars, split_on, starts_with, views,
    str_eq,
};
use crate::version::{biggerst_version_number, latest_version_upto, VersionError};
use crate::template::{handlebars_render, render_branch_name_by_tmp};

verus! {

// ---------------------------------------------------------------------------
// One line of `git branch` output
// ---------------------------------------------------------------------------

/// Whether the two-byte prefix of a listed branch is cut off: the line
/// starts with `* `, or it is longer than one byte.
pub open spec fn strip_applies(line: Seq<char>) -> bool {
    (line.len() >= 2 && line.take(2) == "* "@) || encode_utf8(line).len() > 1
}

/// Whether cutting two bytes off the line, where the cut applies, does not
/// fall inside a character.
pub open spec fn strip_allowed(line: Seq<char>) -> bool {
    strip_applies(line) ==> is_char_boundary(encode_utf8(line), 2)
}

/// A line of the listing after the cut: the text of the bytes from the
/// third on where the cut applies, the line itself otherwise.
pub open spec fn stripped_line(line: Seq<char>) -> Seq<char> {
    if strip_applies(line) {
        decode_utf8(encode_utf8(line).skip(2))
    } else {
        line
    }
}

/// Drops the two bytes that `git branch` puts before each name (`* ` for
/// the current branch, two spaces otherwise), from every line longer than
/// one byte.
pub fn branch_prefix_strip(branch_name: &str) -> (res: String)
    requires
        strip_allowed(branch_name@),
    ensures
        strip_applies(branch_name@) ==> encode_utf8(res@) == encode_utf8(branch_name@).skip(2),
        res@ == stripped_line(branch_name@),
{
    proof {
        reveal_strlit("* ");
    }
    if starts_with(branch_name, "* ") || branch_name.as_bytes().len() > 1 {
        let (_, rest) = branch_name.split_at(2);
        let res = rest.to_string();
        proof {
            assert(rest.spec_bytes() == encode_utf8(rest@));
            encode_utf8_decode_utf8(res@);
        }
        res
    } else {
        branch_name.to_string()
    }
}

// ---------------------------------------------------------------------------
// The issue id of the current branch
// ---------------------------------------------------------------------------

/// Why no issue id was found in the branch name.
#[derive(Clone, Copy, Debug, PartialEq, Eq)]
pub enum IssueIdError {
    /// The configured pattern is not a valid regular expression.
    InvalidPattern,
    /// The branch name does not match the pattern.
    NoMatch,
    /// The pattern matched but has no first capture group there.
    MissingCapture,
}

/// The issue id that `dev_issue_re` captures (group 1) in the branch name.
pub fn parse_branch_issue_id(config: &Config, branch: &str) -> (res: Result<String, IssueIdError>)
    ensures
        !regex_compiles(config.dev_issue_re@) ==> res == Err::<String, IssueIdError>(
            IssueIdError::InvalidPattern,
        ),
        regex_compiles(config.dev_issue_re@) && !regex_is_match(config.dev_issue_re@, branch@)
            ==> res == Err::<String, IssueIdError>(IssueIdError::NoMatch),
        regex_compiles(config.dev_issue_re@) && regex_is_match(config.dev_issue_re@, branch@)
            ==> match regex_capture(config.dev_issue_re@, branch@, 1) {
            Some(id) => res matches Ok(s) && s@ == id,
            None => res == Err::<String, IssueIdError>(IssueIdError::MissingCapture),
        },
{
    let re = match compile_pattern(config.dev_issue_re.as_str()) {
        Ok(re) => re,
        Err(_) => return Err(IssueIdError::InvalidPattern),
    };
    if pattern_is_match(&re, branch) {
        match pattern_capture(&re, branch, 1) {
            Some(id) => Ok(id),
            None => Err(IssueIdError::MissingCapture),
        }
    } else {
        Err(IssueIdError::NoMatch)
    }
}

// ---------------------------------------------------------------------------
// Scanning the remote branches
// ---------------------------------------------------------------------------

/// What the scan of the branch listing collects.
pub struct BranchScan {
    /// The names after `<remote>/` of the branches of the remote.
    pub all_branchs: Vec<String>,
    /// The version numbers (group 1 of the version pattern) found.
    pub version_numbers: Vec<String>,
    /// The stripped lines in which a version number was found.
    pub version_branchs: Vec<String>,
}

/// The three lists of a scan, as character sequences.
pub type ScanView = (Seq<Seq<char>>, Seq<Seq<char>>, Seq<Seq<char>>);

/// A stripped line as the scan sees it (before the byte cut is made, its
/// character form is whatever `branch_prefix_strip` gives).
pub open spec fn scan_line(
    acc: ScanView,
    stripped: Seq<char>,
    remote_pat: Seq<char>,
    version_pat: Seq<char>,
    skip_version_re: bool,
) -> Option<ScanView> {
    let all = if regex_is_match(remote_pat, stripped) {
        match regex_capture(remote_pat, stripped, 1) {
            Some(name) => Some(acc.0.push(name)),
            None => None,
        }
    } else {
        Some(acc.0)
    };
    match all {
        None => None,
        Some(all) => if regex_is_match(version_pat, stripped) && !skip_version_re {
            match regex_capture(version_pat, stripped, 1) {
                Some(number) => Some((all, acc.1.push(number), acc.2.push(stripped))),
                None => None,
            }
        } else {
            Some((all, acc.1, acc.2))
        },
    }
}

/// The scan over the stripped lines, in order; `None` once a pattern
/// matched without its first capture group.
pub open spec fn scan_lines(
    stripped: Seq<Seq<char>>,
    remote_pat: Seq<char>,
    version_pat: Seq<char>,
    skip_version_re: bool,
) -> Option<ScanView>
    decreases stripped.len(),
{
    if stripped.len() == 0 {
        Some((Seq::<Seq<char>>::empty(), Seq::<Seq<char>>::empty(), Seq::<Seq<char>>::empty()))
    } else {
        match scan_lines(stripped.drop_last(), remote_pat, version_pat, skip_version_re) {
            None => None,
            Some(acc) => scan_line(acc, stripped.last(), remote_pat, version_pat, skip_version_re),
        }
    }
}

/// Once a line fails, the scan stays failed.
proof fn lemma_scan_none_sticks(
    stripped: Seq<Seq<char>>,
    i: int,
    remote_pat: Seq<char>,
    version_pat: Seq<char>,
    skip: bool,
)
    requires
        0 <= i <= stripped.len(),
        scan_lines(stripped.take(i), remote_pat, version_pat, skip) is None,
    ensures
        scan_lines(stripped, remote_pat, version_pat, skip) is None,
    decreases stripped.len() - i,
{
    if i < stripped.len() {
        assert(stripped.take(i + 1).drop_last() == stripped.take(i));
        lemma_scan_none_sticks(stripped, i + 1, remote_pat, version_pat, skip);
    } else {
        assert(stripped.take(i) == stripped);
    }
}

/// The remote pattern: the remote's name, a slash, and the captured rest.
pub open spec fn remote_pattern(remote_name: Seq<char>) -> Seq<char> {
    remote_name + "/(.*)"@
}

/// Whether every line of a listing can be stripped.
pub open spec fn listing_strippable(listing: Seq<char>) -> bool {
    forall|i: int|
        0 <= i < split_on(listing, '\n').len() ==> #[trigger] strip_allowed(
            split_on(listing, '\n')[i],
        )
}

/// Whether every line of the listing can be cut (see `strip_allowed`).
pub fn listing_is_strippable(listing: &str) -> (res: bool)
    ensures
        res == listing_strippable(listing@),
{
    let lines = split_chars(listing, '\n');
    for i in 0..lines.len()
        invariant
            views(lines@) == split_on(listing@, '\n'),
            forall|j: int| 0 <= j < i ==> #[trigger] strip_allowed(split_on(listing@, '\n')[j]),
    {
        let line = lines[i].as_str();
        assert(views(lines@)[i as int] == line@);
        let bytes = line.as_bytes();
        proof {
            reveal_strlit("* ");
        }
        assert(bytes@ == encode_utf8(line@));
        let applies = starts_with(line, "* ") || bytes.len() > 1;
        assert(applies == strip_applies(line@));
        if applies && !line.is_char_boundary(2) {
            assert(!strip_allowed(split_on(listing@, '\n')[i as int]));
            return false;
        }
    }
    true
}

/// Scans already-stripped lines with the two compiled patterns.
fn scan_stripped(
    stripped: &Vec<String>,
    remote_re: &crate::pattern::Pattern,
    version_re: &crate::pattern::Pattern,
    skip_version_re: bool,
) -> (res: Option<BranchScan>)
    ensures
        match res {
            Some(scan) => scan_lines(views(stripped@), remote_re@, version_re@, skip_version_re)
                == Some((views(scan.all_branchs@), views(scan.version_numbers@), views(scan.version_branchs@))),
            None => scan_lines(views(stripped@), remote_re@, version_re@, skip_version_re) is None,
        },
{
    let mut all_branchs: Vec<String> = Vec::new();
    let mut version_numbers: Vec<String> = Vec::new();
    let mut version_branchs: Vec<String> = Vec::new();
    let ghost lines = views(stripped@);
    for i in 0..stripped.len()
        invariant
            lines == views(stripped@),
            scan_lines(lines.take(i as int), remote_re@, version_re@, skip_version_re) == Some(
                (views(all_branchs@), views(version_numbers@), views(version_branchs@)),
            ),
    {
        let line = &stripped[i];
        assert(lines.take(i + 1).drop_last() == lines.take(i as int));
        assert(lines.take(i + 1).last() == line@);
        let ghost acc = (views(all_branchs@), views(version_numbers@), views(version_branchs@));
        if pattern_is_match(remote_re, line.as_str()) {
            match pattern_capture(remote_re, line.as_str(), 1) {
                Some(name) => {
                    all_branchs.push(name);
                    assert(views(all_branchs@) == acc.0.push(name@));
                },
                None => {
                    proof {
                        lemma_scan_none_sticks(lines, i + 1, remote_re@, version_re@, skip_version_re);
                    }
                    return None;
                },
            }
        }
        if pattern_is_match(version_re, line.as_str()) && !skip_version_re {
            match pattern_capture(version_re, line.as_str(), 1) {
                Some(number) => {
                    version_numbers.push(number);
                    version_branchs.push(line.clone());
                    assert(views(version_numbers@) == acc.1.push(number@));
                    assert(views(version_branchs@) == acc.2.push(line@));
                },
                None => {
                    proof {
                        lemma_scan_none_sticks(lines, i + 1, remote_re@, version_re@, skip_version_re);
                    }
                    return None;
                },
            }
        }
    }
    assert(lines.take(stripped.len() as int) == lines);
    Some(BranchScan { all_branchs, version_numbers, version_branchs })
}

/// What the library settles on for a new issue branch's base.
pub enum TargetIssue {
    /// The user is to choose the base among the remote's branches.
    ChooseBase { remote: String, all_branchs: Vec<String> },
    /// The base is the branch rendered from the latest version.
    Latest { remote: String, branch: String, all_branchs: Vec<String> },
}

/// Why no base branch could be worked out.
#[derive(Clone, Copy, Debug, PartialEq, Eq)]
pub enum TargetError {
    /// The version pattern is not a valid regular expression.
    InvalidVersionPattern,
    /// The remote's name does not make a valid regular expression.
    InvalidRemotePattern,
    /// A pattern matched a line without its first capture group.
    MissingCapture,
    /// No listed branch matched the version pattern.
    NoVersionBranch,
    /// No latest version could be picked.
    Version(VersionError),
    /// The branch-name template could not be rendered.
    Render,
}

/// The lines of a listing after the two-byte cut.
pub open spec fn stripped_listing(listing: Seq<char>) -> Seq<Seq<char>> {
    split_on(listing, '\n').map_values(|l: Seq<char>| stripped_line(l))
}

/// Works out the base branch for a new issue branch from the output of
/// `git branch -r` (`listing`): with `choice` the user picks among the
/// remote's branches; otherwise the latest version found by `version_re`
/// is rendered through the template `new_branch_base_format`.
pub fn get_target_issue(
    choice: bool,
    version_re: &str,
    remote_name: &str,
    new_branch_base_format: &str,
    skip_version_re: bool,
    listing: &str,
) -> (res: Result<TargetIssue, TargetError>)
    requires
        listing_strippable(listing@),
    ensures
        !regex_compiles(version_re@) ==> res == Err::<TargetIssue, TargetError>(
            TargetError::InvalidVersionPattern,
        ),
        regex_compiles(version_re@) && !regex_compiles(remote_pattern(remote_name@)) ==> res
            == Err::<TargetIssue, TargetError>(TargetError::InvalidRemotePattern),
        regex_compiles(version_re@) && regex_compiles(remote_pattern(remote_name@))
            ==> target_outcome(
                res,
                scan_lines(
                    stripped_listing(listing@),
                    remote_pattern(remote_name@),
                    version_re@,
                    skip_version_re,
                ),
                choice,
                remote_name@,
                new_branch_base_format@,
                skip_version_re,
            ),
{
    let version_pat = match compile_pattern(version_re) {
        Ok(p) => p,
        Err(_) => return Err(TargetError::InvalidVersionPattern),
    };
    let restr = concat_str(remote_name, "/(.*)");
    let remote_pat = match compile_pattern(restr.as_str()) {
        Ok(p) => p,
        Err(_) => return Err(TargetError::InvalidRemotePattern),
    };
    let lines = split_chars(listing, '\n');
    let mut stripped: Vec<String> = Vec::new();
    for i in 0..lines.len()
        invariant
            views(lines@) == split_on(listing@, '\n'),
            listing_strippable(listing@),
            views(stripped@) == stripped_listing(listing@).take(i as int),
    {
        assert(views(lines@)[i as int] == lines@[i as int]@);
        assert(strip_allowed(split_on(listing@, '\n')[i as int]));
        let ghost before = views(stripped@);
        let s = branch_prefix_strip(lines[i].as_str());
        stripped.push(s);
        assert(views(stripped@) == before.push(s@));
        assert(stripped_listing(listing@).take(i + 1) == stripped_listing(listing@).take(i as int).push(s@));
    }
    assert(stripped_listing(listing@).take(lines.len() as int) == stripped_listing(listing@));
    let scan = match scan_stripped(&stripped, &remote_pat, &version_pat, skip_version_re) {
        Some(scan) => scan,
        None => return Err(TargetError::MissingCapture),
    };
    let remote = remote_name.to_string();
    let BranchScan { all_branchs, version_numbers, version_branchs } = scan;
    let re_branchs_empty = if skip_version_re {
        all_branchs.len() == 0
    } else {
        version_branchs.len() == 0
    };
    if choice {
        return Ok(TargetIssue::ChooseBase { remote, all_branchs });
    }
    if re_branchs_empty {
        return Err(TargetError::NoVersionBranch);
    }
    let (latest, _index) = match biggerst_version_number(version_numbers) {
        Ok(found) => found,
        Err(e) => return Err(TargetError::Version(e)),
    };
    match render_branch_name_by_tmp(latest.as_str(), new_branch_base_format) {
        Ok(branch) => Ok(TargetIssue::Latest { remote, branch, all_branchs }),
        Err(_) => Err(TargetError::Render),
    }
}

/// The outcome of `get_target_issue` once both patterns compiled, given
/// the scan of the stripped lines.
pub open spec fn target_outcome(
    res: Result<TargetIssue, TargetError>,
    scan: Option<ScanView>,
    choice: bool,
    remote_name: Seq<char>,
    template: Seq<char>,
    skip_version_re: bool,
) -> bool {
    match scan {
        None => res == Err::<TargetIssue, TargetError>(TargetError::MissingCapture),
        Some((all, numbers, version_branchs)) => {
            let re_branchs_empty = if skip_version_re {
                all.len() == 0
            } else {
                version_branchs.len() == 0
            };
            if choice {
                res matches Ok(TargetIssue::ChooseBase { remote, all_branchs }) && remote@
                    == remote_name && views(all_branchs@) == all
            } else if re_branchs_empty {
                res == Err::<TargetIssue, TargetError>(TargetError::NoVersionBranch)
            } else if numbers.len() == 0 {
                res == Err::<TargetIssue, TargetError>(TargetError::Version(VersionError::NoVersions))
            } else {
                match latest_version_upto(numbers, numbers.len() as int) {
                    None => res == Err::<TargetIssue, TargetError>(
                        TargetError::Version(VersionError::Unparsable),
                    ),
                    Some(v) => match first_index_of(numbers, v) {
                        None => res == Err::<TargetIssue, TargetError>(
                            TargetError::Version(VersionError::NotListed),
                        ),
                        Some(_) => match handlebars_render(template, v) {
                            None => res == Err::<TargetIssue, TargetError>(TargetError::Render),
                            Some(b) => res matches Ok(
                                TargetIssue::Latest { remote, branch, all_branchs },
                            ) && remote@ == remote_name && branch@ == b && views(all_branchs@)
                                == all,
                        },
                    },
                }
            }
        },
    }
}

/// The names captured after `<remote>/` (group 1 of `remote_pat`), one per
/// line that the pattern matches and that has the group, in line order.
pub open spec fn remote_names(lines: Seq<Seq<char>>, remote_pat: Seq<char>) -> Seq<Seq<char>>
    decreases lines.len(),
{
    if lines.len() == 0 {
        Seq::<Seq<char>>::empty()
    } else {
        let rest = remote_names(lines.drop_last(), remote_pat);
        if regex_is_match(remote_pat, lines.last()) {
            match regex_capture(remote_pat, lines.last(), 1) {
                Some(name) => rest.push(name),
                None => rest,
            }
        } else {
            rest
        }
    }
}

proof fn lemma_scan_collects_remote_names(
    lines: Seq<Seq<char>>,
    remote_pat: Seq<char>,
    version_pat: Seq<char>,
    skip: bool,
)
    ensures
        scan_lines(lines, remote_pat, version_pat, skip) matches Some(t) ==> t.0 == remote_names(
            lines,
            remote_pat,
        ),
    decreases lines.len(),
{
    if lines.len() > 0 {
        lemma_scan_collects_remote_names(lines.drop_last(), remote_pat, version_pat, skip);
    }
}

/// With `-c`, the branches offered are exactly the names captured after
/// `<remote>/` in the listing's lines, in line order, without the remote's
/// prefix (unless a line matched without the group, which fails).
pub proof fn lemma_choice_offers_remote_names(
    res: Result<TargetIssue, TargetError>,
    listing: Seq<char>,
    remote_name: Seq<char>,
    version_re: Seq<char>,
    template: Seq<char>,
    skip_version_re: bool,
)
    ensures
        target_outcome(
            res,
            scan_lines(
                stripped_listing(listing),
                remote_pattern(remote_name),
                version_re,
                skip_version_re,
            ),
            true,
            remote_name,
            template,
            skip_version_re,
        ) ==> res == Err::<TargetIssue, TargetError>(TargetError::MissingCapture) || (res matches Ok(
            TargetIssue::ChooseBase { remote, all_branchs },
        ) && remote@ == remote_name && views(all_branchs@) == remote_names(
            stripped_listing(listing),
            remote_pattern(remote_name),
        )),
{
    lemma_scan_collects_remote_names(
        stripped_listing(listing),
        remote_pattern(remote_name),
        version_re,
        skip_version_re,
    );
}

/// The branches offered with `-c` are the same list that comes back with the
/// latest version's branch when `-c` is not given.
pub proof fn lemma_choice_and_latest_share_branches(
    chosen: Result<TargetIssue, TargetError>,
    latest: Result<TargetIssue, TargetError>,
    scan: Option<ScanView>,
    remote_name: Seq<char>,
    template: Seq<char>,
    skip_version_re: bool,
)
    ensures
        target_outcome(chosen, scan, true, remote_name, template, skip_version_re) && target_outcome(
            latest,
            scan,
            false,
            remote_name,
            template,
            skip_version_re,
        ) && latest is Ok ==> (chosen matches Ok(TargetIssue::ChooseBase { all_branchs: a, .. })
            && latest matches Ok(TargetIssue::Latest { all_branchs: b, .. }) && views(a@) == views(
            b@,
        )),
{
}

// ---------------------------------------------------------------------------
// A new issue branch
// ---------------------------------------------------------------------------

/// Whether `a` occurs in `v`.
pub fn is_element_in_vec(a: &usize, v: &Vec<usize>) -> (res: bool)
    ensures
        res == v@.contains(*a),
{
    for i in 0..v.len()
        invariant
            forall|j: int| 0 <= j < i ==> v@[j] != *a,
    {
        if *a == v[i] {
            return true;
        }
    }
    false
}

/// The name of the branch for issue `number`: the configured header and
/// the number in decimal.
pub fn new_branch_name(header: &str, number: usize) -> (res: String)
    ensures
        res@ == header@ + decimal(number as nat),
{
    let digits = decimal_string(number as u64);
    concat_str(header, digits.as_str())
}

/// The remote-qualified name `remote/branch` of a base branch.
pub fn remote_branch_path(remote: &str, branch: &str) -> (res: String)
    ensures
        res@ == remote@ + "/"@ + branch@,
{
    let head = concat_str(remote, "/");
    concat_str(head.as_str(), branch)
}

/// The answers that confirm checking out an existing branch.
pub open spec fn is_yes(answer: Seq<char>) -> bool {
    answer == "y"@ || answer == "yes"@ || answer == "Y"@ || answer == "Yes"@
}

/// Whether the prompt's answer confirms.
pub fn is_yes_answer(answer: &str) -> (res: bool)
    ensures
        res == is_yes(answer@),
{
    str_eq(answer, "y") || str_eq(answer, "yes") || str_eq(answer, "Y") || str_eq(answer, "yes")
        || str_eq(answer, "Yes")
}

/// The pattern of git's message for a branch that already exists.
pub open spec fn branch_exists_pattern() -> Seq<char> {
    ".*already exists.*"@
}

/// Whether the error output of `git checkout -b` says the branch exists;
/// `None` when the fixed pattern is refused by the regex engine.
pub fn branch_already_exists(stderr: &str) -> (res: Option<bool>)
    ensures
        res is None <==> !regex_compiles(branch_exists_pattern()),
        res matches Some(b) ==> b == regex_is_match(branch_exists_pattern(), stderr@),
{
    match compile_pattern(".*already exists.*") {
        Ok(re) => Some(pattern_is_match(&re, stderr)),
        Err(_) => None,
    }
}

} // verus!
