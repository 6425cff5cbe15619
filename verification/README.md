# ncommit

A command-line helper for GitHub-issue driven git work: it commits with a
message built from the issue that the current branch names, creates issue
branches from the latest release branch, opens pull requests against a fork,
and moves issues between label stages.

- `src/` — the library, verified with Verus: branch-name parsing, the scan of
  `git branch -r` output, the choice of the latest version branch, the commit
  message and arguments, the label-stage plan, the pull-request and browser
  commands, and the selection of the project configuration. Regular
  expressions (`regex`), version comparison (`version_compare`) and template
  rendering (`handlebars`) are called through small trusted wrappers whose
  contracts name the results.
- `app/` — the program: argument parsing, the configuration file, running
  `git` and `gh`, prompts and coloured output.
- `tests/` — tests of the library on concrete values.
