//! Recovery hints for failed tool calls.
//!
//! When a tool result signals a failure, the raw error alone invites the
//! model to guess a new argument and retry blindly. The failure is
//! classified by tool and error shape, and an actionable hint is appended
//! that points at the right next call. Successful results get no hint.

use vstd::prelude::*;

use crate::text::{
    contains_spec, lit, lowercase, occurs_at, push_str, str_contains, str_eq, str_starts_with, to_lowercase,
};

verus! {

pub const BAD_ARGS_HINT: &'static str = "[Recovery] Re-emit this tool call with a single well-formed JSON object for `arguments`. Check for unescaped quotes, trailing commas, or missing braces.";

pub const READ_FILE_HINT: &'static str = "[Recovery] The file could not be read. Do NOT guess another path. First call list_dir on the parent directory (or run_shell with `find . -name '<file>'`) to confirm the exact path, then retry read_file.";

pub const LIST_DIR_HINT: &'static str = "[Recovery] The directory could not be listed. Verify it exists with run_shell `ls -la <parent>` before retrying, or list a parent directory to discover the correct name.";

pub const WRITE_ARGS_HINT: &'static str = "[Recovery] write_file requires BOTH `path` and `content`. Re-emit the call with both fields populated.";

pub const WRITE_FAILED_HINT: &'static str = "[Recovery] The write failed (permissions or invalid path). Confirm the target directory with list_dir and ensure the path is inside the working directory before retrying.";

pub const SHELL_NOT_FOUND_HINT: &'static str = "[Recovery] The command was not found. Do NOT retry the same command. Verify the tool exists first (e.g. run_shell `command -v <tool>` or `which <tool>`); if missing, choose an alternative or install path.";

pub const SHELL_EXIT_HINT: &'static str = "[Recovery] The command exited non-zero. Read the STDERR above for the root cause before retrying \u{2014} adjust the command rather than re-running it unchanged.";

pub const GENERIC_HINT: &'static str = "[Recovery] This tool call errored. Inspect the message above and gather missing information (read_file / list_dir) before retrying with corrected arguments.";

/// The hint a tool-specific failure shape earns, judged on the lowercased
/// result.
pub open spec fn tool_hint(tool: Seq<char>, lower: Seq<char>) -> Option<Seq<char>> {
    if tool == "read_file"@ {
        if contains_spec(lower, "failed to read file"@) || contains_spec(lower, "no such file"@)
            || contains_spec(lower, "missing 'path'"@) {
            Some(READ_FILE_HINT@)
        } else {
            None
        }
    } else if tool == "list_dir"@ {
        if contains_spec(lower, "failed to read directory"@) || contains_spec(lower, "missing 'path'"@) {
            Some(LIST_DIR_HINT@)
        } else {
            None
        }
    } else if tool == "write_file"@ {
        if contains_spec(lower, "missing 'path'"@) || contains_spec(lower, "missing 'content'"@) {
            Some(WRITE_ARGS_HINT@)
        } else if contains_spec(lower, "failed to create parent"@) || contains_spec(lower, "failed to write"@)
            || contains_spec(lower, "permission denied"@) {
            Some(WRITE_FAILED_HINT@)
        } else {
            None
        }
    } else if tool == "run_shell"@ {
        if contains_spec(lower, "command not found"@) || contains_spec(lower, "not found"@) {
            Some(SHELL_NOT_FOUND_HINT@)
        } else if contains_spec(lower, "command failed with exit code"@) {
            Some(SHELL_EXIT_HINT@)
        } else {
            None
        }
    } else {
        None
    }
}

/// The recovery hint for `result` of tool `tool`, where `lower` is the
/// lowercased result: none for denials (they carry their own "do not
/// retry" guidance), one for malformed arguments whatever the tool, then a
/// tool-specific one, then a generic one for dispatcher errors.
pub open spec fn hint_spec(tool: Seq<char>, result: Seq<char>, lower: Seq<char>) -> Option<Seq<char>> {
    if occurs_at(result, "[USER DENIED]"@, 0) || occurs_at(result, "[PATH DENIED]"@, 0) {
        None
    } else if occurs_at(result, "[BAD ARGS]"@, 0) {
        Some(BAD_ARGS_HINT@)
    } else {
        match tool_hint(tool, lower) {
            Some(h) => Some(h),
            None => if occurs_at(result, "Error executing tool "@, 0) {
                Some(GENERIC_HINT@)
            } else {
                None
            },
        }
    }
}

fn tool_hint_of(tool_name: &str, lower: &str) -> (r: Option<String>)
    ensures
        match r {
            Some(h) => tool_hint(tool_name@, lower@) == Some(h@),
            None => tool_hint(tool_name@, lower@) is None,
        },
{
    if str_eq(tool_name, "read_file") {
        if str_contains(lower, "failed to read file") || str_contains(lower, "no such file")
            || str_contains(lower, "missing 'path'") {
            return Some(lit(READ_FILE_HINT));
        }
        None
    } else if str_eq(tool_name, "list_dir") {
        if str_contains(lower, "failed to read directory") || str_contains(lower, "missing 'path'") {
            return Some(lit(LIST_DIR_HINT));
        }
        None
    } else if str_eq(tool_name, "write_file") {
        if str_contains(lower, "missing 'path'") || str_contains(lower, "missing 'content'") {
            return Some(lit(WRITE_ARGS_HINT));
        }
        if str_contains(lower, "failed to create parent") || str_contains(lower, "failed to write")
            || str_contains(lower, "permission denied") {
            return Some(lit(WRITE_FAILED_HINT));
        }
        None
    } else if str_eq(tool_name, "run_shell") {
        if str_contains(lower, "command not found") || str_contains(lower, "not found") {
            return Some(lit(SHELL_NOT_FOUND_HINT));
        }
        if str_contains(lower, "command failed with exit code") {
            return Some(lit(SHELL_EXIT_HINT));
        }
        None
    } else {
        None
    }
}

/// The recovery hint for `result`, given its lowercased form `lower`.
pub fn hint_with_lowered(tool_name: &str, result: &str, lower: &str) -> (r: Option<String>)
    ensures
        match r {
            Some(h) => hint_spec(tool_name@, result@, lower@) == Some(h@),
            None => hint_spec(tool_name@, result@, lower@) is None,
        },
{
    if str_starts_with(result, "[USER DENIED]") || str_starts_with(result, "[PATH DENIED]") {
        return None;
    }
    if str_starts_with(result, "[BAD ARGS]") {
        return Some(lit(BAD_ARGS_HINT));
    }
    match tool_hint_of(tool_name, lower) {
        Some(h) => Some(h),
        None => {
            if str_starts_with(result, "Error executing tool ") {
                Some(lit(GENERIC_HINT))
            } else {
                None
            }
        },
    }
}

/// Inspect a tool result and return a recovery hint, if the failure is one
/// this module recognizes.
pub fn hint_for(tool_name: &str, result: &str) -> (r: Option<String>)
    ensures
        match r {
            Some(h) => hint_spec(tool_name@, result@, lowercase(result@)) == Some(h@),
            None => hint_spec(tool_name@, result@, lowercase(result@)) is None,
        },
{
    let lower = to_lowercase(result);
    hint_with_lowered(tool_name, result, lower.as_str())
}

/// `result`, followed by a blank line and the hint when there is one.
pub open spec fn augmented(result: Seq<char>, hint: Option<Seq<char>>) -> Seq<char> {
    match hint {
        Some(h) => result + "\n\n"@ + h,
        None => result,
    }
}

/// Append a recovery hint to `result` if the failure is recognized.
pub fn augment(tool_name: &str, result: String) -> (r: String)
    ensures
        r@ == augmented(result@, hint_spec(tool_name@, result@, lowercase(result@))),
{
    match hint_for(tool_name, result.as_str()) {
        Some(hint) => {
            let mut out = result;
            push_str(&mut out, "\n\n");
            push_str(&mut out, hint.as_str());
            out
        },
        None => result,
    }
}

/// A hint is never owed to a denied call, whatever the tool: denials carry
/// their own "do not retry" guidance, and a hint would contradict it.
pub proof fn denials_get_no_hint(tool: Seq<char>, result: Seq<char>, lower: Seq<char>)
    requires
        occurs_at(result, "[USER DENIED]"@, 0) || occurs_at(result, "[PATH DENIED]"@, 0),
    ensures
        hint_spec(tool, result, lower) is None,
{
}

/// Augmenting only ever appends: the original result is kept whole as the
/// prefix, and it is returned unchanged exactly when no hint applies.
pub proof fn augment_only_appends(result: Seq<char>, hint: Option<Seq<char>>)
    ensures
        augmented(result, hint).take(result.len() as int) == result,
        hint is None ==> augmented(result, hint) == result,
        hint is Some ==> augmented(result, hint).len() > result.len(),
{
    match hint {
        Some(h) => {
            assert((result + "\n\n"@ + h).take(result.len() as int) =~= result);
            reveal_strlit("\n\n");
        },
        None => {
            assert(result.take(result.len() as int) =~= result);
        },
    }
}

/// A shell command that ran and exited non-zero earns the exit-code hint:
/// for `run_shell`, whenever the lowercased result reports a failed exit
/// code and nothing was "not found", the hint says to read the stderr and
/// adjust the command, unless the call was denied or its arguments were
/// malformed.
pub proof fn a_failed_shell_command_gets_the_exit_hint(result: Seq<char>)
    requires
        !occurs_at(result, "[USER DENIED]"@, 0),
        !occurs_at(result, "[PATH DENIED]"@, 0),
        !occurs_at(result, "[BAD ARGS]"@, 0),
        contains_spec(lowercase(result), "command failed with exit code"@),
        !contains_spec(lowercase(result), "not found"@),
    ensures
        hint_spec("run_shell"@, result, lowercase(result)) == Some(SHELL_EXIT_HINT@),
{
    reveal_strlit("run_shell");
    reveal_strlit("read_file");
    reveal_strlit("list_dir");
    reveal_strlit("write_file");
    assert("run_shell"@ != "read_file"@ && "run_shell"@ != "list_dir"@ && "run_shell"@ != "write_file"@) by {
        assert("run_shell"@[1] != "read_file"@[1]);
        assert("run_shell"@[0] != "list_dir"@[0]);
        assert("run_shell"@[0] != "write_file"@[0]);
    }
    reveal_strlit("not found");
    reveal_strlit("command not found");
    let lower = lowercase(result);
    if contains_spec(lower, "command not found"@) {
        let i = choose|i: int| occurs_at(lower, "command not found"@, i);
        assert(occurs_at(lower, "not found"@, i + 8)) by {
            assert forall|k: int| 0 <= k < 9 implies #[trigger] lower.subrange(i + 8, i + 17)[k] == "not found"@[k] by {
                assert(lower.subrange(i, i + 17)[8 + k] == "command not found"@[8 + k]);
            }
            assert(lower.subrange(i + 8, i + 17) =~= "not found"@);
        }
    }
}

/// A shell command that was not found earns the not-found hint, unless the
/// call was denied or its arguments were malformed.
pub proof fn a_missing_shell_command_gets_the_not_found_hint(result: Seq<char>)
    requires
        !occurs_at(result, "[USER DENIED]"@, 0),
        !occurs_at(result, "[PATH DENIED]"@, 0),
        !occurs_at(result, "[BAD ARGS]"@, 0),
        contains_spec(lowercase(result), "not found"@),
    ensures
        hint_spec("run_shell"@, result, lowercase(result)) == Some(SHELL_NOT_FOUND_HINT@),
{
    reveal_strlit("run_shell");
    reveal_strlit("read_file");
    reveal_strlit("list_dir");
    reveal_strlit("write_file");
    assert("run_shell"@ != "read_file"@ && "run_shell"@ != "list_dir"@ && "run_shell"@ != "write_file"@) by {
        assert("run_shell"@[1] != "read_file"@[1]);
        assert("run_shell"@[0] != "list_dir"@[0]);
        assert("run_shell"@[0] != "write_file"@[0]);
    }
}

} // verus!
