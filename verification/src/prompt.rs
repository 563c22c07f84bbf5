//! The system prompts the agent runs under.
//!
//! The kernel prompt is kept byte-stable across sessions so the provider's
//! prompt cache keeps hitting; workspace rules (`AGENTS.md`) go in a
//! separate system message after it.

use vstd::prelude::*;

use crate::compressor::{floor_count, prefix_bytes};
use crate::text::{contains_spec, decimal, decimal_spec, lit, occurs_at, push_str, trim_spec, utf8_len};

verus! {

/// Maximum number of ReAct iterations per chat turn.
pub const MAX_ITER: usize = 25;

/// Maximum nesting depth for sub-agent delegation.
pub const MAX_SUBAGENT_DEPTH: usize = 3;

/// Hard cap on injected workspace-rules bytes.
pub const WORKSPACE_RULES_CAP: usize = 8192;

/// The kernel's opening line.
pub const KERNEL_INTRO: &'static str = "You are SeekCLI, a terminal-based Harness Agent powered by DeepSeek V4.\n\n";

pub const KERNEL_HEAD: &'static str = "You operate inside a ReAct loop: think -> call tools -> observe results -> think again.\nEach turn you may either:\n  1. Emit one or more tool_calls to gather information or take action, OR\n  2. Emit your final textual answer (which stops the loop).\n\n# Tools available\n- read_file / write_file / list_dir : filesystem operations (single level for list_dir)\n- run_shell : execute shell commands; captures stdout and stderr\n- invoke_agent : delegate to a typed sub-agent. Pass subagent_type:\n    - explore : read-only investigation (list dirs, read files, grep). Fastest, safest.\n    - general : full read/write/shell for end-to-end focused subtasks.\n- load_skill : activate a previously-saved skill (e.g. translator) mid-conversation.\n- create_skill : draft a NEW skill proposal as `<name>/SKILL.md` (Markdown body\n                 with YAML frontmatter). The proposal goes to the user's review\n                 queue; it is NOT auto-activated. After creating, instruct the\n                 user to run `/skill proposals` and `/skill accept <name>`.\n                 Tip: write `system_prompt` as readable Markdown (headings,\n                 lists, code fences welcome) \u{2014} it will be rendered verbatim\n                 into the body. If a tool result starts with `[NAME COLLISION]`,\n                 the chosen name conflicts with an existing skill \u{2014} pick a\n                 different name.\n\n# How to choose\n- For broad exploration / multi-file scans -> invoke_agent(\"explore\", ...) (avoids context bloat)\n- For end-to-end small jobs in isolation -> invoke_agent(\"general\", ...)\n- For one-off operations -> call the matching tool directly\n- For long edits -> read_file -> reason -> write_file\n- Stop calling tools as soon as you have enough information to answer.\n\n# Output discipline\n- Be terse. Reference code as `file:line` so the user can jump there.\n- Do not narrate \"I will now call X\" -- just call it.\n- When you decide no more tools are needed, output the final answer as plain text.\n\n# Safety\n- You are operating on the user's local machine.\n- Destructive shell commands (rm -rf, sudo, curl|sh, etc.) are intercepted and\n  require the user's interactive y/N approval.\n- Filesystem writes outside the current working directory are rejected.\n- If a tool result starts with `[USER DENIED]` or `[PATH DENIED]`, **do not retry**\n  the same call. Either propose a safer alternative or ask the user how to proceed.\n- A `[Recovery]` line appended to a failed tool result is a debugging SOP from the\n  harness. Follow it before retrying \u{2014} do not ignore it and re-issue the same call.\n- A `[BAD ARGS]` result means your tool arguments were not valid JSON; re-emit the\n  call with a single well-formed JSON object.\n\n# Stopping conditions\n- Maximum ";

pub const KERNEL_MIDDLE: &'static str = " iterations per chat turn.\n- Maximum sub-agent nesting depth: ";

pub const KERNEL_TAIL: &'static str = ".\n\n# Sub-agent context\n- A sub-agent receives only the prompt you give it. It has no access to your conversation.\n- Pass all required context (file paths, prior findings, goals) in the prompt.\n- Sub-agents cannot spawn further sub-agents indefinitely; depth is limited.\n- If a sub-agent replies `[PROMPT INCOMPLETE]`, the prompt you gave it referred to something it\n  cannot see. Treat that as a refusal, not a finding: invoke it again with the missing context written out.\n";

/// The kernel prompt: the fixed text with the iteration and depth limits.
pub open spec fn agent_prompt_spec() -> Seq<char> {
    KERNEL_INTRO@ + KERNEL_HEAD@ + decimal_spec(MAX_ITER as nat) + KERNEL_MIDDLE@ + decimal_spec(MAX_SUBAGENT_DEPTH as nat) + KERNEL_TAIL@
}

/// The base system prompt, kept stable across sessions.
pub fn agent_system_prompt() -> (r: String)
    ensures
        r@ == agent_prompt_spec(),
{
    let mut r = lit(KERNEL_INTRO);
    push_str(&mut r, KERNEL_HEAD);
    push_str(&mut r, decimal(MAX_ITER as u64).as_str());
    push_str(&mut r, KERNEL_MIDDLE);
    push_str(&mut r, decimal(MAX_SUBAGENT_DEPTH as u64).as_str());
    push_str(&mut r, KERNEL_TAIL);
    r
}

/// The parent is told what a sub-agent's `[PROMPT INCOMPLETE]` means, so a
/// refusal is never read as a finding.
pub proof fn the_parent_knows_the_incomplete_marker()
    ensures
        contains_spec(agent_prompt_spec(), crate::registry::PROMPT_INCOMPLETE@),
{
    reveal_strlit(".\n\n# Sub-agent context\n- A sub-agent receives only the prompt you give it. It has no access to your conversation.\n- Pass all required context (file paths, prior findings, goals) in the prompt.\n- Sub-agents cannot spawn further sub-agents indefinitely; depth is limited.\n- If a sub-agent replies `[PROMPT INCOMPLETE]`, the prompt you gave it referred to something it\n  cannot see. Treat that as a refusal, not a finding: invoke it again with the missing context written out.\n");
    reveal_strlit("[PROMPT INCOMPLETE]");
    let head = KERNEL_INTRO@ + KERNEL_HEAD@ + decimal_spec(MAX_ITER as nat) + KERNEL_MIDDLE@ + decimal_spec(MAX_SUBAGENT_DEPTH as nat);
    let s = agent_prompt_spec();
    let k: int = head.len() + 296int;
    assert(KERNEL_TAIL@.subrange(296, 315) =~= crate::registry::PROMPT_INCOMPLETE@);
    assert(s.subrange(k, k + 19) =~= KERNEL_TAIL@.subrange(296, 315));
    assert(occurs_at(s, crate::registry::PROMPT_INCOMPLETE@, k));
}

/// The rules files looked for in the working directory, in order; the first
/// with content wins.
pub fn workspace_rule_files() -> (r: Vec<&'static str>)
    ensures
        r@.map_values(|n: &'static str| n@) == seq!["AGENTS.md"@],
{
    let r = vec!["AGENTS.md"];
    assert(r@.map_values(|n: &'static str| n@) =~= seq!["AGENTS.md"@]);
    r
}

/// The system message for rules file `name` holding `raw`: none when it is
/// blank, else its trimmed text, cut at the last char boundary within the
/// cap (with a marker) when longer, under a heading naming the file.
pub open spec fn rules_spec(name: Seq<char>, raw: Seq<char>) -> Option<Seq<char>> {
    let t = trim_spec(raw);
    if t.len() == 0 {
        None
    } else {
        let body = if utf8_len(t) > WORKSPACE_RULES_CAP {
            t.take(floor_count(t, WORKSPACE_RULES_CAP as nat) as int) + "\n\n[...workspace rules truncated at "@
                + decimal_spec(WORKSPACE_RULES_CAP as nat) + " bytes...]"@
        } else {
            t
        };
        Some("# Workspace Rules ("@ + name + ")\n\nThe following project-specific conventions were loaded from `"@ + name
            + "` in the working directory. Treat them as authoritative for this project.\n\n"@ + body)
    }
}

/// The workspace-rules system message for file `name` with content `raw`.
pub fn rules_message(name: &str, raw: &str) -> (r: Option<String>)
    ensures
        match r {
            Some(m) => rules_spec(name@, raw@) == Some(m@),
            None => rules_spec(name@, raw@) is None,
        },
{
    let t = crate::text::trim(raw);
    let cs = crate::text::chars_of(t.as_str());
    if cs.len() == 0 {
        return None;
    }
    let n = crate::compressor::utf8_length(cs.as_slice());
    let body = if n > WORKSPACE_RULES_CAP {
        let (_, k) = crate::compressor::floor_in(cs.as_slice(), WORKSPACE_RULES_CAP);
        let mut b = crate::text::string_of(&cs.as_slice()[0..k]);
        assert(cs@.subrange(0, k as int) =~= t@.take(k as int));
        push_str(&mut b, "\n\n[...workspace rules truncated at ");
        push_str(&mut b, decimal(WORKSPACE_RULES_CAP as u64).as_str());
        push_str(&mut b, " bytes...]");
        b
    } else {
        t
    };
    let mut m = lit("# Workspace Rules (");
    push_str(&mut m, name);
    push_str(&mut m, ")\n\nThe following project-specific conventions were loaded from `");
    push_str(&mut m, name);
    push_str(&mut m, "` in the working directory. Treat them as authoritative for this project.\n\n");
    push_str(&mut m, body.as_str());
    Some(m)
}

} // verus!
