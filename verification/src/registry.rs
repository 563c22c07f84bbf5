//! Sub-agent templates.
//!
//! A template is a `(name, system prompt, allowed tools)` bundle defined in
//! code; each delegation creates a fresh instance from one, with its own
//! context, that returns a summary and ends. A template is marked
//! parallel-safe only when it cannot write: two writers editing one file
//! interleave rather than conflict.

use vstd::prelude::*;

use crate::text::{contains_spec, occurs_at};

verus! {

/// What a sub-agent replies when its prompt refers to something it cannot
/// see. The parent's prompt says what it means.
pub const PROMPT_INCOMPLETE: &'static str = "[PROMPT INCOMPLETE]";

pub const EXPLORE_PROMPT: &'static str = "You are an exploration sub-agent for SeekCLI.\n\nYour job: investigate the user's specific question and return a concise\nsummary with file:line citations. You CANNOT write files, modify state, or\nspawn further sub-agents.\n\nAvailable tools: read_file, list_dir, glob, grep, run_shell (read-only only).\n\nRules:\n- Use glob / grep for discovery. They respect .gitignore and are far cheaper\n  than shelling out or walking trees with list_dir.\n- Cite file:line. Be terse. The parent agent will reformat for the user.\n- Stop calling tools as soon as you have enough evidence to answer.\n- Do NOT propose changes; only investigate.\n- The prompt is all you get: you cannot see the conversation that produced it.\n  If it refers to something you have no way to resolve (`the file above`,\n  `the error we just saw`, `continue what you started`), reply immediately\n  with `[PROMPT INCOMPLETE]` and say exactly what is missing. Do NOT guess.\n  Guessing produces a confident summary of the wrong thing, and the parent\n  has no way to tell that from a right one.\n";

pub const GENERAL_PROMPT: &'static str = "You are a general-purpose sub-agent for SeekCLI.\n\nYour job: complete the user's specific subtask end-to-end and return a\nconcise summary. You can read, write, and run shell \u{2014} same as the parent\nagent \u{2014} but you CANNOT spawn further sub-agents.\n\nAvailable tools: read_file, write_file, edit_file, list_dir, glob, grep,\nrun_shell.\n\nRules:\n- Use glob / grep for discovery before reading files whole.\n- Stay focused on the subtask. Don't expand scope.\n- File writes are restricted to the current working directory.\n- Dangerous shell commands (rm -rf, sudo, ...) require user approval.\n- Cite file:line. Be terse. Parent agent will reformat for the user.\n- Stop calling tools as soon as the subtask is done.\n- The prompt is all you get: you cannot see the conversation that produced it.\n  If it refers to something you have no way to resolve (`the file above`,\n  `the error we just saw`, `continue what you started`), reply immediately\n  with `[PROMPT INCOMPLETE]` and say exactly what is missing. Do NOT guess.\n  Guessing produces a confident summary of the wrong thing, and the parent\n  has no way to tell that from a right one.\n";

/// A sub-agent template.
#[derive(Debug, Clone)]
pub struct SubAgentTemplate {
    pub name: &'static str,
    pub description: &'static str,
    pub system_prompt: &'static str,
    pub allowed_tools: Vec<&'static str>,
    pub max_iter: usize,
    /// Whether several may run at once: declared for what the template is
    /// for (looking, not changing), not derived from its tools.
    pub parallel_safe: bool,
}

/// The parts of a template its contracts speak of.
pub struct TemplateView {
    pub name: Seq<char>,
    pub description: Seq<char>,
    pub system_prompt: Seq<char>,
    pub allowed_tools: Seq<Seq<char>>,
    pub max_iter: nat,
    pub parallel_safe: bool,
}

impl View for SubAgentTemplate {
    type V = TemplateView;

    open spec fn view(&self) -> TemplateView {
        TemplateView {
            name: self.name@,
            description: self.description@,
            system_prompt: self.system_prompt@,
            allowed_tools: self.allowed_tools@.map_values(|t: &'static str| t@),
            max_iter: self.max_iter as nat,
            parallel_safe: self.parallel_safe,
        }
    }
}

pub open spec fn explore_spec() -> TemplateView {
    TemplateView {
        name: "explore"@,
        description: "Read-only exploration: list dirs, read files, grep. Fastest, safest."@,
        system_prompt: EXPLORE_PROMPT@,
        allowed_tools: seq!["read_file"@, "list_dir"@, "glob"@, "grep"@, "run_shell"@],
        max_iter: 15,
        parallel_safe: true,
    }
}

pub open spec fn general_spec() -> TemplateView {
    TemplateView {
        name: "general"@,
        description: "Full read/write/shell focused subtask. Use for end-to-end small jobs."@,
        system_prompt: GENERAL_PROMPT@,
        allowed_tools: seq!["read_file"@, "write_file"@, "edit_file"@, "list_dir"@, "glob"@, "grep"@, "run_shell"@],
        max_iter: 20,
        parallel_safe: false,
    }
}

/// Every registered template, in order.
pub open spec fn templates_spec() -> Seq<TemplateView> {
    seq![explore_spec(), general_spec()]
}

pub open spec fn views_of(v: Seq<SubAgentTemplate>) -> Seq<TemplateView> {
    v.map_values(|t: SubAgentTemplate| t@)
}

fn explore() -> (t: SubAgentTemplate)
    ensures
        t@ == explore_spec(),
{
    let t = SubAgentTemplate {
        name: "explore",
        description: "Read-only exploration: list dirs, read files, grep. Fastest, safest.",
        system_prompt: EXPLORE_PROMPT,
        allowed_tools: vec!["read_file", "list_dir", "glob", "grep", "run_shell"],
        max_iter: 15,
        parallel_safe: true,
    };
    assert(t@.allowed_tools =~= explore_spec().allowed_tools);
    t
}

fn general() -> (t: SubAgentTemplate)
    ensures
        t@ == general_spec(),
{
    let t = SubAgentTemplate {
        name: "general",
        description: "Full read/write/shell focused subtask. Use for end-to-end small jobs.",
        system_prompt: GENERAL_PROMPT,
        allowed_tools: vec!["read_file", "write_file", "edit_file", "list_dir", "glob", "grep", "run_shell"],
        max_iter: 20,
        parallel_safe: false,
    };
    assert(t@.allowed_tools =~= general_spec().allowed_tools);
    t
}

/// Every registered template.
pub fn subagents() -> (r: Vec<SubAgentTemplate>)
    ensures
        views_of(r@) == templates_spec(),
{
    let r = vec![explore(), general()];
    assert(views_of(r@) =~= templates_spec());
    r
}

/// The first template named `name`.
pub open spec fn lookup_spec(name: Seq<char>) -> Option<TemplateView> {
    if name == explore_spec().name {
        Some(explore_spec())
    } else if name == general_spec().name {
        Some(general_spec())
    } else {
        None
    }
}

/// The template named `name`, if one is registered.
pub fn lookup(name: &str) -> (r: Option<SubAgentTemplate>)
    ensures
        match r {
            Some(t) => lookup_spec(name@) == Some(t@),
            None => lookup_spec(name@) is None,
        },
{
    let mut all = subagents();
    let mut i: usize = 0;
    while i < all.len()
        invariant
            views_of(all@) == templates_spec(),
            i <= all@.len(),
            forall|j: int| 0 <= j < i ==> name@ != #[trigger] templates_spec()[j].name,
        decreases all.len() - i,
    {
        assert(all@[i as int]@ == templates_spec()[i as int]);
        if crate::text::str_eq(all[i].name, name) {
            proof {
                if i == 1 {
                    assert(name@ != templates_spec()[0].name);
                }
            }
            let ghost before = all@;
            assert(views_of(before).len() == before.len());
            assert(before.len() == 2);
            let t = all.remove(i);
            assert(t == before[i as int]);
            assert(views_of(before)[i as int] == t@);
            assert(t@ == templates_spec()[i as int]);
            proof {
                if i == 0 {
                    assert(templates_spec()[0] == explore_spec());
                } else {
                    assert(i == 1);
                    assert(templates_spec()[1] == general_spec());
                    assert(templates_spec()[0] == explore_spec());
                    assert(name@ != explore_spec().name);
                }
            }
            return Some(t);
        }
        i += 1;
    }
    assert(name@ != templates_spec()[0].name);
    assert(name@ != templates_spec()[1].name);
    None
}

/// `(name, description)` of every template, to show the model its choices.
pub fn catalog() -> (r: Vec<(&'static str, &'static str)>)
    ensures
        r@.len() == templates_spec().len(),
        forall|i: int| 0 <= i < r@.len() ==> #[trigger] r@[i].0@ == templates_spec()[i].name
            && r@[i].1@ == templates_spec()[i].description,
{
    let all = subagents();
    let mut r: Vec<(&'static str, &'static str)> = Vec::new();
    let mut i: usize = 0;
    while i < all.len()
        invariant
            views_of(all@) == templates_spec(),
            i <= all@.len(),
            r@.len() == i,
            forall|j: int| 0 <= j < i ==> #[trigger] r@[j].0@ == templates_spec()[j].name
                && r@[j].1@ == templates_spec()[j].description,
        decreases all.len() - i,
    {
        assert(all@[i as int]@ == templates_spec()[i as int]);
        r.push((all[i].name, all[i].description));
        i += 1;
    }
    r
}

/// Whether a template may write files.
pub open spec fn writes(t: TemplateView) -> bool {
    t.allowed_tools.contains("write_file"@) || t.allowed_tools.contains("edit_file"@)
}

/// No template that can write is parallel-safe, and at least one template
/// is: fan-out can happen, and never for writers.
pub proof fn only_readers_run_in_parallel()
    ensures
        forall|i: int| 0 <= i < templates_spec().len() ==> (writes(#[trigger] templates_spec()[i]) ==> !templates_spec()[i].parallel_safe),
        exists|i: int| 0 <= i < templates_spec().len() && #[trigger] templates_spec()[i].parallel_safe,
{
    reveal_strlit("read_file");
    reveal_strlit("list_dir");
    reveal_strlit("glob");
    reveal_strlit("grep");
    reveal_strlit("run_shell");
    reveal_strlit("write_file");
    reveal_strlit("edit_file");
    let e = explore_spec();
    assert(!e.allowed_tools.contains("write_file"@)) by {
        if e.allowed_tools.contains("write_file"@) {
            let k = choose|k: int| 0 <= k < e.allowed_tools.len() && e.allowed_tools[k] == "write_file"@;
            assert(e.allowed_tools[k].len() != "write_file"@.len() || e.allowed_tools[k][0] != 'w');
        }
    }
    assert(!e.allowed_tools.contains("edit_file"@)) by {
        if e.allowed_tools.contains("edit_file"@) {
            let k = choose|k: int| 0 <= k < e.allowed_tools.len() && e.allowed_tools[k] == "edit_file"@;
            assert(e.allowed_tools[k].len() != "edit_file"@.len() || e.allowed_tools[k][0] != 'e');
        }
    }
    assert(templates_spec()[0].parallel_safe);
}

/// Every template tells its sub-agent to answer an unresolvable prompt with
/// the marker, instead of guessing.
pub proof fn every_template_reports_an_incomplete_prompt()
    ensures
        forall|i: int| 0 <= i < templates_spec().len() ==> contains_spec(#[trigger] templates_spec()[i].system_prompt, PROMPT_INCOMPLETE@),
{
    reveal_strlit("You are an exploration sub-agent for SeekCLI.\n\nYour job: investigate the user's specific question and return a concise\nsummary with file:line citations. You CANNOT write files, modify state, or\nspawn further sub-agents.\n\nAvailable tools: read_file, list_dir, glob, grep, run_shell (read-only only).\n\nRules:\n- Use glob / grep for discovery. They respect .gitignore and are far cheaper\n  than shelling out or walking trees with list_dir.\n- Cite file:line. Be terse. The parent agent will reformat for the user.\n- Stop calling tools as soon as you have enough evidence to answer.\n- Do NOT propose changes; only investigate.\n- The prompt is all you get: you cannot see the conversation that produced it.\n  If it refers to something you have no way to resolve (`the file above`,\n  `the error we just saw`, `continue what you started`), reply immediately\n  with `[PROMPT INCOMPLETE]` and say exactly what is missing. Do NOT guess.\n  Guessing produces a confident summary of the wrong thing, and the parent\n  has no way to tell that from a right one.\n");
    reveal_strlit("You are a general-purpose sub-agent for SeekCLI.\n\nYour job: complete the user's specific subtask end-to-end and return a\nconcise summary. You can read, write, and run shell \u{2014} same as the parent\nagent \u{2014} but you CANNOT spawn further sub-agents.\n\nAvailable tools: read_file, write_file, edit_file, list_dir, glob, grep,\nrun_shell.\n\nRules:\n- Use glob / grep for discovery before reading files whole.\n- Stay focused on the subtask. Don't expand scope.\n- File writes are restricted to the current working directory.\n- Dangerous shell commands (rm -rf, sudo, ...) require user approval.\n- Cite file:line. Be terse. Parent agent will reformat for the user.\n- Stop calling tools as soon as the subtask is done.\n- The prompt is all you get: you cannot see the conversation that produced it.\n  If it refers to something you have no way to resolve (`the file above`,\n  `the error we just saw`, `continue what you started`), reply immediately\n  with `[PROMPT INCOMPLETE]` and say exactly what is missing. Do NOT guess.\n  Guessing produces a confident summary of the wrong thing, and the parent\n  has no way to tell that from a right one.\n");
    reveal_strlit("[PROMPT INCOMPLETE]");
    assert(EXPLORE_PROMPT@.subrange(857, 876) =~= PROMPT_INCOMPLETE@);
    assert(occurs_at(EXPLORE_PROMPT@, PROMPT_INCOMPLETE@, 857));
    assert(GENERAL_PROMPT@.subrange(938, 957) =~= PROMPT_INCOMPLETE@);
    assert(occurs_at(GENERAL_PROMPT@, PROMPT_INCOMPLETE@, 938));
}

} // verus!
