//! MCP integration: tools from external servers, by configuration.
//!
//! Names are namespaced (`mcp__<server>__<tool>`) so two servers can offer
//! the same tool. Foreign tools are untrusted by default: only a server's
//! explicit read-only hint makes one parallel-safe. A server that failed to
//! start is remembered, so the model is told why its tools are missing
//! instead of being left to retry a name that cannot exist. The processes
//! and the protocol traffic live outside the library.

use vstd::prelude::*;

use crate::api::{FunctionDefinition, Tool, clone_json};
use crate::text::{
    find, find_spec, join, join_spec, lit, occurs_at, push_str, str_eq, str_starts_with, strings_view,
};

verus! {

/// Separator between server and tool name.
pub const NAMESPACE: &'static str = "__";

/// `mcp__<server>__<tool>`.
pub open spec fn qualify_spec(server: Seq<char>, tool: Seq<char>) -> Seq<char> {
    "mcp"@ + "__"@ + server + "__"@ + tool
}

/// The model-visible name of `tool` on `server`.
pub fn qualify(server: &str, tool: &str) -> (r: String)
    ensures
        r@ == qualify_spec(server@, tool@),
{
    let mut r = lit("mcp");
    push_str(&mut r, NAMESPACE);
    push_str(&mut r, server);
    push_str(&mut r, NAMESPACE);
    push_str(&mut r, tool);
    r
}

/// Whether a tool name refers to an MCP tool.
pub fn is_mcp_tool(name: &str) -> (b: bool)
    ensures
        b == occurs_at(name@, "mcp__"@, 0),
{
    str_starts_with(name, "mcp__")
}

/// The server half of `mcp__<server>__<tool>`: what lies between the prefix
/// and the first `__` after it.
pub open spec fn server_of_spec(q: Seq<char>) -> Option<Seq<char>> {
    if occurs_at(q, "mcp__"@, 0) {
        match find_spec(q.skip(5), "__"@) {
            Some(i) => Some(q.skip(5).take(i as int)),
            None => None,
        }
    } else {
        None
    }
}

/// The server half of a qualified name, if the name is shaped like one.
pub fn server_of(qualified: &str) -> (r: Option<String>)
    ensures
        match r {
            Some(s) => server_of_spec(qualified@) == Some(s@),
            None => server_of_spec(qualified@) is None,
        },
{
    if !str_starts_with(qualified, "mcp__") {
        return None;
    }
    proof {
        reveal_strlit("mcp__");
        reveal_strlit("__");
    }
    let cs = crate::text::chars_of(qualified);
    let rest = &cs.as_slice()[5..cs.len()];
    let sep = crate::text::chars_of("__");
    assert(rest@ =~= qualified@.skip(5));
    match find(rest, sep.as_slice()) {
        Some(i) => {
            let s = crate::text::string_of(&rest[0..i]);
            assert(rest@.subrange(0, i as int) =~= qualified@.skip(5).take(i as int));
            Some(s)
        },
        None => None,
    }
}

/// A configured server that is not available this session, and why.
#[derive(Debug, Clone, PartialEq)]
pub struct McpFailure {
    pub server: String,
    pub reason: String,
}

/// A tool as a server describes it.
#[derive(Debug)]
pub struct McpTool {
    pub name: String,
    pub description: String,
    pub input_schema: serde_json::Value,
    /// True only when the server says so: absence means "assume it writes".
    pub read_only: bool,
}

/// A tool adopted from a server.
#[derive(Debug)]
pub struct RegisteredTool {
    /// Model-visible name, e.g. `mcp__github__create_issue`.
    pub qualified: String,
    pub server: String,
    pub remote_name: String,
    pub schema: Tool,
    pub read_only: bool,
}

/// The description the model sees for `tool` of `server`: the server's own,
/// tagged with the server, or a stand-in naming both when it gave none.
pub open spec fn description_spec(server: Seq<char>, name: Seq<char>, description: Seq<char>) -> Seq<char> {
    if description.len() == 0 {
        "Tool `"@ + name + "` provided by MCP server `"@ + server + "`."@
    } else {
        "["@ + server + "] "@ + description
    }
}

/// `a` offers what `b` does: the same name, kind and description.
pub open spec fn same_schema(a: Tool, b: Tool) -> bool {
    &&& a.function.name@ == b.function.name@
    &&& a.function.description@ == b.function.description@
    &&& a.tool_type@ == b.tool_type@
}

/// The MCP tools and the servers that failed this session.
pub struct McpRegistry {
    pub tools: Vec<RegisteredTool>,
    pub failures: Vec<McpFailure>,
}

pub open spec fn qualified_names(tools: Seq<RegisteredTool>) -> Seq<Seq<char>> {
    tools.map_values(|t: RegisteredTool| t.qualified@)
}

/// The first tool named `q`.
pub open spec fn tool_index(tools: Seq<RegisteredTool>, q: Seq<char>, k: nat) -> Option<nat>
    decreases tools.len() - k,
{
    if k >= tools.len() {
        None
    } else if tools[k as int].qualified@ == q {
        Some(k)
    } else {
        tool_index(tools, q, k + 1)
    }
}

/// The first failure recorded for `server`.
pub open spec fn failure_of(failures: Seq<McpFailure>, server: Seq<char>, k: nat) -> Option<McpFailure>
    decreases failures.len() - k,
{
    if k >= failures.len() {
        None
    } else if failures[k as int].server@ == server {
        Some(failures[k as int])
    } else {
        failure_of(failures, server, k + 1)
    }
}

/// Why a tool the model just tried to call does not exist: the failure of
/// its server when there is one, else that there are no MCP tools, else the
/// names that do exist.
pub open spec fn unknown_tool_spec(tools: Seq<RegisteredTool>, failures: Seq<McpFailure>, q: Seq<char>) -> Seq<char> {
    let failed = match server_of_spec(q) {
        Some(s) => failure_of(failures, s, 0),
        None => None,
    };
    match failed {
        Some(f) => "MCP server `"@ + f.server@ + "` is configured but unavailable this session, so `"@ + q
            + "` does not exist: "@ + f.reason@
            + ". Do not retry this tool \u{2014} restarting it is the user's action, not yours. Use the tools you do have, or tell the user this server needs fixing."@,
        None => if tools.len() == 0 {
            "`"@ + q + "` does not exist: no MCP tools are available in this session. Do not retry it; use the built-in tools instead."@
        } else {
            "`"@ + q + "` does not exist. Available MCP tools: "@ + join_spec(qualified_names(tools), ", "@)
                + ". Do not retry this name; call one of those, or a built-in tool."@
        },
    }
}

impl McpRegistry {
    pub fn empty() -> (r: Self)
        ensures
            r.tools@.len() == 0,
            r.failures@.len() == 0,
    {
        McpRegistry { tools: Vec::new(), failures: Vec::new() }
    }

    /// Keep why `server` is unavailable, for the model to be told.
    pub fn record_failure(&mut self, server: &str, reason: String)
        ensures
            final(self).failures@ == old(self).failures@.push(McpFailure { server: final(self).failures@.last().server, reason }),
            final(self).failures@.last().server@ == server@,
            final(self).tools@ == old(self).tools@,
    {
        self.failures.push(McpFailure { server: lit(server), reason });
    }

    /// Adopt `tool` of `server` under its qualified name.
    pub fn register(server: &str, tool: McpTool) -> (r: RegisteredTool)
        ensures
            r.qualified@ == qualify_spec(server@, tool.name@),
            r.server@ == server@,
            r.remote_name@ == tool.name@,
            r.read_only == tool.read_only,
            r.schema.tool_type@ == "function"@,
            r.schema.function.name@ == qualify_spec(server@, tool.name@),
            r.schema.function.description@ == description_spec(server@, tool.name@, tool.description@),
    {
        let qualified = qualify(server, tool.name.as_str());
        let description = if tool.description.as_str().is_empty() {
            let mut d = lit("Tool `");
            push_str(&mut d, tool.name.as_str());
            push_str(&mut d, "` provided by MCP server `");
            push_str(&mut d, server);
            push_str(&mut d, "`.");
            d
        } else {
            let mut d = lit("[");
            push_str(&mut d, server);
            push_str(&mut d, "] ");
            push_str(&mut d, tool.description.as_str());
            d
        };
        RegisteredTool {
            schema: Tool {
                tool_type: lit("function"),
                function: FunctionDefinition {
                    name: qualified.clone(),
                    description,
                    parameters: tool.input_schema,
                },
            },
            qualified,
            server: lit(server),
            remote_name: tool.name,
            read_only: tool.read_only,
        }
    }

    /// The schemas offered to the model, in registration order.
    pub fn schemas(&self) -> (r: Vec<Tool>)
        ensures
            r@.len() == self.tools@.len(),
            forall|i: int| 0 <= i < r@.len() ==> #[trigger] same_schema(r@[i], self.tools@[i].schema),
    {
        let mut r: Vec<Tool> = Vec::new();
        let mut i: usize = 0;
        while i < self.tools.len()
            invariant
                i <= self.tools@.len(),
                r@.len() == i,
                forall|j: int| 0 <= j < i ==> #[trigger] same_schema(r@[j], self.tools@[j].schema),
            decreases self.tools.len() - i,
        {
            let ghost before = r@;
            let t = self.tools[i].schema.copied();
            r.push(t);
            assert forall|j: int| 0 <= j < i + 1 implies #[trigger] same_schema(r@[j], self.tools@[j].schema) by {
                if j < i {
                    assert(r@[j] == before[j]);
                }
            }
            i += 1;
        }
        r
    }

    fn find_tool(&self, qualified: &str) -> (r: Option<usize>)
        ensures
            match r {
                Some(i) => tool_index(self.tools@, qualified@, 0) == Some(i as nat) && i < self.tools@.len(),
                None => tool_index(self.tools@, qualified@, 0) is None,
            },
    {
        let mut k: usize = 0;
        while k < self.tools.len()
            invariant
                k <= self.tools@.len(),
                tool_index(self.tools@, qualified@, 0) == tool_index(self.tools@, qualified@, k as nat),
            decreases self.tools.len() - k,
        {
            if str_eq(self.tools[k].qualified.as_str(), qualified) {
                return Some(k);
            }
            k += 1;
        }
        None
    }

    /// Whether the tool may run concurrently with others: only when the
    /// server said it is read-only. An unknown tool never is.
    pub fn is_read_only(&self, qualified: &str) -> (b: bool)
        ensures
            b == match tool_index(self.tools@, qualified@, 0) {
                Some(i) => self.tools@[i as int].read_only,
                None => false,
            },
    {
        match self.find_tool(qualified) {
            Some(i) => self.tools[i].read_only,
            None => false,
        }
    }

    fn failure_for(&self, server: &str) -> (r: Option<usize>)
        ensures
            match r {
                Some(i) => i < self.failures@.len() && failure_of(self.failures@, server@, 0) == Some(self.failures@[i as int]),
                None => failure_of(self.failures@, server@, 0) is None,
            },
    {
        let mut k: usize = 0;
        while k < self.failures.len()
            invariant
                k <= self.failures@.len(),
                failure_of(self.failures@, server@, 0) == failure_of(self.failures@, server@, k as nat),
            decreases self.failures.len() - k,
        {
            if str_eq(self.failures[k].server.as_str(), server) {
                return Some(k);
            }
            k += 1;
        }
        None
    }

    /// Why `qualified` does not exist, worded so the model does not retry it.
    pub fn unknown_tool_message(&self, qualified: &str) -> (r: String)
        ensures
            r@ == unknown_tool_spec(self.tools@, self.failures@, qualified@),
    {
        let failed = match server_of(qualified) {
            Some(s) => self.failure_for(s.as_str()),
            None => None,
        };
        match failed {
            Some(i) => {
                let f = &self.failures[i];
                let mut m = lit("MCP server `");
                push_str(&mut m, f.server.as_str());
                push_str(&mut m, "` is configured but unavailable this session, so `");
                push_str(&mut m, qualified);
                push_str(&mut m, "` does not exist: ");
                push_str(&mut m, f.reason.as_str());
                push_str(
                    &mut m,
                    ". Do not retry this tool \u{2014} restarting it is the user's action, not yours. Use the tools you do have, or tell the user this server needs fixing.",
                );
                m
            },
            None => {
                if self.tools.len() == 0 {
                    let mut m = lit("`");
                    push_str(&mut m, qualified);
                    push_str(
                        &mut m,
                        "` does not exist: no MCP tools are available in this session. Do not retry it; use the built-in tools instead.",
                    );
                    m
                } else {
                    let names = self.qualified_list();
                    let mut m = lit("`");
                    push_str(&mut m, qualified);
                    push_str(&mut m, "` does not exist. Available MCP tools: ");
                    push_str(&mut m, join(names.as_slice(), ", ").as_str());
                    push_str(&mut m, ". Do not retry this name; call one of those, or a built-in tool.");
                    m
                }
            },
        }
    }

    fn qualified_list(&self) -> (r: Vec<String>)
        ensures
            strings_view(r@) == qualified_names(self.tools@),
    {
        let mut r: Vec<String> = Vec::new();
        let mut i: usize = 0;
        while i < self.tools.len()
            invariant
                i <= self.tools@.len(),
                r@.len() == i,
                forall|j: int| 0 <= j < i ==> #[trigger] r@[j]@ == self.tools@[j].qualified@,
            decreases self.tools.len() - i,
        {
            r.push(self.tools[i].qualified.clone());
            i += 1;
        }
        assert(strings_view(r@) =~= qualified_names(self.tools@));
        r
    }

    /// Where to send a call of `qualified`: `(server, remote name)`, or the
    /// message saying why it does not exist.
    pub fn resolve(&self, qualified: &str) -> (r: Result<(String, String), String>)
        ensures
            match r {
                Ok((server, remote)) => tool_index(self.tools@, qualified@, 0) matches Some(i)
                    && server@ == self.tools@[i as int].server@ && remote@ == self.tools@[i as int].remote_name@,
                Err(m) => tool_index(self.tools@, qualified@, 0) is None
                    && m@ == unknown_tool_spec(self.tools@, self.failures@, qualified@),
            },
    {
        match self.find_tool(qualified) {
            Some(i) => Ok((self.tools[i].server.clone(), self.tools[i].remote_name.clone())),
            None => Err(self.unknown_tool_message(qualified)),
        }
    }

    /// `(qualified name, server)` pairs, in registration order.
    pub fn listing(&self) -> (r: Vec<(String, String)>)
        ensures
            r@.len() == self.tools@.len(),
            forall|i: int| 0 <= i < r@.len() ==> #[trigger] r@[i].0@ == self.tools@[i].qualified@
                && r@[i].1@ == self.tools@[i].server@,
    {
        let mut r: Vec<(String, String)> = Vec::new();
        let mut i: usize = 0;
        while i < self.tools.len()
            invariant
                i <= self.tools@.len(),
                r@.len() == i,
                forall|j: int| 0 <= j < i ==> #[trigger] r@[j].0@ == self.tools@[j].qualified@
                    && r@[j].1@ == self.tools@[j].server@,
            decreases self.tools.len() - i,
        {
            let ghost before = r@;
            r.push((self.tools[i].qualified.clone(), self.tools[i].server.clone()));
            assert forall|j: int| 0 <= j < i implies #[trigger] r@[j] == before[j] by {}
            i += 1;
        }
        r
    }
}

/// The server half of a qualified name is recoverable: qualifying a tool of
/// a server whose name holds no `__` gives back that server.
pub proof fn server_of_undoes_qualify(server: Seq<char>, tool: Seq<char>)
    requires
        find_spec(server + "__"@ + tool, "__"@) == Some(server.len()),
    ensures
        server_of_spec(qualify_spec(server, tool)) == Some(server),
{
    reveal_strlit("mcp");
    reveal_strlit("__");
    reveal_strlit("mcp__");
    let q = qualify_spec(server, tool);
    assert(q.subrange(0, 5) =~= "mcp__"@);
    assert(q.skip(5) =~= server + "__"@ + tool);
    assert(q.skip(5).take(server.len() as int) =~= server);
}

/// A block of a tool result, as far as the text rendering reads it.
#[derive(Debug, Clone, PartialEq)]
pub struct ContentBlock {
    /// The block's `type`, when it has one that is text.
    pub kind: Option<String>,
    /// The block's `text`, when it has one that is text.
    pub text: Option<String>,
}

/// The text a block contributes: its text for a text block (nothing if it
/// has none), a line naming what was omitted for any other kind, nothing
/// for a block without a kind.
pub open spec fn block_part(b: ContentBlock) -> Option<Seq<char>> {
    match b.kind {
        Some(k) => if k@ == "text"@ {
            match b.text {
                Some(t) => Some(t@),
                None => None,
            }
        } else {
            Some("["@ + k@ + " content omitted]"@)
        },
        None => None,
    }
}

pub open spec fn block_parts(blocks: Seq<ContentBlock>) -> Seq<Seq<char>>
    decreases blocks.len(),
{
    if blocks.len() == 0 {
        seq![]
    } else {
        let rest = block_parts(blocks.drop_last());
        match block_part(blocks.last()) {
            Some(p) => rest.push(p),
            None => rest,
        }
    }
}

/// A tool result as the text a text-only model can read: the parts joined
/// by newlines, nothing when there is no content list.
pub fn flatten_blocks(blocks: Option<&[ContentBlock]>) -> (r: String)
    ensures
        r@ == match blocks {
            Some(b) => join_spec(block_parts(b@), "\n"@),
            None => Seq::empty(),
        },
{
    let blocks = match blocks {
        Some(b) => b,
        None => return String::new(),
    };
    let mut parts: Vec<String> = Vec::new();
    let mut i: usize = 0;
    while i < blocks.len()
        invariant
            i <= blocks@.len(),
            strings_view(parts@) == block_parts(blocks@.take(i as int)),
        decreases blocks.len() - i,
    {
        assert(blocks@.take(i + 1).drop_last() =~= blocks@.take(i as int));
        let ghost before = parts@;
        match &blocks[i].kind {
            Some(k) => {
                if str_eq(k.as_str(), "text") {
                    match &blocks[i].text {
                        Some(t) => {
                            parts.push(t.clone());
                            assert(strings_view(parts@) =~= strings_view(before).push(t@));
                        },
                        None => {},
                    }
                } else {
                    let mut p = lit("[");
                    push_str(&mut p, k.as_str());
                    push_str(&mut p, " content omitted]");
                    parts.push(p);
                    assert(strings_view(parts@) =~= strings_view(before).push(p@));
                }
            },
            None => {},
        }
        i += 1;
    }
    assert(blocks@.take(blocks@.len() as int) =~= blocks@);
    join(parts.as_slice(), "\n")
}


/// What to do with one line read while waiting for the answer to request
/// `expected`: a line that is not a JSON message, or carries another id (a
/// notification, a log message), is passed over; the answer is either the
/// server's refusal or its result.
pub enum ReplyStep {
    /// Not our answer: keep reading.
    Skip,
    /// The server refused the request; the text says who refused what.
    Refused(String),
    /// Our answer: take its `result`.
    Answer,
}

/// Classify a line: `id` is its `id` when it parsed as a message with an
/// integer id, and `error` is `Some` when it carries an `error` member (with
/// that member's `message`, if it has a string one).
pub fn reply_step(server: &str, method: &str, expected: i64, id: Option<i64>, error: Option<Option<&str>>) -> (r: ReplyStep)
    ensures
        id != Some(expected) ==> r is Skip,
        id == Some(expected) ==> match error {
            Some(m) => r matches ReplyStep::Refused(t) && t@ == "`"@ + server@ + "` rejected "@ + method@ + ": "@ + match m {
                Some(x) => x@,
                None => "unknown error"@,
            },
            None => r is Answer,
        },
{
    match id {
        Some(i) => if i != expected {
            return ReplyStep::Skip;
        },
        None => {
            return ReplyStep::Skip;
        },
    }
    match error {
        Some(m) => {
            let mut t = lit("`");
            push_str(&mut t, server);
            push_str(&mut t, "` rejected ");
            push_str(&mut t, method);
            push_str(&mut t, ": ");
            match m {
                Some(x) => push_str(&mut t, x),
                None => push_str(&mut t, "unknown error"),
            }
            ReplyStep::Refused(t)
        },
        None => ReplyStep::Answer,
    }
}

/// The error when the answer does not come in time.
pub fn timed_out_message(server: &str, method: &str) -> (r: String)
    ensures
        r@ == "`"@ + server@ + "` timed out waiting for "@ + method@,
{
    let mut t = lit("`");
    push_str(&mut t, server);
    push_str(&mut t, "` timed out waiting for ");
    push_str(&mut t, method);
    t
}

/// The error when the server closes its output before answering.
pub fn closed_message(server: &str, method: &str) -> (r: String)
    ensures
        r@ == "`"@ + server@ + "` closed its output during "@ + method@,
{
    let mut t = lit("`");
    push_str(&mut t, server);
    push_str(&mut t, "` closed its output during ");
    push_str(&mut t, method);
    t
}

/// A tool's answer: its text, or, when the server flagged it as an error,
/// that text as the failure. A tool that ran and said no is not a broken
/// server.
pub fn tool_outcome(is_error: bool, text: String) -> (r: Result<String, String>)
    ensures
        is_error ==> (r matches Err(e) && e@ == text@),
        !is_error ==> (r matches Ok(t) && t@ == text@),
{
    if is_error {
        Err(text)
    } else {
        Ok(text)
    }
}

} // verus!
