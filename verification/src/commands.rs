//! REPL slash commands: what a typed line asks for, and the small decisions
//! each command makes (which model, which thinking level, whether a switch
//! goes on or off, which code block to copy). Carrying a command out reads
//! and writes the session, the skill library and the terminal, and happens
//! outside.

use vstd::prelude::*;
use crate::text::{
    chars_of, is_whitespace, is_ws, join, join_spec, lit, parse_u64, parse_u64_spec, slice_chars, split_whitespace,
    str_eq, string_of, strings_view, trim_chars, trim_spec, words_spec,
};

verus! {

/// What `/skill ...` asks for.
pub enum SkillCommand {
    /// No argument: show the usage line.
    Usage,
    List,
    Proposals,
    /// Accept the named proposal; `None` shows the usage line.
    Accept(Option<String>),
    /// Reject the named proposal; `None` shows the usage line.
    Reject(Option<String>),
    Migrate,
    /// Activate a skill, then send the trailing words as a prompt if any.
    Activate { name: String, prompt: Option<String> },
}

/// What `/propose ...` asks for.
pub enum ProposeCommand {
    List,
    /// Accept (or reject) a proposal of `kind` named `name`.
    Act { accept: bool, kind: String, name: String, skip_eval: bool },
    Usage,
}

/// A parsed REPL command.
pub enum Command {
    Quit,
    Help,
    Clear,
    Skill(SkillCommand),
    Model(Option<String>),
    Thinking(Option<String>),
    Plan(Option<String>),
    ReadOnly(Option<String>),
    Tools,
    /// Attach the clipboard image, with the rest of the line as its caption.
    Paste(String),
    Propose(ProposeCommand),
    History,
    /// Resume a session; `cmd` is the name it was invoked by, for the usage line.
    Resume { cmd: String, id: Option<String> },
    Fork { id: Option<String>, count: Option<String> },
    /// Search the sessions for the rest of the line; `None` shows the usage.
    Search(Option<String>),
    Copy(Option<String>),
    Unknown,
}

pub enum SkillView {
    Usage,
    List,
    Proposals,
    Accept(Option<Seq<char>>),
    Reject(Option<Seq<char>>),
    Migrate,
    Activate { name: Seq<char>, prompt: Option<Seq<char>> },
}

pub enum ProposeView {
    List,
    Act { accept: bool, kind: Seq<char>, name: Seq<char>, skip_eval: bool },
    Usage,
}

pub enum CommandView {
    Quit,
    Help,
    Clear,
    Skill(SkillView),
    Model(Option<Seq<char>>),
    Thinking(Option<Seq<char>>),
    Plan(Option<Seq<char>>),
    ReadOnly(Option<Seq<char>>),
    Tools,
    Paste(Seq<char>),
    Propose(ProposeView),
    History,
    Resume { cmd: Seq<char>, id: Option<Seq<char>> },
    Fork { id: Option<Seq<char>>, count: Option<Seq<char>> },
    Search(Option<Seq<char>>),
    Copy(Option<Seq<char>>),
    Unknown,
}

pub open spec fn ov(o: Option<String>) -> Option<Seq<char>> {
    match o {
        Some(s) => Some(s@),
        None => None,
    }
}

impl View for SkillCommand {
    type V = SkillView;

    open spec fn view(&self) -> SkillView {
        match self {
            SkillCommand::Usage => SkillView::Usage,
            SkillCommand::List => SkillView::List,
            SkillCommand::Proposals => SkillView::Proposals,
            SkillCommand::Accept(n) => SkillView::Accept(ov(*n)),
            SkillCommand::Reject(n) => SkillView::Reject(ov(*n)),
            SkillCommand::Migrate => SkillView::Migrate,
            SkillCommand::Activate { name, prompt } => SkillView::Activate { name: name@, prompt: ov(*prompt) },
        }
    }
}

impl View for ProposeCommand {
    type V = ProposeView;

    open spec fn view(&self) -> ProposeView {
        match self {
            ProposeCommand::List => ProposeView::List,
            ProposeCommand::Act { accept, kind, name, skip_eval } => ProposeView::Act {
                accept: *accept,
                kind: kind@,
                name: name@,
                skip_eval: *skip_eval,
            },
            ProposeCommand::Usage => ProposeView::Usage,
        }
    }
}

impl View for Command {
    type V = CommandView;

    open spec fn view(&self) -> CommandView {
        match self {
            Command::Quit => CommandView::Quit,
            Command::Help => CommandView::Help,
            Command::Clear => CommandView::Clear,
            Command::Skill(s) => CommandView::Skill(s@),
            Command::Model(a) => CommandView::Model(ov(*a)),
            Command::Thinking(a) => CommandView::Thinking(ov(*a)),
            Command::Plan(a) => CommandView::Plan(ov(*a)),
            Command::ReadOnly(a) => CommandView::ReadOnly(ov(*a)),
            Command::Tools => CommandView::Tools,
            Command::Paste(c) => CommandView::Paste(c@),
            Command::Propose(p) => CommandView::Propose(p@),
            Command::History => CommandView::History,
            Command::Resume { cmd, id } => CommandView::Resume { cmd: cmd@, id: ov(*id) },
            Command::Fork { id, count } => CommandView::Fork { id: ov(*id), count: ov(*count) },
            Command::Search(n) => CommandView::Search(ov(*n)),
            Command::Copy(a) => CommandView::Copy(ov(*a)),
            Command::Unknown => CommandView::Unknown,
        }
    }
}

/// The `i`-th word, if there is one.
pub open spec fn word(ws: Seq<Seq<char>>, i: int) -> Option<Seq<char>> {
    if 0 <= i < ws.len() {
        Some(ws[i])
    } else {
        None
    }
}

/// The index of the first whitespace char of `s` at or after `k`.
pub open spec fn first_ws_from(s: Seq<char>, k: nat) -> Option<nat>
    decreases s.len() - k,
{
    if k >= s.len() {
        None
    } else if is_ws(s[k as int]) {
        Some(k)
    } else {
        first_ws_from(s, k + 1)
    }
}

/// The rest of a line after its first whitespace char, trimmed; empty when
/// the line has no whitespace.
pub open spec fn rest_spec(line: Seq<char>) -> Seq<char> {
    match first_ws_from(line, 0) {
        Some(i) => trim_spec(line.skip(i as int + 1)),
        None => Seq::empty(),
    }
}

pub open spec fn skill_spec(ws: Seq<Seq<char>>) -> SkillView {
    match word(ws, 1) {
        None => SkillView::Usage,
        Some(a) => if a == "list"@ {
            SkillView::List
        } else if a == "proposals"@ {
            SkillView::Proposals
        } else if a == "accept"@ {
            SkillView::Accept(word(ws, 2))
        } else if a == "reject"@ {
            SkillView::Reject(word(ws, 2))
        } else if a == "migrate"@ {
            SkillView::Migrate
        } else {
            SkillView::Activate {
                name: a,
                prompt: if ws.len() > 2 { Some(join_spec(ws.skip(2), " "@)) } else { None },
            }
        },
    }
}

pub open spec fn propose_spec(ws: Seq<Seq<char>>) -> ProposeView {
    match word(ws, 1) {
        None => ProposeView::List,
        Some(v) => if v == "list"@ {
            ProposeView::List
        } else if (v == "accept"@ || v == "reject"@) && ws.len() >= 4 {
            ProposeView::Act { accept: v == "accept"@, kind: ws[2], name: ws[3], skip_eval: ws.contains("--skip-eval"@) }
        } else {
            ProposeView::Usage
        },
    }
}

/// What a line asks for, by its whitespace-separated words.
pub open spec fn command_spec(line: Seq<char>) -> Option<CommandView> {
    let ws = words_spec(line);
    if ws.len() == 0 {
        None
    } else {
        let c = ws[0];
        Some(
            if c == "/quit"@ || c == "/exit"@ {
                CommandView::Quit
            } else if c == "/help"@ {
                CommandView::Help
            } else if c == "/clear"@ {
                CommandView::Clear
            } else if c == "/skill"@ {
                CommandView::Skill(skill_spec(ws))
            } else if c == "/model"@ {
                CommandView::Model(word(ws, 1))
            } else if c == "/thinking"@ {
                CommandView::Thinking(word(ws, 1))
            } else if c == "/plan"@ {
                CommandView::Plan(word(ws, 1))
            } else if c == "/readonly"@ {
                CommandView::ReadOnly(word(ws, 1))
            } else if c == "/tools"@ {
                CommandView::Tools
            } else if c == "/paste"@ {
                CommandView::Paste(rest_spec(line))
            } else if c == "/propose"@ {
                CommandView::Propose(propose_spec(ws))
            } else if c == "/history"@ {
                CommandView::History
            } else if c == "/load"@ || c == "/resume"@ {
                CommandView::Resume { cmd: c, id: word(ws, 1) }
            } else if c == "/fork"@ {
                CommandView::Fork { id: word(ws, 1), count: word(ws, 2) }
            } else if c == "/search"@ {
                CommandView::Search(if ws.len() > 1 { Some(rest_spec(line)) } else { None })
            } else if c == "/copy"@ {
                CommandView::Copy(word(ws, 1))
            } else {
                CommandView::Unknown
            },
        )
    }
}

fn word_at(ws: &Vec<String>, i: usize) -> (r: Option<String>)
    ensures
        ov(r) == word(strings_view(ws@), i as int),
{
    if i < ws.len() {
        Some(ws[i].clone())
    } else {
        None
    }
}

/// The rest of `line` after its first whitespace char, trimmed.
pub fn rest_of_line(line: &str) -> (r: String)
    ensures
        r@ == rest_spec(line@),
{
    let cs = chars_of(line);
    let mut k: usize = 0;
    while k < cs.len() && !is_whitespace(cs[k])
        invariant
            k <= cs@.len(),
            cs@ == line@,
            first_ws_from(line@, 0) == first_ws_from(line@, k as nat),
        decreases cs.len() - k,
    {
        k += 1;
    }
    if k == cs.len() {
        String::new()
    } else {
        let tail = slice_chars(cs.as_slice(), k + 1, cs.len());
        assert(tail@ =~= line@.skip(k + 1));
        let t = trim_chars(tail.as_slice());
        string_of(t.as_slice())
    }
}

fn skill_command(ws: &Vec<String>) -> (r: SkillCommand)
    requires
        ws@.len() >= 1,
    ensures
        r@ == skill_spec(strings_view(ws@)),
{
    let ghost wv = strings_view(ws@);
    if ws.len() < 2 {
        return SkillCommand::Usage;
    }
    assert(wv[1] == ws@[1]@);
    let a = ws[1].as_str();
    if str_eq(a, "list") {
        SkillCommand::List
    } else if str_eq(a, "proposals") {
        SkillCommand::Proposals
    } else if str_eq(a, "accept") {
        SkillCommand::Accept(word_at(ws, 2))
    } else if str_eq(a, "reject") {
        SkillCommand::Reject(word_at(ws, 2))
    } else if str_eq(a, "migrate") {
        SkillCommand::Migrate
    } else {
        let prompt = if ws.len() > 2 {
            let rest = slice_strings(ws, 2);
            assert(strings_view(rest@) =~= wv.skip(2));
            Some(join(rest.as_slice(), " "))
        } else {
            None
        };
        SkillCommand::Activate { name: ws[1].clone(), prompt }
    }
}

fn slice_strings(ws: &Vec<String>, from: usize) -> (r: Vec<String>)
    requires
        from <= ws@.len(),
    ensures
        strings_view(r@) == strings_view(ws@).skip(from as int),
{
    let mut r: Vec<String> = Vec::new();
    let mut i = from;
    while i < ws.len()
        invariant
            from <= i <= ws@.len(),
            r@.len() == i - from,
            strings_view(r@) == strings_view(ws@).subrange(from as int, i as int),
        decreases ws.len() - i,
    {
        r.push(ws[i].clone());
        assert(strings_view(r@) =~= strings_view(ws@).subrange(from as int, i + 1));
        i += 1;
    }
    assert(strings_view(ws@).subrange(from as int, i as int) =~= strings_view(ws@).skip(from as int));
    r
}

fn contains_word(ws: &Vec<String>, w: &str) -> (b: bool)
    ensures
        b == strings_view(ws@).contains(w@),
{
    let mut i: usize = 0;
    while i < ws.len()
        invariant
            i <= ws@.len(),
            forall|j: int| 0 <= j < i ==> strings_view(ws@)[j] != w@,
        decreases ws.len() - i,
    {
        if str_eq(ws[i].as_str(), w) {
            assert(strings_view(ws@)[i as int] == w@);
            return true;
        }
        i += 1;
    }
    false
}

fn propose_command(ws: &Vec<String>) -> (r: ProposeCommand)
    requires
        ws@.len() >= 1,
    ensures
        r@ == propose_spec(strings_view(ws@)),
{
    let ghost wv = strings_view(ws@);
    if ws.len() < 2 {
        return ProposeCommand::List;
    }
    assert(wv[1] == ws@[1]@);
    let v = ws[1].as_str();
    if str_eq(v, "list") {
        ProposeCommand::List
    } else if (str_eq(v, "accept") || str_eq(v, "reject")) && ws.len() >= 4 {
        assert(wv[2] == ws@[2]@ && wv[3] == ws@[3]@);
        ProposeCommand::Act {
            accept: str_eq(v, "accept"),
            kind: ws[2].clone(),
            name: ws[3].clone(),
            skip_eval: contains_word(ws, "--skip-eval"),
        }
    } else {
        ProposeCommand::Usage
    }
}

/// Parse a REPL line; `None` for a blank one.
pub fn parse_command(line: &str) -> (r: Option<Command>)
    ensures
        match r {
            Some(c) => command_spec(line@) == Some(c@),
            None => command_spec(line@) is None,
        },
{
    let ws = split_whitespace(line);
    let ghost wv = strings_view(ws@);
    if ws.len() == 0 {
        return None;
    }
    assert(wv[0] == ws@[0]@);
    let c = ws[0].as_str();
    let cmd = if str_eq(c, "/quit") || str_eq(c, "/exit") {
        Command::Quit
    } else if str_eq(c, "/help") {
        Command::Help
    } else if str_eq(c, "/clear") {
        Command::Clear
    } else if str_eq(c, "/skill") {
        Command::Skill(skill_command(&ws))
    } else if str_eq(c, "/model") {
        Command::Model(word_at(&ws, 1))
    } else if str_eq(c, "/thinking") {
        Command::Thinking(word_at(&ws, 1))
    } else if str_eq(c, "/plan") {
        Command::Plan(word_at(&ws, 1))
    } else if str_eq(c, "/readonly") {
        Command::ReadOnly(word_at(&ws, 1))
    } else if str_eq(c, "/tools") {
        Command::Tools
    } else if str_eq(c, "/paste") {
        Command::Paste(rest_of_line(line))
    } else if str_eq(c, "/propose") {
        Command::Propose(propose_command(&ws))
    } else if str_eq(c, "/history") {
        Command::History
    } else if str_eq(c, "/load") || str_eq(c, "/resume") {
        Command::Resume { cmd: ws[0].clone(), id: word_at(&ws, 1) }
    } else if str_eq(c, "/fork") {
        Command::Fork { id: word_at(&ws, 1), count: word_at(&ws, 2) }
    } else if str_eq(c, "/search") {
        Command::Search(if ws.len() > 1 { Some(rest_of_line(line)) } else { None })
    } else if str_eq(c, "/copy") {
        Command::Copy(word_at(&ws, 1))
    } else {
        Command::Unknown
    };
    Some(cmd)
}


// ------------------------------------------------------ command decisions

/// How hard the model is asked to think.
#[derive(Debug, Clone, Copy, PartialEq, Eq, Structural)]
pub enum ThinkingMode {
    /// No extended thinking.
    Off,
    High,
    Max,
}

impl ThinkingMode {
    /// The name shown to the user.
    pub fn label(&self) -> (s: &'static str)
        ensures
            s@ == (match *self {
                ThinkingMode::Off => "None"@,
                ThinkingMode::High => "High"@,
                ThinkingMode::Max => "Max"@,
            }),
    {
        match self {
            ThinkingMode::Off => "None",
            ThinkingMode::High => "High",
            ThinkingMode::Max => "Max",
        }
    }

    /// The value sent on the wire.
    pub fn as_str(&self) -> (s: &'static str)
        ensures
            s@ == (match *self {
                ThinkingMode::Off => "none"@,
                ThinkingMode::High => "high"@,
                ThinkingMode::Max => "max"@,
            }),
    {
        match self {
            ThinkingMode::Off => "none",
            ThinkingMode::High => "high",
            ThinkingMode::Max => "max",
        }
    }
}

pub open spec fn ovs(o: Option<&str>) -> Option<Seq<char>> {
    match o {
        Some(s) => Some(s@),
        None => None,
    }
}

/// `/model [flash|pro]`: the model to use next; anything else keeps the
/// current one.
pub fn model_choice(arg: Option<&str>, flash: &str, pro: &str, current: &str) -> (m: String)
    ensures
        m@ == (match ovs(arg) {
            Some(a) => if a == "flash"@ { flash@ } else if a == "pro"@ { pro@ } else { current@ },
            None => current@,
        }),
{
    match arg {
        Some(a) => if str_eq(a, "flash") {
            lit(flash)
        } else if str_eq(a, "pro") {
            lit(pro)
        } else {
            lit(current)
        },
        None => lit(current),
    }
}

/// `/thinking [n|h|m]`: the thinking level to use next; anything else
/// keeps the current one.
pub fn thinking_choice(arg: Option<&str>, current: ThinkingMode) -> (t: ThinkingMode)
    ensures
        t == (match ovs(arg) {
            Some(a) => if a == "n"@ {
                ThinkingMode::Off
            } else if a == "h"@ {
                ThinkingMode::High
            } else if a == "m"@ {
                ThinkingMode::Max
            } else {
                current
            },
            None => current,
        }),
{
    match arg {
        Some(a) => if str_eq(a, "n") {
            ThinkingMode::Off
        } else if str_eq(a, "h") {
            ThinkingMode::High
        } else if str_eq(a, "m") {
            ThinkingMode::Max
        } else {
            current
        },
        None => current,
    }
}

/// A switch such as `/plan [on|off]`: explicit on or off, otherwise a toggle.
pub fn switch_choice(arg: Option<&str>, current: bool) -> (on: bool)
    ensures
        on == (match ovs(arg) {
            Some(a) => if a == "on"@ { true } else if a == "off"@ { false } else { !current },
            None => !current,
        }),
{
    match arg {
        Some(a) => if str_eq(a, "on") {
            true
        } else if str_eq(a, "off") {
            false
        } else {
            !current
        },
        None => !current,
    }
}

/// `/fork <id> [n]`: how many events to copy; all of them when the count is
/// absent or not a number.
pub fn fork_count(arg: Option<&str>, len: usize) -> (n: usize)
    ensures
        n == (match ovs(arg) {
            Some(a) => match parse_u64_spec(a) {
                Some(v) => if v <= usize::MAX { v as usize } else { len },
                None => len,
            },
            None => len,
        }),
{
    match arg {
        Some(a) => match parse_u64(a) {
            Some(v) => if v <= usize::MAX as u64 { v as usize } else { len },
            None => len,
        },
        None => len,
    }
}

/// What `/copy [index]` does.
pub enum CopyChoice {
    /// No index: say how many blocks there are (or that there are none).
    Hint,
    NotANumber,
    OutOfRange,
    /// Copy the block at this zero-based position.
    Block(usize),
}

/// `/copy [index]` over `blocks` code blocks; the index counts from 1.
pub fn copy_choice(arg: Option<&str>, blocks: usize) -> (c: CopyChoice)
    ensures
        match ovs(arg) {
            None => c is Hint,
            Some(a) => match parse_u64_spec(a) {
                None => c is NotANumber,
                Some(v) => if v > usize::MAX {
                    c is NotANumber
                } else if v == 0 || v > blocks {
                    c is OutOfRange
                } else {
                    c matches CopyChoice::Block(i) && i == v - 1
                },
            },
        },
{
    match arg {
        None => CopyChoice::Hint,
        Some(a) => match parse_u64(a) {
            None => CopyChoice::NotANumber,
            Some(v) => if v > usize::MAX as u64 {
                CopyChoice::NotANumber
            } else {
                let idx = v as usize;
                if idx == 0 || idx > blocks {
                    CopyChoice::OutOfRange
                } else {
                    CopyChoice::Block(idx - 1)
                }
            },
        },
    }
}


/// The `/help` listing, one command per line.
pub const HELP: &'static str = "  /model [flash|pro]      Switch DeepSeek model\n  /thinking [n|h|m]       Switch thinking intensity (None/High/Max)\n  /plan [on|off]          Toggle Plan Mode (externalize state to PLAN.md/TODO.md)\n  /readonly [on|off]      Toggle read-only mode (refuse all mutating tools)\n  /skill list             List active skills\n  /skill <name> [prompt]  Activate a skill (optional: send prompt immediately)\n  /skill proposals        List pending skill proposals from the agent\n  /skill accept <name>    Promote a proposal to active skill\n  /skill reject <name>    Discard a skill proposal\n  /propose list           Everything the agent drafted, awaiting your decision\n  /propose accept <kind> <name>  Land it (kinds: skill, mcp, task)\n  /propose reject <kind> <name>  Discard it\n  /paste [\u{8bf4}\u{660e}]           \u{628a}\u{526a}\u{8d34}\u{677f}\u{91cc}\u{7684}\u{56fe}\u{4ea4}\u{7ed9}\u{6a21}\u{578b}\u{ff08}\u{622a}\u{56fe}\u{540e}\u{76f4}\u{63a5}\u{7528}\u{ff0c}\u{4e0d}\u{7528}\u{5b58}\u{6587}\u{4ef6}\u{ff09}\n  /skill migrate          Convert legacy <name>.json skills to <name>/SKILL.md\n  /copy [index]           Copy code block from last response\n  /clear                  Reset conversation\n  /history                List previous sessions\n  /resume <id>            Resume a previous session (alias: /load)\n  /fork <id> [n]          Fork a session at event n into a new one\n  /search <text>          Find sessions mentioning text\n  /tools                  List active tools (built-in + MCP)\n  /help                   Show this help\n  /quit                   Exit\n";

} // verus!
