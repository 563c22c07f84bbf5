//! Declarative headless tasks, run by an outside scheduler.
//!
//! A task is a `<name>/TASK.md`: YAML frontmatter plus a Markdown body, and
//! the body is the prompt. The frontmatter is split by the same code as a
//! SKILL.md. Here are the definitions, their listing, the interval hints,
//! the launchd property list and the built-in reminders task; finding the
//! files, changing directory and running the agent happen outside.

use vstd::prelude::*;

use crate::skills::{frontmatter_scalar, frontmatter_scalar_spec, split_frontmatter, split_frontmatter_spec};
use crate::text::{
    decimal, decimal_spec, join, join_spec, lit, parse_u64, parse_u64_spec, push_char, push_str, strings_view, trim,
    trim_spec,
};

verus! {

/// A task's definition.
#[derive(Debug, Clone, PartialEq)]
pub struct TaskSpec {
    pub name: String,
    pub description: String,
    /// A skill to activate first; a missing one is an error, not a silent
    /// downgrade to running without it.
    pub skill: Option<String>,
    /// The suggested schedule, used only to render a property list.
    pub interval_hint: Option<String>,
    /// The body: the prompt.
    pub prompt: String,
}

pub open spec fn opt_text(o: Option<String>) -> Option<Seq<char>> {
    match o {
        Some(s) => Some(s@),
        None => None,
    }
}

pub const EMPTY_BODY: &'static str = " 的正文为空——正文就是要跑的 prompt";

/// The definition of task `name` from its file at `path` holding
/// `content`: the frontmatter's `name` (else the task's), `description`
/// (else empty), `skill` and `interval_hint`, and the body as the prompt,
/// which must not be blank.
pub open spec fn task_spec_of(name: Seq<char>, path: Seq<char>, content: Seq<char>) -> Result<
    (Seq<char>, Seq<char>, Option<Seq<char>>, Option<Seq<char>>, Seq<char>),
    Seq<char>,
> {
    match split_frontmatter_spec(content, "TASK.md"@) {
        Err(e) => Err(e),
        Ok((yaml, body)) => if trim_spec(body).len() == 0 {
            Err(path + EMPTY_BODY@)
        } else {
            Ok((
                match frontmatter_scalar_spec(yaml, "name"@) {
                    Some(n) => n,
                    None => name,
                },
                match frontmatter_scalar_spec(yaml, "description"@) {
                    Some(d) => d,
                    None => Seq::empty(),
                },
                frontmatter_scalar_spec(yaml, "skill"@),
                frontmatter_scalar_spec(yaml, "interval_hint"@),
                body,
            ))
        },
    }
}

/// Read task `name`'s definition from its file at `path`.
pub fn task_from(name: &str, path: &str, content: &str) -> (r: Result<TaskSpec, String>)
    ensures
        match r {
            Ok(t) => task_spec_of(name@, path@, content@) == Ok::<
                (Seq<char>, Seq<char>, Option<Seq<char>>, Option<Seq<char>>, Seq<char>),
                Seq<char>,
            >((t.name@, t.description@, opt_text(t.skill), opt_text(t.interval_hint), t.prompt@)),
            Err(e) => task_spec_of(name@, path@, content@) == Err::<
                (Seq<char>, Seq<char>, Option<Seq<char>>, Option<Seq<char>>, Seq<char>),
                Seq<char>,
            >(e@),
        },
{
    let (yaml, body) = match split_frontmatter(content, "TASK.md") {
        Ok(p) => p,
        Err(e) => return Err(e),
    };
    let tb = trim(body.as_str());
    if tb.as_str().is_empty() {
        let mut e = lit(path);
        push_str(&mut e, EMPTY_BODY);
        return Err(e);
    }
    let task_name = match frontmatter_scalar(yaml.as_str(), "name") {
        Some(n) => n,
        None => lit(name),
    };
    let description = match frontmatter_scalar(yaml.as_str(), "description") {
        Some(d) => d,
        None => String::new(),
    };
    Ok(TaskSpec {
        name: task_name,
        description,
        skill: frontmatter_scalar(yaml.as_str(), "skill"),
        interval_hint: frontmatter_scalar(yaml.as_str(), "interval_hint"),
        prompt: body,
    })
}

pub const NO_TASKS_YET: &'static str = "（还没有任务；在 ~/.seekcli/tasks/<name>/TASK.md 里定义一个）";

/// What is said when no task `name` is defined: the tasks that are.
pub open spec fn unknown_task_spec(name: Seq<char>, names: Seq<Seq<char>>) -> Seq<char> {
    "未知任务 '"@ + name + "'。当前可用任务："@ + if names.len() == 0 {
        NO_TASKS_YET@
    } else {
        join_spec(names, ", "@)
    }
}

/// The error for an undefined task, naming the defined ones.
pub fn unknown_task_message(name: &str, names: &[String]) -> (r: String)
    ensures
        r@ == unknown_task_spec(name@, strings_view(names@)),
{
    let mut m = lit("未知任务 '");
    push_str(&mut m, name);
    push_str(&mut m, "'。当前可用任务：");
    if names.len() == 0 {
        push_str(&mut m, NO_TASKS_YET);
    } else {
        push_str(&mut m, join(names, ", ").as_str());
    }
    m
}

// --------------------------------------------------------------- intervals

/// The multiplier of an interval suffix: `s`, `m`, `h` or `d`.
pub open spec fn unit_secs(c: char) -> Option<u64> {
    if c == 's' {
        Some(1)
    } else if c == 'm' {
        Some(60)
    } else if c == 'h' {
        Some(3600)
    } else if c == 'd' {
        Some(86_400)
    } else {
        None
    }
}

/// An interval hint in seconds: a number, optionally followed by `s`, `m`,
/// `h` or `d` (white space around either part ignored). The product wraps
/// at 64 bits, as the release build computes it.
pub open spec fn interval_spec(hint: Seq<char>) -> Option<u64> {
    let h = trim_spec(hint);
    if h.len() == 0 {
        None
    } else {
        let digits = match unit_secs(h.last()) {
            Some(_) => h.drop_last(),
            None => h,
        };
        let mult: u64 = match unit_secs(h.last()) {
            Some(m) => m,
            None => 1,
        };
        match parse_u64_spec(trim_spec(digits)) {
            Some(n) => Some(((n as nat * mult as nat) % 0x1_0000_0000_0000_0000) as u64),
            None => None,
        }
    }
}

/// `15m` / `2h` / `90s` / bare seconds, in seconds.
pub fn parse_interval(hint: &str) -> (r: Option<u64>)
    ensures
        r == interval_spec(hint@),
{
    let h = trim(hint);
    let cs = crate::text::chars_of(h.as_str());
    if cs.len() == 0 {
        return None;
    }
    let last = cs[cs.len() - 1];
    let mut end: usize = cs.len();
    let mut mult: u64 = 1;
    if last == 's' {
        end = cs.len() - 1;
    } else if last == 'm' {
        end = cs.len() - 1;
        mult = 60;
    } else if last == 'h' {
        end = cs.len() - 1;
        mult = 3600;
    } else if last == 'd' {
        end = cs.len() - 1;
        mult = 86_400;
    }
    let digits = crate::text::string_of(&cs.as_slice()[0..end]);
    assert(cs@.subrange(0, end as int) =~= (if end < cs@.len() { h@.drop_last() } else { h@ }));
    let t = trim(digits.as_str());
    match parse_u64(t.as_str()) {
        Some(n) => Some(n.wrapping_mul(mult)),
        None => None,
    }
}

/// The seconds a property list schedules: the hint's, else 15 minutes.
pub open spec fn plist_seconds(hint: Option<Seq<char>>) -> u64 {
    match hint {
        Some(h) => match interval_spec(h) {
            Some(s) => s,
            None => 900,
        },
        None => 900,
    }
}

pub const PLIST_HEAD: &'static str = "<?xml version=\"1.0\" encoding=\"UTF-8\"?>\n<!DOCTYPE plist PUBLIC \"-//Apple//DTD PLIST 1.0//EN\" \"http://www.apple.com/DTDs/PropertyList-1.0.dtd\">\n<plist version=\"1.0\">\n<dict>\n  <key>Label</key><string>com.seekcli.";

pub const PLIST_AFTER_LABEL: &'static str = "</string>\n  <key>ProgramArguments</key>\n  <array>\n    <string>";

pub const PLIST_AFTER_EXE: &'static str = "</string>\n    <string>--run-task</string>\n    <string>";

pub const PLIST_AFTER_NAME: &'static str = "</string>\n  </array>\n  <key>StartInterval</key><integer>";

pub const PLIST_TAIL: &'static str = "</integer>\n  <key>EnvironmentVariables</key>\n  <dict>\n    <!-- launchd does not read your shell profile: set the key here. -->\n    <key>DEEPSEEK_API_KEY</key><string>REPLACE_ME</string>\n  </dict>\n</dict>\n</plist>\n";

/// A launchd property list running task `name` with executable `exe` every
/// `seconds` seconds.
pub open spec fn plist_spec(name: Seq<char>, exe: Seq<char>, seconds: u64) -> Seq<char> {
    PLIST_HEAD@ + name + PLIST_AFTER_LABEL@ + exe + PLIST_AFTER_EXE@ + name + PLIST_AFTER_NAME@
        + decimal_spec(seconds as nat) + PLIST_TAIL@
}

/// The launchd property list for a task: printed, never installed.
pub fn render_plist(name: &str, exe: &str, interval_hint: Option<&str>) -> (r: String)
    ensures
        r@ == plist_spec(
            name@,
            exe@,
            plist_seconds(
                match interval_hint {
                    Some(h) => Some(h@),
                    None => None,
                },
            ),
        ),
{
    let seconds: u64 = match interval_hint {
        Some(h) => match parse_interval(h) {
            Some(s) => s,
            None => 900,
        },
        None => 900,
    };
    let mut r = lit(PLIST_HEAD);
    push_str(&mut r, name);
    push_str(&mut r, PLIST_AFTER_LABEL);
    push_str(&mut r, exe);
    push_str(&mut r, PLIST_AFTER_EXE);
    push_str(&mut r, name);
    push_str(&mut r, PLIST_AFTER_NAME);
    push_str(&mut r, decimal(seconds).as_str());
    push_str(&mut r, PLIST_TAIL);
    r
}

// -------------------------------------------------------------- reminders

pub const REMINDERS_HEAD: &'static str = "你现在是被系统定时任务（launchd/cron，约每 15 分钟一次）无人值守调用的\n一次性 headless 运行，不是交互式会话。没有用户在场——绝不要执行需要交互确认\n的命令，也不要等待任何输入。\n\n当前本地时间：";

pub const REMINDERS_AFTER_NOW: &'static str = "。\n\n当前工作目录下应该有两个文件：\n  - reminders.md — 有时间点的提醒事项，到期需要触发系统通知\n  - todos.md      — 无时间点的待办清单，只体现在摘要里，不触发系统通知\n\n# 文件格式\n先用 list_dir(\".\") 看当前目录下实际有哪些文件——**不要直接对可能不存在的文件\n调用 read_file**（对不存在的文件调用 read_file 会失败，进而触发系统的失败恢复\n机制，反而可能扰乱你紧接着的下一次工具调用）。根据 list_dir 的结果判断：\n  - 如果 reminders.md 出现在列表里，才对它调用 read_file；否则视为不存在，\n    直接用 write_file 创建一个只有标题、没有条目的空文件。\n  - todos.md 同理。\n\nreminders.md，每行一条：\n  - [ ] YYYY-MM-DD[ HH:MM] <内容> [notified:YYYY-MM-DD[ HH:MM]]\n  - [x] YYYY-MM-DD[ HH:MM] <内容>\n末尾可选的 `[notified:...]` 记录\"上次通知时对应的到期值\"——拿它和这一行自己\n的到期值比较：如果不存在，或者不相等（说明用户改过期时间），就需要重新通知。\n示例：\n  - [ ] 2026-07-17 15:00 牙医预约\n  - [ ] 2026-07-20 提交季度报告 [notified:2026-07-19]\n  - [x] 2026-07-10 09:00 交电费\n\ntodos.md，每行一条（没有具体时间点，到期日期可选）：\n  - [ ] 买生日礼物 [due:2026-07-19]\n  - [ ] 续费域名\n  - [x] 报销上周差旅\n\n# 这次运行要做的事\n1. 按上面的规则确认/创建两个文件，并 read_file 已存在的那些。\n2. 对 reminders.md 里每一条 `- [ ]` 且到期日期/时间 <= 当前时间的条目：\n   a. 如果没有 `[notified:...]` 标记，或者标记的值和这一行自己的到期值不同，\n      就触发**恰好一次**通知：\n        run_shell: osascript -e 'display notification \"<内容>\" with title \"SeekCLI 提醒\"'\n      然后用 edit_file 在这一行末尾追加/更新 `[notified:<这次到期值>]`，\n      这样 15 分钟后下一次运行就不会重复弹了。\n   b. 如果标记的值已经和到期值一致，跳过——已经通知过，不要重复弹窗刷屏。\n   c. `- [x]` 的条目、或者还没到期的条目，一律不通知。\n   注意：**每条到期提醒只弹一次系统通知**，就算过期后仍未标记完成，也不再\n   重复弹窗——过期未完成的项目会体现在下面第 4 步的摘要里，靠摘要持续提醒，\n   不靠反复弹窗骚扰。\n3. 不要为 todos.md 里的条目触发系统通知——待办事项优先级更低，只出现在摘要里。\n4. 用 write_file 生成（覆盖）digest/";

pub const REMINDERS_AFTER_DIGEST: &'static str = ".md ——一份不超过 20 行、人类能\n   一眼扫完的 Markdown 摘要：今天到期的提醒、所有过期未完成的提醒、以及 3 天\n   内到期（或没有到期日期，挑几条列出）的待办。这个文件就是用户下次打开\n   交互式 REPL 时会看到的内容。\n5. 除了追加/更新 `[notified:...]` 标记之外，不要动任何 `- [x]` 行。\n6. 最后用**一行纯文本**总结这次做了什么（例如\"通知了 2 条提醒，1 条已过期\n   未处理，已生成 ";

pub const REMINDERS_TAIL: &'static str = " 的摘要。\"），然后停止调用工具。\n";

/// The built-in reminders prompt, for the date `today` and the time `now`.
pub open spec fn reminders_prompt_spec(today: Seq<char>, now: Seq<char>) -> Seq<char> {
    REMINDERS_HEAD@ + now + REMINDERS_AFTER_NOW@ + today + REMINDERS_AFTER_DIGEST@ + today + REMINDERS_TAIL@
}

pub fn reminders_prompt(today: &str, now: &str) -> (r: String)
    ensures
        r@ == reminders_prompt_spec(today@, now@),
{
    let mut r = lit(REMINDERS_HEAD);
    push_str(&mut r, now);
    push_str(&mut r, REMINDERS_AFTER_NOW);
    push_str(&mut r, today);
    push_str(&mut r, REMINDERS_AFTER_DIGEST);
    push_str(&mut r, today);
    push_str(&mut r, REMINDERS_TAIL);
    r
}

pub const REMINDERS_FRONTMATTER: &'static str = "---\nname: reminders\ndescription: 检查到期提醒与待办，必要时发系统通知，并生成当日摘要\nskill: null\ninterval_hint: 15m\n---\n\n";

/// The `TASK.md` of the built-in reminders task.
pub fn reminders_task_file(today: &str, now: &str) -> (r: String)
    ensures
        r@ == REMINDERS_FRONTMATTER@ + reminders_prompt_spec(today@, now@) + "\n"@,
{
    let mut r = lit(REMINDERS_FRONTMATTER);
    push_str(&mut r, reminders_prompt(today, now).as_str());
    push_str(&mut r, "\n");
    r
}

// ----------------------------------------------------------------- listing

/// `s` padded with spaces to at least `w` chars, as `{:<w}` formats it.
pub open spec fn pad_right(s: Seq<char>, w: nat) -> Seq<char> {
    if s.len() >= w {
        s
    } else {
        s + Seq::new((w - s.len()) as nat, |i: int| ' ')
    }
}

pub(crate) fn padded(s: &str, w: usize) -> (r: String)
    ensures
        r@ == pad_right(s@, w as nat),
{
    let n = crate::text::chars_of(s).len();
    let mut r = lit(s);
    let mut k: usize = n;
    while k < w
        invariant
            n == s@.len(),
            n <= k,
            n < w ==> k <= w,
            n >= w ==> k == n,
            r@ == s@ + Seq::new((k - n) as nat, |i: int| ' '),
        decreases w - k,
    {
        push_char(&mut r, ' ');
        k += 1;
        assert(r@ =~= s@ + Seq::new((k - n) as nat, |i: int| ' '));
    }
    proof {
        if n >= w {
            assert(k == n);
            assert(r@ =~= s@);
        }
    }
    r
}

/// One line of the task listing: name, schedule hint (or `-`), description.
pub open spec fn listing_line_spec(t: TaskSpec) -> Seq<char> {
    pad_right(t.name@, 12) + " "@ + pad_right(
        match t.interval_hint {
            Some(h) => h@,
            None => "-"@,
        },
        8,
    ) + " "@ + t.description@ + "\n"@
}

pub fn listing_line(t: &TaskSpec) -> (r: String)
    ensures
        r@ == listing_line_spec(*t),
{
    let mut r = padded(t.name.as_str(), 12);
    push_str(&mut r, " ");
    let hint = match &t.interval_hint {
        Some(h) => padded(h.as_str(), 8),
        None => padded("-", 8),
    };
    push_str(&mut r, hint.as_str());
    push_str(&mut r, " ");
    push_str(&mut r, t.description.as_str());
    push_str(&mut r, "\n");
    r
}

/// The listing line of a task whose definition could not be read.
pub fn broken_listing_line(name: &str, error: &str) -> (r: String)
    ensures
        r@ == pad_right(name@, 12) + " "@ + pad_right("-"@, 8) + " [无法解析: "@ + error@ + "]\n"@,
{
    let mut r = padded(name, 12);
    push_str(&mut r, " ");
    push_str(&mut r, padded("-", 8).as_str());
    push_str(&mut r, " [无法解析: ");
    push_str(&mut r, error);
    push_str(&mut r, "]\n");
    r
}

/// Whether the day's digest banner is due: today's digest exists and the
/// banner has not been shown today (`last_shown` is what the marker holds).
pub open spec fn digest_due(today: Seq<char>, digest_exists: bool, last_shown: Seq<char>) -> bool {
    digest_exists && trim_spec(last_shown) != today
}

pub const DIGEST_BANNER: &'static str = "[Digest] 今天的摘要已生成：";

/// The digest banner, shown at most once a day.
pub fn digest_notice(today: &str, digest_exists: bool, last_shown: &str, digest_path: &str) -> (r: Option<String>)
    ensures
        match r {
            Some(m) => digest_due(today@, digest_exists, last_shown@) && m@ == DIGEST_BANNER@ + digest_path@,
            None => !digest_due(today@, digest_exists, last_shown@),
        },
{
    if !digest_exists {
        return None;
    }
    let t = trim(last_shown);
    if crate::text::str_eq(t.as_str(), today) {
        return None;
    }
    let mut m = lit(DIGEST_BANNER);
    push_str(&mut m, digest_path);
    Some(m)
}

} // verus!
