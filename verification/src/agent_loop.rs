//! The agent's task loop: prompts, and the decisions taken between the
//! planner's replies and the tool runs (the caller performs both).
use crate::agent_tools::{parse_agent_loop_decision, reply_json, decision_of, opt_view, AgentLoopDecision, AgentToolAction};
use crate::text::{
    chars_of, dec, extend_chars, extend_dec, extend_str, join, join_strings, string_of,
    string_views, take_chars, take_chars_exec, trim, trim_str,
};
use vstd::prelude::*;
use vstd::string::StringExecFns;

verus! {

broadcast use vstd::string::group_string_axioms;

/// What the loop gathered: tool log lines, planner notes and the planner's
/// own completion message.
pub struct AgentLoopOutcome {
    pub tool_logs: Vec<String>,
    pub planner_notes: Vec<String>,
    pub final_hint: Option<String>,
}

/// Opening of the planning prompt, up to the round budget.
pub const LOOP_PROMPT_HEAD: &'static str = "你是 LLM Wiki 的 Agent 执行器。\
你每轮只能返回 1 个 JSON 决策，不要 markdown 代码块，不要额外解释。\n\n\
可用工具：\n\
1) run_shell: {\"tool\":\"run_shell\",\"command\":\"...\",\"timeout_ms\":30000}\n\
2) search_wiki: {\"tool\":\"search_wiki\",\"query\":\"...\",\"limit\":5}\n\
3) read_wiki: {\"tool\":\"read_wiki\",\"path\":\"wiki/xxx.md\",\"max_chars\":1200}\n\n\
返回格式（必须是 JSON 对象）：\n\
{\"done\":false,\"note\":\"...\",\"action\":{...}}\n\
或\n\
{\"done\":true,\"final\":\"...\"}\n\n\
规则：\n\
1. 本轮最多 1 个 action；总预算 ";

/// Rules of the planning prompt, after the round budget.
pub const LOOP_PROMPT_RULES: &'static str = " 轮。\n\
2. run_shell 仅允许只读探测命令；可能被策略拒绝。\n\
3. 优先使用 search_wiki/read_wiki 获取知识库证据。\n\
4. 信息不足时可继续下一轮；若已足够则 done=true。\n\n\
用户任务：\n";

/// Opening of the summary prompt, up to the user's task.
pub const FINAL_PROMPT_HEAD: &'static str = "你是 LLM Wiki 的 Agent 任务模式总结器。\
基于用户任务与工具输出，给出可执行结论。\n\n\
输出格式（必须包含以下四节）：\n\
## 任务理解\n\
## 执行计划\n\
## 风险与护栏\n\
## 当前结论\n\n\
用户任务：\n";

/// Text of the planning prompt.
pub open spec fn loop_prompt_text(
    instruction: Seq<char>,
    budget: u32,
    wiki_excerpt: Seq<char>,
    history: Seq<char>,
) -> Seq<char> {
    LOOP_PROMPT_HEAD@ + dec(budget as nat) + LOOP_PROMPT_RULES@ + instruction
        + "\n\n知识库索引摘要：\n"@ + wiki_excerpt + "\n\n当前工具历史：\n"@ + history + "\n"@
}

/// Text of the summary prompt.
pub open spec fn final_prompt_text(
    instruction: Seq<char>,
    tool_context: Seq<char>,
    planner_note_text: Seq<char>,
    final_hint: Seq<char>,
    wiki_excerpt: Seq<char>,
) -> Seq<char> {
    FINAL_PROMPT_HEAD@ + instruction + "\n\n工具输出：\n"@ + tool_context + "\n\n规划备注：\n"@
        + planner_note_text + "\n\nAgent 自述完成信号：\n"@ + final_hint
        + "\n\n知识库索引摘要：\n"@ + wiki_excerpt + "\n"@
}

/// The prompt that asks the planner for one round's decision.
pub fn build_loop_prompt(
    instruction: &str,
    iteration_budget: u32,
    wiki_excerpt: &str,
    history: &str,
) -> (r: String)
    ensures
        r@ == loop_prompt_text(instruction@, iteration_budget, wiki_excerpt@, history@),
{
    let mut v = chars_of(LOOP_PROMPT_HEAD);
    extend_dec(&mut v, iteration_budget as u64);
    extend_str(&mut v, LOOP_PROMPT_RULES);
    extend_str(&mut v, instruction);
    extend_str(&mut v, "\n\n知识库索引摘要：\n");
    extend_str(&mut v, wiki_excerpt);
    extend_str(&mut v, "\n\n当前工具历史：\n");
    extend_str(&mut v, history);
    extend_str(&mut v, "\n");
    string_of(&v)
}

/// The prompt that asks for the final answer of a task.
pub fn build_final_prompt(
    instruction: &str,
    tool_context: &str,
    planner_note_text: &str,
    final_hint: &str,
    wiki_excerpt: &str,
) -> (r: String)
    ensures
        r@ == final_prompt_text(
            instruction@,
            tool_context@,
            planner_note_text@,
            final_hint@,
            wiki_excerpt@,
        ),
{
    let mut v = chars_of(FINAL_PROMPT_HEAD);
    extend_str(&mut v, instruction);
    extend_str(&mut v, "\n\n工具输出：\n");
    extend_str(&mut v, tool_context);
    extend_str(&mut v, "\n\n规划备注：\n");
    extend_str(&mut v, planner_note_text);
    extend_str(&mut v, "\n\nAgent 自述完成信号：\n");
    extend_str(&mut v, final_hint);
    extend_str(&mut v, "\n\n知识库索引摘要：\n");
    extend_str(&mut v, wiki_excerpt);
    extend_str(&mut v, "\n");
    string_of(&v)
}

/// Event text announcing a tool run (round numbers start at 1).
pub open spec fn tool_start_text(idx: u32, action: AgentToolAction) -> Seq<char> {
    let n = dec((idx + 1) as nat);
    match action {
        AgentToolAction::RunShell { command, .. } => "🔧 tool_start #"@ + n + " run_shell: "@
            + take_chars(command@, 100),
        AgentToolAction::SearchWiki { query, limit } => "🔧 tool_start #"@ + n
            + " search_wiki: "@ + take_chars(query@, 80) + " (limit="@ + dec(limit as nat) + ")"@,
        AgentToolAction::ReadWiki { path, max_chars } => "🔧 tool_start #"@ + n + " read_wiki: "@
            + take_chars(path@, 80) + " (max_chars="@ + dec(max_chars as nat) + ")"@,
        AgentToolAction::WriteWiki { path, .. } => "🔧 tool_start #"@ + n + " write_wiki: "@
            + take_chars(path@, 80),
    }
}

/// Event text announcing a tool run.
pub fn build_tool_start_message(idx: u32, action: &AgentToolAction) -> (r: String)
    ensures
        r@ == tool_start_text(idx, *action),
{
    let mut v = chars_of("🔧 tool_start #");
    extend_dec(&mut v, idx as u64 + 1);
    match action {
        AgentToolAction::RunShell { command, .. } => {
            extend_str(&mut v, " run_shell: ");
            let c = chars_of(command.as_str());
            extend_chars(&mut v, &take_chars_exec(&c, 100));
        },
        AgentToolAction::SearchWiki { query, limit } => {
            extend_str(&mut v, " search_wiki: ");
            let c = chars_of(query.as_str());
            extend_chars(&mut v, &take_chars_exec(&c, 80));
            extend_str(&mut v, " (limit=");
            extend_dec(&mut v, *limit as u64);
            extend_str(&mut v, ")");
        },
        AgentToolAction::ReadWiki { path, max_chars } => {
            extend_str(&mut v, " read_wiki: ");
            let c = chars_of(path.as_str());
            extend_chars(&mut v, &take_chars_exec(&c, 80));
            extend_str(&mut v, " (max_chars=");
            extend_dec(&mut v, *max_chars as u64);
            extend_str(&mut v, ")");
        },
        AgentToolAction::WriteWiki { path, .. } => {
            extend_str(&mut v, " write_wiki: ");
            let c = chars_of(path.as_str());
            extend_chars(&mut v, &take_chars_exec(&c, 80));
        },
    }
    string_of(&v)
}

// ───────────────────────── the task loop ─────────────────────────

/// Level and text of an event appended to a run's log.
pub struct LoopEvent {
    pub level: String,
    pub message: String,
}

/// Loop state between rounds.
pub struct AgentLoopState {
    pub instruction: String,
    pub wiki_excerpt: String,
    pub iteration_budget: u32,
    /// Index of the current round.
    pub round: u32,
    /// Whether the loop has stopped.
    pub stopped: bool,
    pub outcome: AgentLoopOutcome,
}

/// What the caller does after the planner replied.
pub enum PlannerStep {
    /// Log the events and stop.
    Stop { event: LoopEvent },
    /// Log the event, then run the tool and report its result.
    RunTool { event: LoopEvent, action: AgentToolAction },
}

/// Tool history shown to the planner.
pub open spec fn history_text(logs: Seq<Seq<char>>) -> Seq<char> {
    if logs.len() == 0 {
        "（暂无工具历史）"@
    } else {
        join(logs, "\n"@)
    }
}

/// Text of the final hint kept from a completion message.
pub open spec fn hint_of(final_answer: Option<Seq<char>>) -> Option<Seq<char>> {
    match final_answer {
        Some(f) => if trim(f).len() > 0 {
            Some(trim(f))
        } else {
            None
        },
        None => None,
    }
}

/// Event appended for a round whose reply held no decision.
pub open spec fn unreadable_text(idx: u32) -> Seq<char> {
    "⚠️ 第 "@ + dec((idx + 1) as nat) + " 轮规划输出无法解析，停止循环"@
}

/// Event appended for a round that declared the task complete.
pub open spec fn done_text(idx: u32) -> Seq<char> {
    "✅ 任务在第 "@ + dec((idx + 1) as nat) + " 轮声明完成"@
}

/// Event appended for a round that asked for no action.
pub open spec fn no_action_text(idx: u32) -> Seq<char> {
    "⚠️ 第 "@ + dec((idx + 1) as nat) + " 轮未返回 action，停止循环"@
}

/// Event appended once a tool has run.
pub open spec fn tool_end_text(idx: u32, log_line: Seq<char>) -> Seq<char> {
    "🔧 tool_end #"@ + dec((idx + 1) as nat) + " "@ + log_line
}

fn round_message(head: &str, idx: u32, tail: &str) -> (r: String)
    ensures
        r@ == head@ + dec((idx + 1) as nat) + tail@,
{
    let mut v = chars_of(head);
    extend_dec(&mut v, idx as u64 + 1);
    extend_str(&mut v, tail);
    string_of(&v)
}

impl AgentLoopState {
    /// Whether the loop may ask the planner for another round.
    pub open spec fn running(&self) -> bool {
        !self.stopped && self.round < self.iteration_budget
    }

    /// What every step keeps: one tool log per finished round, and no more
    /// rounds than the budget.
    pub open spec fn wf(&self) -> bool {
        &&& self.outcome.tool_logs@.len() == self.round
        &&& self.round <= self.iteration_budget
    }

    /// A loop about to start its first round.
    pub fn new(instruction: String, wiki_excerpt: String, iteration_budget: u32) -> (r: Self)
        ensures
            r.wf(),
            r.instruction == instruction,
            r.wiki_excerpt == wiki_excerpt,
            r.iteration_budget == iteration_budget,
            r.round == 0,
            !r.stopped,
            r.outcome.tool_logs@.len() == 0,
            r.outcome.planner_notes@.len() == 0,
            r.outcome.final_hint is None,
    {
        AgentLoopState {
            instruction,
            wiki_excerpt,
            iteration_budget,
            round: 0,
            stopped: false,
            outcome: AgentLoopOutcome {
                tool_logs: Vec::new(),
                planner_notes: Vec::new(),
                final_hint: None,
            },
        }
    }

    /// The planning prompt of the current round, or `None` once the loop
    /// has stopped or spent its budget.
    pub fn next_prompt(&self) -> (r: Option<String>)
        ensures
            self.running() ==> r is Some && r->0@ == loop_prompt_text(
                self.instruction@,
                self.iteration_budget,
                self.wiki_excerpt@,
                history_text(string_views(self.outcome.tool_logs@)),
            ),
            !self.running() ==> r is None,
    {
        if self.stopped || self.round >= self.iteration_budget {
            return None;
        }
        let history = if self.outcome.tool_logs.len() == 0 {
            String::from_str("（暂无工具历史）")
        } else {
            string_of(&join_strings(&self.outcome.tool_logs, "\n"))
        };
        Some(
            build_loop_prompt(
                self.instruction.as_str(),
                self.iteration_budget,
                self.wiki_excerpt.as_str(),
                history.as_str(),
            ),
        )
    }

    /// Takes the planner's reply for the current round: records its note,
    /// and either stops (unreadable reply, completion, no action) or asks
    /// for the requested tool to run.
    pub fn on_planner_reply(&mut self, planner_raw: &str) -> (r: PlannerStep)
        requires
            old(self).running(),
        ensures
            old(self).wf() ==> final(self).wf(),
            final(self).instruction == old(self).instruction,
            final(self).wiki_excerpt == old(self).wiki_excerpt,
            final(self).iteration_budget == old(self).iteration_budget,
            final(self).round == old(self).round,
            final(self).outcome.tool_logs == old(self).outcome.tool_logs,
            match reply_json(planner_raw@) {
                None => {
                    &&& r matches PlannerStep::Stop { event } && event.level@ == "warn"@
                        && event.message@ == unreadable_text(old(self).round)
                    &&& final(self).stopped
                    &&& final(self).outcome.planner_notes == old(self).outcome.planner_notes
                    &&& final(self).outcome.final_hint == old(self).outcome.final_hint
                },
                Some(json) => exists|d: AgentLoopDecision|
                    {
                        &&& #[trigger] decision_of(json, d)
                        &&& string_views(final(self).outcome.planner_notes@) == match opt_view(
                            d.note,
                        ) {
                            Some(n) => if trim(n).len() > 0 {
                                string_views(old(self).outcome.planner_notes@).push(n)
                            } else {
                                string_views(old(self).outcome.planner_notes@)
                            },
                            None => string_views(old(self).outcome.planner_notes@),
                        }
                        &&& if d.done {
                            &&& r matches PlannerStep::Stop { event } && event.level@ == "info"@
                                && event.message@ == done_text(old(self).round)
                            &&& final(self).stopped
                            &&& opt_view(final(self).outcome.final_hint) == hint_of(
                                opt_view(d.final_answer),
                            )
                        } else {
                            &&& final(self).outcome.final_hint == old(self).outcome.final_hint
                            &&& match d.action {
                                None => {
                                    &&& r matches PlannerStep::Stop { event } && event.level@
                                        == "warn"@ && event.message@ == no_action_text(
                                        old(self).round,
                                    )
                                    &&& final(self).stopped
                                },
                                Some(a) => {
                                    &&& r matches PlannerStep::RunTool { event, action }
                                        && event.level@ == "info"@ && event.message@
                                        == tool_start_text(old(self).round, a) && action == a
                                    &&& !final(self).stopped
                                },
                            }
                        }
                    },
            },
    {
        let idx = self.round;
        let decision = match parse_agent_loop_decision(planner_raw) {
            Some(d) => d,
            None => {
                self.stopped = true;
                return PlannerStep::Stop {
                    event: LoopEvent {
                        level: String::from_str("warn"),
                        message: round_message("⚠️ 第 ", idx, " 轮规划输出无法解析，停止循环"),
                    },
                };
            },
        };
        let ghost d = decision;
        let AgentLoopDecision { done, final_answer, note, action } = decision;
        match note {
            Some(n) => {
                let t = trim_str(n.as_str());
                if t.len() > 0 {
                    self.outcome.planner_notes.push(n);
                    assert(string_views(self.outcome.planner_notes@) =~= string_views(
                        old(self).outcome.planner_notes@,
                    ).push(d.note->0@));
                }
            },
            None => {},
        }
        if done {
            let hint = match final_answer {
                Some(f) => {
                    let t = trim_str(f.as_str());
                    if t.len() > 0 {
                        Some(string_of(&t))
                    } else {
                        None
                    }
                },
                None => None,
            };
            self.outcome.final_hint = hint;
            self.stopped = true;
            return PlannerStep::Stop {
                event: LoopEvent {
                    level: String::from_str("info"),
                    message: round_message("✅ 任务在第 ", idx, " 轮声明完成"),
                },
            };
        }
        match action {
            None => {
                self.stopped = true;
                PlannerStep::Stop {
                    event: LoopEvent {
                        level: String::from_str("warn"),
                        message: round_message("⚠️ 第 ", idx, " 轮未返回 action，停止循环"),
                    },
                }
            },
            Some(a) => {
                let msg = build_tool_start_message(idx, &a);
                PlannerStep::RunTool {
                    event: LoopEvent { level: String::from_str("info"), message: msg },
                    action: a,
                }
            },
        }
    }

    /// Records the result of the tool run of the current round and moves to
    /// the next round; returns the event to append.
    pub fn on_tool_result(&mut self, level: String, log_line: String) -> (r: LoopEvent)
        requires
            old(self).running(),
        ensures
            old(self).wf() ==> final(self).wf(),
            final(self).instruction == old(self).instruction,
            final(self).wiki_excerpt == old(self).wiki_excerpt,
            final(self).iteration_budget == old(self).iteration_budget,
            final(self).round == old(self).round + 1,
            final(self).stopped == old(self).stopped,
            string_views(final(self).outcome.tool_logs@) == string_views(
                old(self).outcome.tool_logs@,
            ).push(log_line@),
            final(self).outcome.planner_notes == old(self).outcome.planner_notes,
            final(self).outcome.final_hint == old(self).outcome.final_hint,
            r.level == level,
            r.message@ == tool_end_text(old(self).round, log_line@),
    {
        let idx = self.round;
        let mut v = chars_of("🔧 tool_end #");
        extend_dec(&mut v, idx as u64 + 1);
        extend_str(&mut v, " ");
        extend_str(&mut v, log_line.as_str());
        let message = string_of(&v);
        self.outcome.tool_logs.push(log_line);
        assert(string_views(self.outcome.tool_logs@) =~= string_views(
            old(self).outcome.tool_logs@,
        ).push(log_line@));
        self.round = idx + 1;
        LoopEvent { level, message }
    }
}

/// The prompt that asks for the final answer of a finished loop: tool logs
/// (or "（无工具调用）"), notes joined by "；" (or "（无）"), and the hint
/// (or "（无）").
pub fn summary_prompt(instruction: &str, wiki_excerpt: &str, outcome: &AgentLoopOutcome) -> (r: String)
    ensures
        r@ == final_prompt_text(
            instruction@,
            if outcome.tool_logs@.len() == 0 {
                "（无工具调用）"@
            } else {
                join(string_views(outcome.tool_logs@), "\n"@)
            },
            if outcome.planner_notes@.len() == 0 {
                "（无）"@
            } else {
                join(string_views(outcome.planner_notes@), "；"@)
            },
            match outcome.final_hint {
                Some(h) => h@,
                None => "（无）"@,
            },
            wiki_excerpt@,
        ),
{
    let tool_context = if outcome.tool_logs.len() == 0 {
        String::from_str("（无工具调用）")
    } else {
        string_of(&join_strings(&outcome.tool_logs, "\n"))
    };
    let notes = if outcome.planner_notes.len() == 0 {
        String::from_str("（无）")
    } else {
        string_of(&join_strings(&outcome.planner_notes, "；"))
    };
    let hint = match &outcome.final_hint {
        Some(h) => h.clone(),
        None => String::from_str("（无）"),
    };
    build_final_prompt(instruction, tool_context.as_str(), notes.as_str(), hint.as_str(), wiki_excerpt)
}

/// The task's answer: the summarizer's reply trimmed, refused when empty.
pub fn finish_summary(answer: &str) -> (r: Result<String, String>)
    ensures
        trim(answer@).len() > 0 ==> (r matches Ok(a) && a@ == trim(answer@)),
        trim(answer@).len() == 0 ==> (r matches Err(e) && e@ == "任务模式返回空内容"@),
{
    let t = trim_str(answer);
    if t.len() == 0 {
        Err(String::from_str("任务模式返回空内容"))
    } else {
        Ok(string_of(&t))
    }
}

/// The loop never runs more rounds than its budget, and a stopped loop asks
/// for nothing more; over a whole run (every step keeps `wf`) it runs at
/// most one tool per round, and it ends only when stopped or out of budget.
pub proof fn lemma_loop_bounded(s: AgentLoopState)
    ensures
        s.running() ==> s.round < s.iteration_budget,
        s.stopped ==> !s.running(),
        s.wf() ==> s.outcome.tool_logs@.len() <= s.iteration_budget,
        s.wf() && !s.running() ==> s.stopped || s.round == s.iteration_budget,
{
}

// ───────────────────────── running a task ─────────────────────────

/// Round budget of a task: the requested one (4 when none) kept within 1..=8.
pub open spec fn task_budget(max_iterations: Option<u32>) -> u32 {
    let b = match max_iterations {
        Some(n) => n,
        None => 4,
    };
    if b < 1 {
        1
    } else if b > 8 {
        8
    } else {
        b
    }
}

/// How a task starts: its instruction trimmed (refused when blank), its
/// round budget, and the event announcing it with the first 80 characters
/// of the instruction.
pub fn plan_agent_task(instruction: &str, max_iterations: Option<u32>) -> (r: Result<(String, u32, String), String>)
    ensures
        trim(instruction@).len() == 0 ==> (r matches Err(e) && e@ == "任务指令不能为空"@),
        trim(instruction@).len() > 0 ==> (r matches Ok(p) && p.0@ == trim(instruction@) && p.1 == task_budget(
            max_iterations,
        ) && p.2@ == "任务模式已启动（beta，预算 "@ + dec(task_budget(max_iterations) as nat) + " 轮）："@
            + take_chars(trim(instruction@), 80)),
{
    let t = trim_str(instruction);
    if t.len() == 0 {
        return Err(String::from_str("任务指令不能为空"));
    }
    let requested: u32 = match max_iterations {
        Some(n) => n,
        None => 4,
    };
    let budget: u32 = if requested < 1 {
        1
    } else if requested > 8 {
        8
    } else {
        requested
    };
    let mut msg = chars_of("任务模式已启动（beta，预算 ");
    extend_dec(&mut msg, budget as u64);
    extend_str(&mut msg, " 轮）：");
    extend_chars(&mut msg, &take_chars_exec(&t, 80));
    Ok((string_of(&t), budget, string_of(&msg)))
}

/// The wiki excerpt shown to the planner: the first 1200 characters of the
/// wiki's index.
pub fn task_wiki_excerpt(index_text: &str) -> (r: String)
    ensures
        r@ == take_chars(index_text@, 1200),
{
    string_of(&take_chars_exec(&chars_of(index_text), 1200))
}

/// The event closing a task: how many tools ran, and the first 120
/// characters of the answer.
pub fn task_done_message(tool_runs: usize, answer: &str) -> (r: String)
    ensures
        r@ == "任务模式已完成（beta，多轮工具调用 "@ + dec(tool_runs as nat) + " 次）："@ + take_chars(answer@, 120),
{
    let mut msg = chars_of("任务模式已完成（beta，多轮工具调用 ");
    extend_dec(&mut msg, tool_runs as u64);
    extend_str(&mut msg, " 次）：");
    extend_chars(&mut msg, &take_chars_exec(&chars_of(answer), 120));
    string_of(&msg)
}

} // verus!
