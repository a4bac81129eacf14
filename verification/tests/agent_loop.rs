use llm_wiki::agent_loop::{
    build_final_prompt, build_loop_prompt, build_tool_start_message, finish_summary,
    plan_agent_task, summary_prompt, task_done_message, task_wiki_excerpt, AgentLoopOutcome, AgentLoopState,
    PlannerStep,
};
use llm_wiki::agent_tools::AgentToolAction;

#[test]
fn loop_prompt_contains_tool_contract() {
    let p = build_loop_prompt("任务", 3, "index", "history");
    assert!(p.contains("run_shell"));
    assert!(p.contains("search_wiki"));
    assert!(p.contains("read_wiki"));
    assert!(p.contains("总预算 3 轮"));
}

#[test]
fn final_prompt_contains_required_sections() {
    let p = build_final_prompt("任务", "工具", "备注", "完成", "索引");
    assert!(p.contains("## 任务理解"));
    assert!(p.contains("## 执行计划"));
    assert!(p.contains("## 风险与护栏"));
    assert!(p.contains("## 当前结论"));
}

#[test]
fn loop_prompt_layout() {
    let p = build_loop_prompt("做事", 12, "摘要", "历史");
    assert!(p.starts_with("你是 LLM Wiki 的 Agent 执行器。你每轮只能返回 1 个 JSON 决策"));
    assert!(p.contains("{\"done\":true,\"final\":\"...\"}\n\n规则：\n"));
    assert!(p.ends_with("用户任务：\n做事\n\n知识库索引摘要：\n摘要\n\n当前工具历史：\n历史\n"));
}

#[test]
fn tool_start_messages() {
    let a = AgentToolAction::SearchWiki { query: "rust".into(), limit: 3 };
    assert_eq!(build_tool_start_message(0, &a), "🔧 tool_start #1 search_wiki: rust (limit=3)");
    let long: String = std::iter::repeat('x').take(150).collect();
    let r = AgentToolAction::RunShell { command: long, timeout_ms: 3000 };
    let m = build_tool_start_message(9, &r);
    assert_eq!(m.chars().count(), "🔧 tool_start #10 run_shell: ".chars().count() + 100);
}

#[test]
fn summarize_agent_task_uses_runtime_response() {
    let outcome = AgentLoopOutcome {
        tool_logs: vec!["tool-log".to_string()],
        planner_notes: vec!["note".to_string()],
        final_hint: Some("hint".to_string()),
    };
    let prompt = summary_prompt("任务", "索引", &outcome);
    assert!(prompt.contains("tool-log"));
    assert!(prompt.contains("note"));
    assert!(prompt.contains("hint"));
    let answer = finish_summary("最终答案").expect("总结应成功");
    assert_eq!(answer, "最终答案");
    assert_eq!(finish_summary("   ").unwrap_err(), "任务模式返回空内容");
}

#[test]
fn loop_runs_tool_then_stops_on_done() {
    let mut st = AgentLoopState::new("任务".into(), "索引".into(), 3);
    let p1 = st.next_prompt().unwrap();
    assert!(p1.contains("（暂无工具历史）"));
    match st.on_planner_reply(r#"{"note":"先查","action":{"tool":"search_wiki","query":"q"}}"#) {
        PlannerStep::RunTool { event, action } => {
            assert_eq!(event.level, "info");
            assert_eq!(event.message, "🔧 tool_start #1 search_wiki: q (limit=5)");
            assert!(matches!(action, AgentToolAction::SearchWiki { .. }));
        }
        _ => panic!("expected a tool run"),
    }
    let end = st.on_tool_result("info".into(), "log-1".into());
    assert_eq!(end.message, "🔧 tool_end #1 log-1");
    let p2 = st.next_prompt().unwrap();
    assert!(p2.contains("当前工具历史：\nlog-1\n"));
    match st.on_planner_reply(r#"{"done":true,"final":"  好了  "}"#) {
        PlannerStep::Stop { event } => assert_eq!(event.message, "✅ 任务在第 2 轮声明完成"),
        _ => panic!("expected stop"),
    }
    assert!(st.next_prompt().is_none());
    assert_eq!(st.outcome.final_hint.as_deref(), Some("好了"));
    assert_eq!(st.outcome.planner_notes, vec!["先查".to_string()]);
    assert_eq!(st.outcome.tool_logs, vec!["log-1".to_string()]);
}

#[test]
fn loop_stops_on_unreadable_reply_and_budget() {
    let mut st = AgentLoopState::new("t".into(), "e".into(), 1);
    match st.on_planner_reply("oops") {
        PlannerStep::Stop { event } => {
            assert_eq!(event.level, "warn");
            assert_eq!(event.message, "⚠️ 第 1 轮规划输出无法解析，停止循环");
        }
        _ => panic!("expected stop"),
    }
    let mut st = AgentLoopState::new("t".into(), "e".into(), 1);
    if let PlannerStep::RunTool { .. } = st.on_planner_reply(r#"{"action":{"tool":"read_wiki","path":"wiki/a.md"}}"#) {
        st.on_tool_result("warn".into(), "l".into());
    }
    assert!(st.next_prompt().is_none());
    let mut st = AgentLoopState::new("t".into(), "e".into(), 2);
    match st.on_planner_reply(r#"{"done":false}"#) {
        PlannerStep::Stop { event } => assert_eq!(event.message, "⚠️ 第 1 轮未返回 action，停止循环"),
        _ => panic!("expected stop"),
    }
}

#[test]
fn task_setup_trims_instruction_and_bounds_budget() {
    let (ins, budget, msg) = plan_agent_task("  整理 wiki  ", None).unwrap();
    assert_eq!(ins, "整理 wiki");
    assert_eq!(budget, 4);
    assert_eq!(msg, "任务模式已启动（beta，预算 4 轮）：整理 wiki");
    assert_eq!(plan_agent_task("x", Some(0)).unwrap().1, 1);
    assert_eq!(plan_agent_task("x", Some(20)).unwrap().1, 8);
    assert_eq!(plan_agent_task("x", Some(6)).unwrap().1, 6);
    assert_eq!(plan_agent_task("   ", Some(3)).unwrap_err(), "任务指令不能为空");
    let long: String = std::iter::repeat('a').take(100).collect();
    assert_eq!(plan_agent_task(&long, None).unwrap().2.chars().count(), "任务模式已启动（beta，预算 4 轮）：".chars().count() + 80);
}

#[test]
fn task_messages_are_cut() {
    let idx: String = std::iter::repeat('页').take(1300).collect();
    assert_eq!(task_wiki_excerpt(&idx).chars().count(), 1200);
    assert_eq!(task_done_message(3, "完成"), "任务模式已完成（beta，多轮工具调用 3 次）：完成");
    let ans: String = std::iter::repeat('b').take(200).collect();
    assert!(task_done_message(0, &ans).ends_with(&"b".repeat(120)));
}
