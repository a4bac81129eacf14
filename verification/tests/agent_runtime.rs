use llm_wiki::agent_policy::{validate_agent_read_path, validate_agent_write_path};
use llm_wiki::agent_runtime::{
    make_result, read_action_result, read_page_text, search_action_result, search_hit_line,
    shell_action_result, truncate_chars, write_action_result,
};
use llm_wiki::models::ShellResult;

fn shell(stdout: &str, stderr: &str, exit_code: i32, blocked: bool, reason: Option<&str>) -> ShellResult {
    ShellResult {
        command: "ls".to_string(),
        stdout: stdout.to_string(),
        stderr: stderr.to_string(),
        exit_code,
        working_dir: "/v".to_string(),
        blocked,
        blocked_reason: reason.map(str::to_string),
        policy_action: "read".to_string(),
        policy_decision: "allow".to_string(),
        executor: "agent".to_string(),
    }
}

#[test]
fn shell_logs() {
    let r = shell_action_result(0, "ls", Ok(shell(" a.md \n", "", 0, false, None)));
    assert_eq!(r.level, "info");
    assert_eq!(
        r.log_line,
        "[tool#1/run_shell] cmd=`ls` action=read decision=allow exit=0 blocked=false output=a.md"
    );
    let r = shell_action_result(2, "x", Ok(shell("", " boom ", 2, false, None)));
    assert_eq!(r.level, "warn");
    assert!(r.log_line.ends_with("exit=2 blocked=false output=boom"));
    let r = shell_action_result(0, "x", Ok(shell("", "", -1, false, None)));
    assert!(r.log_line.ends_with("output=(exit -1)"));
    let r = shell_action_result(0, "rm", Ok(shell("", "", 0, true, None)));
    assert_eq!(r.level, "warn");
    assert!(r.log_line.ends_with("blocked=true output=blocked: unknown"));
    let r = shell_action_result(4, "x", Err("spawn failed".to_string()));
    assert_eq!(r.log_line, "[tool#5/run_shell] cmd=`x` error=spawn failed");
    assert!(!r.requires_approval && r.pending_write.is_none());
}

#[test]
fn read_logs() {
    assert_eq!(read_page_text("/v/wiki/a.md", "hello", 3), "path=/v/wiki/a.md chars=3 content=hel");
    let r = read_action_result(0, "wiki/a.md", 100, Ok("body".to_string()));
    assert_eq!(r.log_line, "[tool#1/read_wiki] path=`wiki/a.md` max_chars=100 output=body");
    let r = read_action_result(0, "x", 5, Err("nope".to_string()));
    assert_eq!(r.level, "warn");
    assert_eq!(r.log_line, "[tool#1/read_wiki] path=`x` max_chars=5 error=nope");
}

#[test]
fn write_logs_wait_for_approval() {
    let r = write_action_result(1, "wiki/a.md", "内容".to_string(), Ok("/v/wiki/a.md".to_string()));
    assert_eq!(r.level, "warn");
    assert!(r.requires_approval);
    assert_eq!(
        r.log_line,
        "[tool#2/write_wiki] path=`wiki/a.md` resolved=`/v/wiki/a.md` chars=2 decision=require_approval preview=内容"
    );
    assert_eq!(r.pending_write, Some(("/v/wiki/a.md".to_string(), "内容".to_string())));
    let r = write_action_result(0, "a.txt", "x".to_string(), Err("bad".to_string()));
    assert!(!r.requires_approval);
    assert_eq!(r.log_line, "[tool#1/write_wiki] path=`a.txt` chars=1 error=bad");
}

#[test]
fn search_logs() {
    assert_eq!(search_hit_line("p", "T", "0.500", &"s".repeat(100)), format!("p | T | score=0.500 | {}", "s".repeat(80)));
    let r = search_action_result(0, "q", 1, Ok(vec!["a".to_string(), "b".to_string()]));
    assert_eq!(r.log_line, "[tool#1/search_wiki] query=`q` limit=1 hits=2 output=a");
    let r = search_action_result(0, "q", 5, Ok(vec![]));
    assert_eq!(r.log_line, "[tool#1/search_wiki] query=`q` limit=5 hits=0 output=(no hits)");
    let r = search_action_result(0, "q", 5, Err("db".to_string()));
    assert_eq!(r.log_line, "[tool#1/search_wiki] query=`q` limit=5 error=db");
    assert_eq!(truncate_chars("abcdef", 2), "ab");
    assert_eq!(make_result("info", "x".to_string()).level, "info");
}

#[test]
fn path_guard_read() {
    assert_eq!(validate_agent_read_path(None, None, true, Some("md")), Ok(()));
    assert_eq!(
        validate_agent_read_path(None, None, false, Some("md")),
        Err("PathGuard 拒绝：仅允许读取 vault/wiki 目录".to_string())
    );
    assert_eq!(
        validate_agent_read_path(None, None, true, Some("txt")),
        Err("PathGuard 拒绝：仅允许读取 Markdown 页面".to_string())
    );
    assert_eq!(
        validate_agent_read_path(Some("e1"), Some("e2"), true, Some("md")),
        Err("PathGuard 失败：无法解析 wiki 根目录: e1".to_string())
    );
    assert_eq!(
        validate_agent_read_path(None, Some("e2"), true, Some("md")),
        Err("PathGuard 失败：无法解析目标路径: e2".to_string())
    );
}

#[test]
fn path_guard_write() {
    assert_eq!(validate_agent_write_path(None, true, None, true, Some("md")), Ok(()));
    assert_eq!(
        validate_agent_write_path(None, false, None, true, Some("md")),
        Err("PathGuard 失败：目标路径缺少父目录".to_string())
    );
    assert_eq!(
        validate_agent_write_path(None, true, Some("gone"), true, Some("md")),
        Err("PathGuard 失败：无法解析目标父目录: gone".to_string())
    );
    assert_eq!(
        validate_agent_write_path(None, true, None, false, Some("md")),
        Err("PathGuard 拒绝：仅允许写入 vault/wiki 目录".to_string())
    );
    assert_eq!(
        validate_agent_write_path(None, true, None, true, None),
        Err("PathGuard 拒绝：仅允许写入 Markdown 页面".to_string())
    );
}
