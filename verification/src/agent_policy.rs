//! Shell command policy, approval tickets for agent writes, and the path guard.
use crate::models::{decision_name, ShellPolicyConfig, ShellPolicyDecision};
use crate::text::{
    chars_eq, chars_of, contains, contains_exec, ends_with, ends_with_exec, ends_with_str,
    extend_chars, extend_str, find_from, first_word, first_word_exec, occurs_at, split_ws,
    starts_with, starts_with_exec, str_eq_chars, string_of, views, words,
};
use crate::unicode::{str_lowercase, to_lowercase};
use vstd::prelude::*;

verus! {

broadcast use vstd::string::group_string_axioms;

// ───────────────────────── command lists ─────────────────────────

/// Views of a list of string slices.
pub open spec fn str_views(v: Seq<&str>) -> Seq<Seq<char>> {
    v.map_values(|s: &str| s@)
}

/// Substrings that make a command destructive, in the order they are tested.
pub open spec fn destructive_patterns() -> Seq<Seq<char>> {
    seq![
        "rm -rf"@,
        "rm -r"@,
        "format "@,
        "reg delete"@,
        "reg add"@,
        "shutdown"@,
        "del /f"@,
        "rmdir /s"@,
        "remove-item -recurse"@,
        "clear-recyclebin"@,
        "diskpart"@,
        "bcdedit"@,
        "mkfs"@,
        "dd if="@,
        ":(){ :|:& };:"@,
        "stop-computer"@,
        "restart-computer"@,
    ]
}

/// First words that make a command a network command.
pub open spec fn network_commands() -> Seq<Seq<char>> {
    seq![
        "curl"@,
        "wget"@,
        "invoke-webrequest"@,
        "iwr"@,
        "irm"@,
        "invoke-restmethod"@,
        "ping"@,
        "nslookup"@,
        "tracert"@,
        "traceroute"@,
        "netstat"@,
        "ssh"@,
        "scp"@,
        "sftp"@,
        "ftp"@,
        "telnet"@,
    ]
}

/// First words of reading commands.
pub open spec fn read_commands() -> Seq<Seq<char>> {
    seq![
        "ls"@,
        "dir"@,
        "pwd"@,
        "cd"@,
        "cat"@,
        "type"@,
        "echo"@,
        "whoami"@,
        "hostname"@,
        "date"@,
        "get-date"@,
        "rg"@,
        "grep"@,
        "find"@,
        "git"@,
        "cargo"@,
        "npm"@,
    ]
}

/// First words of writing commands.
pub open spec fn write_commands() -> Seq<Seq<char>> {
    seq![
        "cp"@,
        "copy"@,
        "mv"@,
        "move"@,
        "mkdir"@,
        "md"@,
        "touch"@,
        "ni"@,
        "new-item"@,
        "set-content"@,
        "add-content"@,
        "sc"@,
        "ac"@,
        "write-output"@,
    ]
}

/// Script file extensions recognised on the first word.
pub open spec fn script_extensions() -> Seq<Seq<char>> {
    seq![".ps1"@, ".bat"@, ".cmd"@, ".sh"@]
}

fn destructive_list() -> (r: Vec<&'static str>)
    ensures
        str_views(r@) == destructive_patterns(),
{
    let v = vec![
        "rm -rf",
        "rm -r",
        "format ",
        "reg delete",
        "reg add",
        "shutdown",
        "del /f",
        "rmdir /s",
        "remove-item -recurse",
        "clear-recyclebin",
        "diskpart",
        "bcdedit",
        "mkfs",
        "dd if=",
        ":(){ :|:& };:",
        "stop-computer",
        "restart-computer",
    ];
    assert(str_views(v@) =~= destructive_patterns());
    v
}

fn network_list() -> (r: Vec<&'static str>)
    ensures
        str_views(r@) == network_commands(),
{
    let v = vec![
        "curl",
        "wget",
        "invoke-webrequest",
        "iwr",
        "irm",
        "invoke-restmethod",
        "ping",
        "nslookup",
        "tracert",
        "traceroute",
        "netstat",
        "ssh",
        "scp",
        "sftp",
        "ftp",
        "telnet",
    ];
    assert(str_views(v@) =~= network_commands());
    v
}

fn read_list() -> (r: Vec<&'static str>)
    ensures
        str_views(r@) == read_commands(),
{
    let v = vec![
        "ls",
        "dir",
        "pwd",
        "cd",
        "cat",
        "type",
        "echo",
        "whoami",
        "hostname",
        "date",
        "get-date",
        "rg",
        "grep",
        "find",
        "git",
        "cargo",
        "npm",
    ];
    assert(str_views(v@) =~= read_commands());
    v
}

fn write_list() -> (r: Vec<&'static str>)
    ensures
        str_views(r@) == write_commands(),
{
    let v = vec![
        "cp",
        "copy",
        "mv",
        "move",
        "mkdir",
        "md",
        "touch",
        "ni",
        "new-item",
        "set-content",
        "add-content",
        "sc",
        "ac",
        "write-output",
    ];
    assert(str_views(v@) =~= write_commands());
    v
}

fn script_ext_list() -> (r: Vec<&'static str>)
    ensures
        str_views(r@) == script_extensions(),
{
    let v = vec![".ps1", ".bat", ".cmd", ".sh"];
    assert(str_views(v@) =~= script_extensions());
    v
}

/// Index of the first pattern of `pats`, from `k` on, that occurs in `s`.
pub open spec fn first_hit(s: Seq<char>, pats: Seq<Seq<char>>, k: int) -> Option<int>
    decreases pats.len() - k,
{
    if k < 0 || k >= pats.len() {
        None
    } else if contains(s, pats[k]) {
        Some(k)
    } else {
        first_hit(s, pats, k + 1)
    }
}

/// Index of the first entry of `list` that `s` contains.
fn first_hit_exec(s: &[char], list: &Vec<&'static str>) -> (r: Option<usize>)
    ensures
        match r {
            Some(k) => first_hit(s@, str_views(list@), 0) == Some(k as int) && k < list.len(),
            None => first_hit(s@, str_views(list@), 0) is None,
        },
{
    let mut k: usize = 0;
    while k < list.len()
        invariant
            k <= list.len(),
            first_hit(s@, str_views(list@), 0) == first_hit(s@, str_views(list@), k as int),
        decreases list.len() - k,
    {
        let pat = chars_of(list[k]);
        let hit = contains_exec(s, &pat);
        assert(str_views(list@)[k as int] == list@[k as int]@);
        if hit {
            return Some(k);
        }
        k = k + 1;
    }
    None
}

/// Whether `w` equals one of the entries of `list`.
fn list_has(list: &Vec<&'static str>, w: &[char]) -> (r: bool)
    ensures
        r == str_views(list@).contains(w@),
{
    let mut k: usize = 0;
    while k < list.len()
        invariant
            k <= list.len(),
            forall|j: int| 0 <= j < k ==> str_views(list@)[j] != w@,
        decreases list.len() - k,
    {
        assert(str_views(list@)[k as int] == list@[k as int]@);
        if str_eq_chars(list[k], w) {
            return true;
        }
        k = k + 1;
    }
    false
}

/// Repeatedly removes a prefix (`str::trim_start_matches` with a string pattern).
pub open spec fn strip_all(s: Seq<char>, p: Seq<char>) -> Seq<char>
    decreases s.len(),
{
    if p.len() > 0 && starts_with(s, p) {
        strip_all(s.skip(p.len() as int), p)
    } else {
        s
    }
}

/// Removes every leading copy of `p`.
pub fn strip_all_exec(s: &[char], p: &str) -> (r: Vec<char>)
    ensures
        r@ == strip_all(s@, p@),
{
    let pc = chars_of(p);
    let mut cur: Vec<char> = crate::text::slice_chars(s, 0, s.len());
    assert(cur@ =~= s@);
    if pc.len() == 0 {
        return cur;
    }
    while starts_with_exec(&cur, &pc)
        invariant
            pc@ == p@,
            pc.len() > 0,
            strip_all(cur@, p@) == strip_all(s@, p@),
        decreases cur.len(),
    {
        let next = crate::text::slice_chars(&cur, pc.len(), cur.len());
        assert(next@ =~= cur@.skip(pc.len() as int));
        cur = next;
    }
    cur
}

/// Whether a (lowercased) command runs a script: a script file as first word,
/// `bash`/`sh` with a shell script, or `-file` followed by a `.ps1`/`.bat` file.
pub open spec fn is_script(lower: Seq<char>) -> bool {
    let first = first_word(lower);
    let stripped = strip_all(strip_all(first, "./"@), ".\\"@);
    let ws = words(lower);
    ||| exists|k: int| 0 <= k < 4 && ends_with(stripped, #[trigger] script_extensions()[k])
    ||| ((first == "bash"@ || first == "sh"@) && ws.len() > 1 && (ends_with(ws[1], ".sh"@)
        || ends_with(ws[1], ".bash"@)))
    ||| exists|i: int|
        #![trigger occurs_at(lower, "-file "@, i)]
        occurs_at(lower, "-file "@, i) && (forall|j: int|
            0 <= j < i ==> !occurs_at(lower, "-file "@, j)) && {
            let filename = first_word(lower.skip(i + 6));
            ends_with(filename, ".ps1"@) || ends_with(filename, ".bat"@)
        }
}

/// Running a shell script through `bash` or `sh` is a script command:
/// whenever the first word is `bash` or `sh` and the second ends in `.sh` or
/// `.bash`, the command is a script, and it is classified `Script` unless it
/// is destructive.
pub proof fn lemma_shell_runs_script(lower: Seq<char>)
    requires
        crate::text::first_word(lower) == "bash"@ || crate::text::first_word(lower) == "sh"@,
        crate::text::words(lower).len() > 1,
        ends_with(crate::text::words(lower)[1], ".sh"@) || ends_with(crate::text::words(lower)[1], ".bash"@),
    ensures
        is_script(lower),
        first_hit(lower, destructive_patterns(), 0) is None ==> command_class(lower) == ShellAction::Script,
{
}

/// Whether a lowercased command runs a script.
pub fn is_script_command(lower: &[char]) -> (r: bool)
    ensures
        r == is_script(lower@),
{
    let ws = split_ws(lower);
    let first = first_word_exec(lower);
    let s1 = strip_all_exec(&first, "./");
    let stripped = strip_all_exec(&s1, ".\\");
    let exts = script_ext_list();
    assert(exts@.len() == str_views(exts@).len());
    let mut k: usize = 0;
    while k < exts.len()
        invariant
            k <= exts.len(),
            exts.len() == 4,
            stripped@ == strip_all(strip_all(first_word(lower@), "./"@), ".\\"@),
            str_views(exts@) == script_extensions(),
            forall|j: int| 0 <= j < k ==> !ends_with(stripped@, #[trigger] script_extensions()[j]),
        decreases exts.len() - k,
    {
        assert(str_views(exts@)[k as int] == exts@[k as int]@);
        if ends_with_str(&stripped, exts[k]) {
            assert(ends_with(stripped@, script_extensions()[k as int]));
            return true;
        }
        k = k + 1;
    }
    let bash = chars_of("bash");
    let sh = chars_of("sh");
    if chars_eq(&first, &bash) || chars_eq(&first, &sh) {
        if ws.len() > 1 {
            assert(views(ws@)[1] == ws@[1]@);
            if ends_with_str(&ws[1], ".sh") || ends_with_str(&ws[1], ".bash") {
                return true;
            }
        }
    }
    let flag = chars_of("-file ");
    proof {
        reveal_strlit("-file ");
        assert(flag@.len() == 6);
    }
    match find_from(lower, &flag, 0) {
        Some(idx) => {
            assert(occurs_at(lower@, flag@, idx as int));
            assert(idx + flag@.len() <= lower@.len());
            assert(lower@.len() == lower.len());
            assert(flag@.len() == flag.len());
            let start = idx + flag.len();
            let rest = crate::text::slice_chars(lower, start, lower.len());
            assert(rest@ =~= lower@.skip(idx + 6));
            let filename = first_word_exec(&rest);
            if ends_with_str(&filename, ".ps1") || ends_with_str(&filename, ".bat") {
                return true;
            }
            proof {
                assert forall|i: int|
                    #![trigger occurs_at(lower@, "-file "@, i)]
                    occurs_at(lower@, "-file "@, i) && (forall|j: int|
                        0 <= j < i ==> !occurs_at(lower@, "-file "@, j)) implies !{
                    let filename = first_word(lower@.skip(i + 6));
                    ends_with(filename, ".ps1"@) || ends_with(filename, ".bat"@)
                } by {
                    if i < idx {
                    } else if i > idx {
                        assert(!occurs_at(lower@, "-file "@, idx as int));
                    }
                }
            }
            false
        },
        None => false,
    }
}

// ───────────────────────── classification ─────────────────────────

/// Class of a shell command.
#[derive(Debug, Clone, Copy, PartialEq, Eq, Structural)]
pub enum ShellAction {
    Destructive,
    Script,
    Network,
    Read,
    Write,
    Unknown,
}

/// Wire name of a command class.
pub open spec fn action_name(a: ShellAction) -> Seq<char> {
    match a {
        ShellAction::Destructive => "destructive"@,
        ShellAction::Script => "script"@,
        ShellAction::Network => "network"@,
        ShellAction::Read => "read"@,
        ShellAction::Write => "write"@,
        ShellAction::Unknown => "unknown"@,
    }
}

impl ShellAction {
    /// Wire name of the class.
    pub fn as_str(&self) -> (r: &'static str)
        ensures
            r@ == action_name(*self),
    {
        match self {
            ShellAction::Destructive => "destructive",
            ShellAction::Script => "script",
            ShellAction::Network => "network",
            ShellAction::Read => "read",
            ShellAction::Write => "write",
            ShellAction::Unknown => "unknown",
        }
    }
}

/// Class of a lowercased command, by priority:
/// destructive > script > network > read / write / unknown.
pub open spec fn command_class(lower: Seq<char>) -> ShellAction {
    let first = first_word(lower);
    if first_hit(lower, destructive_patterns(), 0) is Some {
        ShellAction::Destructive
    } else if is_script(lower) {
        ShellAction::Script
    } else if network_commands().contains(first) {
        ShellAction::Network
    } else if read_commands().contains(first) {
        ShellAction::Read
    } else if write_commands().contains(first) {
        ShellAction::Write
    } else {
        ShellAction::Unknown
    }
}

/// Reason attached to a configured decision.
pub open spec fn decision_reason(d: ShellPolicyDecision, prefix: Seq<char>) -> Option<Seq<char>> {
    match d {
        ShellPolicyDecision::AutoAllow => None,
        ShellPolicyDecision::RequireApproval => Some(prefix + "，需人工确认"@),
        ShellPolicyDecision::Deny => Some(prefix + "，策略拒绝执行"@),
    }
}

/// Configured decision and reason prefix for a non-destructive class and an
/// origin; `None` when the command is allowed without condition.
pub open spec fn configured(class: ShellAction, executor: Seq<char>, config: ShellPolicyConfig) -> Option<
    (ShellPolicyDecision, Seq<char>),
> {
    match class {
        ShellAction::Script => Some((config.script_decision, "策略命中：脚本类命令"@)),
        ShellAction::Network => Some((config.network_decision, "策略命中：网络类命令"@)),
        _ => if executor == "agent"@ {
            match class {
                ShellAction::Read => Some(
                    (config.agent_read_decision, "策略命中：agent 来源只读命令"@),
                ),
                ShellAction::Write => Some(
                    (config.agent_write_decision, "策略命中：agent 来源写入命令"@),
                ),
                _ => Some((config.agent_unknown_decision, "策略命中：agent 来源未知命令"@)),
            }
        } else if executor == "manual"@ {
            match class {
                ShellAction::Write => Some(
                    (config.manual_write_decision, "策略命中：manual 来源写入命令"@),
                ),
                ShellAction::Unknown => Some(
                    (config.manual_unknown_decision, "策略命中：manual 来源未知命令"@),
                ),
                _ => None,
            }
        } else {
            None
        },
    }
}

/// Decision for a lowercased command from an origin under a policy.
pub open spec fn policy_decision(lower: Seq<char>, executor: Seq<char>, config: ShellPolicyConfig) -> ShellPolicyDecision {
    let class = command_class(lower);
    if class == ShellAction::Destructive {
        ShellPolicyDecision::Deny
    } else {
        match configured(class, executor, config) {
            Some(c) => c.0,
            None => ShellPolicyDecision::AutoAllow,
        }
    }
}

/// Reason given with the decision.
pub open spec fn policy_reason(lower: Seq<char>, executor: Seq<char>, config: ShellPolicyConfig) -> Option<Seq<char>> {
    let class = command_class(lower);
    match first_hit(lower, destructive_patterns(), 0) {
        Some(k) => Some("策略拒绝：命令包含高危模式 `"@ + destructive_patterns()[k] + "`"@),
        None => match configured(class, executor, config) {
            Some(c) => decision_reason(c.0, c.1),
            None => None,
        },
    }
}

/// Builds the `(action, decision, reason)` triple for a configured decision.
pub fn decision_tuple(action: ShellAction, decision: ShellPolicyDecision, reason_prefix: &str) -> (r: (
    &'static str,
    &'static str,
    Option<String>,
))
    ensures
        r.0@ == action_name(action),
        r.1@ == decision_name(decision),
        match decision_reason(decision, reason_prefix@) {
            Some(m) => r.2 is Some && r.2->0@ == m,
            None => r.2 is None,
        },
{
    match decision {
        ShellPolicyDecision::AutoAllow => (action.as_str(), "auto_allow", None),
        ShellPolicyDecision::RequireApproval => {
            let mut m: Vec<char> = chars_of(reason_prefix);
            extend_str(&mut m, "，需人工确认");
            (action.as_str(), "require_approval", Some(string_of(&m)))
        },
        ShellPolicyDecision::Deny => {
            let mut m: Vec<char> = chars_of(reason_prefix);
            extend_str(&mut m, "，策略拒绝执行");
            (action.as_str(), "deny", Some(string_of(&m)))
        },
    }
}

/// Classifies a shell command under the balanced (default) policy.
pub fn classify_shell_policy(command: &str, executor: &str) -> (r: (
    &'static str,
    &'static str,
    Option<String>,
))
    ensures
        ({
            let lower = str_lowercase(command@);
            let config = crate::models::balanced_policy();
            &&& r.0@ == action_name(command_class(lower))
            &&& r.1@ == decision_name(policy_decision(lower, executor@, config))
            &&& match policy_reason(lower, executor@, config) {
                Some(m) => r.2 is Some && r.2->0@ == m,
                None => r.2 is None,
            }
        }),
{
    let config = ShellPolicyConfig::default();
    classify_shell_policy_with_config(command, executor, &config)
}

/// Classifies a shell command and decides on it under a policy.
/// Returns the class name, the decision name and the reason for a refusal
/// or a request for approval.
pub fn classify_shell_policy_with_config(
    command: &str,
    executor: &str,
    config: &ShellPolicyConfig,
) -> (r: (&'static str, &'static str, Option<String>))
    ensures
        ({
            let lower = str_lowercase(command@);
            &&& r.0@ == action_name(command_class(lower))
            &&& r.1@ == decision_name(policy_decision(lower, executor@, *config))
            &&& match policy_reason(lower, executor@, *config) {
                Some(m) => r.2 is Some && r.2->0@ == m,
                None => r.2 is None,
            }
        }),
{
    let lower_s = to_lowercase(command);
    let lower = chars_of(lower_s.as_str());
    let ghost lw = lower@;
    // 1. destructive: always denied
    let destructive = destructive_list();
    match first_hit_exec(&lower, &destructive) {
        Some(k) => {
            let mut m: Vec<char> = chars_of("策略拒绝：命令包含高危模式 `");
            extend_str(&mut m, destructive[k]);
            extend_str(&mut m, "`");
            assert(str_views(destructive@)[k as int] == destructive@[k as int]@);
            return ("destructive", "deny", Some(string_of(&m)));
        },
        None => {},
    }
    // 2. script
    if is_script_command(&lower) {
        return decision_tuple(ShellAction::Script, config.script_decision, "策略命中：脚本类命令");
    }
    // 3. network
    let first = first_word_exec(&lower);
    if list_has(&network_list(), &first) {
        return decision_tuple(ShellAction::Network, config.network_decision, "策略命中：网络类命令");
    }
    // 4. read / write / unknown by origin
    let action = if list_has(&read_list(), &first) {
        ShellAction::Read
    } else if list_has(&write_list(), &first) {
        ShellAction::Write
    } else {
        ShellAction::Unknown
    };
    assert(action == command_class(lw));
    let agent = chars_of("agent");
    let manual = chars_of("manual");
    if str_eq_chars(executor, &agent) {
        match action {
            ShellAction::Read => decision_tuple(
                action,
                config.agent_read_decision,
                "策略命中：agent 来源只读命令",
            ),
            ShellAction::Write => decision_tuple(
                action,
                config.agent_write_decision,
                "策略命中：agent 来源写入命令",
            ),
            _ => decision_tuple(
                action,
                config.agent_unknown_decision,
                "策略命中：agent 来源未知命令",
            ),
        }
    } else if str_eq_chars(executor, &manual) {
        match action {
            ShellAction::Write => decision_tuple(
                action,
                config.manual_write_decision,
                "策略命中：manual 来源写入命令",
            ),
            ShellAction::Unknown => decision_tuple(
                action,
                config.manual_unknown_decision,
                "策略命中：manual 来源未知命令",
            ),
            _ => (action.as_str(), "auto_allow", None),
        }
    } else {
        (action.as_str(), "auto_allow", None)
    }
}

// ───────────────────────── policy laws ─────────────────────────

/// A command containing a destructive pattern is denied, with a reason,
/// whatever its origin and whatever the policy.
pub proof fn lemma_destructive_always_denied(
    lower: Seq<char>,
    executor: Seq<char>,
    config: ShellPolicyConfig,
)
    requires
        first_hit(lower, destructive_patterns(), 0) is Some,
    ensures
        command_class(lower) == ShellAction::Destructive,
        policy_decision(lower, executor, config) == ShellPolicyDecision::Deny,
        policy_reason(lower, executor, config) is Some,
{
}

/// A command is allowed outright exactly when no reason is given.
pub proof fn lemma_reason_iff_not_allowed(
    lower: Seq<char>,
    executor: Seq<char>,
    config: ShellPolicyConfig,
)
    ensures
        (policy_decision(lower, executor, config) == ShellPolicyDecision::AutoAllow) <==> (
        policy_reason(lower, executor, config) is None),
{
}

/// Outside destructive commands, the decision is the one the policy sets for
/// the command's class and origin (and an outright allow when it sets none).
pub proof fn lemma_decision_follows_policy(
    lower: Seq<char>,
    executor: Seq<char>,
    config: ShellPolicyConfig,
)
    requires
        command_class(lower) != ShellAction::Destructive,
    ensures
        policy_decision(lower, executor, config) == match configured(
            command_class(lower),
            executor,
            config,
        ) {
            Some(c) => c.0,
            None => ShellPolicyDecision::AutoAllow,
        },
        command_class(lower) == ShellAction::Script ==> policy_decision(lower, executor, config)
            == config.script_decision,
        command_class(lower) == ShellAction::Network ==> policy_decision(lower, executor, config)
            == config.network_decision,
{
}

/// Under the power-user profile only destructive commands are refused and
/// only scripts need approval; everything else runs at once.
pub proof fn lemma_power_user_profile(lower: Seq<char>, executor: Seq<char>)
    ensures
        ({
            let config = crate::models::profile_policy(crate::models::ShellPolicyProfile::PowerUser);
            let d = policy_decision(lower, executor, config);
            let c = command_class(lower);
            &&& c == ShellAction::Destructive ==> d == ShellPolicyDecision::Deny
            &&& c == ShellAction::Script ==> d == ShellPolicyDecision::RequireApproval
            &&& (c != ShellAction::Destructive && c != ShellAction::Script) ==> d
                == ShellPolicyDecision::AutoAllow
        }),
{
}

/// Under the strict profile no command from the agent is allowed outright,
/// except reading commands, which need approval.
pub proof fn lemma_strict_profile_agent(lower: Seq<char>)
    ensures
        ({
            let config = crate::models::profile_policy(crate::models::ShellPolicyProfile::Strict);
            let d = policy_decision(lower, "agent"@, config);
            &&& d != ShellPolicyDecision::AutoAllow
            &&& d == ShellPolicyDecision::RequireApproval ==> command_class(lower)
                == ShellAction::Read
        }),
{
}

// ───────────────────────── write tickets ─────────────────────────

/// Lifetime of an approval ticket, in nanoseconds (five minutes).
pub const TICKET_TTL_NANOS: u64 = 300_000_000_000;

/// Approval tickets for agent writes: path and the time the ticket was
/// granted, in nanoseconds on a monotonic clock chosen by the caller.
pub struct WriteTicketCache {
    entries: Vec<(String, u64)>,
}

/// Time elapsed from `t` to `now`, zero when `now` is earlier.
pub open spec fn elapsed(t: u64, now: u64) -> int {
    if now >= t {
        now - t
    } else {
        0
    }
}

impl WriteTicketCache {
    /// Each path holds at most one ticket.
    pub closed spec fn wf(&self) -> bool {
        forall|i: int, j: int|
            0 <= i < self.entries@.len() && 0 <= j < self.entries@.len() && i != j
                ==> self.entries@[i].0@ != self.entries@[j].0@
    }

    /// Grant time of each path's ticket.
    pub closed spec fn view(&self) -> Map<Seq<char>, u64> {
        Map::new(
            |p: Seq<char>| exists|i: int| 0 <= i < self.entries@.len() && self.entries@[i].0@ == p,
            |p: Seq<char>|
                self.entries@[choose|i: int|
                    0 <= i < self.entries@.len() && self.entries@[i].0@ == p].1,
        )
    }

    /// Whether a path holds a ticket that is still valid at `now`.
    pub open spec fn valid_at(&self, p: Seq<char>, now: u64) -> bool {
        self.view().contains_key(p) && elapsed(self.view()[p], now) < TICKET_TTL_NANOS
    }

    proof fn lemma_view_at(&self, i: int)
        requires
            self.wf(),
            0 <= i < self.entries@.len(),
        ensures
            self.view().contains_key(self.entries@[i].0@),
            self.view()[self.entries@[i].0@] == self.entries@[i].1,
    {
        let p = self.entries@[i].0@;
        let j = choose|j: int| 0 <= j < self.entries@.len() && self.entries@[j].0@ == p;
        assert(0 <= j < self.entries@.len() && self.entries@[j].0@ == p);
        assert(i == j);
    }

    /// An empty cache.
    pub fn new() -> (r: Self)
        ensures
            r.wf(),
            r.view() == Map::<Seq<char>, u64>::empty(),
    {
        let r = WriteTicketCache { entries: Vec::new() };
        assert(r.view() =~= Map::<Seq<char>, u64>::empty());
        r
    }
}

/// Whether `path` holds a ticket granted less than five minutes before `now`.
pub fn check_write_ticket(cache: &WriteTicketCache, path: &str, now: u64) -> (r: bool)
    requires
        cache.wf(),
    ensures
        r == cache.valid_at(path@, now),
{
    let p = chars_of(path);
    let mut i: usize = 0;
    while i < cache.entries.len()
        invariant
            i <= cache.entries.len(),
            cache.wf(),
            p@ == path@,
            forall|j: int| 0 <= j < i ==> cache.entries@[j].0@ != path@,
        decreases cache.entries.len() - i,
    {
        if str_eq_chars(cache.entries[i].0.as_str(), &p) {
            proof {
                cache.lemma_view_at(i as int);
            }
            let t = cache.entries[i].1;
            let el: u64 = if now >= t {
                now - t
            } else {
                0
            };
            return el < TICKET_TTL_NANOS;
        }
        i = i + 1;
    }
    false
}

/// Drops expired tickets and grants one to `path` at `now`.
pub fn grant_write_ticket(cache: &mut WriteTicketCache, path: &str, now: u64)
    requires
        old(cache).wf(),
    ensures
        final(cache).wf(),
        final(cache).view() == old(cache).view().restrict(
            old(cache).view().dom().filter(
                |q: Seq<char>| elapsed(old(cache).view()[q], now) < TICKET_TTL_NANOS,
            ),
        ).insert(path@, now),
{
    let ghost old_view = cache.view();
    let mut kept: Vec<(String, u64)> = Vec::new();
    let mut i: usize = 0;
    let p = chars_of(path);
    while i < cache.entries.len()
        invariant
            i <= cache.entries.len(),
            cache.wf(),
            p@ == path@,
            old_view == cache.view(),
            forall|a: int, b: int|
                0 <= a < kept@.len() && 0 <= b < kept@.len() && a != b ==> kept@[a].0@
                    != kept@[b].0@,
            forall|a: int|
                0 <= a < kept@.len() ==> kept@[a].0@ != path@ && old_view.contains_key(
                    kept@[a].0@,
                ) && old_view[kept@[a].0@] == kept@[a].1 && elapsed(kept@[a].1, now)
                    < TICKET_TTL_NANOS && (exists|j: int|
                    0 <= j < i && cache.entries@[j].0@ == kept@[a].0@),
            forall|j: int|
                0 <= j < i ==> (cache.entries@[j].0@ != path@ && elapsed(
                    cache.entries@[j].1,
                    now,
                ) < TICKET_TTL_NANOS) ==> exists|a: int|
                    0 <= a < kept@.len() && kept@[a].0@ == cache.entries@[j].0@,
        decreases cache.entries.len() - i,
    {
        let t = cache.entries[i].1;
        let el: u64 = if now >= t {
            now - t
        } else {
            0
        };
        proof {
            cache.lemma_view_at(i as int);
        }
        if el < TICKET_TTL_NANOS && !str_eq_chars(cache.entries[i].0.as_str(), &p) {
            let key = cache.entries[i].0.clone();
            proof {
                assert forall|a: int| 0 <= a < kept@.len() implies kept@[a].0@ != key@ by {
                    let j = choose|j: int| 0 <= j < i && cache.entries@[j].0@ == kept@[a].0@;
                    assert(j != i);
                }
            }
            let ghost kept_before = kept@;
            kept.push((key, t));
            proof {
                assert forall|j: int|
                    0 <= j < i + 1 implies ((cache.entries@[j].0@ != path@ && elapsed(
                    cache.entries@[j].1,
                    now,
                ) < TICKET_TTL_NANOS) ==> exists|a: int|
                    0 <= a < kept@.len() && kept@[a].0@ == cache.entries@[j].0@) by {
                    if j < i {
                        if cache.entries@[j].0@ != path@ && elapsed(cache.entries@[j].1, now)
                            < TICKET_TTL_NANOS {
                            let a = choose|a: int|
                                0 <= a < kept_before.len() && kept_before[a].0@
                                    == cache.entries@[j].0@;
                            assert(kept@[a] == kept_before[a]);
                        }
                    } else {
                        assert(kept@[kept@.len() - 1].0@ == cache.entries@[j].0@);
                    }
                }
                assert forall|a: int|
                    0 <= a < kept@.len() implies kept@[a].0@ != path@ && old_view.contains_key(
                    kept@[a].0@,
                ) && old_view[kept@[a].0@] == kept@[a].1 && elapsed(kept@[a].1, now)
                    < TICKET_TTL_NANOS && (exists|j: int|
                    0 <= j < i + 1 && cache.entries@[j].0@ == kept@[a].0@) by {
                    if a < kept_before.len() {
                        assert(kept@[a] == kept_before[a]);
                        let j = choose|j: int|
                            0 <= j < i && cache.entries@[j].0@ == kept_before[a].0@;
                        assert(0 <= j < i + 1 && cache.entries@[j].0@ == kept@[a].0@);
                    } else {
                        assert(cache.entries@[i as int].0@ == kept@[a].0@);
                    }
                }
            }
        }
        i = i + 1;
    }
    let key = String::from_str(path);
    let ghost kept_final = kept@;
    kept.push((key, now));
    cache.entries = kept;
    proof {
        let target = old_view.restrict(
            old_view.dom().filter(|q: Seq<char>| elapsed(old_view[q], now) < TICKET_TTL_NANOS),
        ).insert(path@, now);
        assert(cache.wf());
        assert forall|q: Seq<char>| #[trigger] cache.view().contains_key(q) <==> target.contains_key(q) by {
            if cache.view().contains_key(q) {
                let a = choose|a: int| 0 <= a < cache.entries@.len() && cache.entries@[a].0@ == q;
                if a < kept_final.len() {
                    assert(cache.entries@[a] == kept_final[a]);
                }
            }
            if target.contains_key(q) && q != path@ {
                assert(old_view.contains_key(q));
                assert(exists|j: int| 0 <= j < old(cache).entries@.len() && old(cache).entries@[j].0@ == q);
                let j = choose|j: int| 0 <= j < old(cache).entries@.len() && old(cache).entries@[j].0@ == q;
                old(cache).lemma_view_at(j);
                let a = choose|a: int| 0 <= a < kept_final.len() && kept_final[a].0@ == q;
                assert(cache.entries@[a] == kept_final[a]);
            }
            if q == path@ {
                assert(cache.entries@[kept_final.len() as int].0@ == q);
            }
        }
        assert forall|q: Seq<char>| #[trigger] cache.view().contains_key(q) implies cache.view()[q] == target[q] by {
            let a = choose|a: int| 0 <= a < cache.entries@.len() && cache.entries@[a].0@ == q;
            cache.lemma_view_at(a);
            if a < kept_final.len() {
                assert(cache.entries@[a] == kept_final[a]);
            }
        }
        assert(cache.view() =~= target);
    }
}

/// A ticket just granted is valid for five minutes and no longer.
pub proof fn lemma_ticket_lifetime(
    before: WriteTicketCache,
    after: WriteTicketCache,
    path: Seq<char>,
    granted: u64,
    later: u64,
)
    requires
        before.wf(),
        after.wf(),
        after.view() == before.view().restrict(
            before.view().dom().filter(
                |q: Seq<char>| elapsed(before.view()[q], granted) < TICKET_TTL_NANOS,
            ),
        ).insert(path, granted),
        later >= granted,
    ensures
        after.valid_at(path, later) <==> later - granted < TICKET_TTL_NANOS,
{
}

/// Granting a ticket to one path leaves every other path's validity unchanged
/// from the grant on.
pub proof fn lemma_ticket_grant_keeps_others(
    before: WriteTicketCache,
    after: WriteTicketCache,
    path: Seq<char>,
    other: Seq<char>,
    granted: u64,
    later: u64,
)
    requires
        before.wf(),
        after.wf(),
        after.view() == before.view().restrict(
            before.view().dom().filter(
                |q: Seq<char>| elapsed(before.view()[q], granted) < TICKET_TTL_NANOS,
            ),
        ).insert(path, granted),
        other != path,
        later >= granted,
    ensures
        after.valid_at(other, later) == before.valid_at(other, later),
{
    if before.view().contains_key(other) {
        let t = before.view()[other];
        if elapsed(t, granted) >= TICKET_TTL_NANOS {
            assert(!after.view().contains_key(other));
        } else {
            assert(after.view().contains_key(other));
        }
    }
}

// ───────────────────────── path guard ─────────────────────────

/// Whether an extension is `md`.
pub open spec fn is_md(extension: Option<Seq<char>>) -> bool {
    extension == Some("md"@)
}

fn is_md_exec(extension: Option<&str>) -> (r: bool)
    ensures
        r == is_md(
            match extension {
                Some(e) => Some(e@),
                None => None,
            },
        ),
{
    match extension {
        Some(e) => str_eq_chars("md", &chars_of(e)),
        None => false,
    }
}

/// Read guard of the agent: the wiki root and the target must resolve
/// (their errors are given when they did not), the resolved target must lie
/// under the resolved wiki root, and its extension must be `md`.
pub fn validate_agent_read_path(
    root_error: Option<&str>,
    target_error: Option<&str>,
    inside_wiki: bool,
    extension: Option<&str>,
) -> (r: Result<(), String>)
    ensures
        match (root_error, target_error) {
            (Some(e), _) => r matches Err(m) && m@ == "PathGuard 失败：无法解析 wiki 根目录: "@ + e@,
            (None, Some(e)) => r matches Err(m) && m@ == "PathGuard 失败：无法解析目标路径: "@ + e@,
            (None, None) => if !inside_wiki {
                r matches Err(m) && m@ == "PathGuard 拒绝：仅允许读取 vault/wiki 目录"@
            } else if !is_md(
                match extension {
                    Some(x) => Some(x@),
                    None => None,
                },
            ) {
                r matches Err(m) && m@ == "PathGuard 拒绝：仅允许读取 Markdown 页面"@
            } else {
                r is Ok
            },
        },
{
    if let Some(e) = root_error {
        let mut v = chars_of("PathGuard 失败：无法解析 wiki 根目录: ");
        extend_str(&mut v, e);
        return Err(string_of(&v));
    }
    if let Some(e) = target_error {
        let mut v = chars_of("PathGuard 失败：无法解析目标路径: ");
        extend_str(&mut v, e);
        return Err(string_of(&v));
    }
    if !inside_wiki {
        return Err(String::from_str("PathGuard 拒绝：仅允许读取 vault/wiki 目录"));
    }
    if !is_md_exec(extension) {
        return Err(String::from_str("PathGuard 拒绝：仅允许读取 Markdown 页面"));
    }
    Ok(())
}

/// Write guard of the agent: the wiki root must resolve, the target must
/// have a parent directory that resolves (errors given when not), the
/// resolved parent must lie under the resolved wiki root, and the target's
/// extension must be `md`. The target itself may not exist yet.
pub fn validate_agent_write_path(
    root_error: Option<&str>,
    has_parent: bool,
    parent_error: Option<&str>,
    inside_wiki: bool,
    extension: Option<&str>,
) -> (r: Result<(), String>)
    ensures
        match root_error {
            Some(e) => r matches Err(m) && m@ == "PathGuard 失败：无法解析 wiki 根目录: "@ + e@,
            None => if !has_parent {
                r matches Err(m) && m@ == "PathGuard 失败：目标路径缺少父目录"@
            } else {
                match parent_error {
                    Some(e) => r matches Err(m) && m@ == "PathGuard 失败：无法解析目标父目录: "@ + e@,
                    None => if !inside_wiki {
                        r matches Err(m) && m@ == "PathGuard 拒绝：仅允许写入 vault/wiki 目录"@
                    } else if !is_md(
                        match extension {
                            Some(x) => Some(x@),
                            None => None,
                        },
                    ) {
                        r matches Err(m) && m@ == "PathGuard 拒绝：仅允许写入 Markdown 页面"@
                    } else {
                        r is Ok
                    },
                }
            },
        },
{
    if let Some(e) = root_error {
        let mut v = chars_of("PathGuard 失败：无法解析 wiki 根目录: ");
        extend_str(&mut v, e);
        return Err(string_of(&v));
    }
    if !has_parent {
        return Err(String::from_str("PathGuard 失败：目标路径缺少父目录"));
    }
    if let Some(e) = parent_error {
        let mut v = chars_of("PathGuard 失败：无法解析目标父目录: ");
        extend_str(&mut v, e);
        return Err(string_of(&v));
    }
    if !inside_wiki {
        return Err(String::from_str("PathGuard 拒绝：仅允许写入 vault/wiki 目录"));
    }
    if !is_md_exec(extension) {
        return Err(String::from_str("PathGuard 拒绝：仅允许写入 Markdown 页面"));
    }
    Ok(())
}

} // verus!
