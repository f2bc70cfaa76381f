use agent_core::builtin::{EchoTool, LengthTool};
use agent_core::commands::ListDirTool;
use agent_core::memory::{InMemoryStore, MemoryEntry};
use agent_core::plan::{execute_plan, ExecutionContext, Plan, PlanStep};
use agent_core::resolve::resolve_args;
use agent_core::task::{
    retry, retry_decision, DefaultExecutor, FailureKind, TaskExecutor, TaskResult, TaskStatus,
    TollInvocation,
};
use agent_core::tools::{new_registry, register_tool, Tool, ToolOutput, ToolRegistry};
use agent_core::value::Value;

fn output_of(v: Value) -> ToolOutput {
    ToolOutput {
        result: v,
        success: true,
        message: None,
    }
}

fn text_object(key: &str, value: &str) -> Value {
    Value::Object(vec![(key.to_string(), Value::Text(value.to_string()))])
}

#[test]
fn resolving_exact_reference_preserves_type() {
    let mut ctx = ExecutionContext::new();
    ctx.insert("x".to_string(), output_of(Value::Number(42)));
    let template = Value::Text("${x}".to_string());
    let resolved = resolve_args(&template, &ctx);
    assert!(matches!(resolved, Value::Number(42)));
}

#[test]
fn resolving_missing_reference_yields_null() {
    let ctx = ExecutionContext::new();
    let template = Value::Text("${missing}".to_string());
    let resolved = resolve_args(&template, &ctx);
    assert!(matches!(resolved, Value::Null));
}

#[test]
fn resolving_embedded_reference_leaves_string_unchanged() {
    let mut ctx = ExecutionContext::new();
    ctx.insert("x".to_string(), output_of(Value::Number(42)));
    let template = Value::Text("prefix ${x} suffix".to_string());
    let resolved = resolve_args(&template, &ctx);
    match resolved {
        Value::Text(s) => assert_eq!(s, "prefix ${x} suffix"),
        _ => panic!("expected the string to pass through unchanged"),
    }
}

#[test]
fn resolving_recurses_into_arrays_and_objects() {
    let mut ctx = ExecutionContext::new();
    ctx.insert("x".to_string(), output_of(Value::Bool(true)));
    let template = Value::Array(vec![
        Value::Text("${x}".to_string()),
        Value::Object(vec![("inner".to_string(), Value::Text("${x}".to_string()))]),
    ]);
    let resolved = resolve_args(&template, &ctx);
    match resolved {
        Value::Array(elems) => {
            assert!(matches!(elems[0], Value::Bool(true)));
            match &elems[1] {
                Value::Object(entries) => {
                    assert_eq!(entries[0].0, "inner");
                    assert!(matches!(entries[0].1, Value::Bool(true)));
                }
                _ => panic!("expected an object"),
            }
        }
        _ => panic!("expected an array"),
    }
}

struct NoopExecutor;

impl TaskExecutor for NoopExecutor {
    fn execute(&mut self, _invocation: &TollInvocation) -> TaskResult {
        TaskResult {
            output: None,
            status: TaskStatus::Skipped,
        }
    }

    fn backoff(&mut self, _seconds: u64) {}
}

fn echo_length_registry() -> ToolRegistry<Box<dyn Tool>> {
    let mut registry: ToolRegistry<Box<dyn Tool>> = new_registry();
    register_tool(&mut registry, Box::new(EchoTool) as Box<dyn Tool>);
    register_tool(&mut registry, Box::new(LengthTool) as Box<dyn Tool>);
    registry
}

#[test]
fn duplicate_output_keys_resolve_last_write_wins() {
    let registry = echo_length_registry();
    let plan = Plan {
        goal: "duplicates".to_string(),
        steps: vec![
            PlanStep {
                tool_name: "echo".to_string(),
                args: text_object("text", "first"),
                output_key: "a".to_string(),
            },
            PlanStep {
                tool_name: "echo".to_string(),
                args: text_object("text", "second"),
                output_key: "a".to_string(),
            },
        ],
    };
    let mut executor = NoopExecutor;
    let (ctx, ok) = execute_plan(plan, &registry, &mut executor).unwrap();
    assert!(ok);
    let stored = ctx.get("a").unwrap();
    match &stored.result {
        Value::Text(s) => assert_eq!(s, "second"),
        _ => panic!("expected the second step's output"),
    }
}

#[test]
fn unregistered_tool_fails_and_execution_continues() {
    let registry = echo_length_registry();
    let plan = Plan {
        goal: "missing tool".to_string(),
        steps: vec![
            PlanStep {
                tool_name: "nonexistent".to_string(),
                args: Value::Null,
                output_key: "broken".to_string(),
            },
            PlanStep {
                tool_name: "echo".to_string(),
                args: text_object("text", "still here"),
                output_key: "after".to_string(),
            },
        ],
    };
    let mut executor = NoopExecutor;
    let (ctx, ok) = execute_plan(plan, &registry, &mut executor).unwrap();
    assert!(!ok);
    let broken = ctx.get("broken").unwrap();
    assert!(!broken.success);
    let message = broken.message.as_ref().unwrap();
    assert!(message.contains("tool not found"));
    let after = ctx.get("after").unwrap();
    assert!(after.success);
}

#[test]
fn empty_tool_name_rejected_before_any_step() {
    let registry = echo_length_registry();
    let plan = Plan {
        goal: "malformed".to_string(),
        steps: vec![PlanStep {
            tool_name: "".to_string(),
            args: Value::Null,
            output_key: "a".to_string(),
        }],
    };
    let mut executor = NoopExecutor;
    assert!(execute_plan(plan, &registry, &mut executor).is_err());
}

struct ScriptedExecutor {
    calls: u64,
    failures_before_success: u64,
    backoffs: Vec<u64>,
}

impl TaskExecutor for ScriptedExecutor {
    fn execute(&mut self, _invocation: &TollInvocation) -> TaskResult {
        self.calls += 1;
        if self.calls <= self.failures_before_success {
            DefaultExecutor::timed_out()
        } else {
            TaskResult {
                output: Some("done".to_string()),
                status: TaskStatus::Success,
            }
        }
    }

    fn backoff(&mut self, seconds: u64) {
        self.backoffs.push(seconds);
    }
}

#[test]
fn retry_caps_attempts_at_four_and_returns_fourth_result() {
    let invocation = TollInvocation::Internal {
        operation: "ping".to_string(),
    };
    let mut executor = ScriptedExecutor {
        calls: 0,
        failures_before_success: 3,
        backoffs: Vec::new(),
    };
    let result = retry(&invocation, &mut executor);
    assert_eq!(executor.calls, 4);
    assert_eq!(executor.backoffs, vec![1, 2, 3]);
    assert!(matches!(result.status, TaskStatus::Success));

    let mut stubborn = ScriptedExecutor {
        calls: 0,
        failures_before_success: 100,
        backoffs: Vec::new(),
    };
    let result = retry(&invocation, &mut stubborn);
    assert_eq!(stubborn.calls, 4);
    assert!(matches!(result.status, TaskStatus::Failed(_)));
}

struct TerminalFailureExecutor {
    calls: u64,
}

impl TaskExecutor for TerminalFailureExecutor {
    fn execute(&mut self, _invocation: &TollInvocation) -> TaskResult {
        self.calls += 1;
        DefaultExecutor::classify_shell(false, "", "boom".to_string())
    }

    fn backoff(&mut self, _seconds: u64) {}
}

#[test]
fn terminal_failures_are_not_retried() {
    let invocation = TollInvocation::ShellCommand {
        command: "false".to_string(),
        args: vec![],
    };
    let mut executor = TerminalFailureExecutor { calls: 0 };
    let result = retry(&invocation, &mut executor);
    assert_eq!(executor.calls, 1);
    assert!(matches!(result.status, TaskStatus::Failed(_)));
}

#[test]
fn retry_decision_follows_the_policy() {
    let timeout = DefaultExecutor::timed_out();
    assert_eq!(retry_decision(&timeout.status, 0), Some(1));
    assert_eq!(retry_decision(&timeout.status, 1), Some(2));
    assert_eq!(retry_decision(&timeout.status, 2), Some(3));
    assert_eq!(retry_decision(&timeout.status, 3), None);

    let transport = DefaultExecutor::transport_failure("connection refused".to_string());
    assert_eq!(retry_decision(&transport.status, 0), Some(1));

    let terminal = DefaultExecutor::classify_shell(false, "", "exit 1".to_string());
    assert_eq!(retry_decision(&terminal.status, 0), None);

    assert_eq!(retry_decision(&TaskStatus::Success, 0), None);
}

#[test]
fn internal_operations_answer_ping_and_refuse_the_rest() {
    let pong = DefaultExecutor::run_internal("ping");
    assert!(matches!(pong.status, TaskStatus::Success));
    assert_eq!(pong.output.unwrap(), "pong");

    let unknown = DefaultExecutor::run_internal("reboot");
    match unknown.status {
        TaskStatus::Failed(f) => {
            assert!(matches!(f.kind, FailureKind::ExecutionFailure));
            assert_eq!(f.message, "unknown internal operation");
        }
        _ => panic!("an unknown operation must fail"),
    }
    assert!(unknown.output.is_none());
}

#[test]
fn shell_and_http_outcomes_are_classified() {
    let ok = DefaultExecutor::classify_shell(true, "  out  \n", "".to_string());
    assert!(matches!(ok.status, TaskStatus::Success));
    assert_eq!(ok.output.unwrap(), "out");

    let failed = DefaultExecutor::classify_shell(false, "", "stderr text".to_string());
    assert!(matches!(failed.status, TaskStatus::Failed(_)));
    assert_eq!(failed.output.unwrap(), "stderr text");

    let good = DefaultExecutor::classify_http(204, "body".to_string());
    assert!(matches!(good.status, TaskStatus::Success));

    let bad = DefaultExecutor::classify_http(503, "oops".to_string());
    match bad.status {
        TaskStatus::Failed(f) => {
            assert!(matches!(f.kind, FailureKind::ExecutionFailure));
            assert_eq!(f.message, "HTTP error: 503");
        }
        _ => panic!("a 5xx response is a failure"),
    }
    assert_eq!(bad.output.unwrap(), "oops");

    let timed = DefaultExecutor::timed_out();
    match timed.status {
        TaskStatus::Failed(f) => {
            assert!(matches!(f.kind, FailureKind::Timeout));
            assert_eq!(f.message, "timed out");
        }
        _ => panic!("a timeout is a failure"),
    }
}

fn entry(key: &str, value: &str, tags: &[&str], timestamp: u64) -> MemoryEntry {
    MemoryEntry {
        key: key.to_string(),
        value: value.to_string(),
        tags: tags.iter().map(|t| t.to_string()).collect(),
        timestamp,
    }
}

#[test]
fn read_recent_returns_youngest_first() {
    let mut store = InMemoryStore::new();
    assert!(store.write(entry("t1", "first", &[], 100)));
    assert!(store.write(entry("t2", "second", &[], 200)));
    assert!(store.write(entry("t3", "third", &[], 300)));

    let recent = store.read_recent(2);
    assert_eq!(recent.len(), 2);
    assert_eq!(recent[0].key, "t3");
    assert_eq!(recent[1].key, "t2");

    let all = store.read_recent(10);
    assert_eq!(all.len(), 3);
    assert_eq!(all[2].key, "t1");
}

#[test]
fn write_replaces_whole_entry_by_key() {
    let mut store = InMemoryStore::new();
    assert!(store.write(entry("k", "old", &["a"], 10)));
    assert!(store.write(entry("k", "new", &["b"], 20)));

    let read = store.read_by_key("k").unwrap();
    assert_eq!(read.value, "new");
    assert_eq!(read.tags, vec!["b".to_string()]);
    assert_eq!(read.timestamp, 20);

    assert!(store.read_by_key("absent").is_none());
    assert_eq!(store.read_recent(10).len(), 1);
}

#[test]
fn search_by_tag_matches_exactly() {
    let mut store = InMemoryStore::new();
    assert!(store.write(entry("a", "tagged", &["summary"], 1)));
    assert!(store.write(entry("b", "plural", &["summaries"], 2)));
    assert!(store.write(entry("c", "both", &["summary", "extra"], 3)));

    let mut found: Vec<String> = store
        .search_by_tag("summary")
        .into_iter()
        .map(|e| e.key)
        .collect();
    found.sort();
    assert_eq!(found, vec!["a".to_string(), "c".to_string()]);

    assert!(store.search_by_tag("summ").is_empty());
}

#[test]
fn two_step_plan_chains_echo_into_length() {
    let registry = echo_length_registry();
    let plan = Plan {
        goal: "demo".to_string(),
        steps: vec![
            PlanStep {
                tool_name: "echo".to_string(),
                args: text_object("text", "hi"),
                output_key: "r1".to_string(),
            },
            PlanStep {
                tool_name: "length".to_string(),
                args: text_object("text", "${r1}"),
                output_key: "r2".to_string(),
            },
        ],
    };
    let mut executor = NoopExecutor;
    let (ctx, ok) = execute_plan(plan, &registry, &mut executor).unwrap();
    assert!(ok);
    let first = ctx.get("r1").unwrap();
    match &first.result {
        Value::Text(s) => assert_eq!(s, "hi"),
        _ => panic!("echo must hand its text back"),
    }
    let second = ctx.get("r2").unwrap();
    assert!(matches!(second.result, Value::Number(2)));
}

struct RecordingExecutor {
    seen: Vec<String>,
}

impl TaskExecutor for RecordingExecutor {
    fn execute(&mut self, invocation: &TollInvocation) -> TaskResult {
        if let TollInvocation::ShellCommand { command, args } = invocation {
            self.seen.push(format!("{} {}", command, args.join(" ")));
        }
        TaskResult {
            output: Some("listing".to_string()),
            status: TaskStatus::Success,
        }
    }

    fn backoff(&mut self, _seconds: u64) {}
}

#[test]
fn primitive_backed_tools_dispatch_through_the_executor() {
    let mut registry: ToolRegistry<Box<dyn Tool>> = new_registry();
    register_tool(&mut registry, Box::new(ListDirTool) as Box<dyn Tool>);

    let plan = Plan {
        goal: "list".to_string(),
        steps: vec![PlanStep {
            tool_name: "list_directory".to_string(),
            args: text_object("path", "/tmp"),
            output_key: "files".to_string(),
        }],
    };
    let mut executor = RecordingExecutor { seen: vec![] };
    let (ctx, ok) = execute_plan(plan, &registry, &mut executor).unwrap();
    assert!(ok);
    assert_eq!(executor.seen, vec!["ls /tmp".to_string()]);
    let stored = ctx.get("files").unwrap();
    match &stored.result {
        Value::Text(s) => assert_eq!(s, "listing"),
        _ => panic!("the executor's output lands in the context"),
    }
}

struct FailingShellExecutor;

impl TaskExecutor for FailingShellExecutor {
    fn execute(&mut self, _invocation: &TollInvocation) -> TaskResult {
        DefaultExecutor::classify_shell(false, "", "boom".to_string())
    }

    fn backoff(&mut self, _seconds: u64) {}
}

#[test]
fn failed_primitive_keeps_stderr_in_the_context() {
    let mut registry: ToolRegistry<Box<dyn Tool>> = new_registry();
    register_tool(&mut registry, Box::new(ListDirTool) as Box<dyn Tool>);
    let plan = Plan {
        goal: "list".to_string(),
        steps: vec![PlanStep {
            tool_name: "list_directory".to_string(),
            args: text_object("path", "/nowhere"),
            output_key: "files".to_string(),
        }],
    };
    let mut executor = FailingShellExecutor;
    let (ctx, ok) = execute_plan(plan, &registry, &mut executor).unwrap();
    assert!(!ok);
    let stored = ctx.get("files").unwrap();
    assert!(!stored.success);
    match &stored.result {
        Value::Text(s) => assert_eq!(s, "boom"),
        _ => panic!("the captured standard error lands in the context"),
    }
    assert_eq!(stored.message.as_ref().unwrap(), "Command failed");
}
