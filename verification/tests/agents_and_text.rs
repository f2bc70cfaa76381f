use agent_core::agents::{Agent, AgentInput, AgentStatus, EchoAgent, PlanningAgent};
use agent_core::assistant;
use agent_core::builtin::EchoTool;
use agent_core::commands::{get_command_alias, get_command_alias_linux, ListDirTool};
use agent_core::daily::planner_prompt;
use agent_core::events::{respond, transition, AgentEvent, AgentState};
use agent_core::files::{route_file, validate_action, ActionResponse, AgentOutputStatus,
    FileAction, FileMetadata};
use agent_core::grep::Config;
use agent_core::ollama::{collect_response_content, full_prompt, ChatMessage, ChatResponse};
use agent_core::planner::{KeywordPlanner, Planner};
use agent_core::sed::Sed;
use agent_core::task::TollInvocation;
use agent_core::tools::{call_tool_by_name, get_tool, new_registry, register_tool, Tool,
    ToolRegistry};
use agent_core::value::Value;

#[test]
fn event_loop_transitions_follow_the_state_machine() {
    let queued = transition(AgentState::Idle, &AgentEvent::InputReceived("go".to_string()));
    assert!(matches!(queued, AgentState::WaitingForTask));

    let back = transition(
        AgentState::WaitingForTask,
        &AgentEvent::TaskCompleted {
            task_id: "t".to_string(),
            success: true,
        },
    );
    assert!(matches!(back, AgentState::Idle));

    let failed = transition(
        AgentState::WaitingForTask,
        &AgentEvent::TaskCompleted {
            task_id: "t".to_string(),
            success: false,
        },
    );
    match &failed {
        AgentState::Error(reason) => assert_eq!(reason, "Task failed"),
        _ => panic!("a failed task must enter the error state"),
    }

    let still_failed = transition(failed, &AgentEvent::InputReceived("more".to_string()));
    match still_failed {
        AgentState::Error(reason) => assert_eq!(reason, "Task failed"),
        _ => panic!("input in the error state is rejected"),
    }

    let alerted = transition(AgentState::Idle, &AgentEvent::SystemAlert("mem".to_string()));
    assert!(matches!(alerted, AgentState::Idle));
}

#[test]
fn request_response_answers_ping() {
    assert_eq!(respond("ping").unwrap(), "pong");
    assert_eq!(respond("reboot").unwrap_err(), "unknown command");
}

#[test]
fn echo_agent_refuses_shutdown_and_echoes_the_rest() {
    let mut agent = EchoAgent;
    let blocked = agent.handle_input(AgentInput {
        message: "please shutdown now".to_string(),
        context: None,
    });
    assert_eq!(blocked.output, "");
    assert!(matches!(blocked.status, AgentStatus::Error(_)));

    let echoed = agent.handle_input(AgentInput {
        message: "hello".to_string(),
        context: None,
    });
    assert_eq!(echoed.output, "Echo: hello");
    assert!(matches!(echoed.status, AgentStatus::Success));
}

#[test]
fn planning_agent_reports_step_count() {
    let mut empty = PlanningAgent { steps: vec![] };
    let result = empty.handle_input(AgentInput {
        message: "anything".to_string(),
        context: None,
    });
    assert_eq!(result.output, "No viable plan");

    let mut three = PlanningAgent {
        steps: vec!["a".to_string(), "b".to_string(), "c".to_string()],
    };
    let result = three.handle_input(AgentInput {
        message: "anything".to_string(),
        context: None,
    });
    assert_eq!(result.output, "Executed 3 steps");
    assert!(matches!(result.status, AgentStatus::Success));
}

#[test]
fn registry_lookup_and_direct_invocation() {
    let mut registry: ToolRegistry<Box<dyn Tool>> = new_registry();
    register_tool(&mut registry, Box::new(EchoTool) as Box<dyn Tool>);

    let args = Value::Object(vec![("text".to_string(), Value::Text("hey".to_string()))]);
    let output = get_tool(&registry, "echo", args).unwrap();
    assert!(output.success);
    match output.result {
        Value::Text(s) => assert_eq!(s, "hey"),
        _ => panic!("echo must keep the text"),
    }

    assert!(call_tool_by_name(&registry, "missing", Value::Null).is_none());
}

#[test]
fn keyword_planner_recognises_two_goals() {
    let planner = KeywordPlanner;
    let plan = planner.generate_plan("please summarize log file today").unwrap();
    assert_eq!(plan.goal, "please summarize log file today");
    assert_eq!(plan.steps.len(), 2);
    assert_eq!(plan.steps[0].tool_name, "read_file");
    assert_eq!(plan.steps[1].tool_name, "summarize");

    let disk = planner.generate_plan("analize disk usage now").unwrap();
    assert_eq!(disk.steps[0].tool_name, "check_disk");

    assert!(planner.generate_plan("bake a cake").is_none());
}

#[test]
fn grep_config_requires_three_arguments() {
    let args = vec!["prog".to_string(), "pat".to_string(), "file".to_string()];
    let config = Config::new(&args, true).unwrap();
    assert_eq!(config.string, "pat");
    assert_eq!(config.filename, "file");
    assert!(config.case_sensitive);

    let short = vec!["prog".to_string()];
    assert_eq!(Config::new(&short, true).unwrap_err(), "not enough arguments");
}

#[test]
fn sed_pattern_needs_four_pipe_parts() {
    let sed = Sed::new("s|old|new|g".to_string(), "f.txt".to_string()).unwrap();
    assert_eq!(sed.oldstring, "old");
    assert_eq!(sed.newstring, "new");
    assert_eq!(sed.flag, "g");
    assert_eq!(sed.file, "f.txt");

    assert!(Sed::new("old|new".to_string(), "f.txt".to_string()).is_err());
}

#[test]
fn command_aliases_cover_the_known_names() {
    assert_eq!(get_command_alias("list"), Some("ls"));
    assert_eq!(get_command_alias("disk"), Some("df"));
    assert_eq!(get_command_alias("halt"), None);

    assert_eq!(get_command_alias_linux("memory"), Some("free"));
    assert_eq!(get_command_alias_linux("halt"), None);
}

#[test]
fn list_dir_tool_refuses_path_traversal() {
    let tool = ListDirTool;
    let safe = Value::Object(vec![("path".to_string(), Value::Text("/tmp".to_string()))]);
    match tool.as_invocation(&safe) {
        Some(TollInvocation::ShellCommand { command, args }) => {
            assert_eq!(command, "ls");
            assert_eq!(args, vec!["/tmp".to_string()]);
        }
        _ => panic!("a safe path becomes an ls invocation"),
    }

    let unsafe_path = Value::Object(vec![(
        "path".to_string(),
        Value::Text("../secrets".to_string()),
    )]);
    assert!(tool.as_invocation(&unsafe_path).is_none());
    let output = tool.execute(agent_core::tools::ToolInput { args: unsafe_path });
    assert!(!output.success);
    assert_eq!(output.message.unwrap(), "Path traversal is not allowed.");

    let direct = tool.execute(agent_core::tools::ToolInput { args: safe });
    assert!(!direct.success);
    assert_eq!(
        direct.message.unwrap(),
        "The directory listing runs through the task executor"
    );
}

#[test]
fn validate_action_demands_required_parameters() {
    let good = ActionResponse {
        action: "move_file".to_string(),
        parameters: vec![
            ("path".to_string(), "/tmp/a".to_string()),
            ("target_dir".to_string(), "/tmp/b".to_string()),
        ],
        explanation: None,
    };
    match validate_action(&good).unwrap() {
        FileAction::MoveFile { path, target_dir } => {
            assert_eq!(path, "/tmp/a");
            assert_eq!(target_dir, "/tmp/b");
        }
        _ => panic!("expected a move"),
    }

    let missing = ActionResponse {
        action: "move_file".to_string(),
        parameters: vec![("path".to_string(), "/tmp/a".to_string())],
        explanation: None,
    };
    match validate_action(&missing).unwrap_err().status {
        AgentOutputStatus::Failure(m) => assert_eq!(m, "Missing target_dir parameter"),
        _ => panic!("a missing parameter is a failure"),
    }

    let sized = ActionResponse {
        action: "find_large_files".to_string(),
        parameters: vec![
            ("base_dir".to_string(), "/tmp".to_string()),
            ("min_size".to_string(), "100".to_string()),
        ],
        explanation: None,
    };
    match validate_action(&sized).unwrap() {
        FileAction::FindLargeFiles { min_size, .. } => assert_eq!(min_size, 100),
        _ => panic!("expected a size search"),
    }

    let bad_size = ActionResponse {
        action: "find_large_files".to_string(),
        parameters: vec![
            ("base_dir".to_string(), "/tmp".to_string()),
            ("min_size".to_string(), "a lot".to_string()),
        ],
        explanation: None,
    };
    match validate_action(&bad_size).unwrap_err().status {
        AgentOutputStatus::Failure(m) => assert_eq!(m, "Invalid min_size parameter"),
        _ => panic!("an unreadable size is a failure"),
    }

    let unknown = ActionResponse {
        action: "format_disk".to_string(),
        parameters: vec![],
        explanation: None,
    };
    match validate_action(&unknown).unwrap_err().status {
        AgentOutputStatus::Failure(m) => assert_eq!(m, "Unknown action"),
        _ => panic!("an unknown action is a failure"),
    }

    let unnamed = ActionResponse {
        action: "".to_string(),
        parameters: vec![],
        explanation: None,
    };
    let err = validate_action(&unnamed).unwrap_err();
    assert_eq!(err.message.unwrap(), "Please provide a valid action");
}

#[test]
fn route_file_picks_directories_by_extension_and_age() {
    let txt = FileMetadata {
        path: "a.txt".to_string(),
        size: 10,
        modified: 1000,
        extension: Some("txt".to_string()),
    };
    assert_eq!(route_file(&txt, 2000), Some("TextFiles".to_string()));

    let png = FileMetadata {
        extension: Some("png".to_string()),
        ..txt
    };
    assert_eq!(route_file(&png, 2000), Some("Images".to_string()));

    let old_other = FileMetadata {
        path: "a.bin".to_string(),
        size: 10,
        modified: 1000,
        extension: Some("bin".to_string()),
    };
    assert_eq!(route_file(&old_other, 10_000_000), Some("Archive".to_string()));
    assert_eq!(route_file(&old_other, 2000), None);

    let bare = FileMetadata {
        path: "a".to_string(),
        size: 10,
        modified: 1000,
        extension: None,
    };
    assert_eq!(route_file(&bare, 10_000_000), None);
}

#[test]
fn prompts_are_assembled_verbatim() {
    assert_eq!(full_prompt("list files"), "User Query: list files");
    let daily = planner_prompt("12:00", "walk the dog");
    assert!(daily.starts_with("You are a daily planner assistant. Rely on the current time: 12:00"));
    assert!(daily.ends_with("walk the dog\n"));
    let assistant = assistant::assistant_prompt("tidy up");
    assert!(assistant.ends_with("User Prompt: tidy up"));
}

#[test]
fn streamed_chat_chunks_concatenate_in_order() {
    let chunks = vec![
        ChatResponse {
            message: Some(ChatMessage {
                role: "assistant".to_string(),
                content: "Hel".to_string(),
            }),
            done: false,
        },
        ChatResponse {
            message: None,
            done: false,
        },
        ChatResponse {
            message: Some(ChatMessage {
                role: "assistant".to_string(),
                content: "lo".to_string(),
            }),
            done: true,
        },
    ];
    assert_eq!(collect_response_content(&chunks), "Hello");
}

struct ScriptedAssistant {
    responses: Vec<assistant::TaskResult>,
}

impl assistant::TaskExecutor for ScriptedAssistant {
    fn execute_tool(&mut self, _tool: assistant::ToolInvocation) -> assistant::TaskResult {
        self.responses.remove(0)
    }
}

#[test]
fn assistant_reports_the_first_failing_step() {
    let agent = assistant::ReactiveAgent::new("Filo".to_string(), "a file assistant".to_string());

    let mut happy = ScriptedAssistant {
        responses: vec![
            assistant::TaskResult {
                output: Some("ls".to_string()),
                status: assistant::TaskStatus::Success,
            },
            assistant::TaskResult {
                output: Some("files".to_string()),
                status: assistant::TaskStatus::Success,
            },
        ],
    };
    let output = assistant::run_assistant(
        &agent,
        &mut happy,
        assistant::AgentInput {
            content: "list".to_string(),
        },
    );
    assert_eq!(output.response, "Filo processed input: list");
    assert!(matches!(output.status, assistant::AgentStatus::Success));

    let mut broken = ScriptedAssistant {
        responses: vec![assistant::TaskResult {
            output: None,
            status: assistant::TaskStatus::Failed("no model".to_string()),
        }],
    };
    let output = assistant::run_assistant(
        &agent,
        &mut broken,
        assistant::AgentInput {
            content: "list".to_string(),
        },
    );
    match output.status {
        assistant::AgentStatus::Failed(m) => {
            assert!(m.starts_with("Failed to process input:"))
        }
        _ => panic!("a failing model call fails the run"),
    }
}
