//! Safe system-level command use: friendly aliases for a few commands, and a
//! directory-listing tool that refuses path traversal and runs through the
//! task executor like every primitive invocation.
use crate::task::TollInvocation;
use crate::text::{chars_vec, contains_chars, contains_seq, str_eq};
use crate::tools::{output_model, Tool, ToolInput, ToolOutput, ToolOutputModel};
use crate::value::{field_of, model, Value, ValueModel};
use vstd::prelude::*;

verus! {

/// The command a friendly name stands for: listing and disk usage.
pub fn get_command_alias(name: &str) -> (r: Option<&'static str>)
    ensures
        name@ == "list"@ ==> (r matches Some(c) && c@ == "ls"@),
        name@ == "disk"@ ==> (r matches Some(c) && c@ == "df"@),
        name@ != "list"@ && name@ != "disk"@ ==> r is None,
{
    proof {
        reveal_strlit("list");
        reveal_strlit("disk");
        assert("list"@[0] != "disk"@[0]);
    }
    if str_eq(name, "list") {
        Some("ls")
    } else if str_eq(name, "disk") {
        Some("df")
    } else {
        None
    }
}

/// The command a friendly name stands for, with the memory report added.
pub fn get_command_alias_linux(name: &str) -> (r: Option<&'static str>)
    ensures
        name@ == "list"@ ==> (r matches Some(c) && c@ == "ls"@),
        name@ == "disk"@ ==> (r matches Some(c) && c@ == "df"@),
        name@ == "memory"@ ==> (r matches Some(c) && c@ == "free"@),
        name@ != "list"@ && name@ != "disk"@ && name@ != "memory"@ ==> r is None,
{
    proof {
        reveal_strlit("list");
        reveal_strlit("disk");
        reveal_strlit("memory");
        assert("list"@[0] != "disk"@[0]);
    }
    if str_eq(name, "list") {
        Some("ls")
    } else if str_eq(name, "disk") {
        Some("df")
    } else if str_eq(name, "memory") {
        Some("free")
    } else {
        None
    }
}

/// Whether a path is free of traversal steps and command separators.
pub open spec fn path_is_safe(p: Seq<char>) -> bool {
    !contains_seq(p, ".."@) && !contains_seq(p, ";"@)
}

/// The failure of a directory listing answered without the task executor: a
/// safe path is only refused because the listing runs as a primitive
/// invocation, an unsafe path is refused outright, and anything else is not
/// a usable argument.
pub open spec fn bad_path_output(p: Option<ValueModel>) -> ToolOutputModel {
    match p {
        Some(ValueModel::Text(t)) => {
            if path_is_safe(t) {
                ToolOutputModel {
                    result: ValueModel::Null,
                    success: false,
                    message: Some("The directory listing runs through the task executor"@),
                }
            } else {
                ToolOutputModel {
                    result: ValueModel::Null,
                    success: false,
                    message: Some("Path traversal is not allowed."@),
                }
            }
        },
        _ => ToolOutputModel {
            result: ValueModel::Null,
            success: false,
            message: Some("Invalid arguments"@),
        },
    }
}

/// Lists a directory. The tool is backed by the `ls` primitive: a safe
/// `path` argument becomes a shell invocation for the task executor, and a
/// direct call is answered with a failure naming what was wrong.
pub struct ListDirTool;

impl Tool for ListDirTool {
    open spec fn spec_name(&self) -> Seq<char> {
        "list_directory"@
    }

    open spec fn spec_primitive(&self, args: ValueModel) -> bool {
        match field_of(args, "path"@) {
            Some(ValueModel::Text(t)) => path_is_safe(t),
            _ => false,
        }
    }

    open spec fn spec_execute(&self, args: ValueModel, output: ToolOutputModel) -> bool {
        output == bad_path_output(field_of(args, "path"@))
    }

    fn name(&self) -> (r: String)
        ensures
            r@ == self.spec_name(),
    {
        String::from_str("list_directory")
    }

    fn description(&self) -> (r: &'static str) {
        "Lists the contents of a directory."
    }

    fn as_invocation(&self, args: &Value) -> (r: Option<TollInvocation>)
        ensures
            r is Some <==> self.spec_primitive(model(*args)),
            match field_of(model(*args), "path"@) {
                Some(ValueModel::Text(t)) => {
                    if path_is_safe(t) {
                        r matches Some(TollInvocation::ShellCommand { command, args: cargs })
                            && command@ == "ls"@ && cargs@.len() == 1 && cargs@[0]@ == t
                    } else {
                        r is None
                    }
                },
                _ => r is None,
            },
    {
        match args.get_field("path") {
            Some(v) => match v {
                Value::Text(p) => {
                    let pv = chars_vec(p.as_str());
                    let dots = chars_vec("..");
                    let semi = chars_vec(";");
                    if !contains_chars(&pv, &dots) && !contains_chars(&pv, &semi) {
                        let mut cargs: Vec<String> = Vec::new();
                        cargs.push(p.clone());
                        Some(
                            TollInvocation::ShellCommand {
                                command: String::from_str("ls"),
                                args: cargs,
                            },
                        )
                    } else {
                        None
                    }
                },
                _ => None,
            },
            None => None,
        }
    }

    fn execute(&self, input: ToolInput) -> (r: ToolOutput)
        ensures
            self.spec_execute(model(input.args), output_model(r)),
            !r.success,
    {
        match input.args.get_field("path") {
            Some(v) => match v {
                Value::Text(p) => {
                    let pv = chars_vec(p.as_str());
                    let dots = chars_vec("..");
                    let semi = chars_vec(";");
                    if !contains_chars(&pv, &dots) && !contains_chars(&pv, &semi) {
                        ToolOutput {
                            result: Value::Null,
                            success: false,
                            message: Some(
                                String::from_str(
                                    "The directory listing runs through the task executor",
                                ),
                            ),
                        }
                    } else {
                        ToolOutput {
                            result: Value::Null,
                            success: false,
                            message: Some(String::from_str("Path traversal is not allowed.")),
                        }
                    }
                },
                _ => ToolOutput {
                    result: Value::Null,
                    success: false,
                    message: Some(String::from_str("Invalid arguments")),
                },
            },
            None => ToolOutput {
                result: Value::Null,
                success: false,
                message: Some(String::from_str("Invalid arguments")),
            },
        }
    }
}

} // verus!
