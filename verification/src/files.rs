//! The local file manager's brain: validating a model-proposed action into a
//! concrete file operation, and the routing rule that picks a target
//! directory for a file. Walking directories and moving files is the host's.
use crate::text::{dec_value, is_digits, parse_u64, str_eq};
use vstd::prelude::*;

verus! {

/// How handling one file-management request ended.
#[derive(Debug)]
pub enum AgentOutputStatus {
    Success,
    Failure(String),
}

/// One file-management request.
pub struct AgentInput {
    pub query: String,
}

/// The answer to one file-management request.
#[derive(Debug)]
pub struct AgentOutput {
    pub status: AgentOutputStatus,
    pub message: Option<String>,
}

/// The agent itself: its behaviour lives in the validation and routing rules
/// below, the host supplies the model call and the file system.
pub struct LocalFileManagerAgent;

impl LocalFileManagerAgent {
    pub fn new() -> (r: LocalFileManagerAgent) {
        LocalFileManagerAgent
    }
}

/// What the model proposed: an action name with string parameters and an
/// optional explanation.
#[derive(Debug)]
pub struct ActionResponse {
    pub action: String,
    pub parameters: Vec<(String, String)>,
    pub explanation: Option<String>,
}

/// The value of the first parameter with that name, if any.
pub open spec fn param_value(ps: Seq<(String, String)>, key: Seq<char>) -> Option<Seq<char>>
    decreases ps.len(),
{
    if ps.len() == 0 {
        None
    } else if ps[0].0@ == key {
        Some(ps[0].1@)
    } else {
        param_value(ps.drop_first(), key)
    }
}

impl ActionResponse {
    /// The parameter stored under `key`, when one is.
    pub fn param(&self, key: &str) -> (r: Option<&String>)
        ensures
            match r {
                Some(v) => param_value(self.parameters@, key@) == Some(v@),
                None => param_value(self.parameters@, key@) is None,
            },
    {
        let n = self.parameters.len();
        let mut i: usize = 0;
        proof {
            assert(self.parameters@.skip(0) =~= self.parameters@);
        }
        while i < n
            invariant
                i <= n,
                n == self.parameters@.len(),
                param_value(self.parameters@, key@) == param_value(
                    self.parameters@.skip(i as int),
                    key@,
                ),
            decreases n - i,
        {
            proof {
                assert(self.parameters@.skip(i as int)[0] == self.parameters@[i as int]);
                assert(self.parameters@.skip(i as int).drop_first() =~= self.parameters@.skip(
                    i + 1 as int,
                ));
            }
            if str_eq(self.parameters[i].0.as_str(), key) {
                return Some(&self.parameters[i].1);
            }
            i = i + 1;
        }
        None
    }
}

/// One concrete file operation, ready for the host to perform.
#[derive(Debug)]
pub enum FileAction {
    CollectFiles { base_dir: String },
    GetMetadata { path: String },
    RouteFile { file_path: String },
    MoveFile { path: String, target_dir: String },
    FindByExtension { base_dir: String, extension: String },
    FindLargeFiles { base_dir: String, min_size: u64 },
    ExecuteCommand { command: String },
}

/// Checks a proposed action: a known action name with its required
/// parameters becomes a file operation; anything else becomes the failure
/// the caller reports, naming what was missing or unknown.
pub fn validate_action(action: &ActionResponse) -> (r: Result<FileAction, AgentOutput>)
    ensures
        action.action@.len() == 0 ==> (r matches Err(o) && (
        o.status matches AgentOutputStatus::Failure(m) && m@ == "No action specified"@) && (
        o.message matches Some(h) && h@ == "Please provide a valid action"@)),
        action.action@ == "collect_files"@ ==> match param_value(action.parameters@, "base_dir"@) {
            Some(d) => r matches Ok(FileAction::CollectFiles { base_dir }) && base_dir@ == d,
            None => r matches Err(o) && (o.status matches AgentOutputStatus::Failure(m) && m@
                == "Missing base_dir parameter"@),
        },
        action.action@ == "get_file_metadata"@ ==> match param_value(action.parameters@, "path"@) {
            Some(p) => r matches Ok(FileAction::GetMetadata { path }) && path@ == p,
            None => r matches Err(o) && (o.status matches AgentOutputStatus::Failure(m) && m@
                == "Missing path parameter"@),
        },
        action.action@ == "route_file"@ ==> match param_value(action.parameters@, "file_path"@) {
            Some(p) => r matches Ok(FileAction::RouteFile { file_path }) && file_path@ == p,
            None => r matches Err(o) && (o.status matches AgentOutputStatus::Failure(m) && m@
                == "Missing file_path parameter"@),
        },
        action.action@ == "move_file"@ ==> match param_value(action.parameters@, "path"@) {
            Some(p) => match param_value(action.parameters@, "target_dir"@) {
                Some(t) => r matches Ok(FileAction::MoveFile { path, target_dir }) && path@ == p
                    && target_dir@ == t,
                None => r matches Err(o) && (o.status matches AgentOutputStatus::Failure(m) && m@
                    == "Missing target_dir parameter"@),
            },
            None => r matches Err(o) && (o.status matches AgentOutputStatus::Failure(m) && m@
                == "Missing path parameter"@),
        },
        action.action@ == "find_files_by_extension"@ ==> match param_value(
            action.parameters@,
            "base_dir"@,
        ) {
            Some(d) => match param_value(action.parameters@, "extension"@) {
                Some(e) => r matches Ok(FileAction::FindByExtension { base_dir, extension })
                    && base_dir@ == d && extension@ == e,
                None => r matches Err(o) && (o.status matches AgentOutputStatus::Failure(m) && m@
                    == "Missing extension parameter"@),
            },
            None => r matches Err(o) && (o.status matches AgentOutputStatus::Failure(m) && m@
                == "Missing base_dir parameter"@),
        },
        action.action@ == "find_large_files"@ ==> match param_value(
            action.parameters@,
            "base_dir"@,
        ) {
            Some(d) => match param_value(action.parameters@, "min_size"@) {
                Some(m) => {
                    if m.len() > 0 && is_digits(m) && dec_value(m) <= u64::MAX {
                        r matches Ok(FileAction::FindLargeFiles { base_dir, min_size })
                            && base_dir@ == d && min_size as int == dec_value(m)
                    } else {
                        r matches Err(o) && (o.status matches AgentOutputStatus::Failure(f) && f@
                            == "Invalid min_size parameter"@)
                    }
                },
                None => r matches Err(o) && (o.status matches AgentOutputStatus::Failure(f) && f@
                    == "Missing min_size parameter"@),
            },
            None => r matches Err(o) && (o.status matches AgentOutputStatus::Failure(f) && f@
                == "Missing base_dir parameter"@),
        },
        action.action@ == "execute_command"@ ==> match param_value(action.parameters@, "command"@) {
            Some(c) => r matches Ok(FileAction::ExecuteCommand { command }) && command@ == c,
            None => r matches Err(o) && (o.status matches AgentOutputStatus::Failure(m) && m@
                == "Missing command parameter"@),
        },
        action.action@.len() > 0 && action.action@ != "collect_files"@ && action.action@
            != "get_file_metadata"@ && action.action@ != "route_file"@ && action.action@
            != "move_file"@ && action.action@ != "find_files_by_extension"@ && action.action@
            != "find_large_files"@ && action.action@ != "execute_command"@ ==> (r matches Err(o)
            && (o.status matches AgentOutputStatus::Failure(m) && m@ == "Unknown action"@)),
{
    proof {
        reveal_strlit("collect_files");
        reveal_strlit("get_file_metadata");
        reveal_strlit("route_file");
        reveal_strlit("move_file");
        reveal_strlit("find_files_by_extension");
        reveal_strlit("find_large_files");
        reveal_strlit("execute_command");
    }
    let name = action.action.as_str();
    if name.unicode_len() == 0 {
        return Err(
            AgentOutput {
                status: AgentOutputStatus::Failure(String::from_str("No action specified")),
                message: Some(String::from_str("Please provide a valid action")),
            },
        );
    }
    if str_eq(name, "collect_files") {
        match action.param("base_dir") {
            Some(d) => Ok(FileAction::CollectFiles { base_dir: d.clone() }),
            None => Err(missing("Missing base_dir parameter")),
        }
    } else if str_eq(name, "get_file_metadata") {
        match action.param("path") {
            Some(p) => Ok(FileAction::GetMetadata { path: p.clone() }),
            None => Err(missing("Missing path parameter")),
        }
    } else if str_eq(name, "route_file") {
        match action.param("file_path") {
            Some(p) => Ok(FileAction::RouteFile { file_path: p.clone() }),
            None => Err(missing("Missing file_path parameter")),
        }
    } else if str_eq(name, "move_file") {
        match action.param("path") {
            Some(p) => match action.param("target_dir") {
                Some(t) => Ok(
                    FileAction::MoveFile { path: p.clone(), target_dir: t.clone() },
                ),
                None => Err(missing("Missing target_dir parameter")),
            },
            None => Err(missing("Missing path parameter")),
        }
    } else if str_eq(name, "find_files_by_extension") {
        match action.param("base_dir") {
            Some(d) => match action.param("extension") {
                Some(e) => Ok(
                    FileAction::FindByExtension { base_dir: d.clone(), extension: e.clone() },
                ),
                None => Err(missing("Missing extension parameter")),
            },
            None => Err(missing("Missing base_dir parameter")),
        }
    } else if str_eq(name, "find_large_files") {
        match action.param("base_dir") {
            Some(d) => match action.param("min_size") {
                Some(m) => match parse_u64(m.as_str()) {
                    Some(size) => Ok(
                        FileAction::FindLargeFiles { base_dir: d.clone(), min_size: size },
                    ),
                    None => Err(missing("Invalid min_size parameter")),
                },
                None => Err(missing("Missing min_size parameter")),
            },
            None => Err(missing("Missing base_dir parameter")),
        }
    } else if str_eq(name, "execute_command") {
        match action.param("command") {
            Some(c) => Ok(FileAction::ExecuteCommand { command: c.clone() }),
            None => Err(missing("Missing command parameter")),
        }
    } else {
        Err(missing("Unknown action"))
    }
}

fn missing(text: &str) -> (r: AgentOutput)
    ensures
        r.status matches AgentOutputStatus::Failure(m) && m@ == text@,
        r.message is None,
{
    AgentOutput {
        status: AgentOutputStatus::Failure(String::from_str(text)),
        message: None,
    }
}

/// What is known of a file, as plain values: its path, its size in bytes,
/// its modification time in whole seconds, and its lower-cased extension.
#[derive(Debug)]
pub struct FileMetadata {
    pub path: String,
    pub size: u64,
    pub modified: u64,
    pub extension: Option<String>,
}

/// Ninety days, in seconds.
pub open spec fn archive_age() -> int {
    7776000
}

/// The directory a file is routed to: text, image, video and document
/// extensions have fixed homes, any other extension goes to the archive once
/// the file is over ninety days old, and everything else stays unrouted.
pub fn route_file(file: &FileMetadata, now: u64) -> (r: Option<String>)
    ensures
        match file.extension {
            Some(e) => {
                if e@ == "txt"@ {
                    r matches Some(d) && d@ == "TextFiles"@
                } else if e@ == "jpg"@ || e@ == "png"@ {
                    r matches Some(d) && d@ == "Images"@
                } else if e@ == "mp4"@ {
                    r matches Some(d) && d@ == "Videos"@
                } else if e@ == "pdf"@ || e@ == "docx"@ {
                    r matches Some(d) && d@ == "Documents"@
                } else if file.modified + archive_age() < now {
                    r matches Some(d) && d@ == "Archive"@
                } else {
                    r is None
                }
            },
            None => r is None,
        },
{
    match &file.extension {
        Some(e) => {
            let ext = e.as_str();
            if str_eq(ext, "txt") {
                Some(String::from_str("TextFiles"))
            } else if str_eq(ext, "jpg") || str_eq(ext, "png") {
                Some(String::from_str("Images"))
            } else if str_eq(ext, "mp4") {
                Some(String::from_str("Videos"))
            } else if str_eq(ext, "pdf") || str_eq(ext, "docx") {
                Some(String::from_str("Documents"))
            } else {
                let old_enough = match file.modified.checked_add(7776000) {
                    Some(t) => t < now,
                    None => false,
                };
                if old_enough {
                    Some(String::from_str("Archive"))
                } else {
                    None
                }
            }
        },
        None => None,
    }
}

} // verus!
