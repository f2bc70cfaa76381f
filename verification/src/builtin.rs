//! The built-in tools: an echo over structured arguments and a character
//! counter, both pure and safe for concurrent invocation.
use crate::task::TollInvocation;
use crate::tools::{output_model, Tool, ToolInput, ToolOutput, ToolOutputModel};
use crate::value::{field_of, model, Value, ValueModel};
use vstd::prelude::*;

verus! {

/// The failure output of a tool whose `text` argument is missing or not a
/// string.
pub open spec fn bad_text_argument() -> ToolOutputModel {
    ToolOutputModel {
        result: ValueModel::Null,
        success: false,
        message: Some("Missing or invalid 'text' argument"@),
    }
}

fn bad_text_output() -> (r: ToolOutput)
    ensures
        output_model(r) == bad_text_argument(),
{
    ToolOutput {
        result: Value::Null,
        success: false,
        message: Some(String::from_str("Missing or invalid 'text' argument")),
    }
}

/// Hands the `text` argument back unchanged, whatever its type.
pub struct EchoTool;

impl Tool for EchoTool {
    open spec fn spec_name(&self) -> Seq<char> {
        "echo"@
    }

    open spec fn spec_primitive(&self, args: ValueModel) -> bool {
        false
    }

    open spec fn spec_execute(&self, args: ValueModel, output: ToolOutputModel) -> bool {
        output == match field_of(args, "text"@) {
            Some(v) => ToolOutputModel { result: v, success: true, message: None },
            None => bad_text_argument(),
        }
    }

    fn name(&self) -> (r: String)
        ensures
            r@ == self.spec_name(),
    {
        String::from_str("echo")
    }

    fn description(&self) -> (r: &'static str) {
        "Returns the 'text' argument unchanged"
    }

    fn as_invocation(&self, args: &Value) -> (r: Option<TollInvocation>)
        ensures
            r is Some <==> self.spec_primitive(model(*args)),
    {
        None
    }

    fn execute(&self, input: ToolInput) -> (r: ToolOutput)
        ensures
            self.spec_execute(model(input.args), output_model(r)),
    {
        match input.args.get_field("text") {
            Some(v) => ToolOutput { result: v.duplicate(), success: true, message: None },
            None => bad_text_output(),
        }
    }
}

/// Counts the characters of the `text` argument.
pub struct LengthTool;

impl Tool for LengthTool {
    open spec fn spec_name(&self) -> Seq<char> {
        "length"@
    }

    open spec fn spec_primitive(&self, args: ValueModel) -> bool {
        false
    }

    open spec fn spec_execute(&self, args: ValueModel, output: ToolOutputModel) -> bool {
        output == match field_of(args, "text"@) {
            Some(v) => {
                if v matches ValueModel::Text(t) && t.len() <= i64::MAX {
                    ToolOutputModel {
                        result: ValueModel::Number(v->Text_0.len() as int),
                        success: true,
                        message: None,
                    }
                } else {
                    bad_text_argument()
                }
            },
            None => bad_text_argument(),
        }
    }

    fn name(&self) -> (r: String)
        ensures
            r@ == self.spec_name(),
    {
        String::from_str("length")
    }

    fn description(&self) -> (r: &'static str) {
        "Calculates the length of a given string"
    }

    fn as_invocation(&self, args: &Value) -> (r: Option<TollInvocation>)
        ensures
            r is Some <==> self.spec_primitive(model(*args)),
    {
        None
    }

    fn execute(&self, input: ToolInput) -> (r: ToolOutput)
        ensures
            self.spec_execute(model(input.args), output_model(r)),
    {
        match input.args.get_field("text") {
            Some(v) => match v {
                Value::Text(t) => {
                    let len = t.as_str().unicode_len();
                    if len as u64 <= i64::MAX as u64 {
                        ToolOutput {
                            result: Value::Number(len as i64),
                            success: true,
                            message: None,
                        }
                    } else {
                        bad_text_output()
                    }
                },
                _ => bad_text_output(),
            },
            None => bad_text_output(),
        }
    }
}

} // verus!
