//! The JavaScript that is handed to the runtime: the code of a block with a
//! console that collects what it logs, and the call of one of its
//! functions.

use vstd::prelude::*;
use vstd::string::*;

verus! {

/// The name of the file under which the runtime knows the code.
pub const DEFAULT_FILENAME: &'static str = "code_block.js";

/// What stands before the code of a block: the list of logged values, and a
/// console whose `log` adds its arguments to the list.
pub const CONSOLE_PRELUDE: &'static str =
    "let __rust_logs = [];
            const console = { log: function(...args) {
                __rust_logs = __rust_logs.concat(args)
            } };";

/// The code of a block as the runtime gets it.
pub open spec fn script_source_spec(js_code: Seq<char>) -> Seq<char> {
    CONSOLE_PRELUDE@ + js_code
}

/// Puts the console before the code of a block.
pub fn script_source(js_code: &str) -> (source: String)
    ensures
        source@ == script_source_spec(js_code@),
{
    CONSOLE_PRELUDE.to_owned().concat(js_code)
}

/// The call of a function with arguments, awaited where the function is
/// asynchronous.
pub open spec fn call_expression_spec(fn_name: Seq<char>, json_args: Seq<char>) -> Seq<char> {
    fn_name + ".constructor.name === 'AsyncFunction'\n\t\t\t\t\t? await "@ + fn_name + "("@
        + json_args + ")\n\t\t\t\t\t: "@ + fn_name + "("@ + json_args + ")"@
}

/// The code that calls a function of a block and hands its result and the
/// logged values back. A function that gives nothing gives null.
pub open spec fn call_source_spec(fn_name: Seq<char>, json_args: Seq<char>) -> Seq<char> {
    "(async () => {\n\t\t\t\tlet __rust_result = "@ + call_expression_spec(fn_name, json_args)
        + ";\n\n\t\t\t\tif (typeof __rust_result === 'undefined')\n\t\t\t\t\t__rust_result = null;\n\n\t\t\t\tDeno.core.ops.op_return(JSON.stringify({value: __rust_result, logs: __rust_logs}));\n\t\t\t})()"@
}

/// Writes the code that calls a function of a block.
pub fn call_source(fn_name: &str, json_args: &str) -> (source: String)
    ensures
        source@ == call_source_spec(fn_name@, json_args@),
{
    let call = call_expression(fn_name, json_args);
    "(async () => {\n\t\t\t\tlet __rust_result = ".to_owned().concat(call.as_str()).concat(
        ";\n\n\t\t\t\tif (typeof __rust_result === 'undefined')\n\t\t\t\t\t__rust_result = null;\n\n\t\t\t\tDeno.core.ops.op_return(JSON.stringify({value: __rust_result, logs: __rust_logs}));\n\t\t\t})()",
    )
}

/// The time that a call may take, once set. It can be set once, and not to
/// nothing.
#[derive(Clone, Copy, PartialEq, Eq, Structural, Debug)]
pub struct Timeout {
    pub millis: Option<u64>,
}

impl Timeout {
    pub fn unset() -> (timeout: Timeout)
        ensures
            timeout.millis is None,
    {
        Timeout { millis: None }
    }

    /// Sets the time that a call may take.
    pub fn with_timeout(self, millis: u64) -> (timeout: Timeout)
        requires
            self.millis is None,
            millis > 0,
        ensures
            timeout.millis == Some(millis),
    {
        Timeout { millis: Some(millis) }
    }

    /// Sets the time that a call may take, unless it is set already or the
    /// time is nothing.
    pub fn try_with_timeout(self, millis: u64) -> (timeout: Option<Timeout>)
        ensures
            timeout == if self.millis is None && millis > 0 {
                Some(Timeout { millis: Some(millis) })
            } else {
                None
            },
    {
        if self.millis.is_none() && millis > 0 {
            Some(self.with_timeout(millis))
        } else {
            None
        }
    }
}

/// The code of a block followed by the call of one of its functions, as one
/// script whose value is the result of the call together with the logged
/// values. A function that gives nothing gives null.
pub open spec fn standalone_source_spec(
    js_code: Seq<char>,
    fn_name: Seq<char>,
    json_args: Seq<char>,
) -> Seq<char> {
    "let __rust_logs = [];\n         const console = { log: function(...args) {\n            __rust_logs = __rust_logs.concat(args)\n        } };\n\n        "@
        + js_code + "\n\n        (async () => {\n\t\t\tlet __rust_result = "@
        + call_expression_spec(fn_name, json_args)
        + ";\n\n\t\t\tif (typeof __rust_result === 'undefined')\n\t\t\t\t__rust_result = null;\n\n            return {value: __rust_result, logs: __rust_logs};\n\t\t})()"@
}

fn call_expression(fn_name: &str, json_args: &str) -> (call: String)
    ensures
        call@ == call_expression_spec(fn_name@, json_args@),
{
    fn_name.to_owned().concat(".constructor.name === 'AsyncFunction'\n\t\t\t\t\t? await ").concat(
        fn_name,
    ).concat("(").concat(json_args).concat(")\n\t\t\t\t\t: ").concat(fn_name).concat("(").concat(
        json_args,
    ).concat(")")
}

/// Writes the code of a block and the call of one of its functions as one
/// script.
pub fn standalone_source(js_code: &str, fn_name: &str, json_args: &str) -> (source: String)
    ensures
        source@ == standalone_source_spec(js_code@, fn_name@, json_args@),
{
    "let __rust_logs = [];\n         const console = { log: function(...args) {\n            __rust_logs = __rust_logs.concat(args)\n        } };\n\n        ".to_owned().concat(
        js_code,
    ).concat("\n\n        (async () => {\n\t\t\tlet __rust_result = ").concat(
        call_expression(fn_name, json_args).as_str(),
    ).concat(
        ";\n\n\t\t\tif (typeof __rust_result === 'undefined')\n\t\t\t\t__rust_result = null;\n\n            return {value: __rust_result, logs: __rust_logs};\n\t\t})()",
    )
}

} // verus!
