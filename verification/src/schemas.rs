use vstd::prelude::*;
use crate::text::str_equals;

verus! {

/// The type of a field in a controller schema.
#[derive(Debug)]
pub enum TypeSchema {
    String,
    U64,
    Bool,
    Json,
    Option(Box<TypeSchema>),
}

/// One input or output field of a controller.
#[derive(Debug)]
pub struct FieldSchema {
    pub name: &'static str,
    pub ty: TypeSchema,
    pub comment: &'static str,
    pub required: bool,
}

/// A field as plain values.
pub struct FieldView {
    pub name: Seq<char>,
    pub ty: TypeSchema,
    pub comment: Seq<char>,
    pub required: bool,
}

impl View for FieldSchema {
    type V = FieldView;

    open spec fn view(&self) -> FieldView {
        FieldView { name: self.name@, ty: self.ty, comment: self.comment@, required: self.required }
    }
}

/// The schema of one controller of the terminal namespace.
#[derive(Debug)]
pub struct ControllerSchema {
    pub namespace: &'static str,
    pub function: &'static str,
    pub description: &'static str,
    pub inputs: Vec<FieldSchema>,
    pub outputs: Vec<FieldSchema>,
}

/// A controller schema as plain values.
#[verifier::ext_equal]
pub struct ControllerView {
    pub namespace: Seq<char>,
    pub function: Seq<char>,
    pub description: Seq<char>,
    pub inputs: Seq<FieldView>,
    pub outputs: Seq<FieldView>,
}

/// The views of a list of fields.
pub open spec fn fields_view(v: Seq<FieldSchema>) -> Seq<FieldView> {
    v.map_values(|f: FieldSchema| f@)
}

impl View for ControllerSchema {
    type V = ControllerView;

    open spec fn view(&self) -> ControllerView {
        ControllerView {
            namespace: self.namespace@,
            function: self.function@,
            description: self.description@,
            inputs: fields_view(self.inputs@),
            outputs: fields_view(self.outputs@),
        }
    }
}

/// The description of a required string field.
pub open spec fn spec_required_string(name: Seq<char>, comment: Seq<char>) -> FieldView {
    FieldView { name, ty: TypeSchema::String, comment, required: true }
}

/// Describes a required string field.
pub fn required_string(name: &'static str, comment: &'static str) -> (r: FieldSchema)
    ensures
        r@ == spec_required_string(name@, comment@),
{
    FieldSchema { name, ty: TypeSchema::String, comment, required: true }
}

/// The description of a optional string field.
pub open spec fn spec_optional_string(name: Seq<char>, comment: Seq<char>) -> FieldView {
    FieldView { name, ty: TypeSchema::Option(Box::new(TypeSchema::String)), comment, required: false }
}

/// Describes a optional string field.
pub fn optional_string(name: &'static str, comment: &'static str) -> (r: FieldSchema)
    ensures
        r@ == spec_optional_string(name@, comment@),
{
    FieldSchema { name, ty: TypeSchema::Option(Box::new(TypeSchema::String)), comment, required: false }
}

/// The description of a required u64 field.
pub open spec fn spec_required_u64(name: Seq<char>, comment: Seq<char>) -> FieldView {
    FieldView { name, ty: TypeSchema::U64, comment, required: true }
}

/// Describes a required u64 field.
pub fn required_u64(name: &'static str, comment: &'static str) -> (r: FieldSchema)
    ensures
        r@ == spec_required_u64(name@, comment@),
{
    FieldSchema { name, ty: TypeSchema::U64, comment, required: true }
}

/// The description of a optional u64 field.
pub open spec fn spec_optional_u64(name: Seq<char>, comment: Seq<char>) -> FieldView {
    FieldView { name, ty: TypeSchema::Option(Box::new(TypeSchema::U64)), comment, required: false }
}

/// Describes a optional u64 field.
pub fn optional_u64(name: &'static str, comment: &'static str) -> (r: FieldSchema)
    ensures
        r@ == spec_optional_u64(name@, comment@),
{
    FieldSchema { name, ty: TypeSchema::Option(Box::new(TypeSchema::U64)), comment, required: false }
}

/// The description of a optional bool field.
pub open spec fn spec_optional_bool(name: Seq<char>, comment: Seq<char>) -> FieldView {
    FieldView { name, ty: TypeSchema::Option(Box::new(TypeSchema::Bool)), comment, required: false }
}

/// Describes a optional bool field.
pub fn optional_bool(name: &'static str, comment: &'static str) -> (r: FieldSchema)
    ensures
        r@ == spec_optional_bool(name@, comment@),
{
    FieldSchema { name, ty: TypeSchema::Option(Box::new(TypeSchema::Bool)), comment, required: false }
}

/// The description of a required json field.
pub open spec fn spec_required_json(name: Seq<char>, comment: Seq<char>) -> FieldView {
    FieldView { name, ty: TypeSchema::Json, comment, required: true }
}

/// Describes a required json field.
pub fn required_json(name: &'static str, comment: &'static str) -> (r: FieldSchema)
    ensures
        r@ == spec_required_json(name@, comment@),
{
    FieldSchema { name, ty: TypeSchema::Json, comment, required: true }
}

/// The description of a optional json field.
pub open spec fn spec_optional_json(name: Seq<char>, comment: Seq<char>) -> FieldView {
    FieldView { name, ty: TypeSchema::Option(Box::new(TypeSchema::Json)), comment, required: false }
}

/// Describes a optional json field.
pub fn optional_json(name: &'static str, comment: &'static str) -> (r: FieldSchema)
    ensures
        r@ == spec_optional_json(name@, comment@),
{
    FieldSchema { name, ty: TypeSchema::Option(Box::new(TypeSchema::Json)), comment, required: false }
}

/// The controllers of the terminal namespace, in order.
pub open spec fn spec_functions() -> Seq<Seq<char>> {
    seq!["start_session"@, "write"@, "poll_output"@, "resize"@, "close"@, "list_sessions"@]
}

/// The controllers of the terminal namespace, in order.
pub fn controller_functions() -> (r: Vec<&'static str>)
    ensures
        r@.map_values(|f: &'static str| f@) == spec_functions(),
{
    let r: Vec<&'static str> = vec!["start_session", "write", "poll_output", "resize", "close", "list_sessions"];
    assert(r@.map_values(|f: &'static str| f@) == spec_functions());
    r
}

/// The schema of the terminal controller named `function`; an unknown name
/// gets the `unknown` schema, which reports a lookup error.
pub open spec fn spec_schema(function: Seq<char>) -> ControllerView {
    if function == "start_session"@ {
        ControllerView {
            namespace: "terminal"@,
            function: "start_session"@,
            description: "Start an interactive PTY terminal session for a local shell or SSH target."@,
            inputs: seq![
                spec_optional_string("kind"@, "Terminal kind: local or ssh. Defaults to local."@),
                spec_optional_string("command"@, "Optional local command to execute inside the PTY."@),
                spec_optional_string("shell"@, "Optional local shell executable."@),
                spec_optional_string("cwd"@, "Workspace-relative or workspace-contained local cwd."@),
                spec_optional_u64("rows"@, "Initial terminal row count."@),
                spec_optional_u64("cols"@, "Initial terminal column count."@),
                spec_optional_json("ssh"@, "SSH params: host, user, port, request_tty, extra_args."@),
                spec_optional_bool("approved"@, "Explicit user approval for high-risk sessions."@),
                spec_optional_string("actor"@, "Human-readable caller label for audit logs."@),
            ],
            outputs: seq![
                spec_required_json("session"@, "Started terminal session metadata including session_id."@),
            ],
        }
    } else if function == "write"@ {
        ControllerView {
            namespace: "terminal"@,
            function: "write"@,
            description: "Write input bytes to an interactive PTY terminal session."@,
            inputs: seq![
                spec_required_string("session_id"@, "Terminal session id."@),
                spec_required_string("data"@, "Raw input to write to the PTY."@),
                spec_optional_string("actor"@, "Human-readable caller label for audit logs."@),
            ],
            outputs: seq![
                spec_required_json("result"@, "Write result and byte count."@),
            ],
        }
    } else if function == "poll_output"@ {
        ControllerView {
            namespace: "terminal"@,
            function: "poll_output"@,
            description: "Poll buffered output chunks from an interactive PTY terminal session."@,
            inputs: seq![
                spec_required_string("session_id"@, "Terminal session id."@),
                spec_optional_u64("after_seq"@, "Only return chunks after this sequence id."@),
                spec_optional_u64("max_chunks"@, "Maximum chunks to return, capped by the core."@),
            ],
            outputs: seq![
                spec_required_json("output"@, "Terminal output chunks and next sequence id."@),
            ],
        }
    } else if function == "resize"@ {
        ControllerView {
            namespace: "terminal"@,
            function: "resize"@,
            description: "Resize an interactive PTY terminal session."@,
            inputs: seq![
                spec_required_string("session_id"@, "Terminal session id."@),
                spec_required_u64("rows"@, "Terminal row count."@),
                spec_required_u64("cols"@, "Terminal column count."@),
            ],
            outputs: seq![
                spec_required_json("result"@, "Applied terminal size."@),
            ],
        }
    } else if function == "close"@ {
        ControllerView {
            namespace: "terminal"@,
            function: "close"@,
            description: "Close and remove an interactive PTY terminal session."@,
            inputs: seq![
                spec_required_string("session_id"@, "Terminal session id."@),
            ],
            outputs: seq![
                spec_required_json("result"@, "Closed terminal session status."@),
            ],
        }
    } else if function == "list_sessions"@ {
        ControllerView {
            namespace: "terminal"@,
            function: "list_sessions"@,
            description: "List active interactive PTY terminal sessions."@,
            inputs: Seq::empty(),
            outputs: seq![
                spec_required_json("sessions"@, "Active terminal session summaries."@),
            ],
        }
    } else {
        ControllerView {
            namespace: "terminal"@,
            function: "unknown"@,
            description: "Unknown terminal controller."@,
            inputs: Seq::empty(),
            outputs: seq![spec_required_string("error"@, "Lookup error details."@)],
        }
    }
}

/// The schema of the terminal controller named `function`.
pub fn schemas(function: &str) -> (r: ControllerSchema)
    ensures
        r@ == spec_schema(function@),
{
    let r =     if str_equals(function, "start_session") {
            ControllerSchema {
                namespace: "terminal",
                function: "start_session",
                description: "Start an interactive PTY terminal session for a local shell or SSH target.",
                inputs: vec![
                    optional_string("kind", "Terminal kind: local or ssh. Defaults to local."),
                    optional_string("command", "Optional local command to execute inside the PTY."),
                    optional_string("shell", "Optional local shell executable."),
                    optional_string("cwd", "Workspace-relative or workspace-contained local cwd."),
                    optional_u64("rows", "Initial terminal row count."),
                    optional_u64("cols", "Initial terminal column count."),
                    optional_json("ssh", "SSH params: host, user, port, request_tty, extra_args."),
                    optional_bool("approved", "Explicit user approval for high-risk sessions."),
                    optional_string("actor", "Human-readable caller label for audit logs."),
                ],
                outputs: vec![
                    required_json("session", "Started terminal session metadata including session_id."),
                ],
            }
        } else if str_equals(function, "write") {
            ControllerSchema {
                namespace: "terminal",
                function: "write",
                description: "Write input bytes to an interactive PTY terminal session.",
                inputs: vec![
                    required_string("session_id", "Terminal session id."),
                    required_string("data", "Raw input to write to the PTY."),
                    optional_string("actor", "Human-readable caller label for audit logs."),
                ],
                outputs: vec![
                    required_json("result", "Write result and byte count."),
                ],
            }
        } else if str_equals(function, "poll_output") {
            ControllerSchema {
                namespace: "terminal",
                function: "poll_output",
                description: "Poll buffered output chunks from an interactive PTY terminal session.",
                inputs: vec![
                    required_string("session_id", "Terminal session id."),
                    optional_u64("after_seq", "Only return chunks after this sequence id."),
                    optional_u64("max_chunks", "Maximum chunks to return, capped by the core."),
                ],
                outputs: vec![
                    required_json("output", "Terminal output chunks and next sequence id."),
                ],
            }
        } else if str_equals(function, "resize") {
            ControllerSchema {
                namespace: "terminal",
                function: "resize",
                description: "Resize an interactive PTY terminal session.",
                inputs: vec![
                    required_string("session_id", "Terminal session id."),
                    required_u64("rows", "Terminal row count."),
                    required_u64("cols", "Terminal column count."),
                ],
                outputs: vec![
                    required_json("result", "Applied terminal size."),
                ],
            }
        } else if str_equals(function, "close") {
            ControllerSchema {
                namespace: "terminal",
                function: "close",
                description: "Close and remove an interactive PTY terminal session.",
                inputs: vec![
                    required_string("session_id", "Terminal session id."),
                ],
                outputs: vec![
                    required_json("result", "Closed terminal session status."),
                ],
            }
        } else if str_equals(function, "list_sessions") {
            ControllerSchema {
                namespace: "terminal",
                function: "list_sessions",
                description: "List active interactive PTY terminal sessions.",
                inputs: Vec::new(),
                outputs: vec![
                    required_json("sessions", "Active terminal session summaries."),
                ],
            }
        } else {
            ControllerSchema {
                namespace: "terminal",
                function: "unknown",
                description: "Unknown terminal controller.",
                inputs: Vec::new(),
                outputs: vec![required_string("error", "Lookup error details.")],
            }
        };
    assert(r@ =~= spec_schema(function@));
    r
}

/// The schemas of all terminal controllers, in order.
pub fn all_controller_schemas() -> (r: Vec<ControllerSchema>)
    ensures
        r@.len() == spec_functions().len(),
        forall|k: int| 0 <= k < r@.len() ==> (#[trigger] r@[k])@ == spec_schema(spec_functions()[k]),
{
    let functions = controller_functions();
    let ghost names = functions@.map_values(|f: &'static str| f@);
    let mut out: Vec<ControllerSchema> = Vec::new();
    let mut i: usize = 0;
    while i < functions.len()
        invariant
            0 <= i <= functions@.len(),
            names == functions@.map_values(|f: &'static str| f@),
            names == spec_functions(),
            out@.len() == i,
            forall|k: int| 0 <= k < i ==> (#[trigger] out@[k])@ == spec_schema(names[k]),
        decreases functions@.len() - i,
    {
        out.push(schemas(functions[i]));
        i = i + 1;
    }
    out
}

/// The handler that serves a terminal controller.
#[derive(Debug, Clone, Copy, PartialEq, Eq, Structural)]
pub enum TerminalHandler {
    StartSession,
    Write,
    PollOutput,
    Resize,
    Close,
    ListSessions,
}

/// The controller a handler serves.
pub open spec fn spec_handler_function(h: TerminalHandler) -> Seq<char> {
    match h {
        TerminalHandler::StartSession => "start_session"@,
        TerminalHandler::Write => "write"@,
        TerminalHandler::PollOutput => "poll_output"@,
        TerminalHandler::Resize => "resize"@,
        TerminalHandler::Close => "close"@,
        TerminalHandler::ListSessions => "list_sessions"@,
    }
}

/// The handlers of the terminal controllers, in order.
pub open spec fn spec_handlers() -> Seq<TerminalHandler> {
    seq![
        TerminalHandler::StartSession,
        TerminalHandler::Write,
        TerminalHandler::PollOutput,
        TerminalHandler::Resize,
        TerminalHandler::Close,
        TerminalHandler::ListSessions,
    ]
}

/// A controller schema together with the handler that serves it.
#[derive(Debug)]
pub struct RegisteredController {
    pub schema: ControllerSchema,
    pub handler: TerminalHandler,
}

fn registered(function: &'static str, handler: TerminalHandler) -> (r: RegisteredController)
    ensures
        r.schema@ == spec_schema(function@),
        r.handler == handler,
{
    RegisteredController { schema: schemas(function), handler }
}

/// Every terminal controller with its schema and handler, in order.
pub fn all_registered_controllers() -> (r: Vec<RegisteredController>)
    ensures
        r@.len() == spec_handlers().len(),
        forall|k: int|
            0 <= k < r@.len() ==> (#[trigger] r@[k]).handler == spec_handlers()[k]
                && r@[k].schema@ == spec_schema(spec_handler_function(spec_handlers()[k])),
{
    let r: Vec<RegisteredController> = vec![
        registered("start_session", TerminalHandler::StartSession),
        registered("write", TerminalHandler::Write),
        registered("poll_output", TerminalHandler::PollOutput),
        registered("resize", TerminalHandler::Resize),
        registered("close", TerminalHandler::Close),
        registered("list_sessions", TerminalHandler::ListSessions),
    ];
    r
}

/// Every schema has a handler: the handlers serve exactly the listed
/// controllers, one each and in the same order.
pub proof fn lemma_every_schema_has_a_handler()
    ensures
        spec_handlers().len() == spec_functions().len(),
        forall|k: int|
            0 <= k < spec_handlers().len() ==> spec_handler_function(#[trigger] spec_handlers()[k])
                == spec_functions()[k],
{
}


/// The fields each controller's request type needs, that is those it has no
/// default for: a write needs its session and data; a poll and a close their
/// session; a resize its session and both sizes. Every field of a start
/// request is optional.
pub open spec fn request_required_fields(function: Seq<char>) -> Seq<Seq<char>> {
    if function == "write"@ {
        seq!["session_id"@, "data"@]
    } else if function == "poll_output"@ || function == "close"@ {
        seq!["session_id"@]
    } else if function == "resize"@ {
        seq!["session_id"@, "rows"@, "cols"@]
    } else {
        Seq::empty()
    }
}

/// The schema of every controller agrees with its request type: an input is
/// marked required exactly when the request needs it, a required input has
/// a plain type and an optional one an `Option` type, and every field the
/// request needs is an input.
pub proof fn lemma_schema_requires_what_requests_need(function: Seq<char>)
    requires
        spec_functions().contains(function),
    ensures
        ({
            let inputs = spec_schema(function).inputs;
            let needed = request_required_fields(function);
            &&& forall|k: int|
                0 <= k < inputs.len() ==> ((#[trigger] inputs[k]).required <==> needed.contains(
                    inputs[k].name,
                ))
            &&& forall|k: int|
                0 <= k < inputs.len() ==> ((#[trigger] inputs[k]).required <==> !(
                inputs[k].ty is Option))
            &&& forall|n: Seq<char>|
                #[trigger] needed.contains(n) ==> exists|k: int|
                    0 <= k < inputs.len() && (#[trigger] inputs[k]).name == n
        }),
{
    reveal_strlit("start_session");
    reveal_strlit("write");
    reveal_strlit("poll_output");
    reveal_strlit("resize");
    reveal_strlit("close");
    reveal_strlit("list_sessions");
    reveal_strlit("kind");
    reveal_strlit("command");
    reveal_strlit("shell");
    reveal_strlit("cwd");
    reveal_strlit("rows");
    reveal_strlit("cols");
    reveal_strlit("ssh");
    reveal_strlit("approved");
    reveal_strlit("actor");
    reveal_strlit("session_id");
    reveal_strlit("data");
    reveal_strlit("after_seq");
    reveal_strlit("max_chunks");
    assert("start_session"@.len() == 13);
    assert("write"@.len() == 5);
    assert("poll_output"@.len() == 11);
    assert("resize"@.len() == 6);
    assert("close"@.len() == 5);
    assert("write"@[0] != "close"@[0]);
    assert("session_id"@[0] == 's' && "data"@[0] == 'd' && "actor"@[0] == 'a');
    assert("after_seq"@[0] == 'a' && "max_chunks"@[0] == 'm');
    let fs = spec_functions();
    let i = choose|i: int| 0 <= i < fs.len() && fs[i] == function;
    let inputs = spec_schema(function).inputs;
    let needed = request_required_fields(function);
    if i == 0 {
        assert(function == "start_session"@);
        assert(needed.len() == 0);
    } else if i == 1 {
        assert(function == "write"@);
        assert(needed =~= seq!["session_id"@, "data"@]);
        assert(inputs[0].name == "session_id"@);
        assert(inputs[1].name == "data"@);
        assert(!needed.contains("actor"@));
        assert(needed.contains("session_id"@)) by { assert(needed[0] == "session_id"@); }
        assert(needed.contains("data"@)) by { assert(needed[1] == "data"@); }
    } else if i == 2 {
        assert(function == "poll_output"@);
        assert(inputs[0].name == "session_id"@);
        assert(needed.contains("session_id"@)) by { assert(needed[0] == "session_id"@); }
        assert(!needed.contains("after_seq"@));
        assert(!needed.contains("max_chunks"@));
    } else if i == 3 {
        assert(function == "resize"@);
        assert(inputs[0].name == "session_id"@);
        assert(inputs[1].name == "rows"@);
        assert(inputs[2].name == "cols"@);
        assert(needed.contains("session_id"@)) by { assert(needed[0] == "session_id"@); }
        assert(needed.contains("rows"@)) by { assert(needed[1] == "rows"@); }
        assert(needed.contains("cols"@)) by { assert(needed[2] == "cols"@); }
    } else if i == 4 {
        assert(function == "close"@);
        assert(inputs[0].name == "session_id"@);
        assert(needed.contains("session_id"@)) by { assert(needed[0] == "session_id"@); }
    } else {
        assert(function == "list_sessions"@);
        assert(needed.len() == 0);
    }
}

} // verus!
