use openhuman_terminal::schemas::{
    all_controller_schemas, all_registered_controllers, controller_functions, schemas,
    TerminalHandler, TypeSchema,
};

#[test]
fn all_terminal_schemas_have_handlers() {
    let schemas = all_controller_schemas();
    let handlers = all_registered_controllers();
    assert_eq!(schemas.len(), handlers.len());
    let functions: Vec<_> = schemas.iter().map(|schema| schema.function).collect();
    assert_eq!(functions, controller_functions());
}

#[test]
fn start_session_schema_includes_ssh_params() {
    let schema = schemas("start_session");
    assert_eq!(schema.namespace, "terminal");
    assert!(schema.inputs.iter().any(|field| field.name == "ssh"));
    assert!(schema.inputs.iter().any(|field| field.name == "approved"));
}

#[test]
fn unknown_function_gets_error_schema() {
    let schema = schemas("nope");
    assert_eq!(schema.function, "unknown");
    assert_eq!(schema.description, "Unknown terminal controller.");
    assert!(schema.inputs.is_empty());
    assert_eq!(schema.outputs.len(), 1);
    assert_eq!(schema.outputs[0].name, "error");
    assert!(matches!(schema.outputs[0].ty, TypeSchema::String));
    assert!(schema.outputs[0].required);
}

#[test]
fn resize_schema_requires_sizes() {
    let schema = schemas("resize");
    let names: Vec<_> = schema.inputs.iter().map(|f| f.name).collect();
    assert_eq!(names, vec!["session_id", "rows", "cols"]);
    assert!(schema.inputs.iter().all(|f| f.required));
    assert!(matches!(schema.inputs[1].ty, TypeSchema::U64));
}

#[test]
fn optional_fields_wrap_their_type() {
    let schema = schemas("poll_output");
    assert!(!schema.inputs[1].required);
    match &schema.inputs[1].ty {
        TypeSchema::Option(inner) => assert!(matches!(**inner, TypeSchema::U64)),
        _ => panic!("after_seq should be optional"),
    }
    assert_eq!(schema.outputs[0].name, "output");
}

#[test]
fn handlers_follow_function_order() {
    let handlers = all_registered_controllers();
    let expected = [
        TerminalHandler::StartSession,
        TerminalHandler::Write,
        TerminalHandler::PollOutput,
        TerminalHandler::Resize,
        TerminalHandler::Close,
        TerminalHandler::ListSessions,
    ];
    for (registered, handler) in handlers.iter().zip(expected.iter()) {
        assert_eq!(registered.handler, *handler);
    }
    assert_eq!(handlers[2].schema.function, "poll_output");
    assert!(schemas("list_sessions").inputs.is_empty());
}
