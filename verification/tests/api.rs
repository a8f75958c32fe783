use convergio::action;
use convergio::api::{
    default_help_topic, default_help_verbosity, Action, ActionCatalog, HelpTopic, HelpVerbosity, ACT_TOOL, HELP_TOOL,
    SCHEMA_VERSION,
};

#[test]
fn lib_action_names_are_stable_snake_case() {
    let names: Vec<&str> = Action::all().iter().map(|a| a.as_str()).collect();
    assert_eq!(names[0], "status");
    assert!(names.contains(&"submit_task"));
    assert!(names.contains(&"explain_last_refusal"));
}

#[test]
fn lib_catalog_exposes_exact_two_tools() {
    let catalog = ActionCatalog::current();
    assert_eq!(catalog.tools.help, HELP_TOOL);
    assert_eq!(catalog.tools.act, ACT_TOOL);
    assert_eq!(catalog.actions.len(), Action::all().len());
}

#[test]
fn tests_action_names_are_stable_snake_case() {
    let names: Vec<&str> = action::Action::all().iter().map(|a| a.as_str()).collect();
    assert_eq!(names[0], "status");
    assert!(names.contains(&"submit_task"));
    assert!(names.contains(&"get_task_context"));
    assert!(names.contains(&"publish_message"));
    assert!(names.contains(&"poll_messages"));
    assert!(names.contains(&"ack_message"));
    assert!(names.contains(&"import_crdt_ops"));
    assert!(names.contains(&"list_crdt_conflicts"));
    assert!(names.contains(&"register_agent"));
    assert!(names.contains(&"heartbeat_agent"));
    assert!(names.contains(&"retire_agent"));
    assert!(names.contains(&"spawn_runner"));
    assert!(names.contains(&"planner.solve"));
    assert!(names.contains(&"list_capabilities"));
    assert!(names.contains(&"claim_workspace_lease"));
    assert!(names.contains(&"list_workspace_leases"));
    assert!(names.contains(&"submit_patch_proposal"));
    assert!(names.contains(&"enqueue_patch_proposal"));
    assert!(names.contains(&"process_merge_queue"));
    assert!(names.contains(&"list_merge_queue"));
    assert!(names.contains(&"explain_last_refusal"));
}

#[test]
fn tests_catalog_exposes_exact_two_tools() {
    let catalog = ActionCatalog::current();
    assert_eq!(catalog.tools.help, HELP_TOOL);
    assert_eq!(catalog.tools.act, ACT_TOOL);
    assert_eq!(catalog.actions.len(), Action::all().len());
}

#[test]
fn help_defaults_to_short_quickstart() {
    assert!(matches!(default_help_topic(), HelpTopic::Quickstart));
    assert!(matches!(default_help_verbosity(), HelpVerbosity::Short));
}

#[test]
fn complete_task_action_was_removed_in_schema_v2() {
    assert_eq!(SCHEMA_VERSION, "2");
    let names: Vec<&str> = action::Action::all().iter().map(|a| a.as_str()).collect();
    assert!(!names.contains(&"complete_task"), "complete_task must not be an action anymore");
    assert!(names.contains(&"validate_plan"));
    let catalog = ActionCatalog::current();
    assert_eq!(catalog.schema_version, "2");
    assert!(!catalog.actions.contains(&"complete_task"));
    assert!(Action::all().iter().all(|a| a.as_str() != "complete_task"));
}
