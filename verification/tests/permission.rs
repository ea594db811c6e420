use awaken_runtime::permission::{
    aggregate_tool_permissions, AllowAllToolsPlugin, ToolPermission, ToolPermissionResult,
};

#[test]
fn tool_gate_deny_with_custom_message() {
    let decisions = vec![ToolPermission::Deny {
        reason: "unsafe".into(),
        message: Some("This tool is not allowed in sandbox mode".into()),
    }];
    let result = aggregate_tool_permissions(&decisions);
    assert_eq!(
        result,
        ToolPermissionResult::Deny {
            reason: "unsafe".into(),
            message: Some("This tool is not allowed in sandbox mode".into()),
        }
    );
    match result {
        ToolPermissionResult::Deny { message, .. } => {
            assert_eq!(message.as_deref(), Some("This tool is not allowed in sandbox mode"));
        }
        other => panic!("expected Deny, got {other:?}"),
    }
}

#[test]
fn tool_gate_deny_without_custom_message_uses_none() {
    let decisions = vec![ToolPermission::Deny { reason: "forbidden".into(), message: None }];
    let result = aggregate_tool_permissions(&decisions);
    match result {
        ToolPermissionResult::Deny { reason, message } => {
            assert_eq!(reason, "forbidden");
            assert!(message.is_none());
        }
        other => panic!("expected Deny, got {other:?}"),
    }
}

#[test]
fn tool_gate_block_terminates_run() {
    let decisions = vec![ToolPermission::Block { reason: "critical policy violation".into() }];
    let result = aggregate_tool_permissions(&decisions);
    assert_eq!(
        result,
        ToolPermissionResult::Block { reason: "critical policy violation".into() }
    );
    assert!(result.is_block());
}

#[test]
fn tool_gate_block_overrides_allow() {
    let decisions = vec![
        ToolPermission::Allow,
        ToolPermission::Block { reason: "security policy".into() },
        ToolPermission::Allow,
    ];
    let result = aggregate_tool_permissions(&decisions);
    assert_eq!(result, ToolPermissionResult::Block { reason: "security policy".into() });
}

#[test]
fn tool_gate_block_overrides_deny() {
    let decisions = vec![
        ToolPermission::Deny { reason: "not allowed".into(), message: None },
        ToolPermission::Block { reason: "hard block".into() },
    ];
    let result = aggregate_tool_permissions(&decisions);
    assert!(result.is_block());
    assert_eq!(result, ToolPermissionResult::Block { reason: "hard block".into() });
}

#[test]
fn aggregate_all_abstain_yields_suspend() {
    let decisions = vec![ToolPermission::Abstain, ToolPermission::Abstain];
    assert_eq!(aggregate_tool_permissions(&decisions), ToolPermissionResult::Suspend);
}

#[test]
fn aggregate_allow_with_abstain_yields_allow() {
    let decisions = vec![ToolPermission::Allow, ToolPermission::Abstain];
    assert_eq!(aggregate_tool_permissions(&decisions), ToolPermissionResult::Allow);
}

#[test]
fn aggregate_deny_overrides_allow() {
    let decisions = vec![
        ToolPermission::Allow,
        ToolPermission::Deny { reason: "nope".into(), message: Some("custom msg".into()) },
    ];
    let result = aggregate_tool_permissions(&decisions);
    assert!(result.is_deny());
    match result {
        ToolPermissionResult::Deny { reason, message } => {
            assert_eq!(reason, "nope");
            assert_eq!(message.as_deref(), Some("custom msg"));
        }
        other => panic!("expected Deny, got {other:?}"),
    }
}

#[test]
fn aggregate_empty_list_suspends() {
    assert_eq!(aggregate_tool_permissions(&[]), ToolPermissionResult::Suspend);
}

#[test]
fn aggregate_first_deny_wins_among_denies() {
    let decisions = vec![
        ToolPermission::Abstain,
        ToolPermission::Deny { reason: "first".into(), message: None },
        ToolPermission::Deny { reason: "second".into(), message: Some("m".into()) },
    ];
    assert_eq!(
        aggregate_tool_permissions(&decisions),
        ToolPermissionResult::Deny { reason: "first".into(), message: None }
    );
}

#[test]
fn aggregate_first_block_wins_among_blocks() {
    let decisions = vec![
        ToolPermission::Block { reason: "a".into() },
        ToolPermission::Block { reason: "b".into() },
    ];
    assert_eq!(
        aggregate_tool_permissions(&decisions),
        ToolPermissionResult::Block { reason: "a".into() }
    );
}

#[test]
fn aggregate_depends_only_on_presence_of_kinds() {
    let a = vec![ToolPermission::Abstain, ToolPermission::Allow, ToolPermission::Abstain];
    let b = vec![ToolPermission::Allow];
    assert_eq!(aggregate_tool_permissions(&a), aggregate_tool_permissions(&b));
}

#[test]
fn permission_predicates() {
    assert!(ToolPermission::Allow.is_allow());
    assert!(ToolPermission::Abstain.is_abstain());
    assert!(ToolPermission::Deny { reason: "r".into(), message: None }.is_deny());
    assert!(ToolPermission::Block { reason: "r".into() }.is_block());
    assert!(ToolPermissionResult::Suspend.is_suspend());
    assert!(ToolPermissionResult::Allow.is_allow());
    assert!(!ToolPermissionResult::Allow.is_deny());
}

#[test]
fn allow_all_plugin_allows_and_names_itself() {
    let plugin = AllowAllToolsPlugin;
    assert_eq!(plugin.descriptor().name, "tool-permission:allow-all");
    assert!(plugin.check().is_allow());
}
