use rustv::{CompanionAction, CompanionRoute};

#[test]
fn test_companion_route() {
    let route = CompanionRoute {
        input: "Camera 1".to_string(),
        output: "Monitor 1".to_string(),
    };
    assert_eq!(route.input, "Camera 1");
    assert_eq!(route.output, "Monitor 1");
}

#[test]
fn companion_action_holds_layout() {
    let action = CompanionAction::SetLayout {
        layout: "1+7 Layout".to_string(),
    };
    assert!(matches!(action, CompanionAction::SetLayout { ref layout } if layout == "1+7 Layout"));
}
