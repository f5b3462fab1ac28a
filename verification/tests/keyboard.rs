use qq_warning::keyboard::{build_keyboard, ButtonAction};

fn triple(label: &str, data: &str, action: ButtonAction) -> (String, String, ButtonAction) {
    (label.to_string(), data.to_string(), action)
}

#[test]
fn keyboard_two_buttons_per_row() {
    let k = build_keyboard(vec![
        triple("Docs", "ignored", ButtonAction::Link("https://example.com".to_string())),
        triple("Ping", "ping", ButtonAction::Callback),
        triple("Help", "/help", ButtonAction::Command),
    ]);
    assert!(k.id.is_none());
    let rows = &k.content.rows;
    assert_eq!(rows.len(), 2);
    assert_eq!(rows[0].buttons.len(), 2);
    assert_eq!(rows[1].buttons.len(), 1);

    let b0 = &rows[0].buttons[0];
    assert_eq!(b0.id, "btn_0");
    assert_eq!(b0.render_data.label, "Docs");
    assert_eq!(b0.render_data.visited_label, "Docs");
    assert_eq!(b0.render_data.style, 1);
    assert_eq!(b0.action.action_type, 0);
    assert_eq!(b0.action.data.as_deref(), Some("https://example.com"));
    assert_eq!(b0.action.permission.permission_type, 2);
    assert_eq!(b0.action.reply, Some(false));
    assert_eq!(b0.action.enter, Some(true));

    let b1 = &rows[0].buttons[1];
    assert_eq!(b1.id, "btn_1");
    assert_eq!(b1.action.action_type, 1);
    assert_eq!(b1.action.data.as_deref(), Some("ping"));

    let b2 = &rows[1].buttons[0];
    assert_eq!(b2.id, "btn_2");
    assert_eq!(b2.action.action_type, 2);
    assert_eq!(b2.action.data.as_deref(), Some("/help"));
}

#[test]
fn keyboard_empty_and_even() {
    let k = build_keyboard(vec![]);
    assert!(k.content.rows.is_empty());
    let k = build_keyboard((0..12).map(|i| triple(&format!("b{}", i), "d", ButtonAction::Callback)).collect());
    assert_eq!(k.content.rows.len(), 6);
    assert_eq!(k.content.rows[5].buttons[1].id, "btn_11");
    assert_eq!(k.content.rows[5].buttons[1].render_data.label, "b11");
}
