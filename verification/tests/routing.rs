use qq_warning::routing::{looks_like_group, plan_recall, plan_send_group, plan_send_to, plan_send_user, RecallTarget, SendPlan, SendWarning};

#[test]
fn group_ids_by_prefix() {
    assert!(looks_like_group("group_123"));
    assert!(looks_like_group("grp_42"));
    assert!(looks_like_group("qqgroup_7"));
    assert!(looks_like_group("GROUP_ABC"));
    assert!(looks_like_group("Grp_x"));
}

#[test]
fn group_ids_by_word_anywhere() {
    assert!(looks_like_group("mygroupid"));
    assert!(looks_like_group("abcGrOuPdef"));
}

#[test]
fn group_ids_ignore_surrounding_space() {
    assert!(looks_like_group("  grp_1  "));
    assert!(looks_like_group("\t\ngrp_1"));
    assert!(looks_like_group("\u{3000}grp_1"));
    assert!(!looks_like_group("x grp_1"));
}

#[test]
fn user_ids_are_not_groups() {
    assert!(!looks_like_group("87FAB80C79F56E0EFB3E5B8590AF00BC"));
    assert!(!looks_like_group(""));
    assert!(!looks_like_group("grp"));
    assert!(!looks_like_group("gr oup"));
    assert!(!looks_like_group("ＧＲＯＵＰ"));
}

#[test]
fn send_to_group_falls_back_to_text() {
    let d = plan_send_to("group_1", false, None, true);
    assert!(matches!(d.plan, SendPlan::GroupText));
    assert_eq!(d.warning, Some(SendWarning::GroupStreamUnsupported));

    let d = plan_send_to("group_1", false, Some("http://x/y.png".to_string()), false);
    assert!(matches!(d.plan, SendPlan::GroupText));
    assert_eq!(d.warning, Some(SendWarning::GroupImageUnsupported));

    let d = plan_send_to("group_1", true, None, false);
    assert!(matches!(d.plan, SendPlan::UserMarkdown));
    assert_eq!(d.warning, Some(SendWarning::GroupMarkdownUnsure));

    let d = plan_send_to("group_1", false, None, false);
    assert!(matches!(d.plan, SendPlan::GroupText));
    assert_eq!(d.warning, None);
}

#[test]
fn send_to_user_follows_options() {
    let d = plan_send_to("user1", true, Some("u".to_string()), true);
    assert!(matches!(d.plan, SendPlan::UserStream));
    let d = plan_send_to("user1", true, Some("http://x/y.png".to_string()), false);
    match d.plan {
        SendPlan::UserImage(url) => assert_eq!(url, "http://x/y.png"),
        _ => panic!("expected an image"),
    }
    let d = plan_send_to("user1", true, None, false);
    assert!(matches!(d.plan, SendPlan::UserMarkdown));
    assert_eq!(d.warning, None);
    let d = plan_send_to("user1", false, None, false);
    assert!(matches!(d.plan, SendPlan::UserText));
}

#[test]
fn send_user_and_group_plans() {
    assert!(matches!(plan_send_user(true, None, true), SendPlan::UserStream));
    assert!(matches!(plan_send_user(true, Some("i".to_string()), false), SendPlan::UserImage(_)));
    assert!(matches!(plan_send_user(true, None, false), SendPlan::UserMarkdown));
    assert!(matches!(plan_send_user(false, None, false), SendPlan::UserText));
    let d = plan_send_group(true);
    assert!(matches!(d.plan, SendPlan::GroupText));
    assert_eq!(d.warning, Some(SendWarning::GroupImageUnsupported));
    assert_eq!(plan_send_group(false).warning, None);
}

#[test]
fn recall_target_by_id() {
    assert_eq!(plan_recall("group_9"), RecallTarget::Group);
    assert_eq!(plan_recall("ABCDEF"), RecallTarget::User);
}

#[test]
fn group_ids_ignore_case_and_padding_alike() {
    for id in ["group_x", "user_1", "abcgroupz", "qqgroup_", "grp"] {
        let upper = id.to_ascii_uppercase();
        let padded = format!(" \t{}\u{a0}\n", id);
        assert_eq!(looks_like_group(id), looks_like_group(&upper));
        assert_eq!(looks_like_group(id), looks_like_group(&padded));
    }
}

#[test]
fn send_and_recall_agree_on_groups() {
    for id in ["group_1", " GRP_2", "user_abc", "87FAB80C", "xgroupx"] {
        let to_group = matches!(plan_send_to(id, false, None, false).plan, SendPlan::GroupText);
        assert_eq!(to_group, plan_recall(id) == RecallTarget::Group);
        let d = plan_send_to(id, true, Some("http://img".to_string()), true);
        if d.warning.is_some() {
            assert_eq!(plan_recall(id), RecallTarget::Group);
        }
    }
}
