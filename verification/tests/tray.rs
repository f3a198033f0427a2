use waylandkb::tray::{
    auto_show_update, icon_pixmap, icon_sizes, invalid_arguments, item_method_action,
    item_property, menu_event, menu_layout, menu_method, menu_property, menu_request,
    ItemProperty, MenuLayout, MenuMethod, MenuProperty, MenuReply, MenuRequest, PropValue,
    TrayAction, AUTO_SHOW_ID,
};

fn prop<'a>(props: &'a [(&'static str, PropValue)], name: &str) -> Option<&'a PropValue> {
    props.iter().find(|(n, _)| *n == name).map(|(_, v)| v)
}

fn label(layout: &MenuLayout) -> Option<&'static str> {
    match prop(&layout.properties, "label") {
        Some(PropValue::Text(text)) => Some(*text),
        _ => None,
    }
}

fn click(id: i32) -> (i32, String) {
    (id, "clicked".to_string())
}

#[test]
fn menu_layout_contains_show_hide_and_quit_as_variant_children() {
    let (reply, actions) = menu_request(
        &MenuRequest::GetLayout {
            id: 0,
            depth: -1,
            names: Vec::new(),
        },
        true,
    )
    .unwrap();
    let MenuReply::Layout { revision, layout } = reply else {
        panic!("not a layout reply");
    };
    assert_eq!(revision, 1);
    assert_eq!(
        prop(&layout.properties, "children-display"),
        Some(&PropValue::Text("submenu"))
    );
    assert_eq!(layout.children.len(), 5);
    for (child, expected) in layout.children.iter().zip([
        Some("Показать клавиатуру"),
        Some("Скрыть клавиатуру"),
        Some("Автоматически показывать клавиатуру"),
        None,
        Some("Выход"),
    ]) {
        assert_eq!(label(child), expected);
    }
    assert!(actions.is_empty());
}

#[test]
fn menu_respects_depth_and_property_filters_and_rejects_unknown_items() {
    let layout = menu_layout(0, 0, &[], true).unwrap();
    assert!(!layout.properties.is_empty());
    assert!(layout.children.is_empty());
    let layout = menu_layout(1, -1, &["label".into()], true).unwrap();
    assert_eq!(layout.properties.len(), 1);
    assert!(layout.children.is_empty());
    assert!(menu_layout(99, -1, &[], true).is_none());
    assert_eq!(
        invalid_arguments(menu_method("GetLayout").unwrap()),
        "Invalid layout arguments"
    );
}

#[test]
fn only_clicked_actionable_menu_items_trigger_actions() {
    for (id, expected) in [
        (1, TrayAction::Show),
        (2, TrayAction::Hide),
        (4, TrayAction::Quit),
        (AUTO_SHOW_ID, TrayAction::ToggleAutoShow),
    ] {
        let (reply, actions) = menu_request(
            &MenuRequest::Event {
                id,
                event: "clicked".to_string(),
            },
            true,
        )
        .unwrap();
        assert_eq!(reply, MenuReply::Empty);
        assert_eq!(actions, vec![expected]);
    }
    assert_eq!(menu_event(4, "hovered"), Ok(None));
    assert_eq!(menu_event(AUTO_SHOW_ID, "hovered"), Ok(None));
    assert_eq!(menu_event(0, "opened"), Ok(None));
    assert_eq!(menu_event(3, "clicked"), Ok(None));
    assert!(menu_event(99, "clicked").is_err());
}

#[test]
fn grouped_events_report_unknown_ids_without_losing_valid_actions() {
    let events = vec![click(99), click(2)];
    let (reply, actions) = menu_request(&MenuRequest::EventGroup { events }, true).unwrap();
    assert_eq!(reply, MenuReply::EventErrors(vec![99]));
    assert_eq!(actions, vec![TrayAction::Hide]);
}

#[test]
fn property_queries_and_open_notifications_do_not_trigger_actions() {
    let (reply, actions) = menu_request(
        &MenuRequest::GetGroupProperties {
            ids: vec![1, 99, 2],
            names: vec!["label".to_string()],
        },
        true,
    )
    .unwrap();
    let MenuReply::GroupProperties(props) = reply else {
        panic!("not a property reply");
    };
    assert_eq!(props.len(), 2);
    assert_eq!(props[1].0, 2);
    assert_eq!(props[1].1.len(), 1);
    assert!(actions.is_empty());
    let (reply, _) = menu_request(
        &MenuRequest::GetProperty {
            id: 4,
            name: "label".to_string(),
        },
        true,
    )
    .unwrap();
    assert_eq!(reply, MenuReply::Property(PropValue::Text("Выход")));
    assert!(menu_request(
        &MenuRequest::GetProperty {
            id: 99,
            name: "label".to_string(),
        },
        true
    )
    .is_err());
    let (reply, actions) = menu_request(
        &MenuRequest::AboutToShowGroup {
            ids: vec![0, 1, 99],
        },
        true,
    )
    .unwrap();
    assert_eq!(
        reply,
        MenuReply::AboutToShowGroup {
            updates: vec![],
            errors: vec![99]
        }
    );
    assert!(actions.is_empty());
}

#[test]
fn auto_show_checkmark_matches_state_in_every_property_query() {
    for enabled in [true, false] {
        let state = PropValue::Int(i32::from(enabled));
        let layout = menu_layout(AUTO_SHOW_ID, 0, &[], enabled).unwrap();
        assert_eq!(
            prop(&layout.properties, "toggle-type"),
            Some(&PropValue::Text("checkmark"))
        );
        assert_eq!(prop(&layout.properties, "toggle-state"), Some(&state));
        let (reply, actions) = menu_request(
            &MenuRequest::GetProperty {
                id: AUTO_SHOW_ID,
                name: "toggle-state".to_string(),
            },
            enabled,
        )
        .unwrap();
        assert_eq!(reply, MenuReply::Property(state));
        assert!(actions.is_empty());
        let (reply, _) = menu_request(
            &MenuRequest::GetGroupProperties {
                ids: Vec::new(),
                names: vec!["toggle-state".to_string()],
            },
            enabled,
        )
        .unwrap();
        let MenuReply::GroupProperties(items) = reply else {
            panic!("not a property reply");
        };
        let item = &items.iter().find(|(id, _)| *id == AUTO_SHOW_ID).unwrap().1;
        assert_eq!(prop(item, "toggle-state"), Some(&state));
    }
}

#[test]
fn checkmark_update_signal_contains_new_state_and_no_removed_properties() {
    for enabled in [false, true] {
        let updated = auto_show_update(enabled);
        assert_eq!(updated.len(), 1);
        assert_eq!(updated[0].0, AUTO_SHOW_ID);
        assert_eq!(
            prop(&updated[0].1, "toggle-state"),
            Some(&PropValue::Int(i32::from(enabled)))
        );
    }
}

#[test]
fn grouped_toggle_events_do_not_drop_other_valid_actions() {
    let events = vec![click(AUTO_SHOW_ID), click(1), click(AUTO_SHOW_ID)];
    let (reply, actions) = menu_request(&MenuRequest::EventGroup { events }, true).unwrap();
    assert_eq!(reply, MenuReply::EventErrors(vec![]));
    assert_eq!(
        actions,
        vec![
            TrayAction::ToggleAutoShow,
            TrayAction::Show,
            TrayAction::ToggleAutoShow
        ]
    );
}

#[test]
fn icon_and_tooltip_select_embedded_pixels_instead_of_theme_lookup() {
    assert_eq!(icon_sizes(), vec![16, 22, 24, 32, 48, 64]);
    assert_eq!(item_property("IconName"), Some(ItemProperty::Text("")));
    assert_eq!(item_property("IconPixmap"), Some(ItemProperty::Icons));
    match item_property("ToolTip") {
        Some(ItemProperty::ToolTip { icon_name, .. }) => assert!(icon_name.is_empty()),
        other => panic!("unexpected tooltip {other:?}"),
    }
}

fn item_signature(property: ItemProperty) -> &'static str {
    match property {
        ItemProperty::Text(_) => "s",
        ItemProperty::Int(_) => "i",
        ItemProperty::Flag(_) => "b",
        ItemProperty::Icons | ItemProperty::NoIcons => "a(iiay)",
        ItemProperty::ObjectPath(_) => "o",
        ItemProperty::ToolTip { .. } => "(sa(iiay)ss)",
    }
}

fn menu_signature(property: MenuProperty) -> &'static str {
    match property {
        MenuProperty::Version(_) => "u",
        MenuProperty::Text(_) => "s",
        MenuProperty::NoPaths => "as",
    }
}

#[test]
fn tray_properties_match_declared_dbus_types() {
    for (name, signature) in [
        ("Category", "s"),
        ("Id", "s"),
        ("Title", "s"),
        ("Status", "s"),
        ("WindowId", "i"),
        ("IconName", "s"),
        ("IconPixmap", "a(iiay)"),
        ("OverlayIconName", "s"),
        ("OverlayIconPixmap", "a(iiay)"),
        ("AttentionIconName", "s"),
        ("AttentionIconPixmap", "a(iiay)"),
        ("AttentionMovieName", "s"),
        ("IconThemePath", "s"),
        ("ToolTip", "(sa(iiay)ss)"),
        ("ItemIsMenu", "b"),
        ("Menu", "o"),
    ] {
        assert_eq!(item_signature(item_property(name).unwrap()), signature, "{name}");
    }
    for (name, signature) in [
        ("Version", "u"),
        ("TextDirection", "s"),
        ("Status", "s"),
        ("IconThemePath", "as"),
    ] {
        assert_eq!(menu_signature(menu_property(name).unwrap()), signature, "{name}");
    }
    assert_eq!(item_property("Status"), Some(ItemProperty::Text("Active")));
    assert!(item_property("Unknown").is_none());
    assert_eq!(menu_property("Other"), None);
}

#[test]
fn argb_conversion_preserves_alpha_and_skips_row_padding() {
    let rgba = vec![10, 20, 30, 128, 0, 0, 0, 0, 40, 50, 60, 255];
    assert_eq!(
        icon_pixmap(1, 2, 8, true, 4, 8, &rgba).unwrap(),
        (1, 2, vec![128, 10, 20, 30, 255, 40, 50, 60])
    );
    assert!(icon_pixmap(1, 1, 3, false, 3, 8, &[0, 0, 0]).is_err());
}

#[test]
fn activating_the_tray_item_toggles_the_keyboard() {
    assert_eq!(item_method_action("Activate"), Some(TrayAction::Toggle));
    assert_eq!(
        item_method_action("SecondaryActivate"),
        Some(TrayAction::Toggle)
    );
    assert_eq!(item_method_action("Scroll"), None);
    assert_eq!(menu_method("Event"), Some(MenuMethod::Event));
    assert_eq!(menu_method("Nope"), None);
}
