use obs_websocket::SceneItem;

#[test]
fn a_scene_item_keeps_its_number_and_its_source() {
    let item = SceneItem::new(3, "Nacka Loga".to_string());
    assert_eq!(item.item_id(), 3);
    assert_eq!(item.source_name(), "Nacka Loga");
}

#[test]
fn scene_items_are_equal_where_both_parts_are() {
    assert_eq!(SceneItem::new(1, "Logitech".to_string()), SceneItem::new(1, "Logitech".to_string()));
    assert_ne!(SceneItem::new(1, "Logitech".to_string()), SceneItem::new(2, "Logitech".to_string()));
    assert_ne!(SceneItem::new(1, "Logitech".to_string()), SceneItem::new(1, "DJ".to_string()));
}
