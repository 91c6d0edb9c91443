use rook_core::fixed::Fixed;
use rook_core::layer_processor::{delete_layer, reorder_layers, update_layer, LayerProcessor};
use rook_core::models::{
    Bounds, LayerObject, LayerRole, LayerType, LayerUpdates, PageData, SourceType, TextAlign,
};

fn fx(v: f64) -> Fixed {
    Fixed::from_micros((v * 1_000_000.0).round() as i64)
}

fn create_test_layer(id: &str, z_index: i32) -> LayerObject {
    LayerObject {
        id: id.to_string(),
        layer_type: LayerType::Text,
        bounds: Bounds::new(fx(0.0), fx(0.0), fx(100.0), fx(50.0)),
        visible: true,
        locked: false,
        z_index,
        opacity: fx(1.0),
        content: None,
        font_family: None,
        font_size: None,
        font_weight: None,
        font_style: None,
        color: None,
        text_align: None,
        text_decoration: None,
        text_transform: None,
        line_height: None,
        letter_spacing: None,
        background_color: None,
        image_url: None,
        image_path: None,
        image_data: None,
        shape_type: None,
        stroke_color: None,
        stroke_width: None,
        fill_color: None,
        path_data: None,
        transform: None,
        source_type: SourceType::Manual,
        role: LayerRole::Content,
    }
}

fn create_test_page() -> PageData {
    PageData {
        page_index: 0,
        width: fx(612.0),
        height: fx(792.0),
        dpi: Some(72),
        layers: vec![
            create_test_layer("layer-1", 1),
            create_test_layer("layer-2", 2),
            create_test_layer("layer-3", 3),
        ],
        metadata: None,
    }
}

#[test]
fn test_bring_to_front() {
    let mut page = create_test_page();
    LayerProcessor::bring_to_front(&mut page, "layer-1").unwrap();

    let layer = page.layers.iter().find(|l| l.id == "layer-1").unwrap();
    assert_eq!(layer.z_index, 4);
}

#[test]
fn test_send_to_back() {
    let mut page = create_test_page();
    LayerProcessor::send_to_back(&mut page, "layer-3").unwrap();

    let layer = page.layers.iter().find(|l| l.id == "layer-3").unwrap();
    assert_eq!(layer.z_index, 0);
}

#[test]
fn test_move_up() {
    let mut page = create_test_page();
    LayerProcessor::move_up(&mut page, "layer-1").unwrap();

    let layer1 = page.layers.iter().find(|l| l.id == "layer-1").unwrap();
    let layer2 = page.layers.iter().find(|l| l.id == "layer-2").unwrap();
    assert_eq!(layer1.z_index, 2);
    assert_eq!(layer2.z_index, 1);
}

#[test]
fn test_move_down() {
    let mut page = create_test_page();
    LayerProcessor::move_down(&mut page, "layer-3").unwrap();

    let layer2 = page.layers.iter().find(|l| l.id == "layer-2").unwrap();
    let layer3 = page.layers.iter().find(|l| l.id == "layer-3").unwrap();
    assert_eq!(layer3.z_index, 2);
    assert_eq!(layer2.z_index, 3);
}

#[test]
fn test_normalize_z_indices() {
    let mut page = PageData {
        page_index: 0,
        width: fx(612.0),
        height: fx(792.0),
        dpi: Some(72),
        layers: vec![
            create_test_layer("layer-a", 10),
            create_test_layer("layer-b", 5),
            create_test_layer("layer-c", 100),
        ],
        metadata: None,
    };

    LayerProcessor::normalize_z_indices(&mut page);

    assert_eq!(page.layers[0].z_index, 0);
    assert_eq!(page.layers[1].z_index, 1);
    assert_eq!(page.layers[2].z_index, 2);

    assert_eq!(page.layers[0].id, "layer-b");
    assert_eq!(page.layers[1].id, "layer-a");
    assert_eq!(page.layers[2].id, "layer-c");
}

#[test]
fn test_apply_updates_clamps_opacity() {
    let mut layer = create_test_layer("test", 0);

    let updates = LayerUpdates { opacity: Some(fx(1.5)), ..Default::default() };

    LayerProcessor::apply_updates(&mut layer, &updates);
    assert_eq!(layer.opacity, fx(1.0));
}

#[test]
fn test_apply_updates_clamps_font_size() {
    let mut layer = create_test_layer("test", 0);

    let updates = LayerUpdates { font_size: Some(fx(-5.0)), ..Default::default() };

    LayerProcessor::apply_updates(&mut layer, &updates);
    assert_eq!(layer.font_size, Some(fx(1.0)));
}

#[test]
fn test_layer_not_found() {
    let mut page = create_test_page();
    let result = LayerProcessor::bring_to_front(&mut page, "nonexistent");
    assert!(result.is_err());
}

#[test]
fn missing_layers_are_named() {
    let mut page = create_test_page();
    for result in [
        LayerProcessor::bring_to_front(&mut page, "x"),
        LayerProcessor::send_to_back(&mut page, "x"),
        LayerProcessor::move_up(&mut page, "x"),
        LayerProcessor::move_down(&mut page, "x"),
    ] {
        assert_eq!(result.err().as_deref(), Some("Layer not found: x"));
    }
    let zs: Vec<i32> = page.layers.iter().map(|l| l.z_index).collect();
    assert_eq!(zs, vec![1, 2, 3]);
}

#[test]
fn moving_at_the_ends_changes_nothing() {
    let mut page = create_test_page();
    LayerProcessor::move_up(&mut page, "layer-3").unwrap();
    LayerProcessor::move_down(&mut page, "layer-1").unwrap();
    let zs: Vec<i32> = page.layers.iter().map(|l| l.z_index).collect();
    assert_eq!(zs, vec![1, 2, 3]);
}

#[test]
fn front_and_back_of_other_pages() {
    let mut empty = PageData {
        page_index: 0,
        width: fx(1.0),
        height: fx(1.0),
        dpi: None,
        layers: vec![],
        metadata: None,
    };
    assert!(LayerProcessor::bring_to_front(&mut empty, "a").is_err());
    let mut page = create_test_page();
    page.layers[0].z_index = -7;
    page.layers[1].z_index = -3;
    page.layers[2].z_index = -5;
    LayerProcessor::bring_to_front(&mut page, "layer-1").unwrap();
    assert_eq!(page.layers[0].z_index, -2);
    LayerProcessor::send_to_back(&mut page, "layer-2").unwrap();
    assert_eq!(page.layers[1].z_index, -6);
}

#[test]
fn exchange_touches_every_layer_of_the_two_orders() {
    let mut page = create_test_page();
    page.layers.push(create_test_layer("layer-1", 9));
    page.layers.push(create_test_layer("twin", 2));
    LayerProcessor::move_up(&mut page, "layer-1").unwrap();
    let zs: Vec<i32> = page.layers.iter().map(|l| l.z_index).collect();
    assert_eq!(zs, vec![2, 1, 3, 2, 1]);
}

#[test]
fn normalizing_keeps_the_order_of_equal_z() {
    let mut page = create_test_page();
    page.layers[0].z_index = 4;
    page.layers[1].z_index = 4;
    page.layers[2].z_index = -1;
    page.layers.push(create_test_layer("layer-4", 4));
    LayerProcessor::normalize_z_indices(&mut page);
    let ids: Vec<&str> = page.layers.iter().map(|l| l.id.as_str()).collect();
    assert_eq!(ids, vec!["layer-3", "layer-1", "layer-2", "layer-4"]);
    let zs: Vec<i32> = page.layers.iter().map(|l| l.z_index).collect();
    assert_eq!(zs, vec![0, 1, 2, 3]);
    assert_eq!(page.page_index, 0);
    assert_eq!(page.dpi, Some(72));
}

#[test]
fn updates_apply_field_by_field() {
    let mut layer = create_test_layer("test", 0);
    layer.font_style = Some("italic".to_string());
    let updates = LayerUpdates {
        bounds: Some(Bounds::new(fx(1.0), fx(2.0), fx(3.0), fx(4.0))),
        visible: Some(false),
        locked: Some(true),
        z_index: Some(9),
        opacity: Some(fx(-0.5)),
        content: Some("new".to_string()),
        font_family: Some("Lato".to_string()),
        font_size: Some(fx(14.0)),
        font_weight: Some(700),
        font_style: Some("normal".to_string()),
        color: Some("#123456".to_string()),
        text_align: Some(TextAlign::Right),
        text_decoration: Some("underline".to_string()),
        role: Some(LayerRole::Header),
        ..Default::default()
    };
    LayerProcessor::apply_updates(&mut layer, &updates);
    assert_eq!(layer.bounds, Bounds::new(fx(1.0), fx(2.0), fx(3.0), fx(4.0)));
    assert!(!layer.visible);
    assert!(layer.locked);
    assert_eq!(layer.z_index, 9);
    assert_eq!(layer.opacity, fx(0.0));
    assert_eq!(layer.content.as_deref(), Some("new"));
    assert_eq!(layer.font_family.as_deref(), Some("Lato"));
    assert_eq!(layer.font_size, Some(fx(14.0)));
    assert_eq!(layer.font_weight, Some(700));
    assert_eq!(layer.font_style.as_deref(), Some("italic"));
    assert_eq!(layer.color.as_deref(), Some("#123456"));
    assert_eq!(layer.text_align, Some(TextAlign::Right));
    assert_eq!(layer.text_decoration, None);
    assert_eq!(layer.role, LayerRole::Header);
    let before = layer.clone();
    LayerProcessor::apply_updates(&mut layer, &LayerUpdates::default());
    assert_eq!(layer, before);
}

#[test]
fn update_requests_describe_a_layer() {
    let layer = update_layer(3, "l".to_string(), LayerUpdates::default()).unwrap();
    assert_eq!(layer.id, "l");
    assert_eq!(layer.layer_type, LayerType::Text);
    assert_eq!(layer.bounds, Bounds::new(fx(0.0), fx(0.0), fx(100.0), fx(100.0)));
    assert!(layer.visible);
    assert!(!layer.locked);
    assert_eq!(layer.z_index, 0);
    assert_eq!(layer.opacity, fx(1.0));
    assert_eq!(layer.source_type, SourceType::Manual);
    assert_eq!(layer.role, LayerRole::Content);
    let asked = LayerUpdates {
        opacity: Some(fx(7.0)),
        font_size: Some(fx(0.5)),
        font_style: Some("italic".to_string()),
        background_color: Some("#fff".to_string()),
        line_height: Some(fx(1.5)),
        ..Default::default()
    };
    let layer = update_layer(0, "m".to_string(), asked).unwrap();
    assert_eq!(layer.opacity, fx(1.0));
    assert_eq!(layer.font_size, Some(fx(1.0)));
    assert_eq!(layer.font_style.as_deref(), Some("italic"));
    assert_eq!(layer.background_color.as_deref(), Some("#fff"));
    assert_eq!(layer.line_height, Some(fx(1.5)));
    assert!(delete_layer(0, "m".to_string()).is_ok());
    assert!(reorder_layers(0, vec![]).is_ok());
    let _ = LayerProcessor::new();
}
