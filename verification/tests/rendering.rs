use phosphorus::element::TemplateElement;
use phosphorus::element_type::{BlockType, ElementType, ElementTypes, TextType};
use phosphorus::render::{render, RenderArea, RenderCommand, RenderData};

#[test]
fn block_without_background_emits_nothing() {
    let element = TemplateElement::new("block").to_dom();
    let mut data = RenderData::new();

    BlockType.render(&element, [5, 6], &mut data);

    assert_eq!(data.commands().len(), 0);
}

#[test]
fn block_with_background_emits_one_flat_rect() {
    let element = TemplateElement::new("block")
        .with_attr("style_background", "[200, 200, 0]")
        .to_dom();
    let mut data = RenderData::new();

    BlockType.render(&element, [5, 6], &mut data);

    assert_eq!(data.commands().len(), 1);
    match &data.commands()[0] {
        RenderCommand::FlatRect { position, size, color } => {
            assert_eq!(*position, [5, 6]);
            assert_eq!(*size, [100, 100]);
            assert_eq!(*color, [200, 200, 0]);
        },
        _ => panic!("expected a flat rectangle"),
    }
}

#[test]
fn block_with_malformed_background_emits_nothing() {
    let element = TemplateElement::new("block")
        .with_attr("style_background", "[200, 200]")
        .to_dom();
    let mut data = RenderData::new();

    BlockType.render(&element, [0, 0], &mut data);

    assert_eq!(data.commands().len(), 0);
}

#[test]
fn text_type_draws_background_then_value() {
    let element = TemplateElement::new("text")
        .with_attr("style_background", "[1, 2, 3]")
        .with_attr("style_size", "[40, 12]")
        .with_attr("value", "hello")
        .to_dom();
    let mut data = RenderData::new();

    TextType.render(&element, [7, 8], &mut data);

    assert_eq!(data.commands().len(), 2);
    match &data.commands()[0] {
        RenderCommand::FlatRect { position, size, color } => {
            assert_eq!(*position, [7, 8]);
            assert_eq!(*size, [40, 12]);
            assert_eq!(*color, [1, 2, 3]);
        },
        _ => panic!("expected a flat rectangle first"),
    }
    match &data.commands()[1] {
        RenderCommand::Text { position, text } => {
            assert_eq!(*position, [7, 8]);
            assert_eq!(text, "hello");
        },
        _ => panic!("expected a text draw second"),
    }
}

#[test]
fn text_type_without_value_draws_only_background() {
    let element = TemplateElement::new("text")
        .with_attr("style_background", "[1, 2, 3]")
        .to_dom();
    let mut data = RenderData::new();

    TextType.render(&element, [0, 0], &mut data);

    assert_eq!(data.commands().len(), 1);
}

#[test]
fn unregistered_tag_falls_back_to_default_behavior() {
    let mut types = ElementTypes::new(ElementType::Block(BlockType));
    types.register("text", ElementType::Text(TextType));

    assert!(matches!(types.get("text"), ElementType::Text(_)));
    // A tag never registered resolves to the default, not a failure.
    assert!(matches!(types.get("never-registered"), ElementType::Block(_)));
}

#[test]
fn register_overwrites_existing_tag() {
    let mut types = ElementTypes::new(ElementType::Block(BlockType));
    types.register("x", ElementType::Block(BlockType));
    types.register("x", ElementType::Text(TextType));

    assert!(matches!(types.get("x"), ElementType::Text(_)));
}

#[test]
fn default_behavior_ignores_text_value() {
    // Under the default Block behavior an unknown tag with a `value`
    // attribute draws no text: the fallback is Block's output.
    let element = TemplateElement::new("mystery").with_attr("value", "ignored").to_dom();
    let types = ElementTypes::new(ElementType::Block(BlockType));
    let mut data = RenderData::new();
    let area = RenderArea { position: [0, 0], size: [640, 480] };

    render(&element, &types, &area, &mut data);

    assert_eq!(data.commands().len(), 0);
}

#[test]
fn render_traversal_is_pre_order_at_parent_position() {
    let template = TemplateElement::new("root")
        .with_attr("style_background", "[9, 9, 9]")
        .with_child(
            TemplateElement::new("text")
                .with_attr("value", "child")
                .with_attr("style_background", "[1, 1, 1]"),
        );
    let mut dom = template.to_dom();
    dom.update_outdated();

    let mut types = ElementTypes::new(ElementType::Block(BlockType));
    types.register("text", ElementType::Text(TextType));
    let mut data = RenderData::new();
    let area = RenderArea { position: [30, 40], size: [640, 480] };

    render(&dom, &types, &area, &mut data);

    // Parent background first, then the child's background and text, all
    // at the same position.
    assert_eq!(data.commands().len(), 3);
    match &data.commands()[0] {
        RenderCommand::FlatRect { position, color, .. } => {
            assert_eq!(*position, [30, 40]);
            assert_eq!(*color, [9, 9, 9]);
        },
        _ => panic!("expected the parent's rectangle first"),
    }
    match &data.commands()[1] {
        RenderCommand::FlatRect { position, color, .. } => {
            assert_eq!(*position, [30, 40]);
            assert_eq!(*color, [1, 1, 1]);
        },
        _ => panic!("expected the child's rectangle second"),
    }
    match &data.commands()[2] {
        RenderCommand::Text { position, text } => {
            assert_eq!(*position, [30, 40]);
            assert_eq!(text, "child");
        },
        _ => panic!("expected the child's text last"),
    }
}

#[test]
fn unsettled_dom_renders_root_only() {
    let template = TemplateElement::new("root")
        .with_attr("style_background", "[9, 9, 9]")
        .with_child(TemplateElement::new("child").with_attr("style_background", "[1, 1, 1]"));
    let dom = template.to_dom();

    let types = ElementTypes::new(ElementType::Block(BlockType));
    let mut data = RenderData::new();
    let area = RenderArea { position: [0, 0], size: [10, 10] };

    render(&dom, &types, &area, &mut data);

    // The children were never settled, so only the root draws.
    assert_eq!(data.commands().len(), 1);
}
