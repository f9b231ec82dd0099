use phosphorus::render::{RenderArea, RenderCommand, RenderData, RenderOffset};
use phosphorus::widget::{
    ButtonBuilder, ImageBuilder, Layout, LayoutBackground, LayoutBuilder, TextBuilder, Widget,
};
use phosphorus::Event;

fn button_area() -> RenderArea {
    RenderArea { position: [10, 10], size: [640, 480] }
}

#[test]
fn button_builder_defaults() {
    let builder = ButtonBuilder::new();

    assert_eq!(builder.text, "");
    assert_eq!(builder.size, [80, 20]);
    assert!(builder.callback.is_none());

    let button = builder.with_text("go").with_callback(7).build_boxed();
    assert!(!button.hovering());
}

#[test]
fn button_hovers_inside_and_not_outside() {
    let mut button = *ButtonBuilder::new().with_text("go").build_boxed();
    let area = button_area();
    let mut fired: Vec<u64> = Vec::new();

    let mut offset = RenderOffset { position: [0, 0] };
    button.raise_event(&Event::MouseMoved([50, 15]), &area, &mut offset, &mut fired);
    assert!(button.hovering());

    let mut offset = RenderOffset { position: [0, 0] };
    button.raise_event(&Event::MouseMoved([5, 5]), &area, &mut offset, &mut fired);
    assert!(!button.hovering());

    assert!(fired.is_empty());
}

#[test]
fn button_hover_is_half_open_on_both_axes() {
    let mut button = *ButtonBuilder::new().build_boxed();
    let area = button_area();
    let mut fired: Vec<u64> = Vec::new();

    // The top-left corner is inside ...
    let mut offset = RenderOffset { position: [0, 0] };
    button.raise_event(&Event::MouseMoved([10, 10]), &area, &mut offset, &mut fired);
    assert!(button.hovering());

    // ... and the bottom-right corner is outside.
    let mut offset = RenderOffset { position: [0, 0] };
    button.raise_event(&Event::MouseMoved([90, 30]), &area, &mut offset, &mut fired);
    assert!(!button.hovering());
}

#[test]
fn click_while_hovering_fires_callback_exactly_once() {
    let mut button = *ButtonBuilder::new().with_callback(42).build_boxed();
    let area = button_area();
    let mut fired: Vec<u64> = Vec::new();

    let mut offset = RenderOffset { position: [0, 0] };
    button.raise_event(&Event::MouseMoved([50, 15]), &area, &mut offset, &mut fired);
    assert!(button.hovering());

    let mut offset = RenderOffset { position: [0, 0] };
    button.raise_event(&Event::MouseClick, &area, &mut offset, &mut fired);

    assert_eq!(fired, vec![42]);
}

#[test]
fn click_while_not_hovering_fires_nothing() {
    let mut button = *ButtonBuilder::new().with_callback(42).build_boxed();
    let area = button_area();
    let mut fired: Vec<u64> = Vec::new();

    let mut offset = RenderOffset { position: [0, 0] };
    button.raise_event(&Event::MouseMoved([5, 5]), &area, &mut offset, &mut fired);
    let mut offset = RenderOffset { position: [0, 0] };
    button.raise_event(&Event::MouseClick, &area, &mut offset, &mut fired);

    assert!(fired.is_empty());
}

#[test]
fn placeholder_event_only_advances_cursor() {
    let mut button = *ButtonBuilder::new().with_callback(1).build_boxed();
    let area = button_area();
    let mut fired: Vec<u64> = Vec::new();
    let mut offset = RenderOffset { position: [0, 0] };

    button.raise_event(&Event::Placeholder, &area, &mut offset, &mut fired);

    assert_eq!(offset.position, [0, 20]);
    assert!(fired.is_empty());
}

#[test]
fn cursor_advances_by_heights_in_event_pass() {
    // Two siblings of heights 20 and 30.
    let mut button = Widget::Button(*ButtonBuilder::new().build_boxed());
    let mut image = Widget::Image(*ImageBuilder::new().with_size([40, 30]).build_boxed(0));
    let area = button_area();
    let mut fired: Vec<u64> = Vec::new();
    let mut offset = RenderOffset { position: [0, 0] };

    button.raise_event(&Event::Placeholder, &area, &mut offset, &mut fired);
    image.raise_event(&Event::Placeholder, &area, &mut offset, &mut fired);

    assert_eq!(offset.position[1], 50);
}

#[test]
fn cursor_advances_by_heights_in_render_pass() {
    let button = Widget::Button(*ButtonBuilder::new().build_boxed());
    let image = Widget::Image(*ImageBuilder::new().with_size([40, 30]).build_boxed(0));
    let area = button_area();
    let mut data = RenderData::new();
    let mut offset = RenderOffset { position: [0, 0] };

    button.render(&mut data, &area, &mut offset);
    image.render(&mut data, &area, &mut offset);

    // Independently of the event pass, the render pass lands on the same
    // cursor offset.
    assert_eq!(offset.position[1], 50);
}

#[test]
fn button_render_draws_plate_and_caption() {
    let button = *ButtonBuilder::new().with_text("go").build_boxed();
    let area = button_area();
    let mut data = RenderData::new();
    let mut offset = RenderOffset { position: [0, 5] };

    button.render(&mut data, &area, &mut offset);

    assert_eq!(data.commands().len(), 2);
    match &data.commands()[0] {
        RenderCommand::FlatRect { position, size, color } => {
            assert_eq!(*position, [10, 15]);
            assert_eq!(*size, [80, 20]);
            assert_eq!(*color, [71, 71, 71]);
        },
        _ => panic!("expected the button plate first"),
    }
    match &data.commands()[1] {
        RenderCommand::Text { position, text } => {
            assert_eq!(*position, [14, 16]);
            assert_eq!(text, "go");
        },
        _ => panic!("expected the caption second"),
    }
    assert_eq!(offset.position, [0, 25]);
}

#[test]
fn hovered_button_renders_lighter_plate() {
    let mut button = *ButtonBuilder::new().build_boxed();
    let area = button_area();
    let mut fired: Vec<u64> = Vec::new();
    let mut offset = RenderOffset { position: [0, 0] };
    button.raise_event(&Event::MouseMoved([50, 15]), &area, &mut offset, &mut fired);

    let mut data = RenderData::new();
    let mut offset = RenderOffset { position: [0, 0] };
    button.render(&mut data, &area, &mut offset);

    match &data.commands()[0] {
        RenderCommand::FlatRect { color, .. } => assert_eq!(*color, [87, 87, 87]),
        _ => panic!("expected the button plate first"),
    }
}

#[test]
fn text_widget_renders_and_advances_line_height() {
    let text = *TextBuilder::new().with_text("hi").build_boxed();
    let area = button_area();
    let mut data = RenderData::new();
    let mut offset = RenderOffset { position: [0, 0] };

    text.render(&mut data, &area, &mut offset);

    assert_eq!(data.commands().len(), 1);
    match &data.commands()[0] {
        RenderCommand::Text { position, text } => {
            assert_eq!(*position, [10, 10]);
            assert_eq!(text, "hi");
        },
        _ => panic!("expected a text draw"),
    }
    assert_eq!(offset.position, [0, 18]);
}

#[test]
fn image_widget_renders_texture_handle() {
    let builder = ImageBuilder::new().with_source("logo.png").with_size([32, 16]);
    assert_eq!(builder.source(), "logo.png");
    let image = *builder.build_boxed(9);

    let area = button_area();
    let mut data = RenderData::new();
    let mut offset = RenderOffset { position: [0, 0] };
    image.render(&mut data, &area, &mut offset);

    assert_eq!(data.commands().len(), 1);
    match &data.commands()[0] {
        RenderCommand::TexturedRect { position, size, texture } => {
            assert_eq!(*position, [10, 10]);
            assert_eq!(*size, [32, 16]);
            assert_eq!(*texture, 9);
        },
        _ => panic!("expected a textured rectangle"),
    }
    assert_eq!(offset.position, [0, 16]);
}

fn stacked_layout() -> Layout {
    LayoutBuilder::new()
        .with_background_color([21, 23, 24])
        .with_widget(Widget::Button(*ButtonBuilder::new().with_callback(5).build_boxed()))
        .with_widget(Widget::Text(*TextBuilder::new().with_text("line").build_boxed()))
        .build()
}

#[test]
fn layout_renders_background_then_stacked_widgets() {
    let layout = stacked_layout();
    let area = RenderArea { position: [0, 0], size: [200, 100] };
    let mut data = RenderData::new();

    layout.render(&mut data, &area);

    // Background, button plate, caption, text line.
    assert_eq!(data.commands().len(), 4);
    match &data.commands()[0] {
        RenderCommand::FlatRect { position, size, color } => {
            assert_eq!(*position, [0, 0]);
            assert_eq!(*size, [200, 100]);
            assert_eq!(*color, [21, 23, 24]);
        },
        _ => panic!("expected the background first"),
    }
    match &data.commands()[1] {
        RenderCommand::FlatRect { position, .. } => assert_eq!(*position, [0, 0]),
        _ => panic!("expected the button plate second"),
    }
    match &data.commands()[3] {
        RenderCommand::Text { position, text } => {
            // The text line sits below the button's 20-unit height.
            assert_eq!(*position, [0, 20]);
            assert_eq!(text, "line");
        },
        _ => panic!("expected the text line last"),
    }
}

#[test]
fn layout_event_pass_clicks_button_through_stack() {
    let mut layout = stacked_layout();
    let area = RenderArea { position: [0, 0], size: [200, 100] };
    let mut fired: Vec<u64> = Vec::new();

    layout.raise_event(&Event::MouseMoved([40, 10]), &area, &mut fired);
    layout.raise_event(&Event::MouseClick, &area, &mut fired);

    assert_eq!(fired, vec![5]);
}

#[test]
fn layout_set_background_replaces_background() {
    let mut layout = LayoutBuilder::new().build();
    let area = RenderArea { position: [0, 0], size: [50, 50] };

    let mut data = RenderData::new();
    layout.render(&mut data, &area);
    assert_eq!(data.commands().len(), 0);

    layout.set_background(LayoutBackground::Color([1, 2, 3]));
    let mut data = RenderData::new();
    layout.render(&mut data, &area);
    assert_eq!(data.commands().len(), 1);
}
