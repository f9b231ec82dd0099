use phosphorus::element::{DomElement, TemplateElement};
use phosphorus::element_type::{BlockType, ElementType, ElementTypes};
use phosphorus::render::{RenderArea, RenderCommand, RenderData};
use phosphorus::Gui;

fn three_child_template() -> TemplateElement {
    TemplateElement::new("root")
        .with_child(TemplateElement::new("a"))
        .with_child(TemplateElement::new("b"))
        .with_child(TemplateElement::new("c"))
}

#[test]
fn to_dom_starts_outdated_with_no_children() {
    let dom = three_child_template().to_dom();

    assert!(dom.is_outdated());
    assert_eq!(dom.children().len(), 0);
}

#[test]
fn update_outdated_exposes_children_in_order_each_settled() {
    let mut dom = three_child_template().to_dom();

    dom.update_outdated();

    assert!(!dom.is_outdated());
    assert_eq!(dom.children().len(), 3);
    assert_eq!(dom.children()[0].tag(), "a");
    assert_eq!(dom.children()[1].tag(), "b");
    assert_eq!(dom.children()[2].tag(), "c");
    for child in dom.children() {
        assert!(!child.is_outdated());
    }
}

#[test]
fn update_outdated_settles_whole_subtree() {
    let template = TemplateElement::new("root")
        .with_child(TemplateElement::new("inner").with_child(TemplateElement::new("leaf")));
    let mut dom = template.to_dom();

    dom.update_outdated();

    let inner = &dom.children()[0];
    assert!(!inner.is_outdated());
    assert_eq!(inner.children().len(), 1);
    assert_eq!(inner.children()[0].tag(), "leaf");
    assert!(!inner.children()[0].is_outdated());
}

fn tags_of(dom: &DomElement) -> Vec<String> {
    dom.children().iter().map(|c| String::from(c.tag())).collect()
}

#[test]
fn update_outdated_twice_is_structurally_identical() {
    let mut dom = three_child_template().to_dom();

    dom.update_outdated();
    let first = tags_of(&dom);
    let first_counts: Vec<usize> = dom.children().iter().map(|c| c.children().len()).collect();

    dom.update_outdated();
    let second = tags_of(&dom);
    let second_counts: Vec<usize> = dom.children().iter().map(|c| c.children().len()).collect();

    assert_eq!(first, second);
    assert_eq!(first_counts, second_counts);
    assert!(!dom.is_outdated());
}

#[test]
fn template_clone_is_a_deep_copy() {
    let template = three_child_template().with_attr("foo", "bar");
    let copy = template.clone();

    let mut a = template.to_dom();
    let mut b = copy.to_dom();
    a.update_outdated();
    b.update_outdated();

    assert_eq!(a.tag(), b.tag());
    assert_eq!(a.attr("foo"), b.attr("foo"));
    assert_eq!(tags_of(&a), tags_of(&b));
}

#[test]
fn gui_replace_root_discards_old_tree() {
    let mut gui = Gui::new(three_child_template());
    let types = ElementTypes::new(ElementType::Block(BlockType));
    let area = RenderArea { position: [0, 0], size: [640, 480] };
    let mut data = RenderData::new();
    gui.render(&types, &area, &mut data);
    assert_eq!(gui.dom().children().len(), 3);

    gui.replace_root(TemplateElement::new("fresh"));
    assert!(gui.dom().is_outdated());
    assert_eq!(gui.dom().children().len(), 0);
    assert_eq!(gui.dom().tag(), "fresh");

    let mut data = RenderData::new();
    gui.render(&types, &area, &mut data);
    assert_eq!(gui.dom().children().len(), 0);
    assert!(!gui.dom().is_outdated());
}

#[test]
fn gui_new_wraps_template_and_render_settles() {
    let template = three_child_template().with_attr("style_background", "[10, 20, 30]");
    let mut gui = Gui::new(template);
    assert!(gui.dom().is_outdated());

    let types = ElementTypes::new(ElementType::Block(BlockType));
    let area = RenderArea { position: [0, 0], size: [640, 480] };
    let mut data = RenderData::new();
    gui.render(&types, &area, &mut data);

    assert!(!gui.dom().is_outdated());
    assert_eq!(gui.dom().children().len(), 3);
    // The root has a background and the default size; the children have
    // neither, so one frame holds exactly one command.
    assert_eq!(data.commands().len(), 1);
    match &data.commands()[0] {
        RenderCommand::FlatRect { position, size, color } => {
            assert_eq!(*position, [0, 0]);
            assert_eq!(*size, [100, 100]);
            assert_eq!(*color, [10, 20, 30]);
        },
        _ => panic!("expected a flat rectangle"),
    }
}
