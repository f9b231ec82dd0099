use phosphorus::element::TemplateElement;

#[test]
fn domelement_attr_looks_up_value() {
    let element = TemplateElement::new("test").with_attr("foo", "bar").to_dom();

    let bar = element.attr("foo");

    assert!(bar.is_some());
    assert!(bar.unwrap() == "bar");
}

#[test]
fn domelement_attr_as_deserializes_value() {
    let element = TemplateElement::new("test").with_attr("style_size", "[500, 92]").to_dom();

    let o_size = element.attr_as("style_size");

    assert!(o_size.is_some());
    let size = o_size.unwrap();
    assert!(size.len() == 2);
    assert!(size[0] == 500);
    assert!(size[1] == 92);
}

#[test]
fn domelement_attr_as_does_not_panic_on_invalid_or_lacking_data() {
    let element = TemplateElement::new("test")
        .with_attr("invalid", "akfiajc83C$)YN&#0")
        .to_dom();

    let lac = element.attr_as("lacking");
    let inv = element.attr_as("invalid");

    assert!(lac.is_none());
    assert!(inv.is_none());
}

#[test]
fn domelement_get_attr_looks_up_value() {
    let element = TemplateElement::new("test").with_attr("foo", "bar").to_dom();

    let bar = element.get_attr("foo");

    assert!(bar.is_some());
    assert!(bar.unwrap() == "bar");
}

#[test]
fn attr_unset_key_returns_no_value() {
    let element = TemplateElement::new("test").with_attr("foo", "bar").to_dom();

    assert!(element.attr("unset").is_none());
    assert_eq!(element.attr("foo").unwrap(), "bar");
}

#[test]
fn with_attr_overwrites_existing_key() {
    let element = TemplateElement::new("test")
        .with_attr("foo", "bar")
        .with_attr("foo", "baz")
        .to_dom();

    assert_eq!(element.attr("foo").unwrap(), "baz");
}

#[test]
fn template_getters_expose_tag_and_attrs() {
    let template = TemplateElement::new("panel").with_attr("foo", "bar");

    assert_eq!(template.tag(), "panel");
    assert_eq!(template.name(), "panel");
    assert_eq!(template.attrs().len(), 1);
    assert_eq!(template.attrs()[0].0, "foo");
    assert_eq!(template.attrs()[0].1, "bar");
    assert_eq!(template.children().len(), 0);
}

#[test]
fn get_size_round_trips_well_formed_pair() {
    let element = TemplateElement::new("test").with_attr("style_size", "[500, 92]").to_dom();

    let size = element.get_size();

    assert_eq!(size[0], 500);
    assert_eq!(size[1], 92);
}

#[test]
fn get_size_defaults_when_absent() {
    let element = TemplateElement::new("test").to_dom();

    let size = element.get_size();

    assert_eq!(size[0], 100);
    assert_eq!(size[1], 100);
}

#[test]
fn get_size_defaults_on_wrong_arity() {
    let element = TemplateElement::new("test").with_attr("style_size", "[1, 2, 3]").to_dom();

    let size = element.get_size();

    assert_eq!(size[0], 100);
    assert_eq!(size[1], 100);
}

#[test]
fn get_size_defaults_on_non_numeric_text() {
    let element = TemplateElement::new("test").with_attr("style_size", "[wide, tall]").to_dom();

    let size = element.get_size();

    assert_eq!(size[0], 100);
    assert_eq!(size[1], 100);
}

#[test]
fn get_attr_as_matches_attr_as() {
    let element = TemplateElement::new("test").with_attr("style_size", "[7, 9]").to_dom();

    let a = element.attr_as("style_size").unwrap();
    let b = element.get_attr_as("style_size").unwrap();

    assert_eq!(a, b);
    assert_eq!(a, vec![7, 9]);
}

#[test]
fn background_color_reads_three_components() {
    let element = TemplateElement::new("test")
        .with_attr("style_background", "[200, 200, 0]")
        .to_dom();

    let color = element.background_color().unwrap();

    assert_eq!(color[0], 200);
    assert_eq!(color[1], 200);
    assert_eq!(color[2], 0);
}

#[test]
fn background_color_absent_or_malformed_is_no_value() {
    let plain = TemplateElement::new("test").to_dom();
    assert!(plain.background_color().is_none());

    let wrong_arity = TemplateElement::new("test")
        .with_attr("style_background", "[1, 2]")
        .to_dom();
    assert!(wrong_arity.background_color().is_none());

    let garbage = TemplateElement::new("test")
        .with_attr("style_background", "not a color")
        .to_dom();
    assert!(garbage.background_color().is_none());
}

#[test]
fn decode_accepts_empty_list() {
    let element = TemplateElement::new("test").with_attr("xs", "[]").to_dom();

    let xs = element.attr_as("xs").unwrap();

    assert!(xs.is_empty());
}

#[test]
fn decode_accepts_whitespace_and_negatives() {
    let element = TemplateElement::new("test").with_attr("xs", "  [ -7 ,  0 , 13 ]  ").to_dom();

    let xs = element.attr_as("xs").unwrap();

    assert_eq!(xs, vec![-7, 0, 13]);
}

#[test]
fn decode_accepts_extreme_values() {
    let element = TemplateElement::new("test")
        .with_attr("xs", "[2147483647, -2147483648]")
        .to_dom();

    let xs = element.attr_as("xs").unwrap();

    assert_eq!(xs, vec![i32::MAX, i32::MIN]);
}

#[test]
fn decode_rejects_out_of_range_values() {
    let element = TemplateElement::new("test").with_attr("xs", "[2147483648]").to_dom();

    assert!(element.attr_as("xs").is_none());
}

#[test]
fn decode_rejects_leading_zeros_and_bare_numbers() {
    let zeros = TemplateElement::new("test").with_attr("xs", "[01]").to_dom();
    assert!(zeros.attr_as("xs").is_none());

    let bare = TemplateElement::new("test").with_attr("xs", "500").to_dom();
    assert!(bare.attr_as("xs").is_none());

    let unclosed = TemplateElement::new("test").with_attr("xs", "[1, 2").to_dom();
    assert!(unclosed.attr_as("xs").is_none());

    let empty = TemplateElement::new("test").with_attr("xs", "").to_dom();
    assert!(empty.attr_as("xs").is_none());

    let trailing = TemplateElement::new("test").with_attr("xs", "[1] x").to_dom();
    assert!(trailing.attr_as("xs").is_none());
}

#[test]
fn decode_plain_zero_is_accepted() {
    let element = TemplateElement::new("test").with_attr("xs", "[0, -0]").to_dom();

    let xs = element.attr_as("xs").unwrap();

    assert_eq!(xs, vec![0, 0]);
}
