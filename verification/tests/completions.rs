use espx_core::htmx::{
    espx_completion, espx_hover, to_hx_completion, CursorTarget, EspxCompletion, HxConfig,
};

fn config() -> HxConfig {
    HxConfig {
        tags: to_hx_completion(vec![
            ("hx-boost", "progressively enhances links and forms"),
            ("hx-get", "issues a GET request"),
            ("hx-swap", "controls how the response is swapped in"),
        ]),
        attribute_values: vec![
            (
                String::from("hx-swap"),
                to_hx_completion(vec![
                    ("innerHTML", "replace the inner html"),
                    ("outerHTML", "replace the entire element"),
                ]),
            ),
            (
                String::from("hx-boost"),
                to_hx_completion(vec![("true", "enable"), ("false", "disable")]),
            ),
        ],
    }
}

#[test]
fn to_hx_completion_maps_every_pair() {
    let out = to_hx_completion(vec![("hx-boost", "boost desc"), ("hx-get", "get desc")]);
    assert_eq!(2, out.len());
    assert_eq!("hx-boost", out[0].name);
    assert_eq!("boost desc", out[0].desc);
    assert_eq!("hx-get", out[1].name);
    assert_eq!("get desc", out[1].desc);
}

#[test]
fn completion_on_attribute_name_lists_tags() {
    let cfg = config();
    let target = CursorTarget::AttributeName(String::from("hx-get"));
    let tags = espx_completion(&cfg, &target).unwrap();
    assert_eq!(3, tags.len());
    assert_eq!("hx-boost", tags[0].name);
    assert_eq!("hx-get", tags[1].name);
    assert_eq!("hx-swap", tags[2].name);
}

#[test]
fn completion_outside_namespace_is_empty() {
    let cfg = config();
    let target = CursorTarget::AttributeName(String::from("class"));
    assert!(espx_completion(&cfg, &target).is_none());
}

#[test]
fn completion_on_attribute_value_lists_values() {
    let cfg = config();
    let target =
        CursorTarget::AttributeValue { name: String::from("hx-swap"), value: String::new() };
    let values = espx_completion(&cfg, &target).unwrap();
    assert_eq!(2, values.len());
    assert_eq!("innerHTML", values[0].name);
    assert_eq!("outerHTML", values[1].name);
}

#[test]
fn completion_on_unknown_attribute_value_is_empty() {
    let cfg = config();
    let target =
        CursorTarget::AttributeValue { name: String::from("hx-vals"), value: String::new() };
    assert!(espx_completion(&cfg, &target).is_none());
}

#[test]
fn hover_finds_the_named_tag() {
    let cfg = config();
    let by_name = CursorTarget::AttributeName(String::from("hx-get"));
    let hovered = espx_hover(&cfg, &by_name).unwrap();
    assert_eq!("hx-get", hovered.name);
    assert_eq!("issues a GET request", hovered.desc);
    let by_value =
        CursorTarget::AttributeValue { name: String::from("hx-boost"), value: String::new() };
    let hovered = espx_hover(&cfg, &by_value).unwrap();
    assert_eq!("hx-boost", hovered.name);
}

#[test]
fn hover_on_unknown_tag_is_empty() {
    let cfg = config();
    let target = CursorTarget::AttributeName(String::from("hx-unknown"));
    assert!(espx_hover(&cfg, &target).is_none());
}

#[test]
fn try_from_path_needs_a_name() {
    let desc = String::from("a description");
    assert!(EspxCompletion::try_from_path(None, &desc).is_none());
    let empty = String::new();
    assert!(EspxCompletion::try_from_path(Some(&empty), &desc).is_none());
    let name = String::from("/docs/hx-get.md");
    let c = EspxCompletion::try_from_path(Some(&name), &desc).unwrap();
    assert_eq!("/docs/hx-get.md", c.name);
    assert_eq!("a description", c.desc);
}
