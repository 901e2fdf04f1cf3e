use ratatui::widgets::Paragraph;
use reratui::element::Element;

type ParagraphElement = Element<Paragraph<'static>, ()>;
type CountElement = Element<usize, ()>;

fn wrap_children(children: Vec<CountElement>) -> usize {
    children.len()
}

#[test]
fn test_element_new_creates_empty_text() {
    let elem: ParagraphElement = Element::new();
    assert!(elem.is_text());
    assert_eq!(elem.as_text(), Some(""));
}

#[test]
fn test_element_default_creates_empty_text() {
    let elem: ParagraphElement = Element::default();
    assert!(elem.is_text());
    assert_eq!(elem.as_text(), Some(""));
}

#[test]
fn test_element_text_creates_text_node() {
    let elem: ParagraphElement = Element::text("Hello, World!");
    assert!(elem.is_text());
    assert_eq!(elem.as_text(), Some("Hello, World!"));
}

#[test]
fn test_element_widget_creates_widget_node() {
    let elem: ParagraphElement = Element::widget(Paragraph::new("Test"));
    assert!(elem.is_widget());
    assert!(!elem.is_text());
    assert!(!elem.is_component());
}

#[test]
fn test_element_with_key_sets_key_on_widget() {
    let elem: ParagraphElement = Element::widget(Paragraph::new("Test")).with_key("my-key");
    assert_eq!(elem.key(), Some("my-key"));
}

#[test]
fn test_element_with_key_does_nothing_on_text() {
    let elem: ParagraphElement = Element::text("Hello").with_key("my-key");
    assert_eq!(elem.key(), None);
}

#[test]
fn test_element_fragment_empty_returns_empty_text() {
    let elem: CountElement = Element::fragment(vec![], wrap_children);
    assert!(elem.is_text());
    assert_eq!(elem.as_text(), Some(""));
}

#[test]
fn test_element_fragment_single_returns_element() {
    let elem: CountElement = Element::fragment(vec![Element::text("Single")], wrap_children);
    assert!(elem.is_text());
    assert_eq!(elem.as_text(), Some("Single"));
}

#[test]
fn test_element_fragment_multiple_creates_widget() {
    let elem: CountElement =
        Element::fragment(vec![Element::text("First"), Element::text("Second")], wrap_children);
    assert!(elem.is_widget());
    assert!(matches!(elem, Element::Widget { widget: 2, key: None }));
}

#[test]
fn component_elements_keep_keys() {
    let elem: Element<(), u32> = Element::component(7).with_key("c");
    assert!(elem.is_component());
    assert_eq!(elem.key(), Some("c"));
    assert!(matches!(elem, Element::Component { wrapper: 7, .. }));
}

#[test]
fn element_equality_by_kind_and_key() {
    let a: Element<u8, u8> = Element::widget(1).with_key("k");
    let b: Element<u8, u8> = Element::widget(2).with_key("k");
    let c: Element<u8, u8> = Element::component(1).with_key("k");
    let d: Element<u8, u8> = Element::widget(1);
    assert!(a.same_as(&b));
    assert!(!a.same_as(&c));
    assert!(!a.same_as(&d));
    let t1: Element<u8, u8> = Element::text("x");
    let t2: Element<u8, u8> = Element::text("x");
    let t3: Element<u8, u8> = Element::text("y");
    assert!(t1.same_as(&t2));
    assert!(!t1.same_as(&t3));
}
