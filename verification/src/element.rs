//! Nodes of the element tree: components, widgets and text, with the keys
//! that identify them. What a widget or a component is stays with the
//! caller: `W` and `C` are carried along unread.
use vstd::prelude::*;

verus! {

/// A node of the element tree.
#[derive(Debug, Clone)]
pub enum Element<W, C> {
    /// A component, rendered with its own fiber.
    Component { wrapper: C, key: Option<String> },
    /// A widget.
    Widget { widget: W, key: Option<String> },
    /// A text node.
    Text(String),
}

/// A borrowed optional text is the given optional text.
pub open spec fn text_ref(r: Option<&str>, v: Option<Seq<char>>) -> bool {
    match r {
        Some(x) => v == Some(x@),
        None => v is None,
    }
}

impl<W, C> Element<W, C> {
    /// The node's key, if it has one; text nodes have none.
    pub open spec fn key_spec(&self) -> Option<Seq<char>> {
        match self {
            Element::Component { key, .. } => match key {
                Some(k) => Some(k@),
                None => None,
            },
            Element::Widget { key, .. } => match key {
                Some(k) => Some(k@),
                None => None,
            },
            Element::Text(_) => None,
        }
    }

    /// Two nodes are equal when they are text nodes with the same text, or
    /// components, or widgets, with the same key.
    pub open spec fn same_spec(&self, other: &Self) -> bool {
        match (self, other) {
            (Element::Text(a), Element::Text(b)) => a@ == b@,
            (Element::Component { .. }, Element::Component { .. }) => self.key_spec() == other.key_spec(),
            (Element::Widget { .. }, Element::Widget { .. }) => self.key_spec() == other.key_spec(),
            _ => false,
        }
    }

    /// An empty text node.
    pub fn new() -> (r: Self)
        ensures
            r matches Element::Text(t) && t@.len() == 0,
    {
        Element::Text(String::new())
    }

    /// A widget node without a key.
    pub fn widget(widget: W) -> (r: Self)
        ensures
            r == (Element::<W, C>::Widget { widget, key: None }),
    {
        Element::Widget { widget, key: None }
    }

    /// A component node without a key.
    pub fn component(wrapper: C) -> (r: Self)
        ensures
            r == (Element::<W, C>::Component { wrapper, key: None }),
    {
        Element::Component { wrapper, key: None }
    }

    /// A component node without a key, from the wrapper that renders it.
    pub fn component_from_wrapper(wrapper: C) -> (r: Self)
        ensures
            r == (Element::<W, C>::Component { wrapper, key: None }),
    {
        Element::Component { wrapper, key: None }
    }

    /// A text node.
    pub fn text(text: &str) -> (r: Self)
        ensures
            r matches Element::Text(t) && t@ == text@,
    {
        Element::Text(text.to_owned())
    }

    /// Several nodes as one: an empty text node for none, the node itself
    /// for one, and otherwise a widget, without a key, that `wrap` makes of
    /// them.
    pub fn fragment<F: FnOnce(Vec<Element<W, C>>) -> W>(elements: Vec<Element<W, C>>, wrap: F) -> (r: Self)
        requires
            elements@.len() > 1 ==> call_requires(wrap, (elements,)),
        ensures
            elements@.len() == 0 ==> (r matches Element::Text(t) && t@.len() == 0),
            elements@.len() == 1 ==> r == elements@[0],
            elements@.len() > 1 ==> (r matches Element::Widget { widget, key } && key is None
                && call_ensures(wrap, (elements,), widget)),
    {
        if elements.len() == 0 {
            Element::Text(String::new())
        } else if elements.len() == 1 {
            let mut elements = elements;
            elements.remove(0)
        } else {
            Element::Widget { widget: wrap(elements), key: None }
        }
    }

    /// The node with `key` as its key; a text node is returned unchanged.
    pub fn with_key(self, key: &str) -> (r: Self)
        ensures
            self is Text ==> r == self,
            self matches Element::Component { wrapper, .. } ==> (r matches Element::Component {
                wrapper: w2,
                key: k2,
            } && w2 == wrapper && k2 is Some && k2->0@ == key@),
            self matches Element::Widget { widget, .. } ==> (r matches Element::Widget { widget: w2, key: k2 }
                && w2 == widget && k2 is Some && k2->0@ == key@),
    {
        match self {
            Element::Component { wrapper, .. } => Element::Component { wrapper, key: Some(key.to_owned()) },
            Element::Widget { widget, .. } => Element::Widget { widget, key: Some(key.to_owned()) },
            Element::Text(t) => Element::Text(t),
        }
    }

    /// The node's key, if it has one.
    pub fn key(&self) -> (r: Option<&str>)
        ensures
            text_ref(r, self.key_spec()),
    {
        match self {
            Element::Component { key, .. } => match key {
                Some(k) => Some(k.as_str()),
                None => None,
            },
            Element::Widget { key, .. } => match key {
                Some(k) => Some(k.as_str()),
                None => None,
            },
            Element::Text(_) => None,
        }
    }

    /// Whether the node is a component.
    pub fn is_component(&self) -> (r: bool)
        ensures
            r == self is Component,
    {
        match self {
            Element::Component { .. } => true,
            _ => false,
        }
    }

    /// Whether the node is a widget.
    pub fn is_widget(&self) -> (r: bool)
        ensures
            r == self is Widget,
    {
        match self {
            Element::Widget { .. } => true,
            _ => false,
        }
    }

    /// Whether the node is text.
    pub fn is_text(&self) -> (r: bool)
        ensures
            r == self is Text,
    {
        match self {
            Element::Text(_) => true,
            _ => false,
        }
    }

    /// The text of a text node.
    pub fn as_text(&self) -> (r: Option<&str>)
        ensures
            self matches Element::Text(t) ==> text_ref(r, Some(t@)),
            !(self is Text) ==> r is None,
    {
        match self {
            Element::Text(t) => Some(t.as_str()),
            _ => None,
        }
    }

    /// Whether two nodes are equal (see `same_spec`).
    pub fn same_as(&self, other: &Self) -> (r: bool)
        ensures
            r == self.same_spec(other),
    {
        match (self, other) {
            (Element::Text(a), Element::Text(b)) => crate::string_map::str_eq(a.as_str(), b.as_str()),
            (Element::Component { .. }, Element::Component { .. }) => same_key(self.key(), other.key()),
            (Element::Widget { .. }, Element::Widget { .. }) => same_key(self.key(), other.key()),
            _ => false,
        }
    }
}

/// Whether two optional keys are equal.
fn same_key(a: Option<&str>, b: Option<&str>) -> (r: bool)
    ensures
        r == (match (a, b) {
            (Some(x), Some(y)) => x@ == y@,
            (None, None) => true,
            _ => false,
        }),
{
    match (a, b) {
        (Some(x), Some(y)) => crate::string_map::str_eq(x, y),
        (None, None) => true,
        _ => false,
    }
}

impl<W, C> Default for Element<W, C> {
    fn default() -> (r: Self)
        ensures
            r matches Element::Text(t) && t@.len() == 0,
    {
        Element::new()
    }
}

} // verus!
