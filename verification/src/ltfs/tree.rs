//! Elements of an XML document, each with its text and its child elements.
use vstd::prelude::*;
use vstd::string::*;

use super::xml::{
    decode_general_ref, events_of, reference_value, text_value, unescape_text, XmlEvent, XmlItem,
};

verus! {

/// An element: its name, the content of its tag, the text directly in it, and the
/// elements directly in it.
#[derive(Debug, PartialEq, Eq)]
pub struct XmlElement {
    pub name: String,
    pub content: String,
    pub text: String,
    pub children: Vec<XmlElement>,
}

/// The model of an element.
pub struct ElementModel {
    pub name: Seq<char>,
    pub content: Seq<char>,
    pub text: Seq<char>,
    pub children: Seq<ElementModel>,
}

/// The model of an element.
pub open spec fn element_model(e: XmlElement) -> ElementModel
    decreases e, 0nat,
{
    ElementModel {
        name: e.name@,
        content: e.content@,
        text: e.text@,
        children: element_models(e.children, e.children@.len()),
    }
}

/// The models of the first `n` elements of a list.
pub open spec fn element_models(list: Vec<XmlElement>, n: nat) -> Seq<ElementModel>
    decreases list, n,
{
    if n == 0 || n > list@.len() {
        Seq::empty()
    } else {
        element_models(list, (n - 1) as nat).push(element_model(list[n - 1]))
    }
}

impl View for XmlElement {
    type V = ElementModel;

    open spec fn view(&self) -> ElementModel {
        element_model(*self)
    }
}

/// The models of a sequence of elements.
pub open spec fn models(list: Seq<XmlElement>) -> Seq<ElementModel> {
    list.map_values(|e: XmlElement| e@)
}

pub proof fn lemma_models(list: Vec<XmlElement>, n: nat)
    requires
        n <= list@.len(),
    ensures
        element_models(list, n) == models(list@.subrange(0, n as int)),
    decreases n,
{
    if n > 0 {
        lemma_models(list, (n - 1) as nat);
        assert(list@.subrange(0, n as int) =~= list@.subrange(0, n - 1).push(list@[n - 1]));
        assert(models(list@.subrange(0, n as int)) =~= models(list@.subrange(0, n - 1)).push(
            list@[n - 1]@,
        ));
    } else {
        assert(models(list@.subrange(0, 0)) =~= Seq::<ElementModel>::empty());
    }
}

/// The children of an element, as models.
pub proof fn lemma_children(e: XmlElement)
    ensures
        e@.children == models(e.children@),
{
    lemma_models(e.children, e.children@.len());
    assert(e.children@.subrange(0, e.children@.len() as int) =~= e.children@);
}

// ---------------------------------------------------------------------------
// From events to elements
// ---------------------------------------------------------------------------

/// An element that has just been opened.
pub open spec fn opened(name: Seq<char>, content: Seq<char>) -> ElementModel {
    ElementModel { name, content, text: Seq::empty(), children: Seq::empty() }
}

/// `child` becomes the last child of the innermost open element.
pub open spec fn with_child(stack: Seq<ElementModel>, child: ElementModel) -> Seq<ElementModel> {
    if stack.len() == 0 {
        stack
    } else {
        let top = stack.last();
        stack.drop_last().push(ElementModel { children: top.children.push(child), ..top })
    }
}

/// `text` is added to the innermost open element.
pub open spec fn with_text(stack: Seq<ElementModel>, text: Seq<char>) -> Seq<ElementModel> {
    if stack.len() == 0 {
        stack
    } else {
        let top = stack.last();
        stack.drop_last().push(ElementModel { text: top.text + text, ..top })
    }
}

/// One event on the stack of open elements, whose bottom stands for the document.
/// Text that cannot be decoded adds nothing.
pub open spec fn tree_step(stack: Seq<ElementModel>, event: XmlEvent) -> Seq<ElementModel> {
    match event {
        XmlEvent::Start(name, content) => stack.push(opened(name, content)),
        XmlEvent::Empty(name, content) => with_child(stack, opened(name, content)),
        XmlEvent::End(_) => if stack.len() > 1 {
            with_child(stack.drop_last(), stack.last())
        } else {
            stack
        },
        XmlEvent::Text(raw) => match text_value(raw) {
            Ok(text) => with_text(stack, text),
            Err(_) => stack,
        },
        XmlEvent::Reference(name) => match reference_value(name) {
            Ok(text) => with_text(stack, text),
            Err(_) => stack,
        },
        _ => stack,
    }
}

/// The stack behind a sequence of events.
pub open spec fn tree_steps(stack: Seq<ElementModel>, events: Seq<XmlEvent>) -> Seq<ElementModel>
    decreases events.len(),
{
    if events.len() == 0 {
        stack
    } else {
        tree_step(tree_steps(stack, events.drop_last()), events.last())
    }
}

/// The document before anything is read.
pub open spec fn tree_start() -> Seq<ElementModel> {
    seq![opened(Seq::empty(), Seq::empty())]
}

/// The document as an element without a name; elements left open are not part of it.
pub open spec fn document_tree(events: Seq<XmlEvent>) -> ElementModel {
    tree_steps(tree_start(), events)[0]
}

fn new_element(name: &String, content: &String) -> (e: XmlElement)
    ensures
        e@ == opened(name@, content@),
{
    let e = XmlElement {
        name: name.clone(),
        content: content.clone(),
        text: String::new(),
        children: Vec::new(),
    };
    proof {
        lemma_children(e);
        assert(models(e.children@) =~= Seq::<ElementModel>::empty());
    }
    e
}

fn add_child(stack: &mut Vec<XmlElement>, child: XmlElement)
    requires
        old(stack)@.len() > 0,
    ensures
        models(final(stack)@) == with_child(models(old(stack)@), child@),
        final(stack)@.len() == old(stack)@.len(),
{
    let ghost before = stack@;
    match stack.pop() {
        Some(mut top) => {
            let ghost old_top = top;
            proof {
                lemma_children(old_top);
            }
            top.children.push(child);
            proof {
                lemma_children(top);
                assert(models(top.children@) =~= models(old_top.children@).push(child@));
            }
            stack.push(top);
            proof {
                assert(models(stack@) =~= models(before).drop_last().push(top@));
                assert(models(before).last() == old_top@);
            }
        },
        None => {},
    }
}

fn add_text(stack: &mut Vec<XmlElement>, text: &str)
    requires
        old(stack)@.len() > 0,
    ensures
        models(final(stack)@) == with_text(models(old(stack)@), text@),
        final(stack)@.len() == old(stack)@.len(),
{
    let ghost before = stack@;
    match stack.pop() {
        Some(mut top) => {
            let ghost old_top = top;
            top.text.append(text);
            proof {
                lemma_children(old_top);
                lemma_children(top);
            }
            stack.push(top);
            proof {
                assert(models(stack@) =~= models(before).drop_last().push(top@));
                assert(models(before).last() == old_top@);
            }
        },
        None => {},
    }
}

/// Builds the elements of a document.
pub fn build_tree(items: &Vec<XmlItem>) -> (document: XmlElement)
    ensures
        document@ == document_tree(events_of(items@)),
{
    let mut stack: Vec<XmlElement> = Vec::new();
    stack.push(new_element(&String::new(), &String::new()));
    let ghost events = events_of(items@);
    proof {
        assert(models(stack@) =~= tree_start());
        assert(events.subrange(0, 0) =~= Seq::<XmlEvent>::empty());
    }
    let mut i: usize = 0;
    while i < items.len()
        invariant
            i <= items@.len(),
            events == events_of(items@),
            stack@.len() > 0,
            models(stack@) == tree_steps(tree_start(), events.subrange(0, i as int)),
        decreases items@.len() - i,
    {
        proof {
            let done = events.subrange(0, i + 1);
            assert(done.drop_last() =~= events.subrange(0, i as int));
            assert(done.last() == items@[i as int]@);
        }
        let ghost before = stack@;
        match &items[i] {
            XmlItem::Start(name, content) => {
                let e = new_element(name, content);
                stack.push(e);
                assert(models(stack@) =~= models(before).push(e@));
            },
            XmlItem::Empty(name, content) => {
                let e = new_element(name, content);
                add_child(&mut stack, e);
            },
            XmlItem::End(_) => {
                if stack.len() > 1 {
                    match stack.pop() {
                        Some(e) => {
                            assert(models(stack@) =~= models(before).drop_last());
                            assert(models(before).last() == e@);
                            add_child(&mut stack, e);
                        },
                        None => {},
                    }
                }
            },
            XmlItem::Text(raw) => match unescape_text(raw.as_str()) {
                Ok(text) => {
                    add_text(&mut stack, text.as_str());
                },
                Err(_) => {},
            },
            XmlItem::Reference(name) => match decode_general_ref(name.as_str()) {
                Ok(text) => {
                    add_text(&mut stack, text.as_str());
                },
                Err(_) => {},
            },
            _ => {},
        }
        i = i + 1;
    }
    assert(events.subrange(0, i as int) =~= events);
    assert(models(stack@)[0] == stack@[0]@);
    let document = stack.swap_remove(0);
    document
}

// ---------------------------------------------------------------------------
// Looking into elements
// ---------------------------------------------------------------------------

/// The first child with the given name.
pub open spec fn child_spec(children: Seq<ElementModel>, name: Seq<char>) -> Option<ElementModel>
    decreases children.len(),
{
    if children.len() == 0 {
        None
    } else if children[0].name == name {
        Some(children[0])
    } else {
        child_spec(children.drop_first(), name)
    }
}

/// The text of the first child with the given name.
pub open spec fn child_text_spec(e: ElementModel, name: Seq<char>) -> Option<Seq<char>> {
    match child_spec(e.children, name) {
        Some(child) => Some(child.text),
        None => None,
    }
}

pub open spec fn opt_model(child: Option<&XmlElement>) -> Option<ElementModel> {
    match child {
        Some(e) => Some(e@),
        None => None,
    }
}

/// The first child with the given name.
pub fn child<'a>(e: &'a XmlElement, name: &str) -> (result: Option<&'a XmlElement>)
    ensures
        opt_model(result) == child_spec(e@.children, name@),
        result is Some ==> exists|i: int|
            0 <= i < e.children@.len() && #[trigger] e.children@[i] == *result->0,
{
    proof {
        lemma_children(*e);
        assert(models(e.children@).subrange(0, e.children@.len() as int) =~= models(e.children@));
    }
    let ghost all = models(e.children@);
    let mut i: usize = 0;
    while i < e.children.len()
        invariant
            i <= e.children@.len(),
            all == models(e.children@),
            all == e@.children,
            child_spec(all, name@) == child_spec(all.subrange(i as int, all.len() as int), name@),
        decreases e.children@.len() - i,
    {
        let ghost rest = all.subrange(i as int, all.len() as int);
        assert(rest[0] == e.children@[i as int]@);
        assert(rest.drop_first() =~= all.subrange(i + 1, all.len() as int));
        if crate::text::same(e.children[i].name.as_str(), name) {
            return Some(&e.children[i]);
        }
        i = i + 1;
    }
    None
}

/// The text of the first child with the given name.
pub fn child_text(e: &XmlElement, name: &str) -> (text: Option<String>)
    ensures
        crate::text::opt_view(text) == child_text_spec(e@, name@),
{
    match child(e, name) {
        Some(c) => Some(c.text.clone()),
        None => None,
    }
}

} // verus!
