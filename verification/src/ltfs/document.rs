//! Writing XML documents, and what is known of the documents that are written.
use vstd::prelude::*;
use vstd::string::*;

use super::xml::{
    attribute_content, entity_name, escaped, open_elements, plain_document, plain_event,
    plain_name, plain_value, reference_value, rendered, rendered_event, xml_escape,
    XmlEvent,
};

verus! {

// ---------------------------------------------------------------------------
// Sequences of events
// ---------------------------------------------------------------------------

/// The events of escaped text: runs of ordinary characters, and a reference for each
/// special one.
pub open spec fn text_events(text: Seq<char>) -> Seq<XmlEvent>
    decreases text.len(),
{
    if text.len() == 0 {
        Seq::empty()
    } else {
        let before = text_events(text.drop_last());
        let c = text.last();
        match entity_name(c) {
            Some(name) => before.push(XmlEvent::Reference(name)),
            None => if before.len() > 0 && before.last() is Text {
                before.drop_last().push(XmlEvent::Text(before.last()->Text_0.push(c)))
            } else {
                before.push(XmlEvent::Text(seq![c]))
            },
        }
    }
}

/// An element without attributes.
pub open spec fn element(name: Seq<char>, inner: Seq<XmlEvent>) -> Seq<XmlEvent> {
    seq![XmlEvent::Start(name, name)] + inner + seq![XmlEvent::End(name)]
}

/// An element that holds text.
pub open spec fn field(name: Seq<char>, text: Seq<char>) -> Seq<XmlEvent> {
    element(name, text_events(text))
}

/// An element that holds text as it stands, without escaping.
pub open spec fn raw_field(name: Seq<char>, text: Seq<char>) -> Seq<XmlEvent> {
    element(name, seq![XmlEvent::Text(text)])
}

/// A sequence of one event.
pub open spec fn one(event: XmlEvent) -> Seq<XmlEvent> {
    seq![event]
}

/// A text of one character.
pub open spec fn chars(c: char) -> Seq<char> {
    seq![c]
}

/// A line break between elements.
pub open spec fn line_break() -> Seq<XmlEvent> {
    seq![XmlEvent::Text("\n"@)]
}

/// Every event is plain, and no two texts touch.
pub open spec fn plain_events(events: Seq<XmlEvent>) -> bool {
    &&& forall|i: int| 0 <= i < events.len() ==> plain_event(#[trigger] events[i])
    &&& forall|i: int|
        0 <= i < events.len() - 1 ==> !((#[trigger] events[i]) is Text && events[i + 1] is Text)
}

/// The events open and close elements in pairs.
pub open spec fn balanced(events: Seq<XmlEvent>) -> bool {
    forall|before: Seq<XmlEvent>|
        open_elements(before) is Some ==> #[trigger] open_elements(before + events)
            == open_elements(before)
}

pub proof fn lemma_rendered_concat(a: Seq<XmlEvent>, b: Seq<XmlEvent>)
    ensures
        rendered(a + b) == rendered(a) + rendered(b),
    decreases b.len(),
{
    if b.len() == 0 {
        assert(a + b =~= a);
        assert(rendered(a) + rendered(b) =~= rendered(a));
    } else {
        assert((a + b).drop_last() =~= a + b.drop_last());
        lemma_rendered_concat(a, b.drop_last());
        assert(rendered(a + b) =~= rendered(a) + rendered(b));
    }
}

pub proof fn lemma_rendered_one(event: XmlEvent)
    ensures
        rendered(seq![event]) == rendered_event(event),
{
    let one = seq![event];
    assert(one.drop_last() =~= Seq::<XmlEvent>::empty());
    assert(rendered(one.drop_last()) =~= Seq::<char>::empty());
    assert(rendered(one) =~= rendered_event(event));
}

/// Escaped text is what its events look like.
pub proof fn lemma_text_rendered(text: Seq<char>)
    ensures
        rendered(text_events(text)) == escaped(text),
    decreases text.len(),
{
    if text.len() > 0 {
        lemma_text_rendered(text.drop_last());
        let before = text_events(text.drop_last());
        let c = text.last();
        match entity_name(c) {
            Some(name) => {
                let after = before.push(XmlEvent::Reference(name));
                assert(after.drop_last() =~= before);
            },
            None => {
                if before.len() > 0 && before.last() is Text {
                    let x = before.last()->Text_0;
                    let after = before.drop_last().push(XmlEvent::Text(x.push(c)));
                    assert(after.drop_last() =~= before.drop_last());
                    assert(rendered(before) == rendered(before.drop_last()) + x);
                    assert(rendered(after) =~= rendered(before) + seq![c]);
                } else {
                    let after = before.push(XmlEvent::Text(seq![c]));
                    assert(after.drop_last() =~= before);
                }
            },
        }
    }
}

/// The events of escaped text are plain.
pub proof fn lemma_text_plain(text: Seq<char>)
    ensures
        plain_events(text_events(text)),
        forall|i: int|
            0 <= i < text_events(text).len() ==> (#[trigger] text_events(text)[i]) is Text
                || text_events(text)[i] is Reference,
    decreases text.len(),
{
    if text.len() > 0 {
        lemma_text_plain(text.drop_last());
        let before = text_events(text.drop_last());
        let c = text.last();
        match entity_name(c) {
            Some(name) => {
                reveal_strlit("lt");
                reveal_strlit("gt");
                reveal_strlit("amp");
                reveal_strlit("apos");
                reveal_strlit("quot");
                assert(plain_name(name));
                let after = text_events(text);
                assert forall|i: int| 0 <= i < after.len() - 1 implies !((
                #[trigger] after[i]) is Text && after[i + 1] is Text) by {
                    assert(after[i] == before[i]);
                }
            },
            None => {
                let after = text_events(text);
                if before.len() > 0 && before.last() is Text {
                    assert(plain_event(before.last()));
                    assert forall|i: int| 0 <= i < after.len() implies plain_event(
                        #[trigger] after[i],
                    ) by {
                        if i < before.len() - 1 {
                            assert(after[i] == before[i]);
                        }
                    }
                    assert forall|i: int| 0 <= i < after.len() - 1 implies !((
                    #[trigger] after[i]) is Text && after[i + 1] is Text) by {
                        assert(after[i] == before[i]);
                        assert(before[i + 1] is Text == after[i + 1] is Text);
                    }
                } else {
                    assert forall|i: int| 0 <= i < after.len() - 1 implies !((
                    #[trigger] after[i]) is Text && after[i + 1] is Text) by {
                        assert(after[i] == before[i]);
                        if i == before.len() - 1 {
                            assert(before[i] == before.last());
                        }
                    }
                }
            },
        }
    }
}

/// Events that neither open nor close an element are balanced.
pub proof fn lemma_flat_balanced(events: Seq<XmlEvent>)
    requires
        forall|i: int|
            0 <= i < events.len() ==> !((#[trigger] events[i]) is Start) && !(events[i] is End),
    ensures
        balanced(events),
    decreases events.len(),
{
    if events.len() == 0 {
        assert forall|before: Seq<XmlEvent>| open_elements(before) is Some implies
            #[trigger] open_elements(before + events) == open_elements(before) by {
            assert(before + events =~= before);
        }
    } else {
        lemma_flat_balanced(events.drop_last());
        assert forall|before: Seq<XmlEvent>| open_elements(before) is Some implies
            #[trigger] open_elements(before + events) == open_elements(before) by {
            assert((before + events).drop_last() =~= before + events.drop_last());
            assert((before + events).last() == events[events.len() - 1]);
            assert(open_elements(before + events.drop_last()) == open_elements(before));
        }
    }
}

pub proof fn lemma_balanced_concat(a: Seq<XmlEvent>, b: Seq<XmlEvent>)
    requires
        balanced(a),
        balanced(b),
    ensures
        balanced(a + b),
{
    assert forall|before: Seq<XmlEvent>| open_elements(before) is Some implies
        #[trigger] open_elements(before + (a + b)) == open_elements(before) by {
        assert(before + (a + b) =~= (before + a) + b);
        assert(open_elements(before + a) == open_elements(before));
    }
}

pub proof fn lemma_balanced_element(name: Seq<char>, content: Seq<char>, inner: Seq<XmlEvent>)
    requires
        balanced(inner),
    ensures
        balanced(seq![XmlEvent::Start(name, content)] + inner + seq![XmlEvent::End(name)]),
{
    let whole = seq![XmlEvent::Start(name, content)] + inner + seq![XmlEvent::End(name)];
    assert forall|before: Seq<XmlEvent>| open_elements(before) is Some implies
        #[trigger] open_elements(before + whole) == open_elements(before) by {
        let opened = before.push(XmlEvent::Start(name, content));
        assert(opened.drop_last() =~= before);
        let stack = open_elements(before)->0;
        assert(open_elements(opened) == Some(stack.push(name)));
        assert(open_elements(opened + inner) == open_elements(opened));
        assert((before + whole).drop_last() =~= opened + inner);
        assert((before + whole).last() == XmlEvent::End(name));
        assert(stack.push(name).drop_last() =~= stack);
    }
}

pub proof fn lemma_plain_concat(a: Seq<XmlEvent>, b: Seq<XmlEvent>)
    requires
        plain_events(a),
        plain_events(b),
        a.len() > 0 && b.len() > 0 ==> !(a.last() is Text && b[0] is Text),
    ensures
        plain_events(a + b),
{
    let c = a + b;
    assert forall|i: int| 0 <= i < c.len() - 1 implies !((#[trigger] c[i]) is Text && c[i
        + 1] is Text) by {
        if i < a.len() - 1 {
            assert(c[i] == a[i] && c[i + 1] == a[i + 1]);
        } else if i == a.len() - 1 {
            assert(c[i] == a.last() && c[i + 1] == b[0]);
        } else {
            assert(c[i] == b[i - a.len()] && c[i + 1] == b[i - a.len() + 1]);
        }
    }
}

/// A field is plain, balanced, and begins and ends with a tag.
pub proof fn lemma_field(name: Seq<char>, text: Seq<char>)
    requires
        plain_name(name),
    ensures
        plain_events(field(name, text)),
        balanced(field(name, text)),
        field(name, text).len() >= 2,
        field(name, text)[0] is Start,
        field(name, text).last() is End,
{
    lemma_text_plain(text);
    lemma_flat_balanced(text_events(text));
    lemma_element(name, text_events(text));
}

pub proof fn lemma_element(name: Seq<char>, inner: Seq<XmlEvent>)
    requires
        plain_name(name),
        plain_events(inner),
        balanced(inner),
    ensures
        plain_events(element(name, inner)),
        balanced(element(name, inner)),
        element(name, inner).len() >= 2,
        element(name, inner)[0] == XmlEvent::Start(name, name),
        element(name, inner).last() == XmlEvent::End(name),
{
    lemma_balanced_element(name, name, inner);
    let head = seq![XmlEvent::Start(name, name)];
    let tail = seq![XmlEvent::End(name)];
    assert(plain_events(head));
    assert(plain_events(tail));
    lemma_plain_concat(head, inner);
    lemma_plain_concat(head + inner, tail);
}

pub proof fn lemma_line_break()
    ensures
        plain_events(line_break()),
        balanced(line_break()),
{
    reveal_strlit("\n");
    lemma_flat_balanced(line_break());
}

/// A plain and balanced piece of a document; `starts` and `ends` tell whether text stands
/// at its start and at its end.
#[verifier::opaque]
pub open spec fn piece(events: Seq<XmlEvent>, starts: bool, ends: bool) -> bool {
    &&& plain_events(events)
    &&& balanced(events)
    &&& events.len() > 0
    &&& events[0] is Text == starts
    &&& events.last() is Text == ends
}

/// Two pieces make a piece where no two texts touch.
pub proof fn lemma_append(
    a: Seq<XmlEvent>,
    a_starts: bool,
    a_ends: bool,
    b: Seq<XmlEvent>,
    b_starts: bool,
    b_ends: bool,
)
    requires
        piece(a, a_starts, a_ends),
        piece(b, b_starts, b_ends),
        !(a_ends && b_starts),
    ensures
        piece(a + b, a_starts, b_ends),
{
    reveal(piece);
    lemma_plain_concat(a, b);
    lemma_balanced_concat(a, b);
}

/// An element and a line break behind a piece that ends with text.
pub proof fn lemma_append_line(a: Seq<XmlEvent>, starts: bool, b: Seq<XmlEvent>)
    requires
        piece(a, starts, true),
        piece(b, false, false),
    ensures
        piece(a + b + line_break(), starts, true),
{
    lemma_break_piece();
    lemma_append(a, starts, true, b, false, false);
    lemma_append(a + b, starts, false, line_break(), true, true);
}

pub proof fn lemma_break_piece()
    ensures
        piece(line_break(), true, true),
{
    reveal(piece);
    lemma_line_break();
}

pub proof fn lemma_field_piece(name: Seq<char>, text: Seq<char>)
    requires
        plain_name(name),
    ensures
        piece(field(name, text), false, false),
{
    reveal(piece);
    lemma_field(name, text);
}

pub proof fn lemma_raw_field_piece(name: Seq<char>, text: Seq<char>)
    requires
        plain_name(name),
        plain_event(XmlEvent::Text(text)),
    ensures
        piece(raw_field(name, text), false, false),
{
    reveal(piece);
    lemma_flat_balanced(seq![XmlEvent::Text(text)]);
    lemma_element(name, seq![XmlEvent::Text(text)]);
}

pub proof fn lemma_element_piece(
    name: Seq<char>,
    content: Seq<char>,
    inner: Seq<XmlEvent>,
    starts: bool,
    ends: bool,
)
    requires
        plain_event(XmlEvent::Start(name, content)),
        piece(inner, starts, ends),
    ensures
        piece(
            seq![XmlEvent::Start(name, content)] + inner + seq![XmlEvent::End(name)],
            false,
            false,
        ),
{
    reveal(piece);
    lemma_balanced_element(name, content, inner);
    let head = seq![XmlEvent::Start(name, content)];
    let tail = seq![XmlEvent::End(name)];
    assert(plain_events(head));
    assert(plain_events(tail));
    lemma_plain_concat(head, inner);
    lemma_plain_concat(head + inner, tail);
}

/// A document of a declaration, one element, and line breaks behind both.
pub proof fn lemma_document(root: Seq<XmlEvent>)
    requires
        piece(root, false, false),
    ensures
        plain_document(seq![XmlEvent::Declaration] + line_break() + root + line_break()),
{
    let declaration = seq![XmlEvent::Declaration];
    assert(piece(declaration, false, false)) by {
        reveal(piece);
        lemma_flat_balanced(declaration);
    }
    lemma_break_piece();
    lemma_append(declaration, false, false, line_break(), true, true);
    lemma_append_line(declaration + line_break(), false, root);
    let whole = declaration + line_break() + root + line_break();
    reveal(piece);
    assert(Seq::<XmlEvent>::empty() + whole =~= whole);
    assert(open_elements(Seq::<XmlEvent>::empty()) is Some);
}

/// Text without special characters is its own escaped form.
pub proof fn lemma_escaped_plain(text: Seq<char>)
    requires
        plain_value(text),
    ensures
        escaped(text) == text,
    decreases text.len(),
{
    if text.len() > 0 {
        assert(plain_value(text.drop_last())) by {
            assert forall|i: int| 0 <= i < text.drop_last().len() implies #[trigger] text.drop_last()[i]
                != '"' && text.drop_last()[i] != '\'' && text.drop_last()[i] != '<'
                && text.drop_last()[i] != '>' && text.drop_last()[i] != '&' by {
                assert(text.drop_last()[i] == text[i]);
            }
        }
        lemma_escaped_plain(text.drop_last());
        assert(text[text.len() - 1] == text.last());
        assert(escaped(text) =~= text);
    } else {
        assert(escaped(text) =~= text);
    }
}

/// A reference to a special character stands for it.
pub proof fn lemma_reference_value(c: char)
    ensures
        match entity_name(c) {
            Some(name) => reference_value(name) == Ok::<Seq<char>, Seq<char>>(seq![c]),
            None => true,
        },
{
    reveal_strlit("lt");
    reveal_strlit("gt");
    reveal_strlit("amp");
    reveal_strlit("apos");
    reveal_strlit("quot");
    assert("lt"@[0] != "gt"@[0]);
    assert("amp"@.len() == 3);
    assert("apos"@[0] != "quot"@[0]);
}

// ---------------------------------------------------------------------------
// The writer
// ---------------------------------------------------------------------------

/// An XML text under construction, with the events that it is made of.
pub struct XmlWriter {
    text: String,
    events: Ghost<Seq<XmlEvent>>,
}

impl View for XmlWriter {
    type V = Seq<XmlEvent>;

    closed spec fn view(&self) -> Seq<XmlEvent> {
        self.events@
    }
}

impl XmlWriter {
    /// The text is what the events look like.
    pub closed spec fn wf(&self) -> bool {
        self.text@ == rendered(self.events@)
    }

    /// An empty text.
    pub fn new() -> (writer: XmlWriter)
        ensures
            writer.wf(),
            writer@ == Seq::<XmlEvent>::empty(),
    {
        XmlWriter { text: String::new(), events: Ghost(Seq::empty()) }
    }

    fn append(&mut self, piece: &str, Ghost(added): Ghost<Seq<XmlEvent>>)
        requires
            old(self).wf(),
            piece@ == rendered(added),
        ensures
            final(self).wf(),
            final(self)@ == old(self)@ + added,
    {
        self.text.append(piece);
        proof {
            lemma_rendered_concat(self.events@, added);
        }
        self.events = Ghost(self.events@ + added);
    }

    /// The XML declaration.
    pub fn declaration(&mut self)
        requires
            old(self).wf(),
        ensures
            final(self).wf(),
            final(self)@ == old(self)@ + seq![XmlEvent::Declaration],
    {
        proof {
            lemma_rendered_one(XmlEvent::Declaration);
        }
        self.append(
            "<?xml version=\"1.0\" encoding=\"UTF-8\"?>",
            Ghost(one(XmlEvent::Declaration)),
        );
    }

    /// A line break.
    pub fn newline(&mut self)
        requires
            old(self).wf(),
        ensures
            final(self).wf(),
            final(self)@ == old(self)@ + line_break(),
    {
        proof {
            lemma_rendered_one(XmlEvent::Text("\n"@));
        }
        self.append("\n", Ghost(line_break()));
    }

    /// A start tag without attributes.
    pub fn start(&mut self, name: &str)
        requires
            old(self).wf(),
        ensures
            final(self).wf(),
            final(self)@ == old(self)@ + seq![XmlEvent::Start(name@, name@)],
    {
        let piece = crate::text::cat3("<", name, ">");
        proof {
            lemma_rendered_one(XmlEvent::Start(name@, name@));
        }
        self.append(piece.as_str(), Ghost(one(XmlEvent::Start(name@, name@))));
    }

    /// A start tag with one attribute, whose value is escaped.
    pub fn start_with(&mut self, name: &str, key: &str, value: &str)
        requires
            old(self).wf(),
        ensures
            final(self).wf(),
            final(self)@ == old(self)@ + seq![
                XmlEvent::Start(name@, attribute_content(name@, key@, escaped(value@))),
            ],
    {
        let quoted = xml_escape(value);
        let content = crate::text::cat6(name, " ", key, "=\"", quoted.as_str(), "\"");
        let ghost event = XmlEvent::Start(
            name@,
            attribute_content(name@, key@, escaped(value@)),
        );
        let piece = crate::text::cat3("<", content.as_str(), ">");
        proof {
            lemma_rendered_one(event);
        }
        self.append(piece.as_str(), Ghost(one(event)));
    }

    /// An element without content.
    pub fn empty(&mut self, name: &str)
        requires
            old(self).wf(),
        ensures
            final(self).wf(),
            final(self)@ == old(self)@ + seq![XmlEvent::Empty(name@, name@)],
    {
        let piece = crate::text::cat3("<", name, "/>");
        proof {
            lemma_rendered_one(XmlEvent::Empty(name@, name@));
        }
        self.append(piece.as_str(), Ghost(one(XmlEvent::Empty(name@, name@))));
    }

    /// An end tag.
    pub fn end(&mut self, name: &str)
        requires
            old(self).wf(),
        ensures
            final(self).wf(),
            final(self)@ == old(self)@ + seq![XmlEvent::End(name@)],
    {
        let piece = crate::text::cat3("</", name, ">");
        proof {
            lemma_rendered_one(XmlEvent::End(name@));
        }
        self.append(piece.as_str(), Ghost(one(XmlEvent::End(name@))));
    }

    /// Escaped text.
    pub fn text(&mut self, text: &str)
        requires
            old(self).wf(),
        ensures
            final(self).wf(),
            final(self)@ == old(self)@ + text_events(text@),
    {
        let piece = xml_escape(text);
        proof {
            lemma_text_rendered(text@);
        }
        self.append(piece.as_str(), Ghost(text_events(text@)));
    }

    /// An element that holds escaped text.
    pub fn field(&mut self, name: &str, text: &str)
        requires
            old(self).wf(),
        ensures
            final(self).wf(),
            final(self)@ == old(self)@ + field(name@, text@),
    {
        self.start(name);
        self.text(text);
        self.end(name);
        assert(self@ =~= old(self)@ + field(name@, text@));
    }

    /// An element that holds text as it stands.
    pub fn raw_field(&mut self, name: &str, text: &str)
        requires
            old(self).wf(),
        ensures
            final(self).wf(),
            final(self)@ == old(self)@ + raw_field(name@, text@),
    {
        self.start(name);
        proof {
            lemma_rendered_one(XmlEvent::Text(text@));
        }
        self.append(text, Ghost(one(XmlEvent::Text(text@))));
        self.end(name);
        assert(self@ =~= old(self)@ + raw_field(name@, text@));
    }

    /// The text.
    pub fn finish(self) -> (text: String)
        requires
            self.wf(),
        ensures
            text@ == rendered(self@),
    {
        self.text
    }
}

} // verus!
