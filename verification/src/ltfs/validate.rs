//! Whether a text is one well-formed XML document with a given root element.
use vstd::prelude::*;
use vstd::string::*;
use vstd::utf8::*;

use super::xml::{
    attributes_fault, events_of, read_items, validate_xml_attributes, xml_events,
    XmlEvent, XmlItem,
};
use crate::bytes::same_bytes;
use crate::text::{cat5, chars_of, lossy_utf8, utf8_string_lossy};

verus! {

/// What has been seen of a document.
pub struct DocumentState {
    pub depth: nat,
    pub root_seen: bool,
    pub root_closed: bool,
    pub declaration_seen: bool,
}

pub open spec fn document_start() -> DocumentState {
    DocumentState { depth: 0, root_seen: false, root_closed: false, declaration_seen: false }
}

/// Blanks, tabs and line ends only.
pub open spec fn blank(text: Seq<char>) -> bool {
    forall|i: int|
        0 <= i < text.len() ==> (#[trigger] text[i] == ' ' || text[i] == '\t' || text[i] == '\n'
            || text[i] == '\r')
}

/// Why a tag cannot stand where it does.
pub open spec fn tag_fault(
    s: DocumentState,
    name: Seq<char>,
    content: Seq<char>,
    expected: Seq<u8>,
) -> Option<Seq<char>> {
    match attributes_fault(name, content) {
        Some(message) => Some(message),
        None => if s.depth != 0 {
            None
        } else if s.root_seen {
            Some("XML contains more than one root element"@)
        } else if encode_utf8(name) != expected {
            Some(
                "XML root element is <"@ + name + ">, expected <"@ + lossy_utf8(expected) + ">"@,
            )
        } else {
            None
        },
    }
}

/// One event of a document.
pub open spec fn document_step(s: DocumentState, event: XmlEvent, expected: Seq<u8>) -> Result<
    DocumentState,
    Seq<char>,
> {
    match event {
        XmlEvent::Declaration => if s.declaration_seen || s.root_seen {
            Err("XML declaration must appear once before the root element"@)
        } else {
            Ok(DocumentState { declaration_seen: true, ..s })
        },
        XmlEvent::DocType => Err("DOCTYPE is not permitted in LTFS metadata XML"@),
        XmlEvent::Start(name, content) => match tag_fault(s, name, content, expected) {
            Some(message) => Err(message),
            None => if s.depth >= usize::MAX {
                Err("XML nesting depth overflow"@)
            } else {
                Ok(
                    DocumentState {
                        root_seen: s.root_seen || s.depth == 0,
                        depth: s.depth + 1,
                        ..s
                    },
                )
            },
        },
        XmlEvent::Empty(name, content) => match tag_fault(s, name, content, expected) {
            Some(message) => Err(message),
            None => if s.depth == 0 {
                Ok(DocumentState { root_seen: true, root_closed: true, ..s })
            } else {
                Ok(s)
            },
        },
        XmlEvent::End(_) => if s.depth == 0 {
            Err("XML contains an unmatched closing element"@)
        } else {
            Ok(
                DocumentState {
                    depth: (s.depth - 1) as nat,
                    root_closed: s.root_closed || s.depth == 1,
                    ..s
                },
            )
        },
        XmlEvent::Text(text) => if s.depth == 0 && !blank(text) {
            Err("XML contains text outside the root element"@)
        } else {
            Ok(s)
        },
        XmlEvent::CData => if s.depth == 0 {
            Err("XML contains character data outside the root element"@)
        } else {
            Ok(s)
        },
        XmlEvent::Reference(_) => if s.depth == 0 {
            Err("XML contains character data outside the root element"@)
        } else {
            Ok(s)
        },
        XmlEvent::Failed(message) => Err(message),
        _ => Ok(s),
    }
}

/// The end of a document.
pub open spec fn document_end(s: DocumentState) -> Result<(), Seq<char>> {
    if !s.root_seen {
        Err("XML has no root element"@)
    } else if s.depth != 0 || !s.root_closed {
        Err("XML ended before the root element was closed"@)
    } else {
        Ok(())
    }
}

/// A whole document, from a given state on.
pub open spec fn document_run(s: DocumentState, events: Seq<XmlEvent>, expected: Seq<u8>) -> Result<
    (),
    Seq<char>,
>
    decreases events.len(),
{
    if events.len() == 0 || events[0] is Eof {
        document_end(s)
    } else {
        match document_step(s, events[0], expected) {
            Ok(next) => document_run(next, events.drop_first(), expected),
            Err(message) => Err(message),
        }
    }
}

pub open spec fn unit_view(result: Result<(), String>) -> Result<(), Seq<char>> {
    match result {
        Ok(_) => Ok(()),
        Err(message) => Err(message@),
    }
}

fn is_blank(text: &str) -> (yes: bool)
    ensures
        yes == blank(text@),
{
    let chars = chars_of(text);
    let mut i: usize = 0;
    while i < chars.len()
        invariant
            i <= chars@.len(),
            chars@ == text@,
            forall|j: int|
                0 <= j < i ==> (#[trigger] text@[j] == ' ' || text@[j] == '\t' || text@[j] == '\n'
                    || text@[j] == '\r'),
        decreases chars@.len() - i,
    {
        let c = chars[i];
        if c != ' ' && c != '\t' && c != '\n' && c != '\r' {
            assert(!blank(text@)) by {
                assert(text@[i as int] == c);
            }
            return false;
        }
        i = i + 1;
    }
    true
}

struct Progress {
    depth: usize,
    root_seen: bool,
    root_closed: bool,
    declaration_seen: bool,
}

impl Progress {
    spec fn model(&self) -> DocumentState {
        DocumentState {
            depth: self.depth as nat,
            root_seen: self.root_seen,
            root_closed: self.root_closed,
            declaration_seen: self.declaration_seen,
        }
    }

    fn check_tag(&self, name: &String, content: &String, expected: &[u8]) -> (result: Result<
        (),
        String,
    >)
        ensures
            match result {
                Ok(_) => tag_fault(self.model(), name@, content@, expected@) is None,
                Err(message) => tag_fault(self.model(), name@, content@, expected@) == Some(
                    message@,
                ),
            },
    {
        match validate_xml_attributes(name.as_str(), content.as_str()) {
            Ok(_) => {},
            Err(message) => {
                return Err(message);
            },
        }
        if self.depth == 0 {
            if self.root_seen {
                return Err("XML contains more than one root element".to_owned());
            }
            if !same_bytes(name.as_str().as_bytes(), expected) {
                let wanted = utf8_string_lossy(expected);
                return Err(
                    cat5(
                        "XML root element is <",
                        name.as_str(),
                        ">, expected <",
                        wanted.as_str(),
                        ">",
                    ),
                );
            }
        }
        Ok(())
    }

    fn step(&mut self, item: &XmlItem, expected: &[u8]) -> (result: Result<(), String>)
        ensures
            match result {
                Ok(_) => document_step(old(self).model(), item@, expected@) == Ok::<
                    DocumentState,
                    Seq<char>,
                >(final(self).model()),
                Err(message) => document_step(old(self).model(), item@, expected@) == Err::<
                    DocumentState,
                    Seq<char>,
                >(message@),
            },
    {
        match item {
            XmlItem::Declaration => {
                if self.declaration_seen || self.root_seen {
                    return Err(
                        "XML declaration must appear once before the root element".to_owned(),
                    );
                }
                self.declaration_seen = true;
            },
            XmlItem::DocType => {
                return Err("DOCTYPE is not permitted in LTFS metadata XML".to_owned());
            },
            XmlItem::Start(name, content) => {
                match self.check_tag(name, content, expected) {
                    Ok(_) => {},
                    Err(message) => {
                        return Err(message);
                    },
                }
                if self.depth == usize::MAX {
                    return Err("XML nesting depth overflow".to_owned());
                }
                if self.depth == 0 {
                    self.root_seen = true;
                }
                self.depth = self.depth + 1;
            },
            XmlItem::Empty(name, content) => {
                match self.check_tag(name, content, expected) {
                    Ok(_) => {},
                    Err(message) => {
                        return Err(message);
                    },
                }
                if self.depth == 0 {
                    self.root_seen = true;
                    self.root_closed = true;
                }
            },
            XmlItem::End(_) => {
                if self.depth == 0 {
                    return Err("XML contains an unmatched closing element".to_owned());
                }
                self.depth = self.depth - 1;
                if self.depth == 0 {
                    self.root_closed = true;
                }
            },
            XmlItem::Text(text) => {
                if self.depth == 0 && !is_blank(text.as_str()) {
                    return Err("XML contains text outside the root element".to_owned());
                }
            },
            XmlItem::CData => {
                if self.depth == 0 {
                    return Err("XML contains character data outside the root element".to_owned());
                }
            },
            XmlItem::Reference(_) => {
                if self.depth == 0 {
                    return Err("XML contains character data outside the root element".to_owned());
                }
            },
            XmlItem::Failed(message) => {
                return Err(message.clone());
            },
            _ => {},
        }
        Ok(())
    }

    fn end(&self) -> (result: Result<(), String>)
        ensures
            unit_view(result) == document_end(self.model()),
    {
        if !self.root_seen {
            return Err("XML has no root element".to_owned());
        }
        if self.depth != 0 || !self.root_closed {
            return Err("XML ended before the root element was closed".to_owned());
        }
        Ok(())
    }
}

/// Checks the events of a document.
pub fn validate_items(items: &Vec<XmlItem>, expected_root: &[u8]) -> (result: Result<(), String>)
    ensures
        unit_view(result) == document_run(document_start(), events_of(items@), expected_root@),
{
    let mut progress = Progress {
        depth: 0,
        root_seen: false,
        root_closed: false,
        declaration_seen: false,
    };
    let ghost events = events_of(items@);
    let mut i: usize = 0;
    assert(events.subrange(0, events.len() as int) =~= events);
    while i < items.len()
        invariant
            i <= items@.len(),
            events == events_of(items@),
            document_run(document_start(), events, expected_root@) == document_run(
                progress.model(),
                events.subrange(i as int, events.len() as int),
                expected_root@,
            ),
        decreases items@.len() - i,
    {
        let ghost rest = events.subrange(i as int, events.len() as int);
        assert(rest[0] == items@[i as int]@);
        assert(rest.drop_first() =~= events.subrange(i + 1, events.len() as int));
        let last = match &items[i] {
            XmlItem::Eof => true,
            _ => false,
        };
        if last {
            return progress.end();
        }
        match progress.step(&items[i], expected_root) {
            Ok(_) => {},
            Err(message) => {
                return Err(message);
            },
        }
        i = i + 1;
    }
    progress.end()
}

/// Succeeds when `xml` is one well-formed document whose root element is
/// `expected_root`, without a document type.
pub fn validate_xml_document(xml: &str, expected_root: &[u8]) -> (result: Result<(), String>)
    ensures
        unit_view(result) == document_run(document_start(), xml_events(xml@), expected_root@),
{
    let items = read_items(xml);
    validate_items(&items, expected_root)
}

} // verus!
