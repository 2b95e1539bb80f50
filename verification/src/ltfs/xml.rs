//! The XML layer: documents as sequences of events, attribute lists, and escaping.
//!
//! `quick_xml` reads the text; everything behind the event sequence is verified.
use vstd::prelude::*;

use crate::text::{cat3, has_prefix, utf8_string_lossy};
use quick_xml::events::attributes::Attributes;
use quick_xml::events::Event::{CData, Decl, DocType, Empty, End, Eof, GeneralRef, Start, Text};

verus! {

/// An event of an XML document.
#[derive(Debug, Clone, PartialEq, Eq)]
pub enum XmlItem {
    /// `<content>`; the name is what precedes the first white space of the content.
    Start(String, String),
    /// `<content/>`, with its name.
    Empty(String, String),
    /// `</name>`.
    End(String),
    /// Character data, as it stands in the document.
    Text(String),
    /// `&name;`.
    Reference(String),
    CData,
    Declaration,
    DocType,
    /// A comment or a processing instruction.
    Other,
    Eof,
    /// The document is malformed here; no event follows.
    Failed(String),
}

/// The model of an event.
pub enum XmlEvent {
    Start(Seq<char>, Seq<char>),
    Empty(Seq<char>, Seq<char>),
    End(Seq<char>),
    Text(Seq<char>),
    Reference(Seq<char>),
    CData,
    Declaration,
    DocType,
    Other,
    Eof,
    Failed(Seq<char>),
}

impl View for XmlItem {
    type V = XmlEvent;

    open spec fn view(&self) -> XmlEvent {
        match *self {
            XmlItem::Start(name, content) => XmlEvent::Start(name@, content@),
            XmlItem::Empty(name, content) => XmlEvent::Empty(name@, content@),
            XmlItem::End(name) => XmlEvent::End(name@),
            XmlItem::Text(text) => XmlEvent::Text(text@),
            XmlItem::Reference(name) => XmlEvent::Reference(name@),
            XmlItem::CData => XmlEvent::CData,
            XmlItem::Declaration => XmlEvent::Declaration,
            XmlItem::DocType => XmlEvent::DocType,
            XmlItem::Other => XmlEvent::Other,
            XmlItem::Eof => XmlEvent::Eof,
            XmlItem::Failed(message) => XmlEvent::Failed(message@),
        }
    }
}

/// The models of a list of events.
pub open spec fn events_of(items: Seq<XmlItem>) -> Seq<XmlEvent> {
    items.map_values(|item: XmlItem| item@)
}

/// The event after which a document has no more events.
pub open spec fn is_last(event: XmlEvent) -> bool {
    event is Eof || event is Failed
}

/// A document ends with its first end-of-file or failure, and only there.
pub open spec fn complete(events: Seq<XmlEvent>) -> bool {
    &&& events.len() > 0
    &&& forall|i: int|
        0 <= i < events.len() ==> (is_last(#[trigger] events[i]) <==> i == events.len() - 1)
}

// ---------------------------------------------------------------------------
// What plain documents look like
// ---------------------------------------------------------------------------

/// A name made of ASCII letters only.
pub open spec fn plain_name(name: Seq<char>) -> bool {
    &&& name.len() > 0
    &&& forall|i: int| 0 <= i < name.len() ==> 'a' <= #[trigger] name[i] <= 'z'
}

/// Text that needs no escaping between two quotes.
pub open spec fn plain_value(value: Seq<char>) -> bool {
    forall|i: int|
        0 <= i < value.len() ==> #[trigger] value[i] != '"' && value[i] != '\'' && value[i] != '<'
            && value[i] != '>' && value[i] != '&'
}

/// The content of a tag: its name, alone or followed by one quoted attribute.
pub open spec fn plain_content(name: Seq<char>, content: Seq<char>) -> bool {
    ||| content == name
    ||| exists|key: Seq<char>, value: Seq<char>|
        plain_name(key) && plain_value(value) && content == #[trigger] attribute_content(
            name,
            key,
            value,
        )
}

/// `name key="value"`.
pub open spec fn attribute_content(
    name: Seq<char>,
    key: Seq<char>,
    value: Seq<char>,
) -> Seq<char> {
    name + " "@ + key + "=\""@ + value + "\""@
}

/// The text of an event.
pub open spec fn rendered_event(event: XmlEvent) -> Seq<char> {
    match event {
        XmlEvent::Start(_, content) => "<"@ + content + ">"@,
        XmlEvent::Empty(_, content) => "<"@ + content + "/>"@,
        XmlEvent::End(name) => "</"@ + name + ">"@,
        XmlEvent::Text(text) => text,
        XmlEvent::Reference(name) => "&"@ + name + ";"@,
        XmlEvent::Declaration => "<?xml version=\"1.0\" encoding=\"UTF-8\"?>"@,
        _ => Seq::empty(),
    }
}

/// The text of a sequence of events.
pub open spec fn rendered(events: Seq<XmlEvent>) -> Seq<char>
    decreases events.len(),
{
    if events.len() == 0 {
        Seq::empty()
    } else {
        rendered(events.drop_last()) + rendered_event(events.last())
    }
}

/// An event that its text determines.
pub open spec fn plain_event(event: XmlEvent) -> bool {
    match event {
        XmlEvent::Start(name, content) => plain_name(name) && plain_content(name, content),
        XmlEvent::Empty(name, content) => plain_name(name) && plain_content(name, content),
        XmlEvent::End(name) => plain_name(name),
        XmlEvent::Text(text) => text.len() > 0 && forall|i: int|
            0 <= i < text.len() ==> #[trigger] text[i] != '<' && text[i] != '&',
        XmlEvent::Reference(name) => plain_name(name),
        XmlEvent::Declaration => true,
        _ => false,
    }
}

/// The names of the elements that are open behind `events`, innermost last; `None`
/// where an end tag does not close the innermost element.
pub open spec fn open_elements(events: Seq<XmlEvent>) -> Option<Seq<Seq<char>>>
    decreases events.len(),
{
    if events.len() == 0 {
        Some(Seq::empty())
    } else {
        match open_elements(events.drop_last()) {
            None => None,
            Some(stack) => match events.last() {
                XmlEvent::Start(name, _) => Some(stack.push(name)),
                XmlEvent::End(name) => if stack.len() > 0 && stack.last() == name {
                    Some(stack.drop_last())
                } else {
                    None
                },
                _ => Some(stack),
            },
        }
    }
}

/// A sequence of events that its text determines: every event is plain, no two
/// texts touch, end tags match start tags, and the declaration comes first.
pub open spec fn plain_document(events: Seq<XmlEvent>) -> bool {
    &&& events.len() > 0
    &&& events[0] is Declaration
    &&& open_elements(events) is Some
    &&& forall|i: int| 0 <= i < events.len() ==> plain_event(#[trigger] events[i])
    &&& forall|i: int|
        0 <= i < events.len() - 1 ==> !((#[trigger] events[i]) is Text && events[i + 1] is Text)
}

/// The text of a plain document is read as the events that it was written from.
pub open spec fn read_plainly(text: Seq<char>, read: Seq<XmlEvent>) -> bool {
    forall|events: Seq<XmlEvent>| #[trigger]
        plain_document(events) && text == rendered(events) ==> read == events.push(XmlEvent::Eof)
}

// ---------------------------------------------------------------------------
// quick_xml
// ---------------------------------------------------------------------------

#[verifier::external_type_specification]
#[verifier::external_body]
#[verifier::reject_recursive_types(R)]
pub struct ExReader<R>(quick_xml::Reader<R>);

/// The events of an XML text, up to and including the first end of file or failure.
pub uninterp spec fn xml_events(text: Seq<char>) -> Seq<XmlEvent>;

/// The events that a reader has yet to give, up to the first end of file or failure.
pub uninterp spec fn pending_events(reader: quick_xml::Reader<&[u8]>) -> Seq<XmlEvent>;

/// `quick_xml::Reader::from_str`: a reader that stands before the first event of the
/// text. The events end with the first end of file or failure, and the text of a plain
/// document is read back as the events that it was written from.
#[verifier::external_body]
fn open_reader<'a>(text: &'a str) -> (reader: quick_xml::Reader<&'a [u8]>)
    ensures
        pending_events(reader) == xml_events(text@),
        complete(pending_events(reader)),
        read_plainly(text@, pending_events(reader)),
{
    quick_xml::Reader::from_str(text)
}

/// `quick_xml::Reader::read_event`: gives the next event and moves behind it. The
/// input is UTF-8, so that names, contents and texts are its characters.
#[verifier::external_body]
fn next_item(reader: &mut quick_xml::Reader<&[u8]>) -> (item: XmlItem)
    requires
        pending_events(*old(reader)).len() > 0,
    ensures
        item@ == pending_events(*old(reader))[0],
        pending_events(*final(reader)) == pending_events(*old(reader)).drop_first(),
{
    match reader.read_event() {
        Ok(Start(e)) => XmlItem::Start(utf8_string_lossy(e.name().0), utf8_string_lossy(&e)),
        Ok(Empty(e)) => XmlItem::Empty(utf8_string_lossy(e.name().0), utf8_string_lossy(&e)),
        Ok(End(e)) => XmlItem::End(utf8_string_lossy(e.name().0)),
        Ok(Text(e)) => XmlItem::Text(utf8_string_lossy(&e)),
        Ok(GeneralRef(e)) => XmlItem::Reference(utf8_string_lossy(&e)),
        Ok(CData(_)) => XmlItem::CData,
        Ok(Decl(_)) => XmlItem::Declaration,
        Ok(DocType(_)) => XmlItem::DocType,
        Ok(Eof) => XmlItem::Eof,
        Err(error) => XmlItem::Failed(error.to_string()),
        _ => XmlItem::Other,
    }
}

/// All events of an XML text.
pub fn read_items(text: &str) -> (items: Vec<XmlItem>)
    ensures
        events_of(items@) == xml_events(text@),
        complete(xml_events(text@)),
        read_plainly(text@, xml_events(text@)),
{
    let mut reader = open_reader(text);
    let ghost all = xml_events(text@);
    let mut items: Vec<XmlItem> = Vec::new();
    assert(events_of(items@) + pending_events(reader) =~= all);
    loop
        invariant_except_break
            items@.len() < all.len(),
        invariant
            complete(all),
            all == xml_events(text@),
            events_of(items@) + pending_events(reader) == all,
        ensures
            events_of(items@) == all,
        decreases all.len() - items@.len(),
    {
        let ghost before = items@;
        let ghost pending = pending_events(reader);
        assert(pending[0] == all[before.len() as int]);
        let item = next_item(&mut reader);
        let last = match &item {
            XmlItem::Eof => true,
            XmlItem::Failed(_) => true,
            _ => false,
        };
        assert(last == is_last(item@));
        items.push(item);
        assert(events_of(items@) =~= events_of(before).push(item@));
        assert(events_of(items@) + pending_events(reader) =~= all);
        if last {
            assert(events_of(items@) =~= all);
            break;
        }
    }
    items
}

// ---------------------------------------------------------------------------
// Attributes
// ---------------------------------------------------------------------------

/// An attribute of a tag, or why it is malformed.
#[derive(Debug, Clone, PartialEq, Eq)]
pub enum XmlAttribute {
    Valid(String, String),
    Invalid(String),
}

/// The model of an attribute: key and raw value, or what is wrong with it.
pub type AttributeModel = Result<(Seq<char>, Seq<char>), Seq<char>>;

impl View for XmlAttribute {
    type V = AttributeModel;

    open spec fn view(&self) -> AttributeModel {
        match *self {
            XmlAttribute::Valid(key, value) => Ok((key@, value@)),
            XmlAttribute::Invalid(message) => Err(message@),
        }
    }
}

/// The models of a list of attributes.
pub open spec fn attributes_of(list: Seq<XmlAttribute>) -> Seq<AttributeModel> {
    list.map_values(|a: XmlAttribute| a@)
}

/// The attributes of a tag with the given name and content.
pub uninterp spec fn xml_attributes(name: Seq<char>, content: Seq<char>) -> Seq<AttributeModel>;

/// A list of one well-formed attribute.
pub open spec fn single_attribute(key: Seq<char>, value: Seq<char>) -> Seq<AttributeModel> {
    seq![Ok((key, value))]
}

/// `quick_xml::events::attributes::Attributes`: the attributes behind the name, in
/// order, malformed ones in their places. A bare name has none, and one quoted plain
/// attribute is read as it stands. The content begins with the name: the attributes are
/// looked for behind as many bytes, which must be there.
#[verifier::external_body]
fn tag_attributes(name: &str, content: &str) -> (list: Vec<XmlAttribute>)
    requires
        has_prefix(content@, name@),
    ensures
        attributes_of(list@) == xml_attributes(name@, content@),
        content@ == name@ ==> attributes_of(list@).len() == 0,
        forall|key: Seq<char>, value: Seq<char>|
            plain_name(name@) && plain_name(key) && plain_value(value) && content@ == #[trigger]
            attribute_content(name@, key, value) ==> attributes_of(list@) == single_attribute(key, value),
{
    Attributes::new(content, name.len()).map(|attribute| match attribute {
        Ok(a) => XmlAttribute::Valid(utf8_string_lossy(a.key.0), utf8_string_lossy(&a.value)),
        Err(error) => XmlAttribute::Invalid(error.to_string()),
    }).collect()
}

/// The raw value of the first well-formed attribute with the given key.
pub open spec fn first_value(list: Seq<AttributeModel>, key: Seq<char>) -> Option<Seq<char>>
    decreases list.len(),
{
    if list.len() == 0 {
        None
    } else {
        match list[0] {
            Ok((k, value)) => if k == key {
                Some(value)
            } else {
                first_value(list.drop_first(), key)
            },
            Err(_) => first_value(list.drop_first(), key),
        }
    }
}

/// Where the value of a single attribute with the given key would stand.
pub open spec fn quoted_value(name: Seq<char>, content: Seq<char>, key: Seq<char>) -> Seq<char> {
    content.subrange((name.len() + key.len() + 3) as int, content.len() - 1)
}

/// The content is a plain name and one plain attribute with the given key.
pub open spec fn has_single_attribute(
    name: Seq<char>,
    content: Seq<char>,
    key: Seq<char>,
) -> bool {
    &&& plain_name(name)
    &&& plain_name(key)
    &&& content.len() >= name.len() + key.len() + 4
    &&& plain_value(quoted_value(name, content, key))
    &&& content == attribute_content(name, key, quoted_value(name, content, key))
}

/// The raw value of an attribute of a tag.
pub open spec fn attribute_value_spec(
    name: Seq<char>,
    content: Seq<char>,
    key: Seq<char>,
) -> Option<Seq<char>> {
    if content == name {
        None
    } else if has_single_attribute(name, content, key) {
        Some(quoted_value(name, content, key))
    } else if has_prefix(content, name) {
        first_value(xml_attributes(name, content), key)
    } else {
        None
    }
}

/// Looks up an attribute of a tag; malformed attributes are passed over. A content that
/// does not begin with the name of the tag has none.
pub fn attribute_value(name: &str, content: &str, key: &str) -> (value: Option<String>)
    ensures
        crate::text::opt_view(value) == attribute_value_spec(name@, content@, key@),
{
    proof {
        if content@ == name@ {
            assert(content@.subrange(0, name@.len() as int) =~= name@);
        } else if has_single_attribute(name@, content@, key@) {
            let v = quoted_value(name@, content@, key@);
            assert(attribute_content(name@, key@, v).subrange(0, name@.len() as int) =~= name@);
        }
    }
    if !crate::text::starts_with(content, name) {
        return None;
    }
    let list = tag_attributes(name, content);
    let ghost models = attributes_of(list@);
    let mut i: usize = 0;
    proof {
        assert(models.subrange(0, models.len() as int) =~= models);
        if content@ == name@ {
            assert(first_value(models, key@) is None);
        } else if has_single_attribute(name@, content@, key@) {
            let v = quoted_value(name@, content@, key@);
            assert(models == single_attribute(key@, v));
            assert(models[0] == single_attribute(key@, v)[0]);
            assert(first_value(models, key@) == Some(v));
        }
    }
    while i < list.len()
        invariant
            i <= list@.len(),
            models == attributes_of(list@),
            first_value(models, key@) == attribute_value_spec(name@, content@, key@),
            first_value(models, key@) == first_value(
                models.subrange(i as int, models.len() as int),
                key@,
            ),
        decreases list@.len() - i,
    {
        let ghost rest = models.subrange(i as int, models.len() as int);
        assert(rest[0] == list@[i as int]@);
        assert(rest.drop_first() =~= models.subrange(i + 1, models.len() as int));
        match &list[i] {
            XmlAttribute::Valid(k, value) => {
                if crate::text::same(k.as_str(), key) {
                    return Some(value.clone());
                }
            },
            XmlAttribute::Invalid(_) => {},
        }
        i = i + 1;
    }
    None
}

/// The first malformed attribute.
pub open spec fn first_invalid(list: Seq<AttributeModel>) -> Option<Seq<char>>
    decreases list.len(),
{
    if list.len() == 0 {
        None
    } else {
        match list[0] {
            Ok(_) => first_invalid(list.drop_first()),
            Err(message) => Some(message),
        }
    }
}

/// What is wrong with the attributes of a tag.
pub open spec fn attributes_fault(name: Seq<char>, content: Seq<char>) -> Option<Seq<char>> {
    if has_prefix(content, name) {
        first_invalid(xml_attributes(name, content))
    } else {
        Some("XML tag does not begin with its name"@)
    }
}

/// Succeeds when every attribute of the tag is well formed; otherwise says what is
/// wrong with the first that is not. A content that does not begin with the name of the
/// tag is refused.
pub fn validate_xml_attributes(name: &str, content: &str) -> (result: Result<(), String>)
    ensures
        match result {
            Ok(_) => attributes_fault(name@, content@) is None,
            Err(message) => attributes_fault(name@, content@) == Some(message@),
        },
{
    if !crate::text::starts_with(content, name) {
        return Err("XML tag does not begin with its name".to_owned());
    }
    let list = tag_attributes(name, content);
    let ghost models = attributes_of(list@);
    let mut i: usize = 0;
    assert(models.subrange(0, models.len() as int) =~= models);
    while i < list.len()
        invariant
            i <= list@.len(),
            models == attributes_of(list@),
            has_prefix(content@, name@),
            models == xml_attributes(name@, content@),
            first_invalid(models) == first_invalid(models.subrange(i as int, models.len() as int)),
        decreases list@.len() - i,
    {
        let ghost rest = models.subrange(i as int, models.len() as int);
        assert(rest[0] == list@[i as int]@);
        assert(rest.drop_first() =~= models.subrange(i + 1, models.len() as int));
        match &list[i] {
            XmlAttribute::Valid(_, _) => {},
            XmlAttribute::Invalid(message) => {
                return Err(message.clone());
            },
        }
        i = i + 1;
    }
    Ok(())
}

// ---------------------------------------------------------------------------
// Escaping
// ---------------------------------------------------------------------------

/// The name of the entity that stands for a character, where it needs one.
pub open spec fn entity_name(c: char) -> Option<Seq<char>> {
    if c == '<' {
        Some("lt"@)
    } else if c == '>' {
        Some("gt"@)
    } else if c == '&' {
        Some("amp"@)
    } else if c == '\'' {
        Some("apos"@)
    } else if c == '"' {
        Some("quot"@)
    } else {
        None
    }
}

/// A character as it is written between tags.
pub open spec fn escaped_char(c: char) -> Seq<char> {
    match entity_name(c) {
        Some(name) => "&"@ + name + ";"@,
        None => seq![c],
    }
}

/// `text` with the five special characters written as entities.
pub open spec fn escaped(text: Seq<char>) -> Seq<char>
    decreases text.len(),
{
    if text.len() == 0 {
        Seq::empty()
    } else {
        escaped(text.drop_last()) + escaped_char(text.last())
    }
}

/// `quick_xml::escape::escape`: `<`, `>`, `&`, `'` and `"` become `&lt;`, `&gt;`,
/// `&amp;`, `&apos;` and `&quot;`; every other character stays.
#[verifier::external_body]
pub(crate) fn xml_escape(value: &str) -> (text: String)
    ensures
        text@ == escaped(value@),
{
    quick_xml::escape::escape(value).into_owned()
}

/// The result of decoding that succeeds.
pub open spec fn decoded(text: Seq<char>) -> Result<Seq<char>, Seq<char>> {
    Ok(text)
}

/// What a text stands for once its entities are replaced, or why it cannot be.
pub uninterp spec fn unescaped(text: Seq<char>) -> Result<Seq<char>, Seq<char>>;

/// `quick_xml::escape::unescape`: replaces entities and character references. Text
/// without an ampersand stands for itself, and each predefined entity for its character.
#[verifier::external_body]
fn xml_unescape(text: &str) -> (result: Result<String, String>)
    ensures
        result_view(result) == unescaped(text@),
        (forall|i: int| 0 <= i < text@.len() ==> #[trigger] text@[i] != '&') ==> result_view(result)
            == decoded(text@),
        forall|c: char|
            entity_name(c) is Some && text@ == #[trigger] escaped_char(c) ==> result_view(result)
                == decoded(seq![c]),
{
    match quick_xml::escape::unescape(text) {
        Ok(value) => Ok(value.into_owned()),
        Err(error) => Err(error.to_string()),
    }
}

/// The characters of a text result.
pub open spec fn result_view(result: Result<String, String>) -> Result<Seq<char>, Seq<char>> {
    match result {
        Ok(text) => Ok(text@),
        Err(message) => Err(message@),
    }
}

/// A text without an ampersand.
pub open spec fn no_reference(text: Seq<char>) -> bool {
    forall|i: int| 0 <= i < text.len() ==> #[trigger] text[i] != '&'
}

/// What a text event stands for: itself where it holds no ampersand.
pub open spec fn text_value(raw: Seq<char>) -> Result<Seq<char>, Seq<char>> {
    if no_reference(raw) {
        Ok(raw)
    } else {
        unescaped(raw)
    }
}

/// The text that a text event stands for.
pub fn unescape_text(raw: &str) -> (result: Result<String, String>)
    ensures
        result_view(result) == text_value(raw@),
{
    xml_unescape(raw)
}

/// The character of a predefined entity.
pub open spec fn predefined(name: Seq<char>) -> Option<char> {
    if name == "lt"@ {
        Some('<')
    } else if name == "gt"@ {
        Some('>')
    } else if name == "amp"@ {
        Some('&')
    } else if name == "apos"@ {
        Some('\'')
    } else if name == "quot"@ {
        Some('"')
    } else {
        None
    }
}

/// What the reference `&name;` stands for.
pub open spec fn reference_value(name: Seq<char>) -> Result<Seq<char>, Seq<char>> {
    match predefined(name) {
        Some(c) => Ok(seq![c]),
        None => unescaped("&"@ + name + ";"@),
    }
}

/// The text that a reference event stands for.
pub fn decode_general_ref(name: &str) -> (result: Result<String, String>)
    ensures
        result_view(result) == reference_value(name@),
{
    let text = cat3("&", name, ";");
    let result = xml_unescape(text.as_str());
    proof {
        if predefined(name@) is Some {
            let c = predefined(name@)->0;
            assert(entity_name(c) == Some(name@));
            assert(text@ == escaped_char(c));
        }
    }
    result
}

} // verus!
