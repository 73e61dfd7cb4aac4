//! The `quick_xml` reader that the markup front end drives. What the reader
//! hands out is a function of the text it reads and of the requests it has
//! answered before, so each of its answers is named over those two values.
use vstd::prelude::*;
use quick_xml::events::Event;
use quick_xml::name::QName;
use quick_xml::reader::Reader;

verus! {

#[verifier::external_type_specification]
#[verifier::external_body]
#[verifier::reject_recursive_types(R)]
pub struct ExXmlReader<R>(Reader<R>);

#[verifier::external_type_specification]
#[verifier::external_body]
pub struct ExXmlEvent<'a>(Event<'a>);

/// The kind of event the reader handed out, as mathematical values; a reader
/// error carries the message it is reported with.
pub enum ReplyModel {
    Start,
    Empty,
    Text,
    CData,
    End,
    Eof,
    Other,
    Error(Seq<char>),
}

/// The kind of event the reader handed out.
#[derive(Debug)]
pub enum Reply {
    Start,
    Empty,
    Text,
    CData,
    End,
    Eof,
    Other,
    Error(String),
}

impl Reply {
    /// The reply as mathematical values.
    pub open spec fn model(&self) -> ReplyModel {
        match self {
            Reply::Start => ReplyModel::Start,
            Reply::Empty => ReplyModel::Empty,
            Reply::Text => ReplyModel::Text,
            Reply::CData => ReplyModel::CData,
            Reply::End => ReplyModel::End,
            Reply::Eof => ReplyModel::Eof,
            Reply::Other => ReplyModel::Other,
            Reply::Error(msg) => ReplyModel::Error(msg@),
        }
    }
}

/// A text result as mathematical values.
pub open spec fn text_result(r: Result<String, String>) -> Result<Seq<char>, Seq<char>> {
    match r {
        Ok(t) => Ok(t@),
        Err(msg) => Err(msg@),
    }
}

/// `(name, value)` pairs as mathematical values.
pub open spec fn pair_chars(pairs: Seq<(String, String)>) -> Seq<(Seq<char>, Seq<char>)> {
    Seq::new(pairs.len(), |i: int| (pairs[i].0@, pairs[i].1@))
}

/// A result holding `(name, value)` pairs as mathematical values.
pub open spec fn pairs_result(r: Result<Vec<(String, String)>, String>) -> Result<
    Seq<(Seq<char>, Seq<char>)>,
    Seq<char>,
> {
    match r {
        Ok(pairs) => Ok(pair_chars(pairs@)),
        Err(msg) => Err(msg@),
    }
}

/// What `Reader::read_event` hands out to the last of `requests` (each
/// request is `None` for the next event, or `Some(name)` for the raw text up
/// to the closing tag of `name`), on a reader that `Reader::from_str` opened on
/// `content` with `trim_text(true)`: the event's kind, or the error message
/// with the reader's byte position.
pub uninterp spec fn xml_reply(content: Seq<char>, requests: Seq<Option<Seq<char>>>) -> ReplyModel;

/// What `BytesStart::name`, decoded with `String::from_utf8_lossy`, gives of
/// the tag handed out to the last of `requests` (see `xml_reply`).
pub uninterp spec fn xml_tag_name(content: Seq<char>, requests: Seq<Option<Seq<char>>>) -> Seq<
    char,
>;

/// What reading `BytesStart::attributes` gives of the tag handed out to the
/// last of `requests` (see `xml_reply`): the `(name, value)` pairs in order,
/// or the message of the first malformed attribute.
pub uninterp spec fn xml_tag_attributes(
    content: Seq<char>,
    requests: Seq<Option<Seq<char>>>,
) -> Result<Seq<(Seq<char>, Seq<char>)>, Seq<char>>;

/// What `BytesText::unescape` gives of the text handed out to the last of
/// `requests` (see `xml_reply`): the text with entities resolved, or the
/// error message.
pub uninterp spec fn xml_unescaped_text(
    content: Seq<char>,
    requests: Seq<Option<Seq<char>>>,
) -> Result<Seq<char>, Seq<char>>;

/// The bytes of the CDATA section handed out to the last of `requests` (see
/// `xml_reply`), decoded with `String::from_utf8_lossy`.
pub uninterp spec fn xml_cdata_text(content: Seq<char>, requests: Seq<Option<Seq<char>>>) -> Seq<
    char,
>;

/// What `Reader::read_text` gives for the last of `requests`, which is
/// `Some(name)` (see `xml_reply`): the raw text up to the closing tag of
/// `name`, or the error message.
pub uninterp spec fn xml_text_until_close(
    content: Seq<char>,
    requests: Seq<Option<Seq<char>>>,
) -> Result<Seq<char>, Seq<char>>;

/// A `quick_xml` reader over a text, with the requests it has answered and
/// the event it handed out last. Only the functions of this module touch the
/// fields, and each one that moves the reader records its request, so
/// `requests` is the history that brought the reader to its state.
pub struct XmlSource<'a> {
    reader: Reader<&'a [u8]>,
    last: Option<Event<'a>>,
    content: Ghost<Seq<char>>,
    requests: Ghost<Seq<Option<Seq<char>>>>,
}

impl<'a> XmlSource<'a> {
    /// The text the reader reads.
    pub closed spec fn content(&self) -> Seq<char> {
        self.content@
    }

    /// The requests the reader has answered, oldest first.
    pub closed spec fn requests(&self) -> Seq<Option<Seq<char>>> {
        self.requests@
    }

    /// The kind of the event handed out to the last request, when that
    /// request asked for the next event.
    pub open spec fn last_reply(&self) -> Option<ReplyModel> {
        let requests = self.requests();
        if requests.len() > 0 && requests.last() is None {
            Some(xml_reply(self.content(), requests))
        } else {
            None
        }
    }
}

/// Calls `Reader::from_str` on `content` and sets `trim_text(true)`, so text
/// events lose surrounding whitespace and whitespace-only text is skipped.
/// The new reader has answered no request.
#[verifier::external_body]
pub(crate) fn open_xml_source<'a>(content: &'a str) -> (src: XmlSource<'a>)
    ensures
        src.content() == content@,
        src.requests() == Seq::<Option<Seq<char>>>::empty(),
{
    let mut reader = Reader::from_str(content);
    reader.config_mut().trim_text(true);
    XmlSource { reader, last: None, content: Ghost(content@), requests: Ghost(Seq::empty()) }
}

/// Calls `Reader::read_event` and keeps the event; the reply is its kind, or
/// the error message with the reader's byte position (`xml_reply`).
#[verifier::external_body]
pub(crate) fn read_reply(src: &mut XmlSource) -> (reply: Reply)
    ensures
        final(src).content() == old(src).content(),
        final(src).requests() == old(src).requests().push(None),
        reply.model() == xml_reply(final(src).content(), final(src).requests()),
{
    let event = match src.reader.read_event() {
        Ok(event) => event,
        Err(err) => return Reply::Error(format!("XML parse error at position {}: {:?}", src.reader.buffer_position(), err)),
    };
    let reply = match &event {
        Event::Start(_) => Reply::Start,
        Event::Empty(_) => Reply::Empty,
        Event::Text(_) => Reply::Text,
        Event::CData(_) => Reply::CData,
        Event::End(_) => Reply::End,
        Event::Eof => Reply::Eof,
        _ => Reply::Other,
    };
    src.last = Some(event);
    reply
}

/// Calls `BytesStart::name` on the tag handed out last and decodes it with
/// `String::from_utf8_lossy` (`xml_tag_name`).
#[verifier::external_body]
pub(crate) fn tag_name(src: &XmlSource) -> (name: String)
    requires
        src.last_reply() == Some(ReplyModel::Start) || src.last_reply() == Some(ReplyModel::Empty),
    ensures
        name@ == xml_tag_name(src.content(), src.requests()),
{
    match &src.last {
        Some(Event::Start(e)) | Some(Event::Empty(e)) => String::from_utf8_lossy(
            e.name().as_ref(),
        ).into_owned(),
        _ => String::new(),
    }
}

/// Walks `BytesStart::attributes` of the tag handed out last: each name is
/// decoded with `String::from_utf8_lossy`, each value with
/// `Attribute::unescape_value`, or lossily when that fails; the first
/// malformed attribute gives its message instead (`xml_tag_attributes`).
#[verifier::external_body]
pub(crate) fn tag_attributes(src: &XmlSource) -> (r: Result<Vec<(String, String)>, String>)
    requires
        src.last_reply() == Some(ReplyModel::Start) || src.last_reply() == Some(ReplyModel::Empty),
    ensures
        pairs_result(r) == xml_tag_attributes(src.content(), src.requests()),
{
    let mut pairs = Vec::new();
    if let Some(Event::Start(e)) | Some(Event::Empty(e)) = &src.last {
        for attr in e.attributes() {
            let attr = attr.map_err(|err| err.to_string())?;
            let key = String::from_utf8_lossy(attr.key.as_ref()).into_owned();
            let value = match attr.unescape_value() {
                Ok(v) => v.into_owned(),
                Err(_) => String::from_utf8_lossy(&attr.value).into_owned(),
            };
            pairs.push((key, value));
        }
    }
    Ok(pairs)
}

/// Calls `BytesText::unescape` on the text handed out last, which resolves
/// entity references; its error becomes its message (`xml_unescaped_text`).
#[verifier::external_body]
pub(crate) fn unescaped_text(src: &XmlSource) -> (r: Result<String, String>)
    requires
        src.last_reply() == Some(ReplyModel::Text),
    ensures
        text_result(r) == xml_unescaped_text(src.content(), src.requests()),
{
    match &src.last {
        Some(Event::Text(e)) => e.unescape().map(|t| t.into_owned()).map_err(|err| err.to_string()),
        _ => Ok(String::new()),
    }
}

/// Decodes the bytes of the CDATA section handed out last with
/// `String::from_utf8_lossy` (`xml_cdata_text`).
#[verifier::external_body]
pub(crate) fn cdata_text(src: &XmlSource) -> (t: String)
    requires
        src.last_reply() == Some(ReplyModel::CData),
    ensures
        t@ == xml_cdata_text(src.content(), src.requests()),
{
    match &src.last {
        Some(Event::CData(e)) => String::from_utf8_lossy(e).into_owned(),
        _ => String::new(),
    }
}

/// Calls `Reader::read_text`, which returns the raw text up to the closing
/// tag of the element `name` and moves past it; its error becomes its message
/// (`xml_text_until_close`).
#[verifier::external_body]
pub(crate) fn read_text_until_close(src: &mut XmlSource, name: &str) -> (r: Result<String, String>)
    ensures
        final(src).content() == old(src).content(),
        final(src).requests() == old(src).requests().push(Some(name@)),
        text_result(r) == xml_text_until_close(final(src).content(), final(src).requests()),
{
    src.reader.read_text(QName(name.as_bytes())).map(|t| t.into_owned()).map_err(
        |err| err.to_string(),
    )
}

} // verus!
