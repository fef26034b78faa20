//! The events a parser produces, and its errors.

use vstd::prelude::*;
use crate::attribute::{attrs_view, copy_attributes, AttrView, OwnedAttribute};
use crate::common::{copy_chars, dec_digits, decimal, push_all, TextPosition, XmlVersion};
use crate::name::{copy_opt_chars, opt_chars, NameView, OwnedName};
use crate::namespace::{Bindings, Namespace};

verus! {

/// The mathematical value of an event.
pub enum EventView {
    StartDocument { version: XmlVersion, encoding: Seq<char>, standalone: Option<bool> },
    EndDocument,
    ProcessingInstruction { name: Seq<char>, data: Option<Seq<char>> },
    StartElement { name: NameView, attributes: Seq<AttrView>, namespace: Bindings },
    EndElement { name: NameView },
    CData(Seq<char>),
    Comment(Seq<char>),
    Characters(Seq<char>),
    Whitespace(Seq<char>),
}

/// An event of an XML document.
#[derive(Clone, Debug, PartialEq, Eq)]
pub enum XmlEvent {
    /// The document starts; what its declaration says, or the defaults.
    StartDocument { version: XmlVersion, encoding: Vec<char>, standalone: Option<bool> },
    /// The document ends.
    EndDocument,
    /// A processing instruction `<?name data?>`.
    ProcessingInstruction { name: Vec<char>, data: Option<Vec<char>> },
    /// An opening tag, with its attributes and the namespace bindings in
    /// force.
    StartElement { name: OwnedName, attributes: Vec<OwnedAttribute>, namespace: Namespace },
    /// A closing tag, or the end of an empty-element tag.
    EndElement { name: OwnedName },
    /// A CDATA section.
    CData(Vec<char>),
    /// A comment.
    Comment(Vec<char>),
    /// Character data.
    Characters(Vec<char>),
    /// Character data that is white space only.
    Whitespace(Vec<char>),
}

impl View for XmlEvent {
    type V = EventView;

    open spec fn view(&self) -> EventView {
        match self {
            XmlEvent::StartDocument { version, encoding, standalone } => EventView::StartDocument {
                version: *version,
                encoding: encoding@,
                standalone: *standalone,
            },
            XmlEvent::EndDocument => EventView::EndDocument,
            XmlEvent::ProcessingInstruction { name, data } => EventView::ProcessingInstruction {
                name: name@,
                data: opt_chars(*data),
            },
            XmlEvent::StartElement { name, attributes, namespace } => EventView::StartElement {
                name: name@,
                attributes: attrs_view(attributes@),
                namespace: namespace@,
            },
            XmlEvent::EndElement { name } => EventView::EndElement { name: name@ },
            XmlEvent::CData(s) => EventView::CData(s@),
            XmlEvent::Comment(s) => EventView::Comment(s@),
            XmlEvent::Characters(s) => EventView::Characters(s@),
            XmlEvent::Whitespace(s) => EventView::Whitespace(s@),
        }
    }
}

impl XmlEvent {
    /// A copy of this event.
    pub fn duplicate(&self) -> (r: XmlEvent)
        ensures
            r@ == self@,
    {
        match self {
            XmlEvent::StartDocument { version, encoding, standalone } => XmlEvent::StartDocument {
                version: *version,
                encoding: copy_chars(encoding),
                standalone: *standalone,
            },
            XmlEvent::EndDocument => XmlEvent::EndDocument,
            XmlEvent::ProcessingInstruction { name, data } => XmlEvent::ProcessingInstruction {
                name: copy_chars(name),
                data: copy_opt_chars(data),
            },
            XmlEvent::StartElement { name, attributes, namespace } => XmlEvent::StartElement {
                name: name.duplicate(),
                attributes: copy_attributes(attributes),
                namespace: namespace.duplicate(),
            },
            XmlEvent::EndElement { name } => XmlEvent::EndElement { name: name.duplicate() },
            XmlEvent::CData(s) => XmlEvent::CData(copy_chars(s)),
            XmlEvent::Comment(s) => XmlEvent::Comment(copy_chars(s)),
            XmlEvent::Characters(s) => XmlEvent::Characters(copy_chars(s)),
            XmlEvent::Whitespace(s) => XmlEvent::Whitespace(copy_chars(s)),
        }
    }
}

/// The mathematical value of an error.
pub struct ErrorView {
    pub pos: TextPosition,
    pub msg: Seq<char>,
}

/// A syntax error, with the position where it was found.
#[derive(Clone, Debug, PartialEq, Eq)]
pub struct Error {
    pos: TextPosition,
    msg: Vec<char>,
}

impl View for Error {
    type V = ErrorView;

    closed spec fn view(&self) -> ErrorView {
        ErrorView { pos: self.pos, msg: self.msg@ }
    }
}

/// How an error is written: `row:column message`, both counted from one.
pub open spec fn error_repr(e: ErrorView) -> Seq<char> {
    dec_digits(e.pos.row as nat + 1) + seq![':'] + dec_digits(e.pos.column as nat + 1) + seq![
        ' ',
    ] + e.msg
}

fn decimal_plus_one(v: u64) -> (r: Vec<char>)
    ensures
        r@ == dec_digits(v as nat + 1),
    decreases v,
{
    if v < 9 {
        decimal(v + 1)
    } else if v % 10 < 9 {
        let mut r = decimal(v / 10);
        let d = decimal(v % 10 + 1);
        assert(dec_digits((v % 10 + 1) as nat) == seq![crate::common::dec_digit((v % 10 + 1) as nat)]);
        push_all(&mut r, &d);
        assert((v as nat + 1) / 10 == v as nat / 10);
        assert((v as nat + 1) % 10 == v as nat % 10 + 1);
        r
    } else {
        let mut r = decimal_plus_one(v / 10);
        let z = decimal(0);
        push_all(&mut r, &z);
        assert((v as nat + 1) / 10 == v as nat / 10 + 1);
        assert((v as nat + 1) % 10 == 0);
        r
    }
}

impl Error {
    /// An error found at `pos`.
    pub fn new(pos: TextPosition, msg: Vec<char>) -> (r: Error)
        ensures
            r@ == (ErrorView { pos, msg: msg@ }),
    {
        Error { pos, msg }
    }

    /// What went wrong.
    pub fn msg(&self) -> (r: &Vec<char>)
        ensures
            r@ == self@.msg,
    {
        &self.msg
    }

    /// Where it went wrong.
    pub fn position(&self) -> (r: TextPosition)
        ensures
            r == self@.pos,
    {
        self.pos
    }

    /// A copy of this error.
    pub fn duplicate(&self) -> (r: Error)
        ensures
            r@ == self@,
    {
        Error { pos: self.pos, msg: copy_chars(&self.msg) }
    }

    /// The error as text: `row:column message`, both counted from one.
    pub fn describe(&self) -> (r: Vec<char>)
        ensures
            r@ == error_repr(self@),
    {
        let mut r = decimal_plus_one(self.pos.row);
        r.push(':');
        let c = decimal_plus_one(self.pos.column);
        push_all(&mut r, &c);
        r.push(' ');
        push_all(&mut r, &self.msg);
        r
    }
}

/// The view of a parse result.
pub open spec fn result_view(r: Result<XmlEvent, Error>) -> Result<EventView, ErrorView> {
    match r {
        Ok(e) => Ok(e@),
        Err(e) => Err(e@),
    }
}

/// The view of an optional parse result.
pub open spec fn opt_result_view(r: Option<Result<XmlEvent, Error>>) -> Option<
    Result<EventView, ErrorView>,
> {
    match r {
        Some(x) => Some(result_view(x)),
        None => None,
    }
}

/// A copy of a parse result.
pub fn copy_result(r: &Result<XmlEvent, Error>) -> (c: Result<XmlEvent, Error>)
    ensures
        result_view(c) == result_view(*r),
{
    match r {
        Ok(e) => Ok(e.duplicate()),
        Err(e) => Err(e.duplicate()),
    }
}

} // verus!
