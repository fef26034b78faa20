//! The pull parser: turns tokens into events.

use vstd::prelude::*;
use crate::attribute::{attrs_view, AttrView, OwnedAttribute};
use crate::common::{
    copy_chars, is_xml10_char, is_xml11_char, push_all, spec_xml10_char, spec_xml11_char, text,
    TextPosition, XmlVersion,
};
use crate::name::{name_repr, opt_chars, spec_parse_name, NameView, OwnedName};
use crate::namespace::{ns_xml_prefix, ns_xmlns_prefix, stack_lookup, Bindings, NamespaceStack};
use crate::reader::config::ParserConfig2;
use crate::reader::events::{
    copy_result, opt_result_view, result_view, Error, ErrorView, EventView, XmlEvent,
};
use crate::reader::lexer::{
    lex_lt, lex_view, lexer_error_msg, token_text, CharReader, Lexer, Token,
};

mod inside_cdata;
mod laws;
mod inside_closing_tag_name;
mod inside_comment;
mod inside_declaration;
mod inside_doctype;
mod inside_opening_tag;
mod inside_processing_instruction;
mod inside_reference;
mod outside_tag;

verus! {

/// The result of a step of the parser.
pub type Result = std::result::Result<XmlEvent, Error>;

/// The view of a step's result.
pub type ResultView = std::result::Result<EventView, ErrorView>;

/// How far a document has got, as far as declarations are concerned.
#[derive(Copy, Clone, Debug, PartialEq, Eq, Structural)]
enum Encountered {
    Nothing,
    Declaration,
    Comment,
    Doctype,
    Element,
}

/// The order of `Encountered` values.
spec fn rank(e: Encountered) -> nat {
    match e {
        Encountered::Nothing => 0,
        Encountered::Declaration => 1,
        Encountered::Comment => 2,
        Encountered::Doctype => 3,
        Encountered::Element => 4,
    }
}

impl Encountered {
    fn rank(&self) -> (r: u8)
        ensures
            r == rank(*self),
    {
        match self {
            Encountered::Nothing => 0,
            Encountered::Declaration => 1,
            Encountered::Comment => 2,
            Encountered::Doctype => 3,
            Encountered::Element => 4,
        }
    }
}

/// What the parser is in the middle of.
#[derive(Copy, Clone, Debug, PartialEq, Eq, Structural)]
pub enum State {
    OutsideTag,
    InsideOpeningTag(OpeningTagSubstate),
    InsideClosingTag(ClosingTagSubstate),
    InsideProcessingInstruction(ProcessingInstructionSubstate),
    InsideComment,
    InsideCData,
    InsideDeclaration(DeclarationSubstate),
    InsideDoctype(DoctypeSubstate),
    InsideReference,
}

/// Where inside a document type declaration the parser is.
#[derive(Copy, Clone, Debug, PartialEq, Eq, Structural)]
pub enum DoctypeSubstate {
    Outside,
    String,
    InsideName,
    BeforeEntityName,
    EntityName,
    BeforeEntityValue,
    EntityValue,
    NumericReferenceStart,
    NumericReference,
    /// expansion
    PEReferenceInValue,
    PEReferenceInDtd,
    /// name definition
    PEReferenceDefinitionStart,
    PEReferenceDefinition,
    SkipDeclaration,
    Comment,
}

/// Where inside an opening tag the parser is.
#[derive(Copy, Clone, Debug, PartialEq, Eq, Structural)]
pub enum OpeningTagSubstate {
    InsideName,
    InsideTag,
    InsideAttributeName,
    AfterAttributeName,
    InsideAttributeValue,
}

/// Where inside a closing tag the parser is.
#[derive(Copy, Clone, Debug, PartialEq, Eq, Structural)]
pub enum ClosingTagSubstate {
    CTInsideName,
    CTAfterName,
}

/// Where inside a processing instruction the parser is.
#[derive(Copy, Clone, Debug, PartialEq, Eq, Structural)]
pub enum ProcessingInstructionSubstate {
    PIInsideName,
    PIInsideData,
}

/// Where inside the XML declaration the parser is.
#[derive(Copy, Clone, Debug, PartialEq, Eq, Structural)]
pub enum DeclarationSubstate {
    BeforeVersion,
    InsideVersion,
    AfterVersion,
    InsideVersionValue,
    AfterVersionValue,
    InsideEncoding,
    AfterEncoding,
    InsideEncodingValue,
    BeforeStandaloneDecl,
    InsideStandaloneDecl,
    AfterStandaloneDecl,
    InsideStandaloneDeclValue,
    AfterStandaloneDeclValue,
}

/// What a qualified name being read is for.
#[derive(Copy, Clone, Debug, PartialEq, Eq, Structural)]
enum QualifiedNameTarget {
    AttributeNameTarget,
    OpeningTagNameTarget,
    ClosingTagNameTarget,
}

/// Who gets a qualified name once it has been read.
#[derive(Copy, Clone, Debug, PartialEq, Eq, Structural)]
enum NameCallback {
    OpeningTagName,
    AttributeName,
    ClosingTagName,
    Declaration(DeclarationSubstate),
}

/// Who gets an attribute value once it has been read.
#[derive(Copy, Clone, Debug, PartialEq, Eq, Structural)]
enum ValueCallback {
    OpeningTagAttribute,
    Declaration(DeclarationSubstate),
}

/// The quote that opened an attribute value.
#[derive(Copy, Clone, Debug, PartialEq, Eq, Structural)]
enum QuoteToken {
    SingleQuoteToken,
    DoubleQuoteToken,
}

impl QuoteToken {
    fn from_token(t: &Token) -> (r: QuoteToken)
        requires
            *t == Token::SingleQuote || *t == Token::DoubleQuote,
        ensures
            r.as_spec_token() == *t,
    {
        match *t {
            Token::SingleQuote => QuoteToken::SingleQuoteToken,
            _ => QuoteToken::DoubleQuoteToken,
        }
    }

    spec fn as_spec_token(self) -> Token {
        match self {
            QuoteToken::SingleQuoteToken => Token::SingleQuote,
            QuoteToken::DoubleQuoteToken => Token::DoubleQuote,
        }
    }

    fn as_token(self) -> (r: Token)
        ensures
            r == self.as_spec_token(),
    {
        match self {
            QuoteToken::SingleQuoteToken => Token::SingleQuote,
            QuoteToken::DoubleQuoteToken => Token::DoubleQuote,
        }
    }
}

/// What markup read so far holds.
struct MarkupData {
    /// processing instruction name, or entity name in a DTD
    name: Vec<char>,
    /// reference content
    ref_data: Vec<char>,
    /// XML declaration version
    version: Option<XmlVersion>,
    /// XML declaration encoding
    encoding: Option<Vec<char>>,
    /// XML declaration standalone parameter
    standalone: Option<bool>,
    /// element name
    element_name: Option<OwnedName>,
    /// opening quote of an attribute value
    quote: Option<QuoteToken>,
    /// attribute name
    attr_name: Option<OwnedName>,
    /// attributes read so far
    attributes: Vec<OwnedAttribute>,
}

impl MarkupData {
    fn take_name(&mut self) -> (r: Vec<char>)
        ensures
            r@ == old(self).name@,
            final(self).name@.len() == 0,
            final(self).ref_data == old(self).ref_data,
            final(self).version == old(self).version,
            final(self).encoding == old(self).encoding,
            final(self).standalone == old(self).standalone,
            final(self).element_name == old(self).element_name,
            final(self).quote == old(self).quote,
            final(self).attr_name == old(self).attr_name,
            final(self).attributes == old(self).attributes,
            *final(self) == (MarkupData { name: final(self).name, ..*old(self) }),
    {
        let mut v: Vec<char> = Vec::new();
        std::mem::swap(&mut v, &mut self.name);
        v
    }

    fn take_ref_data(&mut self) -> (r: Vec<char>)
        ensures
            r@ == old(self).ref_data@,
            final(self).ref_data@.len() == 0,
            final(self).name == old(self).name,
            final(self).version == old(self).version,
            final(self).encoding == old(self).encoding,
            final(self).standalone == old(self).standalone,
            final(self).element_name == old(self).element_name,
            final(self).quote == old(self).quote,
            final(self).attr_name == old(self).attr_name,
            final(self).attributes == old(self).attributes,
            *final(self) == (MarkupData { ref_data: final(self).ref_data, ..*old(self) }),
    {
        let mut v: Vec<char> = Vec::new();
        std::mem::swap(&mut v, &mut self.ref_data);
        v
    }

    fn take_attributes(&mut self) -> (r: Vec<OwnedAttribute>)
        ensures
            r == old(self).attributes,
            final(self).attributes@.len() == 0,
            final(self).name == old(self).name,
            final(self).ref_data == old(self).ref_data,
            final(self).version == old(self).version,
            final(self).encoding == old(self).encoding,
            final(self).standalone == old(self).standalone,
            final(self).element_name == old(self).element_name,
            final(self).quote == old(self).quote,
            final(self).attr_name == old(self).attr_name,
            *final(self) == (MarkupData { attributes: final(self).attributes, ..*old(self) }),
    {
        let mut v: Vec<OwnedAttribute> = Vec::new();
        std::mem::swap(&mut v, &mut self.attributes);
        v
    }
}

/// How the stack of open elements may change with a step's result: an
/// element start opens one, an element end closes the innermost one, which
/// it names; nothing else changes it (after an error nothing is said).
pub open spec fn nesting_step(
    before: Seq<NameView>,
    after: Seq<NameView>,
    res: Option<ResultView>,
) -> bool {
    match res {
        Some(Ok(EventView::StartElement { name, .. })) => after == before.push(name),
        Some(Ok(EventView::EndElement { name })) => before.len() > 0 && before.last() == name
            && after == before.drop_last(),
        Some(Err(_)) => true,
        _ => after == before,
    }
}

/// A document, once started, stays started, and it starts exactly with the
/// step whose result is the start of the document.
pub open spec fn started_step(before: bool, after: bool, res: Option<ResultView>) -> bool {
    &&& before ==> after
    &&& (res matches Some(Ok(EventView::StartDocument { .. }))) <==> (!before && after)
}

/// The input left to read never grows.
pub(crate) open spec fn lexer_progress(a: Lexer, b: Lexer) -> bool {
    forall|rd: &CharReader|
        #![trigger b.measure(rd)]
        b.measure(rd) == a.measure(rd) || lex_lt(b.measure(rd), a.measure(rd))
}

/// An element that starts and then ends leaves the elements open as they
/// were before it started.
pub proof fn lemma_start_then_end_restores(
    a: Seq<NameView>,
    b: Seq<NameView>,
    c: Seq<NameView>,
    start: ResultView,
    end: ResultView,
)
    requires
        start is Ok && start->Ok_0 is StartElement,
        end is Ok && end->Ok_0 is EndElement,
        nesting_step(a, b, Some(start)),
        nesting_step(b, c, Some(end)),
    ensures
        c == a,
        end->Ok_0->EndElement_name == start->Ok_0->StartElement_name,
{
    assert(b.drop_last() =~= a);
}

/// Results that neither open nor close the document nor an element.
pub open spec fn plain_result(res: Option<ResultView>) -> bool {
    match res {
        Some(Ok(EventView::StartDocument { .. })) => false,
        Some(Ok(EventView::EndDocument)) => false,
        Some(Ok(EventView::StartElement { .. })) => false,
        Some(Ok(EventView::EndElement { .. })) => false,
        _ => true,
    }
}

/// The prefix by which a name is looked up: the empty one when it has none.
pub open spec fn prefix_key(n: NameView) -> Seq<char> {
    match n.prefix {
        Some(p) => p,
        None => Seq::<char>::empty(),
    }
}

/// A name with the namespace its prefix is bound to in `nst` (none for the
/// empty namespace), if the prefix is bound.
pub open spec fn resolve_name(n: NameView, nst: Seq<Bindings>) -> Option<NameView> {
    match stack_lookup(nst, prefix_key(n)) {
        None => None,
        Some(uri) => Some(
            NameView {
                local_name: n.local_name,
                namespace: if uri.len() == 0 {
                    None
                } else {
                    Some(uri)
                },
                prefix: n.prefix,
            },
        ),
    }
}

/// An attribute with the namespace its prefix is bound to, if it has a
/// prefix; unchanged if it has none; nothing if its prefix is unbound.
pub open spec fn resolve_attr(a: AttrView, nst: Seq<Bindings>) -> Option<AttrView> {
    match a.name.prefix {
        None => Some(a),
        Some(_) => match resolve_name(a.name, nst) {
            None => None,
            Some(n) => Some(AttrView { name: n, value: a.value }),
        },
    }
}

/// Two attribute names that an element may not carry both: the same local
/// name with the same prefix, or both without one.
pub open spec fn same_attr_name(a: NameView, b: NameView) -> bool {
    a.prefix == b.prefix && a.local_name == b.local_name
}

/// No two of the attributes have the same name.
pub open spec fn distinct_attr_names(s: Seq<AttrView>) -> bool {
    forall|i: int, j: int|
        0 <= i < j < s.len() ==> !same_attr_name(#[trigger] s[i].name, #[trigger] s[j].name)
}

/// Every attribute's prefix, where it has one, is bound.
pub open spec fn all_resolve(attrs: Seq<AttrView>, nst: Seq<Bindings>) -> bool {
    forall|i: int| 0 <= i < attrs.len() ==> (#[trigger] resolve_attr(attrs[i], nst)) is Some
}

/// The attributes with their prefixes resolved.
pub open spec fn resolved_attrs(attrs: Seq<AttrView>, nst: Seq<Bindings>) -> Seq<AttrView> {
    attrs.map_values(|a: AttrView| resolve_attr(a, nst).unwrap())
}

/// `i` is the first attribute whose prefix is unbound.
pub open spec fn first_unbound(attrs: Seq<AttrView>, nst: Seq<Bindings>, i: int) -> bool {
    &&& 0 <= i < attrs.len()
    &&& resolve_attr(attrs[i], nst) is None
    &&& forall|j: int| 0 <= j < i ==> (#[trigger] resolve_attr(attrs[j], nst)) is Some
}

/// The message for a name read where a qualified name was expected.
pub open spec fn qname_invalid_msg(s: Seq<char>) -> Seq<char> {
    "Qualified name is invalid: "@ + s
}

/// The character token `t` goes on with a name whose characters so far are
/// `buf`.
pub open spec fn continues_name(t: Token, buf: Seq<char>, separator_read: bool) -> bool {
    match t {
        Token::Character(c) => if c == ':' {
            buf.len() > 0 && !separator_read
        } else {
            (buf.len() == 0 && crate::common::spec_name_start_char(c)) || (buf.len() > 0
                && crate::common::spec_name_char(c))
        },
        _ => false,
    }
}

/// The parser is inside an opening tag, or in a reference that returns
/// there.
spec fn in_element_markup(p: PullParser) -> bool {
    (p.st is InsideOpeningTag) || (p.state_after_reference is InsideOpeningTag)
}

/// `b` is `a` with only its lexer moved on: reading the text `rest` gives
/// `out` and leaves `next_rest` unread, as the lexer's model says.
pub closed spec fn lexer_reads(
    a: PullParser,
    rest: Seq<char>,
    b: PullParser,
    next_rest: Seq<char>,
    out: std::result::Result<Option<Token>, ErrorView>,
) -> bool {
    &&& b == (PullParser { lexer: b.lexer, ..a })
    &&& a.lexer.lexes(rest, b.lexer, next_rest, out)
}

/// The positions of events still to be reported once one is: the oldest is
/// dropped, or the only one moves to where the lexer is.
pub closed spec fn popped_positions(a: PullParser) -> Seq<TextPosition> {
    if a.pos@.len() > 1 {
        a.pos@.drop_first()
    } else {
        seq![a.lexer.spec_position()]
    }
}

/// `f` is `a` after reporting `res`: its positions move on, and an error
/// becomes the final result.
pub closed spec fn settles(a: PullParser, f: PullParser, res: ResultView) -> bool {
    &&& f == (PullParser { pos: f.pos, final_result: f.final_result, ..a })
    &&& f.pos@ == popped_positions(a)
    &&& res is Ok ==> f.final_result == a.final_result
    &&& res is Err ==> f.final_view() == Some(res)
}

impl PullParser {
    /// Reading `rest`, the lexer hands a token over, and the token, as the
    /// parser's state says, gives no event; `next_rest` is left unread.
    pub closed spec fn quiet_token(
        self,
        rest: Seq<char>,
        next: PullParser,
        next_rest: Seq<char>,
    ) -> bool {
        exists|l: PullParser, t: Token|
            #![trigger lexer_reads(self, rest, l, next_rest, Ok(Some(t))), l.token_post(t, next, None)]
            lexer_reads(self, rest, l, next_rest, Ok(Some(t))) && l.token_post(t, next, None)
    }

    /// The states in `trace`, each with the text it has not read yet, from
    /// this one to `next`, each lead to the following by a token that gives
    /// no event.
    pub closed spec fn quiet_run(
        self,
        rest: Seq<char>,
        next: PullParser,
        next_rest: Seq<char>,
        trace: Seq<(PullParser, Seq<char>)>,
    ) -> bool {
        &&& trace.len() >= 1
        &&& trace[0] == (self, rest)
        &&& trace.last() == (next, next_rest)
        &&& forall|i: int|
            0 <= i < trace.len() - 1 ==> (#[trigger] trace[i]).0.quiet_token(
                trace[i].1,
                trace[i + 1].0,
                trace[i + 1].1,
            )
    }

    /// What the end of the text gives in this state.
    pub closed spec fn eof_outcome(self) -> ResultView {
        let pos = self.lexer.spec_position();
        if self.est@.len() == 0 {
            if self.encountered == Encountered::Element && self.st == State::OutsideTag {
                Ok(EventView::EndDocument)
            } else if rank(self.encountered) < 4 {
                Err(ErrorView { pos, msg: "Unexpected end of stream: no root element found"@ })
            } else {
                Err(ErrorView { pos, msg: "Unexpected end of stream"@ })
            }
        } else {
            Err(ErrorView { pos, msg: "Unexpected end of stream: still inside the root element"@ })
        }
    }

    /// `f` is this state after the end of the text gave `res`: the positions
    /// move on; an end of stream inside the root element that the parser is
    /// told to go on after lets the lexer go on, anything else becomes the
    /// final result.
    pub closed spec fn eof_settles(self, f: PullParser, res: ResultView) -> bool {
        &&& f == (PullParser { pos: f.pos, final_result: f.final_result, lexer: f.lexer, ..self })
        &&& f.pos@ == popped_positions(self)
        &&& if self.est@.len() > 0 && self.config.c.ignore_end_of_stream {
            &&& f.final_result is None
            &&& f.lexer == self.lexer.resumed()
        } else {
            &&& f.final_view() == Some(res)
            &&& f.lexer == self.lexer
        }
    }

    /// How a call that finds no event waiting, with `rest` not read yet,
    /// reaches its result `res` and the state `fin`, with `fin_rest` not
    /// read: the namespace frame of an empty element is closed first; then
    /// tokens are read, each handled as the parser's state says, until one
    /// gives an event or an error, the lexer reports an error, or the text
    /// ends.
    pub closed spec fn produces(
        self,
        rest: Seq<char>,
        fin: PullParser,
        fin_rest: Seq<char>,
        res: ResultView,
    ) -> bool {
        exists|
            s0: PullParser,
            tr: Seq<(PullParser, Seq<char>)>,
            m: PullParser,
            mr: Seq<char>,
            l: PullParser,
        |
            #![trigger s0.quiet_run(rest, m, mr, tr), m.finishes(mr, l, fin, fin_rest, res)]
            {
                &&& s0 == (PullParser { nst: s0.nst, pop_namespace: false, ..self })
                &&& s0.nst@ == if self.pop_namespace && self.nst@.len() > 0 {
                    self.nst@.drop_last()
                } else {
                    self.nst@
                }
                &&& s0.quiet_run(rest, m, mr, tr)
                &&& m.finishes(mr, l, fin, fin_rest, res)
            }
    }

    /// From this state, with `rest` not read yet, the lexer moves on to give
    /// `l`, and then `res` and the state `fin`, with `fin_rest` not read,
    /// come from a token that gives an event or an error, from an error of
    /// the lexer, or from the end of the text.
    pub closed spec fn finishes(
        self,
        rest: Seq<char>,
        l: PullParser,
        fin: PullParser,
        fin_rest: Seq<char>,
        res: ResultView,
    ) -> bool {
        ||| exists|t: Token, a: PullParser|
            #![trigger lexer_reads(self, rest, l, fin_rest, Ok(Some(t))), l.token_post(t, a, Some(res))]
            lexer_reads(self, rest, l, fin_rest, Ok(Some(t))) && l.token_post(t, a, Some(res))
                && settles(a, fin, res)
        ||| res is Err && lexer_reads(self, rest, l, fin_rest, Err(res->Err_0)) && fin == (
        PullParser { final_result: fin.final_result, ..l }) && fin.final_view() == Some(res)
        ||| lexer_reads(self, rest, l, fin_rest, Ok(None)) && res == l.eof_outcome()
            && l.eof_settles(fin, res)
    }
}

/// The view of a list of names.
pub open spec fn names_view(s: Seq<OwnedName>) -> Seq<NameView> {
    s.map_values(|n: OwnedName| n@)
}

/// The pull parser.
pub struct PullParser {
    config: ParserConfig2,
    lexer: Lexer,
    st: State,
    state_after_reference: State,
    buf: Vec<char>,
    /// From DTD internal subset
    entities: Vec<(Vec<char>, Vec<char>)>,
    nst: NamespaceStack,
    data: MarkupData,
    final_result: Option<Result>,
    next_event: Option<Result>,
    est: Vec<OwnedName>,
    pos: Vec<TextPosition>,
    encountered: Encountered,
    inside_whitespace: bool,
    read_prefix_separator: bool,
    pop_namespace: bool,
}

impl PullParser {
    /// The parser's invariant: a position is always there, the lexer and the
    /// namespace stack are well formed, and the only event that waits is the
    /// end of an empty element.
    pub closed spec fn wf(&self) -> bool {
        &&& self.pos@.len() >= 1
        &&& self.lexer.wf()
        &&& self.nst.wf()
        &&& distinct_attr_names(attrs_view(self.data.attributes@))
        &&& crate::namespace::unique_keys(crate::namespace::pairs_view(self.entities@))
        &&& in_element_markup(*self) ==> self.encountered == Encountered::Element
        &&& match self.next_event {
            None => true,
            Some(Ok(XmlEvent::EndElement { .. })) => true,
            _ => false,
        }
    }

    /// The elements opened and not closed yet, outermost first, counting an
    /// empty element whose end has not been reported yet.
    pub closed spec fn open_elements(&self) -> Seq<NameView> {
        names_view(self.est@) + match self.next_event {
            Some(Ok(XmlEvent::EndElement { name })) => seq![name@],
            _ => Seq::<NameView>::empty(),
        }
    }

    /// The position of the last event produced.
    pub closed spec fn last_event_position(&self) -> TextPosition {
        self.pos@[0]
    }

    /// No event waits to be reported.
    pub closed spec fn no_pending_event(&self) -> bool {
        self.next_event is None
    }

    /// The start of the document has been reported.
    pub closed spec fn document_started(&self) -> bool {
        rank(self.encountered) >= 1
    }

    /// The result that every later call gives, once parsing has ended.
    pub closed spec fn final_view(&self) -> Option<ResultView> {
        opt_result_view(self.final_result)
    }

    /// The lexer is in text and holds no character back.
    pub closed spec fn lexer_idle(&self) -> bool {
        self.lexer.idle()
    }

    /// The name of the encoding the document is read in, as the start of
    /// the document reports it when no declaration names one.
    pub closed spec fn encoding(&self) -> Seq<char> {
        self.lexer.spec_encoding()
    }

    /// The root element has been met.
    pub closed spec fn root_seen(&self) -> bool {
        self.encountered == Encountered::Element
    }

    /// The parser is in text, outside any markup.
    pub closed spec fn in_text(&self) -> bool {
        self.st == State::OutsideTag
    }

    /// The event that waits to be reported: the end of an empty element.
    pub closed spec fn pending_event(&self) -> Option<ResultView> {
        opt_result_view(self.next_event)
    }

    /// `next` is this state with the waiting event taken out.
    pub closed spec fn takes_pending(self, next: PullParser) -> bool {
        next == (PullParser { next_event: None, ..self })
    }

    /// The namespace bindings in force, one frame per open element below
    /// the frame of the predefined prefixes.
    pub closed spec fn namespaces(&self) -> Seq<Bindings> {
        self.nst@
    }

    /// Nothing of any markup has been read or kept: the buffer, the entities
    /// of a document type declaration and all that markup read so far holds
    /// are empty, no quote is open, the parser is in text and no namespace
    /// frame waits to be closed.
    pub closed spec fn holds_nothing(&self) -> bool {
        &&& self.buf@.len() == 0
        &&& self.entities@.len() == 0
        &&& self.data.name@.len() == 0
        &&& self.data.ref_data@.len() == 0
        &&& self.data.version is None
        &&& self.data.encoding is None
        &&& self.data.standalone is None
        &&& self.data.element_name is None
        &&& self.data.quote is None
        &&& self.data.attr_name is None
        &&& self.data.attributes@.len() == 0
        &&& self.st == State::OutsideTag
        &&& self.state_after_reference == State::OutsideTag
        &&& self.inside_whitespace
        &&& !self.read_prefix_separator
        &&& !self.pop_namespace
        &&& self.est@.len() == 0
    }

    /// The options and limits the parser was made with.
    pub closed spec fn configuration(&self) -> ParserConfig2 {
        self.config
    }

    /// The parser reports an end of stream inside the root element as an
    /// error it can go on after.
    pub open spec fn ignores_eof(&self) -> bool {
        self.configuration().c.ignore_end_of_stream
    }

    /// What a step may do to the parser: keep it well formed, keep its
    /// options and its final result, open and close elements as its result
    /// says, start the document only with the start event, never report the
    /// end of the document, never leave more input to read, and leave an
    /// event waiting only after an element start.
    pub closed spec fn step(self, next: PullParser, res: Option<ResultView>) -> bool {
        &&& next.wf()
        &&& next.config == self.config
        &&& next.final_result == self.final_result
        &&& nesting_step(self.open_elements(), next.open_elements(), res)
        &&& started_step(self.document_started(), next.document_started(), res)
        &&& res != Some(Ok::<EventView, ErrorView>(EventView::EndDocument))
        &&& lexer_progress(self.lexer, next.lexer)
        &&& next.next_event is Some ==> (res matches Some(Ok(EventView::StartElement { .. })))
        &&& res matches Some(Ok(EventView::StartElement { attributes, .. }))
            ==> distinct_attr_names(attributes)
        &&& (res matches Some(Ok(EventView::StartElement { .. }))) ==> self.document_started()
    }

    /// A step that changes none of what the laws speak of.
    closed spec fn quiet(self, next: PullParser) -> bool {
        &&& next.pos@.len() >= 1
        &&& distinct_attr_names(attrs_view(next.data.attributes@))
        &&& crate::namespace::unique_keys(crate::namespace::pairs_view(next.entities@))
        &&& in_element_markup(next) ==> next.encountered == Encountered::Element
        &&& next.config == self.config
        &&& next.final_result == self.final_result
        &&& next.est@ == self.est@
        &&& next.next_event == self.next_event
        &&& next.encountered == self.encountered
        &&& next.lexer == self.lexer
        &&& next.nst == self.nst
    }

    /// A step that may record more of the document and open a namespace
    /// frame, and reports the start of the document exactly when it starts.
    proof fn lemma_encounter_step(self, next: PullParser, res: Option<ResultView>)
        requires
            next.entities == self.entities,
            self.wf(),
            in_element_markup(next) ==> next.encountered == Encountered::Element,
            next.data.attributes == self.data.attributes,
            self.next_event is None,
            next.pos@.len() >= 1,
            next.config == self.config,
            next.final_result == self.final_result,
            next.est@ == self.est@,
            next.next_event == self.next_event,
            next.lexer == self.lexer,
            next.nst.wf(),
            rank(next.encountered) >= rank(self.encountered),
            (res matches Some(Ok(EventView::StartDocument { .. }))) <==> (rank(self.encountered)
                < 1 && rank(next.encountered) >= 1),
            (res matches Some(Ok(EventView::StartDocument { .. }))) || plain_result(res),
        ensures
            self.step(next, res),
    {
        assert(self.open_elements() =~= next.open_elements());
    }

    /// A step that only feeds the lexer more to read.
    proof fn lemma_lexer_step(self, next: PullParser, res: Option<ResultView>)
        requires
            next.entities == self.entities,
            self.wf(),
            in_element_markup(next) ==> next.encountered == Encountered::Element,
            next.data.attributes == self.data.attributes,
            self.next_event is None,
            next.pos@.len() >= 1,
            next.config == self.config,
            next.final_result == self.final_result,
            next.est@ == self.est@,
            next.next_event == self.next_event,
            next.encountered == self.encountered,
            next.nst == self.nst,
            next.lexer.wf(),
            lexer_progress(self.lexer, next.lexer),
            plain_result(res),
        ensures
            self.step(next, res),
    {
        assert(self.open_elements() =~= next.open_elements());
    }

    proof fn lemma_quiet_then_step(self, mid: PullParser, next: PullParser, res: Option<ResultView>)
        requires
            self.quiet(mid),
            mid.step(next, res),
        ensures
            self.step(next, res),
    {
        assert(self.open_elements() =~= mid.open_elements());
    }

    proof fn lemma_quiet_step(self, next: PullParser, res: Option<ResultView>)
        requires
            self.wf(),
            self.next_event is None,
            self.quiet(next),
            plain_result(res),
        ensures
            self.step(next, res),
    {
    }

    /// What reading the name of a closing tag does with `t`: as reading any
    /// qualified name does, and once the name ends, as its closing tag says.
    pub closed spec fn closing_tag_name_post(self, t: Token, next: PullParser, r: Option<
        ResultView,
    >) -> bool {
        &&& self.qname_post(t, QualifiedNameTarget::ClosingTagNameTarget, next, r)
        &&& (self.qname_ends(t, QualifiedNameTarget::ClosingTagNameTarget) && spec_parse_name(
            self.buf@,
        ) is Some) ==> self.closing_name_post(t, spec_parse_name(self.buf@)->Some_0, next, r)
    }

    /// Where the lexer's current token started.
    pub closed spec fn lexer_position(self) -> TextPosition {
        self.lexer.spec_position()
    }

    /// What reporting the end of the element whose name has been read does:
    /// the name is taken, and only the open elements, the state and the
    /// namespace frame to close may change besides.
    pub closed spec fn end_element_read_post(self, next: PullParser, r: Option<ResultView>) -> bool {
        match self.data.element_name {
            None => r is None && next == self,
            Some(n) => {
                &&& self.end_element_post(n@, next, r)
                &&& next == (PullParser {
                    est: next.est,
                    st: next.st,
                    pop_namespace: next.pop_namespace,
                    data: next.data,
                    ..self
                })
                &&& next.data == (MarkupData { element_name: None, ..self.data })
            },
        }
    }

    /// What the value `value` of the attribute whose name has been read
    /// does, where the attribute declares no namespace: an attribute of that
    /// name read before in the tag is an error; otherwise the attribute is
    /// kept for the element.
    spec fn attribute_value_post(
        self,
        value: Seq<char>,
        next: PullParser,
        r: Option<ResultView>,
    ) -> bool {
        match self.data.attr_name {
            None => r is None,
            Some(n) => {
                let declares = n@.prefix == Some("xmlns"@) || (n@.prefix is None
                    && n@.local_name == "xmlns"@);
                &&& declares ==> self.namespace_attribute_post(n@, value, next, r)
                &&& !declares ==> if exists|i: int|
                    0 <= i < self.data.attributes@.len() && same_attr_name(
                        #[trigger] self.data.attributes@[i].name@,
                        n@,
                    ) {
                    r == Some(
                        Err::<EventView, ErrorView>(
                            ErrorView {
                                pos: self.lexer.spec_position(),
                                msg: "Attribute '"@ + name_repr(n@) + "' is redefined"@,
                            },
                        ),
                    )
                } else {
                    &&& r is None
                    &&& attrs_view(next.data.attributes@) == attrs_view(
                        self.data.attributes@,
                    ).push(AttrView { name: n@, value })
                    &&& next.st == State::InsideOpeningTag(OpeningTagSubstate::InsideTag)
                    &&& next == (PullParser {
                        st: next.st,
                        data: next.data,
                        buf: next.buf,
                        ..self
                    })
                    &&& next.data == (MarkupData {
                        attributes: next.data.attributes,
                        attr_name: None,
                        quote: next.data.quote,
                        ..self.data
                    })
                }
            },
        }
    }

    /// What the attribute `n` with the value `value` does where it declares
    /// a namespace: `xmlns:p` binds `p` and `xmlns` the default namespace in
    /// the element's frame, but `xmlns` cannot be rebound, `xml` only to its
    /// own namespace, a prefix cannot be bound to nothing, and the default
    /// namespace cannot be that of `xml` or `xmlns`.
    spec fn namespace_attribute_post(
        self,
        n: NameView,
        value: Seq<char>,
        next: PullParser,
        r: Option<ResultView>,
    ) -> bool {
        let err = |m: Seq<char>|
            Some(Err::<EventView, ErrorView>(ErrorView { pos: self.lexer.spec_position(), msg: m }));
        let ln = n.local_name;
        let binds = |prefix: Seq<char>|
            {
                &&& r is None
                &&& next.nst@ == crate::namespace::stack_put(self.nst@, prefix, value)
                &&& next == (PullParser {
                    st: State::InsideOpeningTag(OpeningTagSubstate::InsideTag),
                    nst: next.nst,
                    data: next.data,
                    buf: next.buf,
                    ..self
                })
                &&& next.data == (MarkupData {
                    attr_name: None,
                    quote: next.data.quote,
                    ..self.data
                })
            };
        if n.prefix is Some {
            if ln == "xmlns"@ {
                r == err("Cannot redefine prefix 'xmlns'"@)
            } else if ln == "xml"@ && value != "http://www.w3.org/XML/1998/namespace"@ {
                r == err("Prefix 'xml' cannot be rebound to another value"@)
            } else if value.len() == 0 {
                r == err("Cannot undefine prefix '"@ + ln + "'"@)
            } else {
                binds(ln)
            }
        } else if value == "http://www.w3.org/2000/xmlns/"@ || value
            == "http://www.w3.org/XML/1998/namespace"@ {
            r == err("Namespace '"@ + value + "' cannot be default"@)
        } else {
            binds(Seq::<char>::empty())
        }
    }

    /// What a token `t` does while an attribute value is read: white space
    /// before the opening quote is skipped, a quote opens the value, the
    /// matching quote ends it, `&` starts a reference, `<` is an error, and
    /// any other token is part of the value.
    spec fn attribute_value_token_post(
        self,
        t: Token,
        on_value: ValueCallback,
        next: PullParser,
        r: Option<ResultView>,
    ) -> bool {
        let q = self.data.quote;
        let skip = match t {
            Token::Character(c) => q is None && crate::common::spec_whitespace_char(c),
            _ => false,
        };
        let quote = t == Token::SingleQuote || t == Token::DoubleQuote;
        &&& skip ==> r is None && next == self
        &&& (quote && q is None) ==> r is None && next.data.quote == Some(
            if t == Token::SingleQuote {
                QuoteToken::SingleQuoteToken
            } else {
                QuoteToken::DoubleQuoteToken
            },
        ) && next.buf == self.buf && next == (PullParser { data: next.data, ..self })
            && next.data == (MarkupData { quote: next.data.quote, ..self.data })
        &&& (quote && q is Some && q->Some_0.as_spec_token() != t) ==> r is None && next.buf@
            == self.buf@ + token_text(t) && next.data.quote == q && next == (PullParser {
            buf: next.buf,
            ..self
        })
        // the closing quote ends the value: the quote is forgotten and the
        // buffer emptied before the value is handed on
        &&& (quote && q is Some && q->Some_0.as_spec_token() == t) ==> next.data.quote is None
            && next.buf@.len() == 0
        &&& (quote && q is Some && q->Some_0.as_spec_token() == t && on_value
            == ValueCallback::OpeningTagAttribute) ==> self.attribute_value_post(
            self.buf@,
            next,
            r,
        )
        &&& on_value matches ValueCallback::Declaration(ds) ==> ((quote && q is Some
            && q->Some_0.as_spec_token() == t) ==> self.declaration_value_post(
            self.buf@,
            ds,
            next,
            r,
        ))
        &&& (t == Token::ReferenceStart && q is Some) ==> r is None && next.st
            == State::InsideReference && next.state_after_reference == self.st
            && next.buf == self.buf && next.data.quote == q && next == (PullParser {
            st: State::InsideReference,
            state_after_reference: self.st,
            ..self
        })
        &&& (t == Token::OpeningTagStart || (q is None && !skip && !quote)) ==> r == Some(
            Err::<EventView, ErrorView>(
                ErrorView {
                    pos: self.lexer.spec_position(),
                    msg: "Unexpected token inside attribute value: "@ + token_text(t),
                },
            ),
        ) && next.buf == self.buf && next.data.quote == q
        &&& (q is Some && !quote && t != Token::ReferenceStart && t
            != Token::OpeningTagStart) ==> r is None && next.buf@ == self.buf@
            + token_text(t) && next.st == self.st && next.data.quote == q && next == (
        PullParser { buf: next.buf, ..self })
    }

    /// What reporting the start of the element `n` does, with the
    /// attributes read for it: a prefix of the name or of an attribute that
    /// is not bound is an error; otherwise the element starts with its name
    /// and attributes resolved and the bindings in force, and the parser
    /// goes back to text (an empty element's end then waits).
    spec fn start_element_post(
        self,
        n: NameView,
        emit_end: bool,
        next: PullParser,
        r: Option<ResultView>,
    ) -> bool {
        let attrs = attrs_view(self.data.attributes@);
        let nst = self.nst@;
        match resolve_name(n, nst) {
            None => {
                &&& r == Some(
                    Err::<EventView, ErrorView>(
                        ErrorView {
                            pos: self.lexer.spec_position(),
                            msg: "Element "@ + name_repr(n) + " prefix is unbound"@,
                        },
                    ),
                )
                &&& next.est@ == self.est@
                &&& next.next_event is None
                &&& next.st == self.st
                &&& next.pop_namespace == self.pop_namespace
            },
            Some(rn) => {
                &&& !all_resolve(attrs, nst) ==> next.est@ == self.est@ && next.next_event is None
                    && next.st == self.st && next.pop_namespace == self.pop_namespace
                &&& !all_resolve(attrs, nst) ==> exists|i: int|
                    first_unbound(attrs, nst, i) && r == Some(
                        Err::<EventView, ErrorView>(
                            ErrorView {
                                pos: self.lexer.spec_position(),
                                msg: "Attribute "@ + name_repr(attrs[i].name)
                                    + " prefix is unbound"@,
                            },
                        ),
                    )
                &&& all_resolve(attrs, nst) ==> {
                    &&& r matches Some(Ok(EventView::StartElement { name, attributes, namespace }))
                        && name == rn && attributes == resolved_attrs(attrs, nst) && forall|
                        k: Seq<char>,
                    |
                        #![trigger crate::namespace::lookup(namespace, k)]
                        crate::namespace::lookup(namespace, k) == stack_lookup(nst, k)
                    &&& next.st == State::OutsideTag
                    &&& next.data.attributes@.len() == 0
                    &&& next.data.element_name is None
                    // nothing else changes but the open elements, the
                    // waiting end of an empty element and what was read of
                    // the name
                    &&& next == (PullParser {
                        st: next.st,
                        data: next.data,
                        est: next.est,
                        next_event: next.next_event,
                        pop_namespace: next.pop_namespace,
                        buf: next.buf,
                        read_prefix_separator: next.read_prefix_separator,
                        ..self
                    })
                    &&& next.data == (MarkupData {
                        element_name: None,
                        attributes: next.data.attributes,
                        ..self.data
                    })
                    // an element that goes on is pushed on the stack; the
                    // end of an empty one waits to be reported
                    &&& !emit_end ==> {
                        &&& next.est@.len() == self.est@.len() + 1
                        &&& next.est@.drop_last() == self.est@
                        &&& next.est@.last()@ == rn
                        &&& next.next_event is None
                        &&& next.pop_namespace == self.pop_namespace
                    }
                    &&& emit_end ==> {
                        &&& next.est@ == self.est@
                        &&& next.next_event matches Some(Ok(XmlEvent::EndElement { name }))
                            && name@ == rn
                        &&& next.pop_namespace
                    }
                }
            },
        }
    }

    /// What the name `n` of an opening tag, followed by `t`, does: a
    /// reserved prefix is an error; `>` and `/>` start the element; white
    /// space waits for attributes.
    spec fn opening_name_post(self, t: Token, n: NameView, next: PullParser, r: Option<
        ResultView,
    >) -> bool {
        let err = |m: Seq<char>|
            Some(Err::<EventView, ErrorView>(ErrorView { pos: self.lexer.spec_position(), msg: m }));
        if n.prefix == Some(ns_xml_prefix()) || n.prefix == Some(ns_xmlns_prefix()) {
            r == err("'Some(\""@ + n.prefix->Some_0 + "\")' cannot be an element name prefix"@)
        } else if t == Token::TagEnd {
            self.start_element_post(n, false, next, r)
        } else if t == Token::EmptyTagEnd {
            self.start_element_post(n, true, next, r)
        } else if t is Character && crate::common::spec_whitespace_char(t->Character_0) {
            &&& r is None
            &&& next.st == State::InsideOpeningTag(OpeningTagSubstate::InsideTag)
            &&& next.data.element_name matches Some(e) && e@ == n
            &&& next == (PullParser {
                st: next.st,
                data: next.data,
                buf: next.buf,
                read_prefix_separator: next.read_prefix_separator,
                ..self
            })
            &&& next.data == (MarkupData { element_name: next.data.element_name, ..self.data })
        } else {
            r == err("Unexpected token inside opening tag: "@ + token_text(t))
        }
    }

    /// `next` is this state with only the state, the attribute name and
    /// what was read of the name changed.
    spec fn keeps_but_attr_name(self, next: PullParser) -> bool {
        &&& next == (PullParser {
            st: next.st,
            data: next.data,
            buf: next.buf,
            read_prefix_separator: next.read_prefix_separator,
            ..self
        })
        &&& next.data == (MarkupData { attr_name: next.data.attr_name, ..self.data })
    }

    /// What the name `n` of an attribute, followed by `t`, does: `=` starts
    /// its value, white space waits for `=`.
    spec fn attribute_name_post(self, t: Token, n: NameView, next: PullParser, r: Option<
        ResultView,
    >) -> bool {
        if t == Token::EqualsSign {
            &&& r is None
            &&& next.st == State::InsideOpeningTag(OpeningTagSubstate::InsideAttributeValue)
            &&& next.data.attr_name matches Some(a) && a@ == n
            &&& self.keeps_but_attr_name(next)
        } else if t is Character && crate::common::spec_whitespace_char(t->Character_0) {
            &&& r is None
            &&& next.st == State::InsideOpeningTag(OpeningTagSubstate::AfterAttributeName)
            &&& next.data.attr_name matches Some(a) && a@ == n
            &&& self.keeps_but_attr_name(next)
        } else {
            r == Some(
                Err::<EventView, ErrorView>(
                    ErrorView {
                        pos: self.lexer.spec_position(),
                        msg: "Unexpected token inside opening tag: "@ + token_text(t),
                    },
                ),
            )
        }
    }

    /// What a token `t` does inside an opening tag, in substate `s`: the
    /// element's name is read, then attributes, each a name, `=` and a
    /// quoted value, up to `>` or `/>`, which start the element.
    spec fn opening_tag_post(
        self,
        t: Token,
        s: OpeningTagSubstate,
        next: PullParser,
        r: Option<ResultView>,
    ) -> bool {
        let err = |m: Seq<char>|
            Some(Err::<EventView, ErrorView>(ErrorView { pos: self.lexer.spec_position(), msg: m }));
        let ws = t is Character && crate::common::spec_whitespace_char(t->Character_0);
        match s {
            OpeningTagSubstate::InsideName => {
                &&& self.qname_post(t, QualifiedNameTarget::OpeningTagNameTarget, next, r)
                &&& (self.qname_ends(t, QualifiedNameTarget::OpeningTagNameTarget)
                    && spec_parse_name(self.buf@) is Some) ==> self.opening_name_post(
                    t,
                    spec_parse_name(self.buf@)->Some_0,
                    next,
                    r,
                )
            },
            OpeningTagSubstate::InsideTag => if ws {
                r is None && next == self
            } else if t is Character && crate::common::spec_name_start_char(t->Character_0) {
                &&& r is None
                &&& next.buf@ == self.buf@.push(t->Character_0)
                &&& next.st == State::InsideOpeningTag(OpeningTagSubstate::InsideAttributeName)
                &&& next == (PullParser { buf: next.buf, st: next.st, ..self })
            } else if t == Token::TagEnd || t == Token::EmptyTagEnd {
                match self.data.element_name {
                    None => r is None && next == self,
                    Some(e) => self.start_element_post(e@, t == Token::EmptyTagEnd, next, r)
                        && next.buf == self.buf,
                }
            } else {
                r == err("Unexpected token inside opening tag: "@ + token_text(t))
            },
            OpeningTagSubstate::InsideAttributeName => {
                &&& self.qname_post(t, QualifiedNameTarget::AttributeNameTarget, next, r)
                &&& (self.qname_ends(t, QualifiedNameTarget::AttributeNameTarget)
                    && spec_parse_name(self.buf@) is Some) ==> self.attribute_name_post(
                    t,
                    spec_parse_name(self.buf@)->Some_0,
                    next,
                    r,
                )
            },
            OpeningTagSubstate::AfterAttributeName => if t == Token::EqualsSign {
                r is None && next == (PullParser {
                    st: State::InsideOpeningTag(OpeningTagSubstate::InsideAttributeValue),
                    ..self
                })
            } else if ws {
                r is None && next == self
            } else {
                r == err("Unexpected token inside opening tag: "@ + token_text(t))
            },
            OpeningTagSubstate::InsideAttributeValue => self.attribute_value_token_post(
                t,
                ValueCallback::OpeningTagAttribute,
                next,
                r,
            ),
        }
    }

    /// What the value `value` of the declaration's pseudo-attribute read in
    /// substate `s` does: `version` takes `1.0` or `1.1`, `encoding` any
    /// value, `standalone` `yes` or `no`; any other value is an error.
    spec fn declaration_value_post(
        self,
        value: Seq<char>,
        s: DeclarationSubstate,
        next: PullParser,
        r: Option<ResultView>,
    ) -> bool {
        let err = |m: Seq<char>|
            Some(Err::<EventView, ErrorView>(ErrorView { pos: self.lexer.spec_position(), msg: m }));
        if s == DeclarationSubstate::InsideVersionValue {
            if value == "1.0"@ || value == "1.1"@ {
                &&& r is None
                &&& next.data.version == Some(
                    if value == "1.0"@ {
                        XmlVersion::Version10
                    } else {
                        XmlVersion::Version11
                    },
                )
                &&& next.st == State::InsideDeclaration(DeclarationSubstate::AfterVersionValue)
                &&& self.sets_declared(next)
            } else {
                r == err("Unexpected XML version value: "@ + value)
            }
        } else if s == DeclarationSubstate::InsideEncodingValue {
            &&& r is None
            &&& next.data.encoding matches Some(e) && e@ == value
            &&& next.st == State::InsideDeclaration(DeclarationSubstate::BeforeStandaloneDecl)
            &&& self.sets_declared(next)
        } else if value == "yes"@ || value == "no"@ {
            &&& r is None
            &&& next.data.standalone == Some(value == "yes"@)
            &&& next.st == State::InsideDeclaration(DeclarationSubstate::AfterStandaloneDeclValue)
            &&& self.sets_declared(next)
        } else {
            r == err("Invalid standalone declaration value: "@ + value)
        }
    }

    /// `next` is this state with only the state, what the declaration says
    /// and what was read of a value changed.
    spec fn sets_declared(self, next: PullParser) -> bool {
        &&& next == (PullParser { st: next.st, data: next.data, buf: next.buf, ..self })
        &&& next.data == (MarkupData {
            version: next.data.version,
            encoding: next.data.encoding,
            standalone: next.data.standalone,
            quote: next.data.quote,
            ..self.data
        })
    }

    /// What ending the XML declaration does: the start of the document is
    /// reported with what the declaration said, the defaults standing for
    /// what it did not say, and the declaration is recorded as met; a
    /// declaration after anything else is an error.
    spec fn start_document_post(self, next: PullParser, r: Option<ResultView>) -> bool {
        if rank(self.encountered) >= 1 {
            r == Some(
                Err::<EventView, ErrorView>(
                    ErrorView {
                        pos: self.lexer.spec_position(),
                        msg: "Unexpected XML declaration"@,
                    },
                ),
            )
        } else {
            &&& r == Some(
                Ok::<EventView, ErrorView>(
                    EventView::StartDocument {
                        version: match self.data.version {
                            Some(v) => v,
                            None => XmlVersion::Version10,
                        },
                        encoding: match self.data.encoding {
                            Some(e) => e@,
                            None => self.lexer.spec_encoding(),
                        },
                        standalone: self.data.standalone,
                    },
                ),
            )
            &&& next.st == State::OutsideTag
            &&& next == (PullParser {
                st: next.st,
                encountered: Encountered::Declaration,
                data: next.data,
                ..self
            })
            &&& next.data == (MarkupData { standalone: None, encoding: None, ..self.data })
        }
    }

    /// What the name `n` of a pseudo-attribute of the declaration, read in
    /// substate `s` after its first letter, followed by `t`, does: the name
    /// that the substate expects goes on to its value, any other is an
    /// error.
    spec fn declaration_name_post(
        self,
        t: Token,
        n: NameView,
        s: DeclarationSubstate,
        next: PullParser,
        r: Option<ResultView>,
    ) -> bool {
        let (expected, value_state, after_state) = if s == DeclarationSubstate::InsideVersion {
            (
                "ersion"@,
                DeclarationSubstate::InsideVersionValue,
                DeclarationSubstate::AfterVersion,
            )
        } else if s == DeclarationSubstate::InsideEncoding {
            ("ncoding"@, DeclarationSubstate::InsideEncodingValue, DeclarationSubstate::AfterEncoding)
        } else {
            (
                "tandalone"@,
                DeclarationSubstate::InsideStandaloneDeclValue,
                DeclarationSubstate::AfterStandaloneDecl,
            )
        };
        if n.local_name == expected && n.namespace is None {
            &&& r is None
            &&& next.st == State::InsideDeclaration(
                if t == Token::EqualsSign {
                    value_state
                } else {
                    after_state
                },
            )
            &&& next == (PullParser {
                st: next.st,
                buf: next.buf,
                read_prefix_separator: next.read_prefix_separator,
                ..self
            })
        } else {
            r == Some(
                Err::<EventView, ErrorView>(
                    ErrorView {
                        pos: self.lexer.spec_position(),
                        msg: "Unexpected token inside XML declaration: "@ + name_repr(n),
                    },
                ),
            )
        }
    }

    /// What a token `t` does inside the XML declaration, in substate `s`:
    /// `version`, then optionally `encoding` and `standalone`, each with `=`
    /// and a quoted value, up to `?>`, which reports the start of the
    /// document; white space between them is skipped.
    spec fn declaration_post(
        self,
        t: Token,
        s: DeclarationSubstate,
        next: PullParser,
        r: Option<ResultView>,
    ) -> bool {
        let ws = t is Character && crate::common::spec_whitespace_char(t->Character_0);
        let go = |d: DeclarationSubstate|
            r is None && next == (PullParser { st: State::InsideDeclaration(d), ..self });
        let skip = r is None && next == self;
        let err = r == Some(
            Err::<EventView, ErrorView>(
                ErrorView {
                    pos: self.lexer.spec_position(),
                    msg: "Unexpected token inside XML declaration: "@ + token_text(t),
                },
            ),
        );
        match s {
            DeclarationSubstate::BeforeVersion => if t == Token::Character('v') {
                go(DeclarationSubstate::InsideVersion)
            } else if ws {
                skip
            } else {
                err
            },
            DeclarationSubstate::InsideVersion | DeclarationSubstate::InsideEncoding
            | DeclarationSubstate::InsideStandaloneDecl => {
                &&& self.qname_post(t, QualifiedNameTarget::AttributeNameTarget, next, r)
                &&& (self.qname_ends(t, QualifiedNameTarget::AttributeNameTarget)
                    && spec_parse_name(self.buf@) is Some) ==> self.declaration_name_post(
                    t,
                    spec_parse_name(self.buf@)->Some_0,
                    s,
                    next,
                    r,
                )
            },
            DeclarationSubstate::AfterVersion => if t == Token::EqualsSign {
                go(DeclarationSubstate::InsideVersionValue)
            } else if ws {
                skip
            } else {
                err
            },
            DeclarationSubstate::InsideVersionValue | DeclarationSubstate::InsideEncodingValue
            | DeclarationSubstate::InsideStandaloneDeclValue => self.attribute_value_token_post(
                t,
                ValueCallback::Declaration(s),
                next,
                r,
            ),
            DeclarationSubstate::AfterVersionValue => if ws {
                skip
            } else if t == Token::Character('e') {
                go(DeclarationSubstate::InsideEncoding)
            } else if t == Token::Character('s') {
                go(DeclarationSubstate::InsideStandaloneDecl)
            } else if t == Token::ProcessingInstructionEnd {
                self.start_document_post(next, r)
            } else {
                err
            },
            DeclarationSubstate::AfterEncoding => if t == Token::EqualsSign {
                go(DeclarationSubstate::InsideEncodingValue)
            } else if ws {
                skip
            } else {
                err
            },
            DeclarationSubstate::BeforeStandaloneDecl => if ws {
                skip
            } else if t == Token::Character('s') {
                go(DeclarationSubstate::InsideStandaloneDecl)
            } else if t == Token::ProcessingInstructionEnd {
                self.start_document_post(next, r)
            } else {
                err
            },
            DeclarationSubstate::AfterStandaloneDecl => if t == Token::EqualsSign {
                go(DeclarationSubstate::InsideStandaloneDeclValue)
            } else if ws {
                skip
            } else {
                err
            },
            DeclarationSubstate::AfterStandaloneDeclValue => if ws {
                skip
            } else if t == Token::ProcessingInstructionEnd {
                self.start_document_post(next, r)
            } else {
                err
            },
        }
    }

    /// What a token `t` does to the parser, by the state it is in.
    spec fn token_post(self, t: Token, next: PullParser, r: Option<ResultView>) -> bool {
        match self.st {
            State::OutsideTag => self.outside_tag_post(t, next, r),
            State::InsideProcessingInstruction(s) => self.pi_post(t, s, next, r),
            State::InsideDeclaration(s) => self.declaration_post(t, s, next, r),
            State::InsideDoctype(s) => self.doctype_post(t, s, next, r),
            State::InsideOpeningTag(s) => self.opening_tag_post(t, s, next, r),
            State::InsideClosingTag(s) => self.closing_tag_post(t, s, next, r),
            State::InsideComment => self.comment_post(t, next, r),
            State::InsideCData => self.cdata_post(t, next, r),
            State::InsideReference => self.reference_post(t, next, r),
        }
    }

    /// The token `t` ends a qualified name read for `target`.
    pub closed spec fn qname_ends(self, t: Token, target: QualifiedNameTarget) -> bool {
        (match t {
            Token::EqualsSign => target == QualifiedNameTarget::AttributeNameTarget,
            Token::EmptyTagEnd => target == QualifiedNameTarget::OpeningTagNameTarget,
            Token::TagEnd => target == QualifiedNameTarget::OpeningTagNameTarget || target
                == QualifiedNameTarget::ClosingTagNameTarget,
            Token::Character(c) => crate::common::spec_whitespace_char(c),
            _ => false,
        }) && !continues_name(t, self.buf@, self.separator_read())
    }

    /// A colon has been read in the current name.
    pub closed spec fn separator_read(self) -> bool {
        if self.buf@.len() <= 1 {
            false
        } else {
            self.read_prefix_separator
        }
    }

    /// What reading a qualified name does with a token: a name character
    /// goes into the buffer; a token that ends the name empties the buffer
    /// and reports a name that does not parse; any other token is an error.
    pub closed spec fn qname_post(
        self,
        t: Token,
        target: QualifiedNameTarget,
        next: PullParser,
        r: Option<ResultView>,
    ) -> bool {
        let sep = self.separator_read();
        &&& continues_name(t, self.buf@, sep) ==> {
            &&& r is None
            &&& next.buf@ == self.buf@.push(t->Character_0)
            &&& next.read_prefix_separator == (sep || t == Token::Character(':'))
            &&& next == (PullParser {
                buf: next.buf,
                read_prefix_separator: next.read_prefix_separator,
                ..self
            })
        }
        &&& self.qname_ends(t, target) ==> {
            &&& next.buf@.len() == 0
            &&& spec_parse_name(self.buf@) is None ==> r == Some(
                Err::<EventView, ErrorView>(
                    ErrorView { pos: self.lexer.spec_position(), msg: qname_invalid_msg(self.buf@) },
                ),
            )
        }
        &&& (!continues_name(t, self.buf@, sep) && !self.qname_ends(t, target)) ==> r == Some(
            Err::<EventView, ErrorView>(
                ErrorView {
                    pos: self.lexer.spec_position(),
                    msg: "Unexpected token inside qualified name: "@ + token_text(t),
                },
            ),
        ) && next.buf == self.buf && next.est@ == self.est@
    }

    /// What the name `n` of a closing tag, followed by `t`, does: a reserved
    /// prefix is an error; `>` ends the element, and only the open elements,
    /// the state, the namespace frame to close and what was read of the name
    /// may change besides; white space waits for `>`.
    pub closed spec fn closing_name_post(
        self,
        t: Token,
        n: NameView,
        next: PullParser,
        r: Option<ResultView>,
    ) -> bool {
        if n.prefix == Some(ns_xml_prefix()) || n.prefix == Some(ns_xmlns_prefix()) {
            r == Some(
                Err::<EventView, ErrorView>(
                    ErrorView {
                        pos: self.lexer.spec_position(),
                        msg: "'Some(\""@ + n.prefix->Some_0
                            + "\")' cannot be an element name prefix"@,
                    },
                ),
            ) && next.est@ == self.est@
        } else {
            match t {
                Token::TagEnd => {
                    &&& self.end_element_post(n, next, r)
                    &&& next == (PullParser {
                        est: next.est,
                        st: next.st,
                        pop_namespace: next.pop_namespace,
                        data: next.data,
                        buf: next.buf,
                        read_prefix_separator: next.read_prefix_separator,
                        ..self
                    })
                    &&& next.data == (MarkupData { element_name: None, ..self.data })
                },
                Token::Character(c) => if crate::common::spec_whitespace_char(c) {
                    &&& r is None
                    &&& next.st == State::InsideClosingTag(ClosingTagSubstate::CTAfterName)
                    &&& next.data.element_name is Some
                    &&& next.data.element_name->Some_0@ == n
                    &&& next == (PullParser {
                        st: next.st,
                        data: next.data,
                        buf: next.buf,
                        read_prefix_separator: next.read_prefix_separator,
                        ..self
                    })
                    &&& next.data == (MarkupData {
                        element_name: next.data.element_name,
                        ..self.data
                    })
                } else {
                    r == Some(
                        Err::<EventView, ErrorView>(
                            ErrorView {
                                pos: self.lexer.spec_position(),
                                msg: "Unexpected token inside closing tag: "@ + token_text(t),
                            },
                        ),
                    ) && next.est@ == self.est@
                },
                _ => r == Some(
                    Err::<EventView, ErrorView>(
                        ErrorView {
                            pos: self.lexer.spec_position(),
                            msg: "Unexpected token inside closing tag: "@ + token_text(t),
                        },
                    ),
                ) && next.est@ == self.est@,
            }
        }
    }

    /// What ending the element `name` does: resolve its prefix, and close the
    /// innermost open element if the names agree.
    pub closed spec fn end_element_post(self, name: NameView, next: PullParser, r: Option<
        ResultView,
    >) -> bool {
        &&& next.next_event == self.next_event
        &&& next.inside_whitespace == self.inside_whitespace
        &&& next.data.attributes == self.data.attributes
        &&& next.nst == self.nst
        &&& next.encountered == self.encountered
        &&& match resolve_name(name, self.nst@) {
            None => {
                &&& r == Some(
                    Err::<EventView, ErrorView>(
                        ErrorView {
                            pos: self.lexer.spec_position(),
                            msg: "Element "@ + name_repr(name) + " prefix is unbound"@,
                        },
                    ),
                )
                &&& next.est@ == self.est@
                &&& next.st == self.st
                &&& next.pop_namespace == self.pop_namespace
            },
            Some(rn) => if self.est@.len() == 0 {
                r is None && next.est@ == self.est@ && next.st == self.st && next.pop_namespace
                    == self.pop_namespace
            } else if self.est@.last()@ == rn {
                &&& r == Some(Ok::<EventView, ErrorView>(EventView::EndElement { name: rn }))
                &&& next.est@ == self.est@.drop_last()
                &&& next.pop_namespace
                &&& next.st == State::OutsideTag
            } else {
                &&& r == Some(
                    Err::<EventView, ErrorView>(
                        ErrorView {
                            pos: self.lexer.spec_position(),
                            msg: "Unexpected closing tag: "@ + name_repr(rn) + ", expected "@
                                + name_repr(self.est@.last()@),
                        },
                    ),
                )
                &&& next.est@ == self.est@.drop_last()
                &&& next.st == self.st
                &&& next.pop_namespace == self.pop_namespace
            },
        }
    }

    /// A well formed parser with a fresh lexer, in the given configuration.
    pub fn new(config: ParserConfig2) -> (r: PullParser)
        ensures
            r.wf(),
            r.configuration() == config,
            r.final_view() is None,
            r.open_elements().len() == 0,
            !r.document_started(),
            r.last_event_position() == (TextPosition { row: 0, column: 0 }),
            r.no_pending_event(),
            r.lexer_idle(),
            r.in_text(),
            !r.root_seen(),
            r.holds_nothing(),
            r.namespaces() == seq![
                seq![
                    (ns_xml_prefix(), crate::namespace::ns_xml_uri()),
                    (ns_xmlns_prefix(), crate::namespace::ns_xmlns_uri()),
                    (Seq::<char>::empty(), Seq::<char>::empty()),
                ],
            ],
            r.encoding() == match config.override_encoding {
                Some(e) => e@,
                None => "UTF-8"@,
            },
    {
        Self::new_with_config2(config)
    }

    fn new_with_config2(config: ParserConfig2) -> (r: PullParser)
        ensures
            r.wf(),
            r.final_view() is None,
            r.open_elements().len() == 0,
            !r.document_started(),
            r.config == config,
            r.st == State::OutsideTag,
            r.buf@.len() == 0,
            r.pos@ == seq![TextPosition { row: 0, column: 0 }],
            r.lexer.idle(),
            r.next_event is None,
            r.encountered == Encountered::Nothing,
            r.holds_nothing(),
            r.nst@ == seq![
                seq![
                    (ns_xml_prefix(), crate::namespace::ns_xml_uri()),
                    (ns_xmlns_prefix(), crate::namespace::ns_xmlns_uri()),
                    (Seq::<char>::empty(), Seq::<char>::empty()),
                ],
            ],
            r.lexer.spec_encoding() == match config.override_encoding {
                Some(e) => e@,
                None => "UTF-8"@,
            },
    {
        let mut lexer = Lexer::new(
            config.max_entity_expansion_depth,
            config.max_entity_expansion_length,
        );
        match &config.override_encoding {
            Some(enc) => {
                lexer.set_encoding(copy_chars(enc));
            },
            None => {},
        }
        let mut pos: Vec<TextPosition> = Vec::new();
        pos.push(TextPosition::new());
        let r = PullParser {
            config,
            lexer,
            st: State::OutsideTag,
            state_after_reference: State::OutsideTag,
            buf: Vec::new(),
            entities: Vec::new(),
            nst: NamespaceStack::default(),
            data: MarkupData {
                name: Vec::new(),
                version: None,
                encoding: None,
                standalone: None,
                ref_data: Vec::new(),
                element_name: None,
                quote: None,
                attr_name: None,
                attributes: Vec::new(),
            },
            final_result: None,
            next_event: None,
            est: Vec::new(),
            pos,
            encountered: Encountered::Nothing,
            inside_whitespace: true,
            read_prefix_separator: false,
            pop_namespace: false,
        };
        assert(r.open_elements() =~= Seq::<NameView>::empty());
        assert(r.pos@ =~= seq![TextPosition { row: 0, column: 0 }]);
        assert(r.nst@ =~= seq![r.nst@[0]]);
        r
    }

    /// Checks if this parser ignores the end of stream errors.
    pub fn is_ignoring_end_of_stream(&self) -> (r: bool)
        ensures
            r == self.ignores_eof(),
    {
        self.config.c.ignore_end_of_stream
    }

    /// Records what has been encountered; the first time anything past a
    /// declaration is, reports the start of the document with the defaults.
    fn set_encountered(&mut self, new_encounter: Encountered) -> (r: Option<Result>)
        requires
            old(self).wf(),
        ensures
            final(self).wf(),
            rank(new_encounter) <= rank(old(self).encountered) ==> r is None && *final(self)
                == *old(self),
            rank(new_encounter) > rank(old(self).encountered) ==> {
                &&& *final(self) == (PullParser {
                    encountered: new_encounter,
                    pos: final(self).pos,
                    ..*old(self)
                })
                &&& final(self).encountered == new_encounter
                &&& rank(old(self).encountered) < 1 ==> {
                    &&& opt_result_view(r) == Some(
                        Ok::<EventView, ErrorView>(
                            EventView::StartDocument {
                                version: XmlVersion::Version10,
                                encoding: old(self).lexer.spec_encoding(),
                                standalone: None,
                            },
                        ),
                    )
                    &&& final(self).pos@ == old(self).pos@.push(old(self).lexer.spec_position())
                }
                &&& rank(old(self).encountered) >= 1 ==> r is None && final(self).pos
                    == old(self).pos
                &&& final(self).config == old(self).config
                &&& final(self).final_result == old(self).final_result
                &&& final(self).est == old(self).est
                &&& final(self).next_event == old(self).next_event
                &&& final(self).lexer == old(self).lexer
                &&& final(self).nst == old(self).nst
                &&& final(self).st == old(self).st
                &&& final(self).buf == old(self).buf
                &&& final(self).data == old(self).data
                &&& final(self).inside_whitespace == old(self).inside_whitespace
                &&& final(self).state_after_reference == old(self).state_after_reference
                &&& final(self).entities == old(self).entities
            },
    {
        if new_encounter.rank() <= self.encountered.rank() {
            return None;
        }
        let prev_enc = self.encountered;
        self.encountered = new_encounter;
        // If declaration was not parsed and we have encountered an element,
        // emit this declaration as the next event.
        if prev_enc.rank() < 1 {
            self.push_pos();
            Some(
                Ok(
                    XmlEvent::StartDocument {
                        version: XmlVersion::Version10,
                        encoding: self.lexer.encoding(),
                        standalone: None,
                    },
                ),
            )
        } else {
            None
        }
    }

    /// The position of the last event produced by the parser.
    pub fn position(&self) -> (r: TextPosition)
        requires
            self.wf(),
        ensures
            r == self.last_event_position(),
    {
        self.pos[0]
    }

    /// Whether characters of the XML version in force may appear in text.
    fn is_valid_xml_char_not_restricted(&self, c: char) -> (r: bool)
        ensures
            r == if self.data.version == Some(XmlVersion::Version11) {
                crate::common::spec_xml11_char_not_restricted(c)
            } else {
                spec_xml10_char(c)
            },
    {
        match self.data.version {
            Some(XmlVersion::Version11) => crate::common::is_xml11_char_not_restricted(c),
            _ => is_xml10_char(c),
        }
    }

    /// Whether characters of the XML version in force may appear.
    fn is_valid_xml_char(&self, c: char) -> (r: bool)
        ensures
            r == if self.data.version == Some(XmlVersion::Version11) {
                spec_xml11_char(c)
            } else {
                spec_xml10_char(c)
            },
    {
        match self.data.version {
            Some(XmlVersion::Version11) => is_xml11_char(c),
            _ => is_xml10_char(c),
        }
    }

    /// Returns next event read from the given buffer.
    ///
    /// This method should be always called with the same buffer. If you call
    /// it providing different buffers each time, the result will be
    /// undefined.
    #[verifier::rlimit(60)]
    pub fn next(&mut self, r: &mut CharReader) -> (res: Result)
        requires
            old(self).wf(),
            old(r).wf(),
        ensures
            final(self).wf(),
            final(r).wf(),
            final(self).configuration() == old(self).configuration(),
            // once parsing has ended, every call gives the same result and
            // changes nothing
            old(self).final_view() is Some ==> {
                &&& Some(result_view(res)) == old(self).final_view()
                &&& *final(self) == *old(self)
                &&& final(r).remaining() == old(r).remaining()
            },
            old(self).final_view() is None ==> {
                // element starts and ends nest
                &&& nesting_step(
                    old(self).open_elements(),
                    final(self).open_elements(),
                    Some(result_view(res)),
                )
                // the document starts once, with its start event
                &&& started_step(
                    old(self).document_started(),
                    final(self).document_started(),
                    Some(result_view(res)),
                )
                // an error or the end of the document ends parsing, but for
                // an end of stream inside the root element that the parser
                // is told to go on after
                &&& (res is Err || res matches Ok(XmlEvent::EndDocument)) ==> ({
                    ||| final(self).final_view() == Some(result_view(res))
                    ||| old(self).ignores_eof() && final(self).final_view() is None
                        && final(self).open_elements() == old(self).open_elements()
                        && old(self).open_elements().len() > 0 && (res matches Err(e)
                        && e@.msg == "Unexpected end of stream: still inside the root element"@)
                })
                // other events do not end it
                &&& (res is Ok && !(res matches Ok(XmlEvent::EndDocument)))
                    ==> final(self).final_view() is None
                // the document ends with no element open
                &&& (res matches Ok(XmlEvent::EndDocument)) ==> old(self).open_elements().len()
                    == 0
                // elements start only once the document has started
                &&& (res matches Ok(XmlEvent::StartElement { .. }))
                    ==> old(self).document_started()
                // no element carries two attributes of the same name
                &&& res matches Ok(XmlEvent::StartElement { attributes, .. })
                    ==> distinct_attr_names(attrs_view(attributes@))
                // at the end of the text, with nothing held back: the end of
                // the document, or the error for what is missing
                &&& (old(self).no_pending_event() && old(self).lexer_idle()
                    && old(r).remaining().len() == 0) ==> {
                    let open = old(self).open_elements().len();
                    &&& (open == 0 && old(self).root_seen() && old(self).in_text())
                        ==> (res matches Ok(XmlEvent::EndDocument))
                    &&& (open == 0 && old(self).root_seen() && !old(self).in_text())
                        ==> (res matches Err(e) && e@.msg == "Unexpected end of stream"@)
                    &&& (open == 0 && !old(self).root_seen()) ==> (res matches Err(e) && e@.msg
                        == "Unexpected end of stream: no root element found"@)
                    &&& open > 0 ==> (res matches Err(e) && e@.msg
                        == "Unexpected end of stream: still inside the root element"@)
                }
                // a waiting end of an empty element is reported first, and
                // nothing else changes
                &&& old(self).pending_event() is Some ==> {
                    &&& Some(result_view(res)) == old(self).pending_event()
                    &&& old(self).takes_pending(*final(self))
                    &&& final(r).remaining() == old(r).remaining()
                }
                // what is read gives the result: tokens handled as the
                // parser's state says, up to an event, an error or the end
                &&& old(self).no_pending_event() ==> old(self).produces(
                    old(r).remaining(),
                    *final(self),
                    final(r).remaining(),
                    result_view(res),
                )
            },
    {
        match &self.final_result {
            Some(ev) => {
                return copy_result(ev);
            },
            None => {},
        }
        match self.next_event.take() {
            Some(ev) => {
                proof {
                    let n = ev->Ok_0->EndElement_name;
                    assert(old(self).open_elements() == names_view(self.est@) + seq![n@]);
                    assert(self.open_elements() =~= names_view(self.est@));
                    assert((names_view(self.est@) + seq![n@]).drop_last() =~= names_view(
                        self.est@,
                    ));
                    assert(result_view(ev) == Ok::<EventView, ErrorView>(
                        EventView::EndElement { name: n@ },
                    ));
                }
                return ev;
            },
            None => {},
        }
        if self.pop_namespace {
            self.pop_namespace = false;
            self.nst.try_pop();
        }
        let ghost start = *self;
        let ghost rest0 = r.remaining();
        let ghost at_end = self.lexer.idle() && r.remaining().len() == 0;
        let ghost mut g = *self;
        let ghost mut gr = r.remaining();
        let ghost mut tr = seq![(*self, r.remaining())];
        proof {
            assert(start == (PullParser { nst: start.nst, pop_namespace: false, ..*old(self) }));
            assert(start.quiet_run(rest0, g, gr, tr));
        }
        loop
            invariant_except_break
                *self == g,
                r.remaining() == gr,
            invariant
                self.wf(),
                r.wf(),
                at_end == (old(self).lexer.idle() && old(r).remaining().len() == 0),
                at_end ==> self.lexer.idle() && r.remaining().len() == 0 && self.est
                    == start.est && self.encountered == start.encountered && self.st
                    == start.st,
                self.final_result is None,
                old(self).final_view() is None,
                old(self).next_event is None,
                self.next_event is None,
                self.config == old(self).config,
                self.open_elements() == old(self).open_elements(),
                self.document_started() == old(self).document_started(),
                start == (PullParser { nst: start.nst, pop_namespace: false, ..*old(self) }),
                start.nst@ == if old(self).pop_namespace && old(self).nst@.len() > 0 {
                    old(self).nst@.drop_last()
                } else {
                    old(self).nst@
                },
                rest0 == old(r).remaining(),
                start.quiet_run(rest0, g, gr, tr),
            ensures
                self.wf(),
                r.wf(),
                at_end ==> self.lexer.idle() && r.remaining().len() == 0 && self.est
                    == start.est && self.encountered == start.encountered && self.st
                    == start.st,
                self.final_result is None,
                self.next_event is None,
                self.config == old(self).config,
                self.open_elements() == old(self).open_elements(),
                self.document_started() == old(self).document_started(),
                start == (PullParser { nst: start.nst, pop_namespace: false, ..*old(self) }),
                start.nst@ == if old(self).pop_namespace && old(self).nst@.len() > 0 {
                    old(self).nst@.drop_last()
                } else {
                    old(self).nst@
                },
                start.quiet_run(rest0, g, gr, tr),
                lexer_reads(g, gr, *self, r.remaining(), Ok(None)),
            decreases self.lexer.measure(r).0, self.lexer.measure(r).1, self.lexer.measure(r).2,
        {
            // While lexer gives us Ok(maybe_token) -- we loop.
            // Upon having a complete XML-event -- we return from the whole function.
            let ghost before_lexer = self.lexer;
            let ghost before_r = *r;
            let lexed = self.lexer.next_token(r);
            let ghost l = *self;
            proof {
                assert(lexer_reads(g, gr, l, r.remaining(), lex_view(lexed)));
            }
            match lexed {
                Ok(Some(token)) => {
                    let ghost mid = *self;
                    match self.dispatch_token(token) {
                        None => {
                            assert(lex_lt(mid.lexer.measure(r), before_lexer.measure(&before_r)));
                            assert(self.lexer.measure(r) == mid.lexer.measure(r) || lex_lt(
                                self.lexer.measure(r),
                                mid.lexer.measure(r),
                            ));
                            proof {
                                assert(lexer_reads(g, gr, l, r.remaining(), Ok(Some(token)))
                                    && l.token_post(token, *self, None));
                                assert(g.quiet_token(gr, *self, r.remaining()));
                                let tr2 = tr.push((*self, r.remaining()));
                                assert forall|i: int| 0 <= i < tr2.len() - 1 implies (
                                #[trigger] tr2[i]).0.quiet_token(
                                    tr2[i].1,
                                    tr2[i + 1].0,
                                    tr2[i + 1].1,
                                ) by {
                                    if i < tr.len() - 1 {
                                        assert(tr2[i] == tr[i] && tr2[i + 1] == tr[i + 1]);
                                    } else {
                                        assert(tr2[i] == (g, gr));
                                    }
                                }
                                assert(start.quiet_run(rest0, *self, r.remaining(), tr2));
                                g = *self;
                                gr = r.remaining();
                                tr = tr2;
                            }
                        },  // continue
                        Some(Ok(xml_event)) => {
                            let ghost a = *self;
                            self.next_pos();
                            proof {
                                let res = Ok::<EventView, ErrorView>(xml_event@);
                                assert(lexer_reads(g, gr, l, r.remaining(), Ok(Some(token)))
                                    && l.token_post(token, a, Some(res)) && settles(
                                    a,
                                    *self,
                                    res,
                                ));
                                assert(start.quiet_run(rest0, g, gr, tr));
                                assert(g.finishes(gr, l, *self, r.remaining(), res));
                                assert(old(self).produces(rest0, *self, r.remaining(), res));
                            }
                            return Ok(xml_event);
                        },
                        Some(Err(xml_error)) => {
                            let ghost a = *self;
                            self.next_pos();
                            let res = self.set_final_result(Err(xml_error));
                            proof {
                                let rv = result_view(res);
                                assert(lexer_reads(g, gr, l, r.remaining(), Ok(Some(token)))
                                    && l.token_post(token, a, Some(rv)) && settles(
                                    a,
                                    *self,
                                    rv,
                                ));
                                assert(start.quiet_run(rest0, g, gr, tr));
                                assert(g.finishes(gr, l, *self, r.remaining(), rv));
                                assert(old(self).produces(rest0, *self, r.remaining(), rv));
                            }
                            return res;
                        },
                    }
                },
                Ok(None) => {
                    break;
                },
                Err(lexer_error) => {
                    let res = self.set_final_result(Err(lexer_error));
                    proof {
                        let rv = result_view(res);
                        assert(rv == Err::<EventView, ErrorView>(lexer_error@));
                        assert(lexer_reads(g, gr, l, r.remaining(), Err(rv->Err_0)));
                        assert(start.quiet_run(rest0, g, gr, tr));
                        assert(g.finishes(gr, l, *self, r.remaining(), rv));
                        assert(old(self).produces(rest0, *self, r.remaining(), rv));
                    }
                    return res;
                },
            }
        }
        let ghost l = *self;
        let res = self.handle_eof();
        proof {
            assert(start.quiet_run(rest0, g, gr, tr) && lexer_reads(
                g,
                gr,
                l,
                r.remaining(),
                Ok(None),
            ));
            assert(g.finishes(gr, l, *self, r.remaining(), result_view(res)));
            assert(old(self).produces(rest0, *self, r.remaining(), result_view(res)));
        }
        res
    }

    /// Handle end of stream
    fn handle_eof(&mut self) -> (res: Result)
        requires
            old(self).wf(),
            old(self).next_event is None,
            old(self).final_result is None,
        ensures
            result_view(res) == old(self).eof_outcome(),
            old(self).eof_settles(*final(self), result_view(res)),
            final(self).wf(),
            final(self).config == old(self).config,
            final(self).open_elements() == old(self).open_elements(),
            final(self).encountered == old(self).encountered,
            old(self).est@.len() == 0 ==> {
                &&& (old(self).encountered == Encountered::Element && old(self).st
                    == State::OutsideTag) ==> (res matches Ok(XmlEvent::EndDocument))
                &&& rank(old(self).encountered) < 4 ==> result_view(res) == Err::<
                    EventView,
                    ErrorView,
                >(
                    ErrorView {
                        pos: old(self).lexer.spec_position(),
                        msg: "Unexpected end of stream: no root element found"@,
                    },
                )
                &&& (old(self).encountered == Encountered::Element && old(self).st
                    != State::OutsideTag) ==> result_view(res) == Err::<EventView, ErrorView>(
                    ErrorView {
                        pos: old(self).lexer.spec_position(),
                        msg: "Unexpected end of stream"@,
                    },
                )
                &&& final(self).final_view() == Some(result_view(res))
            },
            old(self).est@.len() > 0 ==> {
                &&& result_view(res) == Err::<EventView, ErrorView>(
                    ErrorView {
                        pos: old(self).lexer.spec_position(),
                        msg: "Unexpected end of stream: still inside the root element"@,
                    },
                )
                &&& old(self).ignores_eof() ==> final(self).final_view() is None
                &&& !old(self).ignores_eof() ==> final(self).final_view() == Some(
                    result_view(res),
                )
            },
    {
        // Forward pos to the lexer head
        self.next_pos();
        let ev = if self.depth() == 0 {
            if self.encountered == Encountered::Element && self.st == State::OutsideTag {  // all is ok
                Ok(XmlEvent::EndDocument)
            } else if self.encountered.rank() < 4 {
                self.error(text("Unexpected end of stream: no root element found"))
            } else {  // self.st != State::OutsideTag
                self.error(text("Unexpected end of stream"))
            }
        } else if self.config.c.ignore_end_of_stream {
            self.final_result = None;
            self.lexer.reset_eof_handled();
            return self.error(text("Unexpected end of stream: still inside the root element"));
        } else {
            self.error(text("Unexpected end of stream: still inside the root element"))
        };
        self.set_final_result(ev)
    }

    /// This function is to be called when a terminal event is reached.
    /// It sets up `self.final_result` into `Some(result)` and returns
    /// `result`.
    fn set_final_result(&mut self, result: Result) -> (r: Result)
        ensures
            result_view(r) == result_view(result),
            final(self).final_view() == Some(result_view(result)),
            final(self).final_result is Some,
            *final(self) == (PullParser { final_result: final(self).final_result, ..*old(self) }),
    {
        self.final_result = Some(copy_result(&result));
        result
    }

    /// An error at the lexer's position.
    fn error(&self, msg: Vec<char>) -> (r: Result)
        ensures
            result_view(r) == Err::<EventView, ErrorView>(
                ErrorView { pos: self.lexer.spec_position(), msg: msg@ },
            ),
    {
        Err(self.lexer.error(msg))
    }

    /// An error at the lexer's position, with a message of two parts.
    fn error2(&self, a: &str, b: &Vec<char>) -> (r: Result)
        ensures
            result_view(r) == Err::<EventView, ErrorView>(
                ErrorView { pos: self.lexer.spec_position(), msg: a@ + b@ },
            ),
    {
        let mut m = text(a);
        push_all(&mut m, b);
        self.error(m)
    }

    /// Drops the oldest position, or moves the only one to the lexer's.
    fn next_pos(&mut self)
        requires
            old(self).pos@.len() >= 1,
        ensures
            final(self).pos@.len() >= 1,
            old(self).pos@.len() > 1 ==> final(self).pos@ == old(self).pos@.drop_first(),
            old(self).pos@.len() == 1 ==> final(self).pos@ == seq![
                old(self).lexer.spec_position(),
            ],
            *final(self) == (PullParser { pos: final(self).pos, ..*old(self) }),
            final(self).config == old(self).config,
            final(self).final_result == old(self).final_result,
            final(self).est == old(self).est,
            final(self).next_event == old(self).next_event,
            final(self).encountered == old(self).encountered,
            final(self).lexer == old(self).lexer,
            final(self).nst == old(self).nst,
            final(self).st == old(self).st,
            final(self).buf == old(self).buf,
            final(self).data == old(self).data,
            final(self).state_after_reference == old(self).state_after_reference,
    {
        if self.pos.len() > 1 {
            self.pos.remove(0);
            assert(self.pos@ =~= old(self).pos@.drop_first());
        } else {
            let p = self.lexer.position();
            self.pos.set(0, p);
            assert(self.pos@ =~= seq![p]);
        }
    }

    /// Remembers the lexer's position for an event to come.
    fn push_pos(&mut self)
        ensures
            final(self).pos@ == old(self).pos@.push(old(self).lexer.spec_position()),
            final(self).config == old(self).config,
            final(self).final_result == old(self).final_result,
            final(self).est == old(self).est,
            final(self).next_event == old(self).next_event,
            final(self).encountered == old(self).encountered,
            final(self).lexer == old(self).lexer,
            final(self).nst == old(self).nst,
            final(self).st == old(self).st,
            final(self).buf == old(self).buf,
            final(self).data == old(self).data,
            final(self).inside_whitespace == old(self).inside_whitespace,
            final(self).state_after_reference == old(self).state_after_reference,
            final(self).entities == old(self).entities,
            *final(self) == (PullParser { pos: final(self).pos, ..*old(self) }),
    {
        let p = self.lexer.position();
        self.pos.push(p);
    }

    /// Hands a token to the handler of the current state.
    fn dispatch_token(&mut self, t: Token) -> (r: Option<Result>)
        requires
            old(self).wf(),
            old(self).next_event is None,
        ensures
            old(self).step(*final(self), opt_result_view(r)),
            old(self).token_post(t, *final(self), opt_result_view(r)),
    {
        match self.st {
            State::OutsideTag => self.outside_tag(t),
            State::InsideProcessingInstruction(s) => self.inside_processing_instruction(t, s),
            State::InsideDeclaration(s) => self.inside_declaration(t, s),
            State::InsideDoctype(s) => self.inside_doctype(t, s),
            State::InsideOpeningTag(s) => self.inside_opening_tag(t, s),
            State::InsideClosingTag(s) => self.inside_closing_tag_name(t, s),
            State::InsideComment => self.inside_comment(t),
            State::InsideCData => self.inside_cdata(t),
            State::InsideReference => self.inside_reference(t),
        }
    }

    /// How many elements are open.
    fn depth(&self) -> (r: usize)
        ensures
            r == self.est@.len(),
    {
        self.est.len()
    }

    /// Whether the buffer holds anything.
    fn buf_has_data(&self) -> (r: bool)
        ensures
            r == (self.buf@.len() > 0),
    {
        self.buf.len() > 0
    }

    /// Takes what the buffer holds, leaving it empty.
    fn take_buf(&mut self) -> (r: Vec<char>)
        ensures
            r@ == old(self).buf@,
            final(self).buf@.len() == 0,
            final(self).config == old(self).config,
            final(self).final_result == old(self).final_result,
            final(self).est == old(self).est,
            final(self).next_event == old(self).next_event,
            final(self).encountered == old(self).encountered,
            final(self).lexer == old(self).lexer,
            final(self).nst == old(self).nst,
            final(self).st == old(self).st,
            final(self).pos == old(self).pos,
            final(self).data == old(self).data,
            final(self).inside_whitespace == old(self).inside_whitespace,
            final(self).state_after_reference == old(self).state_after_reference,
            final(self).read_prefix_separator == old(self).read_prefix_separator,
            final(self).entities == old(self).entities,
            final(self).pop_namespace == old(self).pop_namespace,
            *final(self) == (PullParser { buf: final(self).buf, ..*old(self) }),
    {
        let mut v: Vec<char> = Vec::new();
        std::mem::swap(&mut v, &mut self.buf);
        v
    }

    /// Appends a character to the buffer; no event.
    fn append_char_continue(&mut self, c: char) -> (r: Option<Result>)
        ensures
            r is None,
            final(self).buf@ == old(self).buf@.push(c),
            final(self).config == old(self).config,
            final(self).final_result == old(self).final_result,
            final(self).est == old(self).est,
            final(self).next_event == old(self).next_event,
            final(self).encountered == old(self).encountered,
            final(self).lexer == old(self).lexer,
            final(self).nst == old(self).nst,
            final(self).st == old(self).st,
            final(self).pos == old(self).pos,
            final(self).data == old(self).data,
            final(self).read_prefix_separator == old(self).read_prefix_separator,
            final(self).state_after_reference == old(self).state_after_reference,
            final(self).entities == old(self).entities,
            *final(self) == (PullParser { buf: final(self).buf, ..*old(self) }),
    {
        self.buf.push(c);
        None
    }

    /// Moves to `st` with `ev` as the result.
    fn into_state(&mut self, st: State, ev: Option<Result>) -> (r: Option<Result>)
        ensures
            r == ev,
            *final(self) == (PullParser { st, ..*old(self) }),
    {
        self.st = st;
        ev
    }

    /// Moves to `st`; no event.
    fn into_state_continue(&mut self, st: State) -> (r: Option<Result>)
        ensures
            r is None,
            *final(self) == (PullParser { st, ..*old(self) }),
    {
        self.into_state(st, None)
    }

    /// Moves to `st` with the event `ev`.
    fn into_state_emit(&mut self, st: State, ev: Result) -> (r: Option<Result>)
        ensures
            r == Some(ev),
            *final(self) == (PullParser { st, ..*old(self) }),
    {
        self.into_state(st, Some(ev))
    }
}

impl PullParser {
    /// The prefix of `name` as a lookup key, and the name with the namespace
    /// that key is bound to.
    fn resolve(&self, name: &OwnedName) -> (r: Option<OwnedName>)
        ensures
            match r {
                Some(n) => resolve_name(name@, self.nst@) == Some(n@),
                None => resolve_name(name@, self.nst@) is None,
            },
    {
        let key = match &name.prefix {
            Some(p) => copy_chars(p),
            None => Vec::new(),
        };
        assert(key@ == prefix_key(name@));
        match self.nst.get(&key) {
            Some(ns) => {
                let namespace = if ns.len() == 0 {
                    None
                } else {
                    Some(ns)
                };
                Some(
                    OwnedName::qualified(
                        copy_chars(&name.local_name),
                        namespace,
                        crate::name::copy_opt_chars(&name.prefix),
                    ),
                )
            },
            None => None,
        }
    }

    /// Reports the start of the element read, resolving the prefixes of its
    /// name and attributes; an empty element's end is reported next.
    fn emit_start_element(&mut self, emit_end_element: bool) -> (r: Option<Result>)
        requires
            old(self).encountered == Encountered::Element,
            old(self).wf(),
            old(self).next_event is None,
        ensures
            old(self).step(*final(self), opt_result_view(r)),
            final(self).buf == old(self).buf,
            old(self).data.element_name is None ==> r is None && *final(self) == *old(self),
            old(self).data.element_name is Some ==> old(self).start_element_post(
                old(self).data.element_name->Some_0@,
                emit_end_element,
                *final(self),
                opt_result_view(r),
            ),
    {
        let name = match self.data.element_name.take() {
            Some(n) => n,
            None => {
                return None;
            },
        };
        let attributes = self.data.take_attributes();
        proof {
            old(self).lemma_quiet_step(*self, None);
        }
        // check whether the name prefix is bound and fix its namespace
        let name = match self.resolve(&name) {
            Some(n) => n,
            None => {
                let repr = name.to_repr();
                let mut m = text("Element ");
                push_all(&mut m, &repr);
                let tail = text(" prefix is unbound");
                push_all(&mut m, &tail);
                let r = self.error(m);
                proof {
                    old(self).lemma_quiet_step(*self, opt_result_view(Some(r)));
                }
                return Some(r);
            },
        };
        // check and fix accumulated attributes prefixes
        let ghost attrs = attrs_view(attributes@);
        let ghost nst = self.nst@;
        let mut resolved: Vec<OwnedAttribute> = Vec::new();
        let mut i: usize = 0;
        let ghost s0 = *self;
        while i < attributes.len()
            invariant
                *self == s0,
                self.buf == old(self).buf,
                self.st == old(self).st,
                self.pop_namespace == old(self).pop_namespace,
                old(self).wf(),
                old(self).next_event is None,
                old(self).quiet(s0),
                old(self).data.element_name is Some,
                resolve_name(old(self).data.element_name->Some_0@, old(self).nst@) is Some,
                attributes == old(self).data.attributes,
                i <= attributes.len(),
                attrs == attrs_view(attributes@),
                nst == self.nst@,
                resolved.len() == i,
                forall|j: int|
                    0 <= j < i ==> (#[trigger] resolve_attr(attrs[j], nst)) == Some(
                        resolved@[j]@,
                    ),
            decreases attributes.len() - i,
        {
            let attr = &attributes[i];
            assert(attr@ == attrs[i as int]);
            match &attr.name.prefix {
                Some(_) => match self.resolve(&attr.name) {
                    Some(n) => {
                        resolved.push(OwnedAttribute::new(n, copy_chars(&attr.value)));
                    },
                    None => {
                        let repr = attr.name.to_repr();
                        let mut m = text("Attribute ");
                        push_all(&mut m, &repr);
                        let tail = text(" prefix is unbound");
                        push_all(&mut m, &tail);
                        let r = self.error(m);
                        proof {
                            old(self).lemma_quiet_step(*self, opt_result_view(Some(r)));
                            assert(first_unbound(attrs, nst, i as int));
                            assert(m@ =~= "Attribute "@ + name_repr(attrs[i as int].name)
                                + " prefix is unbound"@);
                            assert(first_unbound(attrs, nst, i as int) && opt_result_view(Some(r))
                                == Some(
                                Err::<EventView, ErrorView>(
                                    ErrorView {
                                        pos: old(self).lexer.spec_position(),
                                        msg: "Attribute "@ + name_repr(attrs[i as int].name)
                                            + " prefix is unbound"@,
                                    },
                                ),
                            ));
                        }
                        return Some(r);
                    },
                },
                None => {
                    resolved.push(attr.duplicate());
                },
            }
            i = i + 1;
        }
        proof {
            assert(all_resolve(attrs, nst));
            assert(attrs_view(resolved@) =~= resolved_attrs(attrs, nst));
        }
        let ghost before_push = *self;
        if emit_end_element {
            self.pop_namespace = true;
            self.next_event = Some(Ok(XmlEvent::EndElement { name: name.duplicate() }));
        } else {
            self.est.push(name.duplicate());
            assert(self.est@.drop_last() =~= before_push.est@);
        }
        let namespace = self.nst.squash();
        let r = self.into_state_emit(
            State::OutsideTag,
            Ok(XmlEvent::StartElement { name, attributes: resolved, namespace }),
        );
        proof {
            assert(names_view(self.est@) + match self.next_event {
                Some(Ok(XmlEvent::EndElement { name })) => seq![name@],
                _ => Seq::<NameView>::empty(),
            } =~= old(self).open_elements().push(r->Some_0->Ok_0->StartElement_name@));
        }
        r
    }

    /// Reports the end of the element read, if it closes the innermost open
    /// element.
    fn emit_end_element(&mut self) -> (r: Option<Result>)
        requires
            old(self).wf(),
            old(self).next_event is None,
        ensures
            old(self).step(*final(self), opt_result_view(r)),
            final(self).buf == old(self).buf,
            old(self).end_element_read_post(*final(self), opt_result_view(r)),
    {
        let name = match self.data.element_name.take() {
            Some(n) => n,
            None => {
                return None;
            },
        };
        proof {
            old(self).lemma_quiet_step(*self, None);
        }
        // check whether the name prefix is bound and fix its namespace
        let name = match self.resolve(&name) {
            Some(n) => n,
            None => {
                let repr = name.to_repr();
                let mut m = text("Element ");
                push_all(&mut m, &repr);
                let tail = text(" prefix is unbound");
                push_all(&mut m, &tail);
                let r = self.error(m);
                proof {
                    old(self).lemma_quiet_step(*self, opt_result_view(Some(r)));
                }
                return Some(r);
            },
        };
        let op_name = match self.est.pop() {
            Some(n) => n,
            None => {
                proof {
                    old(self).lemma_quiet_step(*self, None);
                }
                return None;
            },
        };
        proof {
            assert(op_name == old(self).est@.last());
            assert(names_view(self.est@) =~= names_view(old(self).est@).drop_last());
            assert(old(self).open_elements() =~= names_view(old(self).est@));
            assert(self.open_elements() =~= names_view(self.est@));
        }
        if name.same_as(&op_name) {
            self.pop_namespace = true;
            self.into_state_emit(State::OutsideTag, Ok(XmlEvent::EndElement { name }))
        } else {
            let a = name.to_repr();
            let b = op_name.to_repr();
            let mut m = text("Unexpected closing tag: ");
            push_all(&mut m, &a);
            let mid = text(", expected ");
            push_all(&mut m, &mid);
            push_all(&mut m, &b);
            Some(self.error(m))
        }
    }

    /// Dispatches tokens in order to process qualified name. If qualified
    /// name cannot be parsed, an error is returned; when the name ends, the
    /// handler of the current state gets it.
    fn read_qualified_name(
        &mut self,
        t: Token,
        target: QualifiedNameTarget,
        on_name: NameCallback,
    ) -> (r: Option<Result>)
        requires
            (on_name == NameCallback::OpeningTagName || on_name == NameCallback::AttributeName)
                ==> old(self).encountered == Encountered::Element,
            old(self).wf(),
            old(self).next_event is None,
        ensures
            old(self).step(*final(self), opt_result_view(r)),
            old(self).qname_post(t, target, *final(self), opt_result_view(r)),
            (on_name == NameCallback::ClosingTagName && old(self).qname_ends(t, target)
                && spec_parse_name(old(self).buf@) is Some) ==> old(self).closing_name_post(
                t,
                spec_parse_name(old(self).buf@)->Some_0,
                *final(self),
                opt_result_view(r),
            ),
            (on_name == NameCallback::OpeningTagName && old(self).qname_ends(t, target)
                && spec_parse_name(old(self).buf@) is Some) ==> old(self).opening_name_post(
                t,
                spec_parse_name(old(self).buf@)->Some_0,
                *final(self),
                opt_result_view(r),
            ),
            (on_name == NameCallback::AttributeName && old(self).qname_ends(t, target)
                && spec_parse_name(old(self).buf@) is Some) ==> old(self).attribute_name_post(
                t,
                spec_parse_name(old(self).buf@)->Some_0,
                *final(self),
                opt_result_view(r),
            ),
            on_name matches NameCallback::Declaration(ds) ==> ((old(self).qname_ends(t, target)
                && spec_parse_name(old(self).buf@) is Some) ==> old(self).declaration_name_post(
                t,
                spec_parse_name(old(self).buf@)->Some_0,
                ds,
                *final(self),
                opt_result_view(r),
            )),
    {
        // We can get here for the first time only when self.data.name contains
        // zero or one character, but first character cannot be a colon anyway
        if self.buf.len() <= 1 {
            self.read_prefix_separator = false;
        }
        let ghost mid = *self;
        proof {
            old(self).lemma_quiet_step(mid, None);
        }
        let has_data = self.buf_has_data();
        let sep = self.read_prefix_separator;
        let (is_char, c) = match t {
            Token::Character(c) => (true, c),
            _ => (false, ' '),
        };
        if is_char && c == ':' && has_data && !sep {
            // There can be only one colon, and not as the first character
            self.buf.push(':');
            self.read_prefix_separator = true;
            proof {
                old(self).lemma_quiet_step(*self, None);
            }
            None
        } else if is_char && c != ':' && ((!has_data && crate::common::is_name_start_char(c)) || (
        has_data && crate::common::is_name_char(c))) {
            let r = self.append_char_continue(c);
            proof {
                old(self).lemma_quiet_step(*self, None);
            }
            r
        } else if (t == Token::EqualsSign && target == QualifiedNameTarget::AttributeNameTarget)
            || (t == Token::EmptyTagEnd && target == QualifiedNameTarget::OpeningTagNameTarget)
            || (t == Token::TagEnd && (target == QualifiedNameTarget::OpeningTagNameTarget
            || target == QualifiedNameTarget::ClosingTagNameTarget)) || (is_char
            && crate::common::is_whitespace_char(c)) {
            let r = self.invoke_callback(t, on_name);
            proof {
                old(self).lemma_quiet_then_step(mid, *self, opt_result_view(r));
            }
            r
        } else {
            let tt = t.to_text();
            let r = self.error2("Unexpected token inside qualified name: ", &tt);
            proof {
                old(self).lemma_quiet_step(*self, opt_result_view(Some(r)));
            }
            Some(r)
        }
    }

    /// Takes the name read and hands it to the handler of the current state.
    fn invoke_callback(&mut self, t: Token, on_name: NameCallback) -> (r: Option<Result>)
        requires
            (on_name == NameCallback::OpeningTagName || on_name == NameCallback::AttributeName)
                ==> old(self).encountered == Encountered::Element,
            old(self).wf(),
            old(self).next_event is None,
        ensures
            old(self).step(*final(self), opt_result_view(r)),
            final(self).buf@.len() == 0,
            (on_name == NameCallback::ClosingTagName && spec_parse_name(old(self).buf@) is Some)
                ==> old(self).closing_name_post(
                t,
                spec_parse_name(old(self).buf@)->Some_0,
                *final(self),
                opt_result_view(r),
            ),
            (on_name == NameCallback::OpeningTagName && spec_parse_name(old(self).buf@) is Some)
                ==> old(self).opening_name_post(
                t,
                spec_parse_name(old(self).buf@)->Some_0,
                *final(self),
                opt_result_view(r),
            ),
            (on_name == NameCallback::AttributeName && spec_parse_name(old(self).buf@) is Some)
                ==> old(self).attribute_name_post(
                t,
                spec_parse_name(old(self).buf@)->Some_0,
                *final(self),
                opt_result_view(r),
            ),
            on_name matches NameCallback::Declaration(ds) ==> (spec_parse_name(old(self).buf@)
                is Some ==> old(self).declaration_name_post(
                t,
                spec_parse_name(old(self).buf@)->Some_0,
                ds,
                *final(self),
                opt_result_view(r),
            )),
            spec_parse_name(old(self).buf@) is None ==> opt_result_view(r) == Some(
                Err::<EventView, ErrorView>(
                    ErrorView {
                        pos: old(self).lexer.spec_position(),
                        msg: qname_invalid_msg(old(self).buf@),
                    },
                ),
            ),
    {
        let name = self.take_buf();
        proof {
            old(self).lemma_quiet_step(*self, None);
        }
        match OwnedName::parse(&name) {
            Some(n) => self.qualified_name_read(t, n, on_name),
            None => {
                let r = self.error2("Qualified name is invalid: ", &name);
                proof {
                    old(self).lemma_quiet_step(*self, opt_result_view(Some(r)));
                }
                Some(r)
            },
        }
    }

    /// The handler of the current state for a name just read.
    fn qualified_name_read(&mut self, t: Token, name: OwnedName, on_name: NameCallback) -> (r:
        Option<Result>)
        requires
            (on_name == NameCallback::OpeningTagName || on_name == NameCallback::AttributeName)
                ==> old(self).encountered == Encountered::Element,
            old(self).wf(),
            old(self).next_event is None,
        ensures
            old(self).step(*final(self), opt_result_view(r)),
            final(self).buf == old(self).buf,
            on_name == NameCallback::ClosingTagName ==> old(self).closing_name_post(
                t,
                name@,
                *final(self),
                opt_result_view(r),
            ),
            on_name == NameCallback::OpeningTagName ==> old(self).opening_name_post(
                t,
                name@,
                *final(self),
                opt_result_view(r),
            ),
            on_name == NameCallback::AttributeName ==> old(self).attribute_name_post(
                t,
                name@,
                *final(self),
                opt_result_view(r),
            ),
            on_name matches NameCallback::Declaration(ds) ==> old(self).declaration_name_post(
                t,
                name@,
                ds,
                *final(self),
                opt_result_view(r),
            ),
    {
        match on_name {
            NameCallback::OpeningTagName => self.opening_tag_name_read(t, name),
            NameCallback::AttributeName => self.attribute_name_read(t, name),
            NameCallback::ClosingTagName => self.closing_tag_name_read(t, name),
            NameCallback::Declaration(s) => self.declaration_name_read(t, name, s),
        }
    }

    /// Dispatches tokens in order to process attribute value; when the
    /// closing quote comes, the handler of the current state gets the value.
    fn read_attribute_value(&mut self, t: Token, on_value: ValueCallback) -> (r: Option<Result>)
        requires
            on_value == ValueCallback::OpeningTagAttribute ==> old(self).encountered
                == Encountered::Element,
            old(self).wf(),
            old(self).next_event is None,
        ensures
            old(self).step(*final(self), opt_result_view(r)),
            old(self).attribute_value_token_post(t, on_value, *final(self), opt_result_view(r)),
    {
        let q = self.data.quote;
        let is_ws = match t {
            Token::Character(c) => crate::common::is_whitespace_char(c),
            _ => false,
        };
        if is_ws && q.is_none() {
            // skip leading whitespace
            proof {
                old(self).lemma_quiet_step(*self, None);
            }
            None
        } else if t == Token::DoubleQuote || t == Token::SingleQuote {
            match q {
                None => {  // Entered attribute value
                    self.data.quote = Some(QuoteToken::from_token(&t));
                    proof {
                        old(self).lemma_quiet_step(*self, None);
                    }
                    None
                },
                Some(q) => {
                    if q.as_token() == t {
                        self.data.quote = None;
                        let value = self.take_buf();
                        let ghost mid = *self;
                        proof {
                            old(self).lemma_quiet_step(*self, None);
                        }
                        let r = self.attribute_value_read(value, on_value);
                        proof {
                            old(self).lemma_quiet_then_step(mid, *self, opt_result_view(r));
                        }
                        r
                    } else {
                        t.push_to_string(&mut self.buf);
                        proof {
                            old(self).lemma_quiet_step(*self, None);
                        }
                        None
                    }
                },
            }
        } else if t == Token::ReferenceStart && q.is_some() {
            self.state_after_reference = self.st;
            let r = self.into_state_continue(State::InsideReference);
            proof {
                old(self).lemma_quiet_step(*self, None);
            }
            r
        } else if t != Token::OpeningTagStart && q.is_some() {
            // Every character except " and ' and < is okay
            t.push_to_string(&mut self.buf);
            proof {
                old(self).lemma_quiet_step(*self, None);
            }
            None
        } else {
            let tt = t.to_text();
            let r = self.error2("Unexpected token inside attribute value: ", &tt);
            proof {
                old(self).lemma_quiet_step(*self, opt_result_view(Some(r)));
            }
            Some(r)
        }
    }

    /// The handler of the current state for an attribute value just read.
    fn attribute_value_read(&mut self, value: Vec<char>, on_value: ValueCallback) -> (r: Option<
        Result,
    >)
        requires
            on_value == ValueCallback::OpeningTagAttribute ==> old(self).encountered
                == Encountered::Element,
            old(self).wf(),
            old(self).next_event is None,
        ensures
            old(self).step(*final(self), opt_result_view(r)),
            on_value == ValueCallback::OpeningTagAttribute ==> old(self).attribute_value_post(
                value@,
                *final(self),
                opt_result_view(r),
            ),
            on_value matches ValueCallback::Declaration(ds) ==> old(self).declaration_value_post(
                value@,
                ds,
                *final(self),
                opt_result_view(r),
            ),
            final(self).data.quote == old(self).data.quote,
            final(self).buf == old(self).buf,
    {
        match on_value {
            ValueCallback::OpeningTagAttribute => self.opening_tag_attribute_value_read(value),
            ValueCallback::Declaration(s) => self.declaration_value_read(value, s),
        }
    }
}

} // verus!
