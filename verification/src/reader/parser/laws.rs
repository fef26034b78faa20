//! What single tokens do to the text and values the parser reads, stated
//! over the contract of the token handlers.

use vstd::prelude::*;
use crate::attribute::AttrView;
use crate::common::{spec_whitespace_char, XmlVersion};
use crate::reader::events::{ErrorView, EventView};
use crate::reader::lexer::{token_text, Token};
use super::{
    rank, DeclarationSubstate, DoctypeSubstate, OpeningTagSubstate, PullParser, ResultView, State,
};

verus! {

/// The text read so far counts as white space only while it holds nothing
/// but white space.
pub(super) open spec fn white_text(p: PullParser) -> bool {
    p.inside_whitespace ==> forall|i: int|
        0 <= i < p.buf@.len() ==> spec_whitespace_char(#[trigger] p.buf@[i])
}

/// Inside an attribute value opened by one kind of quote, a quote of the
/// other kind is part of the value: it is added to the text read, and the
/// value stays open.
proof fn lemma_other_quote_is_value_text(
    p: PullParser,
    t: Token,
    next: PullParser,
    r: Option<ResultView>,
)
    requires
        p.st == State::InsideOpeningTag(OpeningTagSubstate::InsideAttributeValue),
        t == Token::SingleQuote || t == Token::DoubleQuote,
        p.data.quote is Some,
        p.data.quote->Some_0.as_spec_token() != t,
        p.token_post(t, next, r),
    ensures
        r is None,
        next.buf@ == p.buf@.push(
            if t == Token::SingleQuote {
                '\''
            } else {
                '"'
            },
        ),
        next.data.quote == p.data.quote,
        next.st == p.st,
{
    assert(p.buf@ + crate::reader::lexer::token_text(t) =~= p.buf@.push(
        if t == Token::SingleQuote {
            '\''
        } else {
            '"'
        },
    ));
}

/// Before an attribute value opens, white space is skipped, and a quote
/// opens the value, to be closed by a quote of the same kind.
proof fn lemma_quote_opens_value(p: PullParser, t: Token, next: PullParser, r: Option<ResultView>)
    requires
        p.st == State::InsideOpeningTag(OpeningTagSubstate::InsideAttributeValue),
        p.data.quote is None,
        p.token_post(t, next, r),
    ensures
        (t is Character && spec_whitespace_char(t->Character_0)) ==> r is None && next == p,
        (t == Token::SingleQuote || t == Token::DoubleQuote) ==> {
            &&& r is None
            &&& next.data.quote is Some
            &&& next.data.quote->Some_0.as_spec_token() == t
            &&& next.buf == p.buf
            &&& next.st == p.st
        },
{
}

/// Inside an open attribute value, every token but the quote that opened
/// it, `&` and `<` is part of the value: its text is added to the text read.
proof fn lemma_value_token_is_value_text(
    p: PullParser,
    t: Token,
    next: PullParser,
    r: Option<ResultView>,
)
    requires
        p.st == State::InsideOpeningTag(OpeningTagSubstate::InsideAttributeValue),
        p.data.quote is Some,
        p.data.quote->Some_0.as_spec_token() != t,
        t != Token::ReferenceStart,
        t != Token::OpeningTagStart,
        p.token_post(t, next, r),
    ensures
        r is None,
        next.buf@ == p.buf@ + token_text(t),
        next.data.quote == p.data.quote,
        next.st == p.st,
{
}

/// `<` cannot stand in an attribute value.
proof fn lemma_lt_in_attribute_value(p: PullParser, next: PullParser, r: Option<ResultView>)
    requires
        p.st == State::InsideOpeningTag(OpeningTagSubstate::InsideAttributeValue),
        p.token_post(Token::OpeningTagStart, next, r),
    ensures
        r == Some(
            Err::<EventView, ErrorView>(
                ErrorView {
                    pos: p.lexer.spec_position(),
                    msg: "Unexpected token inside attribute value: <"@,
                },
            ),
        ),
{
    reveal_strlit("<");
    assert("Unexpected token inside attribute value: "@ + token_text(Token::OpeningTagStart)
        =~= "Unexpected token inside attribute value: <"@) by {
        reveal_strlit("Unexpected token inside attribute value: ");
        reveal_strlit("Unexpected token inside attribute value: <");
    }
}

/// `&` inside an open attribute value starts a reference that comes back to
/// the value, the text read so far kept.
proof fn lemma_reference_in_attribute_value(p: PullParser, next: PullParser, r: Option<ResultView>)
    requires
        p.st == State::InsideOpeningTag(OpeningTagSubstate::InsideAttributeValue),
        p.data.quote is Some,
        p.token_post(Token::ReferenceStart, next, r),
    ensures
        r is None,
        next.st == State::InsideReference,
        next.state_after_reference == p.st,
        next.buf == p.buf,
        next.data.quote == p.data.quote,
{
}

/// The quote that opened an attribute value closes it, and the attribute
/// is kept with exactly the text read between the two quotes as its value
/// (where it declares no namespace and was not given before in the tag).
proof fn lemma_closing_quote_keeps_value(
    p: PullParser,
    t: Token,
    next: PullParser,
    r: Option<ResultView>,
)
    requires
        p.st == State::InsideOpeningTag(OpeningTagSubstate::InsideAttributeValue),
        p.data.quote is Some,
        p.data.quote->Some_0.as_spec_token() == t,
        p.data.attr_name is Some,
        p.data.attr_name->Some_0@.prefix is None,
        p.data.attr_name->Some_0@.local_name != "xmlns"@,
        r is None,
        p.token_post(t, next, r),
    ensures
        crate::attribute::attrs_view(next.data.attributes@) == crate::attribute::attrs_view(
            p.data.attributes@,
        ).push(AttrView { name: p.data.attr_name->Some_0@, value: p.buf@ }),
        next.data.quote is None,
        next.buf@.len() == 0,
        next.st == State::InsideOpeningTag(OpeningTagSubstate::InsideTag),
{
}

/// An attribute given twice in a tag is an error when its second value
/// ends.
proof fn lemma_attribute_redefined(
    p: PullParser,
    t: Token,
    i: int,
    next: PullParser,
    r: Option<ResultView>,
)
    requires
        p.st == State::InsideOpeningTag(OpeningTagSubstate::InsideAttributeValue),
        p.data.quote is Some,
        p.data.quote->Some_0.as_spec_token() == t,
        p.data.attr_name is Some,
        p.data.attr_name->Some_0@.prefix is None,
        p.data.attr_name->Some_0@.local_name != "xmlns"@,
        0 <= i < p.data.attributes@.len(),
        p.data.attributes@[i].name@ == p.data.attr_name->Some_0@,
        p.token_post(t, next, r),
    ensures
        r == Some(
            Err::<EventView, ErrorView>(
                ErrorView {
                    pos: p.lexer.spec_position(),
                    msg: "Attribute '"@ + crate::name::name_repr(p.data.attr_name->Some_0@)
                        + "' is redefined"@,
                },
            ),
        ),
{
    assert(super::same_attr_name(p.data.attributes@[i].name@, p.data.attr_name->Some_0@));
}

/// In text, a character other than white space makes the text read count
/// as characters, not white space.
proof fn lemma_text_char_ends_whitespace(
    p: PullParser,
    c: char,
    next: PullParser,
    r: Option<ResultView>,
)
    requires
        p.st == State::OutsideTag,
        !spec_whitespace_char(c),
        p.token_post(Token::Character(c), next, r),
        r is None,
    ensures
        !next.inside_whitespace,
        next.buf@ == p.buf@.push(c),
{
}

/// In text inside the root element, a character XML allows is added to the
/// text read, but for white space that is dropped where text is trimmed
/// and nothing has been read yet.
proof fn lemma_text_char_is_read(p: PullParser, c: char, next: PullParser, r: Option<ResultView>)
    requires
        p.st == State::OutsideTag,
        p.est@.len() > 0,
        p.allows_text_char(c),
        !(spec_whitespace_char(c) && p.config.c.trim_whitespace && p.buf@.len() == 0),
        p.token_post(Token::Character(c), next, r),
    ensures
        r is None,
        next.buf@ == p.buf@.push(c),
        next.st == State::OutsideTag,
{
}

/// Outside the root element, a character other than white space is an
/// error.
proof fn lemma_text_outside_root(p: PullParser, c: char, next: PullParser, r: Option<ResultView>)
    requires
        p.st == State::OutsideTag,
        p.est@.len() == 0,
        !spec_whitespace_char(c),
        p.token_post(Token::Character(c), next, r),
    ensures
        r matches Some(Err(e)) && e.msg == "Unexpected characters outside the root element: "@
            + seq![c],
{
}

/// In text, a token that gives nothing and stays in text keeps the text
/// read counted as white space only while it is white space.
proof fn lemma_text_stays_white(p: PullParser, t: Token, next: PullParser, r: Option<ResultView>)
    requires
        p.st == State::OutsideTag,
        white_text(p),
        p.token_post(t, next, r),
        r is None,
        next.st == State::OutsideTag,
    ensures
        white_text(next),
{
    if t is Character && next.inside_whitespace {
        assert forall|i: int| 0 <= i < next.buf@.len() implies spec_whitespace_char(
            #[trigger] next.buf@[i],
        ) by {
            if i < p.buf@.len() {
                assert(next.buf@[i] == p.buf@[i]);
            }
        }
    }
}

/// In CDATA read as text, a token that gives nothing keeps the text read
/// counted as white space only while it is white space.
proof fn lemma_cdata_text_stays_white(
    p: PullParser,
    t: Token,
    next: PullParser,
    r: Option<ResultView>,
)
    requires
        p.st == State::InsideCData,
        p.config.c.cdata_to_characters,
        white_text(p),
        p.token_post(t, next, r),
        r is None,
        next.st == State::InsideCData,
    ensures
        white_text(next),
{
    if next.inside_whitespace {
        assert forall|i: int| 0 <= i < next.buf@.len() implies spec_whitespace_char(
            #[trigger] next.buf@[i],
        ) by {
            if i < p.buf@.len() {
                assert(next.buf@[i] == (p.buf@ + token_text(t))[i]);
            }
        }
    }
}

/// What text reports as white space holds nothing but white space.
proof fn lemma_whitespace_event_is_white(
    p: PullParser,
    t: Token,
    next: PullParser,
    r: Option<ResultView>,
)
    requires
        p.st == State::OutsideTag,
        white_text(p),
        p.token_post(t, next, r),
        r matches Some(Ok(EventView::Whitespace(_))),
    ensures
        forall|i: int|
            0 <= i < r->Some_0->Ok_0->Whitespace_0.len() ==> spec_whitespace_char(
                #[trigger] r->Some_0->Ok_0->Whitespace_0[i],
            ),
{
}

/// The standalone value of the XML declaration is `yes` or `no`, and the
/// declaration then says the document stands alone exactly for `yes`.
proof fn lemma_standalone_value(p: PullParser, t: Token, next: PullParser, r: Option<ResultView>)
    requires
        p.st == State::InsideDeclaration(DeclarationSubstate::InsideStandaloneDeclValue),
        p.data.quote is Some,
        p.data.quote->Some_0.as_spec_token() == t,
        p.token_post(t, next, r),
    ensures
        r is None <==> (p.buf@ == "yes"@ || p.buf@ == "no"@),
        r is None ==> next.data.standalone is Some,
        r is None ==> (next.data.standalone->Some_0 <==> p.buf@ == "yes"@),
{
    reveal_strlit("yes");
    reveal_strlit("no");
}

/// The version of the XML declaration is `1.0` or `1.1`, and the
/// declaration then names that version.
proof fn lemma_version_value(p: PullParser, t: Token, next: PullParser, r: Option<ResultView>)
    requires
        p.st == State::InsideDeclaration(DeclarationSubstate::InsideVersionValue),
        p.data.quote is Some,
        p.data.quote->Some_0.as_spec_token() == t,
        p.token_post(t, next, r),
    ensures
        r is None <==> (p.buf@ == "1.0"@ || p.buf@ == "1.1"@),
        p.buf@ == "1.0"@ ==> next.data.version == Some(XmlVersion::Version10),
        p.buf@ == "1.1"@ ==> next.data.version == Some(XmlVersion::Version11),
{
    reveal_strlit("1.0");
    reveal_strlit("1.1");
    assert("1.1"@[2] != "1.0"@[2]);
}

/// The encoding of the XML declaration is the text between its quotes.
proof fn lemma_encoding_value(p: PullParser, t: Token, next: PullParser, r: Option<ResultView>)
    requires
        p.st == State::InsideDeclaration(DeclarationSubstate::InsideEncodingValue),
        p.data.quote is Some,
        p.data.quote->Some_0.as_spec_token() == t,
        p.token_post(t, next, r),
    ensures
        r is None,
        next.data.encoding is Some,
        next.data.encoding->Some_0@ == p.buf@,
{
}

/// `?>` at the end of the XML declaration reports the start of the
/// document with the version, encoding and standalone value the
/// declaration gave (version 1.0 and the encoding the text is read in
/// where it gave none); a declaration that does not come first is an
/// error.
proof fn lemma_start_document_reports_declaration(
    p: PullParser,
    s: DeclarationSubstate,
    next: PullParser,
    r: Option<ResultView>,
)
    requires
        s == DeclarationSubstate::AfterVersionValue || s
            == DeclarationSubstate::BeforeStandaloneDecl || s
            == DeclarationSubstate::AfterStandaloneDeclValue,
        p.st == State::InsideDeclaration(s),
        p.token_post(Token::ProcessingInstructionEnd, next, r),
    ensures
        rank(p.encountered) < 1 ==> (r matches Some(
            Ok(EventView::StartDocument { version, encoding, standalone }),
        ) && version == (match p.data.version {
            Some(v) => v,
            None => XmlVersion::Version10,
        }) && encoding == (match p.data.encoding {
            Some(e) => e@,
            None => p.lexer.spec_encoding(),
        }) && standalone == p.data.standalone),
        rank(p.encountered) >= 1 ==> (r matches Some(Err(e)) && e.msg
            == "Unexpected XML declaration"@),
{
}

/// A predefined entity reference adds its character to the text being
/// read, in text and in attribute values alike, and goes back there.
proof fn lemma_predefined_reference(p: PullParser, next: PullParser, r: Option<ResultView>)
    requires
        p.st == State::InsideReference,
        p.data.ref_data@ == "lt"@ || p.data.ref_data@ == "gt"@ || p.data.ref_data@ == "amp"@
            || p.data.ref_data@ == "apos"@ || p.data.ref_data@ == "quot"@,
        p.token_post(Token::ReferenceEnd, next, r),
    ensures
        r is None,
        next.st == p.state_after_reference,
        p.state_after_reference == State::OutsideTag ==> !next.inside_whitespace,
        next.buf@ == p.buf@.push(
            if p.data.ref_data@ == "lt"@ {
                '<'
            } else if p.data.ref_data@ == "gt"@ {
                '>'
            } else if p.data.ref_data@ == "amp"@ {
                '&'
            } else if p.data.ref_data@ == "apos"@ {
                '\''
            } else {
                '"'
            },
        ),
{
    reveal_strlit("lt");
    reveal_strlit("gt");
    reveal_strlit("amp");
    reveal_strlit("apos");
    reveal_strlit("quot");
}

/// A reference to an entity the parser is configured with adds the text it
/// stands for, in text and in attribute values alike.
proof fn lemma_extra_entity_reference(p: PullParser, next: PullParser, r: Option<ResultView>)
    requires
        p.st == State::InsideReference,
        p.data.ref_data@.len() > 0,
        p.data.ref_data@[0] != '#',
        p.data.ref_data@ != "lt"@ && p.data.ref_data@ != "gt"@ && p.data.ref_data@ != "amp"@
            && p.data.ref_data@ != "apos"@ && p.data.ref_data@ != "quot"@,
        crate::namespace::lookup(
            crate::namespace::pairs_view(p.config.c.extra_entities@),
            p.data.ref_data@,
        ) is Some,
        p.token_post(Token::ReferenceEnd, next, r),
    ensures
        r is None,
        next.st == p.state_after_reference,
        next.buf@ == p.buf@ + crate::namespace::lookup(
            crate::namespace::pairs_view(p.config.c.extra_entities@),
            p.data.ref_data@,
        )->Some_0,
{
}

/// A character reference that gives no error adds exactly one character
/// to the text being read, in text and in attribute values alike, and goes
/// back there.
proof fn lemma_char_reference_adds_one_char(p: PullParser, next: PullParser, r: Option<ResultView>)
    requires
        p.st == State::InsideReference,
        p.data.ref_data@.len() > 0,
        p.data.ref_data@[0] == '#',
        p.token_post(Token::ReferenceEnd, next, r),
        r is None,
    ensures
        next.st == p.state_after_reference,
        next.buf@.len() == p.buf@.len() + 1,
        next.buf@.drop_last() == p.buf@,
{
    reveal_strlit("lt");
    reveal_strlit("gt");
    reveal_strlit("amp");
    reveal_strlit("apos");
    reveal_strlit("quot");
}

/// A character reference `&#n;` or `&#xh;` to a character XML allows adds
/// that character: the one whose code the decimal number `n`, or the
/// hexadecimal number `h`, writes.
proof fn lemma_char_reference_value(
    p: PullParser,
    hex: bool,
    digits: Seq<char>,
    v: u32,
    next: PullParser,
    r: Option<ResultView>,
)
    requires
        p.st == State::InsideReference,
        p.data.ref_data@ == (if hex {
            seq!['#', 'x'] + digits
        } else {
            seq!['#'] + digits
        }),
        !hex ==> digits.len() == 0 || digits[0] != 'x',
        crate::common::spec_from_str_radix(
            digits,
            if hex {
                16
            } else {
                10
            },
        ) == Some(v),
        crate::common::is_scalar_value(v),
        p.allows_code(v),
        p.token_post(Token::ReferenceEnd, next, r),
    ensures
        r is None,
        next.st == p.state_after_reference,
        next.buf@.len() == p.buf@.len() + 1,
        next.buf@.drop_last() == p.buf@,
        next.buf@.last() as u32 == v,
{
    reveal_strlit("lt");
    reveal_strlit("gt");
    reveal_strlit("amp");
    reveal_strlit("apos");
    reveal_strlit("quot");
    let name = p.data.ref_data@;
    assert(name.drop_first() =~= if hex {
        seq!['x'] + digits
    } else {
        digits
    });
    if hex {
        assert(name.drop_first().drop_first() =~= digits);
    }
}

/// A quoted literal in a document type declaration ends at the next quote
/// of the kind that opened it, and at no other token.
proof fn lemma_doctype_literal_closes_at_same_quote(
    p: PullParser,
    t: Token,
    n1: PullParser,
    r1: Option<ResultView>,
    u: Token,
    n2: PullParser,
    r2: Option<ResultView>,
)
    requires
        p.st == State::InsideDoctype(DoctypeSubstate::Outside),
        t == Token::SingleQuote || t == Token::DoubleQuote,
        p.token_post(t, n1, r1),
        n1.token_post(u, n2, r2),
    ensures
        r1 is None,
        n1.st == State::InsideDoctype(DoctypeSubstate::String),
        r2 is None,
        (n2.st == State::InsideDoctype(DoctypeSubstate::Outside)) == (u == t),
{
}

/// The quoted value of an entity in a document type declaration ends at
/// the next quote of the kind that opened it; a quote of the other kind is
/// part of the value.
proof fn lemma_entity_value_closes_at_same_quote(
    p: PullParser,
    t: Token,
    n1: PullParser,
    r1: Option<ResultView>,
    u: Token,
    n2: PullParser,
    r2: Option<ResultView>,
)
    requires
        p.st == State::InsideDoctype(DoctypeSubstate::BeforeEntityValue),
        t == Token::SingleQuote || t == Token::DoubleQuote,
        u == Token::SingleQuote || u == Token::DoubleQuote,
        p.token_post(t, n1, r1),
        n1.token_post(u, n2, r2),
    ensures
        r1 is None,
        n1.st == State::InsideDoctype(DoctypeSubstate::EntityValue),
        n1.buf@.len() == 0,
        r2 is None,
        u == t ==> n2.st == State::InsideDoctype(DoctypeSubstate::SkipDeclaration),
        u != t ==> n2.st == n1.st && n2.buf@ == n1.buf@ + token_text(u),
{
}

/// A comment in a document type declaration ends at `-->` and at no other
/// token.
proof fn lemma_doctype_comment_closes_at_end(
    p: PullParser,
    n1: PullParser,
    r1: Option<ResultView>,
    u: Token,
    n2: PullParser,
    r2: Option<ResultView>,
)
    requires
        p.st == State::InsideDoctype(DoctypeSubstate::Outside),
        p.token_post(Token::CommentStart, n1, r1),
        n1.token_post(u, n2, r2),
    ensures
        r1 is None,
        n1.st == State::InsideDoctype(DoctypeSubstate::Comment),
        r2 is None,
        (n2.st == State::InsideDoctype(DoctypeSubstate::Outside)) == (u == Token::CommentEnd),
{
}

/// `>` between the declarations of a document type declaration ends it,
/// and the parser reads text again.
proof fn lemma_doctype_ends_at_tag_end(p: PullParser, next: PullParser, r: Option<ResultView>)
    requires
        p.st == State::InsideDoctype(DoctypeSubstate::Outside),
        p.token_post(Token::TagEnd, next, r),
    ensures
        r is None,
        next.st == State::OutsideTag,
{
}

} // verus!
