use vstd::prelude::*;
use crate::common::{
    chars_eq_str, hex_digits, is_name_char, is_name_start_char, is_scalar_value,
    is_whitespace_char, spec_name_char, spec_name_start_char, spec_whitespace_char,
};
use crate::namespace::{lookup, pairs_view};
use crate::reader::config::lookup_entity;
use crate::reader::events::{opt_result_view, ErrorView, EventView};
use crate::reader::lexer::{token_text, Token};
use super::inside_reference::char_ref_number;
use super::{DoctypeSubstate, MarkupData, PullParser, QuoteToken, Result, ResultView, State};

verus! {

impl PullParser {
    /// Moves to another part of the document type declaration.
    fn into_doctype(&mut self, s: DoctypeSubstate) -> (r: Option<Result>)
        requires
            old(self).wf(),
            old(self).no_pending_event(),
        ensures
            old(self).step(*final(self), opt_result_view(r)),
            r is None,
            *final(self) == (PullParser { st: State::InsideDoctype(s), ..*old(self) }),
    {
        let r = self.into_state_continue(State::InsideDoctype(s));
        proof {
            old(self).lemma_quiet_step(*self, None);
        }
        r
    }

    /// Skips a token of the document type declaration.
    fn skip_in_doctype(&mut self) -> (r: Option<Result>)
        requires
            old(self).wf(),
            old(self).no_pending_event(),
        ensures
            old(self).step(*final(self), opt_result_view(r)),
            r is None && *final(self) == *old(self),
    {
        proof {
            old(self).lemma_quiet_step(*self, None);
        }
        None
    }

    /// An error for a token the document type declaration does not allow.
    fn unexpected_in_doctype(&mut self, t: Token) -> (r: Option<Result>)
        requires
            old(self).wf(),
            old(self).no_pending_event(),
        ensures
            old(self).step(*final(self), opt_result_view(r)),
            opt_result_view(r) == Some(
                Err::<EventView, ErrorView>(
                    ErrorView {
                        pos: old(self).lexer.spec_position(),
                        msg: "Unexpected token inside DTD: "@ + token_text(t),
                    },
                ),
            ),
    {
        let tt = t.to_text();
        let r = self.error2("Unexpected token inside DTD: ", &tt);
        proof {
            old(self).lemma_quiet_step(*self, opt_result_view(Some(r)));
        }
        Some(r)
    }

    /// The token closes the quoted string that is open: the quote that
    /// opened it, or either quote where none is recorded.
    pub(super) open spec fn closes_quote_spec(self, t: Token) -> bool {
        match self.data.quote {
            Some(q) => q.as_spec_token() == t,
            None => t == Token::SingleQuote || t == Token::DoubleQuote,
        }
    }

    /// What a token `t` does inside the document type declaration, in
    /// substate `s`: `>` outside any declaration ends it; of the markup
    /// declarations inside it only general entities are read, their quoted
    /// values with character references replaced, and the first definition
    /// of a name is kept; everything else is skipped. A token that gives no
    /// error changes nothing but the state, the buffer, the entities and the
    /// name, quote and reference read.
    pub(super) open spec fn doctype_post(
        self,
        t: Token,
        s: DoctypeSubstate,
        next: PullParser,
        r: Option<ResultView>,
    ) -> bool {
        let is_char = t is Character;
        let c = t->Character_0;
        let ws = is_char && spec_whitespace_char(c);
        let quote = t == Token::SingleQuote || t == Token::DoubleQuote;
        let go = |d: DoctypeSubstate| r is None && next.st == State::InsideDoctype(d);
        let skip = r is None && next == self;
        let err = |m: Seq<char>|
            r == Some(Err::<EventView, ErrorView>(ErrorView { pos: self.lexer.spec_position(), msg: m }));
        let unexpected = err("Unexpected token inside DTD: "@ + token_text(t));
        &&& r is None ==> next == (PullParser {
            st: next.st,
            buf: next.buf,
            data: next.data,
            entities: next.entities,
            ..self
        }) && next.data == (MarkupData {
            name: next.data.name,
            quote: next.data.quote,
            ref_data: next.data.ref_data,
            ..self.data
        })
        &&& match s {
            DoctypeSubstate::Outside => if t == Token::TagEnd {
                r is None && next.st == State::OutsideTag
            } else if t == Token::MarkupDeclarationStart {
                go(DoctypeSubstate::InsideName) && next.buf@.len() == 0
            } else if t == Token::CommentStart {
                go(DoctypeSubstate::Comment)
            } else if quote {
                go(DoctypeSubstate::String) && (next.data.quote matches Some(q)
                    && q.as_spec_token() == t)
            } else if t == Token::Character('%') {
                go(DoctypeSubstate::PEReferenceInDtd)
            } else {
                skip
            },
            DoctypeSubstate::String => if self.closes_quote_spec(t) {
                go(DoctypeSubstate::Outside) && next.data.quote is None
            } else {
                skip
            },
            DoctypeSubstate::Comment => if t == Token::CommentEnd {
                go(DoctypeSubstate::Outside)
            } else {
                skip
            },
            DoctypeSubstate::InsideName => if is_char && spec_name_char(c) {
                r is None && next.buf@ == self.buf@.push(c) && next.st == self.st
            } else if ws {
                if self.buf@ == "ENTITY"@ {
                    go(DoctypeSubstate::BeforeEntityName)
                } else {
                    go(DoctypeSubstate::SkipDeclaration)
                }
            } else if t == Token::TagEnd {
                go(DoctypeSubstate::Outside)
            } else {
                go(DoctypeSubstate::SkipDeclaration)
            },
            DoctypeSubstate::BeforeEntityName => if ws {
                skip
            } else if t == Token::Character('%') {
                go(DoctypeSubstate::PEReferenceDefinitionStart)
            } else if is_char && spec_name_start_char(c) {
                go(DoctypeSubstate::EntityName) && next.buf@ == seq![c]
            } else {
                unexpected
            },
            DoctypeSubstate::EntityName => if is_char && spec_name_char(c) {
                r is None && next.buf@ == self.buf@.push(c) && next.st == self.st
            } else if ws {
                go(DoctypeSubstate::BeforeEntityValue) && next.data.name@ == self.buf@
            } else {
                unexpected
            },
            DoctypeSubstate::BeforeEntityValue => if ws {
                skip
            } else if quote {
                &&& go(DoctypeSubstate::EntityValue)
                &&& next.buf@.len() == 0
                &&& next.data.quote matches Some(q) && q.as_spec_token() == t
                &&& next.data.name == self.data.name
            } else {
                go(DoctypeSubstate::SkipDeclaration)
            },
            DoctypeSubstate::EntityValue => if self.closes_quote_spec(t) {
                &&& go(DoctypeSubstate::SkipDeclaration)
                &&& pairs_view(next.entities@) == if lookup(
                    pairs_view(self.entities@),
                    self.data.name@,
                ) is None {
                    pairs_view(self.entities@).push((self.data.name@, self.buf@))
                } else {
                    pairs_view(self.entities@)
                }
            } else if t == Token::ReferenceStart {
                go(DoctypeSubstate::NumericReferenceStart)
            } else if t == Token::Character('%') {
                go(DoctypeSubstate::PEReferenceInValue)
            } else {
                r is None && next.buf@ == self.buf@ + token_text(t) && next.st == self.st
            },
            DoctypeSubstate::NumericReferenceStart => if t == Token::Character('#') {
                go(DoctypeSubstate::NumericReference) && next.data.ref_data@.len() == 0
            } else if is_char {
                go(DoctypeSubstate::EntityValue) && next.buf@ == self.buf@ + seq!['&', c]
            } else {
                unexpected
            },
            DoctypeSubstate::NumericReference => if is_char {
                r is None && next.data.ref_data@ == self.data.ref_data@.push(c) && next.st
                    == self.st
            } else if t == Token::ReferenceEnd {
                let num = self.data.ref_data@;
                match char_ref_number(num) {
                    None => err(
                        (if num.len() > 0 && num[0] == 'x' {
                            "Invalid hexadecimal character number in an entity: "@
                        } else {
                            "Invalid decimal character number in an entity: "@
                        }) + num,
                    ),
                    Some(v) => if is_scalar_value(v) && self.allows_code(v) {
                        &&& go(DoctypeSubstate::EntityValue)
                        &&& next.buf@.len() == self.buf@.len() + 1
                        &&& next.buf@.drop_last() == self.buf@
                        &&& next.buf@.last() as u32 == v
                    } else if self.config.c.replace_unknown_entity_references {
                        go(DoctypeSubstate::EntityValue) && next.buf@ == self.buf@.push('\u{fffd}')
                    } else {
                        err("Invalid character U+"@ + hex_digits(v as nat))
                    },
                }
            } else {
                unexpected
            },
            DoctypeSubstate::PEReferenceInValue => if t == Token::ReferenceEnd {
                go(DoctypeSubstate::EntityValue)
            } else {
                skip
            },
            DoctypeSubstate::PEReferenceInDtd => if t == Token::ReferenceEnd {
                go(DoctypeSubstate::Outside)
            } else {
                skip
            },
            DoctypeSubstate::PEReferenceDefinitionStart | DoctypeSubstate::PEReferenceDefinition
            | DoctypeSubstate::SkipDeclaration => if t == Token::TagEnd {
                go(DoctypeSubstate::Outside)
            } else {
                skip
            },
        }
    }

    /// Handles a token inside the document type declaration: skips what it
    /// does not need, and records the general entities of its internal
    /// subset, first definition first.
    pub(super) fn inside_doctype(&mut self, t: Token, s: DoctypeSubstate) -> (r: Option<Result>)
        requires
            old(self).wf(),
            old(self).no_pending_event(),
        ensures
            old(self).step(*final(self), opt_result_view(r)),
            old(self).doctype_post(t, s, *final(self), opt_result_view(r)),
    {
        match s {
            DoctypeSubstate::Outside => self.doctype_outside(t),
            DoctypeSubstate::String => {
                let closes = self.closes_quote(&t);
                if closes {
                    self.data.quote = None;
                    self.into_doctype(DoctypeSubstate::Outside)
                } else {
                    self.skip_in_doctype()
                }
            },
            DoctypeSubstate::Comment => {
                if t == Token::CommentEnd {
                    self.into_doctype(DoctypeSubstate::Outside)
                } else {
                    self.skip_in_doctype()
                }
            },
            DoctypeSubstate::InsideName => self.doctype_declaration_name(t),
            DoctypeSubstate::BeforeEntityName
            | DoctypeSubstate::EntityName
            | DoctypeSubstate::BeforeEntityValue => self.doctype_entity_name(t, s),
            DoctypeSubstate::EntityValue => self.doctype_entity_value(t),
            DoctypeSubstate::NumericReferenceStart
            | DoctypeSubstate::NumericReference => self.doctype_char_reference(t, s),
            DoctypeSubstate::PEReferenceInValue => {
                if t == Token::ReferenceEnd {
                    self.into_doctype(DoctypeSubstate::EntityValue)
                } else {
                    self.skip_in_doctype()
                }
            },
            DoctypeSubstate::PEReferenceInDtd => {
                if t == Token::ReferenceEnd {
                    self.into_doctype(DoctypeSubstate::Outside)
                } else {
                    self.skip_in_doctype()
                }
            },
            DoctypeSubstate::PEReferenceDefinitionStart
            | DoctypeSubstate::PEReferenceDefinition
            | DoctypeSubstate::SkipDeclaration => {
                if t == Token::TagEnd {
                    self.into_doctype(DoctypeSubstate::Outside)
                } else {
                    self.skip_in_doctype()
                }
            },
        }
    }

    /// Whether the token closes the quoted string that is open.
    fn closes_quote(&self, t: &Token) -> (b: bool)
        ensures
            b == self.closes_quote_spec(*t),
    {
        match self.data.quote {
            Some(q) => q.as_token() == *t,
            None => *t == Token::SingleQuote || *t == Token::DoubleQuote,
        }
    }

    /// Between the declarations of the document type declaration.
    fn doctype_outside(&mut self, t: Token) -> (r: Option<Result>)
        requires
            old(self).wf(),
            old(self).no_pending_event(),
        ensures
            old(self).step(*final(self), opt_result_view(r)),
            old(self).doctype_post(t, DoctypeSubstate::Outside, *final(self), opt_result_view(r)),
    {
        if t == Token::TagEnd {
            let r = self.into_state_continue(State::OutsideTag);
            proof {
                old(self).lemma_quiet_step(*self, None);
            }
            r
        } else if t == Token::MarkupDeclarationStart {
            self.buf.clear();
            self.into_doctype(DoctypeSubstate::InsideName)
        } else if t == Token::CommentStart {
            self.into_doctype(DoctypeSubstate::Comment)
        } else if t == Token::SingleQuote || t == Token::DoubleQuote {
            self.data.quote = Some(QuoteToken::from_token(&t));
            self.into_doctype(DoctypeSubstate::String)
        } else if t == Token::Character('%') {
            self.into_doctype(DoctypeSubstate::PEReferenceInDtd)
        } else {
            self.skip_in_doctype()
        }
    }

    /// The keyword of a markup declaration: only `ENTITY` is read further.
    fn doctype_declaration_name(&mut self, t: Token) -> (r: Option<Result>)
        requires
            old(self).wf(),
            old(self).no_pending_event(),
        ensures
            old(self).step(*final(self), opt_result_view(r)),
            old(self).doctype_post(t, DoctypeSubstate::InsideName, *final(self), opt_result_view(r)),
    {
        let (is_char, c) = match t {
            Token::Character(c) => (true, c),
            _ => (false, ' '),
        };
        if is_char && is_name_char(c) {
            self.buf.push(c);
            self.skip_in_doctype()
        } else if is_char && is_whitespace_char(c) {
            let name = self.take_buf();
            if chars_eq_str(&name, "ENTITY") {
                self.into_doctype(DoctypeSubstate::BeforeEntityName)
            } else {
                self.into_doctype(DoctypeSubstate::SkipDeclaration)
            }
        } else if t == Token::TagEnd {
            self.buf.clear();
            self.into_doctype(DoctypeSubstate::Outside)
        } else {
            self.buf.clear();
            self.into_doctype(DoctypeSubstate::SkipDeclaration)
        }
    }

    /// The name of a general entity, and what stands before its value.
    fn doctype_entity_name(&mut self, t: Token, s: DoctypeSubstate) -> (r: Option<Result>)
        requires
            s == DoctypeSubstate::BeforeEntityName || s == DoctypeSubstate::EntityName || s
                == DoctypeSubstate::BeforeEntityValue,
            old(self).wf(),
            old(self).no_pending_event(),
        ensures
            old(self).step(*final(self), opt_result_view(r)),
            old(self).doctype_post(t, s, *final(self), opt_result_view(r)),
    {
        let (is_char, c) = match t {
            Token::Character(c) => (true, c),
            _ => (false, ' '),
        };
        let is_ws = is_char && is_whitespace_char(c);
        if s == DoctypeSubstate::BeforeEntityName {
            if is_ws {
                self.skip_in_doctype()
            } else if t == Token::Character('%') {
                self.into_doctype(DoctypeSubstate::PEReferenceDefinitionStart)
            } else if is_char && is_name_start_char(c) {
                self.buf.clear();
                self.buf.push(c);
                self.into_doctype(DoctypeSubstate::EntityName)
            } else {
                self.unexpected_in_doctype(t)
            }
        } else if s == DoctypeSubstate::EntityName {
            if is_char && is_name_char(c) {
                self.buf.push(c);
                self.skip_in_doctype()
            } else if is_ws {
                self.data.name = self.take_buf();
                self.into_doctype(DoctypeSubstate::BeforeEntityValue)
            } else {
                self.unexpected_in_doctype(t)
            }
        } else if is_ws {
            self.skip_in_doctype()
        } else if t == Token::SingleQuote || t == Token::DoubleQuote {
            self.data.quote = Some(QuoteToken::from_token(&t));
            self.buf.clear();
            self.into_doctype(DoctypeSubstate::EntityValue)
        } else {
            // an external entity: not read
            self.data.name.clear();
            self.into_doctype(DoctypeSubstate::SkipDeclaration)
        }
    }

    /// The quoted value of a general entity.
    fn doctype_entity_value(&mut self, t: Token) -> (r: Option<Result>)
        requires
            old(self).wf(),
            old(self).no_pending_event(),
        ensures
            old(self).step(*final(self), opt_result_view(r)),
            old(self).doctype_post(t, DoctypeSubstate::EntityValue, *final(self), opt_result_view(r)),
    {
        let closes = self.closes_quote(&t);
        if closes {
            self.data.quote = None;
            let value = self.take_buf();
            let name = self.data.take_name();
            if lookup_entity(&self.entities, &name).is_none() {
                let ghost before = self.entities@;
                let ghost p = (name@, value@);
                self.entities.push((name, value));
                assert(pairs_view(self.entities@) =~= pairs_view(before).push(p));
                proof {
                    let e = pairs_view(before);
                    let e2 = pairs_view(self.entities@);
                    assert forall|i: int, j: int| 0 <= i < j < e2.len() implies e2[i].0
                        != e2[j].0 by {
                        if j == e2.len() - 1 {
                            if e[i].0 == p.0 {
                                crate::namespace::lemma_lookup_absent_inv(e, p.0, i);
                            }
                        } else {
                            assert(e2[i] == e[i] && e2[j] == e[j]);
                        }
                    }
                }
            }
            self.into_doctype(DoctypeSubstate::SkipDeclaration)
        } else if t == Token::ReferenceStart {
            self.into_doctype(DoctypeSubstate::NumericReferenceStart)
        } else if t == Token::Character('%') {
            self.into_doctype(DoctypeSubstate::PEReferenceInValue)
        } else {
            t.push_to_string(&mut self.buf);
            self.skip_in_doctype()
        }
    }

    /// A reference inside an entity value: a character reference is
    /// replaced by its character, a general entity reference stays.
    fn doctype_char_reference(&mut self, t: Token, s: DoctypeSubstate) -> (r: Option<Result>)
        requires
            s == DoctypeSubstate::NumericReferenceStart || s == DoctypeSubstate::NumericReference,
            old(self).wf(),
            old(self).no_pending_event(),
        ensures
            old(self).step(*final(self), opt_result_view(r)),
            old(self).doctype_post(t, s, *final(self), opt_result_view(r)),
    {
        let (is_char, c) = match t {
            Token::Character(c) => (true, c),
            _ => (false, ' '),
        };
        if s == DoctypeSubstate::NumericReferenceStart {
            if t == Token::Character('#') {
                self.data.ref_data.clear();
                self.into_doctype(DoctypeSubstate::NumericReference)
            } else if is_char {
                let ghost b0 = self.buf@;
                self.buf.push('&');
                self.buf.push(c);
                assert(self.buf@ =~= b0 + seq!['&', c]);
                self.into_doctype(DoctypeSubstate::EntityValue)
            } else {
                self.unexpected_in_doctype(t)
            }
        } else if is_char {
            self.data.ref_data.push(c);
            self.skip_in_doctype()
        } else if t == Token::ReferenceEnd {
            let num = self.data.take_ref_data();
            match self.numeric_reference_from_str(&num) {
                Ok(c) => {
                    let ghost b0 = self.buf@;
                    self.buf.push(c);
                    assert(self.buf@.drop_last() =~= b0);
                    self.into_doctype(DoctypeSubstate::EntityValue)
                },
                Err(e) => {
                    let r = self.error(e);
                    proof {
                        old(self).lemma_quiet_step(*self, opt_result_view(Some(r)));
                    }
                    Some(r)
                },
            }
        } else {
            self.unexpected_in_doctype(t)
        }
    }
}

} // verus!
