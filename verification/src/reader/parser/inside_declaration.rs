use vstd::prelude::*;
use crate::common::{chars_eq_str, is_whitespace_char, push_all, text, XmlVersion};
use crate::name::OwnedName;
use crate::reader::events::{opt_result_view, ErrorView, EventView, XmlEvent};
use crate::reader::lexer::{token_text, Token};
use super::{
    DeclarationSubstate, Encountered, NameCallback, PullParser, QualifiedNameTarget, Result,
    State, ValueCallback,
};

verus! {

impl PullParser {
    /// Reports the start of the document as the declaration describes it.
    fn emit_start_document(&mut self) -> (r: Option<Result>)
        requires
            old(self).wf(),
            old(self).no_pending_event(),
        ensures
            old(self).step(*final(self), opt_result_view(r)),
            old(self).start_document_post(*final(self), opt_result_view(r)),
    {
        if self.encountered.rank() >= 1 {
            // a declaration can only come first
            let r = self.error(text("Unexpected XML declaration"));
            proof {
                old(self).lemma_quiet_step(*self, opt_result_view(Some(r)));
            }
            return Some(r);
        }
        self.encountered = Encountered::Declaration;
        let version = match self.data.version {
            Some(v) => v,
            None => XmlVersion::Version10,
        };
        let standalone = self.data.standalone;
        self.data.standalone = None;
        let encoding = match self.data.encoding.take() {
            Some(e) => e,
            None => self.lexer.encoding(),
        };
        let r = self.into_state_emit(
            State::OutsideTag,
            Ok(XmlEvent::StartDocument { version, encoding, standalone }),
        );
        proof {
            old(self).lemma_encounter_step(*self, opt_result_view(r));
        }
        r
    }

    /// Handles a token inside the XML declaration: `version`, then
    /// optionally `encoding` and `standalone`, up to `?>`.
    pub(super) fn inside_declaration(&mut self, t: Token, s: DeclarationSubstate) -> (r: Option<
        Result,
    >)
        requires
            old(self).wf(),
            old(self).no_pending_event(),
        ensures
            old(self).step(*final(self), opt_result_view(r)),
            old(self).declaration_post(t, s, *final(self), opt_result_view(r)),
    {
        let (is_char, c) = match t {
            Token::Character(c) => (true, c),
            _ => (false, ' '),
        };
        let is_ws = is_char && is_whitespace_char(c);
        match s {
            DeclarationSubstate::BeforeVersion => {
                if t == Token::Character('v') {
                    self.continue_in(DeclarationSubstate::InsideVersion)
                } else if is_ws {
                    self.skip()
                } else {
                    self.unexpected_in_declaration(t)
                }
            },
            DeclarationSubstate::InsideVersion => self.read_qualified_name(
                t,
                QualifiedNameTarget::AttributeNameTarget,
                NameCallback::Declaration(s),
            ),
            DeclarationSubstate::AfterVersion => {
                if t == Token::EqualsSign {
                    self.continue_in(DeclarationSubstate::InsideVersionValue)
                } else if is_ws {
                    self.skip()
                } else {
                    self.unexpected_in_declaration(t)
                }
            },
            DeclarationSubstate::InsideVersionValue => self.read_attribute_value(
                t,
                ValueCallback::Declaration(s),
            ),
            DeclarationSubstate::AfterVersionValue => {
                if is_ws {
                    self.skip()
                } else if t == Token::Character('e') {
                    self.continue_in(DeclarationSubstate::InsideEncoding)
                } else if t == Token::Character('s') {
                    self.continue_in(DeclarationSubstate::InsideStandaloneDecl)
                } else if t == Token::ProcessingInstructionEnd {
                    self.emit_start_document()
                } else {
                    self.unexpected_in_declaration(t)
                }
            },
            DeclarationSubstate::InsideEncoding => self.read_qualified_name(
                t,
                QualifiedNameTarget::AttributeNameTarget,
                NameCallback::Declaration(s),
            ),
            DeclarationSubstate::AfterEncoding => {
                if t == Token::EqualsSign {
                    self.continue_in(DeclarationSubstate::InsideEncodingValue)
                } else if is_ws {
                    self.skip()
                } else {
                    self.unexpected_in_declaration(t)
                }
            },
            DeclarationSubstate::InsideEncodingValue => self.read_attribute_value(
                t,
                ValueCallback::Declaration(s),
            ),
            DeclarationSubstate::BeforeStandaloneDecl => {
                if is_ws {
                    self.skip()
                } else if t == Token::Character('s') {
                    self.continue_in(DeclarationSubstate::InsideStandaloneDecl)
                } else if t == Token::ProcessingInstructionEnd {
                    self.emit_start_document()
                } else {
                    self.unexpected_in_declaration(t)
                }
            },
            DeclarationSubstate::InsideStandaloneDecl => self.read_qualified_name(
                t,
                QualifiedNameTarget::AttributeNameTarget,
                NameCallback::Declaration(s),
            ),
            DeclarationSubstate::AfterStandaloneDecl => {
                if t == Token::EqualsSign {
                    self.continue_in(DeclarationSubstate::InsideStandaloneDeclValue)
                } else if is_ws {
                    self.skip()
                } else {
                    self.unexpected_in_declaration(t)
                }
            },
            DeclarationSubstate::InsideStandaloneDeclValue => self.read_attribute_value(
                t,
                ValueCallback::Declaration(s),
            ),
            DeclarationSubstate::AfterStandaloneDeclValue => {
                if is_ws {
                    self.skip()
                } else if t == Token::ProcessingInstructionEnd {
                    self.emit_start_document()
                } else {
                    self.unexpected_in_declaration(t)
                }
            },
        }
    }

    /// Goes on in the given part of the declaration.
    fn continue_in(&mut self, s: DeclarationSubstate) -> (r: Option<Result>)
        requires
            old(self).wf(),
            old(self).no_pending_event(),
        ensures
            old(self).step(*final(self), opt_result_view(r)),
            r is None,
            *final(self) == (PullParser { st: State::InsideDeclaration(s), ..*old(self) }),
    {
        let r = self.into_state_continue(State::InsideDeclaration(s));
        proof {
            old(self).lemma_quiet_step(*self, None);
        }
        r
    }

    /// Skips a token.
    fn skip(&mut self) -> (r: Option<Result>)
        requires
            old(self).wf(),
            old(self).no_pending_event(),
        ensures
            old(self).step(*final(self), opt_result_view(r)),
            r is None && *final(self) == *old(self),
    {
        proof {
            old(self).lemma_quiet_step(*self, None);
        }
        None
    }

    /// An error for a token the declaration does not allow.
    fn unexpected_in_declaration(&mut self, t: Token) -> (r: Option<Result>)
        requires
            old(self).wf(),
            old(self).no_pending_event(),
        ensures
            old(self).step(*final(self), opt_result_view(r)),
            opt_result_view(r) == Some(
                Err::<EventView, ErrorView>(
                    ErrorView {
                        pos: old(self).lexer.spec_position(),
                        msg: "Unexpected token inside XML declaration: "@ + token_text(t),
                    },
                ),
            ),
    {
        let tt = t.to_text();
        let r = self.error2("Unexpected token inside XML declaration: ", &tt);
        proof {
            old(self).lemma_quiet_step(*self, opt_result_view(Some(r)));
        }
        Some(r)
    }

    /// The name of a declaration's pseudo-attribute has been read, less its
    /// first letter, up to `token`.
    pub(super) fn declaration_name_read(
        &mut self,
        token: Token,
        name: OwnedName,
        s: DeclarationSubstate,
    ) -> (r: Option<Result>)
        requires
            old(self).wf(),
            old(self).no_pending_event(),
        ensures
            old(self).step(*final(self), opt_result_view(r)),
            final(self).buf == old(self).buf,
            old(self).declaration_name_post(token, name@, s, *final(self), opt_result_view(r)),
    {
        let (expected, value_state, after_state) = match s {
            DeclarationSubstate::InsideVersion => (
                "ersion",
                DeclarationSubstate::InsideVersionValue,
                DeclarationSubstate::AfterVersion,
            ),
            DeclarationSubstate::InsideEncoding => (
                "ncoding",
                DeclarationSubstate::InsideEncodingValue,
                DeclarationSubstate::AfterEncoding,
            ),
            _ => (
                "tandalone",
                DeclarationSubstate::InsideStandaloneDeclValue,
                DeclarationSubstate::AfterStandaloneDecl,
            ),
        };
        if chars_eq_str(&name.local_name, expected) && name.namespace.is_none() {
            self.continue_in(
                if token == Token::EqualsSign {
                    value_state
                } else {
                    after_state
                },
            )
        } else {
            let repr = name.to_repr();
            let r = self.error2("Unexpected token inside XML declaration: ", &repr);
            proof {
                old(self).lemma_quiet_step(*self, opt_result_view(Some(r)));
            }
            Some(r)
        }
    }

    /// The value of a declaration's pseudo-attribute has been read.
    pub(super) fn declaration_value_read(&mut self, value: Vec<char>, s: DeclarationSubstate) -> (r:
        Option<Result>)
        requires
            old(self).wf(),
            old(self).no_pending_event(),
        ensures
            old(self).step(*final(self), opt_result_view(r)),
            old(self).declaration_value_post(value@, s, *final(self), opt_result_view(r)),
            final(self).data.quote == old(self).data.quote,
            final(self).buf == old(self).buf,
    {
        match s {
            DeclarationSubstate::InsideVersionValue => {
                self.data.version = if chars_eq_str(&value, "1.0") {
                    Some(XmlVersion::Version10)
                } else if chars_eq_str(&value, "1.1") {
                    Some(XmlVersion::Version11)
                } else {
                    None
                };
                if self.data.version.is_some() {
                    self.continue_in(DeclarationSubstate::AfterVersionValue)
                } else {
                    let r = self.error2("Unexpected XML version value: ", &value);
                    proof {
                        old(self).lemma_quiet_step(*self, opt_result_view(Some(r)));
                    }
                    Some(r)
                }
            },
            DeclarationSubstate::InsideEncodingValue => {
                self.data.encoding = Some(value);
                self.continue_in(DeclarationSubstate::BeforeStandaloneDecl)
            },
            _ => {
                let standalone = if chars_eq_str(&value, "yes") {
                    Some(true)
                } else if chars_eq_str(&value, "no") {
                    Some(false)
                } else {
                    None
                };
                if standalone.is_some() {
                    self.data.standalone = standalone;
                    self.continue_in(DeclarationSubstate::AfterStandaloneDeclValue)
                } else {
                    let r = self.error2("Invalid standalone declaration value: ", &value);
                    proof {
                        old(self).lemma_quiet_step(*self, opt_result_view(Some(r)));
                    }
                    Some(r)
                }
            },
        }
    }
}

} // verus!
