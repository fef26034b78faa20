use vstd::prelude::*;
use crate::common::{chars_eq_str, is_whitespace_char, push_all, text};
use crate::name::OwnedName;
use crate::namespace::{ns_xml_prefix, ns_xmlns_prefix};
use crate::reader::events::{opt_result_view, ErrorView, EventView};
use crate::reader::lexer::{token_text, Token};
use super::{
    ClosingTagSubstate, NameCallback, PullParser, QualifiedNameTarget, Result, ResultView, State,
};

verus! {

impl PullParser {
    /// What a token `t` in a closing tag, in substate `s`, does: the
    /// element's name is read, then `>` reports the end of the element and
    /// white space is skipped; anything else is an error.
    pub open spec fn closing_tag_post(
        self,
        t: Token,
        s: ClosingTagSubstate,
        next: PullParser,
        r: Option<ResultView>,
    ) -> bool {
        &&& s == ClosingTagSubstate::CTInsideName ==> self.closing_tag_name_post(t, next, r)
        &&& s == ClosingTagSubstate::CTAfterName ==> match t {
            Token::TagEnd => self.end_element_read_post(next, r),
            Token::Character(c) => if crate::common::spec_whitespace_char(c) {
                r is None && next == self
            } else {
                r == Some(
                    Err::<EventView, ErrorView>(
                        ErrorView {
                            pos: self.lexer_position(),
                            msg: "Unexpected token inside closing tag: "@ + token_text(t),
                        },
                    ),
                ) && next == self
            },
            _ => r == Some(
                Err::<EventView, ErrorView>(
                    ErrorView {
                        pos: self.lexer_position(),
                        msg: "Unexpected token inside closing tag: "@ + token_text(t),
                    },
                ),
            ) && next == self,
        }
    }

    /// Handles a token inside a closing tag: reads the element's name, then
    /// waits for `>` and reports the end of the element.
    pub fn inside_closing_tag_name(&mut self, t: Token, s: ClosingTagSubstate) -> (r: Option<
        Result,
    >)
        requires
            old(self).wf(),
            old(self).no_pending_event(),
        ensures
            old(self).step(*final(self), opt_result_view(r)),
            old(self).closing_tag_post(t, s, *final(self), opt_result_view(r)),
    {
        match s {
            ClosingTagSubstate::CTInsideName => self.read_qualified_name(
                t,
                QualifiedNameTarget::ClosingTagNameTarget,
                NameCallback::ClosingTagName,
            ),
            ClosingTagSubstate::CTAfterName => {
                let is_ws = match t {
                    Token::Character(c) => is_whitespace_char(c),
                    _ => false,
                };
                if t == Token::TagEnd {
                    self.emit_end_element()
                } else if is_ws {
                    //  Skip whitespace
                    proof {
                        old(self).lemma_quiet_step(*self, None);
                    }
                    None
                } else {
                    let tt = t.to_text();
                    let r = self.error2("Unexpected token inside closing tag: ", &tt);
                    proof {
                        old(self).lemma_quiet_step(*self, opt_result_view(Some(r)));
                    }
                    Some(r)
                }
            },
        }
    }

    /// The name of a closing tag has been read, up to `token`.
    pub(super) fn closing_tag_name_read(&mut self, token: Token, name: OwnedName) -> (r: Option<
        Result,
    >)
        requires
            old(self).wf(),
            old(self).no_pending_event(),
        ensures
            old(self).step(*final(self), opt_result_view(r)),
            final(self).buf == old(self).buf,
            old(self).closing_name_post(token, name@, *final(self), opt_result_view(r)),
    {
        let reserved = match &name.prefix {
            Some(prefix) => chars_eq_str(prefix, "xml") || chars_eq_str(prefix, "xmlns"),
            None => false,
        };
        proof {
            reveal_strlit("xml");
            reveal_strlit("xmlns");
        }
        if reserved {
            let p = name.prefix.unwrap();
            let mut m = text("'Some(\"");
            push_all(&mut m, &p);
            let tail = text("\")' cannot be an element name prefix");
            push_all(&mut m, &tail);
            let r = self.error(m);
            proof {
                old(self).lemma_quiet_step(*self, opt_result_view(Some(r)));
            }
            return Some(r);
        }
        assert(name@.prefix != Some(ns_xml_prefix()) && name@.prefix != Some(ns_xmlns_prefix()));
        self.data.element_name = Some(name.duplicate());
        let ghost mid = *self;
        proof {
            old(self).lemma_quiet_step(*self, None);
        }
        let is_ws = match token {
            Token::Character(c) => is_whitespace_char(c),
            _ => false,
        };
        if token == Token::TagEnd {
            let r = self.emit_end_element();
            proof {
                old(self).lemma_quiet_then_step(mid, *self, opt_result_view(r));
            }
            r
        } else if is_ws {
            let r = self.into_state_continue(State::InsideClosingTag(ClosingTagSubstate::CTAfterName));
            proof {
                old(self).lemma_quiet_step(*self, None);
            }
            r
        } else {
            let tt = token.to_text();
            let r = self.error2("Unexpected token inside closing tag: ", &tt);
            proof {
                old(self).lemma_quiet_step(*self, opt_result_view(Some(r)));
            }
            Some(r)
        }
    }
}

} // verus!
