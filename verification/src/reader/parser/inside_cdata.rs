use vstd::prelude::*;
use crate::common::{hex_digits, hex_upper, is_whitespace_char, spec_whitespace_char};
use crate::reader::events::{opt_result_view, ErrorView, EventView, XmlEvent};
use crate::reader::lexer::{token_text, Token};
use super::{popped_positions, PullParser, Result, ResultView, State};

verus! {

impl PullParser {
    /// What a token `t` does inside CDATA: `]]>` ends it and reports what
    /// was collected, or leaves it with the text when CDATA is read as text;
    /// a character XML does not allow is an error; anything else is
    /// collected.
    pub(super) open spec fn cdata_post(self, t: Token, next: PullParser, r: Option<ResultView>) -> bool {
        if t == Token::CDataEnd {
            &&& next.st == State::OutsideTag
            &&& if self.config.c.cdata_to_characters {
                &&& r is None
                &&& next == (PullParser { st: next.st, pos: next.pos, ..self })
                &&& next.pos@ == if self.buf@.len() == 0 {
                    popped_positions(self)
                } else {
                    self.pos@
                }
            } else {
                &&& r == Some(Ok::<EventView, ErrorView>(EventView::CData(self.buf@)))
                &&& next.buf@.len() == 0
                &&& next == (PullParser { st: next.st, buf: next.buf, ..self })
            }
        } else if t is Character && !self.allows_code(t->Character_0 as u32) {
            r == Some(
                Err::<EventView, ErrorView>(
                    ErrorView {
                        pos: self.lexer.spec_position(),
                        msg: "Invalid character U+"@ + hex_digits(t->Character_0 as nat),
                    },
                ),
            )
        } else {
            &&& r is None
            &&& next.buf@ == self.buf@ + token_text(t)
            &&& next == (PullParser {
                buf: next.buf,
                inside_whitespace: self.inside_whitespace && !(self.config.c.cdata_to_characters
                    && !(t is Character && spec_whitespace_char(t->Character_0))),
                ..self
            })
        }
    }

    /// Handles a token inside CDATA: collects it, and at `]]>` reports the
    /// section, or leaves it with the text when CDATA is read as text.
    pub(super) fn inside_cdata(&mut self, t: Token) -> (r: Option<Result>)
        requires
            old(self).wf(),
            old(self).no_pending_event(),
        ensures
            old(self).step(*final(self), opt_result_view(r)),
            old(self).cdata_post(t, *final(self), opt_result_view(r)),
    {
        let (is_char, c) = match t {
            Token::Character(c) => (true, c),
            _ => (false, ' '),
        };
        if t == Token::CDataEnd {
            let event = if self.config.c.cdata_to_characters {
                // start called push_pos, but there will be no event to pop it
                if self.buf.len() == 0 {
                    self.next_pos();
                }
                None
            } else {
                let data = self.take_buf();
                Some(Ok(XmlEvent::CData(data)))
            };
            let r = self.into_state(State::OutsideTag, event);
            proof {
                old(self).lemma_quiet_step(*self, opt_result_view(r));
            }
            r
        } else if is_char && !self.is_valid_xml_char(c) {
            let h = hex_upper(c as u32);
            let r = self.error2("Invalid character U+", &h);
            proof {
                old(self).lemma_quiet_step(*self, opt_result_view(Some(r)));
            }
            Some(r)
        } else {
            if self.config.c.cdata_to_characters && !(is_char && is_whitespace_char(c)) {
                self.inside_whitespace = false;
            }
            t.push_to_string(&mut self.buf);
            proof {
                old(self).lemma_quiet_step(*self, None);
            }
            None
        }
    }
}

} // verus!
