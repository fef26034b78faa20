use vstd::prelude::*;
use crate::common::{hex_digits, hex_upper};
use crate::reader::events::{opt_result_view, ErrorView, EventView, XmlEvent};
use crate::reader::lexer::{token_text, Token};
use super::{PullParser, Result, ResultView, State};

verus! {

impl PullParser {
    /// What a token `t` does inside a comment: `-->` ends it and reports
    /// what was collected, unless comments are dropped; a character XML does
    /// not allow is an error; anything else is collected, unless comments
    /// are dropped.
    pub(super) open spec fn comment_post(self, t: Token, next: PullParser, r: Option<ResultView>) -> bool {
        if t == Token::CommentEnd {
            &&& next.st == State::OutsideTag
            &&& next.buf@.len() == 0
            &&& next == (PullParser { st: next.st, buf: next.buf, ..self })
            &&& if self.config.c.ignore_comments {
                r is None
            } else {
                r == Some(Ok::<EventView, ErrorView>(EventView::Comment(self.buf@)))
            }
        } else if t is Character && !self.allows_code(t->Character_0 as u32) {
            r == Some(
                Err::<EventView, ErrorView>(
                    ErrorView {
                        pos: self.lexer.spec_position(),
                        msg: "Invalid character U+"@ + hex_digits(t->Character_0 as nat),
                    },
                ),
            )
        } else {
            &&& r is None
            &&& next == (PullParser { buf: next.buf, ..self })
            &&& next.buf@ == if self.config.c.ignore_comments {
                self.buf@
            } else {
                self.buf@ + token_text(t)
            }
        }
    }

    /// Handles a token inside a comment: collects it, unless comments are
    /// dropped, and reports the comment at `-->`.
    pub(super) fn inside_comment(&mut self, t: Token) -> (r: Option<Result>)
        requires
            old(self).wf(),
            old(self).no_pending_event(),
        ensures
            old(self).step(*final(self), opt_result_view(r)),
            old(self).comment_post(t, *final(self), opt_result_view(r)),
    {
        let (is_char, c) = match t {
            Token::Character(c) => (true, c),
            _ => (false, ' '),
        };
        if t == Token::CommentEnd {
            let data = self.take_buf();
            let r = if self.config.c.ignore_comments {
                self.into_state_continue(State::OutsideTag)
            } else {
                self.into_state_emit(State::OutsideTag, Ok(XmlEvent::Comment(data)))
            };
            proof {
                old(self).lemma_quiet_step(*self, opt_result_view(r));
            }
            r
        } else if is_char && !self.is_valid_xml_char(c) {
            let h = hex_upper(c as u32);
            let r = self.error2("Invalid character U+", &h);
            proof {
                old(self).lemma_quiet_step(*self, opt_result_view(Some(r)));
            }
            Some(r)
        } else if self.config.c.ignore_comments {
            // Do not modify the buffer if ignoring the comment
            proof {
                old(self).lemma_quiet_step(*self, None);
            }
            None
        } else {
            t.push_to_string(&mut self.buf);
            proof {
                old(self).lemma_quiet_step(*self, None);
            }
            None
        }
    }
}

} // verus!
