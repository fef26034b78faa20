use vstd::prelude::*;
use crate::common::{
    hex_digits, hex_upper, is_whitespace_char, spec_whitespace_char, spec_xml10_char,
    spec_xml11_char_not_restricted, text, trim_whitespace, trim_ws, TextPosition, XmlVersion,
};
use crate::reader::events::{opt_result_view, ErrorView, EventView, XmlEvent};
use crate::reader::lexer::{token_text, Token};
use super::{
    rank, ClosingTagSubstate, DoctypeSubstate, Encountered, OpeningTagSubstate,
    ProcessingInstructionSubstate, PullParser, Result, ResultView, State,
};

verus! {

impl PullParser {
    /// The character may appear in text, by the XML version in force.
    pub(super) open spec fn allows_text_char(self, c: char) -> bool {
        if self.data.version == Some(XmlVersion::Version11) {
            spec_xml11_char_not_restricted(c)
        } else {
            spec_xml10_char(c)
        }
    }

    /// The start of the document with the defaults, as reported where no
    /// declaration came first.
    pub(super) open spec fn default_start(self) -> ResultView {
        Ok(
            EventView::StartDocument {
                version: XmlVersion::Version10,
                encoding: self.lexer.spec_encoding(),
                standalone: None,
            },
        )
    }

    /// What the text collected so far is reported as when markup starts:
    /// nothing, white space, or characters (trimmed where the parser is told
    /// to trim them).
    pub(super) open spec fn text_event(self) -> Option<ResultView> {
        if self.buf@.len() == 0 {
            None
        } else if self.inside_whitespace && self.config.c.trim_whitespace {
            None
        } else if self.inside_whitespace && !self.config.c.whitespace_to_characters {
            Some(Ok(EventView::Whitespace(self.buf@)))
        } else if self.config.c.trim_whitespace {
            Some(Ok(EventView::Characters(trim_ws(self.buf@))))
        } else {
            Some(Ok(EventView::Characters(self.buf@)))
        }
    }

    /// What markup that may come first in a document reports: the start of
    /// the document where nothing came before, else the text collected.
    pub(super) open spec fn first_markup_event(self) -> Option<ResultView> {
        if rank(self.encountered) < 1 {
            Some(self.default_start())
        } else {
            self.text_event()
        }
    }

    /// What has been met once `e` is: the later of the two.
    pub(super) open spec fn met(self, e: Encountered) -> Encountered {
        if rank(self.encountered) < rank(e) {
            e
        } else {
            self.encountered
        }
    }

    /// The positions `p`, with the position of the start of the document
    /// added where it has not been reported yet.
    pub(super) open spec fn started_positions(self, p: Seq<TextPosition>) -> Seq<TextPosition> {
        if rank(self.encountered) < 1 {
            p.push(self.lexer_position())
        } else {
            p
        }
    }

    /// `next` is this state after markup started in text: the text
    /// collected is taken and white space is expected again; only the state,
    /// what has been met and the positions of events change besides.
    pub(super) open spec fn markup_entered(self, next: PullParser) -> bool {
        next == (PullParser {
            st: next.st,
            buf: next.buf,
            inside_whitespace: true,
            pos: next.pos,
            encountered: next.encountered,
            ..self
        })
    }

    /// The tokens that stand for themselves in text.
    pub(super) open spec fn is_text_token(t: Token) -> bool {
        ||| t == Token::CommentEnd
        ||| t == Token::TagEnd
        ||| t == Token::EqualsSign
        ||| t == Token::DoubleQuote
        ||| t == Token::SingleQuote
        ||| t == Token::ProcessingInstructionEnd
        ||| t == Token::EmptyTagEnd
    }

    /// What a character `c` in text does: white space is dropped outside
    /// the root element and, when text is trimmed, before any other text;
    /// other characters outside the root element and characters XML does
    /// not allow are errors; the rest is collected.
    pub(super) open spec fn text_char_post(self, c: char, next: PullParser, r: Option<
        ResultView,
    >) -> bool {
        let ws = spec_whitespace_char(c);
        let depth = self.est@.len();
        if ws && ((self.config.c.trim_whitespace && self.buf@.len() == 0) || (depth == 0
            && self.config.c.ignore_root_level_whitespace)) {
            r is None && next == self
        } else if !ws && depth == 0 {
            r == Some(
                Err::<EventView, ErrorView>(
                    ErrorView {
                        pos: self.lexer.spec_position(),
                        msg: "Unexpected characters outside the root element: "@ + seq![c],
                    },
                ),
            )
        } else if !self.allows_text_char(c) {
            r == Some(
                Err::<EventView, ErrorView>(
                    ErrorView {
                        pos: self.lexer.spec_position(),
                        msg: "Invalid character U+"@ + hex_digits(c as nat),
                    },
                ),
            )
        } else {
            &&& r is None
            &&& next == (PullParser {
                buf: next.buf,
                pos: next.pos,
                inside_whitespace: self.inside_whitespace && ws,
                ..self
            })
            &&& next.buf@ == self.buf@.push(c)
            &&& next.pos@ == self.text_positions()
        }
    }

    /// The positions of events after a character of text is collected: the
    /// first character of a text records where it starts.
    pub(super) open spec fn text_positions(self) -> Seq<TextPosition> {
        if self.buf@.len() == 0 {
            self.pos@.push(self.lexer_position())
        } else {
            self.pos@
        }
    }

    /// What a token `t` does in text: characters and the tokens that stand
    /// for themselves are collected inside the root element; `&` starts a
    /// reference; markup reports the text collected (or, the first time,
    /// the start of the document) and moves into the markup; anything else
    /// is an error.
    pub(super) open spec fn outside_tag_post(self, t: Token, next: PullParser, r: Option<
        ResultView,
    >) -> bool {
        let depth = self.est@.len();
        let c = self.config.c;
        let err = |m: Seq<char>|
            Some(Err::<EventView, ErrorView>(ErrorView { pos: self.lexer.spec_position(), msg: m }));
        if t is Character {
            self.text_char_post(t->Character_0, next, r)
        } else if Self::is_text_token(t) || (t == Token::ReferenceEnd && depth > 0) {
            if depth == 0 {
                r == err("Unexpected characters outside the root element: "@ + token_text(t))
            } else {
                &&& r is None
                &&& next == (PullParser {
                    buf: next.buf,
                    pos: next.pos,
                    inside_whitespace: false,
                    ..self
                })
                &&& next.buf@ == self.buf@ + token_text(t)
                &&& next.pos@ == self.text_positions()
            }
        } else if t == Token::ReferenceStart && depth > 0 {
            &&& r is None
            &&& next == (PullParser {
                st: State::InsideReference,
                state_after_reference: State::OutsideTag,
                ..self
            })
        } else if t == Token::CDataEnd {
            r == err("]]> in text"@)
        } else if t == Token::CommentStart && c.coalesce_characters && c.ignore_comments {
            &&& next.st == State::InsideComment
            &&& next.buf == self.buf
            &&& next == (PullParser {
                st: next.st,
                encountered: self.met(Encountered::Comment),
                pos: next.pos,
                ..self
            })
            &&& next.pos@ == self.started_positions(self.pos@)
            &&& r == if rank(self.encountered) < 1 {
                Some(self.default_start())
            } else {
                None
            }
        } else if t == Token::CDataStart && depth > 0 && c.coalesce_characters
            && c.cdata_to_characters {
            &&& r is None
            &&& next == (PullParser { st: State::InsideCData, pos: next.pos, ..self })
            &&& next.pos@ == self.text_positions()
        } else if t == Token::OpeningTagStart && (depth > 0 || rank(self.encountered) < 4
            || self.config.allow_multiple_root_elements) {
            &&& next.st == State::InsideOpeningTag(OpeningTagSubstate::InsideName)
            &&& next.buf@.len() == 0
            &&& r == self.first_markup_event()
            &&& next == (PullParser {
                st: next.st,
                buf: next.buf,
                inside_whitespace: true,
                pos: next.pos,
                encountered: Encountered::Element,
                nst: next.nst,
                ..self
            })
            &&& next.nst@ == self.nst@.push(Seq::<(Seq<char>, Seq<char>)>::empty())
            &&& next.pos@ == if rank(self.encountered) < 1 {
                self.pos@.push(self.lexer_position()).push(self.lexer_position())
            } else {
                self.pos@.push(self.lexer_position())
            }
        } else if t == Token::ClosingTagStart && depth > 0 {
            &&& next.st == State::InsideClosingTag(ClosingTagSubstate::CTInsideName)
            &&& next.buf@.len() == 0
            &&& r == self.text_event()
            &&& next == (PullParser {
                st: next.st,
                buf: next.buf,
                inside_whitespace: true,
                pos: next.pos,
                ..self
            })
            &&& next.pos@ == self.pos@.push(self.lexer_position())
        } else if t == Token::CommentStart {
            &&& next.st == State::InsideComment
            &&& next.buf@.len() == 0
            &&& r == self.first_markup_event()
            &&& self.markup_entered(next)
            &&& next.encountered == self.met(Encountered::Comment)
            &&& next.pos@ == self.started_positions(
                if c.ignore_comments {
                    self.pos@
                } else {
                    self.pos@.push(self.lexer_position())
                },
            )
        } else if t == Token::CDataStart && depth > 0 {
            &&& next.st == State::InsideCData
            &&& next.buf@.len() == 0
            &&& r == self.text_event()
            &&& self.markup_entered(next)
            &&& next.encountered == self.encountered
            &&& next.pos@ == self.pos@.push(self.lexer_position())
        } else if t == Token::ProcessingInstructionStart {
            &&& next.st == State::InsideProcessingInstruction(
                ProcessingInstructionSubstate::PIInsideName,
            )
            &&& next.buf@.len() == 0
            &&& r == self.text_event()
            &&& self.markup_entered(next)
            &&& next.encountered == self.encountered
            &&& next.pos@ == self.pos@.push(self.lexer_position())
        } else if t == Token::DoctypeStart && rank(self.encountered) < 3 {
            &&& next.st == State::InsideDoctype(DoctypeSubstate::Outside)
            &&& next.buf@.len() == 0
            &&& r == self.first_markup_event()
            &&& self.markup_entered(next)
            &&& next.encountered == Encountered::Doctype
            &&& next.pos@ == self.started_positions(self.pos@.push(self.lexer_position())).drop_first()
        } else {
            r == err("Unexpected token: "@ + token_text(t))
        }
    }

    /// A character of text: white space that is dropped, an error outside
    /// the root element or for a character XML does not allow, or else one
    /// more character of the text collected.
    fn outside_tag_char(&mut self, t: Token, c: char) -> (r: Option<Result>)
        requires
            old(self).wf(),
            old(self).no_pending_event(),
            t == Token::Character(c),
        ensures
            old(self).step(*final(self), opt_result_view(r)),
            old(self).text_char_post(c, *final(self), opt_result_view(r)),
    {
        if is_whitespace_char(c) {
            // skip whitespace outside of the root element, and leading
            // whitespace that is trimmed anyway
            if (self.config.c.trim_whitespace && self.buf.len() == 0) || (self.depth() == 0
                && self.config.c.ignore_root_level_whitespace) {
                proof {
                    old(self).lemma_quiet_step(*self, None);
                }
                return None;
            }
        } else {
            self.inside_whitespace = false;
            if self.depth() == 0 {
                let tt = t.to_text();
                let r = self.error2("Unexpected characters outside the root element: ", &tt);
                proof {
                    old(self).lemma_quiet_step(*self, opt_result_view(Some(r)));
                }
                return Some(r);
            }
        }
        if !self.is_valid_xml_char_not_restricted(c) {
            let h = hex_upper(c as u32);
            let r = self.error2("Invalid character U+", &h);
            proof {
                old(self).lemma_quiet_step(*self, opt_result_view(Some(r)));
            }
            return Some(r);
        }
        if self.buf.len() == 0 {
            self.push_pos();
        }
        self.buf.push(c);
        proof {
            old(self).lemma_quiet_step(*self, None);
        }
        None
    }

    /// Handles a token in text: collects characters, and on markup reports
    /// what was collected and moves into the markup.
    pub(super) fn outside_tag(&mut self, t: Token) -> (r: Option<Result>)
        requires
            old(self).wf(),
            old(self).no_pending_event(),
        ensures
            old(self).step(*final(self), opt_result_view(r)),
            old(self).outside_tag_post(t, *final(self), opt_result_view(r)),
    {
        match t {
            Token::Character(c) => {
                return self.outside_tag_char(t, c);
            },
            _ => {},
        }
        if t == Token::CommentEnd || t == Token::TagEnd || t == Token::EqualsSign || t
            == Token::DoubleQuote || t == Token::SingleQuote || t
            == Token::ProcessingInstructionEnd || t == Token::EmptyTagEnd || (t
            == Token::ReferenceEnd && self.depth() > 0) {
            if self.depth() == 0 {
                let tt = t.to_text();
                let r = self.error2("Unexpected characters outside the root element: ", &tt);
                proof {
                    old(self).lemma_quiet_step(*self, opt_result_view(Some(r)));
                }
                return Some(r);
            }
            self.inside_whitespace = false;
            if self.buf.len() == 0 {
                self.push_pos();
            }
            t.push_to_string(&mut self.buf);
            proof {
                old(self).lemma_quiet_step(*self, None);
            }
            return None;
        }
        if t == Token::ReferenceStart && self.depth() > 0 {
            self.state_after_reference = State::OutsideTag;
            let r = self.into_state_continue(State::InsideReference);
            proof {
                old(self).lemma_quiet_step(*self, None);
            }
            return r;
        }
        if t == Token::CDataEnd {
            let r = self.error(text("]]> in text"));
            proof {
                old(self).lemma_quiet_step(*self, opt_result_view(Some(r)));
            }
            return Some(r);
        }
        if t == Token::CommentStart && self.config.c.coalesce_characters
            && self.config.c.ignore_comments {
            let next_event = self.set_encountered(Encountered::Comment);
            // We need to switch the lexer into a comment mode inside comments
            let r = self.into_state(State::InsideComment, next_event);
            proof {
                old(self).lemma_encounter_step(*self, opt_result_view(r));
            }
            return r;
        }
        if t == Token::CDataStart && self.depth() > 0 && self.config.c.coalesce_characters
            && self.config.c.cdata_to_characters {
            if self.buf.len() == 0 {
                self.push_pos();  // CDataEnd will pop pos if the buffer remains empty
            }
            let r = self.into_state_continue(State::InsideCData);
            proof {
                old(self).lemma_quiet_step(*self, None);
            }
            return r;
        }
        self.markup_start(t)
    }

    /// Markup starts in text: what was collected is reported (or, the
    /// first time, the start of the document) and the parser moves into the
    /// markup.
    fn markup_start(&mut self, t: Token) -> (r: Option<Result>)
        requires
            old(self).wf(),
            old(self).no_pending_event(),
            !(t is Character),
            !Self::is_text_token(t),
            !(t == Token::ReferenceEnd && old(self).est@.len() > 0),
            !(t == Token::ReferenceStart && old(self).est@.len() > 0),
            t != Token::CDataEnd,
            !(t == Token::CommentStart && old(self).config.c.coalesce_characters
                && old(self).config.c.ignore_comments),
            !(t == Token::CDataStart && old(self).est@.len() > 0
                && old(self).config.c.coalesce_characters
                && old(self).config.c.cdata_to_characters),
        ensures
            old(self).step(*final(self), opt_result_view(r)),
            old(self).outside_tag_post(t, *final(self), opt_result_view(r)),
    {
        // Encountered some markup event, flush the buffer as characters or a
        // whitespace
        let mut next_event = if self.buf_has_data() {
            let buf = self.take_buf();
            if self.inside_whitespace && self.config.c.trim_whitespace {
                None
            } else if self.inside_whitespace && !self.config.c.whitespace_to_characters {
                Some(Ok(XmlEvent::Whitespace(buf)))
            } else if self.config.c.trim_whitespace {
                Some(Ok(XmlEvent::Characters(trim_whitespace(&buf))))
            } else {
                Some(Ok(XmlEvent::Characters(buf)))
            }
        } else {
            None
        };
        self.inside_whitespace = true;  // Reset inside_whitespace flag
        // pos is popped whenever an event is emitted, so pushes must happen
        // only if there will be an event to balance it, and ignored comments
        // don't pop
        if t != Token::CommentStart || !self.config.c.ignore_comments {
            self.push_pos();
        }
        let ghost flushed = *self;
        proof {
            old(self).lemma_quiet_step(flushed, opt_result_view(next_event));
        }
        if t == Token::OpeningTagStart && (self.depth() > 0 || self.encountered.rank() < 4
            || self.config.allow_multiple_root_elements) {
            match self.set_encountered(Encountered::Element) {
                Some(e) => {
                    next_event = Some(e);
                },
                None => {},
            }
            self.nst.push_empty();
            let r = self.into_state(
                State::InsideOpeningTag(OpeningTagSubstate::InsideName),
                next_event,
            );
            proof {
                old(self).lemma_encounter_step(*self, opt_result_view(r));
            }
            r
        } else if t == Token::ClosingTagStart && self.depth() > 0 {
            let r = self.into_state(
                State::InsideClosingTag(ClosingTagSubstate::CTInsideName),
                next_event,
            );
            proof {
                old(self).lemma_quiet_step(*self, opt_result_view(r));
            }
            r
        } else if t == Token::CommentStart {
            match self.set_encountered(Encountered::Comment) {
                Some(e) => {
                    next_event = Some(e);
                },
                None => {},
            }
            // We need to switch the lexer into a comment mode inside comments
            let r = self.into_state(State::InsideComment, next_event);
            proof {
                old(self).lemma_encounter_step(*self, opt_result_view(r));
            }
            r
        } else if t == Token::CDataStart && self.depth() > 0 {
            let r = self.into_state(State::InsideCData, next_event);
            proof {
                old(self).lemma_quiet_step(*self, opt_result_view(r));
            }
            r
        } else if t == Token::ProcessingInstructionStart {
            let r = self.into_state(
                State::InsideProcessingInstruction(ProcessingInstructionSubstate::PIInsideName),
                next_event,
            );
            proof {
                old(self).lemma_quiet_step(*self, opt_result_view(r));
            }
            r
        } else if t == Token::DoctypeStart && self.encountered.rank() < 3 {
            match self.set_encountered(Encountered::Doctype) {
                Some(e) => {
                    next_event = Some(e);
                },
                None => {},
            }
            // We don't have a doctype event so skip this position
            self.next_pos();
            let r = self.into_state(State::InsideDoctype(DoctypeSubstate::Outside), next_event);
            proof {
                old(self).lemma_encounter_step(*self, opt_result_view(r));
            }
            r
        } else {
            let tt = t.to_text();
            let r = self.error2("Unexpected token: ", &tt);
            proof {
                old(self).lemma_quiet_step(*self, opt_result_view(Some(r)));
            }
            Some(r)
        }
    }
}

} // verus!
