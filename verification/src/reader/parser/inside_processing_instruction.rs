use vstd::prelude::*;
use crate::common::{
    chars_eq_ignore_ascii_case, chars_eq_str, eq_ignore_ascii_case, hex_digits, hex_upper,
    is_name_char, is_name_start_char, is_whitespace_char, push_all, spec_name_char,
    spec_name_start_char, spec_whitespace_char, text,
};
use crate::reader::events::{opt_result_view, ErrorView, EventView, XmlEvent};
use crate::reader::lexer::{token_text, Token};
use super::{
    DeclarationSubstate, Encountered, MarkupData, ProcessingInstructionSubstate, PullParser, Result,
    ResultView, State,
};

verus! {

impl PullParser {
    /// What a token `t` does inside a processing instruction, in substate
    /// `s`: its name is read, then its data up to `?>`, which reports it; a
    /// name like `xml` in any case is an error but for `<?xml ` at the very
    /// start, which opens the XML declaration.
    pub(super) open spec fn pi_post(
        self,
        t: Token,
        s: ProcessingInstructionSubstate,
        next: PullParser,
        r: Option<ResultView>,
    ) -> bool {
        let err = |m: Seq<char>|
            Some(Err::<EventView, ErrorView>(ErrorView { pos: self.lexer.spec_position(), msg: m }));
        let name = self.buf@;
        let is_char = t is Character;
        let c = t->Character_0;
        match s {
            ProcessingInstructionSubstate::PIInsideName => if is_char && ((name.len() == 0
                && spec_name_start_char(c)) || (name.len() > 0 && spec_name_char(c))) {
                r is None && next.buf@ == name.push(c) && next == (PullParser {
                    buf: next.buf,
                    ..self
                })
            } else if t == Token::ProcessingInstructionEnd {
                if name.len() == 0 {
                    r == err("Encountered processing instruction without name"@)
                } else if eq_ignore_ascii_case(name, "xml"@) {
                    r == err("Invalid processing instruction: <?"@ + name)
                } else {
                    &&& r == Some(
                        Ok::<EventView, ErrorView>(
                            EventView::ProcessingInstruction { name, data: None },
                        ),
                    )
                    &&& next.st == State::OutsideTag
                    &&& next.buf@.len() == 0
                    &&& next == (PullParser { st: next.st, buf: next.buf, ..self })
                }
            } else if is_char && spec_whitespace_char(c) {
                if name == "xml"@ && self.encountered == Encountered::Nothing {
                    &&& r is None
                    &&& next.st == State::InsideDeclaration(DeclarationSubstate::BeforeVersion)
                    &&& next.buf@.len() == 0
                    &&& next == (PullParser { st: next.st, buf: next.buf, ..self })
                } else if eq_ignore_ascii_case(name, "xml"@) {
                    r == err("Invalid processing instruction: <?"@ + name)
                } else {
                    &&& r is None
                    &&& next.data.name@ == name
                    &&& next.buf@.len() == 0
                    &&& next.st == State::InsideProcessingInstruction(
                        ProcessingInstructionSubstate::PIInsideData,
                    )
                    &&& next == (PullParser {
                        st: next.st,
                        buf: next.buf,
                        data: next.data,
                        ..self
                    })
                    &&& next.data == (MarkupData { name: next.data.name, ..self.data })
                }
            } else {
                r == err("Unexpected token: <?"@ + name + token_text(t))
            },
            ProcessingInstructionSubstate::PIInsideData => if t
                == Token::ProcessingInstructionEnd {
                &&& r == Some(
                    Ok::<EventView, ErrorView>(
                        EventView::ProcessingInstruction {
                            name: self.data.name@,
                            data: Some(self.buf@),
                        },
                    ),
                )
                &&& next.st == State::OutsideTag
                &&& next.buf@.len() == 0
                &&& next.data.name@.len() == 0
                &&& next == (PullParser {
                    st: next.st,
                    buf: next.buf,
                    data: next.data,
                    ..self
                })
                &&& next.data == (MarkupData { name: next.data.name, ..self.data })
            } else if is_char && !self.allows_code(c as u32) {
                r == err("Invalid character U+"@ + hex_digits(c as nat))
            } else {
                r is None && next.buf@ == self.buf@ + token_text(t) && next == (PullParser {
                    buf: next.buf,
                    ..self
                })
            },
        }
    }

    /// Handles a token inside a processing instruction: its name, then its
    /// data up to `?>`; `<?xml ` at the very start opens the XML
    /// declaration instead.
    pub(super) fn inside_processing_instruction(
        &mut self,
        t: Token,
        s: ProcessingInstructionSubstate,
    ) -> (r: Option<Result>)
        requires
            old(self).wf(),
            old(self).no_pending_event(),
        ensures
            old(self).step(*final(self), opt_result_view(r)),
            old(self).pi_post(t, s, *final(self), opt_result_view(r)),
    {
        let (is_char, c) = match t {
            Token::Character(c) => (true, c),
            _ => (false, ' '),
        };
        match s {
            ProcessingInstructionSubstate::PIInsideName => {
                let has_data = self.buf_has_data();
                if is_char && ((!has_data && is_name_start_char(c)) || (has_data && is_name_char(
                    c,
                ))) {
                    let r = self.append_char_continue(c);
                    proof {
                        old(self).lemma_quiet_step(*self, None);
                    }
                    r
                } else if t == Token::ProcessingInstructionEnd {
                    // self.buf contains PI name
                    let name = self.take_buf();
                    // Don't need to check for declaration because it has
                    // mandatory attributes but there is none
                    let r = if name.len() == 0 {
                        // Name is empty, it is an error
                        Some(self.error(text("Encountered processing instruction without name")))
                    } else if chars_eq_ignore_ascii_case(&name, "xml") {
                        // Found <?xml-like PI not at the beginning of a
                        // document, it is an error - see section 2.6 of XML
                        // 1.1 spec
                        Some(self.error2("Invalid processing instruction: <?", &name))
                    } else {
                        // All is ok, emitting event
                        self.into_state_emit(
                            State::OutsideTag,
                            Ok(XmlEvent::ProcessingInstruction { name, data: None }),
                        )
                    };
                    proof {
                        old(self).lemma_quiet_step(*self, opt_result_view(r));
                    }
                    r
                } else if is_char && is_whitespace_char(c) {
                    // self.buf contains PI name
                    let name = self.take_buf();
                    let r = if chars_eq_str(&name, "xml") && self.encountered
                        == Encountered::Nothing {
                        // We have not ever encountered an element and have
                        // not parsed XML declaration
                        self.into_state_continue(
                            State::InsideDeclaration(DeclarationSubstate::BeforeVersion),
                        )
                    } else if chars_eq_ignore_ascii_case(&name, "xml") {
                        // Found <?xml-like PI after the beginning of a
                        // document, it is an error - see section 2.6 of XML
                        // 1.1 spec
                        Some(self.error2("Invalid processing instruction: <?", &name))
                    } else {
                        // All is ok, starting parsing PI data
                        self.data.name = name;
                        // technically, we are still inside PI, but this state
                        // makes it go back to the outside state
                        self.into_state_continue(
                            State::InsideProcessingInstruction(
                                ProcessingInstructionSubstate::PIInsideData,
                            ),
                        )
                    };
                    proof {
                        old(self).lemma_quiet_step(*self, opt_result_view(r));
                    }
                    r
                } else {
                    let buf = self.take_buf();
                    let mut m = text("Unexpected token: <?");
                    push_all(&mut m, &buf);
                    t.push_to_string(&mut m);
                    let r = self.error(m);
                    proof {
                        old(self).lemma_quiet_step(*self, opt_result_view(Some(r)));
                    }
                    Some(r)
                }
            },
            ProcessingInstructionSubstate::PIInsideData => {
                if t == Token::ProcessingInstructionEnd {
                    let name = self.data.take_name();
                    let data = self.take_buf();
                    let r = self.into_state_emit(
                        State::OutsideTag,
                        Ok(XmlEvent::ProcessingInstruction { name, data: Some(data) }),
                    );
                    proof {
                        old(self).lemma_quiet_step(*self, opt_result_view(r));
                    }
                    r
                } else if is_char && !self.is_valid_xml_char(c) {
                    let h = hex_upper(c as u32);
                    let r = self.error2("Invalid character U+", &h);
                    proof {
                        old(self).lemma_quiet_step(*self, opt_result_view(Some(r)));
                    }
                    Some(r)
                } else {
                    // Any other token should be treated as plain characters
                    t.push_to_string(&mut self.buf);
                    proof {
                        old(self).lemma_quiet_step(*self, None);
                    }
                    None
                }
            },
        }
    }
}

} // verus!
