use vstd::prelude::*;
use crate::common::{
    char_from_u32, chars_eq_str, from_str_radix, hex_digits, hex_upper, is_name_char,
    is_name_start_char, is_scalar_value, is_whitespace_char, push_all, spec_from_str_radix,
    spec_name_char, spec_name_start_char, spec_whitespace_char, spec_xml10_code, spec_xml11_code,
    text, XmlVersion,
};
use crate::name::chars_range;
use crate::reader::config::lookup_entity;
use crate::namespace::{lookup, pairs_view};
use crate::reader::events::{opt_result_view, ErrorView, EventView};
use crate::reader::lexer::{token_text, Token};
use super::{MarkupData, PullParser, Result, ResultView, State};

verus! {

/// The number a character reference writes: decimal, or hexadecimal after
/// `x`; none if it is not a number that fits in 32 bits.
pub(super) open spec fn char_ref_number(num: Seq<char>) -> Option<u32> {
    if num.len() > 0 && num[0] == 'x' {
        spec_from_str_radix(num.drop_first(), 16)
    } else {
        spec_from_str_radix(num, 10)
    }
}

/// The character that a predefined entity stands for.
pub(super) open spec fn predefined_entity(name: Seq<char>) -> Option<char> {
    if name == "lt"@ {
        Some('<')
    } else if name == "gt"@ {
        Some('>')
    } else if name == "amp"@ {
        Some('&')
    } else if name == "apos"@ {
        Some('\'')
    } else if name == "quot"@ {
        Some('"')
    } else {
        None
    }
}

/// The character `c` goes on with the name `name` of a reference.
pub(super) open spec fn continues_reference(name: Seq<char>, c: char) -> bool {
    if name.len() == 0 {
        spec_name_start_char(c) || c == '#'
    } else {
        spec_name_char(c)
    }
}

impl PullParser {
    /// What a token `t` does inside a reference: a name character goes on
    /// with its name; `;` ends it and puts what it stands for in the buffer
    /// (the parser then goes back to where the reference started), or, for
    /// an entity of the document type declaration in text, has the lexer read
    /// the entity's markup; anything else is an error.
    pub(super) open spec fn reference_post(self, t: Token, next: PullParser, r: Option<
        ResultView,
    >) -> bool {
        let name = self.data.ref_data@;
        let err = |m: Seq<char>|
            Some(Err::<EventView, ErrorView>(ErrorView { pos: self.lexer.spec_position(), msg: m }));
        let back = self.leaves_reference(next);
        match t {
            Token::Character(c) => if continues_reference(name, c) {
                r is None && next.data.ref_data@ == name.push(c) && next.buf == self.buf
                    && next.st == self.st && next == (PullParser { data: next.data, ..self })
                    && next.data == (MarkupData { ref_data: next.data.ref_data, ..self.data })
            } else {
                r == err("Unexpected token inside an entity: "@ + token_text(t))
            },
            Token::ReferenceEnd => if name.len() == 0 {
                r == err("Encountered empty entity"@)
            } else if predefined_entity(name) is Some {
                r is None && next.buf@ == self.buf@.push(predefined_entity(name)->Some_0) && back
            } else if name[0] == '#' {
                let num = name.drop_first();
                match char_ref_number(num) {
                    None => r == err(
                        (if num.len() > 0 && num[0] == 'x' {
                            "Invalid hexadecimal character number in an entity: "@
                        } else {
                            "Invalid decimal character number in an entity: "@
                        }) + num,
                    ),
                    Some(v) => if is_scalar_value(v) && self.allows_code(v) {
                        &&& r is None
                        &&& next.buf@.len() == self.buf@.len() + 1
                        &&& next.buf@.drop_last() == self.buf@
                        &&& next.buf@.last() as u32 == v
                        &&& back
                    } else if self.config.c.replace_unknown_entity_references {
                        r is None && next.buf@ == self.buf@.push('\u{fffd}') && back
                    } else {
                        r == err("Invalid character U+"@ + hex_digits(v as nat))
                    },
                }
            } else if lookup(pairs_view(self.config.c.extra_entities@), name) is Some {
                &&& r is None
                &&& next.buf@ == self.buf@ + lookup(
                    pairs_view(self.config.c.extra_entities@),
                    name,
                )->Some_0
                &&& back
            } else if lookup(pairs_view(self.entities@), name) is Some {
                let v = lookup(pairs_view(self.entities@), name)->Some_0;
                if self.state_after_reference == State::OutsideTag {
                    &&& r is None ==> next.buf == self.buf && self.leaves_reference_with(
                        next,
                        v,
                    )
                    &&& r is Some ==> r == Some(
                        Err::<EventView, ErrorView>(
                            ErrorView { pos: self.lexer.spec_position(), msg: "Entity too big"@ },
                        ),
                    )
                } else {
                    r is None && next.buf@ == self.buf@ + v && back
                }
            } else {
                r == err("Unexpected entity: "@ + name)
            },
            _ => r == err("Unexpected token inside an entity: "@ + token_text(t)),
        }
    }

    /// `next` is this state after its reference ended and what it stands for
    /// was added to the buffer, the lexer left as it is: the name read is
    /// forgotten, the parser is back where the reference started, and text
    /// that now ends in other than white space is no longer white space.
    pub(super) open spec fn leaves_reference(self, next: PullParser) -> bool {
        self.leaves_reference_with(next, Seq::<char>::empty())
    }

    /// `next` is this state after its reference ended, the lexer made to
    /// read `markup` first.
    pub(super) open spec fn leaves_reference_with(self, next: PullParser, markup: Seq<char>) -> bool {
        &&& next == (PullParser {
            buf: next.buf,
            st: self.state_after_reference,
            data: next.data,
            inside_whitespace: next.inside_whitespace,
            lexer: next.lexer,
            ..self
        })
        &&& next.data == (MarkupData { ref_data: next.data.ref_data, ..self.data })
        &&& next.data.ref_data@.len() == 0
        &&& self.lexer.reparsed(markup, next.lexer)
        &&& next.inside_whitespace == if self.state_after_reference == State::OutsideTag && !(
        next.buf@.len() > 0 && spec_whitespace_char(next.buf@.last())) {
            false
        } else {
            self.inside_whitespace
        }
    }

    /// The character of code `u` may appear in the document, by the XML
    /// version in force.
    pub(super) open spec fn allows_code(&self, u: u32) -> bool {
        if self.data.version == Some(XmlVersion::Version11) {
            spec_xml11_code(u)
        } else {
            spec_xml10_code(u)
        }
    }

    /// Handles a token inside an entity or character reference: collects
    /// its name, and at `;` puts what it stands for in the buffer, or makes
    /// the lexer read an entity's markup.
    pub(super) fn inside_reference(&mut self, t: Token) -> (r: Option<Result>)
        requires
            old(self).wf(),
            old(self).no_pending_event(),
        ensures
            old(self).step(*final(self), opt_result_view(r)),
            old(self).reference_post(t, *final(self), opt_result_view(r)),
    {
        let (is_char, c) = match t {
            Token::Character(c) => (true, c),
            _ => (false, ' '),
        };
        let empty = self.data.ref_data.len() == 0;
        if is_char && ((!empty && is_name_char(c)) || (empty && (is_name_start_char(c) || c
            == '#'))) {
            self.data.ref_data.push(c);
            proof {
                old(self).lemma_quiet_step(*self, None);
            }
            return None;
        }
        if t != Token::ReferenceEnd {
            let tt = t.to_text();
            let r = self.error2("Unexpected token inside an entity: ", &tt);
            proof {
                old(self).lemma_quiet_step(*self, opt_result_view(Some(r)));
            }
            return Some(r);
        }
        let name = self.data.take_ref_data();
        proof {
            old(self).lemma_quiet_step(*self, None);
        }
        if name.len() == 0 {
            let r = self.error(text("Encountered empty entity"));
            proof {
                old(self).lemma_quiet_step(*self, opt_result_view(Some(r)));
            }
            return Some(r);
        }
        let c: Option<char> = if chars_eq_str(&name, "lt") {
            Some('<')
        } else if chars_eq_str(&name, "gt") {
            Some('>')
        } else if chars_eq_str(&name, "amp") {
            Some('&')
        } else if chars_eq_str(&name, "apos") {
            Some('\'')
        } else if chars_eq_str(&name, "quot") {
            Some('"')
        } else if name[0] == '#' {
            let num = chars_range(&name, 1, name.len());
            assert(num@ =~= name@.drop_first());
            match self.numeric_reference_from_str(&num) {
                Ok(c) => Some(c),
                Err(e) => {
                    let r = self.error(e);
                    proof {
                        old(self).lemma_quiet_step(*self, opt_result_view(Some(r)));
                    }
                    return Some(r);
                },
            }
        } else {
            None
        };
        let ghost before_expansion = *self;
        match c {
            Some(c) => {
                let ghost b0 = self.buf@;
                self.buf.push(c);
                assert(self.buf@.drop_last() =~= b0);
            },
            None => match lookup_entity(&self.config.c.extra_entities, &name) {
                Some(v) => {
                    push_all(&mut self.buf, &v);
                },
                None => match lookup_entity(&self.entities, &name) {
                    Some(v) => {
                        if self.state_after_reference == State::OutsideTag {
                            // an entity can expand to *elements*, so outside
                            // of a tag it needs a full reparse
                            match self.lexer.reparse(&v) {
                                Ok(()) => {},
                                Err(e) => {
                                    let r: Result = Err(e);
                                    proof {
                                        old(self).lemma_lexer_step(
                                            *self,
                                            opt_result_view(Some(r)),
                                        );
                                    }
                                    return Some(r);
                                },
                            }
                        } else {
                            // however, inside attributes it's not allowed to
                            // affect attribute quoting, so it can't be fed to
                            // the lexer
                            push_all(&mut self.buf, &v);
                        }
                    },
                    None => {
                        let r = self.error2("Unexpected entity: ", &name);
                        proof {
                            old(self).lemma_quiet_step(*self, opt_result_view(Some(r)));
                        }
                        return Some(r);
                    },
                },
            },
        }
        let prev_st = self.state_after_reference;
        if prev_st == State::OutsideTag {
            let last = if self.buf.len() > 0 {
                self.buf[self.buf.len() - 1]
            } else {
                '\0'
            };
            if !is_whitespace_char(last) {
                self.inside_whitespace = false;
            }
        }
        let r = self.into_state_continue(prev_st);
        proof {
            old(self).lemma_lexer_step(*self, None);
            old(self).lexer.lemma_reparsed_nothing();
        }
        r
    }

    /// The character that the number `num_str` of a character reference
    /// stands for: decimal, or hexadecimal after `x`. A number that is no
    /// character XML allows is an error, or U+FFFD where the parser is told
    /// to replace such references.
    pub(super) fn numeric_reference_from_str(&self, num_str: &Vec<char>) -> (r: std::result::Result<
        char,
        Vec<char>,
    >)
        ensures
            match char_ref_number(num_str@) {
                None => r matches Err(m) && m@ == (if num_str@.len() > 0 && num_str@[0] == 'x' {
                    "Invalid hexadecimal character number in an entity: "@
                } else {
                    "Invalid decimal character number in an entity: "@
                }) + num_str@,
                Some(v) => if is_scalar_value(v) && self.allows_code(v) {
                    r matches Ok(c) && c as u32 == v
                } else if self.config.c.replace_unknown_entity_references {
                    r == Ok::<char, Vec<char>>('\u{fffd}')
                } else {
                    r matches Err(m) && m@ == "Invalid character U+"@ + hex_digits(v as nat)
                },
            },
    {
        let hex = num_str.len() > 0 && num_str[0] == 'x';
        let val = if hex {
            let digits = chars_range(num_str, 1, num_str.len());
            assert(digits@ =~= num_str@.drop_first());
            match from_str_radix(&digits, 16) {
                Some(v) => v,
                None => {
                    let mut m = text("Invalid hexadecimal character number in an entity: ");
                    push_all(&mut m, num_str);
                    return Err(m);
                },
            }
        } else {
            match from_str_radix(num_str, 10) {
                Some(v) => v,
                None => {
                    let mut m = text("Invalid decimal character number in an entity: ");
                    push_all(&mut m, num_str);
                    return Err(m);
                },
            }
        };
        match char_from_u32(val) {
            Some(c) => {
                if self.is_valid_xml_char(c) {
                    Ok(c)
                } else if self.config.c.replace_unknown_entity_references {
                    Ok('\u{fffd}')
                } else {
                    let mut m = text("Invalid character U+");
                    let h = hex_upper(val);
                    push_all(&mut m, &h);
                    Err(m)
                }
            },
            None => {
                if self.config.c.replace_unknown_entity_references {
                    Ok('\u{fffd}')
                } else {
                    let mut m = text("Invalid character U+");
                    let h = hex_upper(val);
                    push_all(&mut m, &h);
                    Err(m)
                }
            },
        }
    }
}

} // verus!
