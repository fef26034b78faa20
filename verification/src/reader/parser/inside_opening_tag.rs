use vstd::prelude::*;
use crate::attribute::OwnedAttribute;
use crate::common::{
    chars_eq, chars_eq_str, is_name_start_char, is_whitespace_char, push_all, text,
};
use crate::attribute::{attrs_view, AttrView};
use crate::name::{name_repr, opt_chars_eq, OwnedName};
use crate::reader::events::{opt_result_view, ErrorView, EventView};
use crate::reader::lexer::Token;
use super::{
    distinct_attr_names, same_attr_name, Encountered, NameCallback, OpeningTagSubstate, PullParser,
    QualifiedNameTarget, Result, ResultView, State, ValueCallback,
};

verus! {

impl PullParser {
    /// Handles a token inside an opening tag: the element's name, then
    /// attributes, up to `>` or `/>`.
    pub(super) fn inside_opening_tag(&mut self, t: Token, s: OpeningTagSubstate) -> (r: Option<
        Result,
    >)
        requires
            old(self).encountered == Encountered::Element,
            old(self).wf(),
            old(self).no_pending_event(),
        ensures
            old(self).step(*final(self), opt_result_view(r)),
            old(self).opening_tag_post(t, s, *final(self), opt_result_view(r)),
    {
        let (is_char, c) = match t {
            Token::Character(c) => (true, c),
            _ => (false, ' '),
        };
        match s {
            OpeningTagSubstate::InsideName => self.read_qualified_name(
                t,
                QualifiedNameTarget::OpeningTagNameTarget,
                NameCallback::OpeningTagName,
            ),
            OpeningTagSubstate::InsideTag => {
                if is_char && is_whitespace_char(c) {
                    // skip whitespace
                    proof {
                        old(self).lemma_quiet_step(*self, None);
                    }
                    None
                } else if is_char && is_name_start_char(c) {
                    self.buf.push(c);
                    let r = self.into_state_continue(
                        State::InsideOpeningTag(OpeningTagSubstate::InsideAttributeName),
                    );
                    proof {
                        old(self).lemma_quiet_step(*self, None);
                    }
                    r
                } else if t == Token::TagEnd {
                    self.emit_start_element(false)
                } else if t == Token::EmptyTagEnd {
                    self.emit_start_element(true)
                } else {
                    let tt = t.to_text();
                    let r = self.error2("Unexpected token inside opening tag: ", &tt);
                    proof {
                        old(self).lemma_quiet_step(*self, opt_result_view(Some(r)));
                    }
                    Some(r)
                }
            },
            OpeningTagSubstate::InsideAttributeName => self.read_qualified_name(
                t,
                QualifiedNameTarget::AttributeNameTarget,
                NameCallback::AttributeName,
            ),
            OpeningTagSubstate::AfterAttributeName => {
                if t == Token::EqualsSign {
                    let r = self.into_state_continue(
                        State::InsideOpeningTag(OpeningTagSubstate::InsideAttributeValue),
                    );
                    proof {
                        old(self).lemma_quiet_step(*self, None);
                    }
                    r
                } else if is_char && is_whitespace_char(c) {
                    proof {
                        old(self).lemma_quiet_step(*self, None);
                    }
                    None
                } else {
                    let tt = t.to_text();
                    let r = self.error2("Unexpected token inside opening tag: ", &tt);
                    proof {
                        old(self).lemma_quiet_step(*self, opt_result_view(Some(r)));
                    }
                    Some(r)
                }
            },
            OpeningTagSubstate::InsideAttributeValue => self.read_attribute_value(
                t,
                ValueCallback::OpeningTagAttribute,
            ),
        }
    }

    /// The name of an opening tag has been read, up to `token`.
    pub(super) fn opening_tag_name_read(&mut self, token: Token, name: OwnedName) -> (r: Option<
        Result,
    >)
        requires
            old(self).encountered == Encountered::Element,
            old(self).wf(),
            old(self).no_pending_event(),
        ensures
            old(self).step(*final(self), opt_result_view(r)),
            final(self).buf == old(self).buf,
            old(self).opening_name_post(token, name@, *final(self), opt_result_view(r)),
    {
        let reserved = match &name.prefix {
            Some(prefix) => chars_eq_str(prefix, "xml") || chars_eq_str(prefix, "xmlns"),
            None => false,
        };
        if reserved {
            let p = name.prefix.unwrap();
            let mut m = text("'Some(\"");
            push_all(&mut m, &p);
            let tail = text("\")' cannot be an element name prefix");
            push_all(&mut m, &tail);
            let r = self.error(m);
            proof {
                old(self).lemma_quiet_step(*self, opt_result_view(Some(r)));
            }
            return Some(r);
        }
        self.data.element_name = Some(name.duplicate());
        let ghost mid = *self;
        proof {
            old(self).lemma_quiet_step(*self, None);
        }
        let is_ws = match token {
            Token::Character(c) => is_whitespace_char(c),
            _ => false,
        };
        if token == Token::TagEnd {
            let r = self.emit_start_element(false);
            proof {
                old(self).lemma_quiet_then_step(mid, *self, opt_result_view(r));
            }
            r
        } else if token == Token::EmptyTagEnd {
            let r = self.emit_start_element(true);
            proof {
                old(self).lemma_quiet_then_step(mid, *self, opt_result_view(r));
            }
            r
        } else if is_ws {
            let r = self.into_state_continue(State::InsideOpeningTag(OpeningTagSubstate::InsideTag));
            proof {
                old(self).lemma_quiet_step(*self, None);
            }
            r
        } else {
            let tt = token.to_text();
            let r = self.error2("Unexpected token inside opening tag: ", &tt);
            proof {
                old(self).lemma_quiet_step(*self, opt_result_view(Some(r)));
            }
            Some(r)
        }
    }

    /// Whether an attribute named `name` has been read in this tag (names
    /// are compared before their prefixes are resolved).
    fn has_attribute(&self, name: &OwnedName) -> (r: bool)
        ensures
            r == exists|i: int|
                0 <= i < self.data.attributes@.len() && same_attr_name(
                    #[trigger] self.data.attributes@[i].name@,
                    name@,
                ),
    {
        let mut i: usize = 0;
        while i < self.data.attributes.len()
            invariant
                i <= self.data.attributes@.len(),
                forall|j: int|
                    0 <= j < i ==> !same_attr_name(
                        #[trigger] self.data.attributes@[j].name@,
                        name@,
                    ),
            decreases self.data.attributes.len() - i,
        {
            let a = &self.data.attributes[i].name;
            if opt_chars_eq(&a.prefix, &name.prefix) && chars_eq(&a.local_name, &name.local_name) {
                assert(same_attr_name(self.data.attributes@[i as int].name@, name@));
                return true;
            }
            i = i + 1;
        }
        false
    }

    /// The name of an attribute has been read, up to `token`.
    pub(super) fn attribute_name_read(&mut self, token: Token, name: OwnedName) -> (r: Option<
        Result,
    >)
        requires
            old(self).encountered == Encountered::Element,
            old(self).wf(),
            old(self).no_pending_event(),
        ensures
            old(self).step(*final(self), opt_result_view(r)),
            final(self).buf == old(self).buf,
            old(self).attribute_name_post(token, name@, *final(self), opt_result_view(r)),
    {
        self.data.attr_name = Some(name);
        let is_ws = match token {
            Token::Character(c) => is_whitespace_char(c),
            _ => false,
        };
        if token == Token::EqualsSign {
            let r = self.into_state_continue(
                State::InsideOpeningTag(OpeningTagSubstate::InsideAttributeValue),
            );
            proof {
                old(self).lemma_quiet_step(*self, None);
            }
            r
        } else if is_ws {
            let r = self.into_state_continue(
                State::InsideOpeningTag(OpeningTagSubstate::AfterAttributeName),
            );
            proof {
                old(self).lemma_quiet_step(*self, None);
            }
            r
        } else {
            let tt = token.to_text();
            let r = self.error2("Unexpected token inside opening tag: ", &tt);
            proof {
                old(self).lemma_quiet_step(*self, opt_result_view(Some(r)));
            }
            Some(r)
        }
    }

    /// The value of an attribute has been read: a namespace declaration
    /// binds its prefix, any other attribute is kept for the element.
    pub(super) fn opening_tag_attribute_value_read(&mut self, value: Vec<char>) -> (r: Option<
        Result,
    >)
        requires
            old(self).encountered == Encountered::Element,
            old(self).wf(),
            old(self).no_pending_event(),
        ensures
            old(self).step(*final(self), opt_result_view(r)),
            old(self).attribute_value_post(value@, *final(self), opt_result_view(r)),
            final(self).data.quote == old(self).data.quote,
            final(self).buf == old(self).buf,
    {
        let name = match self.data.attr_name.take() {
            Some(n) => n,
            None => {
                proof {
                    old(self).lemma_quiet_step(*self, None);
                }
                return None;
            },  // will always succeed here
        };
        let xmlns_prefixed = match &name.prefix {
            Some(p) => chars_eq_str(p, "xmlns"),
            None => false,
        };
        if xmlns_prefixed {
            // declaring a new prefix; it is sufficient to check prefix only
            // because "xmlns" prefix is reserved
            let ln = &name.local_name;
            let r = if chars_eq_str(ln, "xmlns") {
                Some(self.error(text("Cannot redefine prefix 'xmlns'")))
            } else if chars_eq_str(ln, "xml") && !chars_eq_str(
                &value,
                "http://www.w3.org/XML/1998/namespace",
            ) {
                Some(self.error(text("Prefix 'xml' cannot be rebound to another value")))
            } else if value.len() == 0 {
                let mut m = text("Cannot undefine prefix '");
                push_all(&mut m, ln);
                let tail = text("'");
                push_all(&mut m, &tail);
                Some(self.error(m))
            } else {
                self.nst.put(crate::common::copy_chars(ln), value);
                self.into_state_continue(State::InsideOpeningTag(OpeningTagSubstate::InsideTag))
            };
            proof {
                old(self).lemma_encounter_step(*self, opt_result_view(r));
            }
            r
        } else if name.prefix.is_none() && chars_eq_str(&name.local_name, "xmlns") {
            // declaring default namespace
            let r = if chars_eq_str(&value, "http://www.w3.org/2000/xmlns/") || chars_eq_str(
                &value,
                "http://www.w3.org/XML/1998/namespace",
            ) {
                let mut m = text("Namespace '");
                push_all(&mut m, &value);
                let tail = text("' cannot be default");
                push_all(&mut m, &tail);
                Some(self.error(m))
            } else {
                self.nst.put(Vec::new(), value);
                self.into_state_continue(State::InsideOpeningTag(OpeningTagSubstate::InsideTag))
            };
            proof {
                old(self).lemma_encounter_step(*self, opt_result_view(r));
            }
            r
        } else {
            // regular attribute
            // check that no attribute with such name is already present; if there
            // is one, XML is not well-formed
            if self.has_attribute(&name) {
                let repr = name.to_repr();
                let mut m = text("Attribute '");
                push_all(&mut m, &repr);
                let tail = text("' is redefined");
                push_all(&mut m, &tail);
                let r = self.error(m);
                proof {
                    old(self).lemma_quiet_step(*self, opt_result_view(Some(r)));
                    assert(m@ =~= "Attribute '"@ + name_repr(name@) + "' is redefined"@);
                }
                return Some(r);
            }
            let ghost before = attrs_view(self.data.attributes@);
            self.data.attributes.push(OwnedAttribute::new(name, value));
            proof {
                let after = attrs_view(self.data.attributes@);
                assert(after =~= before.push(after.last()));
                assert forall|i: int, j: int|
                    0 <= i < j < after.len() implies !same_attr_name(
                    #[trigger] after[i].name,
                    #[trigger] after[j].name,
                ) by {
                    if j == after.len() - 1 {
                        assert(after[i].name == self.data.attributes@[i].name@);
                    } else {
                        assert(after[i] == before[i] && after[j] == before[j]);
                    }
                }
            }
            let r = self.into_state_continue(State::InsideOpeningTag(OpeningTagSubstate::InsideTag));
            proof {
                old(self).lemma_quiet_step(*self, None);
                assert(attrs_view(self.data.attributes@) =~= before.push(
                    AttrView { name: name@, value: value@ },
                ));
            }
            r
        }
    }
}

} // verus!
