//! The lexer: turns characters into the tokens of XML markup.

use std::collections::VecDeque;
use vstd::prelude::*;
use vstd::string::*;
use crate::common::{
    is_name_char, is_whitespace_char, push_all, spec_name_char, spec_whitespace_char, text,
    TextPosition,
};
use crate::reader::events::{Error, ErrorView};

verus! {

/// A token of XML markup.
#[derive(Copy, Clone, Debug, PartialEq, Eq, Structural)]
pub enum Token {
    /// `<?`
    ProcessingInstructionStart,
    /// `?>`
    ProcessingInstructionEnd,
    /// `<!DOCTYPE`
    DoctypeStart,
    /// `<`
    OpeningTagStart,
    /// `</`
    ClosingTagStart,
    /// `>`
    TagEnd,
    /// `/>`
    EmptyTagEnd,
    /// `<!--`
    CommentStart,
    /// `-->`
    CommentEnd,
    /// Any other character.
    Character(char),
    /// `=`
    EqualsSign,
    /// `'`
    SingleQuote,
    /// `"`
    DoubleQuote,
    /// `<![CDATA[`
    CDataStart,
    /// `]]>`
    CDataEnd,
    /// `&`
    ReferenceStart,
    /// `;`
    ReferenceEnd,
    /// `<!` inside a document type declaration
    MarkupDeclarationStart,
}

/// How a token is written.
pub open spec fn token_text(t: Token) -> Seq<char> {
    match t {
        Token::ProcessingInstructionStart => seq!['<', '?'],
        Token::ProcessingInstructionEnd => seq!['?', '>'],
        Token::DoctypeStart => seq!['<', '!', 'D', 'O', 'C', 'T', 'Y', 'P', 'E'],
        Token::OpeningTagStart => seq!['<'],
        Token::ClosingTagStart => seq!['<', '/'],
        Token::TagEnd => seq!['>'],
        Token::EmptyTagEnd => seq!['/', '>'],
        Token::CommentStart => seq!['<', '!', '-', '-'],
        Token::CommentEnd => seq!['-', '-', '>'],
        Token::Character(c) => seq![c],
        Token::EqualsSign => seq!['='],
        Token::SingleQuote => seq!['\''],
        Token::DoubleQuote => seq!['"'],
        Token::CDataStart => seq!['<', '!', '[', 'C', 'D', 'A', 'T', 'A', '['],
        Token::CDataEnd => seq![']', ']', '>'],
        Token::ReferenceStart => seq!['&'],
        Token::ReferenceEnd => seq![';'],
        Token::MarkupDeclarationStart => seq!['<', '!'],
    }
}

impl Token {
    /// Appends how this token is written to `target`.
    pub fn push_to_string(&self, target: &mut Vec<char>)
        ensures
            final(target)@ == old(target)@ + token_text(*self),
    {
        let s = self.to_text();
        push_all(target, &s);
    }

    /// How this token is written.
    pub fn to_text(&self) -> (r: Vec<char>)
        ensures
            r@ == token_text(*self),
    {
        match self {
            Token::ProcessingInstructionStart => {
                proof {
                    reveal_strlit("<?");
                }
                text("<?")
            },
            Token::ProcessingInstructionEnd => {
                proof {
                    reveal_strlit("?>");
                }
                text("?>")
            },
            Token::DoctypeStart => {
                proof {
                    reveal_strlit("<!DOCTYPE");
                }
                text("<!DOCTYPE")
            },
            Token::OpeningTagStart => {
                proof {
                    reveal_strlit("<");
                }
                text("<")
            },
            Token::ClosingTagStart => {
                proof {
                    reveal_strlit("</");
                }
                text("</")
            },
            Token::TagEnd => {
                proof {
                    reveal_strlit(">");
                }
                text(">")
            },
            Token::EmptyTagEnd => {
                proof {
                    reveal_strlit("/>");
                }
                text("/>")
            },
            Token::CommentStart => {
                proof {
                    reveal_strlit("<!--");
                }
                text("<!--")
            },
            Token::CommentEnd => {
                proof {
                    reveal_strlit("-->");
                }
                text("-->")
            },
            Token::Character(c) => {
                let mut v: Vec<char> = Vec::new();
                v.push(*c);
                assert(v@ =~= seq![*c]);
                v
            },
            Token::EqualsSign => {
                proof {
                    reveal_strlit("=");
                }
                text("=")
            },
            Token::SingleQuote => {
                proof {
                    reveal_strlit("'");
                }
                text("'")
            },
            Token::DoubleQuote => {
                proof {
                    reveal_strlit("\"");
                }
                text("\"")
            },
            Token::CDataStart => {
                proof {
                    reveal_strlit("<![CDATA[");
                }
                text("<![CDATA[")
            },
            Token::CDataEnd => {
                proof {
                    reveal_strlit("]]>");
                }
                text("]]>")
            },
            Token::ReferenceStart => {
                proof {
                    reveal_strlit("&");
                }
                text("&")
            },
            Token::ReferenceEnd => {
                proof {
                    reveal_strlit(";");
                }
                text(";")
            },
            Token::MarkupDeclarationStart => {
                proof {
                    reveal_strlit("<!");
                }
                text("<!")
            },
        }
    }
}

/// The text a lexer reads, with a cursor.
pub struct CharReader {
    chars: Vec<char>,
    offset: usize,
}

impl CharReader {
    /// A reader of `chars`, at its beginning.
    pub fn new(chars: Vec<char>) -> (r: CharReader)
        ensures
            r.wf(),
            r.remaining() == chars@,
    {
        let r = CharReader { chars, offset: 0 };
        assert(r.chars@.subrange(0, r.chars@.len() as int) =~= r.chars@);
        r
    }

    /// The characters not read yet.
    pub closed spec fn remaining(&self) -> Seq<char> {
        self.chars@.subrange(self.offset as int, self.chars@.len() as int)
    }

    /// The cursor is inside the text.
    pub closed spec fn wf(&self) -> bool {
        self.offset <= self.chars@.len()
    }

    /// Appends text to read after what is there.
    pub fn feed(&mut self, more: &Vec<char>)
        requires
            old(self).wf(),
        ensures
            final(self).wf(),
            final(self).remaining() == old(self).remaining() + more@,
    {
        push_all(&mut self.chars, more);
        assert(self.remaining() =~= old(self).remaining() + more@);
    }

    /// Reads the next character.
    pub fn next_char(&mut self) -> (r: Option<char>)
        requires
            old(self).wf(),
        ensures
            final(self).wf(),
            old(self).remaining().len() == 0 ==> r is None && final(self).remaining()
                == old(self).remaining(),
            old(self).remaining().len() > 0 ==> r == Some(old(self).remaining()[0])
                && final(self).remaining() == old(self).remaining().drop_first(),
    {
        if self.offset < self.chars.len() {
            let c = self.chars[self.offset];
            self.offset = self.offset + 1;
            assert(self.remaining() =~= old(self).remaining().drop_first());
            Some(c)
        } else {
            None
        }
    }
}

/// Which of `]` and `]]` has been read, or of `-` and `--`.
#[derive(Copy, Clone, Debug, PartialEq, Eq, Structural)]
pub(crate) enum ClosingSubstate {
    First,
    Second,
}

/// How much of `<!DOCTYPE` has been read after `<!`.
#[derive(Copy, Clone, Debug, PartialEq, Eq, Structural)]
pub(crate) enum DoctypeStartedSubstate {
    D,
    DO,
    DOC,
    DOCT,
    DOCTY,
    DOCTYP,
}

/// How much of `<![CDATA[` has been read after `<!`.
#[derive(Copy, Clone, Debug, PartialEq, Eq, Structural)]
pub(crate) enum CDataStartedSubstate {
    E,
    C,
    CD,
    CDA,
    CDAT,
    CDATA,
}

/// Which quote opened a quoted string in a markup declaration.
#[derive(Copy, Clone, Debug, PartialEq, Eq, Structural)]
pub(crate) enum QuoteStyle {
    Single,
    Double,
}

/// What the lexer is in the middle of.
#[derive(Copy, Clone, Debug, PartialEq, Eq, Structural)]
pub(crate) enum LexerState {
    /// Text and the inside of tags.
    Normal,
    /// After `<`.
    TagStarted,
    /// After `<!`.
    CommentOrCDataOrDoctypeStarted,
    /// After `<!-`.
    CommentStarted,
    /// After `<!D` and more of `DOCTYPE`.
    DoctypeStarted(DoctypeStartedSubstate),
    /// Inside `<!ELEMENT ...>` and the like in a document type declaration.
    InsideMarkupDeclaration,
    /// Inside a document type declaration.
    InsideDoctype,
    /// After `<![` and more of `CDATA[`.
    CDataStarted(CDataStartedSubstate),
    /// After `?` inside a processing instruction.
    ProcessingInstructionClosing,
    /// After `/`.
    EmptyTagClosing,
    /// After `-` or `--` inside a comment.
    CommentClosing(ClosingSubstate),
    /// After `]` or `]]` inside CDATA.
    CDataClosing(ClosingSubstate),
    /// After `]` or `]]` outside CDATA.
    InvalidCDataClosing(ClosingSubstate),
    /// Inside a comment.
    InsideComment,
    /// Inside CDATA.
    InsideCdata,
    /// Inside a processing instruction.
    InsideProcessingInstruction,
    /// Inside a quoted string of a markup declaration.
    InsideMarkupDeclarationQuotedString(QuoteStyle),
}

/// How many characters a state holds that no token has accounted for yet.
pub(crate) open spec fn pending(st: LexerState) -> nat {
    match st {
        LexerState::TagStarted => 1,
        LexerState::EmptyTagClosing => 1,
        LexerState::ProcessingInstructionClosing => 1,
        LexerState::CommentOrCDataOrDoctypeStarted => 2,
        LexerState::CommentStarted => 3,
        LexerState::CDataStarted(s) => match s {
            CDataStartedSubstate::E => 3,
            CDataStartedSubstate::C => 4,
            CDataStartedSubstate::CD => 5,
            CDataStartedSubstate::CDA => 6,
            CDataStartedSubstate::CDAT => 7,
            CDataStartedSubstate::CDATA => 8,
        },
        LexerState::DoctypeStarted(s) => match s {
            DoctypeStartedSubstate::D => 3,
            DoctypeStartedSubstate::DO => 4,
            DoctypeStartedSubstate::DOC => 5,
            DoctypeStartedSubstate::DOCT => 6,
            DoctypeStartedSubstate::DOCTY => 7,
            DoctypeStartedSubstate::DOCTYP => 8,
        },
        LexerState::CommentClosing(s) => if s == ClosingSubstate::First {
            1
        } else {
            2
        },
        LexerState::CDataClosing(s) => if s == ClosingSubstate::First {
            1
        } else {
            2
        },
        LexerState::InvalidCDataClosing(s) => if s == ClosingSubstate::First {
            1
        } else {
            2
        },
        _ => 0,
    }
}

/// The characters a state holds that no token has accounted for yet.
pub(crate) open spec fn held(st: LexerState) -> Seq<char> {
    match st {
        LexerState::TagStarted => seq!['<'],
        LexerState::EmptyTagClosing => seq!['/'],
        LexerState::ProcessingInstructionClosing => seq!['?'],
        LexerState::CommentOrCDataOrDoctypeStarted => seq!['<', '!'],
        LexerState::CommentStarted => seq!['<', '!', '-'],
        LexerState::CDataStarted(s) => match s {
            CDataStartedSubstate::E => seq!['<', '!', '['],
            CDataStartedSubstate::C => seq!['<', '!', '[', 'C'],
            CDataStartedSubstate::CD => seq!['<', '!', '[', 'C', 'D'],
            CDataStartedSubstate::CDA => seq!['<', '!', '[', 'C', 'D', 'A'],
            CDataStartedSubstate::CDAT => seq!['<', '!', '[', 'C', 'D', 'A', 'T'],
            CDataStartedSubstate::CDATA => seq!['<', '!', '[', 'C', 'D', 'A', 'T', 'A'],
        },
        LexerState::DoctypeStarted(s) => match s {
            DoctypeStartedSubstate::D => seq!['<', '!', 'D'],
            DoctypeStartedSubstate::DO => seq!['<', '!', 'D', 'O'],
            DoctypeStartedSubstate::DOC => seq!['<', '!', 'D', 'O', 'C'],
            DoctypeStartedSubstate::DOCT => seq!['<', '!', 'D', 'O', 'C', 'T'],
            DoctypeStartedSubstate::DOCTY => seq!['<', '!', 'D', 'O', 'C', 'T', 'Y'],
            DoctypeStartedSubstate::DOCTYP => seq!['<', '!', 'D', 'O', 'C', 'T', 'Y', 'P'],
        },
        LexerState::CommentClosing(s) => if s == ClosingSubstate::First {
            seq!['-']
        } else {
            seq!['-', '-']
        },
        LexerState::CDataClosing(s) => if s == ClosingSubstate::First {
            seq![']']
        } else {
            seq![']', ']']
        },
        LexerState::InvalidCDataClosing(s) => if s == ClosingSubstate::First {
            seq![']']
        } else {
            seq![']', ']']
        },
        _ => Seq::<char>::empty(),
    }
}

/// What a character does in text: the token it stands for, or none where
/// it may begin a longer token (`<`, `/` and `]`).
pub(crate) open spec fn normal_step(c: char) -> Option<Token> {
    if c == '<' || c == '/' || c == ']' {
        None
    } else if c == '>' {
        Some(Token::TagEnd)
    } else if c == '=' {
        Some(Token::EqualsSign)
    } else if c == '"' {
        Some(Token::DoubleQuote)
    } else if c == '\'' {
        Some(Token::SingleQuote)
    } else if c == '&' {
        Some(Token::ReferenceStart)
    } else if c == ';' {
        Some(Token::ReferenceEnd)
    } else {
        Some(Token::Character(c))
    }
}

/// What a character does inside a markup declaration of a document type
/// declaration (`<` is an error there).
pub(crate) open spec fn markup_declaration_step(c: char) -> Token {
    if c == '>' {
        Token::TagEnd
    } else if c == '&' {
        Token::ReferenceStart
    } else if c == ';' {
        Token::ReferenceEnd
    } else if c == '"' {
        Token::DoubleQuote
    } else if c == '\'' {
        Token::SingleQuote
    } else {
        Token::Character(c)
    }
}

/// The messages of the errors the lexer reports: a token that does not fit
/// before a character, the end of the text inside markup or inside CDATA.
pub(crate) open spec fn lexer_error_msg(m: Seq<char>) -> bool {
    ||| m == "Unexpected end of stream"@
    ||| m == "Unclosed CDATA"@
    ||| exists|chunk: Seq<char>, c: char|
        m == "Unexpected token '"@ + chunk + "' before '"@ + seq![c] + "'"@
}

/// The text a lexer step accounts for: that of its token, if any.
pub(crate) open spec fn emitted(r: LexResult) -> Seq<char> {
    match r {
        Ok(Some(t)) => token_text(t),
        _ => Seq::<char>::empty(),
    }
}

/// The position after `c`, read at `p`: the next line after a line feed,
/// else the next column (both stop growing at `u64::MAX`).
pub open spec fn after_char(p: TextPosition, c: char) -> TextPosition {
    if c == '\n' {
        TextPosition {
            row: if p.row < u64::MAX {
                (p.row + 1) as u64
            } else {
                u64::MAX
            },
            column: 0,
        }
    } else {
        TextPosition {
            row: p.row,
            column: if p.column < u64::MAX {
                (p.column + 1) as u64
            } else {
                u64::MAX
            },
        }
    }
}

/// What one character does in a lexer state: the token it completes, if
/// any, or the message of the error it causes; the state and the normal
/// state after it; and the characters it gives back to be read again.
pub(crate) struct LexStep {
    pub(crate) res: Result<Option<Token>, Seq<char>>,
    pub(crate) st: LexerState,
    pub(crate) normal: LexerState,
    pub(crate) unread: Seq<char>,
}

/// Moves to `st`, completing `t` if it is there.
pub(crate) open spec fn moves(st: LexerState, normal: LexerState, t: Option<Token>) -> LexStep {
    LexStep { res: Ok(t), st, normal, unread: Seq::<char>::empty() }
}

/// Moves to `st` with `t`, giving `unread` back.
pub(crate) open spec fn moves_back(st: LexerState, normal: LexerState, unread: Seq<char>, t: Token) -> LexStep {
    LexStep { res: Ok(Some(t)), st, normal, unread }
}

/// The error for `chunk` followed by `c`; the lexer goes back to its normal
/// state.
pub(crate) open spec fn unexpected(normal: LexerState, chunk: Seq<char>, c: char) -> LexStep {
    LexStep {
        res: Err("Unexpected token '"@ + chunk + "' before '"@ + seq![c] + "'"@),
        st: normal,
        normal,
        unread: Seq::<char>::empty(),
    }
}

/// What `c` does after `<![` and part of `CDATA[`.
pub(crate) open spec fn cdata_started_step(s: CDataStartedSubstate, normal: LexerState, c: char) -> LexStep {
    match s {
        CDataStartedSubstate::E => if c == 'C' {
            moves(LexerState::CDataStarted(CDataStartedSubstate::C), normal, None)
        } else {
            unexpected(normal, "<!["@, c)
        },
        CDataStartedSubstate::C => if c == 'D' {
            moves(LexerState::CDataStarted(CDataStartedSubstate::CD), normal, None)
        } else {
            unexpected(normal, "<![C"@, c)
        },
        CDataStartedSubstate::CD => if c == 'A' {
            moves(LexerState::CDataStarted(CDataStartedSubstate::CDA), normal, None)
        } else {
            unexpected(normal, "<![CD"@, c)
        },
        CDataStartedSubstate::CDA => if c == 'T' {
            moves(LexerState::CDataStarted(CDataStartedSubstate::CDAT), normal, None)
        } else {
            unexpected(normal, "<![CDA"@, c)
        },
        CDataStartedSubstate::CDAT => if c == 'A' {
            moves(LexerState::CDataStarted(CDataStartedSubstate::CDATA), normal, None)
        } else {
            unexpected(normal, "<![CDAT"@, c)
        },
        CDataStartedSubstate::CDATA => if c == '[' {
            moves(LexerState::InsideCdata, normal, Some(Token::CDataStart))
        } else {
            unexpected(normal, "<![CDATA"@, c)
        },
    }
}

/// What `c` does after `<!D` and part of `OCTYPE`.
pub(crate) open spec fn doctype_started_step(s: DoctypeStartedSubstate, normal: LexerState, c: char) -> LexStep {
    match s {
        DoctypeStartedSubstate::D => if c == 'O' {
            moves(LexerState::DoctypeStarted(DoctypeStartedSubstate::DO), normal, None)
        } else {
            unexpected(normal, "<!D"@, c)
        },
        DoctypeStartedSubstate::DO => if c == 'C' {
            moves(LexerState::DoctypeStarted(DoctypeStartedSubstate::DOC), normal, None)
        } else {
            unexpected(normal, "<!DO"@, c)
        },
        DoctypeStartedSubstate::DOC => if c == 'T' {
            moves(LexerState::DoctypeStarted(DoctypeStartedSubstate::DOCT), normal, None)
        } else {
            unexpected(normal, "<!DOC"@, c)
        },
        DoctypeStartedSubstate::DOCT => if c == 'Y' {
            moves(LexerState::DoctypeStarted(DoctypeStartedSubstate::DOCTY), normal, None)
        } else {
            unexpected(normal, "<!DOCT"@, c)
        },
        DoctypeStartedSubstate::DOCTY => if c == 'P' {
            moves(LexerState::DoctypeStarted(DoctypeStartedSubstate::DOCTYP), normal, None)
        } else {
            unexpected(normal, "<!DOCTY"@, c)
        },
        DoctypeStartedSubstate::DOCTYP => if c == 'E' {
            moves(LexerState::InsideDoctype, LexerState::InsideDoctype, Some(Token::DoctypeStart))
        } else {
            unexpected(normal, "<!DOCTYP"@, c)
        },
    }
}

/// What a character does inside a processing instruction, other than `?`.
pub(crate) open spec fn processing_instruction_step(c: char) -> Token {
    if c == '<' {
        Token::OpeningTagStart
    } else if c == '=' {
        Token::EqualsSign
    } else {
        markup_declaration_step(c)
    }
}

/// What `c` does in the state `st` with the normal state `normal`.
#[verifier::opaque]
pub(crate) open spec fn lex_step(st: LexerState, normal: LexerState, c: char) -> LexStep {
    match st {
        LexerState::Normal => if c == '<' {
            moves(LexerState::TagStarted, normal, None)
        } else if c == '/' {
            moves(LexerState::EmptyTagClosing, normal, None)
        } else if c == ']' {
            moves(LexerState::InvalidCDataClosing(ClosingSubstate::First), normal, None)
        } else {
            moves(LexerState::Normal, normal, normal_step(c))
        },
        LexerState::TagStarted => if c == '?' {
            moves(
                LexerState::InsideProcessingInstruction,
                normal,
                Some(Token::ProcessingInstructionStart),
            )
        } else if c == '/' {
            moves(normal, normal, Some(Token::ClosingTagStart))
        } else if c == '!' {
            moves(LexerState::CommentOrCDataOrDoctypeStarted, normal, None)
        } else if spec_whitespace_char(c) || spec_name_char(c) {
            moves_back(normal, normal, seq![c], Token::OpeningTagStart)
        } else {
            unexpected(normal, "<"@, c)
        },
        LexerState::EmptyTagClosing => if c == '>' {
            moves(normal, normal, Some(Token::EmptyTagEnd))
        } else {
            moves_back(normal, normal, seq![c], Token::Character('/'))
        },
        LexerState::CommentOrCDataOrDoctypeStarted => if c == '-' {
            moves(LexerState::CommentStarted, normal, None)
        } else if c == '[' {
            moves(LexerState::CDataStarted(CDataStartedSubstate::E), normal, None)
        } else if c == 'D' {
            moves(LexerState::DoctypeStarted(DoctypeStartedSubstate::D), normal, None)
        } else if (c == 'E' || c == 'A' || c == 'N') && normal == LexerState::InsideDoctype {
            moves_back(
                LexerState::InsideMarkupDeclaration,
                normal,
                seq![c],
                Token::MarkupDeclarationStart,
            )
        } else {
            unexpected(normal, "<!"@, c)
        },
        LexerState::CommentStarted => if c == '-' {
            moves(LexerState::InsideComment, normal, Some(Token::CommentStart))
        } else {
            unexpected(normal, "<!-"@, c)
        },
        LexerState::CDataStarted(s) => cdata_started_step(s, normal, c),
        LexerState::DoctypeStarted(s) => doctype_started_step(s, normal, c),
        LexerState::InsideMarkupDeclaration => if c == '<' {
            unexpected(normal, "<!"@, c)
        } else if c == '>' {
            moves(normal, normal, Some(Token::TagEnd))
        } else if c == '"' {
            moves(
                LexerState::InsideMarkupDeclarationQuotedString(QuoteStyle::Double),
                normal,
                Some(Token::DoubleQuote),
            )
        } else if c == '\'' {
            moves(
                LexerState::InsideMarkupDeclarationQuotedString(QuoteStyle::Single),
                normal,
                Some(Token::SingleQuote),
            )
        } else {
            moves(LexerState::InsideMarkupDeclaration, normal, Some(markup_declaration_step(c)))
        },
        LexerState::InsideDoctype => if c == '>' {
            moves(LexerState::Normal, LexerState::Normal, Some(Token::TagEnd))
        } else if c == '<' {
            moves(LexerState::TagStarted, normal, None)
        } else {
            moves(LexerState::InsideDoctype, normal, Some(markup_declaration_step(c)))
        },
        LexerState::ProcessingInstructionClosing => if c == '>' {
            moves(normal, normal, Some(Token::ProcessingInstructionEnd))
        } else {
            moves_back(
                LexerState::InsideProcessingInstruction,
                normal,
                seq![c],
                Token::Character('?'),
            )
        },
        LexerState::CommentClosing(s) => if s == ClosingSubstate::First {
            if c == '-' {
                moves(LexerState::CommentClosing(ClosingSubstate::Second), normal, None)
            } else {
                moves_back(LexerState::InsideComment, normal, seq![c], Token::Character('-'))
            }
        } else {
            if c == '>' {
                moves(normal, normal, Some(Token::CommentEnd))
            } else {
                unexpected(normal, "--"@, c)
            }
        },
        LexerState::CDataClosing(s) => if s == ClosingSubstate::First {
            if c == ']' {
                moves(LexerState::CDataClosing(ClosingSubstate::Second), normal, None)
            } else {
                moves_back(LexerState::InsideCdata, normal, seq![c], Token::Character(']'))
            }
        } else {
            if c == '>' {
                moves(LexerState::Normal, normal, Some(Token::CDataEnd))
            } else {
                moves_back(LexerState::InsideCdata, normal, seq![']', c], Token::Character(']'))
            }
        },
        LexerState::InvalidCDataClosing(s) => if s == ClosingSubstate::First {
            if c == ']' {
                moves(LexerState::InvalidCDataClosing(ClosingSubstate::Second), normal, None)
            } else {
                moves_back(LexerState::Normal, normal, seq![c], Token::Character(']'))
            }
        } else {
            if c == '>' {
                moves(normal, normal, Some(Token::CDataEnd))
            } else {
                moves_back(LexerState::Normal, normal, seq![']', c], Token::Character(']'))
            }
        },
        LexerState::InsideComment => if c == '-' {
            moves(LexerState::CommentClosing(ClosingSubstate::First), normal, None)
        } else {
            moves(LexerState::InsideComment, normal, Some(Token::Character(c)))
        },
        LexerState::InsideCdata => if c == ']' {
            moves(LexerState::CDataClosing(ClosingSubstate::First), normal, None)
        } else {
            moves(LexerState::InsideCdata, normal, Some(Token::Character(c)))
        },
        LexerState::InsideProcessingInstruction => if c == '?' {
            moves(LexerState::ProcessingInstructionClosing, normal, None)
        } else {
            moves(
                LexerState::InsideProcessingInstruction,
                normal,
                Some(processing_instruction_step(c)),
            )
        },
        LexerState::InsideMarkupDeclarationQuotedString(q) => if c == '"' && q
            == QuoteStyle::Double {
            moves(LexerState::InsideMarkupDeclaration, normal, Some(Token::DoubleQuote))
        } else if c == '\'' && q == QuoteStyle::Single {
            moves(LexerState::InsideMarkupDeclaration, normal, Some(Token::SingleQuote))
        } else {
            moves(st, normal, Some(Token::Character(c)))
        },
    }
}

/// What the end of the text does in the state `st`: a token for the
/// characters held, nothing in text, or an error.
pub(crate) open spec fn end_step(st: LexerState, normal: LexerState) -> LexStep {
    match st {
        LexerState::Normal => moves(LexerState::Normal, normal, None),
        LexerState::EmptyTagClosing => moves(normal, normal, Some(Token::Character('/'))),
        LexerState::CommentClosing(ClosingSubstate::First) => moves(
            LexerState::InsideComment,
            normal,
            Some(Token::Character('-')),
        ),
        LexerState::InvalidCDataClosing(ClosingSubstate::First) => moves(
            normal,
            normal,
            Some(Token::Character(']')),
        ),
        LexerState::InvalidCDataClosing(ClosingSubstate::Second) => moves_back(
            LexerState::Normal,
            normal,
            seq![']'],
            Token::Character(']'),
        ),
        LexerState::InsideCdata | LexerState::CDataClosing(_) => LexStep {
            res: Err("Unclosed CDATA"@),
            st: normal,
            normal,
            unread: Seq::<char>::empty(),
        },
        _ => LexStep {
            res: Err("Unexpected end of stream"@),
            st: normal,
            normal,
            unread: Seq::<char>::empty(),
        },
    }
}

/// Where reading leads: the result, the lexer's state, normal state and
/// queue after it, the text left, the position of the next character of
/// the text, the nesting of entity expansions, whether the end of the text
/// was met, and whether the lexer then counts it as reported.
pub(crate) struct Lexed {
    pub(crate) res: Result<Option<Token>, Seq<char>>,
    pub(crate) st: LexerState,
    pub(crate) normal: LexerState,
    pub(crate) queue: Seq<char>,
    pub(crate) rest: Seq<char>,
    pub(crate) head: TextPosition,
    pub(crate) depth: u8,
    pub(crate) at_end: bool,
    pub(crate) eof: bool,
}

/// Reading from the state `st`: first the queued characters, then the text
/// `rest`, one character at a time, until one completes a token or causes
/// an error; at the end of both, what the end of the text does there.
pub(crate) open spec fn lex_run(
    st: LexerState,
    normal: LexerState,
    queue: Seq<char>,
    rest: Seq<char>,
    head: TextPosition,
    depth: u8,
) -> Lexed
    decreases queue.len() + rest.len(),
{
    if queue.len() > 0 {
        let s = lex_step(st, normal, queue[0]);
        if s.res == Ok::<Option<Token>, Seq<char>>(None) {
            lex_run(s.st, s.normal, queue.drop_first(), rest, head, depth)
        } else {
            Lexed {
                res: s.res,
                st: s.st,
                normal: s.normal,
                queue: s.unread + queue.drop_first(),
                rest,
                head,
                depth,
                at_end: false,
                eof: false,
            }
        }
    } else if rest.len() > 0 {
        let s = lex_step(st, normal, rest[0]);
        let h = after_char(head, rest[0]);
        if s.res == Ok::<Option<Token>, Seq<char>>(None) {
            lex_run(s.st, s.normal, queue, rest.drop_first(), h, 0)
        } else {
            Lexed {
                res: s.res,
                st: s.st,
                normal: s.normal,
                queue: s.unread + queue,
                rest: rest.drop_first(),
                head: h,
                depth: 0,
                at_end: false,
                eof: false,
            }
        }
    } else {
        let e = end_step(st, normal);
        Lexed {
            res: e.res,
            st: e.st,
            normal: e.normal,
            queue: e.unread + queue,
            rest,
            head,
            depth,
            at_end: true,
            eof: st != LexerState::InvalidCDataClosing(ClosingSubstate::Second),
        }
    }
}

/// A character that completes nothing gives nothing back.
pub(crate) proof fn lemma_quiet_step_unread(st: LexerState, normal: LexerState, c: char)
    ensures
        lex_step(st, normal, c).res == Ok::<Option<Token>, Seq<char>>(None) ==> lex_step(
            st,
            normal,
            c,
        ).unread == Seq::<char>::empty(),
{
    reveal(lex_step);
}

/// The view of a lexer result: its token, or its error's view.
pub(crate) open spec fn lex_view(r: LexResult) -> Result<Option<Token>, ErrorView> {
    match r {
        Ok(t) => Ok(t),
        Err(e) => Err(e@),
    }
}

/// A result of the model, with its error placed at `pos`.
pub(crate) open spec fn placed(res: Result<Option<Token>, Seq<char>>, pos: TextPosition) -> Result<
    Option<Token>,
    ErrorView,
> {
    match res {
        Ok(t) => Ok(t),
        Err(m) => Err(ErrorView { pos, msg: m }),
    }
}

/// The lexer.
pub(crate) struct Lexer {
    st: LexerState,
    normal_state: LexerState,
    char_queue: VecDeque<char>,
    pos: TextPosition,
    head_pos: TextPosition,
    inside_token: bool,
    eof_handled: bool,
    reparse_depth: u8,
    max_entity_expansion_depth: u8,
    max_entity_expansion_length: usize,
    encoding: Vec<char>,
}

/// `(a0, a1, a2)` comes before `(b0, b1, b2)` in lexicographic order.
pub(crate) open spec fn lex_lt(a: (nat, nat, nat), b: (nat, nat, nat)) -> bool {
    ||| a.0 < b.0
    ||| a.0 == b.0 && a.1 < b.1
    ||| a.0 == b.0 && a.1 == b.1 && a.2 < b.2
}

/// The result of a lexer step: a token, nothing yet, or an error.
pub(crate) type LexResult = Result<Option<Token>, Error>;

impl Lexer {
    /// Between tokens no state holds unaccounted characters; the normal state
    /// is that of text or of a document type declaration; entity expansions
    /// nest within their limit.
    pub(crate) closed spec fn wf(&self) -> bool {
        &&& pending(self.st) == 0
        &&& (self.normal_state == LexerState::Normal || self.normal_state
            == LexerState::InsideDoctype)
        &&& self.reparse_depth <= self.max_entity_expansion_depth
    }

    /// How much of the input is left: unread text, how many more entity
    /// expansions may nest, and queued characters.
    pub(crate) closed spec fn measure(&self, r: &CharReader) -> (nat, nat, nat) {
        (
            r.remaining().len(),
            (256 - self.reparse_depth) as nat,
            self.char_queue@.len() + pending(self.st),
        )
    }

    /// `next` is this lexer after it read `c`, and `r` is what reading it
    /// gave.
    pub(crate) closed spec fn steps_as(self, c: char, next: Lexer, r: LexResult) -> bool {
        let s = lex_step(self.st, self.normal_state, c);
        &&& next == (Lexer {
            st: s.st,
            normal_state: s.normal,
            char_queue: next.char_queue,
            ..self
        })
        &&& next.char_queue@ =~= s.unread + self.char_queue@
        &&& lex_view(r) == placed(s.res, self.pos)
    }

    /// Reading from this lexer, with `rest` the text not read yet, gives
    /// `out` and leaves the lexer `next`, with `next_rest` not read: nothing
    /// once the end of the text has been reported; else what `lex_run` says,
    /// with errors placed where the current token started, or at the end of
    /// the text once it is met.
    pub(crate) closed spec fn lexes(
        self,
        rest: Seq<char>,
        next: Lexer,
        next_rest: Seq<char>,
        out: Result<Option<Token>, ErrorView>,
    ) -> bool {
        if self.eof_handled {
            &&& out == Ok::<Option<Token>, ErrorView>(None)
            &&& next == self
            &&& next_rest == rest
        } else {
            let o = lex_run(
                self.st,
                self.normal_state,
                self.char_queue@,
                rest,
                self.head_pos,
                self.reparse_depth,
            );
            let start = if self.inside_token {
                self.pos
            } else {
                self.head_pos
            };
            let pos = if o.at_end {
                o.head
            } else {
                start
            };
            &&& next == (Lexer {
                st: o.st,
                normal_state: o.normal,
                char_queue: next.char_queue,
                pos,
                head_pos: o.head,
                inside_token: o.at_end || o.res is Err,
                eof_handled: o.eof,
                reparse_depth: o.depth,
                ..self
            })
            &&& next.char_queue@ =~= o.queue
            &&& next_rest == o.rest
            &&& out == placed(o.res, pos)
        }
    }

    /// This lexer, told to go on after it reported the end of the text.
    pub(crate) closed spec fn resumed(self) -> Lexer {
        Lexer { eof_handled: false, ..self }
    }

    /// `next` is this lexer made to read `markup` before what it has queued:
    /// one more entity expansion nests, and the end of the text is not
    /// reported any more.
    pub(crate) closed spec fn reparsed(self, markup: Seq<char>, next: Lexer) -> bool {
        if markup.len() == 0 {
            next == self
        } else {
            &&& next == (Lexer {
                char_queue: next.char_queue,
                reparse_depth: (self.reparse_depth + 1) as u8,
                eof_handled: false,
                ..self
            })
            &&& next.char_queue@ =~= markup + self.char_queue@
        }
    }

    /// Reading no markup first leaves the lexer as it is.
    pub(crate) proof fn lemma_reparsed_nothing(self)
        ensures
            self.reparsed(Seq::<char>::empty(), self),
    {
    }

    /// The position where the last token started.
    pub(crate) closed spec fn spec_position(&self) -> TextPosition {
        self.pos
    }

    /// The name of the encoding the text is read in.
    pub(crate) closed spec fn spec_encoding(&self) -> Seq<char> {
        self.encoding@
    }

    /// What is left for the lexer to turn into tokens: the characters its
    /// state holds, those it has queued, and the text `r` has not read yet.
    pub(crate) closed spec fn stream(&self, r: &CharReader) -> Seq<char> {
        held(self.st) + self.char_queue@ + r.remaining()
    }

    /// The lexer has reported the end of the text and reports nothing more
    /// until it is told to go on.
    pub(crate) closed spec fn eof_reported(&self) -> bool {
        self.eof_handled
    }

    /// The lexer is in text and holds no character back.
    pub(crate) closed spec fn idle(&self) -> bool {
        self.st == LexerState::Normal && self.char_queue@.len() == 0
    }

    /// A lexer at the beginning of a document.
    pub(crate) fn new(max_entity_expansion_depth: u8, max_entity_expansion_length: usize) -> (r: Lexer)
        ensures
            r.wf(),
            r.idle(),
            !r.eof_reported(),
            r.spec_position() == (TextPosition { row: 0, column: 0 }),
            r.spec_encoding() == "UTF-8"@,
    {
        Lexer {
            st: LexerState::Normal,
            normal_state: LexerState::Normal,
            char_queue: VecDeque::new(),
            pos: TextPosition::new(),
            head_pos: TextPosition::new(),
            inside_token: false,
            eof_handled: false,
            reparse_depth: 0,
            max_entity_expansion_depth,
            max_entity_expansion_length,
            encoding: text("UTF-8"),
        }
    }

    /// The position where the last token started.
    pub(crate) fn position(&self) -> (r: TextPosition)
        ensures
            r == self.spec_position(),
    {
        self.pos
    }

    /// The name of the encoding the text is read in.
    pub(crate) fn encoding(&self) -> (r: Vec<char>)
        ensures
            r@ == self.spec_encoding(),
    {
        crate::common::copy_chars(&self.encoding)
    }

    /// Sets the name of the encoding the text is read in.
    pub(crate) fn set_encoding(&mut self, encoding: Vec<char>)
        requires
            old(self).wf(),
        ensures
            final(self).wf(),
            final(self).spec_position() == old(self).spec_position(),
            final(self).spec_encoding() == encoding@,
            final(self).idle() == old(self).idle(),
            forall|r: &CharReader| #[trigger] final(self).measure(r) == old(self).measure(r),
    {
        self.encoding = encoding;
    }

    /// Lets the lexer go on after it reported the end of the text.
    pub(crate) fn reset_eof_handled(&mut self)
        requires
            old(self).wf(),
        ensures
            final(self).wf(),
            *final(self) == old(self).resumed(),
            !final(self).eof_reported(),
            final(self).idle() == old(self).idle(),
            forall|rd: &CharReader| #[trigger] final(self).stream(rd) == old(self).stream(rd),
            final(self).spec_position() == old(self).spec_position(),
            final(self).spec_encoding() == old(self).spec_encoding(),
    {
        self.eof_handled = false;
    }

    /// An error at the start of the current token.
    pub(crate) fn error(&self, msg: Vec<char>) -> (r: Error)
        ensures
            r@ == (ErrorView { pos: self.spec_position(), msg: msg@ }),
    {
        Error::new(self.pos, msg)
    }

    /// Makes the lexer read `markup` before the rest of the text, for an
    /// entity that expands to markup.
    pub(crate) fn reparse(&mut self, markup: &Vec<char>) -> (r: Result<(), Error>)
        requires
            old(self).wf(),
        ensures
            final(self).wf(),
            final(self).spec_position() == old(self).spec_position(),
            final(self).spec_encoding() == old(self).spec_encoding(),
            r is Ok && markup@.len() > 0 ==> forall|rd: &CharReader|
                lex_lt(#[trigger] final(self).measure(rd), old(self).measure(rd)),
            r is Ok && markup@.len() == 0 ==> forall|rd: &CharReader|
                #[trigger] final(self).measure(rd) == old(self).measure(rd),
            r is Ok ==> forall|rd: &CharReader|
                #[trigger] final(self).stream(rd) == markup@ + old(self).stream(rd),
            r is Ok ==> old(self).reparsed(markup@, *final(self)),
            r is Err ==> *final(self) == *old(self),
            r is Err ==> r->Err_0@ == (ErrorView {
                pos: old(self).spec_position(),
                msg: "Entity too big"@,
            }),
    {
        if markup.len() == 0 {
            return Ok(());
        }
        if self.reparse_depth >= self.max_entity_expansion_depth || self.char_queue.len()
            > self.max_entity_expansion_length {
            return Err(self.error(text("Entity too big")));
        }
        self.reparse_depth = self.reparse_depth + 1;
        self.eof_handled = false;
        let ghost mid = *self;
        let mut i: usize = markup.len();
        while i > 0
            invariant
                *self == (Lexer { char_queue: self.char_queue, ..mid }),
                mid == (Lexer {
                    reparse_depth: (old(self).reparse_depth + 1) as u8,
                    eof_handled: false,
                    ..*old(self)
                }),
                i <= markup.len(),
                self.reparse_depth == old(self).reparse_depth + 1,
                self.st == old(self).st,
                self.normal_state == old(self).normal_state,
                self.max_entity_expansion_depth == old(self).max_entity_expansion_depth,
                self.pos == old(self).pos,
                self.encoding == old(self).encoding,
                self.char_queue@ == markup@.subrange(i as int, markup@.len() as int)
                    + old(self).char_queue@,
            decreases i,
        {
            self.char_queue.push_front(markup[i - 1]);
            i = i - 1;
            assert(markup@.subrange(i as int, markup@.len() as int) =~= seq![markup@[i as int]]
                + markup@.subrange(i + 1, markup@.len() as int));
        }
        assert(markup@.subrange(0, markup@.len() as int) =~= markup@);
        assert forall|rd: &CharReader| #[trigger] self.stream(rd) == markup@ + old(self).stream(rd) by {
            assert(held(self.st) =~= Seq::<char>::empty());
            assert(self.stream(rd) =~= markup@ + old(self).stream(rd));
        }
        Ok(())
    }

    fn move_to(&mut self, st: LexerState) -> (r: LexResult)
        ensures
            *final(self) == (Lexer { st, ..*old(self) }),
            r == Ok::<Option<Token>, Error>(None),
    {
        self.st = st;
        Ok(None)
    }

    fn move_to_with(&mut self, st: LexerState, token: Token) -> (r: LexResult)
        ensures
            *final(self) == (Lexer { st, ..*old(self) }),
            r == Ok::<Option<Token>, Error>(Some(token)),
    {
        self.st = st;
        Ok(Some(token))
    }

    fn move_to_and_reset_normal(&mut self, st: LexerState, token: Token) -> (r: LexResult)
        ensures
            *final(self) == (Lexer { st, normal_state: st, ..*old(self) }),
            r == Ok::<Option<Token>, Error>(Some(token)),
    {
        self.normal_state = st;
        self.st = st;
        Ok(Some(token))
    }

    fn move_to_with_unread(&mut self, st: LexerState, c: char, token: Token) -> (r: LexResult)
        ensures
            *final(self) == (Lexer { st, char_queue: final(self).char_queue, ..*old(self) }),
            final(self).st == st,
            final(self).char_queue@ == seq![c] + old(self).char_queue@,
            final(self).normal_state == old(self).normal_state,
            final(self).reparse_depth == old(self).reparse_depth,
            final(self).max_entity_expansion_depth == old(self).max_entity_expansion_depth,
            final(self).pos == old(self).pos,
            final(self).head_pos == old(self).head_pos,
            final(self).eof_handled == old(self).eof_handled,
            r == Ok::<Option<Token>, Error>(Some(token)),
    {
        self.char_queue.push_front(c);
        self.st = st;
        Ok(Some(token))
    }

    fn move_to_with_unread2(&mut self, st: LexerState, c1: char, c2: char, token: Token) -> (r:
        LexResult)
        ensures
            *final(self) == (Lexer { st, char_queue: final(self).char_queue, ..*old(self) }),
            final(self).st == st,
            final(self).char_queue@ == seq![c1, c2] + old(self).char_queue@,
            final(self).normal_state == old(self).normal_state,
            final(self).reparse_depth == old(self).reparse_depth,
            final(self).max_entity_expansion_depth == old(self).max_entity_expansion_depth,
            final(self).pos == old(self).pos,
            final(self).head_pos == old(self).head_pos,
            final(self).eof_handled == old(self).eof_handled,
            r == Ok::<Option<Token>, Error>(Some(token)),
    {
        self.char_queue.push_front(c2);
        self.char_queue.push_front(c1);
        assert(self.char_queue@ =~= seq![c1, c2] + old(self).char_queue@);
        self.st = st;
        Ok(Some(token))
    }

    /// An error for `chunk` followed by `c`; the lexer goes back to its normal
    /// state.
    fn handle_error(&mut self, chunk: &str, c: char) -> (r: LexResult)
        ensures
            *final(self) == (Lexer { st: old(self).normal_state, ..*old(self) }),
            r is Err,
            r->Err_0@ == (ErrorView {
                pos: old(self).spec_position(),
                msg: "Unexpected token '"@ + chunk@ + "' before '"@ + seq![c] + "'"@,
            }),
            lexer_error_msg(r->Err_0@.msg),
    {
        let mut msg = text("Unexpected token '");
        let ch = text(chunk);
        push_all(&mut msg, &ch);
        let mid = text("' before '");
        push_all(&mut msg, &mid);
        msg.push(c);
        let end = text("'");
        push_all(&mut msg, &end);
        assert(msg@ =~= "Unexpected token '"@ + chunk@ + "' before '"@ + seq![c] + "'"@);
        self.st = self.normal_state;
        Err(self.error(msg))
    }

    /// What one character does in the current state. Without a token it holds
    /// at most one more character and queues none; with a token it holds none
    /// and queues no more than it held.
    #[verifier::rlimit(40)]
    fn dispatch_char(&mut self, c: char) -> (r: LexResult)
        requires
            old(self).normal_state == LexerState::Normal || old(self).normal_state
                == LexerState::InsideDoctype,
            old(self).reparse_depth <= old(self).max_entity_expansion_depth,
        ensures
            old(self).steps_as(c, *final(self), r),
            r is Err ==> lexer_error_msg(r->Err_0@.msg),
            r is Ok ==> held(old(self).st) + seq![c] + old(self).char_queue@ == emitted(r) + held(
                final(self).st,
            ) + final(self).char_queue@,
            final(self).normal_state == LexerState::Normal || final(self).normal_state
                == LexerState::InsideDoctype,
            final(self).reparse_depth == old(self).reparse_depth,
            final(self).max_entity_expansion_depth == old(self).max_entity_expansion_depth,
            final(self).pos == old(self).pos,
            final(self).head_pos == old(self).head_pos,
            final(self).eof_handled == old(self).eof_handled,
            r is Ok && r->Ok_0 is None ==> pending(final(self).st) <= pending(old(self).st) + 1
                && final(self).char_queue@ == old(self).char_queue@,
            r is Ok && r->Ok_0 is Some ==> pending(final(self).st) == 0
                && final(self).char_queue@.len() <= old(self).char_queue@.len() + pending(old(self).st),
            r is Ok && r->Ok_0 is None ==> pending(final(self).st) > 0,
            r is Err ==> pending(final(self).st) == 0,
            old(self).st == LexerState::Normal ==> r == Ok::<Option<Token>, Error>(normal_step(c)),
            (old(self).st == LexerState::Normal && normal_step(c) is Some) ==> final(self).st
                == LexerState::Normal && final(self).char_queue == old(self).char_queue,
    {
        match self.st {
            LexerState::Normal => self.normal(c),
            LexerState::TagStarted => self.tag_opened(c),
            LexerState::EmptyTagClosing => self.empty_element_closing(c),
            LexerState::CommentOrCDataOrDoctypeStarted => self.comment_or_cdata_or_doctype_started(
                c,
            ),
            LexerState::InsideCdata => self.inside_cdata(c),
            LexerState::CDataStarted(s) => self.cdata_started(c, s),
            LexerState::InsideComment => self.inside_comment_state(c),
            LexerState::CommentStarted => self.comment_started(c),
            LexerState::InsideProcessingInstruction => self.inside_processing_instruction(c),
            LexerState::ProcessingInstructionClosing => self.processing_instruction_closing(c),
            LexerState::CommentClosing(s) => self.comment_closing(c, s),
            LexerState::CDataClosing(s) => self.cdata_closing(c, s),
            LexerState::InsideDoctype => self.inside_doctype(c),
            LexerState::DoctypeStarted(s) => self.doctype_started(c, s),
            LexerState::InvalidCDataClosing(s) => self.invalid_cdata_closing(c, s),
            LexerState::InsideMarkupDeclaration => self.markup_declaration(c),
            LexerState::InsideMarkupDeclarationQuotedString(q) => self.markup_declaration_string(
                c,
                q,
            ),
        }
    }

    fn normal(&mut self, c: char) -> (r: LexResult)
        requires
            old(self).st == LexerState::Normal,
        ensures
            old(self).steps_as(c, *final(self), r),
            r is Err ==> lexer_error_msg(r->Err_0@.msg),
            r is Ok ==> held(old(self).st) + seq![c] + old(self).char_queue@ == emitted(r) + held(
                final(self).st,
            ) + final(self).char_queue@,
            final(self).char_queue == old(self).char_queue,
            final(self).normal_state == old(self).normal_state,
            final(self).reparse_depth == old(self).reparse_depth,
            final(self).max_entity_expansion_depth == old(self).max_entity_expansion_depth,
            final(self).pos == old(self).pos,
            final(self).head_pos == old(self).head_pos,
            final(self).eof_handled == old(self).eof_handled,
            r == Ok::<Option<Token>, Error>(normal_step(c)),
            r->Ok_0 is None ==> pending(final(self).st) == 1,
            r->Ok_0 is Some ==> final(self).st == LexerState::Normal,
    {
        proof {
            reveal(lex_step);
        }
        match c {
            '<' => self.move_to(LexerState::TagStarted),
            '>' => Ok(Some(Token::TagEnd)),
            '/' => self.move_to(LexerState::EmptyTagClosing),
            '=' => Ok(Some(Token::EqualsSign)),
            '"' => Ok(Some(Token::DoubleQuote)),
            '\'' => Ok(Some(Token::SingleQuote)),
            ']' => self.move_to(LexerState::InvalidCDataClosing(ClosingSubstate::First)),
            '&' => Ok(Some(Token::ReferenceStart)),
            ';' => Ok(Some(Token::ReferenceEnd)),
            _ => Ok(Some(Token::Character(c))),
        }
    }

    fn inside_cdata(&mut self, c: char) -> (r: LexResult)
        requires
            old(self).st == LexerState::InsideCdata,
        ensures
            old(self).steps_as(c, *final(self), r),
            r is Err ==> lexer_error_msg(r->Err_0@.msg),
            r is Ok ==> held(old(self).st) + seq![c] + old(self).char_queue@ == emitted(r) + held(
                final(self).st,
            ) + final(self).char_queue@,
            final(self).char_queue == old(self).char_queue,
            final(self).normal_state == old(self).normal_state,
            final(self).reparse_depth == old(self).reparse_depth,
            final(self).max_entity_expansion_depth == old(self).max_entity_expansion_depth,
            final(self).pos == old(self).pos,
            final(self).head_pos == old(self).head_pos,
            final(self).eof_handled == old(self).eof_handled,
            r is Ok,
            r->Ok_0 is None ==> pending(final(self).st) == 1,
            r->Ok_0 is Some ==> final(self).st == LexerState::InsideCdata,
    {
        proof {
            reveal(lex_step);
        }
        match c {
            ']' => self.move_to(LexerState::CDataClosing(ClosingSubstate::First)),
            _ => Ok(Some(Token::Character(c))),
        }
    }

    fn inside_processing_instruction(&mut self, c: char) -> (r: LexResult)
        requires
            old(self).st == LexerState::InsideProcessingInstruction,
        ensures
            old(self).steps_as(c, *final(self), r),
            r is Err ==> lexer_error_msg(r->Err_0@.msg),
            r is Ok ==> held(old(self).st) + seq![c] + old(self).char_queue@ == emitted(r) + held(
                final(self).st,
            ) + final(self).char_queue@,
            final(self).char_queue == old(self).char_queue,
            final(self).normal_state == old(self).normal_state,
            final(self).reparse_depth == old(self).reparse_depth,
            final(self).max_entity_expansion_depth == old(self).max_entity_expansion_depth,
            final(self).pos == old(self).pos,
            final(self).head_pos == old(self).head_pos,
            final(self).eof_handled == old(self).eof_handled,
            r is Ok,
            r->Ok_0 is None ==> pending(final(self).st) == 1,
            r->Ok_0 is Some ==> final(self).st == LexerState::InsideProcessingInstruction,
    {
        proof {
            reveal(lex_step);
        }
        match c {
            '?' => self.move_to(LexerState::ProcessingInstructionClosing),
            '<' => Ok(Some(Token::OpeningTagStart)),
            '>' => Ok(Some(Token::TagEnd)),
            '=' => Ok(Some(Token::EqualsSign)),
            '"' => Ok(Some(Token::DoubleQuote)),
            '\'' => Ok(Some(Token::SingleQuote)),
            '&' => Ok(Some(Token::ReferenceStart)),
            ';' => Ok(Some(Token::ReferenceEnd)),
            _ => Ok(Some(Token::Character(c))),
        }
    }

    fn inside_comment_state(&mut self, c: char) -> (r: LexResult)
        requires
            old(self).st == LexerState::InsideComment,
        ensures
            old(self).steps_as(c, *final(self), r),
            r is Err ==> lexer_error_msg(r->Err_0@.msg),
            r is Ok ==> held(old(self).st) + seq![c] + old(self).char_queue@ == emitted(r) + held(
                final(self).st,
            ) + final(self).char_queue@,
            final(self).char_queue == old(self).char_queue,
            final(self).normal_state == old(self).normal_state,
            final(self).reparse_depth == old(self).reparse_depth,
            final(self).max_entity_expansion_depth == old(self).max_entity_expansion_depth,
            final(self).pos == old(self).pos,
            final(self).head_pos == old(self).head_pos,
            final(self).eof_handled == old(self).eof_handled,
            r is Ok,
            r->Ok_0 is None ==> pending(final(self).st) == 1,
            r->Ok_0 is Some ==> final(self).st == LexerState::InsideComment,
    {
        proof {
            reveal(lex_step);
        }
        match c {
            '-' => self.move_to(LexerState::CommentClosing(ClosingSubstate::First)),
            _ => Ok(Some(Token::Character(c))),
        }
    }

    /// After `<`.
    fn tag_opened(&mut self, c: char) -> (r: LexResult)
        requires
            old(self).st == LexerState::TagStarted,
            old(self).normal_state == LexerState::Normal || old(self).normal_state
                == LexerState::InsideDoctype,
        ensures
            old(self).steps_as(c, *final(self), r),
            r is Err ==> lexer_error_msg(r->Err_0@.msg),
            r is Ok ==> held(old(self).st) + seq![c] + old(self).char_queue@ == emitted(r) + held(
                final(self).st,
            ) + final(self).char_queue@,
            final(self).normal_state == old(self).normal_state,
            final(self).reparse_depth == old(self).reparse_depth,
            final(self).max_entity_expansion_depth == old(self).max_entity_expansion_depth,
            final(self).pos == old(self).pos,
            final(self).head_pos == old(self).head_pos,
            final(self).eof_handled == old(self).eof_handled,
            r is Ok && r->Ok_0 is None ==> pending(final(self).st) == 2
                && final(self).char_queue == old(self).char_queue,
            r is Ok && r->Ok_0 is Some ==> pending(final(self).st) == 0
                && final(self).char_queue@.len() <= old(self).char_queue@.len() + 1,
            r is Err ==> pending(final(self).st) == 0,
    {
        proof {
            reveal(lex_step);
        }
        if c == '?' {
            self.move_to_with(LexerState::InsideProcessingInstruction, Token::ProcessingInstructionStart)
        } else if c == '/' {
            let n = self.normal_state;
            self.move_to_with(n, Token::ClosingTagStart)
        } else if c == '!' {
            self.move_to(LexerState::CommentOrCDataOrDoctypeStarted)
        } else if is_whitespace_char(c) || is_name_char(c) {
            let n = self.normal_state;
            self.move_to_with_unread(n, c, Token::OpeningTagStart)
        } else {
            self.handle_error("<", c)
        }
    }

    /// After `/`.
    fn empty_element_closing(&mut self, c: char) -> (r: LexResult)
        requires
            old(self).st == LexerState::EmptyTagClosing,
            old(self).normal_state == LexerState::Normal || old(self).normal_state
                == LexerState::InsideDoctype,
        ensures
            old(self).steps_as(c, *final(self), r),
            r is Err ==> lexer_error_msg(r->Err_0@.msg),
            r is Ok ==> held(old(self).st) + seq![c] + old(self).char_queue@ == emitted(r) + held(
                final(self).st,
            ) + final(self).char_queue@,
            final(self).normal_state == old(self).normal_state,
            final(self).reparse_depth == old(self).reparse_depth,
            final(self).max_entity_expansion_depth == old(self).max_entity_expansion_depth,
            final(self).pos == old(self).pos,
            final(self).head_pos == old(self).head_pos,
            final(self).eof_handled == old(self).eof_handled,
            r is Ok && r->Ok_0 is Some,
            pending(final(self).st) == 0,
            final(self).char_queue@.len() <= old(self).char_queue@.len() + 1,
    {
        proof {
            reveal(lex_step);
        }
        let n = self.normal_state;
        if c == '>' {
            self.move_to_with(n, Token::EmptyTagEnd)
        } else {
            self.move_to_with_unread(n, c, Token::Character('/'))
        }
    }

    /// After `<!`.
    fn comment_or_cdata_or_doctype_started(&mut self, c: char) -> (r: LexResult)
        requires
            old(self).st == LexerState::CommentOrCDataOrDoctypeStarted,
            old(self).normal_state == LexerState::Normal || old(self).normal_state
                == LexerState::InsideDoctype,
        ensures
            old(self).steps_as(c, *final(self), r),
            r is Err ==> lexer_error_msg(r->Err_0@.msg),
            r is Ok ==> held(old(self).st) + seq![c] + old(self).char_queue@ == emitted(r) + held(
                final(self).st,
            ) + final(self).char_queue@,
            final(self).normal_state == old(self).normal_state,
            final(self).reparse_depth == old(self).reparse_depth,
            final(self).max_entity_expansion_depth == old(self).max_entity_expansion_depth,
            final(self).pos == old(self).pos,
            final(self).head_pos == old(self).head_pos,
            final(self).eof_handled == old(self).eof_handled,
            r is Ok && r->Ok_0 is None ==> pending(final(self).st) == 3
                && final(self).char_queue == old(self).char_queue,
            r is Ok && r->Ok_0 is Some ==> pending(final(self).st) == 0
                && final(self).char_queue@.len() == old(self).char_queue@.len() + 1,
            r is Err ==> pending(final(self).st) == 0,
    {
        proof {
            reveal(lex_step);
        }
        if c == '-' {
            self.move_to(LexerState::CommentStarted)
        } else if c == '[' {
            self.move_to(LexerState::CDataStarted(CDataStartedSubstate::E))
        } else if c == 'D' {
            self.move_to(LexerState::DoctypeStarted(DoctypeStartedSubstate::D))
        } else if (c == 'E' || c == 'A' || c == 'N') && self.normal_state
            == LexerState::InsideDoctype {
            self.move_to_with_unread(
                LexerState::InsideMarkupDeclaration,
                c,
                Token::MarkupDeclarationStart,
            )
        } else {
            self.handle_error("<!", c)
        }
    }

    /// After `<!-`.
    fn comment_started(&mut self, c: char) -> (r: LexResult)
        requires
            old(self).st == LexerState::CommentStarted,
            old(self).normal_state == LexerState::Normal || old(self).normal_state
                == LexerState::InsideDoctype,
        ensures
            old(self).steps_as(c, *final(self), r),
            r is Err ==> lexer_error_msg(r->Err_0@.msg),
            r is Ok ==> held(old(self).st) + seq![c] + old(self).char_queue@ == emitted(r) + held(
                final(self).st,
            ) + final(self).char_queue@,
            final(self).normal_state == old(self).normal_state,
            final(self).char_queue == old(self).char_queue,
            final(self).reparse_depth == old(self).reparse_depth,
            final(self).max_entity_expansion_depth == old(self).max_entity_expansion_depth,
            final(self).pos == old(self).pos,
            final(self).head_pos == old(self).head_pos,
            final(self).eof_handled == old(self).eof_handled,
            pending(final(self).st) == 0,
            r is Ok ==> r->Ok_0 is Some,
    {
        proof {
            reveal(lex_step);
        }
        if c == '-' {
            self.move_to_with(LexerState::InsideComment, Token::CommentStart)
        } else {
            self.handle_error("<!-", c)
        }
    }

    /// After `<![` and more of `CDATA[`.
    fn cdata_started(&mut self, c: char, s: CDataStartedSubstate) -> (r: LexResult)
        requires
            old(self).st == LexerState::CDataStarted(s),
            old(self).normal_state == LexerState::Normal || old(self).normal_state
                == LexerState::InsideDoctype,
        ensures
            old(self).steps_as(c, *final(self), r),
            r is Err ==> lexer_error_msg(r->Err_0@.msg),
            r is Ok ==> held(old(self).st) + seq![c] + old(self).char_queue@ == emitted(r) + held(
                final(self).st,
            ) + final(self).char_queue@,
            final(self).normal_state == old(self).normal_state,
            final(self).char_queue == old(self).char_queue,
            final(self).reparse_depth == old(self).reparse_depth,
            final(self).max_entity_expansion_depth == old(self).max_entity_expansion_depth,
            final(self).pos == old(self).pos,
            final(self).head_pos == old(self).head_pos,
            final(self).eof_handled == old(self).eof_handled,
            r is Ok && r->Ok_0 is None ==> pending(final(self).st) == pending(old(self).st) + 1,
            r is Ok && r->Ok_0 is Some ==> pending(final(self).st) == 0,
            r is Err ==> pending(final(self).st) == 0,
    {
        proof {
            reveal(lex_step);
        }
        match s {
            CDataStartedSubstate::E => if c == 'C' {
                self.move_to(LexerState::CDataStarted(CDataStartedSubstate::C))
            } else {
                self.handle_error("<![", c)
            },
            CDataStartedSubstate::C => if c == 'D' {
                self.move_to(LexerState::CDataStarted(CDataStartedSubstate::CD))
            } else {
                self.handle_error("<![C", c)
            },
            CDataStartedSubstate::CD => if c == 'A' {
                self.move_to(LexerState::CDataStarted(CDataStartedSubstate::CDA))
            } else {
                self.handle_error("<![CD", c)
            },
            CDataStartedSubstate::CDA => if c == 'T' {
                self.move_to(LexerState::CDataStarted(CDataStartedSubstate::CDAT))
            } else {
                self.handle_error("<![CDA", c)
            },
            CDataStartedSubstate::CDAT => if c == 'A' {
                self.move_to(LexerState::CDataStarted(CDataStartedSubstate::CDATA))
            } else {
                self.handle_error("<![CDAT", c)
            },
            CDataStartedSubstate::CDATA => if c == '[' {
                self.move_to_with(LexerState::InsideCdata, Token::CDataStart)
            } else {
                self.handle_error("<![CDATA", c)
            },
        }
    }

    /// After `<!D` and more of `DOCTYPE`.
    fn doctype_started(&mut self, c: char, s: DoctypeStartedSubstate) -> (r: LexResult)
        requires
            old(self).st == LexerState::DoctypeStarted(s),
            old(self).normal_state == LexerState::Normal || old(self).normal_state
                == LexerState::InsideDoctype,
        ensures
            old(self).steps_as(c, *final(self), r),
            r is Err ==> lexer_error_msg(r->Err_0@.msg),
            r is Ok ==> held(old(self).st) + seq![c] + old(self).char_queue@ == emitted(r) + held(
                final(self).st,
            ) + final(self).char_queue@,
            final(self).normal_state == LexerState::Normal || final(self).normal_state
                == LexerState::InsideDoctype,
            final(self).char_queue == old(self).char_queue,
            final(self).reparse_depth == old(self).reparse_depth,
            final(self).max_entity_expansion_depth == old(self).max_entity_expansion_depth,
            final(self).pos == old(self).pos,
            final(self).head_pos == old(self).head_pos,
            final(self).eof_handled == old(self).eof_handled,
            r is Ok && r->Ok_0 is None ==> pending(final(self).st) == pending(old(self).st) + 1,
            r is Ok && r->Ok_0 is Some ==> pending(final(self).st) == 0,
            r is Err ==> pending(final(self).st) == 0,
    {
        proof {
            reveal(lex_step);
        }
        match s {
            DoctypeStartedSubstate::D => if c == 'O' {
                self.move_to(LexerState::DoctypeStarted(DoctypeStartedSubstate::DO))
            } else {
                self.handle_error("<!D", c)
            },
            DoctypeStartedSubstate::DO => if c == 'C' {
                self.move_to(LexerState::DoctypeStarted(DoctypeStartedSubstate::DOC))
            } else {
                self.handle_error("<!DO", c)
            },
            DoctypeStartedSubstate::DOC => if c == 'T' {
                self.move_to(LexerState::DoctypeStarted(DoctypeStartedSubstate::DOCT))
            } else {
                self.handle_error("<!DOC", c)
            },
            DoctypeStartedSubstate::DOCT => if c == 'Y' {
                self.move_to(LexerState::DoctypeStarted(DoctypeStartedSubstate::DOCTY))
            } else {
                self.handle_error("<!DOCT", c)
            },
            DoctypeStartedSubstate::DOCTY => if c == 'P' {
                self.move_to(LexerState::DoctypeStarted(DoctypeStartedSubstate::DOCTYP))
            } else {
                self.handle_error("<!DOCTY", c)
            },
            DoctypeStartedSubstate::DOCTYP => if c == 'E' {
                self.move_to_and_reset_normal(LexerState::InsideDoctype, Token::DoctypeStart)
            } else {
                self.handle_error("<!DOCTYP", c)
            },
        }
    }

    /// After `?` inside a processing instruction.
    fn processing_instruction_closing(&mut self, c: char) -> (r: LexResult)
        requires
            old(self).st == LexerState::ProcessingInstructionClosing,
            old(self).normal_state == LexerState::Normal || old(self).normal_state
                == LexerState::InsideDoctype,
        ensures
            old(self).steps_as(c, *final(self), r),
            r is Err ==> lexer_error_msg(r->Err_0@.msg),
            r is Ok ==> held(old(self).st) + seq![c] + old(self).char_queue@ == emitted(r) + held(
                final(self).st,
            ) + final(self).char_queue@,
            final(self).normal_state == old(self).normal_state,
            final(self).reparse_depth == old(self).reparse_depth,
            final(self).max_entity_expansion_depth == old(self).max_entity_expansion_depth,
            final(self).pos == old(self).pos,
            final(self).head_pos == old(self).head_pos,
            final(self).eof_handled == old(self).eof_handled,
            r is Ok && r->Ok_0 is Some,
            pending(final(self).st) == 0,
            final(self).char_queue@.len() <= old(self).char_queue@.len() + 1,
    {
        proof {
            reveal(lex_step);
        }
        if c == '>' {
            let n = self.normal_state;
            self.move_to_with(n, Token::ProcessingInstructionEnd)
        } else {
            self.move_to_with_unread(LexerState::InsideProcessingInstruction, c, Token::Character('?'))
        }
    }

    /// After `-` or `--` inside a comment.
    fn comment_closing(&mut self, c: char, s: ClosingSubstate) -> (r: LexResult)
        requires
            old(self).st == LexerState::CommentClosing(s),
            old(self).normal_state == LexerState::Normal || old(self).normal_state
                == LexerState::InsideDoctype,
        ensures
            old(self).steps_as(c, *final(self), r),
            r is Err ==> lexer_error_msg(r->Err_0@.msg),
            r is Ok ==> held(old(self).st) + seq![c] + old(self).char_queue@ == emitted(r) + held(
                final(self).st,
            ) + final(self).char_queue@,
            final(self).normal_state == old(self).normal_state,
            final(self).reparse_depth == old(self).reparse_depth,
            final(self).max_entity_expansion_depth == old(self).max_entity_expansion_depth,
            final(self).pos == old(self).pos,
            final(self).head_pos == old(self).head_pos,
            final(self).eof_handled == old(self).eof_handled,
            r is Ok && r->Ok_0 is None ==> pending(final(self).st) == 2 && s
                == ClosingSubstate::First && final(self).char_queue == old(self).char_queue,
            r is Ok && r->Ok_0 is Some ==> pending(final(self).st) == 0
                && final(self).char_queue@.len() <= old(self).char_queue@.len() + 1,
            r is Err ==> pending(final(self).st) == 0,
    {
        proof {
            reveal(lex_step);
        }
        match s {
            ClosingSubstate::First => if c == '-' {
                self.move_to(LexerState::CommentClosing(ClosingSubstate::Second))
            } else {
                self.move_to_with_unread(LexerState::InsideComment, c, Token::Character('-'))
            },
            ClosingSubstate::Second => if c == '>' {
                let n = self.normal_state;
                self.move_to_with(n, Token::CommentEnd)
            } else {
                self.handle_error("--", c)
            },
        }
    }

    /// After `]` or `]]` inside CDATA.
    fn cdata_closing(&mut self, c: char, s: ClosingSubstate) -> (r: LexResult)
        requires
            old(self).st == LexerState::CDataClosing(s),
        ensures
            old(self).steps_as(c, *final(self), r),
            r is Err ==> lexer_error_msg(r->Err_0@.msg),
            r is Ok ==> held(old(self).st) + seq![c] + old(self).char_queue@ == emitted(r) + held(
                final(self).st,
            ) + final(self).char_queue@,
            final(self).normal_state == old(self).normal_state,
            final(self).reparse_depth == old(self).reparse_depth,
            final(self).max_entity_expansion_depth == old(self).max_entity_expansion_depth,
            final(self).pos == old(self).pos,
            final(self).head_pos == old(self).head_pos,
            final(self).eof_handled == old(self).eof_handled,
            r is Ok,
            r->Ok_0 is None ==> pending(final(self).st) == 2 && s == ClosingSubstate::First
                && final(self).char_queue == old(self).char_queue,
            r->Ok_0 is Some ==> pending(final(self).st) == 0 && final(self).char_queue@.len()
                <= old(self).char_queue@.len() + pending(old(self).st),
    {
        proof {
            reveal(lex_step);
        }
        match s {
            ClosingSubstate::First => if c == ']' {
                self.move_to(LexerState::CDataClosing(ClosingSubstate::Second))
            } else {
                self.move_to_with_unread(LexerState::InsideCdata, c, Token::Character(']'))
            },
            ClosingSubstate::Second => if c == '>' {
                self.move_to_with(LexerState::Normal, Token::CDataEnd)
            } else {
                self.move_to_with_unread2(LexerState::InsideCdata, ']', c, Token::Character(']'))
            },
        }
    }

    /// After `]` or `]]` outside CDATA.
    fn invalid_cdata_closing(&mut self, c: char, s: ClosingSubstate) -> (r: LexResult)
        requires
            old(self).st == LexerState::InvalidCDataClosing(s),
            old(self).normal_state == LexerState::Normal || old(self).normal_state
                == LexerState::InsideDoctype,
        ensures
            old(self).steps_as(c, *final(self), r),
            r is Err ==> lexer_error_msg(r->Err_0@.msg),
            r is Ok ==> held(old(self).st) + seq![c] + old(self).char_queue@ == emitted(r) + held(
                final(self).st,
            ) + final(self).char_queue@,
            final(self).normal_state == old(self).normal_state,
            final(self).reparse_depth == old(self).reparse_depth,
            final(self).max_entity_expansion_depth == old(self).max_entity_expansion_depth,
            final(self).pos == old(self).pos,
            final(self).head_pos == old(self).head_pos,
            final(self).eof_handled == old(self).eof_handled,
            r is Ok,
            r->Ok_0 is None ==> pending(final(self).st) == 2 && s == ClosingSubstate::First
                && final(self).char_queue == old(self).char_queue,
            r->Ok_0 is Some ==> pending(final(self).st) == 0 && final(self).char_queue@.len()
                <= old(self).char_queue@.len() + pending(old(self).st),
    {
        proof {
            reveal(lex_step);
        }
        match s {
            ClosingSubstate::First => if c == ']' {
                self.move_to(LexerState::InvalidCDataClosing(ClosingSubstate::Second))
            } else {
                self.move_to_with_unread(LexerState::Normal, c, Token::Character(']'))
            },
            ClosingSubstate::Second => if c == '>' {
                let n = self.normal_state;
                self.move_to_with(n, Token::CDataEnd)
            } else {
                self.move_to_with_unread2(LexerState::Normal, ']', c, Token::Character(']'))
            },
        }
    }

    /// Inside a document type declaration.
    fn inside_doctype(&mut self, c: char) -> (r: LexResult)
        requires
            old(self).st == LexerState::InsideDoctype,
        ensures
            old(self).steps_as(c, *final(self), r),
            r is Err ==> lexer_error_msg(r->Err_0@.msg),
            r is Ok ==> held(old(self).st) + seq![c] + old(self).char_queue@ == emitted(r) + held(
                final(self).st,
            ) + final(self).char_queue@,
            final(self).normal_state == LexerState::Normal || final(self).normal_state
                == old(self).normal_state,
            final(self).char_queue == old(self).char_queue,
            final(self).reparse_depth == old(self).reparse_depth,
            final(self).max_entity_expansion_depth == old(self).max_entity_expansion_depth,
            final(self).pos == old(self).pos,
            final(self).head_pos == old(self).head_pos,
            final(self).eof_handled == old(self).eof_handled,
            r is Ok,
            r->Ok_0 is None ==> pending(final(self).st) == 1,
            r->Ok_0 is Some ==> pending(final(self).st) == 0,
    {
        proof {
            reveal(lex_step);
        }
        match c {
            '>' => self.move_to_and_reset_normal(LexerState::Normal, Token::TagEnd),
            '<' => self.move_to(LexerState::TagStarted),
            '&' => Ok(Some(Token::ReferenceStart)),
            ';' => Ok(Some(Token::ReferenceEnd)),
            '"' => Ok(Some(Token::DoubleQuote)),
            '\'' => Ok(Some(Token::SingleQuote)),
            _ => Ok(Some(Token::Character(c))),
        }
    }

    /// Inside `<!ELEMENT ...>` and the like.
    fn markup_declaration(&mut self, c: char) -> (r: LexResult)
        requires
            old(self).st == LexerState::InsideMarkupDeclaration,
            old(self).normal_state == LexerState::Normal || old(self).normal_state
                == LexerState::InsideDoctype,
        ensures
            old(self).steps_as(c, *final(self), r),
            r is Err ==> lexer_error_msg(r->Err_0@.msg),
            r is Ok ==> held(old(self).st) + seq![c] + old(self).char_queue@ == emitted(r) + held(
                final(self).st,
            ) + final(self).char_queue@,
            final(self).normal_state == old(self).normal_state,
            final(self).char_queue == old(self).char_queue,
            final(self).reparse_depth == old(self).reparse_depth,
            final(self).max_entity_expansion_depth == old(self).max_entity_expansion_depth,
            final(self).pos == old(self).pos,
            final(self).head_pos == old(self).head_pos,
            final(self).eof_handled == old(self).eof_handled,
            c == '<' ==> r is Err && r->Err_0@ == (ErrorView {
                pos: old(self).spec_position(),
                msg: "Unexpected token '"@ + "<!"@ + "' before '"@ + seq![c] + "'"@,
            }) && final(self).st == old(self).normal_state,
            c != '<' ==> r == Ok::<Option<Token>, Error>(Some(markup_declaration_step(c))),
            final(self).st == if c == '<' || c == '>' {
                old(self).normal_state
            } else if c == '"' {
                LexerState::InsideMarkupDeclarationQuotedString(QuoteStyle::Double)
            } else if c == '\'' {
                LexerState::InsideMarkupDeclarationQuotedString(QuoteStyle::Single)
            } else {
                LexerState::InsideMarkupDeclaration
            },
            pending(final(self).st) == 0,
    {
        proof {
            reveal(lex_step);
        }
        match c {
            '<' => self.handle_error("<!", c),
            '>' => {
                let n = self.normal_state;
                self.move_to_with(n, Token::TagEnd)
            },
            '&' => Ok(Some(Token::ReferenceStart)),
            ';' => Ok(Some(Token::ReferenceEnd)),
            '"' => self.move_to_with(
                LexerState::InsideMarkupDeclarationQuotedString(QuoteStyle::Double),
                Token::DoubleQuote,
            ),
            '\'' => self.move_to_with(
                LexerState::InsideMarkupDeclarationQuotedString(QuoteStyle::Single),
                Token::SingleQuote,
            ),
            _ => Ok(Some(Token::Character(c))),
        }
    }

    /// Inside a quoted string of a markup declaration.
    fn markup_declaration_string(&mut self, c: char, q: QuoteStyle) -> (r: LexResult)
        requires
            old(self).st == LexerState::InsideMarkupDeclarationQuotedString(q),
        ensures
            old(self).steps_as(c, *final(self), r),
            r is Err ==> lexer_error_msg(r->Err_0@.msg),
            r is Ok ==> held(old(self).st) + seq![c] + old(self).char_queue@ == emitted(r) + held(
                final(self).st,
            ) + final(self).char_queue@,
            final(self).normal_state == old(self).normal_state,
            final(self).char_queue == old(self).char_queue,
            final(self).reparse_depth == old(self).reparse_depth,
            final(self).max_entity_expansion_depth == old(self).max_entity_expansion_depth,
            final(self).pos == old(self).pos,
            final(self).head_pos == old(self).head_pos,
            final(self).eof_handled == old(self).eof_handled,
            r is Ok && r->Ok_0 is Some,
            pending(final(self).st) == 0,
    {
        proof {
            reveal(lex_step);
        }
        if c == '"' && q == QuoteStyle::Double {
            self.move_to_with(LexerState::InsideMarkupDeclaration, Token::DoubleQuote)
        } else if c == '\'' && q == QuoteStyle::Single {
            self.move_to_with(LexerState::InsideMarkupDeclaration, Token::SingleQuote)
        } else {
            Ok(Some(Token::Character(c)))
        }
    }

    /// What the end of the text means in the current state: nothing, a token
    /// for the characters held, or an error.
    fn end_of_stream(&mut self) -> (r: LexResult)
        requires
            old(self).normal_state == LexerState::Normal || old(self).normal_state
                == LexerState::InsideDoctype,
            old(self).reparse_depth <= old(self).max_entity_expansion_depth,
            !old(self).eof_handled,
        ensures
            *final(self) == (Lexer {
                st: end_step(old(self).st, old(self).normal_state).st,
                normal_state: end_step(old(self).st, old(self).normal_state).normal,
                char_queue: final(self).char_queue,
                pos: old(self).head_pos,
                eof_handled: old(self).st != LexerState::InvalidCDataClosing(
                    ClosingSubstate::Second,
                ),
                ..*old(self)
            }),
            final(self).char_queue@ =~= end_step(old(self).st, old(self).normal_state).unread
                + old(self).char_queue@,
            lex_view(r) == placed(
                end_step(old(self).st, old(self).normal_state).res,
                old(self).head_pos,
            ),
            r is Err ==> lexer_error_msg(r->Err_0@.msg),
            final(self).normal_state == LexerState::Normal || final(self).normal_state
                == LexerState::InsideDoctype,
            final(self).reparse_depth == old(self).reparse_depth,
            final(self).max_entity_expansion_depth == old(self).max_entity_expansion_depth,
            pending(final(self).st) == 0,
            r is Ok && r->Ok_0 is Some ==> pending(old(self).st) > 0
                && final(self).char_queue@.len() < old(self).char_queue@.len() + pending(old(self).st),
            r is Ok && r->Ok_0 is None ==> final(self).char_queue == old(self).char_queue,
            old(self).st == LexerState::Normal ==> r == Ok::<Option<Token>, Error>(None)
                && final(self).st == LexerState::Normal,
            r == Ok::<Option<Token>, Error>(None) ==> old(self).st == LexerState::Normal,
            r is Ok ==> held(old(self).st) + old(self).char_queue@ == emitted(r) + held(
                final(self).st,
            ) + final(self).char_queue@,
    {
        self.eof_handled = true;
        self.pos = self.head_pos;
        match self.st {
            LexerState::InsideCdata | LexerState::CDataClosing(_) => {
                self.st = self.normal_state;
                Err(self.error(text("Unclosed CDATA")))
            },
            LexerState::TagStarted
            | LexerState::CommentOrCDataOrDoctypeStarted
            | LexerState::CommentStarted
            | LexerState::CDataStarted(_)
            | LexerState::DoctypeStarted(_)
            | LexerState::CommentClosing(ClosingSubstate::Second)
            | LexerState::InsideComment
            | LexerState::InsideMarkupDeclaration
            | LexerState::InsideProcessingInstruction
            | LexerState::ProcessingInstructionClosing
            | LexerState::InsideDoctype
            | LexerState::InsideMarkupDeclarationQuotedString(_) => {
                self.st = self.normal_state;
                Err(self.error(text("Unexpected end of stream")))
            },
            LexerState::EmptyTagClosing => {
                let n = self.normal_state;
                self.move_to_with(n, Token::Character('/'))
            },
            LexerState::CommentClosing(ClosingSubstate::First) => {
                self.move_to_with(LexerState::InsideComment, Token::Character('-'))
            },
            LexerState::InvalidCDataClosing(ClosingSubstate::First) => {
                let n = self.normal_state;
                self.move_to_with(n, Token::Character(']'))
            },
            LexerState::InvalidCDataClosing(ClosingSubstate::Second) => {
                self.eof_handled = false;
                self.move_to_with_unread(LexerState::Normal, ']', Token::Character(']'))
            },
            LexerState::Normal => Ok(None),
        }
    }

    /// The next token of the text that `b` reads: `Ok(None)` at its end.
    /// A token always leaves less input to read.
    #[verifier::rlimit(80)]
    pub(crate) fn next_token(&mut self, b: &mut CharReader) -> (r: LexResult)
        requires
            old(self).wf(),
            old(b).wf(),
        ensures
            // the token, error or end that the text gives, as `lex_run` says
            old(self).lexes(old(b).remaining(), *final(self), final(b).remaining(), lex_view(r)),
            r is Err ==> lexer_error_msg(r->Err_0@.msg),
            final(self).wf(),
            final(b).wf(),
            r is Ok && r->Ok_0 is Some ==> lex_lt(
                final(self).measure(final(b)),
                old(self).measure(old(b)),
            ),
            // at the end of the text, with nothing held back, nothing more
            (old(self).idle() && old(b).remaining().len() == 0) ==> r == Ok::<
                Option<Token>,
                Error,
            >(None) && final(self).idle() && final(b).remaining().len() == 0,
            // a token is the text it stands for, taken from the front of
            // what is left; no token takes nothing
            r is Ok ==> old(self).stream(old(b)) == emitted(r) + final(self).stream(final(b)),
            // nothing comes only at the end of the text, or once the end has
            // been reported
            r == Ok::<Option<Token>, Error>(None) ==> old(self).eof_reported() || old(self).stream(old(b)).len() == 0,
            // in text, a character that stands for itself or a one-character
            // token is that token
            (!old(self).eof_reported() && old(self).idle() && old(b).remaining().len() > 0
                && normal_step(old(b).remaining()[0]) is Some) ==> {
                &&& r == Ok::<Option<Token>, Error>(normal_step(old(b).remaining()[0]))
                &&& final(self).idle()
                &&& !final(self).eof_reported()
                &&& final(b).remaining() == old(b).remaining().drop_first()
            },
    {
        if self.eof_handled {
            return Ok(None);
        }
        if !self.inside_token {
            self.pos = self.head_pos;
            self.inside_token = true;
        }
        let ghost init = *self;
        let ghost o0 = lex_run(
            self.st,
            self.normal_state,
            self.char_queue@,
            b.remaining(),
            self.head_pos,
            self.reparse_depth,
        );
        let ghost q0 = self.char_queue@.len();
        let ghost popped: nat = 0;
        let ghost plain = old(self).idle() && old(b).remaining().len() > 0 && normal_step(
            old(b).remaining()[0],
        ) is Some;
        while self.char_queue.len() > 0
            invariant
                lex_run(
                    self.st,
                    self.normal_state,
                    self.char_queue@,
                    b.remaining(),
                    self.head_pos,
                    self.reparse_depth,
                ) == o0,
                *self == (Lexer {
                    st: self.st,
                    normal_state: self.normal_state,
                    char_queue: self.char_queue,
                    head_pos: self.head_pos,
                    reparse_depth: self.reparse_depth,
                    ..init
                }),
                init.pos == (if old(self).inside_token {
                    old(self).pos
                } else {
                    old(self).head_pos
                }),
                init == (Lexer { pos: init.pos, inside_token: true, ..*old(self) }),
                o0 == lex_run(
                    old(self).st,
                    old(self).normal_state,
                    old(self).char_queue@,
                    old(b).remaining(),
                    old(self).head_pos,
                    old(self).reparse_depth,
                ),
                self.normal_state == LexerState::Normal || self.normal_state
                    == LexerState::InsideDoctype,
                self.reparse_depth <= self.max_entity_expansion_depth,
                self.reparse_depth == old(self).reparse_depth,
                b.wf(),
                b.remaining() == old(b).remaining(),
                pending(self.st) <= popped,
                self.char_queue@.len() + popped == q0,
                q0 == old(self).char_queue@.len(),
                pending(old(self).st) == 0,
                !self.eof_handled,
                old(self).idle() ==> self.st == LexerState::Normal && self.char_queue@.len()
                    == 0,
                self.stream(b) == old(self).stream(old(b)),
            decreases self.char_queue@.len(),
        {
            let ghost before = *self;
            let c = self.char_queue.pop_front().unwrap();
            proof {
                popped = popped + 1;
                assert(before.char_queue@ =~= seq![c] + self.char_queue@);
            }
            let ghost mid = *self;
            let r = self.dispatch_char(c);
            proof {
                if r is Ok {
                    assert(before.stream(b) =~= held(mid.st) + seq![c] + mid.char_queue@
                        + b.remaining());
                    assert(emitted(r) + self.stream(b) =~= emitted(r) + held(self.st)
                        + self.char_queue@ + b.remaining());
                }
            }
            proof {
                lemma_quiet_step_unread(mid.st, mid.normal_state, c);
                assert(mid.char_queue@ =~= before.char_queue@.drop_first());
            }
            match r {
                Ok(Some(t)) => {
                    self.inside_token = false;
                    return Ok(Some(t));
                },
                Ok(None) => {},
                Err(e) => {
                    return Err(e);
                },
            }
        }
        loop
            invariant
                lex_run(
                    self.st,
                    self.normal_state,
                    self.char_queue@,
                    b.remaining(),
                    self.head_pos,
                    self.reparse_depth,
                ) == o0,
                *self == (Lexer {
                    st: self.st,
                    normal_state: self.normal_state,
                    char_queue: self.char_queue,
                    head_pos: self.head_pos,
                    reparse_depth: self.reparse_depth,
                    ..init
                }),
                init.pos == (if old(self).inside_token {
                    old(self).pos
                } else {
                    old(self).head_pos
                }),
                init == (Lexer { pos: init.pos, inside_token: true, ..*old(self) }),
                o0 == lex_run(
                    old(self).st,
                    old(self).normal_state,
                    old(self).char_queue@,
                    old(b).remaining(),
                    old(self).head_pos,
                    old(self).reparse_depth,
                ),
                self.normal_state == LexerState::Normal || self.normal_state
                    == LexerState::InsideDoctype,
                self.reparse_depth <= self.max_entity_expansion_depth,
                b.wf(),
                self.char_queue@.len() == 0,
                b.remaining().len() < old(b).remaining().len() || (b.remaining() == old(b).remaining()
                    && self.reparse_depth == old(self).reparse_depth && pending(self.st) <= q0),
                q0 == old(self).char_queue@.len(),
                pending(old(self).st) == 0,
                !self.eof_handled,
                (old(self).idle() && old(b).remaining().len() == 0) ==> self.st
                    == LexerState::Normal && b.remaining().len() == 0,
                self.stream(b) == old(self).stream(old(b)),
                plain == (old(self).idle() && old(b).remaining().len() > 0 && normal_step(
                    old(b).remaining()[0],
                ) is Some),
                plain ==> self.st == LexerState::Normal && b.remaining() == old(b).remaining(),
            ensures
                lex_run(
                    self.st,
                    self.normal_state,
                    self.char_queue@,
                    b.remaining(),
                    self.head_pos,
                    self.reparse_depth,
                ) == o0,
                *self == (Lexer {
                    st: self.st,
                    normal_state: self.normal_state,
                    char_queue: self.char_queue,
                    head_pos: self.head_pos,
                    reparse_depth: self.reparse_depth,
                    ..init
                }),
                init.pos == (if old(self).inside_token {
                    old(self).pos
                } else {
                    old(self).head_pos
                }),
                init == (Lexer { pos: init.pos, inside_token: true, ..*old(self) }),
                o0 == lex_run(
                    old(self).st,
                    old(self).normal_state,
                    old(self).char_queue@,
                    old(b).remaining(),
                    old(self).head_pos,
                    old(self).reparse_depth,
                ),
                b.wf(),
                b.remaining().len() == 0,
                self.char_queue@.len() == 0,
                self.stream(b) == old(self).stream(old(b)),
                !self.eof_handled,
                !plain,
                self.normal_state == LexerState::Normal || self.normal_state
                    == LexerState::InsideDoctype,
                self.reparse_depth <= self.max_entity_expansion_depth,
            decreases b.remaining().len(),
        {
            let ghost before_b = *b;
            let c = match b.next_char() {
                Some(c) => c,
                None => {
                    break;
                },
            };
            proof {
                assert(before_b.remaining() =~= seq![c] + b.remaining());
            }
            let ghost before_l = *self;
            self.reparse_depth = 0;
            if c == '\n' {
                self.head_pos.new_line();
            } else {
                self.head_pos.advance(1);
            }
            let ghost mid = *self;
            let r = self.dispatch_char(c);
            proof {
                if r is Ok {
                    assert(mid.stream(&before_b) =~= held(mid.st) + seq![c] + mid.char_queue@
                        + b.remaining());
                    assert(emitted(r) + self.stream(b) =~= emitted(r) + held(self.st)
                        + self.char_queue@ + b.remaining());
                }
            }
            proof {
                lemma_quiet_step_unread(mid.st, mid.normal_state, c);
                assert(b.remaining() =~= before_b.remaining().drop_first());
                assert(mid.head_pos == after_char(before_l.head_pos, c));
            }
            match r {
                Ok(Some(t)) => {
                    self.inside_token = false;
                    return Ok(Some(t));
                },
                Ok(None) => {},
                Err(e) => {
                    return Err(e);
                },
            }
        }
        let ghost before = *self;
        let r = self.end_of_stream();
        proof {
            if r == Ok::<Option<Token>, Error>(None) {
                assert(before.stream(b) =~= Seq::<char>::empty());
            }
            if r is Ok {
                assert(before.stream(b) =~= held(before.st) + before.char_queue@ + b.remaining());
                assert(emitted(r) + self.stream(b) =~= emitted(r) + held(self.st)
                    + self.char_queue@ + b.remaining());
            }
        }
        r
    }
}

} // verus!
