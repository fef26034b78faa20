# xml

A pull parser for XML, verified with Verus.

The parser turns a document into a stream of events (`StartDocument`,
`StartElement`, `Characters`, `EndElement`, ...) one call at a time. Verus
proves that it never panics, that every call terminates, and the laws its
contracts state, among them:

- once parsing ends (an error or the end of the document), every later call
  gives the same result and changes nothing;
- element starts and ends nest, and an end names the element it closes;
- the start of the document is reported once, before anything it starts;
- the end of the document comes only with no element open;
- no element carries two attributes of the same name;
- the namespace bindings reported with an element are those in force;
- a qualified name, written and read back, is the same name;
- each token the lexer hands out is exactly the text it stands for, taken
  from the front of what is left to read.

The lexer is modelled character by character: for each of its states, what
one character does (the token it completes, the error it causes, the state
after it and the characters it gives back) and what the end of the text does.
Each call of the lexer is stated exactly against that model, from the
characters it has queued and the text still to read: the token or error it
gives, the state it leaves, the text left and the positions it records.

`next` states how its result comes about from the text still to read: the
tokens the lexer gives for that text, by its model, are handled in order,
each as the parser's state says, until one gives an event or an error, the
lexer reports an error, or the text ends; and it states what the end of the
text gives and how the positions of events move on. What each token gives in
each state of the parser is stated per kind of markup: its event or error
and, where it gives no error, the state that follows it, field by field, in
text, tags, attributes, namespace declarations, references, comments, CDATA,
processing instructions and the XML declaration; inside a document type
declaration, the parts of the state that the tokens there read, the rest
staying as it is.

## Layout

- `src/common.rs`: text positions, XML character classes, small helpers on
  character sequences.
- `src/name.rs`, `src/attribute.rs`: qualified names and attributes.
- `src/namespace.rs`: namespace bindings and the stack of them.
- `src/reader/config.rs`: the parser's options.
- `src/reader/events.rs`: events and errors.
- `src/reader/lexer.rs`: the tokens of XML markup and the lexer.
- `src/reader/parser.rs` and `src/reader/parser/`: the pull parser, one file
  per kind of markup.
- `tests/`: scenarios run against the compiled library.
- `app/`: reading documents from byte streams.
