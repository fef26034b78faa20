//! What a parser is asked to do with white space, comments, CDATA and
//! entities, and the limits it works within.

use vstd::prelude::*;
use vstd::std_specs::convert::FromSpecImpl;
use crate::namespace::{lookup, pairs_view, Bindings};
use crate::common::{chars_eq, copy_chars};

verus! {

/// The options of a parser.
#[derive(Clone, Debug, PartialEq, Eq)]
pub struct ParserConfig {
    /// Trim white space at the ends of character data, and drop character
    /// data that is white space only.
    pub trim_whitespace: bool,
    /// Report white space as `Characters` rather than `Whitespace`.
    pub whitespace_to_characters: bool,
    /// Report CDATA sections as character data.
    pub cdata_to_characters: bool,
    /// Drop comments.
    pub ignore_comments: bool,
    /// Join adjacent character data into one event.
    pub coalesce_characters: bool,
    /// Entities known besides the five predefined ones: name and value.
    pub extra_entities: Vec<(Vec<char>, Vec<char>)>,
    /// Report an end of stream inside the root element as an error that
    /// parsing can go on after, once more text is there.
    pub ignore_end_of_stream: bool,
    /// Replace character references to invalid characters by U+FFFD.
    pub replace_unknown_entity_references: bool,
    /// Drop white space outside the root element.
    pub ignore_root_level_whitespace: bool,
}

/// The default options: comments dropped, character data joined,
/// white space outside the root element dropped, nothing else.
pub open spec fn is_default_config(r: ParserConfig) -> bool {
    &&& !r.trim_whitespace
    &&& !r.whitespace_to_characters
    &&& !r.cdata_to_characters
    &&& r.ignore_comments
    &&& r.coalesce_characters
    &&& r.extra_entities@.len() == 0
    &&& !r.ignore_end_of_stream
    &&& !r.replace_unknown_entity_references
    &&& r.ignore_root_level_whitespace
}

impl ParserConfig {
    /// The default options.
    pub fn new() -> (r: ParserConfig)
        ensures
            is_default_config(r),
    {
        ParserConfig {
            trim_whitespace: false,
            whitespace_to_characters: false,
            cdata_to_characters: false,
            ignore_comments: true,
            coalesce_characters: true,
            extra_entities: Vec::new(),
            ignore_end_of_stream: false,
            replace_unknown_entity_references: false,
            ignore_root_level_whitespace: true,
        }
    }

    /// Sets `trim_whitespace`.
    pub fn trim_whitespace(self, value: bool) -> (r: ParserConfig)
        ensures
            r == (ParserConfig { trim_whitespace: value, ..self }),
    {
        ParserConfig { trim_whitespace: value, ..self }
    }

    /// Sets `whitespace_to_characters`.
    pub fn whitespace_to_characters(self, value: bool) -> (r: ParserConfig)
        ensures
            r == (ParserConfig { whitespace_to_characters: value, ..self }),
    {
        ParserConfig { whitespace_to_characters: value, ..self }
    }

    /// Sets `cdata_to_characters`.
    pub fn cdata_to_characters(self, value: bool) -> (r: ParserConfig)
        ensures
            r == (ParserConfig { cdata_to_characters: value, ..self }),
    {
        ParserConfig { cdata_to_characters: value, ..self }
    }

    /// Sets `ignore_comments`.
    pub fn ignore_comments(self, value: bool) -> (r: ParserConfig)
        ensures
            r == (ParserConfig { ignore_comments: value, ..self }),
    {
        ParserConfig { ignore_comments: value, ..self }
    }

    /// Sets `coalesce_characters`.
    pub fn coalesce_characters(self, value: bool) -> (r: ParserConfig)
        ensures
            r == (ParserConfig { coalesce_characters: value, ..self }),
    {
        ParserConfig { coalesce_characters: value, ..self }
    }

    /// Sets `ignore_end_of_stream`.
    pub fn ignore_end_of_stream(self, value: bool) -> (r: ParserConfig)
        ensures
            r == (ParserConfig { ignore_end_of_stream: value, ..self }),
    {
        ParserConfig { ignore_end_of_stream: value, ..self }
    }

    /// Sets `replace_unknown_entity_references`.
    pub fn replace_unknown_entity_references(self, value: bool) -> (r: ParserConfig)
        ensures
            r == (ParserConfig { replace_unknown_entity_references: value, ..self }),
    {
        ParserConfig { replace_unknown_entity_references: value, ..self }
    }

    /// Sets `ignore_root_level_whitespace`.
    pub fn ignore_root_level_whitespace(self, value: bool) -> (r: ParserConfig)
        ensures
            r == (ParserConfig { ignore_root_level_whitespace: value, ..self }),
    {
        ParserConfig { ignore_root_level_whitespace: value, ..self }
    }

    /// Makes the entity `name` stand for `value`; a later definition of the
    /// same name wins.
    pub fn add_entity(self, name: Vec<char>, value: Vec<char>) -> (r: ParserConfig)
        ensures
            pairs_view(r.extra_entities@) == pairs_view(self.extra_entities@).push(
                (name@, value@),
            ),
            lookup(pairs_view(r.extra_entities@), name@) == Some(value@),
    {
        let mut c = self;
        let ghost before = c.extra_entities@;
        let ghost p = (name@, value@);
        c.extra_entities.push((name, value));
        assert(pairs_view(c.extra_entities@) =~= pairs_view(before).push(p));
        assert(pairs_view(c.extra_entities@).drop_last() =~= pairs_view(before));
        c
    }
}

/// The value that the last definition of `k` in `v` gives.
pub fn lookup_entity(v: &Vec<(Vec<char>, Vec<char>)>, k: &Vec<char>) -> (r: Option<Vec<char>>)
    ensures
        match r {
            Some(x) => lookup(pairs_view(v@), k@) == Some(x@),
            None => lookup(pairs_view(v@), k@) is None,
        },
{
    let mut i: usize = v.len();
    assert(pairs_view(v@).take(i as int) =~= pairs_view(v@));
    while i > 0
        invariant
            i <= v.len(),
            lookup(pairs_view(v@), k@) == lookup(pairs_view(v@).take(i as int), k@),
        decreases i,
    {
        let ghost t: Bindings = pairs_view(v@).take(i as int);
        assert(t.drop_last() =~= pairs_view(v@).take(i - 1));
        assert(t.last() == (v@[i - 1].0@, v@[i - 1].1@));
        if chars_eq(&v[i - 1].0, k) {
            return Some(copy_chars(&v[i - 1].1));
        }
        i = i - 1;
    }
    None
}

/// The options of a parser together with its limits.
#[derive(Clone, Debug, PartialEq, Eq)]
pub struct ParserConfig2 {
    /// The options.
    pub c: ParserConfig,
    /// The encoding to report, whatever the declaration says.
    pub override_encoding: Option<Vec<char>>,
    /// Accept more than one root element.
    pub allow_multiple_root_elements: bool,
    /// How many characters may wait in the lexer when an entity is expanded.
    pub max_entity_expansion_length: usize,
    /// How deeply entity expansions may nest.
    pub max_entity_expansion_depth: u8,
}

impl ParserConfig2 {
    /// The default options and limits.
    pub fn new() -> (r: ParserConfig2)
        ensures
            is_default_config(r.c),
            r.override_encoding is None,
            r.allow_multiple_root_elements,
            r.max_entity_expansion_length == 1_000_000,
            r.max_entity_expansion_depth == 10,
    {
        ParserConfig2::from_config(ParserConfig::new())
    }

    /// The given options with the default limits.
    pub fn from_config(c: ParserConfig) -> (r: ParserConfig2)
        ensures
            r.c == c,
            r.override_encoding is None,
            r.allow_multiple_root_elements,
            r.max_entity_expansion_length == 1_000_000,
            r.max_entity_expansion_depth == 10,
    {
        ParserConfig2 {
            c,
            override_encoding: None,
            allow_multiple_root_elements: true,
            max_entity_expansion_length: 1_000_000,
            max_entity_expansion_depth: 10,
        }
    }

    /// Sets the encoding to report.
    pub fn override_encoding(self, encoding: Option<Vec<char>>) -> (r: ParserConfig2)
        ensures
            r == (ParserConfig2 { override_encoding: encoding, ..self }),
    {
        ParserConfig2 { override_encoding: encoding, ..self }
    }

    /// Sets whether more than one root element is accepted.
    pub fn allow_multiple_root_elements(self, value: bool) -> (r: ParserConfig2)
        ensures
            r == (ParserConfig2 { allow_multiple_root_elements: value, ..self }),
    {
        ParserConfig2 { allow_multiple_root_elements: value, ..self }
    }
}

impl From<ParserConfig> for ParserConfig2 {
    fn from(c: ParserConfig) -> (r: ParserConfig2) {
        ParserConfig2::from_config(c)
    }
}

impl FromSpecImpl<ParserConfig> for ParserConfig2 {
    open spec fn obeys_from_spec() -> bool {
        true
    }

    open spec fn from_spec(c: ParserConfig) -> ParserConfig2 {
        ParserConfig2 {
            c,
            override_encoding: None,
            allow_multiple_root_elements: true,
            max_entity_expansion_length: 1_000_000,
            max_entity_expansion_depth: 10,
        }
    }
}

} // verus!
