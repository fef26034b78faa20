//! Qualified names: a local name with an optional prefix and namespace.

use vstd::prelude::*;
use crate::common::{copy_chars, chars_eq, push_all};

verus! {

/// The mathematical value of a name.
pub struct NameView {
    pub local_name: Seq<char>,
    pub namespace: Option<Seq<char>>,
    pub prefix: Option<Seq<char>>,
}

/// A qualified name that owns its parts.
#[derive(Clone, Debug, PartialEq, Eq)]
pub struct OwnedName {
    /// The local name.
    pub local_name: Vec<char>,
    /// The namespace URI the prefix is bound to, once resolved.
    pub namespace: Option<Vec<char>>,
    /// The prefix written before the colon, if any.
    pub prefix: Option<Vec<char>>,
}

/// The view of an optional character vector.
pub open spec fn opt_chars(o: Option<Vec<char>>) -> Option<Seq<char>> {
    match o {
        Some(v) => Some(v@),
        None => None,
    }
}

impl View for OwnedName {
    type V = NameView;

    open spec fn view(&self) -> NameView {
        NameView {
            local_name: self.local_name@,
            namespace: opt_chars(self.namespace),
            prefix: opt_chars(self.prefix),
        }
    }
}

/// No colon occurs in `s`.
pub open spec fn no_colon(s: Seq<char>) -> bool {
    forall|j: int| 0 <= j < s.len() ==> s[j] != ':'
}

/// `s` splits at `i` into a nonempty prefix and a nonempty local name, with
/// no other colon.
pub open spec fn splits_at(s: Seq<char>, i: int) -> bool {
    &&& 0 < i < s.len() - 1
    &&& s[i] == ':'
    &&& no_colon(s.take(i))
    &&& no_colon(s.skip(i + 1))
}

/// What reading `s` as a qualified name gives: `local` or `prefix:local`
/// with both parts nonempty and no other colon; no namespace yet.
pub open spec fn spec_parse_name(s: Seq<char>) -> Option<NameView> {
    if no_colon(s) {
        if s.len() > 0 {
            Some(NameView { local_name: s, namespace: None, prefix: None })
        } else {
            None
        }
    } else if exists|i: int| splits_at(s, i) {
        let i = choose|i: int| splits_at(s, i);
        Some(NameView { local_name: s.skip(i + 1), namespace: None, prefix: Some(s.take(i)) })
    } else {
        None
    }
}

/// How a name is written in messages: `{namespace}prefix:local`, each part
/// only where it is present.
pub open spec fn name_repr(n: NameView) -> Seq<char> {
    (match n.namespace {
        Some(ns) => seq!['{'] + ns + seq!['}'],
        None => Seq::<char>::empty(),
    }) + (match n.prefix {
        Some(p) => p.push(':'),
        None => Seq::<char>::empty(),
    }) + n.local_name
}

/// A name as it is read from a document, before its prefix is resolved:
/// a nonempty local name and an optional nonempty prefix, neither with a
/// colon, and no namespace.
pub open spec fn is_unresolved_name(n: NameView) -> bool {
    &&& n.namespace is None
    &&& n.local_name.len() > 0
    &&& no_colon(n.local_name)
    &&& match n.prefix {
        Some(p) => p.len() > 0 && no_colon(p),
        None => true,
    }
}

/// Writing a name that has not been resolved and reading the text back
/// gives the same name.
pub proof fn lemma_parse_name_repr(n: NameView)
    requires
        is_unresolved_name(n),
    ensures
        spec_parse_name(name_repr(n)) == Some(n),
{
    let s = name_repr(n);
    match n.prefix {
        None => {
            assert(s =~= n.local_name);
        },
        Some(p) => {
            let k = p.len() as int;
            assert(s =~= p.push(':') + n.local_name);
            assert(s[k] == ':');
            assert(!no_colon(s));
            assert(s.take(k) =~= p);
            assert(s.skip(k + 1) =~= n.local_name);
            assert(splits_at(s, k));
            assert forall|i: int| splits_at(s, i) implies i == k by {
                if i < k {
                    assert(s[i] == p[i]);
                } else if i > k {
                    assert(s.take(i)[k] == s[k]);
                }
            }
            let i = choose|i: int| splits_at(s, i);
            assert(i == k);
        },
    }
}

/// Reading a qualified name and writing it gives back the text read.
pub proof fn lemma_repr_parsed_name(s: Seq<char>)
    requires
        spec_parse_name(s) is Some,
    ensures
        is_unresolved_name(spec_parse_name(s)->Some_0),
        name_repr(spec_parse_name(s)->Some_0) == s,
{
    if no_colon(s) {
        assert(name_repr(spec_parse_name(s)->Some_0) =~= s);
    } else {
        let i = choose|i: int| splits_at(s, i);
        assert(s.take(i).push(':') + s.skip(i + 1) =~= s);
        assert(name_repr(spec_parse_name(s)->Some_0) =~= s.take(i).push(':') + s.skip(i + 1));
    }
}

/// Copies the characters `v[from..to]`.
pub fn chars_range(v: &Vec<char>, from: usize, to: usize) -> (r: Vec<char>)
    requires
        from <= to <= v.len(),
    ensures
        r@ == v@.subrange(from as int, to as int),
{
    let mut r: Vec<char> = Vec::new();
    let mut i: usize = from;
    while i < to
        invariant
            from <= i <= to <= v.len(),
            r@ == v@.subrange(from as int, i as int),
        decreases to - i,
    {
        r.push(v[i]);
        i = i + 1;
    }
    r
}

/// A copy of an optional character vector.
pub fn copy_opt_chars(o: &Option<Vec<char>>) -> (r: Option<Vec<char>>)
    ensures
        opt_chars(r) == opt_chars(*o),
{
    match o {
        Some(v) => Some(copy_chars(v)),
        None => None,
    }
}

/// Compares two optional character vectors.
pub fn opt_chars_eq(a: &Option<Vec<char>>, b: &Option<Vec<char>>) -> (r: bool)
    ensures
        r == (opt_chars(*a) == opt_chars(*b)),
{
    match (a, b) {
        (Some(x), Some(y)) => chars_eq(x, y),
        (None, None) => true,
        _ => false,
    }
}

impl OwnedName {
    /// A name with a local part only.
    pub fn local(local_name: Vec<char>) -> (r: OwnedName)
        ensures
            r@ == (NameView { local_name: local_name@, namespace: None, prefix: None }),
    {
        OwnedName { local_name, namespace: None, prefix: None }
    }

    /// A name from all of its parts.
    pub fn qualified(
        local_name: Vec<char>,
        namespace: Option<Vec<char>>,
        prefix: Option<Vec<char>>,
    ) -> (r: OwnedName)
        ensures
            r@ == (NameView {
                local_name: local_name@,
                namespace: opt_chars(namespace),
                prefix: opt_chars(prefix),
            }),
    {
        OwnedName { local_name, namespace, prefix }
    }

    /// A copy of this name.
    pub fn duplicate(&self) -> (r: OwnedName)
        ensures
            r@ == self@,
    {
        OwnedName {
            local_name: copy_chars(&self.local_name),
            namespace: copy_opt_chars(&self.namespace),
            prefix: copy_opt_chars(&self.prefix),
        }
    }

    /// Whether two names have the same local name, namespace and prefix.
    pub fn same_as(&self, other: &OwnedName) -> (r: bool)
        ensures
            r == (self@ == other@),
    {
        chars_eq(&self.local_name, &other.local_name) && opt_chars_eq(
            &self.namespace,
            &other.namespace,
        ) && opt_chars_eq(&self.prefix, &other.prefix)
    }

    /// How the name is written in messages.
    pub fn to_repr(&self) -> (r: Vec<char>)
        ensures
            r@ == name_repr(self@),
    {
        let mut r: Vec<char> = Vec::new();
        match &self.namespace {
            Some(ns) => {
                r.push('{');
                push_all(&mut r, ns);
                r.push('}');
            },
            None => {},
        }
        match &self.prefix {
            Some(p) => {
                push_all(&mut r, p);
                r.push(':');
            },
            None => {},
        }
        push_all(&mut r, &self.local_name);
        r
    }

    /// Reads `s` as a qualified name: `local` or `prefix:local`.
    pub fn parse(s: &Vec<char>) -> (r: Option<OwnedName>)
        ensures
            match r {
                Some(n) => spec_parse_name(s@) == Some(n@),
                None => spec_parse_name(s@) is None,
            },
    {
        let n = s.len();
        let mut k: usize = 0;
        while k < n && s[k] != ':'
            invariant
                n == s.len(),
                k <= n,
                no_colon(s@.take(k as int)),
            decreases n - k,
        {
            k = k + 1;
            assert(s@.take(k as int) =~= s@.take(k - 1).push(s@[k - 1]));
        }
        if k == n {
            assert(s@.take(k as int) =~= s@);
            if n > 0 {
                return Some(OwnedName::local(copy_chars(s)));
            } else {
                return None;
            }
        }
        // s[k] is the first colon
        let mut m: usize = k + 1;
        while m < n && s[m] != ':'
            invariant
                n == s.len(),
                k < m <= n,
                forall|j: int| k < j < m ==> s@[j] != ':',
            decreases n - m,
        {
            m = m + 1;
        }
        if k > 0 && k + 1 < n && m == n {
            let prefix = chars_range(s, 0, k);
            let local = chars_range(s, k + 1, n);
            proof {
                assert(splits_at(s@, k as int));
                assert forall|i: int| splits_at(s@, i) implies i == k by {
                    if i < k {
                        assert(s@.take(k as int)[i] == s@[i]);
                    } else if i > k {
                        assert(s@.take(i)[k as int] == s@[k as int]);
                    }
                }
                assert(prefix@ =~= s@.take(k as int));
                assert(local@ =~= s@.skip(k + 1));
            }
            Some(OwnedName::qualified(local, None, Some(prefix)))
        } else {
            proof {
                assert(!no_colon(s@));
                assert forall|i: int| !splits_at(s@, i) by {
                    if splits_at(s@, i) {
                        if i < k {
                            assert(s@.take(k as int)[i] == s@[i]);
                        } else if i > k {
                            assert(s@.take(i)[k as int] == s@[k as int]);
                        } else {
                            if m < n {
                                assert(s@.skip(i + 1)[m - (i + 1)] == s@[m as int]);
                            }
                        }
                    }
                }
            }
            None
        }
    }
}

} // verus!
