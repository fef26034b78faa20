//! Namespace bindings: prefixes bound to namespace URIs, and the stack of
//! bindings that elements open and close.

use vstd::prelude::*;
use crate::common::{copy_chars, chars_eq, text};

verus! {

/// The prefix `xml`.
pub open spec fn ns_xml_prefix() -> Seq<char> {
    "xml"@
}

/// The namespace that the prefix `xml` is bound to.
pub open spec fn ns_xml_uri() -> Seq<char> {
    "http://www.w3.org/XML/1998/namespace"@
}

/// The prefix `xmlns`.
pub open spec fn ns_xmlns_prefix() -> Seq<char> {
    "xmlns"@
}

/// The namespace that the prefix `xmlns` is bound to.
pub open spec fn ns_xmlns_uri() -> Seq<char> {
    "http://www.w3.org/2000/xmlns/"@
}

/// The frames `frames` with `prefix` bound to `uri` in the top one, unless
/// that frame binds the prefix already (with no frame, nothing changes).
pub open spec fn stack_put(frames: Seq<Bindings>, prefix: Seq<char>, uri: Seq<char>) -> Seq<
    Bindings,
> {
    if frames.len() > 0 && lookup(frames.last(), prefix) is None {
        frames.update(frames.len() - 1, frames.last().push((prefix, uri)))
    } else {
        frames
    }
}

/// A binding list: pairs of a prefix and a namespace URI.
pub type Bindings = Seq<(Seq<char>, Seq<char>)>;

/// The view of the pairs of a namespace.
pub open spec fn pairs_view(v: Seq<(Vec<char>, Vec<char>)>) -> Bindings {
    v.map_values(|p: (Vec<char>, Vec<char>)| (p.0@, p.1@))
}

/// The URI that `k` is bound to in `s`: the last pair with that prefix.
pub open spec fn lookup(s: Bindings, k: Seq<char>) -> Option<Seq<char>>
    decreases s.len(),
{
    if s.len() == 0 {
        None
    } else if s.last().0 == k {
        Some(s.last().1)
    } else {
        lookup(s.drop_last(), k)
    }
}

/// No prefix occurs twice in `s`.
pub open spec fn unique_keys(s: Bindings) -> bool {
    forall|i: int, j: int| 0 <= i < j < s.len() ==> s[i].0 != s[j].0
}

/// The URI that `k` is bound to in a stack of frames: the topmost frame that
/// binds it decides.
pub open spec fn stack_lookup(frames: Seq<Bindings>, k: Seq<char>) -> Option<Seq<char>>
    decreases frames.len(),
{
    if frames.len() == 0 {
        None
    } else {
        match lookup(frames.last(), k) {
            Some(v) => Some(v),
            None => stack_lookup(frames.drop_last(), k),
        }
    }
}

/// A binding with no prefix to the empty namespace, or one of the two
/// reserved prefixes to its fixed namespace.
pub open spec fn is_predefined(p: (Seq<char>, Seq<char>)) -> bool {
    ||| p.0.len() == 0 && p.1.len() == 0
    ||| p.0 == ns_xmlns_prefix() && p.1 == ns_xmlns_uri()
    ||| p.0 == ns_xml_prefix() && p.1 == ns_xml_uri()
}

/// Looking a prefix up in `s` finds `i` when `i` is the last pair with it.
proof fn lemma_lookup_at(s: Bindings, k: Seq<char>, i: int)
    requires
        0 <= i < s.len(),
        s[i].0 == k,
        forall|j: int| i < j < s.len() ==> s[j].0 != k,
    ensures
        lookup(s, k) == Some(s[i].1),
    decreases s.len(),
{
    if i < s.len() - 1 {
        lemma_lookup_at(s.drop_last(), k, i);
    }
}

/// Looking up a prefix that no pair of `s` has finds nothing.
proof fn lemma_lookup_absent(s: Bindings, k: Seq<char>)
    requires
        forall|j: int| 0 <= j < s.len() ==> s[j].0 != k,
    ensures
        lookup(s, k) is None,
    decreases s.len(),
{
    if s.len() > 0 {
        lemma_lookup_absent(s.drop_last(), k);
    }
}

/// Where a pair of `s` has the prefix `k`, looking it up finds something.
pub(crate) proof fn lemma_lookup_absent_inv(s: Bindings, k: Seq<char>, i: int)
    requires
        0 <= i < s.len(),
        s[i].0 == k,
    ensures
        lookup(s, k) is Some,
    decreases s.len(),
{
    if s.last().0 != k {
        assert(s.drop_last()[i] == s[i]);
        lemma_lookup_absent_inv(s.drop_last(), k, i);
    }
}

/// When `lookup` finds something, some pair of `s` has the prefix.
proof fn lemma_lookup_found(s: Bindings, k: Seq<char>)
    requires
        lookup(s, k) is Some,
    ensures
        exists|j: int| 0 <= j < s.len() && s[j].0 == k && lookup(s, k) == Some(s[j].1),
    decreases s.len(),
{
    if s.last().0 != k {
        lemma_lookup_found(s.drop_last(), k);
        let j = choose|j: int|
            0 <= j < s.drop_last().len() && s.drop_last()[j].0 == k && lookup(s.drop_last(), k)
                == Some(s.drop_last()[j].1);
        assert(s[j] == s.drop_last()[j]);
    } else {
        assert(s[s.len() - 1] == s.last());
    }
}

/// Replacing the URI of the pair at `i` changes only what that prefix is
/// bound to, when no prefix occurs twice.
proof fn lemma_lookup_update(s: Bindings, i: int, v: Seq<char>, k: Seq<char>)
    requires
        0 <= i < s.len(),
        unique_keys(s),
    ensures
        lookup(s.update(i, (s[i].0, v)), k) == if k == s[i].0 {
            Some(v)
        } else {
            lookup(s, k)
        },
{
    let t = s.update(i, (s[i].0, v));
    if k == s[i].0 {
        lemma_lookup_at(t, k, i);
    } else {
        match lookup(s, k) {
            Some(_) => {
                lemma_lookup_found(s, k);
                let j = choose|j: int|
                    0 <= j < s.len() && s[j].0 == k && lookup(s, k) == Some(s[j].1);
                lemma_lookup_at(s, k, j);
                lemma_lookup_at(t, k, j);
            },
            None => {
                assert forall|j: int| 0 <= j < t.len() implies t[j].0 != k by {
                    if s[j].0 == k {
                        lemma_lookup_at(s, k, j);
                    }
                }
                lemma_lookup_absent(t, k);
            },
        }
    }
}

/// Looking up in `s` pushed with a pair.
proof fn lemma_lookup_push(s: Bindings, p: (Seq<char>, Seq<char>), k: Seq<char>)
    ensures
        lookup(s.push(p), k) == if k == p.0 {
            Some(p.1)
        } else {
            lookup(s, k)
        },
{
    assert(s.push(p).drop_last() =~= s);
}

/// A set of namespace bindings, each prefix at most once.
#[derive(Clone, Debug, PartialEq, Eq)]
pub struct Namespace {
    pairs: Vec<(Vec<char>, Vec<char>)>,
}

impl View for Namespace {
    type V = Bindings;

    closed spec fn view(&self) -> Bindings {
        pairs_view(self.pairs@)
    }
}

impl Namespace {
    /// No prefix occurs twice.
    pub closed spec fn wf(&self) -> bool {
        unique_keys(self@)
    }

    /// An empty set of bindings.
    pub fn empty() -> (r: Namespace)
        ensures
            r@ == Seq::<(Seq<char>, Seq<char>)>::empty(),
            r.wf(),
    {
        let r = Namespace { pairs: Vec::new() };
        assert(r@ =~= Seq::<(Seq<char>, Seq<char>)>::empty());
        r
    }

    /// The number of bindings.
    pub fn len(&self) -> (r: usize)
        ensures
            r == self@.len(),
    {
        self.pairs.len()
    }

    /// The binding at `i`.
    pub fn binding(&self, i: usize) -> (r: (Vec<char>, Vec<char>))
        requires
            i < self@.len(),
        ensures
            (r.0@, r.1@) == self@[i as int],
    {
        (copy_chars(&self.pairs[i].0), copy_chars(&self.pairs[i].1))
    }

    /// Where the pair with prefix `k` stands, if any.
    fn find(&self, k: &Vec<char>) -> (r: Option<usize>)
        ensures
            match r {
                Some(i) => i < self@.len() && self@[i as int].0 == k@ && lookup(self@, k@) == Some(
                    self@[i as int].1,
                ) && forall|j: int| i < j < self@.len() ==> self@[j].0 != k@,
                None => lookup(self@, k@) is None && forall|j: int|
                    0 <= j < self@.len() ==> self@[j].0 != k@,
            },
    {
        let mut i: usize = self.pairs.len();
        while i > 0
            invariant
                i <= self.pairs.len(),
                self@.len() == self.pairs.len(),
                forall|j: int| i <= j < self@.len() ==> self@[j].0 != k@,
            decreases i,
        {
            if chars_eq(&self.pairs[i - 1].0, k) {
                proof {
                    lemma_lookup_at(self@, k@, i - 1);
                }
                return Some(i - 1);
            }
            i = i - 1;
        }
        proof {
            lemma_lookup_absent(self@, k@);
        }
        None
    }

    /// The URI that `prefix` is bound to.
    pub fn get(&self, prefix: &Vec<char>) -> (r: Option<Vec<char>>)
        ensures
            match r {
                Some(v) => lookup(self@, prefix@) == Some(v@),
                None => lookup(self@, prefix@) is None,
            },
    {
        match self.find(prefix) {
            Some(i) => Some(copy_chars(&self.pairs[i].1)),
            None => None,
        }
    }

    /// Binds `prefix` to `uri` unless it is bound already; says whether it
    /// bound it.
    pub fn put(&mut self, prefix: Vec<char>, uri: Vec<char>) -> (r: bool)
        requires
            old(self).wf(),
        ensures
            final(self).wf(),
            r == (lookup(old(self)@, prefix@) is None),
            r ==> final(self)@ == old(self)@.push((prefix@, uri@)),
            !r ==> final(self)@ == old(self)@,
            forall|k: Seq<char>|
                #![trigger lookup(final(self)@, k)]
                lookup(final(self)@, k) == if k == prefix@ && r {
                    Some(uri@)
                } else {
                    lookup(old(self)@, k)
                },
    {
        match self.find(&prefix) {
            Some(_) => false,
            None => {
                let ghost p = (prefix@, uri@);
                self.pairs.push((prefix, uri));
                assert(self@ =~= old(self)@.push(p));
                assert forall|k: Seq<char>| #![trigger lookup(self@, k)]
                    lookup(self@, k) == if k == p.0 {
                        Some(uri@)
                    } else {
                        lookup(old(self)@, k)
                    } by {
                    lemma_lookup_push(old(self)@, p, k);
                }
                true
            },
        }
    }

    /// Binds `prefix` to `uri`, replacing what it was bound to.
    fn upsert(&mut self, prefix: &Vec<char>, uri: &Vec<char>)
        requires
            old(self).wf(),
        ensures
            final(self).wf(),
            forall|k: Seq<char>|
                #![trigger lookup(final(self)@, k)]
                lookup(final(self)@, k) == if k == prefix@ {
                    Some(uri@)
                } else {
                    lookup(old(self)@, k)
                },
    {
        match self.find(prefix) {
            Some(i) => {
                let ghost s = self@;
                let v = copy_chars(uri);
                let key = copy_chars(&self.pairs[i].0);
                self.pairs.set(i, (key, v));
                assert(self@ =~= s.update(i as int, (s[i as int].0, uri@)));
                assert forall|k: Seq<char>| #![trigger lookup(self@, k)]
                    lookup(self@, k) == if k == prefix@ {
                        Some(uri@)
                    } else {
                        lookup(s, k)
                    } by {
                    lemma_lookup_update(s, i as int, uri@, k);
                }
            },
            None => {
                let ghost s = self@;
                let ghost p = (prefix@, uri@);
                self.pairs.push((copy_chars(prefix), copy_chars(uri)));
                assert(self@ =~= s.push(p));
                assert forall|k: Seq<char>| #![trigger lookup(self@, k)]
                    lookup(self@, k) == if k == prefix@ {
                        Some(uri@)
                    } else {
                        lookup(s, k)
                    } by {
                    lemma_lookup_push(s, p, k);
                }
            },
        }
    }

    /// Whether only the three predefined bindings (or some of them) are
    /// present.
    pub fn is_essentially_empty(&self) -> (r: bool)
        ensures
            r == (self@.len() <= 3 && forall|i: int|
                0 <= i < self@.len() ==> is_predefined(#[trigger] self@[i])),
    {
        if self.pairs.len() > 3 {
            return false;
        }
        let xml = text("xml");
        let xml_uri = text("http://www.w3.org/XML/1998/namespace");
        let xmlns = text("xmlns");
        let xmlns_uri = text("http://www.w3.org/2000/xmlns/");
        let mut i: usize = 0;
        while i < self.pairs.len()
            invariant
                i <= self.pairs.len(),
                self@.len() == self.pairs.len(),
                xml@ == ns_xml_prefix(),
                xml_uri@ == ns_xml_uri(),
                xmlns@ == ns_xmlns_prefix(),
                xmlns_uri@ == ns_xmlns_uri(),
                forall|j: int| 0 <= j < i ==> is_predefined(#[trigger] self@[j]),
            decreases self.pairs.len() - i,
        {
            let k = &self.pairs[i].0;
            let v = &self.pairs[i].1;
            assert(self@[i as int] == (k@, v@));
            let ok = (k.len() == 0 && v.len() == 0) || (chars_eq(k, &xmlns) && chars_eq(
                v,
                &xmlns_uri,
            )) || (chars_eq(k, &xml) && chars_eq(v, &xml_uri));
            if !ok {
                return false;
            }
            i = i + 1;
        }
        true
    }

    /// A copy of these bindings.
    pub fn duplicate(&self) -> (r: Namespace)
        ensures
            r@ == self@,
            self.wf() ==> r.wf(),
    {
        let mut pairs: Vec<(Vec<char>, Vec<char>)> = Vec::new();
        let mut i: usize = 0;
        while i < self.pairs.len()
            invariant
                i <= self.pairs.len(),
                pairs.len() == i,
                pairs_view(pairs@) == pairs_view(self.pairs@.subrange(0, i as int)),
            decreases self.pairs.len() - i,
        {
            let ghost before = pairs@;
            let p = (copy_chars(&self.pairs[i].0), copy_chars(&self.pairs[i].1));
            pairs.push(p);
            i = i + 1;
            assert forall|j: int| 0 <= j < i implies pairs_view(pairs@)[j] == pairs_view(
                self.pairs@.subrange(0, i as int),
            )[j] by {
                if j < i - 1 {
                    assert(pairs@[j] == before[j]);
                    assert(pairs_view(before)[j] == pairs_view(
                        self.pairs@.subrange(0, i - 1),
                    )[j]);
                }
            }
            assert(pairs_view(pairs@) =~= pairs_view(self.pairs@.subrange(0, i as int)));
        }
        assert(self.pairs@.subrange(0, self.pairs.len() as int) =~= self.pairs@);
        Namespace { pairs }
    }
}

/// The frames of a namespace stack, bottom first.
pub open spec fn frames_view(v: Seq<Namespace>) -> Seq<Bindings> {
    v.map_values(|n: Namespace| n@)
}

/// A stack of namespace frames: each element opens one.
#[derive(Clone, Debug, PartialEq, Eq)]
pub struct NamespaceStack {
    frames: Vec<Namespace>,
}

impl View for NamespaceStack {
    type V = Seq<Bindings>;

    closed spec fn view(&self) -> Seq<Bindings> {
        frames_view(self.frames@)
    }
}

impl NamespaceStack {
    /// Every frame binds each prefix at most once.
    pub closed spec fn wf(&self) -> bool {
        forall|i: int| 0 <= i < self.frames@.len() ==> (#[trigger] self.frames@[i]).wf()
    }

    /// A stack with no frames.
    pub fn empty() -> (r: NamespaceStack)
        ensures
            r@ == Seq::<Bindings>::empty(),
            r.wf(),
    {
        let r = NamespaceStack { frames: Vec::new() };
        assert(r@ =~= Seq::<Bindings>::empty());
        r
    }

    /// A stack with one frame that binds the prefixes `xml` and `xmlns` to
    /// their namespaces, and no prefix to the empty namespace.
    pub fn default() -> (r: NamespaceStack)
        ensures
            r.wf(),
            r@.len() == 1,
            r@[0] == seq![
                (ns_xml_prefix(), ns_xml_uri()),
                (ns_xmlns_prefix(), ns_xmlns_uri()),
                (Seq::<char>::empty(), Seq::<char>::empty()),
            ],
    {
        let mut r = NamespaceStack::empty();
        r.push_empty();
        let xml = text("xml");
        let xml_uri = text("http://www.w3.org/XML/1998/namespace");
        let xmlns = text("xmlns");
        let xmlns_uri = text("http://www.w3.org/2000/xmlns/");
        proof {
            reveal_strlit("xml");
            reveal_strlit("xmlns");
        }
        let ghost e = Seq::<(Seq<char>, Seq<char>)>::empty();
        assert(xml@.len() == 3 && xmlns@.len() == 5);
        r.put(xml, xml_uri);
        assert(r@[0] == e.push((ns_xml_prefix(), ns_xml_uri())));
        assert(e.push((ns_xml_prefix(), ns_xml_uri())).drop_last() =~= e);
        assert(ns_xml_prefix() != xmlns@) by {
            assert(ns_xml_prefix().len() != xmlns@.len());
        }
        proof {
            lemma_lookup_absent(r@[0], xmlns@);
        }
        r.put(xmlns, xmlns_uri);
        assert(r@[0] == e.push((ns_xml_prefix(), ns_xml_uri())).push(
            (ns_xmlns_prefix(), ns_xmlns_uri()),
        ));
        let ghost e2 = e.push((ns_xml_prefix(), ns_xml_uri()));
        assert(e2.push((ns_xmlns_prefix(), ns_xmlns_uri())).drop_last() =~= e2);
        assert(e2.drop_last() =~= e);
        assert(ns_xml_prefix().len() != 0 && ns_xmlns_prefix().len() != 0);
        proof {
            lemma_lookup_absent(r@[0], Seq::<char>::empty());
        }
        r.put(Vec::new(), Vec::new());
        assert(r@[0] =~= seq![
            (ns_xml_prefix(), ns_xml_uri()),
            (ns_xmlns_prefix(), ns_xmlns_uri()),
            (Seq::<char>::empty(), Seq::<char>::empty()),
        ]);
        r
    }

    /// The number of frames.
    pub fn len(&self) -> (r: usize)
        ensures
            r == self@.len(),
    {
        self.frames.len()
    }

    /// Opens an empty frame.
    pub fn push_empty(&mut self)
        requires
            old(self).wf(),
        ensures
            final(self).wf(),
            final(self)@ == old(self)@.push(Seq::<(Seq<char>, Seq<char>)>::empty()),
    {
        let ghost old_frames = self.frames@;
        self.frames.push(Namespace::empty());
        assert(self@ =~= old(self)@.push(Seq::<(Seq<char>, Seq<char>)>::empty()));
        assert forall|i: int| 0 <= i < self.frames@.len() implies (
        #[trigger] self.frames@[i]).wf() by {
            if i < old_frames.len() {
                assert(self.frames@[i] == old_frames[i]);
            }
        }
    }

    /// Closes the top frame, if there is one.
    pub fn try_pop(&mut self) -> (r: Option<Namespace>)
        requires
            old(self).wf(),
        ensures
            final(self).wf(),
            old(self)@.len() == 0 ==> r is None && final(self)@ == old(self)@,
            old(self)@.len() > 0 ==> r is Some && r.unwrap()@ == old(self)@.last()
                && final(self)@ == old(self)@.drop_last(),
    {
        if self.frames.len() == 0 {
            return None;
        }
        let r = self.frames.pop();
        assert(self@ =~= old(self)@.drop_last());
        assert forall|i: int| 0 <= i < self.frames@.len() implies (
        #[trigger] self.frames@[i]).wf() by {
            assert(self.frames@[i] == old(self).frames@[i]);
        }
        r
    }

    /// Binds `prefix` to `uri` in the top frame unless that frame binds it
    /// already; says whether it bound it. With no frame, nothing changes.
    pub fn put(&mut self, prefix: Vec<char>, uri: Vec<char>) -> (r: bool)
        requires
            old(self).wf(),
        ensures
            final(self)@ == stack_put(old(self)@, prefix@, uri@),
            final(self).wf(),
            final(self)@.len() == old(self)@.len(),
            old(self)@.len() == 0 ==> !r && final(self)@ == old(self)@,
            old(self)@.len() > 0 ==> {
                &&& r == (lookup(old(self)@.last(), prefix@) is None)
                &&& final(self)@ == old(self)@.update(
                    old(self)@.len() - 1,
                    if r {
                        old(self)@.last().push((prefix@, uri@))
                    } else {
                        old(self)@.last()
                    },
                )
            },
            r ==> stack_lookup(final(self)@, prefix@) == Some(uri@),
    {
        let n = self.frames.len();
        if n == 0 {
            return false;
        }
        let mut top = self.frames.pop().unwrap();
        assert(top == old(self).frames@[n - 1]);
        let r = top.put(prefix, uri);
        let ghost new_top = top@;
        self.frames.push(top);
        proof {
            assert(self@ =~= old(self)@.update(n - 1, new_top));
            assert forall|i: int| 0 <= i < self.frames@.len() implies (
            #[trigger] self.frames@[i]).wf() by {
                if i < n - 1 {
                    assert(self.frames@[i] == old(self).frames@[i]);
                }
            }
            if r {
                assert(lookup(self@.last(), prefix@) == Some(uri@));
            }
        }
        r
    }

    /// The URI that `prefix` is bound to: the topmost frame that binds it
    /// decides.
    pub fn get(&self, prefix: &Vec<char>) -> (r: Option<Vec<char>>)
        ensures
            match r {
                Some(v) => stack_lookup(self@, prefix@) == Some(v@),
                None => stack_lookup(self@, prefix@) is None,
            },
    {
        let mut i: usize = self.frames.len();
        assert(self@.take(i as int) =~= self@);
        while i > 0
            invariant
                i <= self.frames.len(),
                self@.len() == self.frames.len(),
                stack_lookup(self@, prefix@) == stack_lookup(self@.take(i as int), prefix@),
            decreases i,
        {
            let ghost t = self@.take(i as int);
            assert(t.drop_last() =~= self@.take(i - 1));
            assert(t.last() == self.frames@[i - 1]@);
            match self.frames[i - 1].get(prefix) {
                Some(v) => {
                    return Some(v);
                },
                None => {},
            }
            i = i - 1;
        }
        None
    }

    /// All bindings in force, one per prefix: for every prefix, what the
    /// result binds it to is what the stack binds it to.
    pub fn squash(&self) -> (r: Namespace)
        requires
            self.wf(),
        ensures
            r.wf(),
            forall|k: Seq<char>|
                #![trigger lookup(r@, k)]
                lookup(r@, k) == stack_lookup(self@, k),
    {
        let mut r = Namespace::empty();
        let mut f: usize = 0;
        while f < self.frames.len()
            invariant
                f <= self.frames.len(),
                self@.len() == self.frames.len(),
                self.wf(),
                r.wf(),
                forall|k: Seq<char>|
                    #![trigger lookup(r@, k)]
                    lookup(r@, k) == stack_lookup(self@.take(f as int), k),
            decreases self.frames.len() - f,
        {
            let frame = &self.frames[f];
            let ghost prev = r@;
            let mut i: usize = 0;
            while i < frame.pairs.len()
                invariant
                    i <= frame.pairs.len(),
                    frame@.len() == frame.pairs.len(),
                    r.wf(),
                    forall|k: Seq<char>|
                        #![trigger lookup(r@, k)]
                        lookup(r@, k) == match lookup(frame@.take(i as int), k) {
                            Some(v) => Some(v),
                            None => lookup(prev, k),
                        },
                decreases frame.pairs.len() - i,
            {
                let ghost before = r@;
                r.upsert(&frame.pairs[i].0, &frame.pairs[i].1);
                assert(frame@[i as int] == (frame.pairs@[i as int].0@, frame.pairs@[i as int].1@));
                assert forall|k: Seq<char>| #![trigger lookup(r@, k)]
                    lookup(r@, k) == match lookup(frame@.take(i + 1), k) {
                        Some(v) => Some(v),
                        None => lookup(prev, k),
                    } by {
                    assert(frame@.take(i + 1) =~= frame@.take(i as int).push(frame@[i as int]));
                    lemma_lookup_push(frame@.take(i as int), frame@[i as int], k);
                }
                i = i + 1;
            }
            assert(frame@.take(i as int) =~= frame@);
            assert forall|k: Seq<char>| #![trigger lookup(r@, k)]
                lookup(r@, k) == stack_lookup(self@.take(f + 1), k) by {
                let t = self@.take(f + 1);
                assert(t.drop_last() =~= self@.take(f as int));
                assert(t.last() == frame@);
            }
            f = f + 1;
        }
        assert(self@.take(f as int) =~= self@);
        r
    }
}

} // verus!
