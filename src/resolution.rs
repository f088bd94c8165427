//! Validated names and namespaced identifier paths.
use vstd::prelude::*;
use vstd::string::StringExecFns;

verus! {

/// Letters and the underscore may start a name.
pub open spec fn is_name_start(c: char) -> bool {
    ('a' <= c && c <= 'z') || ('A' <= c && c <= 'Z') || c == '_'
}

/// Letters, digits and the underscore may continue a name.
pub open spec fn is_name_char(c: char) -> bool {
    is_name_start(c) || ('0' <= c && c <= '9')
}

/// Whether the character at position `i` of `s` may stand there.
pub open spec fn char_fits(s: Seq<char>, i: int) -> bool {
    if i == 0 {
        is_name_start(s[i])
    } else {
        is_name_char(s[i])
    }
}

/// A name has a first character, and every character may stand where it
/// does.
pub open spec fn is_valid_name(s: Seq<char>) -> bool {
    s.len() > 0 && forall|i: int| 0 <= i < s.len() ==> char_fits(s, i)
}

/// A validated name: a letter or underscore, then letters, digits and
/// underscores.
#[derive(Debug, Clone, Hash)]
pub struct Identifier(String);

/// The first character of a rejected name that may not stand where it does;
/// for the empty name, which has no first character, the NUL character.
#[derive(Debug, Clone, Copy, PartialEq, Eq, Structural)]
pub struct IllegalCharacterInIdentifier(pub char);

impl View for Identifier {
    type V = Seq<char>;

    closed spec fn view(&self) -> Seq<char> {
        self.0@
    }
}

impl Identifier {
    /// Accepts a non-empty `name` whose every character may stand where it
    /// does. Otherwise reports the first character that may not, or NUL for
    /// the empty name.
    pub fn new(name: String) -> (r: Result<Identifier, IllegalCharacterInIdentifier>)
        ensures
            is_valid_name(name@) <==> r is Ok,
            r matches Ok(id) ==> id@ == name@,
            name@.len() == 0 ==> r == Err::<Identifier, IllegalCharacterInIdentifier>(
                IllegalCharacterInIdentifier('\0'),
            ),
            name@.len() > 0 ==> (r matches Err(IllegalCharacterInIdentifier(c)) ==> exists|i: int|
                0 <= i < name@.len() && name@[i] == c && !char_fits(name@, i) && forall|j: int|
                    0 <= j < i ==> char_fits(name@, j)),
    {
        let n = name.unicode_len();
        if n == 0 {
            return Err(IllegalCharacterInIdentifier('\0'));
        }
        let mut i: usize = 0;
        while i < n
            invariant
                n == name@.len(),
                i <= n,
                forall|j: int| 0 <= j < i ==> char_fits(name@, j),
            decreases n - i,
        {
            let c = name.get_char(i);
            let fits = if i == 0 {
                ('a' <= c && c <= 'z') || ('A' <= c && c <= 'Z') || c == '_'
            } else {
                ('a' <= c && c <= 'z') || ('A' <= c && c <= 'Z') || c == '_' || ('0' <= c && c
                    <= '9')
            };
            if !fits {
                assert(!char_fits(name@, i as int));
                return Err(IllegalCharacterInIdentifier(c));
            }
            i = i + 1;
        }
        Ok(Identifier(name))
    }

    /// A name already known to be valid.
    pub(crate) fn from_valid(name: String) -> (r: Identifier)
        requires
            is_valid_name(name@),
        ensures
            r@ == name@,
    {
        Identifier(name)
    }

    /// The name as a string.
    pub fn as_string(&self) -> (r: &String)
        ensures
            r@ == self@,
    {
        &self.0
    }

    /// A copy of this name.
    pub fn duplicate(&self) -> (r: Identifier)
        ensures
            r@ == self@,
    {
        Identifier(self.0.clone())
    }

    pub fn same_as(&self, other: &Identifier) -> (r: bool)
        ensures
            r == (self@ == other@),
    {
        self.0 == other.0
    }
}

impl PartialEq for Identifier {
    fn eq(&self, other: &Identifier) -> bool {
        self.0 == other.0
    }
}

impl vstd::std_specs::cmp::PartialEqSpecImpl for Identifier {
    open spec fn obeys_eq_spec() -> bool {
        true
    }

    open spec fn eq_spec(&self, other: &Identifier) -> bool {
        self@ == other@
    }
}

impl Eq for Identifier {

}

/// A namespace path: one name, or an outer name in front of a longer path.
#[derive(Debug)]
pub enum FullIdentifier {
    Name(Identifier),
    Namespaced(Identifier, Box<FullIdentifier>),
}

/// Whether `a` is a prefix of `b`, equal sequences included.
pub open spec fn is_prefix<A>(a: Seq<A>, b: Seq<A>) -> bool {
    a.len() <= b.len() && forall|i: int| 0 <= i < a.len() ==> a[i] == b[i]
}

/// The path's names joined by `::`.
pub open spec fn joined(s: Seq<Seq<char>>) -> Seq<char>
    decreases s.len(),
{
    if s.len() <= 1 {
        if s.len() == 1 {
            s[0]
        } else {
            Seq::empty()
        }
    } else {
        s[0] + seq![':', ':'] + joined(s.drop_first())
    }
}

impl FullIdentifier {
    /// The names of the path, outermost first.
    pub open spec fn segments(self) -> Seq<Seq<char>>
        decreases self,
    {
        match self {
            FullIdentifier::Name(n) => seq![n@],
            FullIdentifier::Namespaced(n, rest) => seq![n@] + rest.segments(),
        }
    }

    pub proof fn lemma_segments_nonempty(self)
        ensures
            self.segments().len() >= 1,
    {
    }
}

impl View for FullIdentifier {
    type V = Seq<Seq<char>>;

    open spec fn view(&self) -> Seq<Seq<char>> {
        self.segments()
    }
}

proof fn lemma_prefix_cons<A>(a: A, s: Seq<A>, b: A, t: Seq<A>)
    ensures
        is_prefix(seq![a] + s, seq![b] + t) <==> (a == b && is_prefix(s, t)),
{
    let x = seq![a] + s;
    let y = seq![b] + t;
    if is_prefix(x, y) {
        assert(x[0] == a && y[0] == b);
        assert forall|i: int| 0 <= i < s.len() implies s[i] == t[i] by {
            assert(x[i + 1] == s[i] && y[i + 1] == t[i]);
        }
    }
    if a == b && is_prefix(s, t) {
        assert forall|i: int| 0 <= i < x.len() implies x[i] == y[i] by {
            if i > 0 {
                assert(x[i] == s[i - 1] && y[i] == t[i - 1]);
            }
        }
    }
}

impl FullIdentifier {
    /// The innermost name.
    pub fn get_name(&self) -> (r: &Identifier)
        ensures
            r@ == self@.last(),
        decreases self,
    {
        match self {
            FullIdentifier::Name(name) => name,
            FullIdentifier::Namespaced(_, lower) => {
                proof {
                    lower.lemma_segments_nonempty();
                }
                lower.get_name()
            },
        }
    }

    /// Whether this path is a prefix of `other`, name by name from the
    /// outermost; a path is a prefix of itself.
    pub fn is_sub_identifier_of(&self, other: &FullIdentifier) -> (r: bool)
        ensures
            r == is_prefix(self@, other@),
        decreases self,
    {
        match (self, other) {
            (FullIdentifier::Name(name), FullIdentifier::Name(other_name)) => {
                proof {
                    lemma_prefix_cons(name@, Seq::<Seq<char>>::empty(), other_name@, Seq::empty());
                    assert(self@ =~= seq![name@] + Seq::<Seq<char>>::empty());
                    assert(other@ =~= seq![other_name@] + Seq::<Seq<char>>::empty());
                }
                name.same_as(other_name)
            },
            (FullIdentifier::Namespaced(_, rest), FullIdentifier::Name(_)) => {
                proof {
                    rest.lemma_segments_nonempty();
                }
                false
            },
            (FullIdentifier::Name(name), FullIdentifier::Namespaced(current, rest)) => {
                proof {
                    lemma_prefix_cons(name@, Seq::<Seq<char>>::empty(), current@, rest@);
                    assert(self@ =~= seq![name@] + Seq::<Seq<char>>::empty());
                }
                name.same_as(current)
            },
            (
                FullIdentifier::Namespaced(name, self_next),
                FullIdentifier::Namespaced(other_name, other_next),
            ) => {
                proof {
                    lemma_prefix_cons(name@, self_next@, other_name@, other_next@);
                }
                if name.same_as(other_name) {
                    self_next.is_sub_identifier_of(other_next)
                } else {
                    false
                }
            },
        }
    }

    /// Whether `other` is a prefix of this path.
    pub fn other_is_sub_identifier(&self, other: &FullIdentifier) -> (r: bool)
        ensures
            r == is_prefix(other@, self@),
    {
        other.is_sub_identifier_of(self)
    }

    /// Whether both paths name the same names.
    pub fn same_as(&self, other: &FullIdentifier) -> (r: bool)
        ensures
            r == (self@ == other@),
    {
        let prefix = self.is_sub_identifier_of(other);
        let back = other.is_sub_identifier_of(self);
        proof {
            if prefix && back {
                assert(self@ =~= other@);
            }
        }
        prefix && back
    }

    /// A copy of this path.
    pub fn duplicate(&self) -> (r: FullIdentifier)
        ensures
            r@ == self@,
        decreases self,
    {
        match self {
            FullIdentifier::Name(n) => FullIdentifier::Name(n.duplicate()),
            FullIdentifier::Namespaced(n, rest) => FullIdentifier::Namespaced(
                n.duplicate(),
                Box::new(rest.duplicate()),
            ),
        }
    }

    /// What remains of this path after its first `other@.len()` names.
    fn strip(self, other: &FullIdentifier) -> (r: FullIdentifier)
        requires
            other@.len() < self@.len(),
        ensures
            r@ == self@.subrange(other@.len() as int, self@.len() as int),
        decreases other,
    {
        proof {
            self.lemma_segments_nonempty();
            other.lemma_segments_nonempty();
        }
        match (self, other) {
            (FullIdentifier::Namespaced(n, rest), FullIdentifier::Name(_)) => {
                proof {
                    assert(rest@ =~= (seq![n@] + rest@).subrange(1, 1 + rest@.len() as int));
                }
                *rest
            },
            (FullIdentifier::Namespaced(n, rest), FullIdentifier::Namespaced(o, other_rest)) => {
                let r = (*rest).strip(other_rest);
                proof {
                    let whole = seq![n@] + rest@;
                    assert(whole.subrange(other@.len() as int, whole.len() as int) =~= rest@.subrange(
                        other_rest@.len() as int,
                        rest@.len() as int,
                    ));
                }
                r
            },
            (FullIdentifier::Name(n), _) => {
                FullIdentifier::Name(n)
            },
        }
    }

    /// Strips the prefix `other` from this path. Fails when `other` is not
    /// a prefix; gives `None` when nothing remains.
    pub fn remove(self, other: &FullIdentifier) -> (r: Result<Option<FullIdentifier>, ()>)
        ensures
            !is_prefix(other@, self@) ==> r == Err::<Option<FullIdentifier>, ()>(()),
            is_prefix(other@, self@) && other@ == self@ ==> r == Ok::<
                Option<FullIdentifier>,
                (),
            >(None),
            is_prefix(other@, self@) && other@ != self@ ==> (r matches Ok(Some(rest)) && rest@
                == self@.subrange(other@.len() as int, self@.len() as int)),
    {
        if !other.is_sub_identifier_of(&self) {
            return Err(());
        }
        if self.same_as(other) {
            return Ok(None);
        }
        proof {
            if other@.len() == self@.len() {
                assert(other@ =~= self@);
            }
        }
        Ok(Some(self.strip(other)))
    }

    /// The path written with `::` between its names.
    pub fn to_path_string(&self) -> (r: String)
        ensures
            r@ == joined(self@),
        decreases self,
    {
        match self {
            FullIdentifier::Name(n) => n.as_string().clone(),
            FullIdentifier::Namespaced(n, rest) => {
                let mut s = n.as_string().clone();
                s.append("::");
                let tail = rest.to_path_string();
                s.append(tail.as_str());
                proof {
                    reveal_strlit("::");
                    rest.lemma_segments_nonempty();
                    assert(self@.drop_first() =~= rest@);
                }
                s
            },
        }
    }

    /// The path of the given names, outermost first.
    pub fn from_names(names: Vec<Identifier>) -> (r: FullIdentifier)
        requires
            names@.len() >= 1,
        ensures
            r@ == names@.map_values(|n: Identifier| n@),
    {
        let mut i: usize = names.len() - 1;
        let mut out = FullIdentifier::Name(names[i].duplicate());
        proof {
            assert(out@ =~= names@.map_values(|n: Identifier| n@).subrange(i as int, names@.len() as int));
        }
        while i > 0
            invariant
                i < names@.len(),
                out@ == names@.map_values(|n: Identifier| n@).subrange(
                    i as int,
                    names@.len() as int,
                ),
            decreases i,
        {
            i = i - 1;
            let ghost prev = out@;
            out = FullIdentifier::Namespaced(names[i].duplicate(), Box::new(out));
            proof {
                assert(out@ =~= names@.map_values(|n: Identifier| n@).subrange(
                    i as int,
                    names@.len() as int,
                ));
            }
        }
        proof {
            assert(names@.map_values(|n: Identifier| n@).subrange(0, names@.len() as int)
                =~= names@.map_values(|n: Identifier| n@));
        }
        out
    }
}

impl PartialEq for FullIdentifier {
    fn eq(&self, other: &FullIdentifier) -> bool {
        self.same_as(other)
    }
}

impl vstd::std_specs::cmp::PartialEqSpecImpl for FullIdentifier {
    open spec fn obeys_eq_spec() -> bool {
        true
    }

    open spec fn eq_spec(&self, other: &FullIdentifier) -> bool {
        self@ == other@
    }
}

impl Eq for FullIdentifier {

}

impl Clone for FullIdentifier {
    fn clone(&self) -> FullIdentifier {
        self.duplicate()
    }
}

/// Something that a path names.
pub trait Resolvable {
    fn get_identifier(&self) -> &FullIdentifier;
}

} // verus!
