//! Type descriptors with multiple inheritance, their registry, and typed
//! objects with per-ancestor field data.
use vstd::prelude::*;

use crate::immediate::Immediate;
use crate::resolution::{is_prefix, FullIdentifier, Identifier};
use crate::vm::Fault;

verus! {

/// The data of one type instance: a tuple, named fields, or nothing.
#[derive(Debug, Clone)]
pub enum Variant {
    Tuple(Vec<Immediate>),
    /// Fields in declaration order; the first binding of a name is the one
    /// that counts.
    Structure { order: Vec<Identifier>, fields: Vec<(Identifier, Immediate)> },
    Empty,
}

/// Where a member function comes from.
#[derive(Debug)]
pub enum MemberFunction {
    /// Defined by the type itself, as the function of that handle.
    Owner(usize),
    Unowned,
    /// Inherited from the named ancestor.
    Super(FullIdentifier),
}

/// Static metadata of a type. Parents are handles into the registry that
/// holds the descriptor.
#[derive(Debug)]
pub struct TypeDescriptor {
    pub identifier: FullIdentifier,
    pub is_trait: bool,
    pub is_struct: bool,
    pub is_enum: bool,
    pub is_call: bool,
    /// For each implemented trait, the handles of its overriding functions
    /// in order.
    pub v_tables: Vec<(FullIdentifier, Vec<usize>)>,
    pub parents: Vec<usize>,
    pub parent_data: Vec<(FullIdentifier, Variant)>,
}

/// All descriptors of a program. A descriptor's parents are registered
/// before it, so the parent graph has no cycle.
pub struct TypeRegistry {
    descriptors: Vec<TypeDescriptor>,
}

/// The decimal number spelled by `s`.
pub open spec fn decimal(s: Seq<char>) -> nat
    decreases s.len(),
{
    if s.len() == 0 {
        0
    } else {
        decimal(s.drop_last()) * 10 + (s.last() as nat - '0' as nat) as nat
    }
}

pub open spec fn is_digit(c: char) -> bool {
    '0' <= c && c <= '9'
}

/// The index that a synthetic tuple member name `_N` stands for.
pub open spec fn tuple_index(name: Seq<char>) -> Option<nat> {
    if name.len() >= 2 && name[0] == '_' && forall|i: int| 1 <= i < name.len() ==> is_digit(name[i]) {
        Some(decimal(name.drop_first()))
    } else {
        None
    }
}

/// The position of the first field named `name`, from position `k` on.
pub open spec fn first_field(fields: Seq<(Identifier, Immediate)>, name: Seq<char>, k: int) -> Option<
    int,
>
    decreases fields.len() - k,
{
    if k < 0 || k >= fields.len() {
        None
    } else if fields[k].0@ == name {
        Some(k)
    } else {
        first_field(fields, name, k + 1)
    }
}

/// The value that `name` selects in a variant.
pub open spec fn variant_lookup(v: Variant, name: Seq<char>) -> Option<Immediate> {
    match v {
        Variant::Tuple(items) => match tuple_index(name) {
            Some(i) => if i < items@.len() {
                Some(items@[i as int])
            } else {
                None
            },
            None => None,
        },
        Variant::Structure { order: _, fields } => match first_field(fields@, name, 0) {
            Some(i) => Some(fields@[i].1),
            None => None,
        },
        Variant::Empty => None,
    }
}

/// Whether descriptor `h`, or one of its ancestors, matches `name`; with
/// `traits_only`, only a trait matches.
pub open spec fn descends_from(
    reg: Seq<TypeDescriptor>,
    h: int,
    name: Seq<Seq<char>>,
    traits_only: bool,
) -> bool
    decreases h, 1nat, 0int,
{
    if 0 <= h < reg.len() {
        ||| (reg[h].identifier@ == name && (!traits_only || reg[h].is_trait))
        ||| parents_descend_from(reg, h, name, traits_only, 0)
    } else {
        false
    }
}

/// Whether one of the parents of `h` from position `k` on descends from
/// `name`.
pub open spec fn parents_descend_from(
    reg: Seq<TypeDescriptor>,
    h: int,
    name: Seq<Seq<char>>,
    traits_only: bool,
    k: int,
) -> bool
    decreases h, 0nat, (if 0 <= h < reg.len() {
        reg[h].parents@.len() - k
    } else {
        0
    }),
{
    if 0 <= h < reg.len() && 0 <= k < reg[h].parents@.len() && reg[h].parents@[k] < h {
        ||| descends_from(reg, reg[h].parents@[k] as int, name, traits_only)
        ||| parents_descend_from(reg, h, name, traits_only, k + 1)
    } else {
        false
    }
}

impl TypeRegistry {
    pub closed spec fn view(&self) -> Seq<TypeDescriptor> {
        self.descriptors@
    }

    /// Every parent handle is below the handle of its child.
    pub open spec fn wf(&self) -> bool {
        forall|h: int, k: int|
            0 <= h < self.view().len() && 0 <= k < self.view()[h].parents@.len()
                ==> #[trigger] self.view()[h].parents@[k] < h
    }

    pub fn new() -> (r: TypeRegistry)
        ensures
            r.wf(),
            r.view().len() == 0,
    {
        TypeRegistry { descriptors: Vec::new() }
    }

    pub fn len(&self) -> (r: usize)
        ensures
            r == self.view().len(),
    {
        self.descriptors.len()
    }

    /// Adds a descriptor whose parents are all registered already, and
    /// gives its handle; refuses one with any other parent.
    pub fn register(&mut self, descriptor: TypeDescriptor) -> (r: Option<usize>)
        requires
            old(self).wf(),
        ensures
            final(self).wf(),
            (forall|k: int|
                0 <= k < descriptor.parents@.len() ==> descriptor.parents@[k] < old(self).view().len())
                <==> r is Some,
            r matches Some(h) ==> h == old(self).view().len() && final(self).view() == old(
                self,
            ).view().push(descriptor),
            r is None ==> final(self).view() == old(self).view(),
    {
        let n = self.descriptors.len();
        let mut k: usize = 0;
        while k < descriptor.parents.len()
            invariant
                self.wf(),
                self.view() == old(self).view(),
                n == self.view().len(),
                k <= descriptor.parents@.len(),
                forall|j: int| 0 <= j < k ==> descriptor.parents@[j] < n,
            decreases descriptor.parents.len() - k,
        {
            if descriptor.parents[k] >= n {
                return None;
            }
            k = k + 1;
        }
        self.descriptors.push(descriptor);
        proof {
            assert forall|h: int, k: int|
                0 <= h < self.view().len() && 0 <= k < self.view()[h].parents@.len()
                    implies #[trigger] self.view()[h].parents@[k] < h by {
                if h < n {
                    assert(self.view()[h] == old(self).view()[h]);
                }
            }
        }
        Some(n)
    }

    pub fn get(&self, h: usize) -> (r: &TypeDescriptor)
        requires
            h < self.view().len(),
        ensures
            *r == self.view()[h as int],
    {
        &self.descriptors[h]
    }

    fn descends(&self, h: usize, name: &FullIdentifier, traits_only: bool) -> (r: bool)
        requires
            self.wf(),
            h < self.view().len(),
        ensures
            r == descends_from(self.view(), h as int, name@, traits_only),
        decreases h,
    {
        let d = &self.descriptors[h];
        if d.identifier.same_as(name) && (!traits_only || d.is_trait) {
            return true;
        }
        let mut k: usize = 0;
        while k < d.parents.len()
            invariant
                self.wf(),
                h < self.view().len(),
                *d == self.view()[h as int],
                k <= d.parents@.len(),
                !(d.identifier@ == name@ && (!traits_only || d.is_trait)),
                descends_from(self.view(), h as int, name@, traits_only) == parents_descend_from(
                    self.view(),
                    h as int,
                    name@,
                    traits_only,
                    k as int,
                ),
            decreases d.parents.len() - k,
        {
            let p = d.parents[k];
            assert(self.view()[h as int].parents@[k as int] < h);
            if self.descends(p, name, traits_only) {
                return true;
            }
            k = k + 1;
        }
        false
    }

    /// Whether descriptor `h` or one of its ancestors has the identifier
    /// `name`.
    pub fn is_instance_of(&self, h: usize, name: &FullIdentifier) -> (r: bool)
        requires
            self.wf(),
            h < self.view().len(),
        ensures
            r == descends_from(self.view(), h as int, name@, false),
    {
        self.descends(h, name, false)
    }

    /// Whether descriptor `h` or one of its ancestors is the trait `name`.
    pub fn implements_trait(&self, h: usize, name: &FullIdentifier) -> (r: bool)
        requires
            self.wf(),
            h < self.view().len(),
        ensures
            r == descends_from(self.view(), h as int, name@, true),
    {
        self.descends(h, name, true)
    }
}

/// Every descriptor is an instance of its own identifier.
pub proof fn lemma_instance_of_reflexive(reg: Seq<TypeDescriptor>, h: int)
    requires
        0 <= h < reg.len(),
    ensures
        descends_from(reg, h, reg[h].identifier@, false),
{
}

proof fn lemma_parents_from(
    reg: Seq<TypeDescriptor>,
    h: int,
    name: Seq<Seq<char>>,
    traits_only: bool,
    k: int,
    j: int,
)
    requires
        0 <= h < reg.len(),
        0 <= k <= j < reg[h].parents@.len(),
        forall|i: int| 0 <= i < reg[h].parents@.len() ==> #[trigger] reg[h].parents@[i] < h,
        descends_from(reg, reg[h].parents@[j] as int, name, traits_only),
    ensures
        parents_descend_from(reg, h, name, traits_only, k),
    decreases j - k,
{
    if k < j {
        lemma_parents_from(reg, h, name, traits_only, k + 1, j);
    }
}

/// What a parent descends from, its child descends from too; so an
/// instance of a type is an instance of every ancestor along parent links,
/// and a trait that a parent implements is implemented by the child.
pub proof fn lemma_descends_through_parent(
    reg: Seq<TypeDescriptor>,
    h: int,
    k: int,
    name: Seq<Seq<char>>,
    traits_only: bool,
)
    requires
        0 <= h < reg.len(),
        0 <= k < reg[h].parents@.len(),
        forall|i: int| 0 <= i < reg[h].parents@.len() ==> #[trigger] reg[h].parents@[i] < h,
        descends_from(reg, reg[h].parents@[k] as int, name, traits_only),
    ensures
        descends_from(reg, h, name, traits_only),
{
    lemma_parents_from(reg, h, name, traits_only, 0, k);
}

/// Along a chain `a <- b <- c` of parent links, `c` is an instance of `a`.
pub proof fn lemma_instance_of_chain(reg: Seq<TypeDescriptor>, a: int, b: int, c: int, kb: int, kc: int)
    requires
        0 <= a < b < c < reg.len(),
        forall|h: int, k: int|
            0 <= h < reg.len() && 0 <= k < reg[h].parents@.len() ==> #[trigger] reg[h].parents@[k] < h,
        0 <= kb < reg[b].parents@.len() && reg[b].parents@[kb] == a,
        0 <= kc < reg[c].parents@.len() && reg[c].parents@[kc] == b,
    ensures
        descends_from(reg, c, reg[a].identifier@, false),
{
    assert forall|i: int| 0 <= i < reg[b].parents@.len() implies #[trigger] reg[b].parents@[i] < b by {
        assert(reg[b].parents@[i] < b);
    }
    assert forall|i: int| 0 <= i < reg[c].parents@.len() implies #[trigger] reg[c].parents@[i] < c by {
        assert(reg[c].parents@[i] < c);
    }
    lemma_instance_of_reflexive(reg, a);
    lemma_descends_through_parent(reg, b, kb, reg[a].identifier@, false);
    lemma_descends_through_parent(reg, c, kc, reg[a].identifier@, false);
}

/// A live instance: its own data, the data of each ancestor keyed by the
/// ancestor's path, and the handle of its descriptor.
#[derive(Debug, Clone)]
pub struct TypedObject {
    self_variant: Variant,
    parent_variants: Vec<(FullIdentifier, Variant)>,
    descriptor: usize,
}

/// The first bucket, from position `k` on, whose key is a prefix of `path`.
pub open spec fn first_bucket(
    buckets: Seq<(FullIdentifier, Variant)>,
    path: Seq<Seq<char>>,
    k: int,
) -> Option<int>
    decreases buckets.len() - k,
{
    if k < 0 || k >= buckets.len() {
        None
    } else if is_prefix(buckets[k].0@, path) {
        Some(k)
    } else {
        first_bucket(buckets, path, k + 1)
    }
}

proof fn lemma_first_bucket_found(
    buckets: Seq<(FullIdentifier, Variant)>,
    path: Seq<Seq<char>>,
    k: int,
)
    ensures
        first_bucket(buckets, path, k) matches Some(i) ==> k <= i < buckets.len() && is_prefix(
            buckets[i].0@,
            path,
        ),
    decreases buckets.len() - k,
{
    if 0 <= k < buckets.len() && !is_prefix(buckets[k].0@, path) {
        lemma_first_bucket_found(buckets, path, k + 1);
    }
}

fn parse_tuple_index(name: &String, limit: usize) -> (r: Option<usize>)
    ensures
        r matches Some(i) ==> tuple_index(name@) == Some(i as nat) && i < limit,
        r is None ==> !(tuple_index(name@) matches Some(i) && i < limit),
{
    let n = name.unicode_len();
    if n < 2 || name.get_char(0) != '_' || limit == 0 {
        return None;
    }
    let ghost digits = name@.drop_first();
    let mut value: usize = 0;
    let mut i: usize = 1;
    while i < n
        invariant
            n == name@.len(),
            2 <= n,
            1 <= i <= n,
            digits == name@.drop_first(),
            name@[0] == '_',
            forall|j: int| 1 <= j < i ==> is_digit(name@[j]),
            value as nat == decimal(digits.subrange(0, i - 1)),
            value < limit,
        decreases n - i,
    {
        let c = name.get_char(i);
        if !('0' <= c && c <= '9') {
            return None;
        }
        let d = (c as u32 - '0' as u32) as usize;
        proof {
            let pre = digits.subrange(0, i - 1);
            assert(digits.subrange(0, i as int).drop_last() =~= pre);
            assert(digits.subrange(0, i as int).last() == c);
        }
        if d >= limit || value > (limit - 1 - d) / 10 {
            proof {
                assert(value * 10 + d >= limit) by (nonlinear_arith)
                    requires
                        d >= limit || value > (limit - 1 - d) / 10,
                        limit > 0,
                ;
                lemma_decimal_prefix_le(digits, i as int);
            }
            return None;
        }
        proof {
            assert(value * 10 + d < limit) by (nonlinear_arith)
                requires
                    d < limit,
                    value <= (limit - 1 - d) / 10,
            ;
        }
        value = value * 10 + d;
        i = i + 1;
    }
    proof {
        assert(digits.subrange(0, n - 1) =~= digits);
    }
    Some(value)
}

/// A number spelled by a prefix of the digits is at most the whole number.
proof fn lemma_decimal_prefix_le(s: Seq<char>, k: int)
    requires
        0 <= k <= s.len(),
    ensures
        decimal(s.subrange(0, k)) <= decimal(s),
    decreases s.len() - k,
{
    if k < s.len() {
        lemma_decimal_prefix_le(s, k + 1);
        assert(s.subrange(0, k + 1).drop_last() =~= s.subrange(0, k));
    } else {
        assert(s.subrange(0, k) =~= s);
    }
}

fn field_index(fields: &Vec<(Identifier, Immediate)>, name: &Identifier) -> (r: Option<usize>)
    ensures
        r matches Some(i) ==> first_field(fields@, name@, 0) == Some(i as int),
        r is None ==> first_field(fields@, name@, 0) is None,
{
    let mut i: usize = 0;
    while i < fields.len()
        invariant
            i <= fields@.len(),
            first_field(fields@, name@, 0) == first_field(fields@, name@, i as int),
        decreases fields.len() - i,
    {
        if fields[i].0.same_as(name) {
            return Some(i);
        }
        i = i + 1;
    }
    None
}

proof fn lemma_first_field_found(fields: Seq<(Identifier, Immediate)>, name: Seq<char>, k: int)
    ensures
        first_field(fields, name, k) matches Some(i) ==> k <= i < fields.len(),
    decreases fields.len() - k,
{
    if 0 <= k < fields.len() && fields[k].0@ != name {
        lemma_first_field_found(fields, name, k + 1);
    }
}

/// `new` is `old` with the member that `name` selects set to `value`, and
/// nothing else changed.
pub open spec fn variant_updated(old: Variant, new: Variant, name: Seq<char>, value: Immediate) -> bool {
    match (old, new) {
        (Variant::Tuple(a), Variant::Tuple(b)) => match tuple_index(name) {
            Some(i) => i < a@.len() && b@ == a@.update(i as int, value),
            None => false,
        },
        (Variant::Structure { order: o1, fields: f1 }, Variant::Structure { order: o2, fields: f2 }) => {
            match first_field(f1@, name, 0) {
                Some(k) => {
                    &&& o2@.len() == o1@.len()
                    &&& forall|j: int| 0 <= j < o1@.len() ==> (#[trigger] o2@[j])@ == o1@[j]@
                    &&& f2@.len() == f1@.len()
                    &&& forall|j: int|
                        0 <= j < f1@.len() ==> (#[trigger] f2@[j]).0@ == f1@[j].0@ && f2@[j].1 == (
                        if j == k {
                            value
                        } else {
                            f1@[j].1
                        })
                },
                None => false,
            }
        },
        _ => false,
    }
}

fn structure_lookup(fields: &Vec<(Identifier, Immediate)>, name: &Identifier) -> (r: Option<Immediate>)
    ensures
        r == match first_field(fields@, name@, 0) {
            Some(i) => Some(fields@[i].1),
            None => None::<Immediate>,
        },
{
    let mut i: usize = 0;
    while i < fields.len()
        invariant
            i <= fields@.len(),
            first_field(fields@, name@, 0) == first_field(fields@, name@, i as int),
        decreases fields.len() - i,
    {
        if fields[i].0.same_as(name) {
            return Some(fields[i].1);
        }
        i = i + 1;
    }
    None
}

/// The synthetic member names `_0`, `_1`, ... of tuples.
pub struct TupleMember;

impl TupleMember {
    /// The index that a member name `_N` stands for, when it fits a `usize`.
    pub fn unsimplified(&self, output: &Identifier) -> (r: Option<usize>)
        ensures
            r matches Some(i) ==> tuple_index(output@) == Some(i as nat),
            r is None ==> !(tuple_index(output@) matches Some(i) && i < usize::MAX),
    {
        parse_tuple_index(output.as_string(), usize::MAX)
    }
}

impl Variant {
    /// This variant with the member that `name` selects set to `value`, or
    /// `None` when `name` selects nothing.
    pub fn with_member(&self, name: &Identifier, value: Immediate) -> (r: Option<Variant>)
        ensures
            r is Some <==> variant_lookup(*self, name@) is Some,
            r matches Some(n) ==> variant_updated(*self, n, name@, value),
    {
        match self {
            Variant::Tuple(items) => {
                match parse_tuple_index(name.as_string(), items.len()) {
                    Some(i) => {
                        let mut out: Vec<Immediate> = Vec::new();
                        let mut j: usize = 0;
                        while j < items.len()
                            invariant
                                j <= items@.len(),
                                i < items@.len(),
                                out@ == items@.update(i as int, value).subrange(0, j as int),
                            decreases items.len() - j,
                        {
                            if j == i {
                                out.push(value);
                            } else {
                                out.push(items[j]);
                            }
                            j = j + 1;
                            assert(out@ =~= items@.update(i as int, value).subrange(0, j as int));
                        }
                        assert(out@ =~= items@.update(i as int, value));
                        Some(Variant::Tuple(out))
                    },
                    None => None,
                }
            },
            Variant::Structure { order, fields } => {
                match field_index(fields, name) {
                    Some(k) => {
                        proof {
                            lemma_first_field_found(fields@, name@, 0);
                        }
                        let mut new_order: Vec<Identifier> = Vec::new();
                        let mut j: usize = 0;
                        while j < order.len()
                            invariant
                                j <= order@.len(),
                                new_order@.len() == j,
                                forall|m: int| 0 <= m < j ==> (#[trigger] new_order@[m])@ == order@[m]@,
                            decreases order.len() - j,
                        {
                            new_order.push(order[j].duplicate());
                            j = j + 1;
                        }
                        let mut new_fields: Vec<(Identifier, Immediate)> = Vec::new();
                        let mut j: usize = 0;
                        while j < fields.len()
                            invariant
                                j <= fields@.len(),
                                k < fields@.len(),
                                new_fields@.len() == j,
                                forall|m: int|
                                    0 <= m < j ==> (#[trigger] new_fields@[m]).0@ == fields@[m].0@
                                        && new_fields@[m].1 == (if m == k {
                                        value
                                    } else {
                                        fields@[m].1
                                    }),
                            decreases fields.len() - j,
                        {
                            let v = if j == k {
                                value
                            } else {
                                fields[j].1
                            };
                            new_fields.push((fields[j].0.duplicate(), v));
                            j = j + 1;
                        }
                        Some(Variant::Structure { order: new_order, fields: new_fields })
                    },
                    None => None,
                }
            },
            Variant::Empty => None,
        }
    }

    /// The value that `name` selects: a tuple member by its `_N` name, or a
    /// structure field by its name.
    pub fn lookup(&self, name: &Identifier) -> (r: Option<Immediate>)
        ensures
            r == variant_lookup(*self, name@),
    {
        match self {
            Variant::Tuple(items) => {
                match parse_tuple_index(name.as_string(), items.len()) {
                    Some(i) => Some(items[i]),
                    None => None,
                }
            },
            Variant::Structure { order: _, fields } => structure_lookup(fields, name),
            Variant::Empty => None,
        }
    }
}

/// The value that `path` selects in an object of descriptor identifier
/// `own`: its own name selects the field named like the type; a single name
/// selects from the object's own data; a longer path selects, in the first
/// ancestor bucket whose key is a prefix of it, the field that the rest of
/// the path names.
pub open spec fn object_field(
    own: Seq<Seq<char>>,
    self_variant: Variant,
    buckets: Seq<(FullIdentifier, Variant)>,
    path: Seq<Seq<char>>,
) -> Option<Immediate> {
    if path == own {
        variant_lookup(self_variant, own.last())
    } else if path.len() == 1 {
        variant_lookup(self_variant, path[0])
    } else {
        match first_bucket(buckets, path, 0) {
            Some(b) => {
                let key = buckets[b].0@;
                if path.len() == key.len() + 1 {
                    variant_lookup(buckets[b].1, path.last())
                } else {
                    None
                }
            },
            None => None,
        }
    }
}

/// Where `path` points in an object of descriptor identifier `own`: the
/// object's own data (`None`) or an ancestor bucket, and the member name
/// within it; `None` when it points nowhere. `object_field` reads there.
pub open spec fn object_target(
    own: Seq<Seq<char>>,
    buckets: Seq<(FullIdentifier, Variant)>,
    path: Seq<Seq<char>>,
) -> Option<(Option<int>, Seq<char>)> {
    if path == own {
        Some((None, own.last()))
    } else if path.len() == 1 {
        Some((None, path[0]))
    } else {
        match first_bucket(buckets, path, 0) {
            Some(b) => if path.len() == buckets[b].0@.len() + 1 {
                Some((Some(b), path.last()))
            } else {
                None
            },
            None => None,
        }
    }
}

/// Reading a field is reading the member at the place its path points to.
pub proof fn lemma_object_field_at_target(
    own: Seq<Seq<char>>,
    self_variant: Variant,
    buckets: Seq<(FullIdentifier, Variant)>,
    path: Seq<Seq<char>>,
)
    ensures
        object_field(own, self_variant, buckets, path) == match object_target(own, buckets, path) {
            Some((None, n)) => variant_lookup(self_variant, n),
            Some((Some(b), n)) => variant_lookup(buckets[b].1, n),
            None => None,
        },
{
}

impl TypedObject {
    pub fn new(
        self_variant: Variant,
        parent_variants: Vec<(FullIdentifier, Variant)>,
        descriptor: usize,
    ) -> (r: TypedObject)
        ensures
            r.self_variant() == self_variant,
            r.parent_variants() == parent_variants@,
            r.descriptor() == descriptor,
    {
        TypedObject { self_variant, parent_variants, descriptor }
    }

    pub closed spec fn self_variant(&self) -> Variant {
        self.self_variant
    }

    pub closed spec fn parent_variants(&self) -> Seq<(FullIdentifier, Variant)> {
        self.parent_variants@
    }

    pub closed spec fn descriptor(&self) -> usize {
        self.descriptor
    }

    pub fn get_self_variant(&self) -> (r: &Variant)
        ensures
            *r == self.self_variant(),
    {
        &self.self_variant
    }

    /// The data stored for the ancestor `parent`, if the object has any.
    pub fn get_parent_variant(&self, parent: &FullIdentifier) -> (r: Option<&Variant>)
        ensures
            r matches Some(v) ==> exists|i: int|
                0 <= i < self.parent_variants().len() && self.parent_variants()[i].0@ == parent@
                    && *v == self.parent_variants()[i].1,
            r is None ==> forall|i: int|
                0 <= i < self.parent_variants().len() ==> self.parent_variants()[i].0@ != parent@,
    {
        let mut i: usize = 0;
        while i < self.parent_variants.len()
            invariant
                i <= self.parent_variants@.len(),
                forall|j: int| 0 <= j < i ==> self.parent_variants@[j].0@ != parent@,
            decreases self.parent_variants.len() - i,
        {
            if self.parent_variants[i].0.same_as(parent) {
                let v = &self.parent_variants[i].1;
                assert(self.parent_variants()[i as int].0@ == parent@ && *v
                    == self.parent_variants()[i as int].1);
                return Some(v);
            }
            i = i + 1;
        }
        None
    }

    pub fn get_descriptor(&self) -> (r: usize)
        ensures
            r == self.descriptor(),
    {
        self.descriptor
    }

    fn first_bucket_index(&self, path: &FullIdentifier) -> (r: Option<usize>)
        ensures
            r matches Some(i) ==> first_bucket(self.parent_variants(), path@, 0) == Some(i as int),
            r is None ==> first_bucket(self.parent_variants(), path@, 0) is None,
            r matches Some(i) ==> i < self.parent_variants().len(),
    {
        let mut i: usize = 0;
        while i < self.parent_variants.len()
            invariant
                i <= self.parent_variants@.len(),
                first_bucket(self.parent_variants(), path@, 0) == first_bucket(
                    self.parent_variants(),
                    path@,
                    i as int,
                ),
            decreases self.parent_variants.len() - i,
        {
            if self.parent_variants[i].0.is_sub_identifier_of(path) {
                return Some(i);
            }
            i = i + 1;
        }
        None
    }

    /// The field that a path of two or more names selects in the first
    /// ancestor bucket whose key is a prefix of it.
    fn ancestor_field(&self, identifier: &FullIdentifier) -> (r: Option<Immediate>)
        requires
            identifier@.len() >= 2,
        ensures
            r == match first_bucket(self.parent_variants(), identifier@, 0) {
                Some(b) => {
                    let key = self.parent_variants()[b].0@;
                    if identifier@.len() == key.len() + 1 {
                        variant_lookup(self.parent_variants()[b].1, identifier@.last())
                    } else {
                        None
                    }
                },
                None => None,
            },
    {
        let b = match self.first_bucket_index(identifier) {
            None => {
                return None;
            },
            Some(b) => b,
        };
        let key = &self.parent_variants[b].0;
        let bucket = &self.parent_variants[b].1;
        let ghost path = identifier@;
        let ghost key_path = key@;
        proof {
            lemma_first_bucket_found(self.parent_variants(), path, 0);
        }
        assert(is_prefix(key_path, path));
        let copy = identifier.duplicate();
        let tail = copy.remove(key);
        match tail {
            Ok(Some(rest)) => {
                let ghost t = path.subrange(key_path.len() as int, path.len() as int);
                assert(rest@ == t);
                match rest {
                    FullIdentifier::Name(field) => {
                        proof {
                            assert(t =~= seq![field@]);
                            assert(path.len() == key_path.len() + 1);
                            assert(path.last() == t[0]);
                        }
                        bucket.lookup(&field)
                    },
                    FullIdentifier::Namespaced(_, more) => {
                        proof {
                            more.lemma_segments_nonempty();
                        }
                        None
                    },
                }
            },
            _ => {
                proof {
                    if key_path.len() + 1 == path.len() {
                        assert(key_path != path);
                    }
                }
                None
            },
        }
    }

    /// Where a path of two or more names points among the ancestor buckets.
    fn ancestor_target(&self, identifier: &FullIdentifier) -> (r: Option<(usize, Identifier)>)
        requires
            identifier@.len() >= 2,
        ensures
            r matches Some((b, n)) ==> first_bucket(self.parent_variants(), identifier@, 0) == Some(
                b as int,
            ) && identifier@.len() == self.parent_variants()[b as int].0@.len() + 1 && n@
                == identifier@.last() && b < self.parent_variants().len(),
            r is None ==> !(first_bucket(self.parent_variants(), identifier@, 0) matches Some(b)
                && identifier@.len() == self.parent_variants()[b].0@.len() + 1),
    {
        let b = match self.first_bucket_index(identifier) {
            None => {
                return None;
            },
            Some(b) => b,
        };
        let key = &self.parent_variants[b].0;
        let ghost path = identifier@;
        let ghost key_path = key@;
        proof {
            lemma_first_bucket_found(self.parent_variants(), path, 0);
        }
        assert(is_prefix(key_path, path));
        let copy = identifier.duplicate();
        let tail = copy.remove(key);
        match tail {
            Ok(Some(rest)) => {
                let ghost t = path.subrange(key_path.len() as int, path.len() as int);
                assert(rest@ == t);
                match rest {
                    FullIdentifier::Name(field) => {
                        proof {
                            assert(t =~= seq![field@]);
                            assert(path.last() == t[0]);
                        }
                        Some((b, field))
                    },
                    FullIdentifier::Namespaced(_, more) => {
                        proof {
                            more.lemma_segments_nonempty();
                        }
                        None
                    },
                }
            },
            _ => {
                proof {
                    if key_path.len() + 1 == path.len() {
                        assert(key_path != path);
                    }
                }
                None
            },
        }
    }

    /// Where `identifier` points in this object.
    fn locate(&self, registry: &TypeRegistry, identifier: &FullIdentifier) -> (r: Option<
        (Option<usize>, Identifier),
    >)
        requires
            self.descriptor() < registry.view().len(),
        ensures
            ({
                let t = object_target(
                    registry.view()[self.descriptor() as int].identifier@,
                    self.parent_variants(),
                    identifier@,
                );
                &&& r is None <==> t is None
                &&& r matches Some((None, n)) ==> t matches Some((None, m)) && n@ == m
                &&& r matches Some((Some(b), n)) ==> t matches Some((Some(c), m)) && c == b as int
                    && n@ == m && b < self.parent_variants().len()
            }),
    {
        let own = &registry.get(self.descriptor).identifier;
        if identifier.same_as(own) {
            return Some((None, own.get_name().duplicate()));
        }
        match identifier {
            FullIdentifier::Name(inner) => {
                proof {
                    assert(identifier@ =~= seq![inner@]);
                }
                Some((None, inner.duplicate()))
            },
            FullIdentifier::Namespaced(_, rest) => {
                proof {
                    rest.lemma_segments_nonempty();
                }
                match self.ancestor_target(identifier) {
                    Some((b, n)) => Some((Some(b), n)),
                    None => None,
                }
            },
        }
    }

    /// Sets the field that `identifier` names to `value`, or gives
    /// `InvalidField` and changes nothing.
    pub fn set_field(&mut self, registry: &TypeRegistry, identifier: &FullIdentifier, value: Immediate) -> (r:
        Result<(), Fault>)
        requires
            old(self).descriptor() < registry.view().len(),
        ensures
            final(self).descriptor() == old(self).descriptor(),
            match object_target(
                registry.view()[old(self).descriptor() as int].identifier@,
                old(self).parent_variants(),
                identifier@,
            ) {
                Some((None, n)) => if variant_lookup(old(self).self_variant(), n) is Some {
                    &&& r == Ok::<(), Fault>(())
                    &&& variant_updated(old(self).self_variant(), final(self).self_variant(), n, value)
                    &&& final(self).parent_variants() == old(self).parent_variants()
                } else {
                    r == Err::<(), Fault>(Fault::InvalidField) && *final(self) == *old(self)
                },
                Some((Some(b), n)) => if variant_lookup(old(self).parent_variants()[b].1, n) is Some {
                    &&& r == Ok::<(), Fault>(())
                    &&& variant_updated(
                        old(self).parent_variants()[b].1,
                        final(self).parent_variants()[b].1,
                        n,
                        value,
                    )
                    &&& final(self).parent_variants()[b].0@ == old(self).parent_variants()[b].0@
                    &&& final(self).parent_variants().len() == old(self).parent_variants().len()
                    &&& forall|j: int|
                        0 <= j < old(self).parent_variants().len() && j != b
                            ==> #[trigger] final(self).parent_variants()[j] == old(
                            self,
                        ).parent_variants()[j]
                    &&& final(self).self_variant() == old(self).self_variant()
                } else {
                    r == Err::<(), Fault>(Fault::InvalidField) && *final(self) == *old(self)
                },
                None => r == Err::<(), Fault>(Fault::InvalidField) && *final(self) == *old(self),
            },
    {
        match self.locate(registry, identifier) {
            None => Err(Fault::InvalidField),
            Some((None, name)) => match self.self_variant.with_member(&name, value) {
                Some(updated) => {
                    self.self_variant = updated;
                    Ok(())
                },
                None => Err(Fault::InvalidField),
            },
            Some((Some(b), name)) => match self.parent_variants[b].1.with_member(&name, value) {
                Some(updated) => {
                    let key = self.parent_variants[b].0.duplicate();
                    self.parent_variants.set(b, (key, updated));
                    Ok(())
                },
                None => Err(Fault::InvalidField),
            },
        }
    }

    /// The field that `identifier` names, or `InvalidField`.
    pub fn get_field(&self, registry: &TypeRegistry, identifier: &FullIdentifier) -> (r: Result<
        Immediate,
        Fault,
    >)
        requires
            self.descriptor() < registry.view().len(),
        ensures
            r == match object_field(
                registry.view()[self.descriptor() as int].identifier@,
                self.self_variant(),
                self.parent_variants(),
                identifier@,
            ) {
                Some(v) => Ok(v),
                None => Err(Fault::InvalidField),
            },
    {
        let own = &registry.get(self.descriptor).identifier;
        let found = if identifier.same_as(own) {
            self.self_variant.lookup(own.get_name())
        } else {
            match identifier {
                FullIdentifier::Name(inner) => self.self_variant.lookup(inner),
                FullIdentifier::Namespaced(_, rest) => {
                    proof {
                        rest.lemma_segments_nonempty();
                    }
                    self.ancestor_field(identifier)
                },
            }
        };
        match found {
            Some(v) => Ok(v),
            None => Err(Fault::InvalidField),
        }
    }
}

} // verus!
