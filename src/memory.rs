//! Static bindings, the stack of local scopes over an arena of slots, the
//! heap, and the collector that returns unreferenced slots to the free list.
use vstd::prelude::*;

use crate::immediate::{Address, Immediate};
use crate::vm::Fault;

verus! {

/// Where a declared variable lives.
#[derive(Debug, Clone, Copy, PartialEq, Eq, Structural)]
pub enum Scope {
    Global,
    Local,
}

/// The position of the first entry named `name`, from position `k` on.
pub open spec fn find_key<V>(entries: Seq<(String, V)>, name: Seq<char>, k: int) -> Option<int>
    decreases entries.len() - k,
{
    if k < 0 || k >= entries.len() {
        None
    } else if entries[k].0@ == name {
        Some(k)
    } else {
        find_key(entries, name, k + 1)
    }
}

pub proof fn lemma_find_key_range<V>(entries: Seq<(String, V)>, name: Seq<char>, k: int)
    requires
        0 <= k,
    ensures
        find_key(entries, name, k) matches Some(i) ==> k <= i < entries.len() && entries[i].0@
            == name,
        find_key(entries, name, k) is None ==> forall|i: int|
            k <= i < entries.len() ==> entries[i].0@ != name,
    decreases entries.len() - k,
{
    if 0 <= k < entries.len() && entries[k].0@ != name {
        lemma_find_key_range(entries, name, k + 1);
    }
}

/// Looking `name` up after the entry at `i` changed its value but kept its
/// name finds what it found before.
proof fn lemma_find_key_update<V>(
    entries: Seq<(String, V)>,
    name: Seq<char>,
    k: int,
    i: int,
    key: String,
    v: V,
)
    requires
        0 <= i < entries.len(),
        key@ == entries[i].0@,
    ensures
        find_key(entries.update(i, (key, v)), name, k) == find_key(entries, name, k),
    decreases entries.len() - k,
{
    let u = entries.update(i, (key, v));
    if 0 <= k < entries.len() {
        assert(u[k].0@ == entries[k].0@);
        if entries[k].0@ != name {
            lemma_find_key_update(entries, name, k + 1, i, key, v);
        }
    }
}

/// Appending an entry changes no lookup that already succeeded, and makes a
/// failed lookup of its own name find it.
proof fn lemma_find_key_push<V>(entries: Seq<(String, V)>, e: (String, V), name: Seq<char>, k: int)
    requires
        0 <= k <= entries.len(),
    ensures
        find_key(entries.push(e), name, k) == match find_key(entries, name, k) {
            Some(i) => Some(i),
            None => if e.0@ == name {
                Some(entries.len() as int)
            } else {
                None
            },
        },
    decreases entries.len() - k,
{
    let p = entries.push(e);
    if k < entries.len() {
        assert(p[k] == entries[k]);
        if entries[k].0@ != name {
            lemma_find_key_push(entries, e, name, k + 1);
        }
    } else {
        assert(p[k] == e);
        assert(find_key(p, name, k + 1) is None);
    }
}

/// Whether some frame binds a name to slot `i`.
pub open spec fn is_referenced(frames: Seq<Seq<(String, usize)>>, i: int) -> bool {
    exists|f: int, k: int|
        0 <= f < frames.len() && 0 <= k < frames[f].len() && #[trigger] frames[f][k].1 == i
}

/// The slots below `n` that no frame references, in increasing order.
pub open spec fn unreferenced_below(frames: Seq<Seq<(String, usize)>>, n: int) -> Seq<usize>
    decreases n,
{
    if n <= 0 {
        Seq::empty()
    } else if is_referenced(frames, n - 1) {
        unreferenced_below(frames, n - 1)
    } else {
        unreferenced_below(frames, n - 1).push((n - 1) as usize)
    }
}

/// The collector's free list holds exactly the slots below `n` that no
/// frame references, each once, in increasing order.
pub proof fn lemma_unreferenced_below(frames: Seq<Seq<(String, usize)>>, n: int)
    requires
        0 <= n <= usize::MAX + 1,
    ensures
        forall|i: int|
            0 <= i < n && !is_referenced(frames, i) <==> unreferenced_below(frames, n).contains(
                i as usize,
            ) && 0 <= i < n,
        forall|j: int, k: int|
            0 <= j < k < unreferenced_below(frames, n).len() ==> unreferenced_below(frames, n)[j]
                < unreferenced_below(frames, n)[k],
        forall|j: int|
            0 <= j < unreferenced_below(frames, n).len() ==> unreferenced_below(frames, n)[j] < n,
    decreases n,
{
    if n > 0 {
        lemma_unreferenced_below(frames, n - 1);
        let prev = unreferenced_below(frames, n - 1);
        let cur = unreferenced_below(frames, n);
        assert forall|i: int|
            0 <= i < n && !is_referenced(frames, i) <==> cur.contains(i as usize) && 0 <= i < n by {
            if 0 <= i < n {
                if i < n - 1 {
                    if cur.contains(i as usize) && !prev.contains(i as usize) {
                        let w = choose|w: int| 0 <= w < cur.len() && cur[w] == i as usize;
                        assert(w == prev.len());
                    }
                    if prev.contains(i as usize) {
                        let w = choose|w: int| 0 <= w < prev.len() && prev[w] == i as usize;
                        assert(cur[w] == i as usize);
                    }
                } else {
                    if !is_referenced(frames, i) {
                        assert(cur[cur.len() - 1] == i as usize);
                    }
                    if cur.contains(i as usize) && is_referenced(frames, i) {
                        let w = choose|w: int| 0 <= w < cur.len() && cur[w] == i as usize;
                        assert(prev[w] < n - 1);
                    }
                }
            }
        }
    }
}

/// The variable storage of the machine.
pub struct Memory {
    statics: Vec<(String, Option<Immediate>)>,
    memory: Vec<Option<Immediate>>,
    free_list: Vec<usize>,
    local_scope_stack: Vec<Vec<(String, usize)>>,
    heap: Vec<Immediate>,
}

proof fn lemma_free_list_kept(a: &Memory, b: &Memory)
    requires
        a.wf(),
        b.free_list() == a.free_list(),
        a.arena().len() <= b.arena().len(),
    ensures
        forall|i: int| 0 <= i < b.free_list().len() ==> (#[trigger] b.free_list()[i]) < b.arena().len(),
{
    assert forall|i: int| 0 <= i < b.free_list().len() implies (#[trigger] b.free_list()[i])
        < b.arena().len() by {
        assert(a.free_list()[i] < a.arena().len());
    }
}

proof fn lemma_wf_kept(a: &Memory, b: &Memory)
    requires
        a.wf(),
        b.frames() == a.frames(),
        a.arena().len() <= b.arena().len(),
        b.free_list() == a.free_list() || (a.free_list().len() > 0 && b.free_list()
            == a.free_list().drop_last()),
    ensures
        b.wf(),
{
    assert forall|i: int| 0 <= i < b.free_list().len() implies (#[trigger] b.free_list()[i])
        < b.arena().len() by {
        assert(b.free_list()[i] == a.free_list()[i]);
        assert(a.free_list()[i] < a.arena().len());
    }
    assert forall|f: int, k: int|
        0 <= f < b.frames().len() && 0 <= k < b.frames()[f].len() implies (
        #[trigger] b.frames()[f][k]).1 < b.arena().len() by {
        assert(a.frames()[f][k].1 < a.arena().len());
    }
}

impl Memory {
    pub closed spec fn statics(&self) -> Seq<(String, Option<Immediate>)> {
        self.statics@
    }

    pub closed spec fn arena(&self) -> Seq<Option<Immediate>> {
        self.memory@
    }

    pub closed spec fn free_list(&self) -> Seq<usize> {
        self.free_list@
    }

    /// The scope frames, outermost first.
    pub closed spec fn frames(&self) -> Seq<Seq<(String, usize)>> {
        self.local_scope_stack@.map_values(|f: Vec<(String, usize)>| f@)
    }

    pub closed spec fn heap(&self) -> Seq<Immediate> {
        self.heap@
    }

    pub open spec fn top(&self) -> Seq<(String, usize)> {
        self.frames().last()
    }

    /// At least one frame; every bound or free slot lies in the arena.
    pub open spec fn wf(&self) -> bool {
        &&& self.frames().len() >= 1
        &&& forall|f: int, k: int|
            0 <= f < self.frames().len() && 0 <= k < self.frames()[f].len() ==> (#[trigger] self.frames()[f][k]).1
                < self.arena().len()
        &&& forall|i: int| 0 <= i < self.free_list().len() ==> (#[trigger] self.free_list()[i]) < self.arena().len()
    }

    /// The slot that `name` is bound to in the current frame.
    pub open spec fn local_slot(&self, name: Seq<char>) -> Option<usize> {
        match find_key(self.top(), name, 0) {
            Some(k) => Some(self.top()[k].1),
            None => None,
        }
    }

    /// What reading `name` gives: the current frame first, then the statics.
    pub open spec fn spec_get(&self, name: String) -> Result<Immediate, Fault> {
        match self.local_slot(name@) {
            Some(pos) => match self.arena()[pos as int] {
                Some(v) => Ok(v),
                None => Err(Fault::SegmentationFault),
            },
            None => match find_key(self.statics(), name@, 0) {
                Some(i) => match self.statics()[i].1 {
                    Some(v) => Ok(v),
                    None => Err(Fault::SegmentationFault),
                },
                None => Err(Fault::NotAVariable(name)),
            },
        }
    }

    /// Where `name` is stored, if it holds a value.
    pub open spec fn spec_address_of(&self, name: String) -> Result<Address, Fault> {
        match self.local_slot(name@) {
            Some(pos) => match self.arena()[pos as int] {
                Some(_) => Ok(Address::Slot(pos)),
                None => Err(Fault::SegmentationFault),
            },
            None => match find_key(self.statics(), name@, 0) {
                Some(i) => match self.statics()[i].1 {
                    Some(_) => Ok(Address::Static(i as usize)),
                    None => Err(Fault::SegmentationFault),
                },
                None => Err(Fault::NotAVariable(name)),
            },
        }
    }

    /// What a pointer to `a` reads.
    pub open spec fn spec_read(&self, a: Address) -> Result<Immediate, Fault> {
        match a {
            Address::Slot(p) => if p < self.arena().len() && self.arena()[p as int] is Some {
                Ok(self.arena()[p as int]->0)
            } else {
                Err(Fault::SegmentationFault)
            },
            Address::Static(i) => if i < self.statics().len() && self.statics()[i as int].1 is Some {
                Ok(self.statics()[i as int].1->0)
            } else {
                Err(Fault::SegmentationFault)
            },
            Address::Heap(h) => if h < self.heap().len() {
                Ok(self.heap()[h as int])
            } else {
                Err(Fault::SegmentationFault)
            },
        }
    }

    /// No statics, no slots, one empty frame, an empty heap.
    pub fn new() -> (r: Memory)
        ensures
            r.wf(),
            r.statics().len() == 0,
            r.arena().len() == 0,
            r.free_list().len() == 0,
            r.frames() == seq![Seq::<(String, usize)>::empty()],
            r.heap().len() == 0,
    {
        let mut stack: Vec<Vec<(String, usize)>> = Vec::new();
        stack.push(Vec::new());
        let r = Memory {
            statics: Vec::new(),
            memory: Vec::new(),
            free_list: Vec::new(),
            local_scope_stack: stack,
            heap: Vec::new(),
        };
        proof {
            assert(r.frames() =~= seq![Seq::<(String, usize)>::empty()]);
        }
        r
    }

    fn top_index(&self) -> (r: usize)
        requires
            self.wf(),
        ensures
            r as int == self.frames().len() - 1,
    {
        self.local_scope_stack.len() - 1
    }

    /// The position of `name` in the current frame.
    fn find_local(&self, name: &String) -> (r: Option<usize>)
        requires
            self.wf(),
        ensures
            r matches Some(k) ==> find_key(self.top(), name@, 0) == Some(k as int) && k
                < self.top().len() && self.top()[k as int].0@ == name@,
            r is None ==> find_key(self.top(), name@, 0) is None,
    {
        let t = self.top_index();
        let frame = &self.local_scope_stack[t];
        assert(frame@ == self.top());
        let mut k: usize = 0;
        while k < frame.len()
            invariant
                frame@ == self.top(),
                k <= frame@.len(),
                find_key(frame@, name@, 0) == find_key(frame@, name@, k as int),
            decreases frame.len() - k,
        {
            if frame[k].0 == *name {
                return Some(k);
            }
            k = k + 1;
        }
        None
    }

    /// The position of `name` among the statics.
    fn find_static(&self, name: &String) -> (r: Option<usize>)
        ensures
            r matches Some(k) ==> find_key(self.statics(), name@, 0) == Some(k as int) && k
                < self.statics().len() && self.statics()[k as int].0@ == name@,
            r is None ==> find_key(self.statics(), name@, 0) is None,
    {
        let mut k: usize = 0;
        while k < self.statics.len()
            invariant
                k <= self.statics@.len(),
                find_key(self.statics(), name@, 0) == find_key(self.statics(), name@, k as int),
            decreases self.statics.len() - k,
        {
            if self.statics[k].0 == *name {
                return Some(k);
            }
            k = k + 1;
        }
        None
    }

    /// Pushes a copy of the current frame: a nested block sees the
    /// enclosing block's locals.
    pub fn new_lower_scope(&mut self)
        requires
            old(self).wf(),
        ensures
            final(self).wf(),
            final(self).frames() == old(self).frames().push(old(self).top()),
            final(self).arena() == old(self).arena(),
            final(self).statics() == old(self).statics(),
            final(self).free_list() == old(self).free_list(),
            final(self).heap() == old(self).heap(),
    {
        let t = self.top_index();
        let mut copy: Vec<(String, usize)> = Vec::new();
        let mut k: usize = 0;
        let n = self.local_scope_stack[t].len();
        while k < n
            invariant
                self == old(self),
                t as int == self.frames().len() - 1,
                n == self.top().len(),
                k <= n,
                copy@.len() == k,
                forall|j: int| 0 <= j < k ==> copy@[j] == #[trigger] self.top()[j],
            decreases n - k,
        {
            let entry = (self.local_scope_stack[t][k].0.clone(), self.local_scope_stack[t][k].1);
            copy.push(entry);
            k = k + 1;
        }
        assert(copy@ =~= self.top());
        self.local_scope_stack.push(copy);
        proof {
            assert(self.frames() =~= old(self).frames().push(old(self).top()));
            lemma_free_list_kept(old(self), self);
            assert forall|f: int, k: int|
                0 <= f < self.frames().len() && 0 <= k < self.frames()[f].len() implies (
                #[trigger] self.frames()[f][k]).1 < self.arena().len() by {
                if f < old(self).frames().len() {
                    assert(self.frames()[f] == old(self).frames()[f]);
                } else {
                    assert(self.frames()[f] == old(self).frames()[old(self).frames().len() - 1]);
                }
            }
        }
    }

    /// Pushes an empty frame: a called function sees no locals of its
    /// caller.
    pub fn new_local_scope(&mut self)
        requires
            old(self).wf(),
        ensures
            final(self).wf(),
            final(self).frames() == old(self).frames().push(Seq::empty()),
            final(self).arena() == old(self).arena(),
            final(self).statics() == old(self).statics(),
            final(self).free_list() == old(self).free_list(),
            final(self).heap() == old(self).heap(),
    {
        self.local_scope_stack.push(Vec::new());
        proof {
            assert(self.frames() =~= old(self).frames().push(Seq::empty()));
            lemma_free_list_kept(old(self), self);
            assert forall|f: int, k: int|
                0 <= f < self.frames().len() && 0 <= k < self.frames()[f].len() implies (
                #[trigger] self.frames()[f][k]).1 < self.arena().len() by {
                if f < old(self).frames().len() {
                    assert(self.frames()[f] == old(self).frames()[f]);
                }
            }
        }
    }

    /// Pops the current frame; its slots stay allocated until the next
    /// collection. The outermost frame is never popped: the machine turns an
    /// attempt to leave it into a fault.
    pub fn exit_local_scope(&mut self)
        requires
            old(self).wf(),
            old(self).frames().len() >= 2,
        ensures
            final(self).wf(),
            final(self).frames() == old(self).frames().drop_last(),
            final(self).arena() == old(self).arena(),
            final(self).statics() == old(self).statics(),
            final(self).free_list() == old(self).free_list(),
            final(self).heap() == old(self).heap(),
    {
        let _ = self.local_scope_stack.pop();
        proof {
            assert(self.frames() =~= old(self).frames().drop_last());
            lemma_free_list_kept(old(self), self);
            assert forall|f: int, k: int|
                0 <= f < self.frames().len() && 0 <= k < self.frames()[f].len() implies (
                #[trigger] self.frames()[f][k]).1 < self.arena().len() by {
                assert(self.frames()[f] == old(self).frames()[f]);
            }
        }
    }

    pub fn get_free_list(&self) -> (r: &Vec<usize>)
        ensures
            r@ == self.free_list(),
    {
        &self.free_list
    }

    pub fn frame_count(&self) -> (r: usize)
        ensures
            r == self.frames().len(),
    {
        self.local_scope_stack.len()
    }

    /// Declares `name`. A static is added unset, and declaring one twice is
    /// refused. A local is bound in the current frame, replacing any binding
    /// of that name there, to an unset slot: the last free one, or a new one
    /// at the end of the arena.
    /// How declaring `name` in `scope` changes memory `s` into `t` with result `r`.
    pub open spec fn declare_effect(s: Memory, t: Memory, name: String, scope: Scope, r: Result<(), Fault>) -> bool {
        &&& (t.wf())
        &&& (t.heap() == s.heap())
        &&& (t.frames().len() == s.frames().len())
        &&& (scope is Global ==> {
                &&& find_key(s.statics(), name@, 0) is Some ==> r == Err::<(), Fault>(
                    Fault::AlreadyDeclared(name),
                ) && t == s
                &&& find_key(s.statics(), name@, 0) is None ==> r == Ok::<(), Fault>(())
                    && t.statics() == s.statics().push((name, None))
                    && t.frames() == s.frames() && t.arena() == s.arena() && t.free_list() == s.free_list()
            })
        &&& (scope is Local ==> {
                let pos = if s.free_list().len() > 0 {
                    s.free_list().last()
                } else {
                    s.arena().len() as usize
                };
                &&& r == Ok::<(), Fault>(())
                &&& t.statics() == s.statics()
                &&& t.top() == match find_key(s.top(), name@, 0) {
                    Some(k) => s.top().update(k, (name, pos)),
                    None => s.top().push((name, pos)),
                }
                &&& t.local_slot(name@) == Some(pos)
                &&& t.arena()[pos as int] is None
                &&& t.frames().drop_last() == s.frames().drop_last()
                &&& forall|other: Seq<char>|
                    other != name@ ==> #[trigger] t.local_slot(other) == s.local_slot(other)
                &&& s.free_list().len() > 0 ==> t.free_list() == s.free_list().drop_last() && t.arena() == s.arena().update(
                    pos as int,
                    None,
                )
                &&& s.free_list().len() == 0 ==> t.free_list() == s.free_list() && t.arena() == s.arena().push(None)
            })
    }

    pub fn declare_variable(&mut self, name: &String, scope: &Scope) -> (r: Result<(), Fault>)
        requires
            old(self).wf(),
        ensures
            Memory::declare_effect(*old(self), *final(self), *name, *scope, r),
    {
        match scope {
            Scope::Global => {
                if self.find_static(name).is_some() {
                    return Err(Fault::AlreadyDeclared(name.clone()));
                }
                self.statics.push((name.clone(), None));
                Ok(())
            },
            Scope::Local => {
                let pos = if self.free_list.len() > 0 {
                    let p = self.free_list[self.free_list.len() - 1];
                    assert(old(self).free_list()[old(self).free_list().len() - 1] < old(self).arena().len());
                    self.free_list.pop();
                    self.memory[p] = None;
                    p
                } else {
                    let p = self.memory.len();
                    self.memory.push(None);
                    p
                };
                proof {
                    assert(self.free_list() =~= old(self).free_list() || (old(self).free_list().len()
                        > 0 && self.free_list() =~= old(self).free_list().drop_last()));
                    lemma_wf_kept(old(self), self);
                }
                let found = self.find_local(name);
                let ghost mid = *self;
                let t = self.top_index();
                let mut frame = self.local_scope_stack.pop().unwrap();
                assert(frame@ == mid.top());
                proof {
                    lemma_find_key_range(mid.top(), name@, 0);
                }
                match found {
                    Some(k) => {
                        frame[k] = (name.clone(), pos);
                    },
                    None => {
                        frame.push((name.clone(), pos));
                    },
                }
                self.local_scope_stack.push(frame);
                proof {
                    let old_frames = mid.frames();
                    assert(self.frames() =~= old_frames.drop_last().push(frame@));
                    assert(self.frames().drop_last() =~= old_frames.drop_last());
                    lemma_find_key_range(mid.top(), name@, 0);
                    match found {
                        Some(k) => {
                            assert(frame@ == mid.top().update(k as int, (*name, pos)));
                            assert forall|other: Seq<char>| other != name@ implies #[trigger] self.local_slot(other)
                                == mid.local_slot(other) by {
                                lemma_find_key_update(mid.top(), other, 0, k as int, *name, pos);
                                lemma_find_key_range(mid.top(), other, 0);
                            }
                            lemma_find_key_update(mid.top(), name@, 0, k as int, *name, pos);
                        },
                        None => {
                            assert(frame@ == mid.top().push((*name, pos)));
                            lemma_find_key_push(mid.top(), (*name, pos), name@, 0);
                            assert forall|other: Seq<char>| other != name@ implies #[trigger] self.local_slot(other)
                                == mid.local_slot(other) by {
                                lemma_find_key_push(mid.top(), (*name, pos), other, 0);
                                lemma_find_key_range(mid.top(), other, 0);
                            }
                        },
                    }
                    assert forall|f: int, k: int|
                        0 <= f < self.frames().len() && 0 <= k < self.frames()[f].len() implies (
                        #[trigger] self.frames()[f][k]).1 < self.arena().len() by {
                        if f < self.frames().len() - 1 {
                            assert(self.frames()[f] == old_frames[f]);
                        } else {
                            if k < mid.top().len() {
                                assert(self.frames()[f][k] == mid.top()[k] || self.frames()[f][k].1
                                    == pos);
                            }
                        }
                    }
                }
                Ok(())
            },
        }
    }

    /// Stores `value` in `name`: the current frame's binding first, then the
    /// static of that name.
    /// How storing `value` in `name` changes memory `s` into `t` with result `r`.
    pub open spec fn set_effect(s: Memory, t: Memory, name: String, value: Immediate, r: Result<(), Fault>) -> bool {
        &&& (t.wf())
        &&& (t.frames() == s.frames())
        &&& (t.free_list() == s.free_list())
        &&& (t.heap() == s.heap())
        &&& (match s.local_slot(name@) {
                Some(pos) => r == Ok::<(), Fault>(()) && t.arena() == s.arena().update(pos as int, Some(value)) && t.statics() == s.statics(),
                None => match find_key(s.statics(), name@, 0) {
                    Some(i) => r == Ok::<(), Fault>(()) && t.statics() == s.statics().update(i, (s.statics()[i].0, Some(value)))
                        && t.arena() == s.arena(),
                    None => r == Err::<(), Fault>(Fault::NotAVariable(name)) && t == s,
                },
            })
    }

    pub fn set_variable(&mut self, name: &String, value: Immediate) -> (r: Result<(), Fault>)
        requires
            old(self).wf(),
        ensures
            Memory::set_effect(*old(self), *final(self), *name, value, r),
    {
        match self.find_local(name) {
            Some(k) => {
                let t = self.top_index();
                let pos = self.local_scope_stack[t][k].1;
                assert(self.frames()[t as int][k as int].1 < self.arena().len());
                self.memory[pos] = Some(value);
                proof {
                    lemma_free_list_kept(old(self), self);
                    assert(self.frames() == old(self).frames());
                }
                Ok(())
            },
            None => match self.find_static(name) {
                Some(i) => {
                    proof {
                        lemma_find_key_range(self.statics(), name@, 0);
                    }
                    let key = self.statics[i].0.clone();
                    self.statics[i] = (key, Some(value));
                    proof {
                        lemma_free_list_kept(old(self), self);
                        assert(self.frames() == old(self).frames());
                    }
                    Ok(())
                },
                None => Err(Fault::NotAVariable(name.clone())),
            },
        }
    }

    /// Reads `name`: the current frame's binding first, then the static.
    pub fn get_variable(&self, name: &String) -> (r: Result<Immediate, Fault>)
        requires
            self.wf(),
        ensures
            r == self.spec_get(*name),
    {
        match self.find_local(name) {
            Some(k) => {
                let t = self.top_index();
                let pos = self.local_scope_stack[t][k].1;
                assert(self.frames()[t as int][k as int].1 < self.arena().len());
                match self.memory[pos] {
                    Some(v) => Ok(v),
                    None => Err(Fault::SegmentationFault),
                }
            },
            None => match self.find_static(name) {
                Some(i) => {
                    proof {
                        lemma_find_key_range(self.statics(), name@, 0);
                    }
                    match self.statics[i].1 {
                        Some(v) => Ok(v),
                        None => Err(Fault::SegmentationFault),
                    }
                },
                None => Err(Fault::NotAVariable(name.clone())),
            },
        }
    }

    /// Where `name` is stored, for taking its address.
    pub fn address_of(&self, name: &String) -> (r: Result<Address, Fault>)
        requires
            self.wf(),
        ensures
            r == self.spec_address_of(*name),
    {
        match self.find_local(name) {
            Some(k) => {
                let t = self.top_index();
                let pos = self.local_scope_stack[t][k].1;
                assert(self.frames()[t as int][k as int].1 < self.arena().len());
                match self.memory[pos] {
                    Some(_) => Ok(Address::Slot(pos)),
                    None => Err(Fault::SegmentationFault),
                }
            },
            None => match self.find_static(name) {
                Some(i) => {
                    proof {
                        lemma_find_key_range(self.statics(), name@, 0);
                    }
                    match self.statics[i].1 {
                        Some(_) => Ok(Address::Static(i)),
                        None => Err(Fault::SegmentationFault),
                    }
                },
                None => Err(Fault::NotAVariable(name.clone())),
            },
        }
    }

    /// Reads through a pointer, checking that its target exists and holds a
    /// value.
    pub fn read(&self, a: Address) -> (r: Result<Immediate, Fault>)
        ensures
            r == self.spec_read(a),
    {
        match a {
            Address::Slot(p) => {
                if p < self.memory.len() {
                    match self.memory[p] {
                        Some(v) => Ok(v),
                        None => Err(Fault::SegmentationFault),
                    }
                } else {
                    Err(Fault::SegmentationFault)
                }
            },
            Address::Static(i) => {
                if i < self.statics.len() {
                    match self.statics[i].1 {
                        Some(v) => Ok(v),
                        None => Err(Fault::SegmentationFault),
                    }
                } else {
                    Err(Fault::SegmentationFault)
                }
            },
            Address::Heap(h) => {
                if h < self.heap.len() {
                    Ok(self.heap[h])
                } else {
                    Err(Fault::SegmentationFault)
                }
            },
        }
    }

    /// How writing `v` through a pointer to `a` changes memory `s` into `t`.
    pub open spec fn write_effect(s: Memory, t: Memory, a: Address, v: Immediate, r: Result<(), Fault>) -> bool {
        &&& t.wf()
        &&& match s.spec_read(a) {
            Err(e) => r == Err::<(), Fault>(e) && t == s,
            Ok(_) => {
                &&& r == Ok::<(), Fault>(())
                &&& t.frames() == s.frames()
                &&& t.free_list() == s.free_list()
                &&& match a {
                    Address::Slot(p) => t.arena() == s.arena().update(p as int, Some(v))
                        && t.statics() == s.statics() && t.heap() == s.heap(),
                    Address::Static(i) => t.statics() == s.statics().update(
                        i as int,
                        (s.statics()[i as int].0, Some(v)),
                    ) && t.arena() == s.arena() && t.heap() == s.heap(),
                    Address::Heap(h) => t.heap() == s.heap().update(h as int, v) && t.arena()
                        == s.arena() && t.statics() == s.statics(),
                }
            },
        }
    }

    /// Writes through a pointer; its target must exist and hold a value.
    pub fn write(&mut self, a: Address, v: Immediate) -> (r: Result<(), Fault>)
        requires
            old(self).wf(),
        ensures
            Memory::write_effect(*old(self), *final(self), a, v, r),
    {
        match a {
            Address::Slot(p) => {
                if p < self.memory.len() && self.memory[p].is_some() {
                    self.memory[p] = Some(v);
                } else {
                    return Err(Fault::SegmentationFault);
                }
            },
            Address::Static(i) => {
                if i < self.statics.len() && self.statics[i].1.is_some() {
                    let key = self.statics[i].0.clone();
                    self.statics[i] = (key, Some(v));
                } else {
                    return Err(Fault::SegmentationFault);
                }
            },
            Address::Heap(h) => {
                if h < self.heap.len() {
                    self.heap[h] = v;
                } else {
                    return Err(Fault::SegmentationFault);
                }
            },
        }
        proof {
            lemma_free_list_kept(old(self), self);
            assert(self.frames() == old(self).frames());
        }
        Ok(())
    }

    /// Moves `value` to a new heap cell and gives its address. Heap cells
    /// live as long as the memory.
    pub fn heapify(&mut self, value: Immediate) -> (r: Address)
        requires
            old(self).wf(),
        ensures
            final(self).wf(),
            r == Address::Heap(old(self).heap().len() as usize),
            final(self).heap() == old(self).heap().push(value),
            final(self).frames() == old(self).frames(),
            final(self).arena() == old(self).arena(),
            final(self).statics() == old(self).statics(),
            final(self).free_list() == old(self).free_list(),
    {
        let h = self.heap.len();
        self.heap.push(value);
        proof {
            lemma_free_list_kept(old(self), self);
        }
        Address::Heap(h)
    }

    fn slot_is_referenced(&self, i: usize) -> (r: bool)
        ensures
            r == is_referenced(self.frames(), i as int),
    {
        let mut f: usize = 0;
        while f < self.local_scope_stack.len()
            invariant
                f <= self.frames().len(),
                forall|g: int, k: int|
                    0 <= g < f && 0 <= k < self.frames()[g].len() ==> #[trigger] self.frames()[g][k].1
                        != i,
            decreases self.local_scope_stack.len() - f,
        {
            let frame = &self.local_scope_stack[f];
            assert(frame@ == self.frames()[f as int]);
            let mut k: usize = 0;
            while k < frame.len()
                invariant
                    f < self.frames().len(),
                    frame@ == self.frames()[f as int],
                    k <= frame@.len(),
                    forall|g: int, j: int|
                        0 <= g < f && 0 <= j < self.frames()[g].len() ==> #[trigger] self.frames()[g][j].1
                            != i,
                    forall|j: int| 0 <= j < k ==> #[trigger] self.frames()[f as int][j].1 != i,
                decreases frame.len() - k,
            {
                if frame[k].1 == i {
                    assert(self.frames()[f as int][k as int].1 == i);
                    return true;
                }
                k = k + 1;
            }
            f = f + 1;
        }
        false
    }

    /// Makes every arena slot that no frame references free, in increasing
    /// order; slots are neither moved nor cleared.
    pub fn collect_garbage(&mut self)
        requires
            old(self).wf(),
        ensures
            final(self).wf(),
            final(self).free_list() == unreferenced_below(
                old(self).frames(),
                old(self).arena().len() as int,
            ),
            old(self).arena().len() <= usize::MAX,
            forall|i: int|
                0 <= i < old(self).arena().len() && !is_referenced(old(self).frames(), i) <==> (
                final(self).free_list().contains(i as usize) && 0 <= i < old(self).arena().len()),
            forall|j: int, k: int|
                0 <= j < k < final(self).free_list().len() ==> final(self).free_list()[j]
                    < final(self).free_list()[k],
            final(self).frames() == old(self).frames(),
            final(self).arena() == old(self).arena(),
            final(self).statics() == old(self).statics(),
            final(self).heap() == old(self).heap(),
    {
        let n = self.memory.len();
        let mut unused: Vec<usize> = Vec::new();
        let mut i: usize = 0;
        while i < n
            invariant
                self == old(self),
                n == self.arena().len(),
                i <= n,
                unused@ == unreferenced_below(self.frames(), i as int),
                forall|j: int| 0 <= j < unused@.len() ==> #[trigger] unused@[j] < i,
            decreases n - i,
        {
            if !self.slot_is_referenced(i) {
                unused.push(i);
            }
            i = i + 1;
        }
        self.free_list = unused;
        proof {
            lemma_unreferenced_below(old(self).frames(), n as int);
        }
    }
}

} // verus!
