//! Frames: the scopes that names are resolved in.
//!
//! A frame holds its own bindings and two optional links to other frames: a
//! `closure` link to the scope it was written in, and a `root` link to the
//! instance it is bound to. Frames are shared: a function keeps the frame it
//! was defined in, an instance keeps the frame of its fields, a running call
//! keeps its own. They live in a [`Heap`] and are named by [`Frame`] handles,
//! so a change made through one holder is seen by all.

use vstd::prelude::*;
use crate::address::Address;
use crate::errors::{Error, already_defined_view, debug_quoted, not_found_view, quote};
use crate::flow::{ControlFlow, ControlFlowView};
use crate::values::{Value, ValueView};

verus! {

/// A handle to an activation record in a [`Heap`].
#[derive(Debug, Clone, Copy, PartialEq, Eq, Structural)]
pub struct Frame {
    id: usize,
}

/// The mathematical value of one frame.
pub struct FrameView {
    pub locals: Map<Seq<char>, ValueView>,
    pub root: Option<Frame>,
    pub closure: Option<Frame>,
}

/// The mathematical value of a [`Heap`]: the frames it holds, by handle.
pub struct HeapView {
    pub frames: Map<Frame, FrameView>,
}

impl HeapView {
    /// `f` is a frame of the heap.
    pub open spec fn contains(self, f: Frame) -> bool {
        self.frames.contains_key(f)
    }

    /// The bindings that `f` holds itself.
    pub open spec fn locals(self, f: Frame) -> Map<Seq<char>, ValueView> {
        self.frames[f].locals
    }

    /// The frame that `f` is bound to, if it is bound to one.
    pub open spec fn root(self, f: Frame) -> Option<Frame> {
        self.frames[f].root
    }

    /// The frame that `f` was written in, if it keeps one.
    pub open spec fn closure(self, f: Frame) -> Option<Frame> {
        self.frames[f].closure
    }

    /// Both links of `f`, where it has them, lead to frames of the heap that
    /// `rank` puts strictly below `f`.
    pub open spec fn descends(self, rank: spec_fn(Frame) -> nat, f: Frame) -> bool {
        &&& self.root(f) matches Some(r) ==> self.contains(r) && rank(r) < rank(f)
        &&& self.closure(f) matches Some(c) ==> self.contains(c) && rank(c) < rank(f)
    }

    /// Every link of the heap leads to a frame of the heap that `rank` puts
    /// strictly below the frame it starts at.
    pub open spec fn ranked_by(self, rank: spec_fn(Frame) -> nat) -> bool {
        forall|f: Frame| #[trigger] self.contains(f) ==> self.descends(rank, f)
    }

    /// No link leaves the heap and no frame is its own ancestor, by any mix
    /// of `root` and `closure` links; and the heap can name its next frame.
    pub open spec fn wf(self) -> bool {
        &&& self.indexed()
        &&& exists|rank: spec_fn(Frame) -> nat| self.ranked_by(rank)
    }

    /// The frames have the indices below some bound, so that the bound is
    /// the index of the next frame.
    pub closed spec fn indexed(self) -> bool {
        exists|n: usize| self.first_free(n)
    }

    /// A measure that every link decreases.
    pub open spec fn height(self, f: Frame) -> nat {
        (choose|rank: spec_fn(Frame) -> nat| self.ranked_by(rank))(f)
    }

    /// The frame that holds the binding which `name` means in `f`: `f`
    /// itself if it binds the name, else what the name means in its closure,
    /// else what it means in its root.
    pub open spec fn resolve(self, f: Frame, name: Seq<char>) -> Option<Frame>
        decreases self.height(f),
        when self.wf() && self.contains(f)
    {
        if self.locals(f).contains_key(name) {
            Some(f)
        } else {
            let inner = match self.closure(f) {
                Some(c) => self.resolve(c, name),
                None => None,
            };
            if inner is Some {
                inner
            } else {
                match self.root(f) {
                    Some(r) => self.resolve(r, name),
                    None => None,
                }
            }
        }
    }

    /// `name` means something in `f`.
    pub open spec fn has(self, f: Frame, name: Seq<char>) -> bool {
        self.resolve(f, name) is Some
    }

    /// What `name` means in `f`, where it means something.
    pub open spec fn value(self, f: Frame, name: Seq<char>) -> ValueView {
        self.locals(self.resolve(f, name).unwrap())[name]
    }

    /// `g` is `f` or one of its ancestors, by any mix of links.
    pub open spec fn reaches(self, f: Frame, g: Frame) -> bool
        decreases self.height(f),
        when self.wf() && self.contains(f)
    {
        ||| f == g
        ||| self.closure(f) matches Some(c) && self.reaches(c, g)
        ||| self.root(f) matches Some(r) && self.reaches(r, g)
    }

    /// The last frame of the chain of `root` links that starts at `f`.
    pub open spec fn root_end(self, f: Frame) -> Frame
        decreases self.height(f),
        when self.wf() && self.contains(f)
    {
        match self.root(f) {
            Some(r) => self.root_end(r),
            None => f,
        }
    }

    /// The handle that the next new frame gets.
    pub closed spec fn fresh(self) -> Frame {
        Frame { id: choose|n: usize| self.first_free(n) }
    }

    /// `n` is the least index that no frame of the heap has.
    spec fn first_free(self, n: usize) -> bool {
        &&& !self.contains(Frame { id: n })
        &&& forall|m: usize| m < n ==> #[trigger] self.contains(Frame { id: m })
    }

    /// No frame links to `f`.
    pub open spec fn unreferenced(self, f: Frame) -> bool {
        forall|g: Frame| #[trigger]
            self.contains(g) ==> self.root(g) != Some(f) && self.closure(g) != Some(f)
    }

    /// The heap with one more frame `f`, empty and without links.
    pub open spec fn with_fresh(self, f: Frame) -> HeapView {
        HeapView {
            frames: self.frames.insert(
                f,
                FrameView { locals: Map::empty(), root: None, closure: None },
            ),
        }
    }

    /// The heap with `name` bound to `val` in `f` itself.
    pub open spec fn with_local(self, f: Frame, name: Seq<char>, val: ValueView) -> HeapView {
        HeapView {
            frames: self.frames.insert(
                f,
                FrameView { locals: self.locals(f).insert(name, val), ..self.frames[f] },
            ),
        }
    }

    /// The heap with the `root` link of `f` set to `r`.
    pub open spec fn with_root(self, f: Frame, r: Frame) -> HeapView {
        HeapView { frames: self.frames.insert(f, FrameView { root: Some(r), ..self.frames[f] }) }
    }

    /// The heap with the `closure` link of `f` set to `c`.
    pub open spec fn with_closure(self, f: Frame, c: Frame) -> HeapView {
        HeapView {
            frames: self.frames.insert(f, FrameView { closure: Some(c), ..self.frames[f] }),
        }
    }

    /// The heap after defining `name` in `f`: a new binding in `f` itself,
    /// and no change where `f` binds the name already.
    pub open spec fn define(self, f: Frame, name: Seq<char>, val: ValueView) -> HeapView {
        if self.locals(f).contains_key(name) {
            self
        } else {
            self.with_local(f, name, val)
        }
    }

    /// The heap after assigning to `name` from `f`: the binding that the name
    /// means there holds `val`, and nothing changes where it means nothing.
    pub open spec fn set(self, f: Frame, name: Seq<char>, val: ValueView) -> HeapView {
        match self.resolve(f, name) {
            Some(d) => self.with_local(d, name, val),
            None => self,
        }
    }

    /// The heap after hanging `r` below the chain of `root` links of `f`.
    pub open spec fn set_root(self, f: Frame, r: Frame) -> HeapView {
        self.with_root(self.root_end(f), r)
    }

    /// `other` holds the same frames with the same links; bindings may
    /// differ.
    pub open spec fn same_links(self, other: HeapView) -> bool {
        &&& forall|f: Frame| self.contains(f) <==> other.contains(f)
        &&& forall|f: Frame| #[trigger]
            self.contains(f) ==> self.root(f) == other.root(f) && self.closure(f)
                == other.closure(f)
    }

    /// The next frame's handle is not in use.
    pub proof fn lemma_fresh_is_new(self)
        requires
            self.wf(),
        ensures
            !self.contains(self.fresh()),
    {
    }

    /// A heap with the same frames can name its next frame too, and names
    /// the same.
    pub proof fn lemma_same_frames_indexed(self, other: HeapView)
        requires
            self.indexed(),
            forall|f: Frame| self.contains(f) <==> other.contains(f),
        ensures
            other.indexed(),
            other.fresh() == self.fresh(),
    {
        let n = choose|n: usize| self.first_free(n);
        assert(other.first_free(n)) by {
            assert forall|m: usize| m < n implies #[trigger] other.contains(Frame { id: m }) by {
                assert(self.contains(Frame { id: m }));
            }
        }
        let k = choose|k: usize| other.first_free(k);
        if k < n {
            assert(self.contains(Frame { id: k }));
        }
        if n < k {
            assert(other.contains(Frame { id: n }));
        }
    }

    /// A heap with the frames and links of a sound heap is sound.
    pub proof fn lemma_same_links_wf(self, other: HeapView)
        requires
            self.wf(),
            self.same_links(other),
        ensures
            other.wf(),
    {
        self.lemma_same_frames_indexed(other);
        let rank = choose|rank: spec_fn(Frame) -> nat| self.ranked_by(rank);
        assert forall|f: Frame| #[trigger] other.contains(f) implies other.descends(rank, f) by {
            assert(self.contains(f));
        }
        assert(other.ranked_by(rank));
    }

    /// Changing the links of one frame `f` keeps a sound heap sound, as long
    /// as each new link either was a link of `f` before or leads to a frame
    /// `target` that does not reach `f`.
    pub proof fn lemma_relink_wf(self, after: HeapView, f: Frame, target: Frame)
        requires
            self.wf(),
            self.contains(f),
            self.contains(target),
            !self.reaches(target, f),
            forall|x: Frame| self.contains(x) <==> after.contains(x),
            forall|x: Frame| #[trigger]
                self.contains(x) && x != f ==> self.root(x) == after.root(x) && self.closure(x)
                    == after.closure(x),
            after.root(f) == self.root(f) || after.root(f) == Some(target),
            after.closure(f) == self.closure(f) || after.closure(f) == Some(target),
        ensures
            after.wf(),
    {
        self.lemma_same_frames_indexed(after);
        // Lift every frame that reaches `f` above `target`. A link between
        // two lifted frames, or between two that stay, descends as before; a
        // link from a lifted frame to one that stays descends all the more;
        // and no link leads from a frame that stays to a lifted one, since
        // the first would then reach `f` too.
        let rank = choose|rank: spec_fn(Frame) -> nat| self.ranked_by(rank);
        let shift = rank(target) + 1;
        let lifted = |x: Frame|
            if self.contains(x) && self.reaches(x, f) {
                (rank(x) + shift) as nat
            } else {
                rank(x)
            };
        assert forall|x: Frame| #[trigger] after.contains(x) implies after.descends(lifted, x) by {
            assert(self.contains(x));
            assert(self.descends(rank, x));
            assert(self.reaches(f, f));
        }
        assert(after.ranked_by(lifted));
    }

    /// Where a name means something, the frame that it resolves to is in the
    /// heap and binds the name itself.
    pub proof fn lemma_resolve_binds(self, f: Frame, name: Seq<char>)
        requires
            self.wf(),
            self.contains(f),
        ensures
            self.resolve(f, name) matches Some(d) ==> self.contains(d) && self.locals(
                d,
            ).contains_key(name),
        decreases self.height(f),
    {
        if !self.locals(f).contains_key(name) {
            if let Some(c) = self.closure(f) {
                self.lemma_resolve_binds(c, name);
            }
            if let Some(r) = self.root(f) {
                self.lemma_resolve_binds(r, name);
            }
        }
    }
}

/// One binding of a frame.
#[derive(Debug)]
struct Binding {
    name: String,
    value: Value,
}

/// The binding at index `i` is that of `name`.
spec fn bound_at(bindings: Seq<Binding>, i: int, name: Seq<char>) -> bool {
    0 <= i < bindings.len() && bindings[i].name@ == name
}

/// `name` is bound.
spec fn bound(bindings: Seq<Binding>, name: Seq<char>) -> bool {
    exists|i: int| bound_at(bindings, i, name)
}

/// The index of the binding of `name`, where it is bound.
spec fn slot_of(bindings: Seq<Binding>, name: Seq<char>) -> int {
    choose|i: int| bound_at(bindings, i, name)
}

/// The bindings as a map from names to values.
spec fn locals_of(bindings: Seq<Binding>) -> Map<Seq<char>, ValueView> {
    Map::new(
        |name: Seq<char>| bound(bindings, name),
        |name: Seq<char>| bindings[slot_of(bindings, name)].value@,
    )
}

/// What the heap stores for one frame.
#[derive(Debug)]
struct Scope {
    bindings: Vec<Binding>,
    root: Option<Frame>,
    closure: Option<Frame>,
}

impl Scope {
    /// No name is bound twice.
    spec fn distinct(&self) -> bool {
        forall|i: int, j: int|
            0 <= i < j < self.bindings.len() ==> self.bindings[i].name@ != self.bindings[j].name@
    }

    spec fn locals(&self) -> Map<Seq<char>, ValueView> {
        locals_of(self.bindings@)
    }

    spec fn view(&self) -> FrameView {
        FrameView { locals: self.locals(), root: self.root, closure: self.closure }
    }

    /// The index of the binding of `name`, if there is one.
    fn find(&self, name: &String) -> (r: Option<usize>)
        ensures
            match r {
                Some(i) => bound_at(self.bindings@, i as int, name@),
                None => !bound(self.bindings@, name@),
            },
    {
        let mut i: usize = 0;
        while i < self.bindings.len()
            invariant
                i <= self.bindings.len(),
                forall|j: int| 0 <= j < i ==> !bound_at(self.bindings@, j, name@),
            decreases self.bindings.len() - i,
        {
            if self.bindings[i].name == *name {
                return Some(i);
            }
            i += 1;
        }
        None
    }

    /// Adds a binding for a name that is not bound yet.
    fn bind(&mut self, name: String, value: Value)
        requires
            old(self).distinct(),
            !bound(old(self).bindings@, name@),
        ensures
            final(self).distinct(),
            final(self).locals() == old(self).locals().insert(name@, value@),
            final(self).root == old(self).root,
            final(self).closure == old(self).closure,
    {
        let ghost before = self.bindings@;
        let ghost key = name@;
        self.bindings.push(Binding { name, value });
        proof {
            let after = self.bindings@;
            let n = before.len() as int;
            assert forall|i: int, j: int| 0 <= i < j < after.len() implies after[i].name@
                != after[j].name@ by {
                if j == n {
                    assert(!bound_at(before, i, key));
                }
            }
            assert forall|k: Seq<char>| #[trigger]
                bound(after, k) <==> (k == key || bound(before, k)) by {
                if bound(after, k) && slot_of(after, k) < n {
                    assert(bound_at(before, slot_of(after, k), k));
                }
                if bound(before, k) {
                    assert(bound_at(after, slot_of(before, k), k));
                }
                if k == key {
                    assert(bound_at(after, n, k));
                }
            }
            assert forall|k: Seq<char>| bound(after, k) implies #[trigger] locals_of(after)[k]
                == locals_of(before).insert(key, value@)[k] by {
                if k == key {
                    assert(bound_at(after, n, k));
                } else {
                    assert(bound_at(after, slot_of(before, k), k));
                }
            }
            assert(locals_of(after) =~= locals_of(before).insert(key, value@));
        }
    }

    /// Replaces the value of the binding at index `i`.
    fn assign(&mut self, i: usize, value: Value)
        requires
            old(self).distinct(),
            i < old(self).bindings.len(),
        ensures
            final(self).distinct(),
            final(self).locals() == old(self).locals().insert(
                old(self).bindings[i as int].name@,
                value@,
            ),
            final(self).root == old(self).root,
            final(self).closure == old(self).closure,
    {
        let ghost before = self.bindings@;
        let ghost key = self.bindings[i as int].name@;
        self.bindings[i].value = value;
        proof {
            let after = self.bindings@;
            assert forall|k: Seq<char>| #[trigger] bound(after, k) <==> bound(before, k) by {
                if bound(after, k) {
                    assert(bound_at(before, slot_of(after, k), k));
                }
                if bound(before, k) {
                    assert(bound_at(after, slot_of(before, k), k));
                }
            }
            assert(bound_at(before, i as int, key));
            assert forall|k: Seq<char>| bound(after, k) implies #[trigger] locals_of(after)[k]
                == locals_of(before).insert(key, value@)[k] by {
                assert(bound_at(before, slot_of(after, k), k));
            }
            assert(locals_of(after) =~= locals_of(before).insert(key, value@));
        }
    }

    /// The value of the binding of `name`.
    fn read(&self, name: &String) -> (r: Value)
        requires
            self.distinct(),
            bound(self.bindings@, name@),
        ensures
            r@ == self.locals()[name@],
    {
        let found = self.find(name);
        let i = found.unwrap();
        proof {
            let j = slot_of(self.bindings@, name@);
            assert(bound_at(self.bindings@, j, name@));
        }
        self.bindings[i].value.duplicate()
    }
}

/// The store of all frames of one run.
#[derive(Debug)]
pub struct Heap {
    scopes: Vec<Scope>,
}

impl View for Heap {
    type V = HeapView;

    closed spec fn view(&self) -> HeapView {
        HeapView {
            frames: Map::new(
                |f: Frame| f.id < self.scopes.len(),
                |f: Frame| self.scopes[f.id as int].view(),
            ),
        }
    }
}

impl Heap {
    /// Every frame binds each of its names once.
    pub closed spec fn coherent(&self) -> bool {
        forall|i: int| 0 <= i < self.scopes.len() ==> (#[trigger] self.scopes[i]).distinct()
    }

    /// The heap is sound: each frame binds a name at most once, every link
    /// leads to a frame of the heap, and no frame is its own ancestor.
    pub open spec fn wf(&self) -> bool {
        self.coherent() && self@.wf()
    }

    /// A heap without frames.
    pub fn new() -> (heap: Heap)
        ensures
            heap.wf(),
            heap@.frames == Map::<Frame, FrameView>::empty(),
    {
        let heap = Heap { scopes: Vec::new() };
        proof {
            assert(heap@.frames =~= Map::<Frame, FrameView>::empty());
            assert(heap@.ranked_by(|f: Frame| 0nat));
            assert(heap@.first_free(0));
        }
        heap
    }

    /// Whether `f` is a frame of this heap.
    pub fn holds(&self, f: Frame) -> (r: bool)
        ensures
            r == self@.contains(f),
    {
        f.id < self.scopes.len()
    }

    /// The frame that holds the binding which `name` means in `f`.
    fn locate(&self, f: Frame, name: &String) -> (r: Option<Frame>)
        requires
            self.wf(),
            self@.contains(f),
        ensures
            r == self@.resolve(f, name@),
            r matches Some(d) ==> self@.contains(d) && self@.locals(d).contains_key(name@),
        decreases self@.height(f),
    {
        proof {
            self@.lemma_resolve_binds(f, name@);
        }
        let mut cur = f;
        loop
            invariant
                self.wf(),
                self@.contains(cur),
                self@.height(cur) <= self@.height(f),
                self@.resolve(cur, name@) == self@.resolve(f, name@),
            decreases self@.height(cur),
        {
            let scope = &self.scopes[cur.id];
            if scope.find(name).is_some() {
                return Some(cur);
            }
            if let Some(c) = scope.closure {
                let inner = self.locate(c, name);
                if inner.is_some() {
                    return inner;
                }
            }
            match scope.root {
                Some(r) => {
                    cur = r;
                },
                None => {
                    return None;
                },
            }
        }
    }
}

impl Default for Heap {
    fn default() -> (heap: Heap)
        ensures
            heap.wf(),
            heap@.frames == Map::<Frame, FrameView>::empty(),
    {
        Heap::new()
    }
}

impl Frame {
    /// A new frame in `heap`, without bindings or links.
    pub fn new(heap: &mut Heap) -> (f: Frame)
        requires
            old(heap).wf(),
        ensures
            final(heap).wf(),
            f == old(heap)@.fresh(),
            !old(heap)@.contains(f),
            final(heap)@ == old(heap)@.with_fresh(f),
            final(heap)@.unreferenced(f),
    {
        let f = Frame { id: heap.scopes.len() };
        proof {
            assert(heap@.first_free(f.id));
            let n = choose|n: usize| heap@.first_free(n);
            if n < f.id {
                assert(heap@.contains(Frame { id: n }));
            }
            if f.id < n {
                assert(heap@.contains(Frame { id: f.id }));
            }
        }
        let ghost rank = choose|rank: spec_fn(Frame) -> nat| heap@.ranked_by(rank);
        heap.scopes.push(Scope { bindings: Vec::new(), root: None, closure: None });
        proof {
            assert(heap.scopes[f.id as int].locals() =~= Map::empty());
            assert(heap@.frames =~= old(heap)@.with_fresh(f).frames);
            assert(heap@.first_free(heap.scopes.len() as usize));
            assert(heap@.ranked_by(rank)) by {
                assert forall|g: Frame| #[trigger] heap@.contains(g) implies heap@.descends(
                    rank,
                    g,
                ) by {
                    if g != f {
                        assert(old(heap)@.contains(g));
                    }
                }
            }
            assert forall|g: Frame| #[trigger] heap@.contains(g) implies heap@.root(g) != Some(f)
                && heap@.closure(g) != Some(f) by {
                if g != f {
                    assert(old(heap)@.contains(g));
                }
            }
        }
        f
    }

    /// Whether `name` means something in this frame: whether the frame, a
    /// frame of its closure chain or an ancestor by `root` binds it.
    pub fn has(&self, heap: &Heap, name: String) -> (r: bool)
        requires
            heap.wf(),
            heap@.contains(*self),
        ensures
            r == heap@.has(*self, name@),
    {
        heap.locate(*self, &name).is_some()
    }

    /// What `name` means in this frame: the value of the binding that the
    /// frame itself holds, else of the one that its closure chain gives, else
    /// of the one that its chain of `root` links gives. Where the name means
    /// nothing, a "not found" fault at `address`.
    pub fn lookup(&self, heap: &Heap, address: Address, name: String) -> (r: Result<
        Value,
        ControlFlow,
    >)
        requires
            heap.wf(),
            heap@.contains(*self),
        ensures
            match r {
                Ok(v) => heap@.has(*self, name@) && v@ == heap@.value(*self, name@),
                Err(flow) => !heap@.has(*self, name@) && flow@ == ControlFlowView::Error(
                    not_found_view(address@, debug_quoted(name@)),
                ),
            },
    {
        match heap.locate(*self, &name) {
            Some(d) => Ok(heap.scopes[d.id].read(&name)),
            None => Err(ControlFlow::Error(Error::not_found(address, quote(&name)))),
        }
    }

    /// Assigns `val` to the binding that `name` means in this frame, which
    /// may be held by the frame itself or by any frame that `lookup` would
    /// find it in. Never makes a binding: where the name means nothing, the
    /// heap stays as it is and the result is a "not found" fault at
    /// `address`.
    pub fn set(&self, heap: &mut Heap, address: Address, name: String, val: Value) -> (r: Result<
        (),
        ControlFlow,
    >)
        requires
            old(heap).wf(),
            old(heap)@.contains(*self),
        ensures
            final(heap).wf(),
            final(heap)@ == old(heap)@.set(*self, name@, val@),
            match r {
                Ok(_) => old(heap)@.has(*self, name@),
                Err(flow) => !old(heap)@.has(*self, name@) && flow@ == ControlFlowView::Error(
                    not_found_view(address@, debug_quoted(name@)),
                ),
            },
    {
        match heap.locate(*self, &name) {
            Some(d) => {
                let found = heap.scopes[d.id].find(&name);
                let i = found.unwrap();
                let ghost v = val@;
                heap.scopes[d.id].assign(i, val);
                proof {
                    assert(heap@.frames =~= old(heap)@.with_local(d, name@, v).frames);
                    old(heap)@.lemma_same_links_wf(heap@);
                }
                Ok(())
            },
            None => Err(ControlFlow::Error(Error::not_found(address, quote(&name)))),
        }
    }

    /// The frame that this frame has as its root, if it has one.
    pub fn root(&self, heap: &Heap) -> (r: Option<Frame>)
        requires
            heap@.contains(*self),
        ensures
            r == heap@.root(*self),
    {
        heap.scopes[self.id].root
    }

    /// The frame that this frame has as its closure, if it has one.
    pub fn closure(&self, heap: &Heap) -> (r: Option<Frame>)
        requires
            heap@.contains(*self),
        ensures
            r == heap@.closure(*self),
    {
        heap.scopes[self.id].closure
    }

    /// Whether `target` is this frame or one of its ancestors, by any mix of
    /// links. A frame that reaches another must not become that frame's
    /// root or closure.
    pub fn reaches(&self, heap: &Heap, target: Frame) -> (r: bool)
        requires
            heap.wf(),
            heap@.contains(*self),
        ensures
            r == heap@.reaches(*self, target),
        decreases heap@.height(*self),
    {
        let mut cur = *self;
        loop
            invariant
                heap.wf(),
                heap@.contains(cur),
                heap@.height(cur) <= heap@.height(*self),
                heap@.reaches(cur, target) == heap@.reaches(*self, target),
            decreases heap@.height(cur),
        {
            if cur == target {
                return true;
            }
            if let Some(c) = heap.scopes[cur.id].closure {
                if c.reaches(heap, target) {
                    return true;
                }
            }
            match heap.scopes[cur.id].root {
                Some(r) => {
                    cur = r;
                },
                None => {
                    return false;
                },
            }
        }
    }

    /// The last frame of this frame's chain of `root` links: the frame
    /// itself where it has no `root`.
    pub fn root_end(&self, heap: &Heap) -> (r: Frame)
        requires
            heap.wf(),
            heap@.contains(*self),
        ensures
            r == heap@.root_end(*self),
            heap@.contains(r),
            heap@.root(r) is None,
    {
        let mut last = *self;
        loop
            invariant
                heap.wf(),
                heap@.contains(last),
                heap@.contains(*self),
                heap@.root_end(last) == heap@.root_end(*self),
            decreases heap@.height(last),
        {
            match heap.scopes[last.id].root {
                Some(r) => {
                    last = r;
                },
                None => {
                    return last;
                },
            }
        }
    }

    /// Hangs `frame` below this frame's chain of `root` links: the last
    /// frame of that chain, which is this frame where it has no `root`, gets
    /// `frame` as its `root`. The frames in between stay as they are.
    ///
    /// `frame` must not reach the end of the chain, or the link would close
    /// a cycle.
    pub fn set_root(&self, heap: &mut Heap, frame: Frame)
        requires
            old(heap).wf(),
            old(heap)@.contains(*self),
            old(heap)@.contains(frame),
            !old(heap)@.reaches(frame, old(heap)@.root_end(*self)),
        ensures
            final(heap).wf(),
            final(heap)@ == old(heap)@.set_root(*self, frame),
    {
        let last = self.root_end(heap);
        heap.scopes[last.id].root = Some(frame);
        proof {
            assert(heap@.frames =~= old(heap)@.with_root(last, frame).frames);
            old(heap)@.lemma_relink_wf(heap@, last, frame);
        }
    }

    /// Makes `frame` the closure of this frame: the scope that names are
    /// looked for in first, after the frame's own bindings.
    ///
    /// `frame` must not reach this frame, or the link would close a cycle.
    pub fn set_closure(&self, heap: &mut Heap, frame: Frame)
        requires
            old(heap).wf(),
            old(heap)@.contains(*self),
            old(heap)@.contains(frame),
            !old(heap)@.reaches(frame, *self),
        ensures
            final(heap).wf(),
            final(heap)@ == old(heap)@.with_closure(*self, frame),
    {
        heap.scopes[self.id].closure = Some(frame);
        proof {
            assert(heap@.frames =~= old(heap)@.with_closure(*self, frame).frames);
            old(heap)@.lemma_relink_wf(heap@, *self, frame);
        }
    }

    /// Binds `name` to `val` in this frame itself, in place of the value
    /// that the frame held for the name, if it held one.
    pub fn put(&self, heap: &mut Heap, name: String, val: Value)
        requires
            old(heap).wf(),
            old(heap)@.contains(*self),
        ensures
            final(heap).wf(),
            final(heap)@ == old(heap)@.with_local(*self, name@, val@),
    {
        let ghost key = name@;
        let ghost v = val@;
        match heap.scopes[self.id].find(&name) {
            Some(i) => {
                heap.scopes[self.id].assign(i, val);
            },
            None => {
                heap.scopes[self.id].bind(name, val);
            },
        }
        proof {
            assert(heap@.frames =~= old(heap)@.with_local(*self, key, v).frames);
            old(heap)@.lemma_same_links_wf(heap@);
        }
    }

    /// Binds `name` to `val` in this frame itself, whatever the name means
    /// in the frames it links to. Where the frame binds the name already, the
    /// heap stays as it is and the result is an "already defined" fault at
    /// `address`.
    pub fn define(&self, heap: &mut Heap, address: Address, name: String, val: Value) -> (r:
        Result<(), ControlFlow>)
        requires
            old(heap).wf(),
            old(heap)@.contains(*self),
        ensures
            final(heap).wf(),
            final(heap)@ == old(heap)@.define(*self, name@, val@),
            match r {
                Ok(_) => !old(heap)@.locals(*self).contains_key(name@),
                Err(flow) => old(heap)@.locals(*self).contains_key(name@) && flow@
                    == ControlFlowView::Error(already_defined_view(address@, debug_quoted(name@))),
            },
    {
        if heap.scopes[self.id].find(&name).is_some() {
            Err(ControlFlow::Error(Error::already_defined(address, quote(&name))))
        } else {
            let ghost key = name@;
            let ghost v = val@;
            heap.scopes[self.id].bind(name, val);
            proof {
                assert(heap@.frames =~= old(heap)@.with_local(*self, key, v).frames);
                old(heap)@.lemma_same_links_wf(heap@);
            }
            Ok(())
        }
    }
}

} // verus!
