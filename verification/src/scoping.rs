//! What holds of name resolution, whatever the heap: which binding wins,
//! who sees a change, and who does not.

use vstd::prelude::*;
use crate::frames::{Frame, HeapView};
use crate::values::ValueView;

verus! {

impl HeapView {
    /// A frame's own binding wins over everything that its links lead to.
    pub proof fn lemma_local_wins(self, f: Frame, name: Seq<char>)
        requires
            self.wf(),
            self.contains(f),
            self.locals(f).contains_key(name),
        ensures
            self.resolve(f, name) == Some(f),
            self.value(f, name) == self.locals(f)[name],
    {
    }

    /// The closure wins over the root: where a frame does not bind a name
    /// itself and the name means something in its closure, the frame sees
    /// the closure's binding, whatever its chain of `root` links holds.
    pub proof fn lemma_closure_wins(self, f: Frame, c: Frame, name: Seq<char>)
        requires
            self.wf(),
            self.contains(f),
            !self.locals(f).contains_key(name),
            self.closure(f) == Some(c),
            self.has(c, name),
        ensures
            self.resolve(f, name) == self.resolve(c, name),
            self.value(f, name) == self.value(c, name),
    {
    }

    /// The root is asked last: where neither a frame nor its closure knows a
    /// name, the frame sees what its root sees.
    pub proof fn lemma_root_last(self, f: Frame, r: Frame, name: Seq<char>)
        requires
            self.wf(),
            self.contains(f),
            !self.locals(f).contains_key(name),
            self.closure(f) matches Some(c) ==> !self.has(c, name),
            self.root(f) == Some(r),
        ensures
            self.resolve(f, name) == self.resolve(r, name),
            self.value(f, name) == self.value(r, name),
    {
    }

    /// A frame without links sees its own bindings and nothing else.
    pub proof fn lemma_alone(self, f: Frame, name: Seq<char>)
        requires
            self.wf(),
            self.contains(f),
            self.root(f) is None,
            self.closure(f) is None,
        ensures
            self.has(f, name) == self.locals(f).contains_key(name),
    {
    }

    /// Resolution looks at the links and at which frame binds which name,
    /// never at the values: two heaps that agree on those resolve a name
    /// alike.
    pub proof fn lemma_resolve_alike(self, other: HeapView, f: Frame, name: Seq<char>)
        requires
            self.wf(),
            self.contains(f),
            self.same_links(other),
            forall|x: Frame| #[trigger]
                self.contains(x) ==> (self.locals(x).contains_key(name) <==> other.locals(
                    x,
                ).contains_key(name)),
        ensures
            other.resolve(f, name) == self.resolve(f, name),
        decreases self.height(f),
    {
        self.lemma_same_links_wf(other);
        if let Some(c) = self.closure(f) {
            self.lemma_resolve_alike(other, c, name);
        }
        if let Some(r) = self.root(f) {
            self.lemma_resolve_alike(other, r, name);
        }
    }

    /// Defining a name that the frame binds already changes nothing, and
    /// after a definition the frame binds the name. So of two definitions of
    /// one name in one frame the second is refused, and the name keeps the
    /// value that the first gave it.
    pub proof fn lemma_define_once(
        self,
        f: Frame,
        name: Seq<char>,
        first: ValueView,
        second: ValueView,
    )
        requires
            self.wf(),
            self.contains(f),
        ensures
            self.define(f, name, first).wf(),
            self.define(f, name, first).locals(f).contains_key(name),
            self.define(f, name, first).define(f, name, second) == self.define(f, name, first),
            !self.locals(f).contains_key(name) ==> self.define(f, name, first).value(f, name)
                == first,
    {
        let after = self.define(f, name, first);
        if !self.locals(f).contains_key(name) {
            assert(self.same_links(after));
            self.lemma_same_links_wf(after);
        }
    }

    /// An assignment never makes or removes a binding: every name means
    /// something after it exactly where it did before, and resolves to the
    /// same frame. In particular, assigning to a name that means nothing
    /// leaves the whole heap as it was.
    pub proof fn lemma_set_keeps_names(
        self,
        f: Frame,
        name: Seq<char>,
        val: ValueView,
        g: Frame,
        other: Seq<char>,
    )
        requires
            self.wf(),
            self.contains(f),
            self.contains(g),
        ensures
            self.set(f, name, val).wf(),
            self.set(f, name, val).resolve(g, other) == self.resolve(g, other),
            !self.has(f, name) ==> self.set(f, name, val) == self,
    {
        let after = self.set(f, name, val);
        self.lemma_resolve_binds(f, name);
        if let Some(d) = self.resolve(f, name) {
            assert(self.same_links(after));
            assert forall|x: Frame| #[trigger] self.contains(x) implies (self.locals(
                x,
            ).contains_key(other) <==> after.locals(x).contains_key(other)) by {}
            self.lemma_resolve_alike(after, g, other);
            self.lemma_same_links_wf(after);
        }
    }

    /// A frame is shared, not copied: after an assignment through one frame,
    /// every frame in which the name resolves to the same binding sees the
    /// new value. So a function that kept the frame it was defined in sees
    /// what was assigned there since.
    pub proof fn lemma_set_is_shared(self, f: Frame, g: Frame, name: Seq<char>, val: ValueView)
        requires
            self.wf(),
            self.contains(f),
            self.contains(g),
            self.has(f, name),
            self.resolve(g, name) == self.resolve(f, name),
        ensures
            self.set(f, name, val).value(f, name) == val,
            self.set(f, name, val).value(g, name) == val,
    {
        self.lemma_set_keeps_names(f, name, val, f, name);
        self.lemma_set_keeps_names(f, name, val, g, name);
        self.lemma_resolve_binds(f, name);
    }

    /// An assignment changes one binding. What any other name means in any
    /// frame, and what the same name means in a frame where it resolves to
    /// another binding, stays as it was.
    pub proof fn lemma_set_is_local(
        self,
        f: Frame,
        name: Seq<char>,
        val: ValueView,
        g: Frame,
        other: Seq<char>,
    )
        requires
            self.wf(),
            self.contains(f),
            self.contains(g),
            self.has(g, other),
            other != name || self.resolve(g, other) != self.resolve(f, name),
        ensures
            self.set(f, name, val).value(g, other) == self.value(g, other),
    {
        self.lemma_set_keeps_names(f, name, val, g, other);
        self.lemma_resolve_binds(f, name);
        self.lemma_resolve_binds(g, other);
    }

    /// Frames that are not linked do not see each other's bindings: a
    /// binding made or changed in `b` changes nothing of what any name means
    /// in a frame `a` that does not reach `b`.
    pub proof fn lemma_unreached_unseen(
        self,
        a: Frame,
        b: Frame,
        name: Seq<char>,
        val: ValueView,
        other: Seq<char>,
    )
        requires
            self.wf(),
            self.contains(a),
            self.contains(b),
            !self.reaches(a, b),
        ensures
            self.with_local(b, name, val).wf(),
            self.with_local(b, name, val).resolve(a, other) == self.resolve(a, other),
            self.has(a, other) ==> self.with_local(b, name, val).value(a, other) == self.value(
                a,
                other,
            ),
        decreases self.height(a),
    {
        let after = self.with_local(b, name, val);
        assert(self.same_links(after));
        self.lemma_same_links_wf(after);
        if let Some(c) = self.closure(a) {
            self.lemma_unreached_unseen(c, b, name, val, other);
        }
        if let Some(r) = self.root(a) {
            self.lemma_unreached_unseen(r, b, name, val, other);
        }
        self.lemma_resolve_binds(a, other);
        self.lemma_resolves_within_reach(a, other);
    }

    /// Two frames without links do not see each other's bindings.
    pub proof fn lemma_siblings_unseen(
        self,
        a: Frame,
        b: Frame,
        name: Seq<char>,
        val: ValueView,
        other: Seq<char>,
    )
        requires
            self.wf(),
            self.contains(a),
            self.contains(b),
            a != b,
            self.root(a) is None,
            self.closure(a) is None,
        ensures
            self.with_local(b, name, val).has(a, other) == self.locals(a).contains_key(other),
            self.has(a, other) == self.locals(a).contains_key(other),
    {
        self.lemma_unreached_unseen(a, b, name, val, other);
    }

    /// A name resolves to a frame that the asking frame reaches.
    pub proof fn lemma_resolves_within_reach(self, f: Frame, name: Seq<char>)
        requires
            self.wf(),
            self.contains(f),
        ensures
            self.resolve(f, name) matches Some(d) ==> self.reaches(f, d),
        decreases self.height(f),
    {
        if let Some(c) = self.closure(f) {
            self.lemma_resolves_within_reach(c, name);
        }
        if let Some(r) = self.root(f) {
            self.lemma_resolves_within_reach(r, name);
        }
    }

    /// Nothing but a frame itself reaches a frame that no link leads to.
    pub proof fn lemma_unreferenced_unreached(self, f: Frame, g: Frame)
        requires
            self.wf(),
            self.contains(f),
            self.contains(g),
            self.unreferenced(g),
            f != g,
        ensures
            !self.reaches(f, g),
        decreases self.height(f),
    {
        if let Some(c) = self.closure(f) {
            self.lemma_unreferenced_unreached(c, g);
        }
        if let Some(r) = self.root(f) {
            self.lemma_unreferenced_unreached(r, g);
        }
    }
}

} // verus!
