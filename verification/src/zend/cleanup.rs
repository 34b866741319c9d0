//! The stack of cleanups that a bailout runs for the values it skips.
use vstd::prelude::*;

verus! {

/// The cleanups registered by live guards, oldest first. An entry is `None`
/// once its guard released it out of order; it leaves the stack when every
/// newer entry has gone.
pub struct CleanupStack<E> {
    entries: Vec<Option<E>>,
}

/// The stack after popping released entries off its top.
pub open spec fn drop_released<E>(s: Seq<Option<E>>) -> Seq<Option<E>>
    decreases s.len(),
{
    if s.len() > 0 && s.last() is None {
        drop_released(s.drop_last())
    } else {
        s
    }
}

/// The stack after the guard at `index` releases its entry: the top entry
/// leaves together with the released ones beneath it; another entry is
/// marked released.
pub open spec fn released<E>(s: Seq<Option<E>>, index: int) -> Seq<Option<E>> {
    if index + 1 == s.len() {
        drop_released(s.drop_last())
    } else if 0 <= index < s.len() {
        s.update(index, None)
    } else {
        s
    }
}

/// The cleanups of `s` that are still registered, newest first.
pub open spec fn pending_newest_first<E>(s: Seq<Option<E>>) -> Seq<E>
    decreases s.len(),
{
    if s.len() == 0 {
        Seq::empty()
    } else {
        let rest = pending_newest_first(s.drop_last());
        match s.last() {
            Some(e) => seq![e] + rest,
            None => rest,
        }
    }
}

proof fn lemma_pending_prepend<E>(x: Option<E>, s: Seq<Option<E>>)
    ensures
        pending_newest_first(seq![x] + s) == pending_newest_first(s) + match x {
            Some(e) => seq![e],
            None => Seq::<E>::empty(),
        },
    decreases s.len(),
{
    if s.len() == 0 {
        assert(seq![x] + s =~= seq![x]);
        assert(seq![x].drop_last() =~= Seq::<Option<E>>::empty());
        assert(pending_newest_first(Seq::<Option<E>>::empty()) =~= Seq::<E>::empty());
        match x {
            Some(e) => assert(pending_newest_first(seq![x]) =~= seq![e]),
            None => assert(pending_newest_first(seq![x]) =~= Seq::<E>::empty()),
        }
    } else {
        lemma_pending_prepend(x, s.drop_last());
        assert((seq![x] + s).drop_last() =~= seq![x] + s.drop_last());
        assert((seq![x] + s).last() == s.last());
        match s.last() {
            Some(e) => {
                assert(pending_newest_first(seq![x] + s) =~= seq![e] + pending_newest_first(seq![x] + s.drop_last()));
            },
            None => {},
        }
    }
}

/// A stack the operations can reach: its top entry is never a released one.
pub open spec fn settled<E>(s: Seq<Option<E>>) -> bool {
    s.len() == 0 || s.last() is Some
}

proof fn lemma_drop_released_settled<E>(s: Seq<Option<E>>)
    ensures
        settled(drop_released(s)),
        drop_released(s).len() <= s.len(),
        drop_released(s) == s.take(drop_released(s).len() as int),
    decreases s.len(),
{
    if s.len() > 0 && s.last() is None {
        lemma_drop_released_settled(s.drop_last());
        let d = drop_released(s.drop_last());
        assert(s.drop_last().take(d.len() as int) =~= s.take(d.len() as int));
    } else {
        assert(s.take(s.len() as int) =~= s);
    }
}

/// Registering a cleanup and releasing it at once gives back the stack as
/// it was, for every stack the operations reach.
pub proof fn law_push_then_release_restores<E>(s: Seq<Option<E>>, e: E)
    requires
        settled(s),
    ensures
        released(s.push(Some(e)), s.len() as int) == s,
{
    assert(s.push(Some(e)).drop_last() =~= s);
}

/// Registering and releasing keep the top entry unreleased.
pub proof fn law_push_and_release_keep_stack_settled<E>(s: Seq<Option<E>>, e: E, index: int)
    requires
        settled(s),
    ensures
        settled(s.push(Some(e))),
        settled(released(s, index)),
{
    lemma_drop_released_settled(s.drop_last());
    if index + 1 == s.len() {
    } else if 0 <= index < s.len() {
        assert(s.update(index, None).last() == s.last());
    }
}

/// Draining above a depth hands back every cleanup still registered there,
/// newest first, and none of those below it.
pub proof fn law_drain_splits_at_depth<E>(s: Seq<Option<E>>, depth: int)
    requires
        0 <= depth <= s.len(),
    ensures
        pending_newest_first(s) == pending_newest_first(s.subrange(depth, s.len() as int))
            + pending_newest_first(s.take(depth)),
    decreases s.len() - depth,
{
    if depth == s.len() {
        assert(s.subrange(depth, s.len() as int) =~= Seq::<Option<E>>::empty());
        assert(s.take(depth) =~= s);
        assert(Seq::<E>::empty() + pending_newest_first(s) =~= pending_newest_first(s));
    } else {
        law_drain_splits_at_depth(s, depth + 1);
        let x = s[depth];
        let above = s.subrange(depth + 1, s.len() as int);
        assert(s.subrange(depth, s.len() as int) =~= seq![x] + above);
        lemma_pending_prepend(x, above);
        assert(s.take(depth + 1) =~= s.take(depth).push(x));
        assert(s.take(depth + 1).drop_last() =~= s.take(depth));
        match x {
            Some(v) => {
                assert(pending_newest_first(s.take(depth + 1)) =~= seq![v] + pending_newest_first(s.take(depth)));
                assert(pending_newest_first(s) =~= (pending_newest_first(above) + seq![v]) + pending_newest_first(s.take(depth)));
            },
            None => {
                assert(pending_newest_first(s.take(depth + 1)) =~= pending_newest_first(s.take(depth)));
            },
        }
    }
}

impl<E> View for CleanupStack<E> {
    type V = Seq<Option<E>>;

    closed spec fn view(&self) -> Seq<Option<E>> {
        self.entries@
    }
}

impl<E> CleanupStack<E> {
    /// An empty stack.
    pub fn new() -> (r: Self)
        ensures
            r@.len() == 0,
    {
        CleanupStack { entries: Vec::new() }
    }

    /// How many entries the stack holds.
    pub fn depth(&self) -> (r: usize)
        ensures
            r == self@.len(),
    {
        self.entries.len()
    }

    /// Registers a cleanup; hands back its index.
    pub fn push(&mut self, cleanup: E) -> (r: usize)
        ensures
            final(self)@ == old(self)@.push(Some(cleanup)),
            r == old(self)@.len(),
    {
        self.entries.push(Some(cleanup));
        self.entries.len() - 1
    }

    /// Releases the entry at `index`, whose guard is gone.
    pub fn release(&mut self, index: usize)
        ensures
            final(self)@ == released(old(self)@, index as int),
    {
        if index < self.entries.len() && index + 1 == self.entries.len() {
            let _ = self.entries.pop();
            while self.entries.len() > 0 && self.entries[self.entries.len() - 1].is_none()
                invariant
                    drop_released(self@) == drop_released(old(self)@.drop_last()),
                decreases self@.len(),
            {
                let _ = self.entries.pop();
            }
        } else if index < self.entries.len() {
            self.entries.set(index, None);
        }
    }

    /// Removes the entries above `depth` and hands back their cleanups, newest
    /// first, for the caller to run.
    pub fn drain_above(&mut self, depth: usize) -> (r: Vec<E>)
        ensures
            depth >= old(self)@.len() ==> final(self)@ == old(self)@ && r@.len() == 0,
            depth < old(self)@.len() ==> final(self)@ == old(self)@.take(depth as int)
                && r@ == pending_newest_first(old(self)@.subrange(depth as int, old(self)@.len() as int)),
    {
        let mut out: Vec<E> = Vec::new();
        if depth >= self.entries.len() {
            return out;
        }
        let ghost top = old(self)@.subrange(depth as int, old(self)@.len() as int);
        while self.entries.len() > depth
            invariant
                depth <= self@.len() <= old(self)@.len(),
                self@ == old(self)@.take(self@.len() as int),
                top == old(self)@.subrange(depth as int, old(self)@.len() as int),
                out@ == pending_newest_first(old(self)@.subrange(self@.len() as int, old(self)@.len() as int)),
            decreases self@.len(),
        {
            let ghost n = self@.len();
            let e = self.entries.pop().unwrap();
            proof {
                let l = old(self)@.len() as int;
                assert(old(self)@.subrange(n - 1, l) =~= seq![old(self)@[n - 1]] + old(self)@.subrange(n as int, l));
                lemma_pending_prepend(old(self)@[n - 1], old(self)@.subrange(n as int, l));
                assert(e == old(self)@[n - 1]);
            }
            match e {
                Some(c) => out.push(c),
                None => {},
            }
            assert(self@ =~= old(self)@.take(self@.len() as int));
        }
        out
    }
}

} // verus!
