//! The merge view's per-file history: a table keyed by file name, the
//! stacks of file contents that undo restores, and the line range that the
//! last applied hunk occupies in each file.

use vstd::prelude::*;
use crate::text::{chars_eq, chars_of, string_of, views};

verus! {

broadcast use vstd::string::group_string_axioms;

/// The value stored under `f`: the entry with that name nearest the end.
pub open spec fn lookup<V>(es: Seq<(String, V)>, f: Seq<char>) -> Option<V>
    decreases es.len(),
{
    if es.len() == 0 {
        None
    } else if es.last().0@ == f {
        Some(es.last().1)
    } else {
        lookup(es.drop_last(), f)
    }
}

pub open spec fn distinct_names<V>(es: Seq<(String, V)>) -> bool {
    forall|i: int, j: int| 0 <= i < j < es.len() ==> es[i].0@ != es[j].0@
}

proof fn lemma_lookup_at<V>(es: Seq<(String, V)>, i: int)
    requires
        distinct_names(es),
        0 <= i < es.len(),
    ensures
        lookup(es, es[i].0@) == Some(es[i].1),
    decreases es.len(),
{
    if i < es.len() - 1 {
        assert(es.last().0@ != es[i].0@);
        assert(es.drop_last()[i] == es[i]);
        lemma_lookup_at(es.drop_last(), i);
    }
}

proof fn lemma_lookup_absent<V>(es: Seq<(String, V)>, f: Seq<char>)
    requires
        forall|i: int| 0 <= i < es.len() ==> es[i].0@ != f,
    ensures
        lookup(es, f) is None,
    decreases es.len(),
{
    if es.len() > 0 {
        assert(es.last().0@ != f);
        lemma_lookup_absent(es.drop_last(), f);
    }
}

proof fn lemma_lookup_some<V>(es: Seq<(String, V)>, f: Seq<char>)
    requires
        lookup(es, f) is Some,
    ensures
        exists|i: int| 0 <= i < es.len() && es[i].0@ == f && lookup(es, f) == Some(es[i].1),
    decreases es.len(),
{
    if es.last().0@ != f {
        lemma_lookup_some(es.drop_last(), f);
        let i = choose|i: int|
            0 <= i < es.drop_last().len() && es.drop_last()[i].0@ == f && lookup(es.drop_last(), f)
                == Some(es.drop_last()[i].1);
        assert(es[i] == es.drop_last()[i]);
    } else {
        assert(es[es.len() - 1] == es.last());
    }
}

/// Values stored by file name, each name at most once.
pub struct FileTable<V> {
    entries: Vec<(String, V)>,
}

impl<V> FileTable<V> {
    /// Each name occurs at most once.
    pub closed spec fn wf(&self) -> bool {
        distinct_names(self.entries@)
    }

    /// What is stored under `f`.
    pub closed spec fn get(&self, f: Seq<char>) -> Option<V> {
        lookup(self.entries@, f)
    }

    /// An empty table.
    pub fn new() -> (r: Self)
        ensures
            r.wf(),
            forall|f: Seq<char>| #[trigger] r.get(f) is None,
    {
        FileTable { entries: Vec::new() }
    }

    fn position(&self, f: &str) -> (r: Option<usize>)
        requires
            self.wf(),
        ensures
            r matches Some(i) ==> i < self.entries@.len() && self.entries@[i as int].0@ == f@
                && self.get(f@) == Some(self.entries@[i as int].1),
            r is None ==> self.get(f@) is None,
    {
        let fc = chars_of(f);
        let mut i: usize = 0;
        while i < self.entries.len()
            invariant
                i <= self.entries@.len(),
                distinct_names(self.entries@),
                fc@ == f@,
                forall|k: int| 0 <= k < i ==> self.entries@[k].0@ != f@,
            decreases self.entries.len() - i,
        {
            let n = chars_of(self.entries[i].0.as_str());
            if chars_eq(n.as_slice(), fc.as_slice()) {
                proof {
                    lemma_lookup_at(self.entries@, i as int);
                }
                return Some(i);
            }
            i += 1;
        }
        proof {
            lemma_lookup_absent(self.entries@, f@);
        }
        None
    }

    /// A reference to what is stored under `f`.
    pub fn get_ref(&self, f: &str) -> (r: Option<&V>)
        requires
            self.wf(),
        ensures
            r matches Some(v) ==> self.get(f@) == Some(*v),
            r is None ==> self.get(f@) is None,
    {
        match self.position(f) {
            Some(i) => Some(&self.entries[i].1),
            None => None,
        }
    }

    /// Stores `v` under `f`, in place of what was there.
    pub fn set(&mut self, f: &str, v: V)
        requires
            old(self).wf(),
        ensures
            final(self).wf(),
            forall|g: Seq<char>|
                #[trigger] final(self).get(g) == if g == f@ {
                    Some(v)
                } else {
                    old(self).get(g)
                },
    {
        let _ = self.take(f);
        let ghost t1 = *self;
        let ghost mid = self.entries@;
        assert(distinct_names(mid));
        assert(t1.get(f@) is None);
        let name = crate::text::string_of(chars_of(f).as_slice());
        self.entries.push((name, v));
        proof {
            assert(self.entries@.drop_last() =~= mid);
            assert forall|i: int, j: int|
                0 <= i < j < self.entries@.len() implies self.entries@[i].0@ != self.entries@[j].0@ by {
                if j == self.entries@.len() - 1 {
                    assert(self.entries@[i] == mid[i]);
                    if mid[i].0@ == f@ {
                        lemma_lookup_at(mid, i);
                    }
                } else {
                    assert(self.entries@[i] == mid[i]);
                    assert(self.entries@[j] == mid[j]);
                }
            }
            assert forall|g: Seq<char>| #[trigger]
                self.get(g) == if g == f@ {
                    Some(v)
                } else {
                    old(self).get(g)
                } by {
                assert(t1.get(g) == if g == f@ {
                    None
                } else {
                    old(self).get(g)
                });
            }
        }
    }

    /// Removes what is stored under `f` and hands it back.
    pub fn take(&mut self, f: &str) -> (r: Option<V>)
        requires
            old(self).wf(),
        ensures
            final(self).wf(),
            r == old(self).get(f@),
            forall|g: Seq<char>|
                #[trigger] final(self).get(g) == if g == f@ {
                    None
                } else {
                    old(self).get(g)
                },
    {
        match self.position(f) {
            None => {
                proof {
                    assert forall|g: Seq<char>| #[trigger]
                        self.get(g) == if g == f@ {
                            None
                        } else {
                            old(self).get(g)
                        } by {}
                }
                None
            },
            Some(i) => {
                let ghost before = self.entries@;
                let (_, v) = self.entries.remove(i);
                proof {
                    let after = self.entries@;
                    assert(after =~= before.remove(i as int));
                    assert forall|a: int, b: int|
                        0 <= a < b < after.len() implies after[a].0@ != after[b].0@ by {
                        let a2 = if a < i { a } else { a + 1 };
                        let b2 = if b < i { b } else { b + 1 };
                        assert(after[a] == before[a2]);
                        assert(after[b] == before[b2]);
                    }
                    assert forall|g: Seq<char>| #[trigger]
                        self.get(g) == if g == f@ {
                            None
                        } else {
                            old(self).get(g)
                        } by {
                        if g == f@ {
                            assert forall|k: int| 0 <= k < after.len() implies after[k].0@ != g by {
                                let k2 = if k < i { k } else { k + 1 };
                                assert(after[k] == before[k2]);
                            }
                            lemma_lookup_absent(after, g);
                        } else {
                            if lookup(before, g) is Some {
                                lemma_lookup_some(before, g);
                                let k = choose|k: int|
                                    0 <= k < before.len() && before[k].0@ == g && lookup(before, g)
                                        == Some(before[k].1);
                                let k2 = if k < i { k } else { k - 1 };
                                assert(after[k2] == before[k]);
                                lemma_lookup_at(after, k2);
                            } else {
                                assert forall|k: int| 0 <= k < after.len() implies after[k].0@ != g by {
                                    let k2 = if k < i { k } else { k + 1 };
                                    assert(after[k] == before[k2]);
                                    if before[k2].0@ == g {
                                        lemma_lookup_at(before, k2);
                                    }
                                }
                                lemma_lookup_absent(after, g);
                            }
                        }
                    }
                }
                Some(v)
            },
        }
    }
}


pub open spec fn stack_view(o: Option<Vec<String>>) -> Seq<Seq<char>> {
    match o {
        Some(v) => views(v@),
        None => Seq::empty(),
    }
}

pub open spec fn opt_text(o: Option<String>) -> Option<Seq<char>> {
    match o {
        Some(s) => Some(s@),
        None => None,
    }
}

/// Per-file merge history: undo stacks and last applied ranges.
pub struct MergeHistory {
    undo: FileTable<Vec<String>>,
    ranges: FileTable<(usize, usize)>,
}

/// `b` is `a` after `content` was pushed on the undo stack of `f`.
pub open spec fn pushed(a: MergeHistory, b: MergeHistory, f: Seq<char>, content: Seq<char>) -> bool {
    &&& forall|g: Seq<char>|
        #[trigger] b.stack(g) == if g == f {
            a.stack(f).push(content)
        } else {
            a.stack(g)
        }
    &&& forall|g: Seq<char>| #[trigger] b.range(g) == a.range(g)
}

/// `b` is `a` after the undo stack of `f` was popped, giving `r`.
pub open spec fn popped(a: MergeHistory, b: MergeHistory, f: Seq<char>, r: Option<Seq<char>>) -> bool {
    &&& if a.stack(f).len() == 0 {
        &&& r is None
        &&& forall|g: Seq<char>| #[trigger] b.stack(g) == a.stack(g)
    } else {
        &&& r == Some(a.stack(f).last())
        &&& forall|g: Seq<char>|
            #[trigger] b.stack(g) == if g == f {
                a.stack(f).drop_last()
            } else {
                a.stack(g)
            }
    }
    &&& forall|g: Seq<char>| #[trigger] b.range(g) == a.range(g)
}

impl MergeHistory {
    pub closed spec fn wf(&self) -> bool {
        self.undo.wf() && self.ranges.wf()
    }

    /// The undo stack of file `f`, oldest first.
    pub closed spec fn stack(&self, f: Seq<char>) -> Seq<Seq<char>> {
        stack_view(self.undo.get(f))
    }

    /// The line range of the hunk last applied to `f`.
    pub closed spec fn range(&self, f: Seq<char>) -> Option<(usize, usize)> {
        self.ranges.get(f)
    }

    /// No history for any file.
    pub fn new() -> (r: MergeHistory)
        ensures
            r.wf(),
            forall|f: Seq<char>| #[trigger] r.stack(f).len() == 0,
            forall|f: Seq<char>| #[trigger] r.range(f) is None,
    {
        let r = MergeHistory { undo: FileTable::new(), ranges: FileTable::new() };
        assert forall|f: Seq<char>| #[trigger] r.stack(f).len() == 0 by {
            assert(r.undo.get(f) is None);
        }
        r
    }

    /// Saves `content` as the state of `filename` that the next undo
    /// restores.
    pub fn push_undo(&mut self, filename: &str, content: &str)
        requires
            old(self).wf(),
        ensures
            final(self).wf(),
            pushed(*old(self), *final(self), filename@, content@),
    {
        let ghost a = *old(self);
        let mut v = match self.undo.take(filename) {
            Some(v) => v,
            None => Vec::new(),
        };
        let ghost t1 = self.undo;
        assert(views(v@) == a.stack(filename@));
        let ghost before = v@;
        v.push(string_of(chars_of(content).as_slice()));
        assert(views(v@) =~= views(before).push(content@));
        self.undo.set(filename, v);
        proof {
            assert forall|g: Seq<char>| #[trigger]
                self.stack(g) == if g == filename@ {
                    a.stack(filename@).push(content@)
                } else {
                    a.stack(g)
                } by {
                assert(t1.get(g) == if g == filename@ {
                    None
                } else {
                    a.undo.get(g)
                });
            }
            assert forall|g: Seq<char>| #[trigger] self.range(g) == a.range(g) by {}
        }
    }

    /// Takes the most recently saved state of `filename`, if any.
    pub fn pop_undo(&mut self, filename: &str) -> (r: Option<String>)
        requires
            old(self).wf(),
        ensures
            final(self).wf(),
            popped(*old(self), *final(self), filename@, opt_text(r)),
    {
        match self.undo.take(filename) {
            None => {
                proof {
                    assert forall|g: Seq<char>| #[trigger] self.stack(g) == old(self).stack(g) by {}
                }
                None
            },
            Some(mut v) => {
                let ghost before = v@;
                let r = v.pop();
                proof {
                    if before.len() > 0 {
                        assert(views(v@) =~= views(before).drop_last());
                    }
                }
                self.undo.set(filename, v);
                proof {
                    assert forall|g: Seq<char>| #[trigger]
                        self.stack(g) == if g == filename@ && before.len() > 0 {
                            old(self).stack(filename@).drop_last()
                        } else {
                            old(self).stack(g)
                        } by {}
                }
                r
            },
        }
    }

    /// How many saved states `filename` has.
    pub fn undo_stack_len(&self, filename: &str) -> (r: usize)
        requires
            self.wf(),
        ensures
            r == self.stack(filename@).len(),
    {
        match self.undo.get_ref(filename) {
            Some(v) => v.len(),
            None => 0,
        }
    }

    /// Whether any file still has a saved state to go back to.
    pub fn any_undo_available(&self) -> (r: bool)
        requires
            self.wf(),
        ensures
            r == exists|f: Seq<char>| #[trigger] self.stack(f).len() > 0,
    {
        let es = &self.undo.entries;
        let mut i: usize = 0;
        while i < es.len()
            invariant
                i <= es@.len(),
                es@ == self.undo.entries@,
                self.wf(),
                forall|k: int| 0 <= k < i ==> es@[k].1@.len() == 0,
            decreases es.len() - i,
        {
            if es[i].1.len() > 0 {
                proof {
                    lemma_lookup_at(es@, i as int);
                    assert(self.stack(es@[i as int].0@).len() > 0);
                }
                return true;
            }
            i += 1;
        }
        proof {
            assert forall|f: Seq<char>| #[trigger] self.stack(f).len() == 0 by {
                if lookup(es@, f) is Some {
                    lemma_lookup_some(es@, f);
                }
            }
        }
        false
    }

    /// Records the line range that the hunk last applied to `filename`
    /// occupies.
    pub fn set_last_applied_range(&mut self, filename: &str, start: usize, end: usize)
        requires
            old(self).wf(),
        ensures
            final(self).wf(),
            forall|g: Seq<char>|
                #[trigger] final(self).range(g) == if g == filename@ {
                    Some((start, end))
                } else {
                    old(self).range(g)
                },
            forall|g: Seq<char>| #[trigger] final(self).stack(g) == old(self).stack(g),
    {
        self.ranges.set(filename, (start, end));
    }

    /// The line range that the hunk last applied to `filename` occupies.
    pub fn get_last_applied_range(&self, filename: &str) -> (r: Option<(usize, usize)>)
        requires
            self.wf(),
        ensures
            r == self.range(filename@),
    {
        match self.ranges.get_ref(filename) {
            Some(p) => Some(*p),
            None => None,
        }
    }

    /// Forgets the applied range of `filename`.
    pub fn clear_last_applied_range(&mut self, filename: &str)
        requires
            old(self).wf(),
        ensures
            final(self).wf(),
            forall|g: Seq<char>|
                #[trigger] final(self).range(g) == if g == filename@ {
                    None
                } else {
                    old(self).range(g)
                },
            forall|g: Seq<char>| #[trigger] final(self).stack(g) == old(self).stack(g),
    {
        let _ = self.ranges.take(filename);
    }
}

/// Undo gives back what was saved last: popping right after pushing
/// `content` for `f` returns `content`, and every file's stack is as it
/// was before the push.
pub proof fn lemma_pop_undoes_push(
    a: MergeHistory,
    b: MergeHistory,
    c: MergeHistory,
    f: Seq<char>,
    content: Seq<char>,
    r: Option<Seq<char>>,
)
    requires
        pushed(a, b, f, content),
        popped(b, c, f, r),
    ensures
        r == Some(content),
        forall|g: Seq<char>| #[trigger] c.stack(g) == a.stack(g),
        forall|g: Seq<char>| #[trigger] c.range(g) == a.range(g),
{
    assert(b.stack(f) == a.stack(f).push(content));
    assert forall|g: Seq<char>| #[trigger] c.stack(g) == a.stack(g) by {
        if g == f {
            assert(a.stack(f).push(content).drop_last() =~= a.stack(f));
        } else {
            assert(b.stack(g) == a.stack(g));
        }
    }
    assert forall|g: Seq<char>| #[trigger] c.range(g) == a.range(g) by {
        assert(b.range(g) == a.range(g));
    }
}

/// Each push adds exactly one state to its file's stack, and undo is
/// available afterwards.
pub proof fn lemma_push_makes_undo_available(a: MergeHistory, b: MergeHistory, f: Seq<char>, content: Seq<char>)
    requires
        pushed(a, b, f, content),
    ensures
        b.stack(f).len() == a.stack(f).len() + 1,
        exists|g: Seq<char>| #[trigger] b.stack(g).len() > 0,
{
    assert(b.stack(f) == a.stack(f).push(content));
    assert(b.stack(f).len() > 0);
}

} // verus!
