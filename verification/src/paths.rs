use vstd::prelude::*;

verus! {

/// What appending one path component does to a path: an empty component is
/// never inserted, the first component stands alone, and every later one is
/// preceded by a single separator.
pub open spec fn push_elem_spec(p: Seq<u8>, name: Seq<u8>) -> Seq<u8> {
    if name.len() == 0 {
        p
    } else if p.len() == 0 {
        name
    } else {
        p + seq![47u8] + name
    }
}

/// What removing the last path component does to a path: truncate at the last
/// separator, or clear the path when no separator is left.
pub open spec fn pop_elem_spec(p: Seq<u8>) -> Seq<u8>
    decreases p.len(),
{
    if p.len() == 0 {
        Seq::empty()
    } else if p.last() == 47u8 {
        p.drop_last()
    } else {
        pop_elem_spec(p.drop_last())
    }
}

/// The path that results from appending the components of `cs` in order,
/// starting from `p`.
pub open spec fn pushed_all(p: Seq<u8>, cs: Seq<Seq<u8>>) -> Seq<u8>
    decreases cs.len(),
{
    if cs.len() == 0 {
        p
    } else {
        push_elem_spec(pushed_all(p, cs.drop_last()), cs.last())
    }
}

/// Components joined by a single separator, with no separator at either edge.
pub open spec fn join_slash(cs: Seq<Seq<u8>>) -> Seq<u8>
    decreases cs.len(),
{
    if cs.len() == 0 {
        Seq::empty()
    } else if cs.len() == 1 {
        cs[0]
    } else {
        join_slash(cs.drop_last()) + seq![47u8] + cs.last()
    }
}

/// A usable path component: not empty, and free of the separator byte.
pub open spec fn component_ok(c: Seq<u8>) -> bool {
    c.len() > 0 && forall|i: int| 0 <= i < c.len() ==> c[i] != 47u8
}

/// Removing a component undoes appending it: for any separator-free,
/// non-empty component, a pop right after a push restores the path.
pub proof fn lemma_pop_restores_push(p: Seq<u8>, name: Seq<u8>)
    requires
        component_ok(name),
    ensures
        pop_elem_spec(push_elem_spec(p, name)) == p,
{
    if p.len() == 0 {
        assert(push_elem_spec(p, name) =~= Seq::<u8>::empty() + name);
        lemma_pop_skips_suffix(Seq::empty(), name);
        assert(pop_elem_spec(Seq::<u8>::empty()) =~= p);
    } else {
        let q = p + seq![47u8];
        assert(push_elem_spec(p, name) == q + name);
        lemma_pop_skips_suffix(q, name);
        assert(q.last() == 47u8);
        assert(pop_elem_spec(q) =~= p) by {
            assert(q.drop_last() =~= p);
        }
    }
}

/// A separator-free suffix never affects where the path is truncated.
pub proof fn lemma_pop_skips_suffix(q: Seq<u8>, name: Seq<u8>)
    requires
        forall|i: int| 0 <= i < name.len() ==> name[i] != 47u8,
    ensures
        pop_elem_spec(q + name) == pop_elem_spec(q),
    decreases name.len(),
{
    if name.len() == 0 {
        assert(q + name =~= q);
    } else {
        let whole = q + name;
        assert(whole.last() == name.last());
        assert(whole.last() != 47u8);
        assert(whole.drop_last() =~= q + name.drop_last());
        lemma_pop_skips_suffix(q, name.drop_last());
    }
}

/// Decides whether a name can serve as a path component.
pub fn name_ok(v: &Vec<u8>) -> (r: bool)
    ensures
        r == component_ok(v@),
{
    if v.len() == 0 {
        return false;
    }
    let mut i: usize = 0;
    while i < v.len()
        invariant
            i <= v@.len(),
            v@.len() > 0,
            forall|k: int| 0 <= k < i ==> v@[k] != 47u8,
        decreases v@.len() - i,
    {
        if v[i] == 47 {
            proof {
                assert(v@[i as int] == 47u8);
            }
            return false;
        }
        i = i + 1;
    }
    true
}

/// Truncating at the last separator is what the pop spec demands: when `i`
/// is the last separator's position, the path is cut back to just before it.
pub proof fn lemma_pop_at_last_sep(p: Seq<u8>, i: int)
    requires
        0 <= i < p.len(),
        p[i] == 47u8,
        forall|k: int| i < k < p.len() ==> p[k] != 47u8,
    ensures
        pop_elem_spec(p) == p.take(i),
    decreases p.len(),
{
    if i == p.len() - 1 {
        assert(p.last() == 47u8);
        assert(p.drop_last() =~= p.take(i));
    } else {
        assert(p.last() != 47u8);
        let q = p.drop_last();
        assert(q[i] == 47u8);
        assert(forall|k: int| i < k < q.len() ==> q[k] != 47u8);
        lemma_pop_at_last_sep(q, i);
        assert(q.take(i) =~= p.take(i));
    }
}

/// A path without a separator pops to the empty path.
pub proof fn lemma_pop_no_sep(p: Seq<u8>)
    requires
        forall|k: int| 0 <= k < p.len() ==> p[k] != 47u8,
    ensures
        pop_elem_spec(p) == Seq::<u8>::empty(),
    decreases p.len(),
{
    if p.len() > 0 {
        lemma_pop_no_sep(p.drop_last());
    }
}

/// The label path is the components joined by a single separator with no
/// separator at either edge: appending usable components one by one, starting
/// from the empty path, yields exactly that joined form.
pub proof fn lemma_pushed_all_is_join(cs: Seq<Seq<u8>>)
    requires
        forall|k: int| 0 <= k < cs.len() ==> component_ok(#[trigger] cs[k]),
    ensures
        pushed_all(Seq::empty(), cs) == join_slash(cs),
    decreases cs.len(),
{
    if cs.len() == 0 {
    } else {
        let head = cs.drop_last();
        assert(forall|k: int| 0 <= k < head.len() ==> component_ok(#[trigger] head[k]));
        lemma_pushed_all_is_join(head);
        if cs.len() == 1 {
            assert(join_slash(head) =~= Seq::<u8>::empty());
            assert(pushed_all(Seq::empty(), cs) =~= cs[0]);
        } else {
            lemma_join_nonempty(head);
            assert(pushed_all(Seq::empty(), cs) =~= join_slash(head) + seq![47u8] + cs.last());
        }
    }
}

/// Joining at least one usable component yields a non-empty path.
pub proof fn lemma_join_nonempty(cs: Seq<Seq<u8>>)
    requires
        cs.len() > 0,
        forall|k: int| 0 <= k < cs.len() ==> component_ok(#[trigger] cs[k]),
    ensures
        join_slash(cs).len() > 0,
    decreases cs.len(),
{
    if cs.len() == 1 {
        assert(component_ok(cs[0]));
    } else {
    }
}

} // verus!
