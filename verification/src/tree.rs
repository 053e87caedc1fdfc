//! Finding components by name and replacing subtrees along a path of child indices.
use vstd::prelude::*;

use crate::component::{lemma_view_child, view_of, ComponentBase, ComponentView};
use crate::layout::{lemma_kids_fit, tree_fits};

verus! {

/// Path (child indices from the root) to the first component, in pre-order,
/// named `name`.
pub open spec fn find_path(v: ComponentView, name: Seq<char>) -> Option<Seq<usize>>
    decreases v, 1int, 0int,
{
    if v.name == Some(name) {
        Some(seq![])
    } else {
        find_path_in(v.children, 0, name)
    }
}

pub open spec fn find_path_in(s: Seq<ComponentView>, i: int, name: Seq<char>) -> Option<Seq<usize>>
    decreases s, 0int, s.len() - i,
{
    if i < 0 || i >= s.len() || i > usize::MAX {
        None
    } else {
        match find_path(s[i], name) {
            Some(p) => Some(seq![i as usize] + p),
            None => find_path_in(s, i + 1, name),
        }
    }
}

/// Whether `p` leads from `v` to one of its descendants (or to `v` itself when empty).
pub open spec fn path_ok(v: ComponentView, p: Seq<usize>) -> bool
    decreases p.len(),
{
    p.len() == 0 || (p[0] < v.children.len() && path_ok(v.children[p[0] as int], p.skip(1)))
}

/// The component `p` leads to.
pub open spec fn at_path(v: ComponentView, p: Seq<usize>) -> ComponentView
    decreases p.len(),
{
    if p.len() == 0 {
        v
    } else {
        at_path(v.children[p[0] as int], p.skip(1))
    }
}

/// `v` with the component `p` leads to replaced by `n`.
pub open spec fn put_at_path(v: ComponentView, p: Seq<usize>, n: ComponentView) -> ComponentView
    decreases p.len(),
{
    if p.len() == 0 {
        n
    } else {
        ComponentView {
            children: v.children.update(
                p[0] as int,
                put_at_path(v.children[p[0] as int], p.skip(1), n),
            ),
            ..v
        }
    }
}

/// A found path leads to a component with that name.
pub proof fn lemma_find_path_ok(v: ComponentView, name: Seq<char>)
    ensures
        find_path(v, name) matches Some(p) ==> path_ok(v, p) && at_path(v, p).name == Some(name),
    decreases v, 1int, 0int,
{
    if v.name != Some(name) {
        lemma_find_path_in_ok(v.children, 0, name);
        match find_path_in(v.children, 0, name) {
            Some(p) => {
                assert(p.len() > 0);
            },
            None => {},
        }
    }
}

proof fn lemma_find_path_in_ok(s: Seq<ComponentView>, i: int, name: Seq<char>)
    ensures
        find_path_in(s, i, name) matches Some(p) ==> p.len() > 0 && p[0] < s.len() && path_ok(
            s[p[0] as int],
            p.skip(1),
        ) && at_path(s[p[0] as int], p.skip(1)).name == Some(name),
    decreases s, 0int, s.len() - i,
{
    if 0 <= i < s.len() && i <= usize::MAX {
        lemma_find_path_ok(s[i], name);
        match find_path(s[i], name) {
            Some(p) => {
                let q = seq![i as usize] + p;
                assert(q.skip(1) =~= p);
            },
            None => {
                lemma_find_path_in_ok(s, i + 1, name);
            },
        }
    }
}

impl ComponentBase {
    /// Path from this component to the first component, in pre-order, named `name`.
    pub fn path_to(&self, name: &String) -> (r: Option<Vec<usize>>)
        ensures
            match r {
                Some(p) => find_path(self@, name@) == Some(p@),
                None => find_path(self@, name@) is None,
            },
        decreases self,
    {
        let own = match &self.name {
            Some(n) => *n == *name,
            None => false,
        };
        if own {
            let p: Vec<usize> = Vec::new();
            assert(p@ =~= Seq::<usize>::empty());
            return Some(p);
        }
        let ghost v = self@;
        let n = self.children.len();
        let mut i: usize = 0;
        while i < n
            invariant
                i <= n == self.children@.len() == v.children.len(),
                v == self@,
                v.name != Some(name@),
                find_path(v, name@) == find_path_in(v.children, i as int, name@),
            decreases n - i,
        {
            proof {
                lemma_view_child(*self, i as int);
                assert(decreases_to!(self => self.children));
                assert(decreases_to!(self.children => self.children@));
                assert(decreases_to!(self.children@ => self.children@[i as int]));
            }
            match self.children[i].path_to(name) {
                Some(mut p) => {
                    let ghost q = p@;
                    p.insert(0, i);
                    assert(p@ =~= seq![i] + q);
                    return Some(p);
                },
                None => {},
            }
            i = i + 1;
        }
        None
    }

    /// The first component, in pre-order, named `name`.
    pub fn find_by_name(&self, name: &str) -> (r: Option<&ComponentBase>)
        ensures
            match r {
                Some(c) => find_path(self@, name@) matches Some(p) && c@ == at_path(self@, p),
                None => find_path(self@, name@) is None,
            },
    {
        let target = name.to_owned();
        match self.path_to(&target) {
            Some(p) => {
                proof {
                    lemma_find_path_ok(self@, name@);
                    assert(p@.skip(0) =~= p@);
                }
                Some(self.node_at(&p, 0))
            },
            None => None,
        }
    }

    /// The first component below this one, in pre-order, named `name`; none
    /// when this component itself bears the name.
    pub fn find_component_by_name(&self, name: &str) -> (r: Option<&ComponentBase>)
        ensures
            match r {
                Some(c) => {
                    &&& self@.name != Some(name@)
                    &&& find_path(self@, name@) matches Some(p)
                    &&& p.len() > 0
                    &&& c@ == at_path(self@, p)
                },
                None => self@.name == Some(name@) || find_path(self@, name@) is None,
            },
    {
        let target = name.to_owned();
        match self.path_to(&target) {
            Some(p) => {
                proof {
                    lemma_find_path_ok(self@, name@);
                    assert(p@.skip(0) =~= p@);
                }
                if p.len() == 0 {
                    None
                } else {
                    Some(self.node_at(&p, 0))
                }
            },
            None => None,
        }
    }

    /// The component `path[k..]` leads to.
    pub fn node_at(&self, path: &Vec<usize>, k: usize) -> (c: &ComponentBase)
        requires
            k <= path@.len(),
            path_ok(self@, path@.skip(k as int)),
        ensures
            c@ == at_path(self@, path@.skip(k as int)),
        decreases path@.len() - k,
    {
        if k == path.len() {
            return self;
        }
        let i = path[k];
        let ghost p = path@.skip(k as int);
        assert(p[0] == i);
        assert(p.skip(1) =~= path@.skip(k + 1));
        proof {
            lemma_view_child(*self, i as int);
        }
        self.children[i].node_at(path, k + 1)
    }

    /// Puts `node` where `path[k..]` leads and returns the component that was there.
    pub fn replace_at(&mut self, path: &Vec<usize>, k: usize, node: ComponentBase) -> (was: ComponentBase)
        requires
            k <= path@.len(),
            path_ok(old(self)@, path@.skip(k as int)),
        ensures
            was@ == at_path(old(self)@, path@.skip(k as int)),
            final(self)@ == put_at_path(old(self)@, path@.skip(k as int), node@),
        decreases path@.len() - k,
    {
        if k == path.len() {
            let mut n = node;
            std::mem::swap(self, &mut n);
            return n;
        }
        let i = path[k];
        let ghost p = path@.skip(k as int);
        let ghost before = *self;
        assert(p[0] == i);
        assert(p.skip(1) =~= path@.skip(k + 1));
        proof {
            lemma_view_child(*self, i as int);
        }
        let was = self.children[i].replace_at(path, k + 1, node);
        proof {
            let av = view_of(*self);
            let bv = view_of(before);
            assert forall|j: int| 0 <= j < bv.children.len() && j != i implies av.children[j]
                == bv.children[j] by {
                lemma_view_child(*self, j);
                lemma_view_child(before, j);
            }
            lemma_view_child(*self, i as int);
            assert(av.children =~= bv.children.update(i as int, put_at_path(bv.children[i as int], p.skip(1), node@)));
        }
        was
    }
}

/// `v` with the first component named `name` (if any) replaced by `f` of it.
pub open spec fn edit_named(v: ComponentView, name: Seq<char>, n: ComponentView) -> ComponentView {
    match find_path(v, name) {
        Some(p) => put_at_path(v, p, n),
        None => v,
    }
}

/// The first component named `name`, if any.
pub open spec fn named_node(v: ComponentView, name: Seq<char>) -> Option<ComponentView> {
    match find_path(v, name) {
        Some(p) => Some(at_path(v, p)),
        None => None,
    }
}

pub proof fn lemma_put_put(v: ComponentView, p: Seq<usize>, a: ComponentView, b: ComponentView)
    requires
        path_ok(v, p),
    ensures
        path_ok(put_at_path(v, p, a), p),
        put_at_path(put_at_path(v, p, a), p, b) == put_at_path(v, p, b),
    decreases p.len(),
{
    if p.len() > 0 {
        let i = p[0] as int;
        lemma_put_put(v.children[i], p.skip(1), a, b);
        let w = put_at_path(v, p, a);
        assert(w.children[i] == put_at_path(v.children[i], p.skip(1), a));
        assert(w.children.update(i, put_at_path(w.children[i], p.skip(1), b)) =~= v.children.update(
            i,
            put_at_path(v.children[i], p.skip(1), b),
        ));
    }
}

/// Changes of one field of the first component with a given name.
pub enum NodeEdit {
    MaxWidth(i32),
    MinHeight(i32),
}

pub open spec fn edited(c: ComponentView, e: NodeEdit) -> ComponentView {
    match e {
        NodeEdit::MaxWidth(w) => ComponentView { max_width: w, ..c },
        NodeEdit::MinHeight(h) => ComponentView { min_height: h, ..c },
    }
}

impl ComponentBase {
    /// Applies `e` to the first component, in pre-order, named `name`; returns
    /// whether there was one.
    pub fn edit_by_name(&mut self, name: &str, e: NodeEdit) -> (found: bool)
        ensures
            found == (find_path(old(self)@, name@) is Some),
            final(self)@ == match named_node(old(self)@, name@) {
                Some(c) => edit_named(old(self)@, name@, edited(c, e)),
                None => old(self)@,
            },
    {
        let target = name.to_owned();
        match self.path_to(&target) {
            Some(p) => {
                let ghost v = self@;
                proof {
                    lemma_find_path_ok(v, name@);
                    assert(p@.skip(0) =~= p@);
                }
                let blank = ComponentBase::new(0, 0, 0, 0);
                let ghost bv = blank@;
                let mut node = self.replace_at(&p, 0, blank);
                match e {
                    NodeEdit::MaxWidth(w) => node.set_max_width(w),
                    NodeEdit::MinHeight(h) => node.set_min_height(h),
                }
                proof {
                    lemma_put_put(v, p@, bv, node@);
                }
                let _ = self.replace_at(&p, 0, node);
                true
            },
            None => false,
        }
    }
}

/// A subtree of a tree within the layout limits is within them.
pub proof fn lemma_at_path_fits(v: ComponentView, p: Seq<usize>)
    requires
        tree_fits(v),
        path_ok(v, p),
    ensures
        tree_fits(at_path(v, p)),
    decreases p.len(),
{
    if p.len() > 0 {
        lemma_kids_fit(v.children);
        assert(tree_fits(v.children[p[0] as int]));
        lemma_at_path_fits(v.children[p[0] as int], p.skip(1));
    }
}

/// Putting a subtree within the layout limits into a tree within them keeps it within them.
pub proof fn lemma_put_fits(v: ComponentView, p: Seq<usize>, n: ComponentView)
    requires
        tree_fits(v),
        path_ok(v, p),
        tree_fits(n),
        p.len() > 0 ==> crate::layout::local_fits(ComponentView { children: v.children, ..v }),
    ensures
        tree_fits(put_at_path(v, p, n)),
    decreases p.len(),
{
    if p.len() > 0 {
        let i = p[0] as int;
        lemma_kids_fit(v.children);
        assert(tree_fits(v.children[i]));
        lemma_put_fits(v.children[i], p.skip(1), n);
        let r = put_at_path(v, p, n);
        assert forall|j: int| 0 <= j < r.children.len() implies #[trigger] tree_fits(r.children[j]) by {
            if j != i {
                assert(r.children[j] == v.children[j]);
            }
        }
        lemma_kids_fit(r.children);
    }
}

} // verus!
