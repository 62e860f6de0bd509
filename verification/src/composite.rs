//! The composite pattern: leaves and composites in one tree, rendered by one
//! recursive operation whose output is pinned down over the tree's model.

use vstd::prelude::*;

verus! {

/// A leaf of the tree.
pub struct Leaf {
    pub name: String,
}

/// An inner node with any number of children.
pub struct Composite {
    pub name: String,
    pub children: Vec<Component>,
}

/// One node of the tree.
pub enum Component {
    Leaf(Leaf),
    Composite(Composite),
}

/// The mathematical shape of a tree node.
pub enum ComponentModel {
    Leaf(Seq<char>),
    Composite(Seq<char>, Seq<ComponentModel>),
}

/// The model of a node.
pub open spec fn comp_view(c: Component) -> ComponentModel
    decreases c,
{
    match c {
        Component::Leaf(l) => ComponentModel::Leaf(l.name@),
        Component::Composite(m) => ComponentModel::Composite(m.name@, comps_view(m.children@)),
    }
}

/// The models of a list of nodes, in order.
pub open spec fn comps_view(s: Seq<Component>) -> Seq<ComponentModel>
    decreases s,
{
    if s.len() == 0 {
        Seq::empty()
    } else {
        comps_view(s.drop_last()).push(comp_view(s.last()))
    }
}

impl View for Component {
    type V = ComponentModel;

    open spec fn view(&self) -> ComponentModel {
        comp_view(*self)
    }
}

/// `comps_view` maps positions one to one.
pub proof fn lemma_comps_view_index(s: Seq<Component>)
    ensures
        comps_view(s).len() == s.len(),
        forall|i: int| 0 <= i < s.len() ==> comps_view(s)[i] == comp_view(s[i]),
    decreases s.len(),
{
    if s.len() > 0 {
        lemma_comps_view_index(s.drop_last());
        assert forall|i: int| 0 <= i < s.len() implies comps_view(s)[i] == comp_view(s[i]) by {
            if i < s.len() - 1 {
                assert(comps_view(s)[i] == comps_view(s.drop_last())[i]);
                assert(s.drop_last()[i] == s[i]);
            }
        }
    }
}

/// What a node renders as: a leaf is one line, a composite is a header
/// followed by each child's rendering, indented, one per line.
pub open spec fn rendered(m: ComponentModel) -> Seq<char>
    decreases m,
{
    match m {
        ComponentModel::Leaf(name) => "Leaf "@ + name,
        ComponentModel::Composite(name, children) => "Composite "@ + name + " contains:\n"@
            + children_rendered(children),
    }
}

/// See `rendered`.
pub open spec fn children_rendered(l: Seq<ComponentModel>) -> Seq<char>
    decreases l,
{
    if l.len() == 0 {
        Seq::empty()
    } else {
        children_rendered(l.drop_last()) + "  "@ + rendered(l.last()) + "\n"@
    }
}

impl Leaf {
    pub fn new(name: &str) -> (l: Leaf)
        ensures
            l.name@ == name@,
    {
        Leaf { name: name.to_owned() }
    }

    pub fn operation(&self) -> (r: String)
        ensures
            r@ == rendered(ComponentModel::Leaf(self.name@)),
    {
        let mut r = "Leaf ".to_owned();
        r.append(self.name.as_str());
        r
    }
}

impl Component {
    /// Renders the subtree rooted here.
    pub fn operation(&self) -> (r: String)
        ensures
            r@ == rendered(self@),
        decreases *self,
    {
        match self {
            Component::Leaf(l) => l.operation(),
            Component::Composite(m) => m.operation(),
        }
    }
}

impl Composite {
    pub fn new(name: &str) -> (c: Composite)
        ensures
            c.name@ == name@,
            c.children@ == Seq::<Component>::empty(),
    {
        let c = Composite { name: name.to_owned(), children: Vec::new() };
        proof {
            assert(c.children@ =~= Seq::<Component>::empty());
        }
        c
    }

    pub fn add(&mut self, component: Component)
        ensures
            final(self).name == old(self).name,
            final(self).children@ == old(self).children@.push(component),
    {
        self.children.push(component);
    }

    /// Renders this composite: its header, then each child indented on its
    /// own line, in insertion order.
    pub fn operation(&self) -> (r: String)
        ensures
            r@ == rendered(ComponentModel::Composite(self.name@, comps_view(self.children@))),
        decreases *self,
    {
        let ghost orig = self.children@;
        proof {
            lemma_comps_view_index(orig);
        }
        let mut r = "Composite ".to_owned();
        r.append(self.name.as_str());
        r.append(" contains:\n");
        let ghost header = r@;
        let n = self.children.len();
        let mut i: usize = 0;
        proof {
            assert(children_rendered(comps_view(orig.take(0))) =~= Seq::<char>::empty());
            assert(comps_view(orig.take(0)) =~= Seq::<ComponentModel>::empty());
        }
        while i < n
            invariant
                i <= n,
                n == orig.len(),
                self.children@ == orig,
                r@ == header + children_rendered(comps_view(orig.take(i as int))),
                forall|j: int| 0 <= j < orig.len() ==> comps_view(orig)[j] == comp_view(orig[j]),
            decreases n - i,
        {
            proof {
                lemma_comps_view_index(orig);
                assert(decreases_to!(*self => self.children@[i as int]));
            }
            let child = self.children[i].operation();
            r.append("  ");
            r.append(child.as_str());
            r.append("\n");
            proof {
                let lp = comps_view(orig.take(i as int));
                let lp1 = comps_view(orig.take(i as int + 1));
                lemma_comps_view_index(orig.take(i as int));
                lemma_comps_view_index(orig.take(i as int + 1));
                assert(lp1 =~= lp.push(comp_view(orig[i as int]))) by {
                    assert forall|j: int| 0 <= j < lp1.len() implies lp1[j] == lp.push(
                        comp_view(orig[i as int]),
                    )[j] by {
                        assert(lp1[j] == comp_view(orig.take(i as int + 1)[j]));
                        if j < i as int {
                            assert(orig.take(i as int + 1)[j] == orig.take(i as int)[j]);
                            assert(lp[j] == comp_view(orig.take(i as int)[j]));
                        }
                    }
                }
                assert(lp1.drop_last() =~= lp);
                assert(lp1.last() == comp_view(orig[i as int]));
                assert(children_rendered(lp1) == children_rendered(lp) + "  "@ + rendered(comp_view(orig[i as int])) + "\n"@);
                assert(r@ =~= header + children_rendered(lp1));
            }
            i = i + 1;
        }
        proof {
            assert(orig.take(n as int) =~= orig);
        }
        r
    }

    pub fn child_count(&self) -> (c: usize)
        ensures
            c == self.children@.len(),
    {
        self.children.len()
    }
}

} // verus!
