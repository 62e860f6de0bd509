//! Pattern matching over a closed element tree in place of an open visitor
//! hierarchy: every operation is an exhaustive match, and each one's effect
//! is pinned down over the tree's mathematical model.

use vstd::prelude::*;
use crate::text::{i32_to_string, int_digits};

verus! {

/// A tree of numbers, texts and lists.
pub enum Element {
    NumberNode(i32),
    TextNode(String),
    ListNode(Vec<Element>),
}

/// The mathematical shape of an element tree.
pub enum ElementModel {
    Number(int),
    Text(Seq<char>),
    List(Seq<ElementModel>),
}

/// The model of an element.
pub open spec fn elem_view(e: Element) -> ElementModel
    decreases e,
{
    match e {
        Element::NumberNode(n) => ElementModel::Number(n as int),
        Element::TextNode(s) => ElementModel::Text(s@),
        Element::ListNode(items) => ElementModel::List(elems_view(items@)),
    }
}

/// The models of a list of elements, in order.
pub open spec fn elems_view(s: Seq<Element>) -> Seq<ElementModel>
    decreases s,
{
    if s.len() == 0 {
        Seq::empty()
    } else {
        elems_view(s.drop_last()).push(elem_view(s.last()))
    }
}

impl View for Element {
    type V = ElementModel;

    open spec fn view(&self) -> ElementModel {
        elem_view(*self)
    }
}

/// `elems_view` maps positions one to one.
pub proof fn lemma_elems_view_index(s: Seq<Element>)
    ensures
        elems_view(s).len() == s.len(),
        forall|i: int| 0 <= i < s.len() ==> elems_view(s)[i] == elem_view(s[i]),
    decreases s.len(),
{
    if s.len() > 0 {
        lemma_elems_view_index(s.drop_last());
        assert forall|i: int| 0 <= i < s.len() implies elems_view(s)[i] == elem_view(s[i]) by {
            if i < s.len() - 1 {
                assert(elems_view(s)[i] == elems_view(s.drop_last())[i]);
                assert(s.drop_last()[i] == s[i]);
            }
        }
    }
}

/// The score of a tree: numbers doubled, texts ten per character, lists the
/// sum of their items. Text length is deliberately counted in characters —
/// the unit of the verifier's string model — not in encoded bytes, so
/// multi-byte text scores by what a reader sees.
pub open spec fn score(m: ElementModel) -> int
    decreases m,
{
    match m {
        ElementModel::Number(n) => 2 * n,
        ElementModel::Text(t) => 10 * (t.len() as int),
        ElementModel::List(l) => list_score(l),
    }
}

/// The summed score of a list, left to right.
pub open spec fn list_score(l: Seq<ElementModel>) -> int
    decreases l,
{
    if l.len() == 0 {
        0
    } else {
        list_score(l.drop_last()) + score(l.last())
    }
}

/// Every score and every left-to-right partial sum stays within `i32`.
pub open spec fn score_ok(m: ElementModel) -> bool
    decreases m,
{
    match m {
        ElementModel::Number(n) => i32::MIN <= 2 * n <= i32::MAX,
        ElementModel::Text(t) => 10 * (t.len() as int) <= i32::MAX,
        ElementModel::List(l) => list_score_ok(l),
    }
}

/// See `score_ok`.
pub open spec fn list_score_ok(l: Seq<ElementModel>) -> bool
    decreases l,
{
    &&& forall|i: int| 0 <= i < l.len() ==> score_ok(#[trigger] l[i])
    &&& forall|k: int| 0 <= k <= l.len() ==> i32::MIN <= list_score(#[trigger] l.take(k)) <= i32::MAX
}

/// The tree after one transformation pass: numbers up by ten, texts folded
/// to upper case, lists transformed item by item.
pub open spec fn transformed(m: ElementModel) -> ElementModel
    decreases m,
{
    match m {
        ElementModel::Number(n) => ElementModel::Number(n + 10),
        ElementModel::Text(t) => ElementModel::Text(upper_of(t)),
        ElementModel::List(l) => ElementModel::List(list_transformed(l)),
    }
}

/// See `transformed`.
pub open spec fn list_transformed(l: Seq<ElementModel>) -> Seq<ElementModel>
    decreases l,
{
    if l.len() == 0 {
        Seq::empty()
    } else {
        list_transformed(l.drop_last()).push(transformed(l.last()))
    }
}

/// Every number in the tree has room for the increment.
pub open spec fn transform_ok(m: ElementModel) -> bool
    decreases m,
{
    match m {
        ElementModel::Number(n) => n + 10 <= i32::MAX,
        ElementModel::Text(_) => true,
        ElementModel::List(l) => forall|i: int| 0 <= i < l.len() ==> transform_ok(#[trigger] l[i]),
    }
}

/// What a tree describes itself as: numbers and quoted texts on their own,
/// lists as a bracketed, comma-separated sequence of their items.
pub open spec fn described(m: ElementModel) -> Seq<char>
    decreases m,
{
    match m {
        ElementModel::Number(n) => "数字: "@ + int_digits(n),
        ElementModel::Text(t) => "文本: '"@ + t + "'"@,
        ElementModel::List(l) => "列表["@ + list_described(l) + "]"@,
    }
}

/// See `described`.
pub open spec fn list_described(l: Seq<ElementModel>) -> Seq<char>
    decreases l,
{
    if l.len() == 0 {
        Seq::empty()
    } else if l.len() == 1 {
        described(l.last())
    } else {
        list_described(l.drop_last()) + ", "@ + described(l.last())
    }
}

/// A list node is fit for transforming exactly when each of its items is.
pub proof fn lemma_transform_ok_elem(l: Seq<ElementModel>, i: int)
    requires
        transform_ok(ElementModel::List(l)),
        0 <= i < l.len(),
    ensures
        transform_ok(l[i]),
{
    assert(ElementModel::List(l)->List_0 == l);
}

/// See `lemma_transform_ok_elem`: the converse direction.
pub proof fn lemma_transform_ok_all(l: Seq<ElementModel>)
    requires
        forall|j: int| 0 <= j < l.len() ==> transform_ok(#[trigger] l[j]),
    ensures
        transform_ok(ElementModel::List(l)),
{
    assert(ElementModel::List(l)->List_0 == l);
}

/// A list node's scoring soundness is its items' soundness with bounded
/// partial sums, in both directions.
pub proof fn lemma_score_ok_list_unfold(l: Seq<ElementModel>)
    requires
        score_ok(ElementModel::List(l)),
    ensures
        list_score_ok(l),
{
    assert(ElementModel::List(l)->List_0 == l);
}

/// See `lemma_score_ok_list_unfold`: the converse direction.
pub proof fn lemma_score_ok_list_fold(l: Seq<ElementModel>)
    requires
        list_score_ok(l),
    ensures
        score_ok(ElementModel::List(l)),
{
    assert(ElementModel::List(l)->List_0 == l);
}

/// What `list_score_ok` asks, item by item and prefix by prefix.
pub proof fn lemma_list_score_ok_parts(l: Seq<ElementModel>)
    ensures
        list_score_ok(l) == ((forall|i: int| 0 <= i < l.len() ==> score_ok(#[trigger] l[i]))
            && (forall|k: int| 0 <= k <= l.len()
                ==> i32::MIN <= list_score(#[trigger] l.take(k)) <= i32::MAX)),
{
}

/// The upper-case folding of a text.
pub uninterp spec fn upper_of(s: Seq<char>) -> Seq<char>;

/// Relies on `str::to_uppercase`: the result depends on the characters alone.
#[verifier::external_body]
fn to_upper(s: &str) -> (r: String)
    ensures
        r@ == upper_of(s@),
{
    s.to_uppercase()
}

impl Element {
    /// The tree's score; callers keep every partial sum within `i32`.
    pub fn calculate_score(&self) -> (r: i32)
        requires
            score_ok(self@),
        ensures
            r as int == score(self@),
        decreases *self,
    {
        match self {
            Element::NumberNode(n) => *n * 2,
            Element::TextNode(s) => {
                let len = s.as_str().unicode_len();
                (len as i32) * 10
            },
            Element::ListNode(items) => {
                let ghost l = elems_view(items@);
                proof {
                    lemma_elems_view_index(items@);
                }
                let n = items.len();
                let mut acc: i32 = 0;
                let mut i: usize = 0;
                while i < n
                    invariant
                        i <= n,
                        n == items@.len(),
                        *self == Element::ListNode(*items),
                        l == elems_view(items@),
                        l.len() == n,
                        forall|j: int| 0 <= j < n ==> l[j] == elem_view(items@[j]),
                        list_score_ok(l),
                        acc as int == list_score(l.take(i as int)),
                    decreases n - i,
                {
                    proof {
                        assert(score_ok(l[i as int]));
                        assert(elem_view(items@[i as int]) == l[i as int]);
                        assert(self->ListNode_0 == *items);
                        assert(decreases_to!(*self => self->ListNode_0@[i as int]));
                    }
                    let c = items[i].calculate_score();
                    proof {
                        assert(l.take(i as int + 1).drop_last() =~= l.take(i as int));
                        assert(l.take(i as int + 1).last() == l[i as int]);
                        assert(i32::MIN <= list_score(l.take(i as int + 1)) <= i32::MAX);
                    }
                    acc = acc + c;
                    i = i + 1;
                }
                proof {
                    assert(l.take(n as int) =~= l);
                }
                acc
            },
        }
    }

    /// The tree's score when every score and partial sum stays within `i32`,
    /// and `None` exactly otherwise: the runtime guard an embedding uses on
    /// a tree it cannot prove anything about.
    pub fn try_calculate_score(&self) -> (r: Option<i32>)
        ensures
            match r {
                Some(v) => score_ok(self@) && v as int == score(self@),
                None => !score_ok(self@),
            },
        decreases *self,
    {
        match self {
            Element::NumberNode(n) => {
                let v = (*n as i64) * 2;
                if (i32::MIN as i64) <= v && v <= (i32::MAX as i64) {
                    Some(v as i32)
                } else {
                    None
                }
            },
            Element::TextNode(s) => {
                let len = s.as_str().unicode_len();
                if len <= (i32::MAX / 10) as usize {
                    Some((len as i32) * 10)
                } else {
                    None
                }
            },
            Element::ListNode(items) => {
                let ghost l = elems_view(items@);
                proof {
                    lemma_elems_view_index(items@);
                    assert(self@ == ElementModel::List(l));
                    assert(list_score(l.take(0)) == 0) by {
                        assert(l.take(0) =~= Seq::<ElementModel>::empty());
                    }
                }
                let n = items.len();
                let mut acc: i32 = 0;
                let mut i: usize = 0;
                while i < n
                    invariant
                        i <= n,
                        n == items@.len(),
                        *self == Element::ListNode(*items),
                        l == elems_view(items@),
                        l.len() == n,
                        forall|j: int| 0 <= j < n ==> l[j] == elem_view(items@[j]),
                        forall|j: int| 0 <= j < i ==> score_ok(#[trigger] l[j]),
                        forall|k: int| 0 <= k <= i ==> i32::MIN <= list_score(#[trigger] l.take(k)) <= i32::MAX,
                        acc as int == list_score(l.take(i as int)),
                    decreases n - i,
                {
                    proof {
                        assert(self->ListNode_0 == *items);
                        assert(decreases_to!(*self => self->ListNode_0@[i as int]));
                        assert(elem_view(items@[i as int]) == l[i as int]);
                    }
                    let c = match items[i].try_calculate_score() {
                        Some(c) => c,
                        None => {
                            proof {
                                assert(!score_ok(l[i as int]));
                                lemma_list_score_ok_parts(l);
                                assert(!list_score_ok(l));
                                assert(!score_ok(ElementModel::List(l))) by {
                                    if score_ok(ElementModel::List(l)) {
                                        lemma_score_ok_list_unfold(l);
                                    }
                                }
                                assert(self@ == ElementModel::List(l));
                            }
                            return None;
                        },
                    };
                    let next = (acc as i64) + (c as i64);
                    proof {
                        assert(l.take(i as int + 1).drop_last() =~= l.take(i as int));
                        assert(l.take(i as int + 1).last() == l[i as int]);
                        assert(next as int == list_score(l.take(i as int + 1)));
                    }
                    if next < (i32::MIN as i64) || (i32::MAX as i64) < next {
                        proof {
                            assert(!(i32::MIN <= list_score(l.take(i as int + 1)) <= i32::MAX));
                            lemma_list_score_ok_parts(l);
                            assert(!list_score_ok(l));
                            assert(!score_ok(ElementModel::List(l))) by {
                                if score_ok(ElementModel::List(l)) {
                                    lemma_score_ok_list_unfold(l);
                                }
                            }
                            assert(self@ == ElementModel::List(l));
                        }
                        return None;
                    }
                    acc = next as i32;
                    i = i + 1;
                }
                proof {
                    assert(l.take(n as int) =~= l);
                    lemma_list_score_ok_parts(l);
                    assert(list_score_ok(l));
                    lemma_score_ok_list_fold(l);
                    assert(self@ == ElementModel::List(l));
                }
                Some(acc)
            },
        }
    }

    /// Whether every number in the tree has room for the increment: the
    /// runtime guard an embedding uses before `transform` on a tree it
    /// cannot prove anything about.
    pub fn can_transform(&self) -> (r: bool)
        ensures
            r == transform_ok(self@),
        decreases *self,
    {
        match self {
            Element::NumberNode(n) => *n <= i32::MAX - 10,
            Element::TextNode(_) => true,
            Element::ListNode(items) => {
                let ghost l = elems_view(items@);
                proof {
                    lemma_elems_view_index(items@);
                    assert(self@ == ElementModel::List(l));
                }
                let n = items.len();
                let mut i: usize = 0;
                while i < n
                    invariant
                        i <= n,
                        n == items@.len(),
                        *self == Element::ListNode(*items),
                        l == elems_view(items@),
                        l.len() == n,
                        forall|j: int| 0 <= j < n ==> l[j] == elem_view(items@[j]),
                        forall|j: int| 0 <= j < i ==> transform_ok(#[trigger] l[j]),
                    decreases n - i,
                {
                    proof {
                        assert(self->ListNode_0 == *items);
                        assert(decreases_to!(*self => self->ListNode_0@[i as int]));
                        assert(elem_view(items@[i as int]) == l[i as int]);
                    }
                    if !items[i].can_transform() {
                        proof {
                            assert(!transform_ok(l[i as int]));
                            assert(!transform_ok(ElementModel::List(l))) by {
                                if transform_ok(ElementModel::List(l)) {
                                    lemma_transform_ok_elem(l, i as int);
                                }
                            }
                            assert(self@ == ElementModel::List(l));
                        }
                        return false;
                    }
                    i = i + 1;
                }
                proof {
                    lemma_transform_ok_all(l);
                    assert(self@ == ElementModel::List(l));
                }
                true
            },
        }
    }

    /// The tree's self-description, exactly as `described` says.
    pub fn describe(&self) -> (r: String)
        ensures
            r@ == described(self@),
        decreases *self,
    {
        match self {
            Element::NumberNode(n) => {
                let mut r = "数字: ".to_owned();
                let digits = i32_to_string(*n);
                r.append(digits.as_str());
                r
            },
            Element::TextNode(s) => {
                let mut r = "文本: '".to_owned();
                r.append(s.as_str());
                r.append("'");
                proof {
                    assert(r@ =~= described(self@));
                }
                r
            },
            Element::ListNode(items) => {
                let ghost orig = items@;
                let ghost l = elems_view(orig);
                proof {
                    lemma_elems_view_index(orig);
                }
                let n = items.len();
                let mut r = "列表[".to_owned();
                let mut i: usize = 0;
                proof {
                    assert(elems_view(orig.take(0)) =~= Seq::<ElementModel>::empty());
                }
                while i < n
                    invariant
                        i <= n,
                        n == orig.len(),
                        items@ == orig,
                        *self == Element::ListNode(*items),
                        l == elems_view(orig),
                        l.len() == n,
                        forall|j: int| 0 <= j < n ==> l[j] == elem_view(orig[j]),
                        r@ == "列表["@ + list_described(l.take(i as int)),
                    decreases n - i,
                {
                    if i > 0 {
                        r.append(", ");
                    }
                    proof {
                        assert(self->ListNode_0 == *items);
                        assert(decreases_to!(*self => self->ListNode_0@[i as int]));
                    }
                    let item = items[i].describe();
                    r.append(item.as_str());
                    proof {
                        assert(l.take(i as int + 1).drop_last() =~= l.take(i as int));
                        assert(l.take(i as int + 1).last() == l[i as int]);
                        assert(r@ =~= "列表["@ + list_described(l.take(i as int + 1)));
                    }
                    i = i + 1;
                }
                r.append("]");
                proof {
                    assert(l.take(n as int) =~= l);
                    assert(r@ =~= described(self@));
                }
                r
            },
        }
    }

    /// Transforms the tree in place, exactly as `transformed` says; callers
    /// keep every incremented number within `i32`.
    pub fn transform(&mut self)
        requires
            transform_ok(old(self)@),
        ensures
            final(self)@ == transformed(old(self)@),
    {
        let mut taken = Element::NumberNode(0);
        core::mem::swap(self, &mut taken);
        let r = transform_value(&taken);
        *self = r;
    }
}

/// Builds the transformed copy of one tree.
fn transform_value(e: &Element) -> (r: Element)
    requires
        transform_ok(elem_view(*e)),
    ensures
        elem_view(r) == transformed(elem_view(*e)),
    decreases *e,
{
    match e {
        Element::NumberNode(n) => Element::NumberNode(*n + 10),
        Element::TextNode(s) => Element::TextNode(to_upper(s.as_str())),
        Element::ListNode(items) => {
            let ghost orig = items@;
            proof {
                lemma_elems_view_index(orig);
            }
            let n = items.len();
            let mut out: Vec<Element> = Vec::new();
            let mut i: usize = 0;
            proof {
                assert(elems_view(out@) =~= Seq::<ElementModel>::empty());
                assert(elems_view(orig.take(0)) =~= Seq::<ElementModel>::empty());
                assert(list_transformed(elems_view(orig.take(0))) =~= Seq::<ElementModel>::empty());
                assert(elem_view(*e) == ElementModel::List(elems_view(orig)));
                assert(transform_ok(ElementModel::List(elems_view(orig))));
                assert forall|j: int| 0 <= j < orig.len() implies transform_ok(
                    #[trigger] elems_view(orig)[j],
                ) by {
                    assert(transform_ok(ElementModel::List(elems_view(orig))));
                }
            }
            while i < n
                invariant
                    i <= n,
                    n == orig.len(),
                    items@ == orig,
                    *e == Element::ListNode(*items),
                    forall|j: int| 0 <= j < orig.len() ==> transform_ok(#[trigger] elems_view(orig)[j]),
                    forall|j: int| 0 <= j < orig.len() ==> elems_view(orig)[j] == elem_view(orig[j]),
                    elems_view(out@) == list_transformed(elems_view(orig.take(i as int))),
                decreases n - i,
            {
                proof {
                    lemma_elems_view_index(orig);
                    assert(transform_ok(elems_view(orig)[i as int]));
                    assert(transform_ok(elem_view(orig[i as int])));
                }
                proof {
                    assert(e->ListNode_0 == *items);
                    assert(decreases_to!(*e => e->ListNode_0@[i as int]));
                }
                let ghost out_pre = out@;
                let t = transform_value(&items[i]);
                out.push(t);
                proof {
                    let lp = elems_view(orig.take(i as int));
                    let lp1 = elems_view(orig.take(i as int + 1));
                    lemma_elems_view_index(orig.take(i as int));
                    lemma_elems_view_index(orig.take(i as int + 1));
                    assert(lp1 =~= lp.push(elem_view(orig[i as int]))) by {
                        assert forall|j: int| 0 <= j < lp1.len() implies lp1[j] == lp.push(
                            elem_view(orig[i as int]),
                        )[j] by {
                            assert(lp1[j] == elem_view(orig.take(i as int + 1)[j]));
                            if j < i as int {
                                assert(orig.take(i as int + 1)[j] == orig.take(i as int)[j]);
                                assert(lp[j] == elem_view(orig.take(i as int)[j]));
                            }
                        }
                    }
                    assert(lp1.drop_last() =~= lp);
                    assert(lp1.last() == elem_view(orig[i as int]));
                    assert(list_transformed(lp1) == list_transformed(lp).push(transformed(elem_view(orig[i as int]))));
                    assert(out@.drop_last() =~= out_pre);
                    assert(out@.last() == t);
                    assert(elems_view(out@) == elems_view(out_pre).push(elem_view(t)));
                    assert(elems_view(out@) == list_transformed(lp1));
                }
                i = i + 1;
            }
            proof {
                assert(orig.take(n as int) =~= orig);
            }
            Element::ListNode(out)
        },
    }
}

} // verus!
