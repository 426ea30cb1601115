//! AABBTree3D, an axis-aligned bounding box tree in 3D for fast collision
//! detection.
//!
//! The tree is built once from a collection of elements, each of which can
//! report its own bounding box, and afterwards answers broad-phase queries:
//! which elements' boxes could intersect a line, collide with a query box,
//! or straddle a fixed coordinate value.  Every interior node caches the
//! merged box of everything below it, so whole subtrees can be rejected
//! with a single box test.
//!
//! An element whose box straddles a split plane is placed in both children;
//! queries may therefore report such an element more than once, and never
//! miss a true candidate.

use vstd::prelude::*;
use vstd::seq_lib::*;
use crate::bounding_box_3d::BoundingBox3D;
use crate::bounding_box_3d::lemma_query_monotone;
use crate::line_3d::Line3D;
use crate::line_3d::intersection;
use crate::line_3d::lemma_line_hits_monotone;
use crate::line_3d::line_hits_box;
use crate::point_3d::Point3D;
use crate::result::ErrorKind;
use crate::traits::HasBoundingBox3D;

verus! {

/// AABBTree3D, an axis aligned bounding box tree in 3D for fast collision
/// detection.
pub enum AABBTree3D<HB> {
    Empty,
    Leaf(AABBTree3DLeaf<HB>),
    Branch(AABBTree3DBranch<HB>),
}

/// A terminal node: the final bucket of elements together with the merged
/// box of all their bounding boxes.
pub struct AABBTree3DLeaf<HB> {
    pub data: Vec<HB>,
    pub bb: BoundingBox3D,
}

/// An interior node: two exclusively owned subtrees together with the
/// merged box of everything below.
pub struct AABBTree3DBranch<HB> {
    pub left: Box<AABBTree3D<HB>>,
    pub right: Box<AABBTree3D<HB>>,
    pub bb: BoundingBox3D,
}

/// Whether every element of `s` has a defined, well-formed bounding box.
pub open spec fn all_have_bb<HB: HasBoundingBox3D>(s: Seq<HB>) -> bool {
    forall|i: int|
        0 <= i < s.len() ==> (#[trigger] s[i]).spec_has_bb() && s[i].spec_bb().wf()
}

/// The merged bounding box of all elements of `s`; meaningful when `s` is
/// non-empty and every element has a box.
pub open spec fn merged_box_of<HB: HasBoundingBox3D>(s: Seq<HB>) -> BoundingBox3D
    decreases s.len(),
{
    if s.len() <= 1 {
        s[0].spec_bb()
    } else {
        merged_box_of(s.drop_last()).spec_merge(s.last().spec_bb())
    }
}

/// The merged box encloses the box of each element.
pub proof fn lemma_merged_box_contains_each<HB: HasBoundingBox3D>(s: Seq<HB>, i: int)
    requires
        0 <= i < s.len(),
    ensures
        merged_box_of(s).contains_bb(s[i].spec_bb()),
    decreases s.len(),
{
    if s.len() > 1 {
        if i < s.len() - 1 {
            lemma_merged_box_contains_each(s.drop_last(), i);
        }
    }
}

/// The merged box of elements with well-formed boxes is well-formed.
pub proof fn lemma_merged_box_wf<HB: HasBoundingBox3D>(s: Seq<HB>)
    requires
        s.len() > 0,
        all_have_bb(s),
    ensures
        merged_box_of(s).wf(),
    decreases s.len(),
{
    if s.len() > 1 {
        assert(all_have_bb(s.drop_last()));
        lemma_merged_box_wf(s.drop_last());
    }
}

/// The merged box is the tightest box around the elements: it lies within
/// any box that encloses the box of every element.
pub proof fn lemma_merged_box_tightest<HB: HasBoundingBox3D>(s: Seq<HB>, outer: BoundingBox3D)
    requires
        s.len() > 0,
        forall|i: int| 0 <= i < s.len() ==> outer.contains_bb((#[trigger] s[i]).spec_bb()),
    ensures
        outer.contains_bb(merged_box_of(s)),
    decreases s.len(),
{
    if s.len() > 1 {
        lemma_merged_box_tightest(s.drop_last(), outer);
    }
}

/// Two non-empty collections holding the same set of elements have the same
/// merged box, whatever the order and multiplicity of the elements.
pub proof fn lemma_merged_box_set_eq<HB: HasBoundingBox3D>(s1: Seq<HB>, s2: Seq<HB>)
    requires
        s1.len() > 0,
        s2.len() > 0,
        s1.to_set() == s2.to_set(),
    ensures
        merged_box_of(s1) == merged_box_of(s2),
{
    assert forall|i: int| 0 <= i < s1.len() implies merged_box_of(s2).contains_bb(
        (#[trigger] s1[i]).spec_bb(),
    ) by {
        assert(s2.to_set().contains(s1[i]));
        let j = choose|j: int| 0 <= j < s2.len() && s2[j] == s1[i];
        lemma_merged_box_contains_each(s2, j);
    }
    lemma_merged_box_tightest(s1, merged_box_of(s2));
    assert forall|i: int| 0 <= i < s2.len() implies merged_box_of(s1).contains_bb(
        (#[trigger] s2[i]).spec_bb(),
    ) by {
        assert(s1.to_set().contains(s2[i]));
        let j = choose|j: int| 0 <= j < s1.len() && s1[j] == s2[i];
        lemma_merged_box_contains_each(s1, j);
    }
    lemma_merged_box_tightest(s2, merged_box_of(s1));
}

/// The candidate predicate of the box-collision query.
pub open spec fn collides_pred<HB: HasBoundingBox3D>(q: BoundingBox3D) -> spec_fn(HB) -> bool {
    |e: HB| e.spec_bb().spec_collides(q)
}

/// The candidate predicate of the crossing-value query along the X axis.
pub open spec fn crossing_x_pred<HB: HasBoundingBox3D>(v: i64) -> spec_fn(HB) -> bool {
    |e: HB| e.spec_bb().spec_crossing_x(v)
}

/// The candidate predicate of the crossing-value query along the Y axis.
pub open spec fn crossing_y_pred<HB: HasBoundingBox3D>(v: i64) -> spec_fn(HB) -> bool {
    |e: HB| e.spec_bb().spec_crossing_y(v)
}

/// The candidate predicate of the crossing-value query along the Z axis.
pub open spec fn crossing_z_pred<HB: HasBoundingBox3D>(v: i64) -> spec_fn(HB) -> bool {
    |e: HB| e.spec_bb().spec_crossing_z(v)
}

/// The candidate predicate of the line-intersection query.
pub open spec fn line_intersection_pred<HB: HasBoundingBox3D>(l: Line3D) -> spec_fn(HB) -> bool {
    |e: HB| line_hits_box(l, e.spec_bb())
}

/// Filtering a sequence on which the predicate holds nowhere gives the
/// empty sequence.
pub proof fn lemma_filter_none<A>(s: Seq<A>, p: spec_fn(A) -> bool)
    requires
        forall|i: int| 0 <= i < s.len() ==> !p(#[trigger] s[i]),
    ensures
        s.filter(p) == Seq::<A>::empty(),
    decreases s.len(),
{
    reveal(Seq::filter);
    if s.len() > 0 {
        lemma_filter_none(s.drop_last(), p);
    }
    assert(s.filter(p) =~= Seq::<A>::empty());
}

/// Filtering the empty sequence gives the empty sequence.
pub proof fn lemma_filter_empty<A>(p: spec_fn(A) -> bool)
    ensures
        Seq::<A>::empty().filter(p) == Seq::<A>::empty(),
{
    reveal(Seq::filter);
}

/// An element is in the filtered sequence exactly when it is in the
/// original sequence and satisfies the predicate.
pub proof fn lemma_filter_contains_iff<A>(s: Seq<A>, p: spec_fn(A) -> bool, e: A)
    ensures
        s.filter(p).contains(e) <==> s.contains(e) && p(e),
{
    if s.filter(p).contains(e) {
        let k = choose|k: int| 0 <= k < s.filter(p).len() && s.filter(p)[k] == e;
        s.lemma_filter_pred(p, k);
        s.lemma_filter_contains_rev(p, e);
    }
    if s.contains(e) && p(e) {
        let k = choose|k: int| 0 <= k < s.len() && s[k] == e;
        s.lemma_filter_contains(p, k);
    }
}

/// The set of elements a filter keeps is determined by the set of elements
/// of the input: order and multiplicity do not matter.
pub proof fn lemma_filter_set_determined<A>(s1: Seq<A>, s2: Seq<A>, p: spec_fn(A) -> bool)
    requires
        s1.to_set() == s2.to_set(),
    ensures
        s1.filter(p).to_set() == s2.filter(p).to_set(),
{
    assert forall|e: A| #[trigger] s1.filter(p).contains(e) implies s2.filter(p).contains(e) by {
        lemma_filter_contains_iff(s1, p, e);
        assert(s1.to_set().contains(e));
        assert(s2.to_set().contains(e));
        lemma_filter_contains_iff(s2, p, e);
    }
    assert forall|e: A| #[trigger] s2.filter(p).contains(e) implies s1.filter(p).contains(e) by {
        lemma_filter_contains_iff(s2, p, e);
        assert(s2.to_set().contains(e));
        assert(s1.to_set().contains(e));
        lemma_filter_contains_iff(s1, p, e);
    }
    assert(s1.filter(p).to_set() =~= s2.filter(p).to_set());
}

/// The set of elements of a concatenation is the union of the two sets.
pub proof fn lemma_concat_to_set<A>(a: Seq<A>, b: Seq<A>)
    ensures
        (a + b).to_set() == a.to_set().union(b.to_set()),
{
    assert forall|e: A| #[trigger] (a + b).contains(e) implies a.contains(e) || b.contains(e) by {
        let k = choose|k: int| 0 <= k < (a + b).len() && (a + b)[k] == e;
        if k < a.len() {
            assert(a[k] == e);
        } else {
            assert(b[k - a.len()] == e);
        }
    }
    assert forall|e: A| a.contains(e) || b.contains(e) implies #[trigger] (a + b).contains(e) by {
        if a.contains(e) {
            let k = choose|k: int| 0 <= k < a.len() && a[k] == e;
            assert((a + b)[k] == e);
        } else {
            let k = choose|k: int| 0 <= k < b.len() && b[k] == e;
            assert((a + b)[k + a.len()] == e);
        }
    }
    assert((a + b).to_set() =~= a.to_set().union(b.to_set()));
}

impl<HB: HasBoundingBox3D> AABBTree3DLeaf<HB> {
    /// A leaf is well-formed when it is non-empty, every element has a
    /// well-formed box, and the cached box is exactly the merged box of the
    /// elements.
    pub open spec fn wf(self) -> bool {
        &&& self.data@.len() > 0
        &&& all_have_bb(self.data@)
        &&& self.bb == merged_box_of(self.data@)
    }
}

impl<HB: HasBoundingBox3D> AABBTree3DBranch<HB> {
    /// The elements below this branch, left subtree first.
    pub open spec fn elems(self) -> Seq<HB>
        decreases self,
    {
        (*self.left).elems() + (*self.right).elems()
    }

    /// A branch is well-formed when both subtrees are, it covers at least
    /// one element, and the cached box is exactly the merged box of all
    /// elements below.
    pub open spec fn wf(self) -> bool
        decreases self,
    {
        &&& (*self.left).wf()
        &&& (*self.right).wf()
        &&& self.elems().len() > 0
        &&& self.bb == merged_box_of(self.elems())
    }
}

impl<HB: HasBoundingBox3D> AABBTree3D<HB> {
    /// The elements indexed by this tree, in traversal order (left subtree
    /// before right subtree, construction order within a leaf).  An element
    /// that straddled a split plane during construction appears once per
    /// leaf that holds it.
    pub open spec fn elems(self) -> Seq<HB>
        decreases self,
    {
        match self {
            AABBTree3D::Empty => Seq::empty(),
            AABBTree3D::Leaf(leaf) => leaf.data@,
            AABBTree3D::Branch(branch) => (*branch.left).elems() + (*branch.right).elems(),
        }
    }

    /// The candidates of the box-collision query: the elements whose box
    /// collides with `q`, in traversal order.
    pub open spec fn colliding_candidates(self, q: BoundingBox3D) -> Seq<HB> {
        self.elems().filter(collides_pred(q))
    }

    /// The candidates of the crossing-value query along the X axis.
    pub open spec fn crossing_x_candidates(self, v: i64) -> Seq<HB> {
        self.elems().filter(crossing_x_pred(v))
    }

    /// The candidates of the crossing-value query along the Y axis.
    pub open spec fn crossing_y_candidates(self, v: i64) -> Seq<HB> {
        self.elems().filter(crossing_y_pred(v))
    }

    /// The candidates of the crossing-value query along the Z axis.
    pub open spec fn crossing_z_candidates(self, v: i64) -> Seq<HB> {
        self.elems().filter(crossing_z_pred(v))
    }

    /// The candidates of the line-intersection query: the elements whose
    /// box the line meets, in traversal order.
    pub open spec fn line_candidates(self, l: Line3D) -> Seq<HB> {
        self.elems().filter(line_intersection_pred(l))
    }

    /// Structural well-formedness: every node's cached box is the merged
    /// box of the elements below it, and no leaf or branch is empty.
    pub open spec fn wf(self) -> bool
        decreases self,
    {
        match self {
            AABBTree3D::Empty => true,
            AABBTree3D::Leaf(leaf) => leaf.wf(),
            AABBTree3D::Branch(branch) => branch.wf(),
        }
    }

    /// In a well-formed tree every element has a defined, well-formed box.
    pub proof fn lemma_wf_all_have_bb(self)
        requires
            self.wf(),
        ensures
            all_have_bb(self.elems()),
        decreases self,
    {
        match self {
            AABBTree3D::Empty => {},
            AABBTree3D::Leaf(leaf) => {},
            AABBTree3D::Branch(branch) => {
                (*branch.left).lemma_wf_all_have_bb();
                (*branch.right).lemma_wf_all_have_bb();
                let l = (*branch.left).elems();
                let r = (*branch.right).elems();
                assert forall|i: int|
                    0 <= i < (l + r).len() implies (#[trigger] (l + r)[i]).spec_has_bb() && (l
                    + r)[i].spec_bb().wf() by {
                    if i < l.len() {
                        assert((l + r)[i] == l[i]);
                    } else {
                        assert((l + r)[i] == r[i - l.len()]);
                    }
                }
            },
        }
    }
}

enum Compare {
    X,
    Y,
    Z,
}

/// Whether an element's box belongs to the left partition: its minimum on
/// the split axis lies strictly below the split value.
spec fn spec_is_left_of(comp: Compare, bb: BoundingBox3D, center: Point3D) -> bool {
    match comp {
        Compare::X => bb.min.x < center.x,
        Compare::Y => bb.min.y < center.y,
        Compare::Z => bb.min.z < center.z,
    }
}

/// Whether an element's box belongs to the right partition: its maximum on
/// the split axis lies at or above the split value.
spec fn spec_is_right_of(comp: Compare, bb: BoundingBox3D, center: Point3D) -> bool {
    match comp {
        Compare::X => bb.max.x >= center.x,
        Compare::Y => bb.max.y >= center.y,
        Compare::Z => bb.max.z >= center.z,
    }
}

impl<HB: HasBoundingBox3D + Copy> AABBTree3D<HB> {
    /// Builds a tree covering exactly `data`.
    ///
    /// Construction succeeds if and only if every element can report a
    /// bounding box; otherwise the first offending element's error is
    /// returned and no tree is built.  On success the tree is well-formed,
    /// indexes exactly the given elements (an element straddling a split
    /// plane may be held by several leaves), is `Empty` exactly for empty
    /// input, and collapses to a single leaf holding `data` in order when
    /// the input is a single element or `maxdepth` is 0.
    pub fn new(data: Vec<HB>, maxdepth: usize) -> (r: Result<Self, ErrorKind>)
        ensures
            r is Ok <==> all_have_bb(data@),
            r is Err ==> exists|i: int|
                0 <= i < data@.len() && !(#[trigger] data@[i]).spec_has_bb() && (forall|j: int|
                    0 <= j < i ==> (#[trigger] data@[j]).spec_has_bb()),
            r is Ok ==> {
                let t = r->Ok_0;
                &&& t.wf()
                &&& t.elems().to_set() == data@.to_set()
                &&& (t is Empty <==> data@.len() == 0)
                &&& (data@.len() == 1 ==> t is Leaf && t->Leaf_0.data@ == data@
                    && t->Leaf_0.bb == data@[0].spec_bb())
                &&& (maxdepth == 0 && data@.len() >= 1 ==> t is Leaf && t->Leaf_0.data@ == data@
                    && t->Leaf_0.bb == merged_box_of(data@))
            },
    {
        let n = data.len();
        let mut i: usize = 0;
        while i < n
            invariant
                n == data@.len(),
                i <= n,
                forall|j: int|
                    0 <= j < i ==> (#[trigger] data@[j]).spec_has_bb() && data@[j].spec_bb().wf(),
            decreases n - i,
        {
            match data[i].bounding_box() {
                Ok(_) => {},
                Err(e) => {
                    return Err(e);
                },
            }
            i += 1;
        }
        Ok(Self::new_rec(data, maxdepth, 0))
    }

    fn new_rec(data: Vec<HB>, maxdepth: usize, depth: usize) -> (r: Self)
        requires
            depth <= maxdepth,
            all_have_bb(data@),
        ensures
            r.wf(),
            r.elems().to_set() == data@.to_set(),
            r is Empty <==> data@.len() == 0,
            data@.len() == 1 ==> r is Leaf && r->Leaf_0.data@ == data@,
            depth >= maxdepth && data@.len() >= 1 ==> r is Leaf && r->Leaf_0.data@ == data@,
        decreases maxdepth - depth,
    {
        let n = data.len();
        if n == 0 {
            proof {
                assert(Seq::<HB>::empty().to_set() =~= data@.to_set());
            }
            AABBTree3D::Empty
        } else if n == 1 || depth >= maxdepth {
            let bb = Self::bb_of(&data).unwrap();
            AABBTree3D::Leaf(AABBTree3DLeaf { data, bb })
        } else {
            let comp = match depth % 3 {
                0 => Compare::X,
                1 => Compare::Y,
                _ => Compare::Z,
            };
            let bb = Self::bb_of(&data).unwrap();
            proof {
                lemma_merged_box_wf(data@);
            }
            let center = bb.center_bb();
            let ghost pred_l = |e: HB| spec_is_left_of(comp, e.spec_bb(), center);
            let ghost pred_r = |e: HB| spec_is_right_of(comp, e.spec_bb(), center);
            let mut dleft: Vec<HB> = Vec::new();
            let mut dright: Vec<HB> = Vec::new();
            let mut i: usize = 0;
            while i < n
                invariant
                    n == data@.len(),
                    i <= n,
                    all_have_bb(data@),
                    dleft@ == data@.take(i as int).filter(pred_l),
                    dright@ == data@.take(i as int).filter(pred_r),
                    pred_l == (|e: HB| spec_is_left_of(comp, e.spec_bb(), center)),
                    pred_r == (|e: HB| spec_is_right_of(comp, e.spec_bb(), center)),
                decreases n - i,
            {
                let ebb = data[i].bounding_box().unwrap();
                proof {
                    reveal(Seq::filter);
                    assert(data@.take(i + 1).drop_last() =~= data@.take(i as int));
                    assert(data@.take(i + 1).last() == data@[i as int]);
                }
                if Self::is_left_of(&comp, &ebb, &center) {
                    dleft.push(data[i]);
                }
                if Self::is_right_of(&comp, &ebb, &center) {
                    dright.push(data[i]);
                }
                i += 1;
            }
            proof {
                assert(data@.take(n as int) =~= data@);
                assert(dleft@ == data@.filter(pred_l));
                assert(dright@ == data@.filter(pred_r));
                assert forall|k: int| 0 <= k < dleft@.len() implies (#[trigger] dleft@[k]).spec_has_bb()
                    && dleft@[k].spec_bb().wf() by {
                    assert(data@.filter(pred_l)[k] == dleft@[k]);
                    assert(data@.filter(pred_l).contains(dleft@[k]));
                    data@.lemma_filter_contains_rev(pred_l, dleft@[k]);
                    let j = choose|j: int| 0 <= j < data@.len() && data@[j] == dleft@[k];
                    assert(data@[j].spec_has_bb());
                }
                assert forall|k: int|
                    0 <= k < dright@.len() implies (#[trigger] dright@[k]).spec_has_bb()
                    && dright@[k].spec_bb().wf() by {
                    assert(data@.filter(pred_r)[k] == dright@[k]);
                    assert(data@.filter(pred_r).contains(dright@[k]));
                    data@.lemma_filter_contains_rev(pred_r, dright@[k]);
                    let j = choose|j: int| 0 <= j < data@.len() && data@[j] == dright@[k];
                    assert(data@[j].spec_has_bb());
                }
            }
            if dleft.len() == dright.len() && dleft.len() == data.len() {
                AABBTree3D::Leaf(AABBTree3DLeaf { data, bb })
            } else {
                let left = Box::new(Self::new_rec(dleft, maxdepth, depth + 1));
                let right = Box::new(Self::new_rec(dright, maxdepth, depth + 1));
                proof {
                    assert forall|e: HB| #[trigger] pred_l(e) || pred_r(e) || !(e.spec_bb().wf()) by {
                        if e.spec_bb().wf() && !pred_l(e) {
                            assert(pred_r(e));
                        }
                    }
                    Self::lemma_partition_to_set(
                        data@,
                        pred_l,
                        pred_r,
                        (*left).elems(),
                        (*right).elems(),
                    );
                }
                AABBTree3D::Branch(AABBTree3DBranch { left, right, bb })
            }
        }
    }

    /// Every element satisfies the left or the right predicate, so the two
    /// subtrees together hold exactly the original element set.
    proof fn lemma_partition_to_set(
        data: Seq<HB>,
        pred_l: spec_fn(HB) -> bool,
        pred_r: spec_fn(HB) -> bool,
        le: Seq<HB>,
        re: Seq<HB>,
    )
        requires
            data.len() > 0,
            all_have_bb(data),
            forall|e: HB| #[trigger] pred_l(e) || pred_r(e) || !(e.spec_bb().wf()),
            le.to_set() == data.filter(pred_l).to_set(),
            re.to_set() == data.filter(pred_r).to_set(),
        ensures
            (le + re).to_set() == data.to_set(),
            (le + re).len() > 0,
            merged_box_of(le + re) == merged_box_of(data),
    {
        lemma_concat_to_set(le, re);
        assert forall|e: HB| #[trigger] data.to_set().contains(e) implies (le + re).to_set().contains(
            e,
        ) by {
            let k = choose|k: int| 0 <= k < data.len() && data[k] == e;
            assert(data[k].spec_bb().wf());
            if pred_l(e) {
                data.lemma_filter_contains(pred_l, k);
            } else {
                data.lemma_filter_contains(pred_r, k);
            }
        }
        assert forall|e: HB| #[trigger] (le + re).to_set().contains(e) implies data.to_set().contains(
            e,
        ) by {
            assert(le.to_set().contains(e) || re.to_set().contains(e));
            if le.to_set().contains(e) {
                assert(data.filter(pred_l).to_set().contains(e));
                assert(data.filter(pred_l).contains(e));
                data.lemma_filter_contains_rev(pred_l, e);
            } else {
                assert(data.filter(pred_r).to_set().contains(e));
                assert(data.filter(pred_r).contains(e));
                data.lemma_filter_contains_rev(pred_r, e);
            }
        }
        assert((le + re).to_set() =~= data.to_set());
        assert((le + re).to_set().contains(data[0]));
        assert((le + re).len() > 0);
        lemma_merged_box_set_eq(le + re, data);
    }

    fn is_left_of(comp: &Compare, bb: &BoundingBox3D, center: &Point3D) -> (r: bool)
        ensures
            r == spec_is_left_of(*comp, *bb, *center),
    {
        match comp {
            Compare::X => bb.min.x < center.x,
            Compare::Y => bb.min.y < center.y,
            Compare::Z => bb.min.z < center.z,
        }
    }

    fn is_right_of(comp: &Compare, bb: &BoundingBox3D, center: &Point3D) -> (r: bool)
        ensures
            r == spec_is_right_of(*comp, *bb, *center),
    {
        match comp {
            Compare::X => bb.max.x >= center.x,
            Compare::Y => bb.max.y >= center.y,
            Compare::Z => bb.max.z >= center.z,
        }
    }

    /// Returns the elements whose bounding box collides with `bb`, in
    /// traversal order; an element held by several leaves is returned once
    /// per leaf whose cached box was not rejected.
    pub fn bb_colliding(&self, bb: &BoundingBox3D) -> (r: Vec<HB>)
        requires
            self.wf(),
        ensures
            r@ == self.colliding_candidates(*bb),
        decreases self,
    {
        match self {
            AABBTree3D::Empty => {
                proof {
                    lemma_filter_empty::<HB>(collides_pred(*bb));
                }
                Vec::new()
            },
            AABBTree3D::Leaf(leaf) => leaf.bb_colliding(bb),
            AABBTree3D::Branch(branch) => branch.bb_colliding(bb),
        }
    }

    /// Returns the elements whose bounding box straddles the plane `x = x`.
    pub fn bb_crossing_x_value(&self, x: i64) -> (r: Vec<HB>)
        requires
            self.wf(),
        ensures
            r@ == self.crossing_x_candidates(x),
        decreases self,
    {
        match self {
            AABBTree3D::Empty => {
                proof {
                    lemma_filter_empty::<HB>(crossing_x_pred(x));
                }
                Vec::new()
            },
            AABBTree3D::Leaf(leaf) => leaf.bb_crossing_x_value(x),
            AABBTree3D::Branch(branch) => branch.bb_crossing_x_value(x),
        }
    }

    /// Returns the elements whose bounding box straddles the plane `y = y`.
    pub fn bb_crossing_y_value(&self, y: i64) -> (r: Vec<HB>)
        requires
            self.wf(),
        ensures
            r@ == self.crossing_y_candidates(y),
        decreases self,
    {
        match self {
            AABBTree3D::Empty => {
                proof {
                    lemma_filter_empty::<HB>(crossing_y_pred(y));
                }
                Vec::new()
            },
            AABBTree3D::Leaf(leaf) => leaf.bb_crossing_y_value(y),
            AABBTree3D::Branch(branch) => branch.bb_crossing_y_value(y),
        }
    }

    /// Returns the elements whose bounding box straddles the plane `z = z`.
    pub fn bb_crossing_z_value(&self, z: i64) -> (r: Vec<HB>)
        requires
            self.wf(),
        ensures
            r@ == self.crossing_z_candidates(z),
        decreases self,
    {
        match self {
            AABBTree3D::Empty => {
                proof {
                    lemma_filter_empty::<HB>(crossing_z_pred(z));
                }
                Vec::new()
            },
            AABBTree3D::Leaf(leaf) => leaf.bb_crossing_z_value(z),
            AABBTree3D::Branch(branch) => branch.bb_crossing_z_value(z),
        }
    }

    fn bb_of(data: &Vec<HB>) -> (r: Result<BoundingBox3D, ErrorKind>)
        requires
            all_have_bb(data@),
        ensures
            r is Ok <==> data@.len() > 0,
            r is Ok ==> r->Ok_0 == merged_box_of(data@),
            r is Err ==> r->Err_0 == ErrorKind::IndexOutOfBounds,
    {
        let n = data.len();
        if n == 0 {
            return Err(ErrorKind::IndexOutOfBounds);
        }
        let mut result = data[0].bounding_box().unwrap();
        let mut i: usize = 1;
        while i < n
            invariant
                n == data@.len(),
                1 <= i <= n,
                all_have_bb(data@),
                result == merged_box_of(data@.take(i as int)),
            decreases n - i,
        {
            let ebb = data[i].bounding_box().unwrap();
            result.consume(ebb);
            proof {
                assert(data@.take(i + 1).drop_last() =~= data@.take(i as int));
                assert(data@.take(i + 1).last() == data@[i as int]);
            }
            i += 1;
        }
        proof {
            assert(data@.take(n as int) =~= data@);
        }
        Ok(result)
    }
}

/// When a cached box fails a query's test, no element below it can pass
/// that query's per-element test: the cached box is the merged box of the
/// elements, so it encloses every element's box.
proof fn lemma_cached_box_rejects<HB: HasBoundingBox3D>(
    s: Seq<HB>,
    cached: BoundingBox3D,
    q: BoundingBox3D,
    v: i64,
)
    requires
        all_have_bb(s),
        cached == merged_box_of(s),
    ensures
        !cached.spec_collides(q) ==> s.filter(collides_pred(q)) == Seq::<HB>::empty(),
        !cached.spec_crossing_x(v) ==> s.filter(crossing_x_pred(v)) == Seq::<HB>::empty(),
        !cached.spec_crossing_y(v) ==> s.filter(crossing_y_pred(v)) == Seq::<HB>::empty(),
        !cached.spec_crossing_z(v) ==> s.filter(crossing_z_pred(v)) == Seq::<HB>::empty(),
{
    assert forall|k: int| 0 <= k < s.len() implies {
        &&& cached.contains_bb((#[trigger] s[k]).spec_bb())
        &&& (s[k].spec_bb().spec_collides(q) ==> cached.spec_collides(q))
        &&& (s[k].spec_bb().spec_crossing_x(v) ==> cached.spec_crossing_x(v))
        &&& (s[k].spec_bb().spec_crossing_y(v) ==> cached.spec_crossing_y(v))
        &&& (s[k].spec_bb().spec_crossing_z(v) ==> cached.spec_crossing_z(v))
    } by {
        lemma_merged_box_contains_each(s, k);
        lemma_query_monotone(cached, s[k].spec_bb(), q, v);
    }
    if !cached.spec_collides(q) {
        lemma_filter_none(s, collides_pred(q));
    }
    if !cached.spec_crossing_x(v) {
        lemma_filter_none(s, crossing_x_pred(v));
    }
    if !cached.spec_crossing_y(v) {
        lemma_filter_none(s, crossing_y_pred(v));
    }
    if !cached.spec_crossing_z(v) {
        lemma_filter_none(s, crossing_z_pred(v));
    }
}

impl<HB: HasBoundingBox3D + Copy> AABBTree3DLeaf<HB> {
    /// Creates a leaf from its final bucket of elements and the cached
    /// merged box of their bounding boxes.
    pub fn new(data: Vec<HB>, bb: BoundingBox3D) -> (r: Self)
        ensures
            r == (AABBTree3DLeaf { data, bb }),
    {
        AABBTree3DLeaf { data, bb }
    }

    /// Elements of this leaf whose box collides with `bb`, in bucket order.
    pub fn bb_colliding(&self, bb: &BoundingBox3D) -> (r: Vec<HB>)
        requires
            self.wf(),
        ensures
            r@ == self.data@.filter(collides_pred(*bb)),
    {
        let mut result: Vec<HB> = Vec::new();
        if !self.bb.collides_with(bb) {
            proof {
                lemma_cached_box_rejects(self.data@, self.bb, *bb, 0);
            }
            return result;
        }
        let n = self.data.len();
        let mut i: usize = 0;
        while i < n
            invariant
                self.wf(),
                n == self.data@.len(),
                i <= n,
                result@ == self.data@.take(i as int).filter(collides_pred(*bb)),
            decreases n - i,
        {
            let ebb = self.data[i].bounding_box().unwrap();
            proof {
                reveal(Seq::filter);
                assert(self.data@.take(i + 1).drop_last() =~= self.data@.take(i as int));
                assert(self.data@.take(i + 1).last() == self.data@[i as int]);
            }
            if ebb.collides_with(bb) {
                result.push(self.data[i]);
            }
            i += 1;
        }
        proof {
            assert(self.data@.take(n as int) =~= self.data@);
        }
        result
    }

    /// Elements of this leaf whose box straddles the plane `x = x`.
    pub fn bb_crossing_x_value(&self, x: i64) -> (r: Vec<HB>)
        requires
            self.wf(),
        ensures
            r@ == self.data@.filter(crossing_x_pred(x)),
    {
        let mut result: Vec<HB> = Vec::new();
        if !self.bb.crossing_x_value(x) {
            proof {
                lemma_cached_box_rejects(self.data@, self.bb, self.bb, x);
            }
            return result;
        }
        let n = self.data.len();
        let mut i: usize = 0;
        while i < n
            invariant
                self.wf(),
                n == self.data@.len(),
                i <= n,
                result@ == self.data@.take(i as int).filter(crossing_x_pred(x)),
            decreases n - i,
        {
            let ebb = self.data[i].bounding_box().unwrap();
            proof {
                reveal(Seq::filter);
                assert(self.data@.take(i + 1).drop_last() =~= self.data@.take(i as int));
                assert(self.data@.take(i + 1).last() == self.data@[i as int]);
            }
            if ebb.crossing_x_value(x) {
                result.push(self.data[i]);
            }
            i += 1;
        }
        proof {
            assert(self.data@.take(n as int) =~= self.data@);
        }
        result
    }

    /// Elements of this leaf whose box straddles the plane `y = y`.
    pub fn bb_crossing_y_value(&self, y: i64) -> (r: Vec<HB>)
        requires
            self.wf(),
        ensures
            r@ == self.data@.filter(crossing_y_pred(y)),
    {
        let mut result: Vec<HB> = Vec::new();
        if !self.bb.crossing_y_value(y) {
            proof {
                lemma_cached_box_rejects(self.data@, self.bb, self.bb, y);
            }
            return result;
        }
        let n = self.data.len();
        let mut i: usize = 0;
        while i < n
            invariant
                self.wf(),
                n == self.data@.len(),
                i <= n,
                result@ == self.data@.take(i as int).filter(crossing_y_pred(y)),
            decreases n - i,
        {
            let ebb = self.data[i].bounding_box().unwrap();
            proof {
                reveal(Seq::filter);
                assert(self.data@.take(i + 1).drop_last() =~= self.data@.take(i as int));
                assert(self.data@.take(i + 1).last() == self.data@[i as int]);
            }
            if ebb.crossing_y_value(y) {
                result.push(self.data[i]);
            }
            i += 1;
        }
        proof {
            assert(self.data@.take(n as int) =~= self.data@);
        }
        result
    }

    /// Elements of this leaf whose box straddles the plane `z = z`.
    pub fn bb_crossing_z_value(&self, z: i64) -> (r: Vec<HB>)
        requires
            self.wf(),
        ensures
            r@ == self.data@.filter(crossing_z_pred(z)),
    {
        let mut result: Vec<HB> = Vec::new();
        if !self.bb.crossing_z_value(z) {
            proof {
                lemma_cached_box_rejects(self.data@, self.bb, self.bb, z);
            }
            return result;
        }
        let n = self.data.len();
        let mut i: usize = 0;
        while i < n
            invariant
                self.wf(),
                n == self.data@.len(),
                i <= n,
                result@ == self.data@.take(i as int).filter(crossing_z_pred(z)),
            decreases n - i,
        {
            let ebb = self.data[i].bounding_box().unwrap();
            proof {
                reveal(Seq::filter);
                assert(self.data@.take(i + 1).drop_last() =~= self.data@.take(i as int));
                assert(self.data@.take(i + 1).last() == self.data@[i as int]);
            }
            if ebb.crossing_z_value(z) {
                result.push(self.data[i]);
            }
            i += 1;
        }
        proof {
            assert(self.data@.take(n as int) =~= self.data@);
        }
        result
    }
}

impl<HB: HasBoundingBox3D + Copy> AABBTree3DBranch<HB> {
    /// Creates a branch from its two subtrees and the cached merged box of
    /// everything below them.
    pub fn new(left: Box<AABBTree3D<HB>>, right: Box<AABBTree3D<HB>>, bb: BoundingBox3D) -> (r:
        Self)
        ensures
            r == (AABBTree3DBranch { left, right, bb }),
    {
        AABBTree3DBranch { left, right, bb }
    }

    /// Elements below this branch whose box collides with `bb`, left
    /// subtree first.
    pub fn bb_colliding(&self, bb: &BoundingBox3D) -> (r: Vec<HB>)
        requires
            self.wf(),
        ensures
            r@ == self.elems().filter(collides_pred(*bb)),
        decreases self,
    {
        if !self.bb.collides_with(bb) {
            proof {
                AABBTree3D::Branch(*self).lemma_wf_all_have_bb();
                lemma_cached_box_rejects(self.elems(), self.bb, *bb, 0);
            }
            return Vec::new();
        }
        let mut result = self.left.bb_colliding(bb);
        let mut rr = self.right.bb_colliding(bb);
        result.append(&mut rr);
        proof {
            Seq::filter_distributes_over_add(
                (*self.left).elems(),
                (*self.right).elems(),
                collides_pred(*bb),
            );
        }
        result
    }

    /// Elements below this branch whose box straddles the plane `x = x`.
    pub fn bb_crossing_x_value(&self, x: i64) -> (r: Vec<HB>)
        requires
            self.wf(),
        ensures
            r@ == self.elems().filter(crossing_x_pred(x)),
        decreases self,
    {
        if !self.bb.crossing_x_value(x) {
            proof {
                AABBTree3D::Branch(*self).lemma_wf_all_have_bb();
                lemma_cached_box_rejects(self.elems(), self.bb, self.bb, x);
            }
            return Vec::new();
        }
        let mut result = self.left.bb_crossing_x_value(x);
        let mut rr = self.right.bb_crossing_x_value(x);
        result.append(&mut rr);
        proof {
            Seq::filter_distributes_over_add(
                (*self.left).elems(),
                (*self.right).elems(),
                crossing_x_pred(x),
            );
        }
        result
    }

    /// Elements below this branch whose box straddles the plane `y = y`.
    pub fn bb_crossing_y_value(&self, y: i64) -> (r: Vec<HB>)
        requires
            self.wf(),
        ensures
            r@ == self.elems().filter(crossing_y_pred(y)),
        decreases self,
    {
        if !self.bb.crossing_y_value(y) {
            proof {
                AABBTree3D::Branch(*self).lemma_wf_all_have_bb();
                lemma_cached_box_rejects(self.elems(), self.bb, self.bb, y);
            }
            return Vec::new();
        }
        let mut result = self.left.bb_crossing_y_value(y);
        let mut rr = self.right.bb_crossing_y_value(y);
        result.append(&mut rr);
        proof {
            Seq::filter_distributes_over_add(
                (*self.left).elems(),
                (*self.right).elems(),
                crossing_y_pred(y),
            );
        }
        result
    }

    /// Elements below this branch whose box straddles the plane `z = z`.
    pub fn bb_crossing_z_value(&self, z: i64) -> (r: Vec<HB>)
        requires
            self.wf(),
        ensures
            r@ == self.elems().filter(crossing_z_pred(z)),
        decreases self,
    {
        if !self.bb.crossing_z_value(z) {
            proof {
                AABBTree3D::Branch(*self).lemma_wf_all_have_bb();
                lemma_cached_box_rejects(self.elems(), self.bb, self.bb, z);
            }
            return Vec::new();
        }
        let mut result = self.left.bb_crossing_z_value(z);
        let mut rr = self.right.bb_crossing_z_value(z);
        result.append(&mut rr);
        proof {
            Seq::filter_distributes_over_add(
                (*self.left).elems(),
                (*self.right).elems(),
                crossing_z_pred(z),
            );
        }
        result
    }
}

/// A consumer of line-intersection candidates, handed to
/// `for_each_intersection_candidate` and invoked once per candidate.
pub trait IntersectionVisitor<HB> {
    /// The candidates this visitor has been handed so far.
    spec fn visited(&self) -> Seq<HB>;

    /// Receives one intersection candidate.
    fn visit(&mut self, candidate: &HB)
        ensures
            final(self).visited() == old(self).visited().push(*candidate),
    ;
}

/// A vector collects the candidates it is handed, in visiting order.
impl<HB: Copy> IntersectionVisitor<HB> for Vec<HB> {
    open spec fn visited(&self) -> Seq<HB> {
        self@
    }

    fn visit(&mut self, candidate: &HB) {
        self.push(*candidate);
    }
}

/// When a cached box misses the line, no element below it can meet the
/// line.
proof fn lemma_cached_box_rejects_line<HB: HasBoundingBox3D>(
    s: Seq<HB>,
    cached: BoundingBox3D,
    l: Line3D,
)
    requires
        all_have_bb(s),
        cached == merged_box_of(s),
        !line_hits_box(l, cached),
    ensures
        s.filter(line_intersection_pred(l)) == Seq::<HB>::empty(),
{
    assert forall|k: int| 0 <= k < s.len() implies !(line_intersection_pred::<HB>(l)(
        #[trigger] s[k],
    )) by {
        lemma_merged_box_contains_each(s, k);
        if line_hits_box(l, s[k].spec_bb()) {
            lemma_line_hits_monotone(l, s[k].spec_bb(), cached);
        }
    }
    lemma_filter_none(s, line_intersection_pred(l));
}

impl<HB: HasBoundingBox3D + Copy> AABBTree3DLeaf<HB> {
    /// Elements of this leaf whose box the line meets, in bucket order.
    pub fn intersection_candidates(&self, line: &Line3D) -> (r: Vec<HB>)
        requires
            self.wf(),
            line.wf(),
        ensures
            r@ == self.data@.filter(line_intersection_pred(*line)),
    {
        let mut result: Vec<HB> = Vec::new();
        proof {
            lemma_merged_box_wf(self.data@);
        }
        if !intersection(line, &self.bb) {
            proof {
                lemma_cached_box_rejects_line(self.data@, self.bb, *line);
            }
            return result;
        }
        let n = self.data.len();
        let mut i: usize = 0;
        while i < n
            invariant
                self.wf(),
                line.wf(),
                n == self.data@.len(),
                i <= n,
                result@ == self.data@.take(i as int).filter(line_intersection_pred(*line)),
            decreases n - i,
        {
            let ebb = self.data[i].bounding_box().unwrap();
            proof {
                reveal(Seq::filter);
                assert(self.data@.take(i + 1).drop_last() =~= self.data@.take(i as int));
                assert(self.data@.take(i + 1).last() == self.data@[i as int]);
            }
            if intersection(line, &ebb) {
                result.push(self.data[i]);
            }
            i += 1;
        }
        proof {
            assert(self.data@.take(n as int) =~= self.data@);
        }
        result
    }

    /// Calls the visitor once, in bucket order, for each element of this
    /// leaf whose box the line meets: once for each entry of
    /// `intersection_candidates`.
    pub fn for_each_intersection_candidate<V: IntersectionVisitor<HB>>(
        &self,
        line: &Line3D,
        f: &mut V,
    )
        requires
            self.wf(),
            line.wf(),
        ensures
            final(f).visited() == old(f).visited() + self.data@.filter(
                line_intersection_pred(*line),
            ),
    {
        let candidates = self.intersection_candidates(line);
        visit_all(candidates, f);
    }
}

impl<HB: HasBoundingBox3D + Copy> AABBTree3DBranch<HB> {
    /// Elements below this branch whose box the line meets, left subtree
    /// first.
    pub fn intersection_candidates(&self, line: &Line3D) -> (r: Vec<HB>)
        requires
            self.wf(),
            line.wf(),
        ensures
            r@ == self.elems().filter(line_intersection_pred(*line)),
        decreases self,
    {
        proof {
            AABBTree3D::Branch(*self).lemma_wf_all_have_bb();
            lemma_merged_box_wf(self.elems());
        }
        if !intersection(line, &self.bb) {
            proof {
                lemma_cached_box_rejects_line(self.elems(), self.bb, *line);
            }
            return Vec::new();
        }
        let mut result = self.left.intersection_candidates(line);
        let mut rr = self.right.intersection_candidates(line);
        result.append(&mut rr);
        proof {
            Seq::filter_distributes_over_add(
                (*self.left).elems(),
                (*self.right).elems(),
                line_intersection_pred(*line),
            );
        }
        result
    }

    /// Calls the visitor once, left subtree first, for each element below
    /// this branch whose box the line meets: once for each entry of
    /// `intersection_candidates`.
    pub fn for_each_intersection_candidate<V: IntersectionVisitor<HB>>(
        &self,
        line: &Line3D,
        f: &mut V,
    )
        requires
            self.wf(),
            line.wf(),
        ensures
            final(f).visited() == old(f).visited() + self.elems().filter(
                line_intersection_pred(*line),
            ),
    {
        let candidates = self.intersection_candidates(line);
        visit_all(candidates, f);
    }
}

impl<HB: HasBoundingBox3D + Copy> AABBTree3D<HB> {
    /// Returns the elements whose bounding box the line meets, in traversal
    /// order; an element held by several leaves is returned once per leaf
    /// whose cached box was not rejected.
    pub fn intersection_candidates(&self, line: &Line3D) -> (r: Vec<HB>)
        requires
            self.wf(),
            line.wf(),
        ensures
            r@ == self.line_candidates(*line),
        decreases self,
    {
        match self {
            AABBTree3D::Empty => {
                proof {
                    lemma_filter_empty::<HB>(line_intersection_pred(*line));
                }
                Vec::new()
            },
            AABBTree3D::Leaf(leaf) => leaf.intersection_candidates(line),
            AABBTree3D::Branch(branch) => branch.intersection_candidates(line),
        }
    }

    /// Calls the visitor once for every element whose bounding box the line
    /// meets — once for each entry of `intersection_candidates`, in that
    /// order — and never for an element whose box misses the line.
    pub fn for_each_intersection_candidate<V: IntersectionVisitor<HB>>(
        &self,
        line: &Line3D,
        f: &mut V,
    )
        requires
            self.wf(),
            line.wf(),
        ensures
            final(f).visited() == old(f).visited() + self.line_candidates(*line),
    {
        let candidates = self.intersection_candidates(line);
        visit_all(candidates, f);
    }
}

/// Hands every entry of `candidates` to the visitor, in order.
fn visit_all<HB: Copy, V: IntersectionVisitor<HB>>(candidates: Vec<HB>, f: &mut V)
    ensures
        final(f).visited() == old(f).visited() + candidates@,
{
    let n = candidates.len();
    let mut i: usize = 0;
    while i < n
        invariant
            n == candidates@.len(),
            i <= n,
            f.visited() == old(f).visited() + candidates@.take(i as int),
        decreases n - i,
    {
        let c = candidates[i];
        f.visit(&c);
        proof {
            assert(old(f).visited() + candidates@.take(i as int) + seq![candidates@[i as int]]
                =~= old(f).visited() + candidates@.take(i + 1));
        }
        i += 1;
    }
    proof {
        assert(candidates@.take(n as int) =~= candidates@);
        assert(old(f).visited() + candidates@.take(0) =~= old(f).visited());
    }
}

/// Law: a box-collision query with the merged box of the elements the tree
/// was built from returns every one of those elements at least once.
pub proof fn lemma_full_box_query_covers<HB: HasBoundingBox3D>(
    t: AABBTree3D<HB>,
    data: Seq<HB>,
    j: int,
)
    requires
        t.wf(),
        t.elems().to_set() == data.to_set(),
        0 <= j < data.len(),
    ensures
        t.colliding_candidates(merged_box_of(data)).contains(data[j]),
{
    let q = merged_box_of(data);
    let e = data[j];
    assert(data.to_set().contains(e));
    assert(t.elems().contains(e));
    t.lemma_wf_all_have_bb();
    let k = choose|k: int| 0 <= k < t.elems().len() && t.elems()[k] == e;
    assert(e.spec_has_bb() && e.spec_bb().wf());
    lemma_merged_box_contains_each(data, j);
    assert(collides_pred::<HB>(q)(e));
    lemma_filter_contains_iff(t.elems(), collides_pred(q), e);
}

/// Law: every query on an empty tree has no candidates.
pub proof fn lemma_empty_tree_queries_empty<HB: HasBoundingBox3D>(
    t: AABBTree3D<HB>,
    q: BoundingBox3D,
    l: Line3D,
    x: i64,
    y: i64,
    z: i64,
)
    requires
        t is Empty,
    ensures
        t.colliding_candidates(q) == Seq::<HB>::empty(),
        t.line_candidates(l) == Seq::<HB>::empty(),
        t.crossing_x_candidates(x) == Seq::<HB>::empty(),
        t.crossing_y_candidates(y) == Seq::<HB>::empty(),
        t.crossing_z_candidates(z) == Seq::<HB>::empty(),
{
    lemma_filter_empty::<HB>(collides_pred(q));
    lemma_filter_empty::<HB>(line_intersection_pred(l));
    lemma_filter_empty::<HB>(crossing_x_pred(x));
    lemma_filter_empty::<HB>(crossing_y_pred(y));
    lemma_filter_empty::<HB>(crossing_z_pred(z));
}

/// Law: a crossing-value query at a value strictly outside the merged box's
/// range on the tested axis has no candidates.
pub proof fn lemma_crossing_outside_is_empty<HB: HasBoundingBox3D>(
    t: AABBTree3D<HB>,
    x: i64,
    y: i64,
    z: i64,
)
    requires
        t.wf(),
        t.elems().len() > 0,
    ensures
        x < merged_box_of(t.elems()).min.x || x > merged_box_of(t.elems()).max.x
            ==> t.crossing_x_candidates(x) == Seq::<HB>::empty(),
        y < merged_box_of(t.elems()).min.y || y > merged_box_of(t.elems()).max.y
            ==> t.crossing_y_candidates(y) == Seq::<HB>::empty(),
        z < merged_box_of(t.elems()).min.z || z > merged_box_of(t.elems()).max.z
            ==> t.crossing_z_candidates(z) == Seq::<HB>::empty(),
{
    t.lemma_wf_all_have_bb();
    lemma_cached_box_rejects(t.elems(), merged_box_of(t.elems()), merged_box_of(t.elems()), x);
    lemma_cached_box_rejects(t.elems(), merged_box_of(t.elems()), merged_box_of(t.elems()), y);
    lemma_cached_box_rejects(t.elems(), merged_box_of(t.elems()), merged_box_of(t.elems()), z);
}

/// Law: two trees holding the same set of elements return the same set of
/// candidates for every query, whatever their internal shape.
pub proof fn lemma_queries_determined_by_elements<HB: HasBoundingBox3D>(
    t1: AABBTree3D<HB>,
    t2: AABBTree3D<HB>,
    q: BoundingBox3D,
    l: Line3D,
    x: i64,
    y: i64,
    z: i64,
)
    requires
        t1.wf(),
        t2.wf(),
        t1.elems().to_set() == t2.elems().to_set(),
    ensures
        t1.colliding_candidates(q).to_set() == t2.colliding_candidates(q).to_set(),
        t1.line_candidates(l).to_set() == t2.line_candidates(l).to_set(),
        t1.crossing_x_candidates(x).to_set() == t2.crossing_x_candidates(x).to_set(),
        t1.crossing_y_candidates(y).to_set() == t2.crossing_y_candidates(y).to_set(),
        t1.crossing_z_candidates(z).to_set() == t2.crossing_z_candidates(z).to_set(),
{
    lemma_filter_set_determined(t1.elems(), t2.elems(), collides_pred(q));
    lemma_filter_set_determined(t1.elems(), t2.elems(), line_intersection_pred(l));
    lemma_filter_set_determined(t1.elems(), t2.elems(), crossing_x_pred(x));
    lemma_filter_set_determined(t1.elems(), t2.elems(), crossing_y_pred(y));
    lemma_filter_set_determined(t1.elems(), t2.elems(), crossing_z_pred(z));
}

} // verus!
