//! The scene: its objects and its lights, the intersections of a ray with
//! all objects in their order along the ray, and the colour that the ray
//! sees.
//!
//! The arithmetic is the caller's: the functions that the intersection of a
//! ray with a sphere takes (see [`crate::ray`]), `shade` for the colour of
//! the scene at an intersection, `contribution` for what one light adds to
//! the colour of a point, and `plus` for the sum of two colours.

use vstd::prelude::*;
use crate::algebra::{takes_four, takes_lists, takes_two};
use crate::color::Color;
use crate::light::Light;
use crate::material::Material;
use crate::matrix::identity_grid;
use crate::ray::{is_intersection_with, none_ahead, Computation, Intersection, Ray, Sphere};
use crate::scalar::{
    Scalar, FIFTH_BITS, FOUR_FIFTHS_BITS, HALF_BITS, SEVEN_TENTHS_BITS, TENTH_BITS, TEN_BITS,
    THREE_FIFTHS_BITS, TWO_HUNDRED_BITS,
};
use crate::transform::{scaling, scaling_grid};
use crate::tuple::Tuple;

verus! {

/// A scene: spheres and lights, each in the order in which they were added.
#[derive(Clone, Debug, PartialEq, Eq)]
pub struct World {
    pub objects: Vec<Sphere>,
    pub lights: Vec<Light>,
}

/// No entry of `s` has a `t` that is not a number.
pub open spec fn all_numbers(s: Seq<Intersection>) -> bool {
    forall|j: int| 0 <= j < s.len() ==> !(#[trigger] s[j]).t.is_nan()
}

/// The entries of `s` never step down in `t`.
pub open spec fn ascending(s: Seq<Intersection>) -> bool {
    forall|i: int, j: int| 0 <= i < j < s.len() ==> s[i].t.ordinal() <= s[j].t.ordinal()
}

/// The test for an entry whose `t` has ordinal `v`.
pub open spec fn has_ordinal(v: int) -> spec_fn(Intersection) -> bool {
    |i: Intersection| i.t.ordinal() == v
}

/// `out` holds the entries of `s` in ascending order of `t`, and entries of
/// equal `t` stand in `out` in the order in which they stand in `s`.
pub open spec fn is_stable_sort_of(out: Seq<Intersection>, s: Seq<Intersection>) -> bool {
    &&& out.len() == s.len()
    &&& ascending(out)
    &&& forall|v: int| #[trigger] out.filter(has_ordinal(v)) == s.filter(has_ordinal(v))
}

/// No entry of any list of `groups` has a `t` that is not a number.
pub open spec fn groups_are_numbers(groups: Seq<Vec<Intersection>>) -> bool {
    forall|g: int| 0 <= g < groups.len() ==> all_numbers((#[trigger] groups[g])@)
}

/// The lists of `groups` one after another.
pub open spec fn concatenation(groups: Seq<Vec<Intersection>>) -> Seq<Intersection> {
    groups.map_values(|g: Vec<Intersection>| g@).flatten()
}

/// Position `k` holds the first entry of `s` that is ahead.
pub open spec fn is_first_ahead(s: Seq<Intersection>, k: int) -> bool {
    &&& 0 <= k < s.len()
    &&& s[k].is_ahead()
    &&& forall|j: int| 0 <= j < k ==> !(#[trigger] s[j]).is_ahead()
}

/// Entering `e` behind the entries of `out` that do not exceed it keeps `out`
/// the stable sort of what was entered so far.
proof fn lemma_insert_keeps_stable_sort(
    out: Seq<Intersection>,
    s: Seq<Intersection>,
    e: Intersection,
    p: int,
)
    requires
        is_stable_sort_of(out, s),
        0 <= p <= out.len(),
        forall|j: int| 0 <= j < p ==> out[j].t.ordinal() <= e.t.ordinal(),
        forall|j: int| p <= j < out.len() ==> out[j].t.ordinal() > e.t.ordinal(),
    ensures
        is_stable_sort_of(out.insert(p, e), s.push(e)),
{
    let head = out.take(p);
    let tail = out.skip(p);
    let grown = out.insert(p, e);
    assert(grown =~= head.push(e) + tail);
    assert(out =~= head + tail);
    assert forall|v: int| #[trigger] grown.filter(has_ordinal(v)) == s.push(e).filter(has_ordinal(v)) by {
        let keep = has_ordinal(v);
        Seq::filter_distributes_over_add(head.push(e), tail, keep);
        Seq::filter_distributes_over_add(head, tail, keep);
        head.lemma_filter_push(e, keep);
        s.lemma_filter_push(e, keep);
        assert(out.filter(keep) == s.filter(keep));
        if keep(e) {
            assert(tail.all(|x: Intersection| !keep(x)));
            tail.lemma_all_neg_filter_empty(keep);
            assert(tail.filter(keep) =~= Seq::<Intersection>::empty());
            assert(head.filter(keep) + tail.filter(keep) =~= head.filter(keep));
            assert(head.filter(keep).push(e) + tail.filter(keep) =~= head.filter(keep).push(e));
        }
    }
}

/// Lists that agree on the entries of each `t` hold the same entries: every
/// entry of `a` stands somewhere in `b`. In particular sorting neither adds
/// nor drops an entry.
pub proof fn lemma_entry_is_shared(a: Seq<Intersection>, b: Seq<Intersection>, i: int)
    requires
        forall|v: int| #[trigger] a.filter(has_ordinal(v)) == b.filter(has_ordinal(v)),
        0 <= i < a.len(),
    ensures
        b.contains(a[i]),
{
    let keep = has_ordinal(a[i].t.ordinal());
    assert(keep(a[i]));
    a.lemma_filter_contains(keep, i);
    assert(a.filter(keep) == b.filter(keep));
    b.lemma_filter_contains_rev(keep, a[i]);
}

/// The first entry of `s` that passes `keep` is the first entry of the
/// filtered list.
proof fn lemma_first_kept(s: Seq<Intersection>, keep: spec_fn(Intersection) -> bool, k: int)
    requires
        0 <= k < s.len(),
        keep(s[k]),
        forall|j: int| 0 <= j < k ==> !keep(#[trigger] s[j]),
    ensures
        s.filter(keep).len() > 0,
        s.filter(keep)[0] == s[k],
{
    let head = s.take(k);
    let tail = s.skip(k + 1);
    assert(s =~= head.push(s[k]) + tail);
    Seq::filter_distributes_over_add(head.push(s[k]), tail, keep);
    head.lemma_filter_push(s[k], keep);
    assert(head.all(|x: Intersection| !keep(x)));
    head.lemma_all_neg_filter_empty(keep);
    assert(head.filter(keep) =~= Seq::<Intersection>::empty());
}

/// Sorting a list and taking the first entry that is ahead finds the hit of
/// the list: the two ways of choosing what a ray sees agree.
pub proof fn lemma_first_visible_of_sorted_is_hit(
    s: Seq<Intersection>,
    sorted: Seq<Intersection>,
    k: int,
    m: int,
)
    requires
        is_stable_sort_of(sorted, s),
        crate::ray::is_hit(s, k),
        is_first_ahead(sorted, m),
    ensures
        sorted[m] == s[k],
{
    let v = s[k].t.ordinal();
    let keep = has_ordinal(v);
    // The hit is the first entry of `s` with its `t`.
    assert forall|j: int| 0 <= j < k implies !keep(#[trigger] s[j]) by {
        if keep(s[j]) {
            assert(s[j].is_ahead());
        }
    }
    lemma_first_kept(s, keep, k);
    // The first visible entry of `sorted` has the same `t` ...
    lemma_entry_is_shared(sorted, s, m);
    let j0 = choose|j: int| 0 <= j < s.len() && s[j] == sorted[m];
    assert(s[j0].is_ahead());
    lemma_entry_is_shared(s, sorted, k);
    let m0 = choose|j: int| 0 <= j < sorted.len() && sorted[j] == s[k];
    assert(sorted[m0].is_ahead());
    assert(m <= m0);
    assert(sorted[m].t.ordinal() == v);
    // ... and is the first entry of `sorted` with it.
    assert forall|j: int| 0 <= j < m implies !keep(#[trigger] sorted[j]) by {
        if keep(sorted[j]) {
            assert(sorted[j].t.ordinal() == sorted[m].t.ordinal());
            assert(sorted[j].is_ahead());
        }
    }
    lemma_first_kept(sorted, keep, m);
    assert(sorted.filter(keep) == s.filter(keep));
}

/// Two ascending lists of one length that agree on the entries of each `t`
/// are the same list.
proof fn lemma_ascending_lists_agree(a: Seq<Intersection>, b: Seq<Intersection>)
    requires
        a.len() == b.len(),
        ascending(a),
        ascending(b),
        forall|v: int| #[trigger] a.filter(has_ordinal(v)) == b.filter(has_ordinal(v)),
    ensures
        a == b,
    decreases a.len(),
{
    if a.len() == 0 {
        assert(a =~= b);
    } else {
        lemma_entry_is_shared(a, b, 0);
        lemma_entry_is_shared(b, a, 0);
        let keep = has_ordinal(a[0].t.ordinal());
        assert(keep(b[0]));
        lemma_first_kept(a, keep, 0);
        lemma_first_kept(b, keep, 0);
        assert(a.filter(keep) == b.filter(keep));
        assert(a[0] == b[0]);
        let first = seq![a[0]];
        let rest_a = a.skip(1);
        let rest_b = b.skip(1);
        assert(a =~= first + rest_a);
        assert(b =~= first + rest_b);
        assert forall|v: int| #[trigger]
            rest_a.filter(has_ordinal(v)) == rest_b.filter(has_ordinal(v)) by {
            let same = has_ordinal(v);
            Seq::filter_distributes_over_add(first, rest_a, same);
            Seq::filter_distributes_over_add(first, rest_b, same);
            assert(a.filter(same) == b.filter(same));
            let kept = first.filter(same);
            assert(kept + rest_a.filter(same) == kept + rest_b.filter(same));
            assert(rest_a.filter(same) =~= (kept + rest_a.filter(same)).skip(kept.len() as int));
            assert(rest_b.filter(same) =~= (kept + rest_b.filter(same)).skip(kept.len() as int));
        }
        lemma_ascending_lists_agree(rest_a, rest_b);
    }
}

/// A list has one stable sort only.
pub proof fn lemma_stable_sort_is_unique(
    first: Seq<Intersection>,
    second: Seq<Intersection>,
    s: Seq<Intersection>,
)
    requires
        is_stable_sort_of(first, s),
        is_stable_sort_of(second, s),
    ensures
        first == second,
{
    assert forall|v: int| #[trigger]
        first.filter(has_ordinal(v)) == second.filter(has_ordinal(v)) by {
        assert(first.filter(has_ordinal(v)) == s.filter(has_ordinal(v)));
        assert(second.filter(has_ordinal(v)) == s.filter(has_ordinal(v)));
    }
    lemma_ascending_lists_agree(first, second);
}

/// Sorting neither adds nor removes an entry that is ahead.
pub proof fn lemma_sorting_keeps_visibility(s: Seq<Intersection>, sorted: Seq<Intersection>)
    requires
        is_stable_sort_of(sorted, s),
    ensures
        none_ahead(sorted) <==> none_ahead(s),
{
    if none_ahead(s) {
        assert forall|j: int| 0 <= j < sorted.len() implies !(#[trigger] sorted[j]).is_ahead() by {
            lemma_entry_is_shared(sorted, s, j);
        }
    }
    if none_ahead(sorted) {
        assert forall|j: int| 0 <= j < s.len() implies !(#[trigger] s[j]).is_ahead() by {
            lemma_entry_is_shared(s, sorted, j);
        }
    }
}

/// The entries in ascending order of `t`. Entries of equal `t` keep their
/// order. What is not a number has no place in the order and must not occur.
pub fn sort_intersections(intersections: &Vec<Intersection>) -> (sorted: Vec<Intersection>)
    requires
        all_numbers(intersections@),
    ensures
        is_stable_sort_of(sorted@, intersections@),
{
    let mut sorted: Vec<Intersection> = Vec::new();
    let mut i: usize = 0;
    assert(intersections@.take(0) =~= Seq::<Intersection>::empty());
    while i < intersections.len()
        invariant
            i <= intersections@.len(),
            is_stable_sort_of(sorted@, intersections@.take(i as int)),
        decreases intersections@.len() - i,
    {
        let e = intersections[i];
        let key = e.t.rank();
        let mut p: usize = sorted.len();
        while p > 0 && sorted[p - 1].t.rank() > key
            invariant
                p <= sorted@.len(),
                key == e.t.ordinal(),
                forall|j: int| p <= j < sorted@.len() ==> sorted@[j].t.ordinal() > key,
            decreases p,
        {
            p -= 1;
        }
        proof {
            assert forall|j: int| 0 <= j < p implies sorted@[j].t.ordinal() <= key by {
                if j < p - 1 {
                    assert(sorted@[j].t.ordinal() <= sorted@[p - 1].t.ordinal());
                }
            }
            lemma_insert_keeps_stable_sort(sorted@, intersections@.take(i as int), e, p as int);
            assert(intersections@.take(i as int).push(e) =~= intersections@.take(i + 1));
        }
        sorted.insert(p, e);
        i += 1;
    }
    assert(intersections@.take(i as int) =~= intersections@);
    sorted
}

/// Whether no entry of any list is not a number.
pub fn are_numbers(groups: &Vec<Vec<Intersection>>) -> (b: bool)
    ensures
        b == groups_are_numbers(groups@),
{
    let mut g: usize = 0;
    while g < groups.len()
        invariant
            g <= groups@.len(),
            forall|i: int| 0 <= i < g ==> all_numbers((#[trigger] groups@[i])@),
        decreases groups@.len() - g,
    {
        let group = &groups[g];
        let mut k: usize = 0;
        while k < group.len()
            invariant
                k <= group@.len(),
                group == &groups@[g as int],
                g < groups@.len(),
                forall|j: int| 0 <= j < k ==> !(#[trigger] group@[j]).t.is_nan(),
            decreases group@.len() - k,
        {
            if group[k].t.is_nan() {
                assert(!all_numbers(groups@[g as int]@));
                return false;
            }
            k += 1;
        }
        g += 1;
    }
    true
}

/// All intersections of a ray with a scene, given the entries found for each
/// object in the order of the scene's objects: the lists one after another,
/// then sorted ascending by `t`, entries of equal `t` keeping their order.
/// What is not a number must not occur.
pub fn merge_intersections(groups: &Vec<Vec<Intersection>>) -> (merged: Vec<Intersection>)
    requires
        groups_are_numbers(groups@),
    ensures
        is_stable_sort_of(merged@, concatenation(groups@)),
{
    let mut all: Vec<Intersection> = Vec::new();
    let mut g: usize = 0;
    assert(groups@.take(0) =~= Seq::<Vec<Intersection>>::empty());
    while g < groups.len()
        invariant
            g <= groups@.len(),
            groups_are_numbers(groups@),
            all_numbers(all@),
            all@ == concatenation(groups@.take(g as int)),
        decreases groups@.len() - g,
    {
        let group = &groups[g];
        let ghost rows = groups@.take(g as int).map_values(|v: Vec<Intersection>| v@);
        let mut k: usize = 0;
        while k < group.len()
            invariant
                k <= group@.len(),
                all_numbers(group@),
                all_numbers(all@),
                all@ == rows.flatten() + group@.take(k as int),
            decreases group@.len() - k,
        {
            all.push(group[k]);
            assert(all@ =~= rows.flatten() + group@.take(k + 1));
            k += 1;
        }
        proof {
            assert(group@.take(k as int) =~= group@);
            rows.lemma_flatten_push(group@);
            assert(groups@.take(g + 1).map_values(|v: Vec<Intersection>| v@) =~= rows.push(group@));
        }
        g += 1;
    }
    assert(groups@.take(g as int) =~= groups@);
    sort_intersections(&all)
}

/// The first entry with `t >= 0`. On a list in ascending order this is the
/// nearest point that the ray reaches.
pub fn first_visible(intersections: &Vec<Intersection>) -> (found: Option<&Intersection>)
    ensures
        match found {
            Some(i) => exists|k: int| is_first_ahead(intersections@, k) && *i == intersections@[k],
            None => none_ahead(intersections@),
        },
{
    let mut j: usize = 0;
    while j < intersections.len()
        invariant
            j <= intersections@.len(),
            forall|i: int| 0 <= i < j ==> !(#[trigger] intersections@[i]).is_ahead(),
        decreases intersections@.len() - j,
    {
        if intersections[j].is_ahead() {
            assert(is_first_ahead(intersections@, j as int));
            return Some(&intersections[j]);
        }
        j += 1;
    }
    None
}

/// Every entry of `s` names one of the first `objects` objects.
pub open spec fn names_objects(s: Seq<Intersection>, objects: nat) -> bool {
    forall|k: int| 0 <= k < s.len() ==> (#[trigger] s[k]).object < objects
}

/// `groups` holds, for each of `objects` in turn, the entries of `ray` with
/// it.
pub open spec fn are_entries_of<
    D: Fn(Scalar, Scalar, Scalar, Scalar) -> Scalar,
    P: Fn(&Vec<Scalar>, &Vec<Scalar>) -> Scalar,
    Q: Fn(Scalar, Scalar) -> Scalar,
    R: Fn(&Ray) -> (Scalar, Scalar, Scalar),
>(
    det2: D,
    dot: P,
    divide: Q,
    roots: R,
    ray: Ray,
    objects: Seq<Sphere>,
    groups: Seq<Vec<Intersection>>,
) -> bool {
    &&& groups.len() == objects.len()
    &&& forall|i: int|
        0 <= i < objects.len() ==> is_intersection_with(
            det2,
            dot,
            divide,
            roots,
            ray,
            objects[i].transform@,
            i as usize,
            (#[trigger] groups[i])@,
        )
}

/// `all` is the list of all entries of a ray with a scene, given the entries
/// `groups` that it has with the objects: the lists one after another, sorted
/// ascending by `t`, entries of equal `t` keeping their order. There is no
/// such list if an entry is not a number.
pub open spec fn is_intersection(groups: Seq<Vec<Intersection>>, all: Option<Vec<Intersection>>) -> bool {
    match all {
        Some(merged) => groups_are_numbers(groups) && is_stable_sort_of(merged@, concatenation(groups)),
        None => !groups_are_numbers(groups),
    }
}

/// `color` is what `ray` sees of `objects`, given the entries `groups` that
/// it has with them. It sees nothing that can be told if an entry is not a
/// number, or if the ray meets objects but only behind its origin. It sees
/// black if it meets no object. Else it sees the first entry that is ahead
/// in the sorted list of all entries, in the colour that `shade` gives for
/// the entry, the object that the entry names, and the ray.
pub open spec fn is_seen<S: Fn(&Intersection, &Sphere, &Ray) -> Color>(
    groups: Seq<Vec<Intersection>>,
    objects: Seq<Sphere>,
    ray: Ray,
    shade: S,
    color: Option<Color>,
) -> bool {
    if !groups_are_numbers(groups) {
        color is None
    } else {
        exists|merged: Seq<Intersection>|
            {
                &&& is_stable_sort_of(merged, concatenation(groups))
                &&& merged.len() == 0 ==> color == Some(Color::black())
                &&& merged.len() > 0 && none_ahead(merged) ==> color is None
                &&& forall|k: int| #[trigger]
                    is_first_ahead(merged, k) ==> {
                        &&& merged[k].object < objects.len()
                        &&& color is Some
                        &&& call_ensures(
                            shade,
                            (&merged[k], &objects[merged[k].object as int], &ray),
                            color->0,
                        )
                    }
            }
    }
}

/// `total` is the colour of the point of `comps` on a surface of `material`
/// under `lights`: black for no light, else an answer of `plus` for the
/// colour under the lights before the last, and what `contribution` gives
/// for the last.
pub open spec fn is_shade<
    L: Fn(&Material, &Light, &Computation) -> Color,
    A: Fn(Color, Color) -> Color,
>(contribution: L, plus: A, material: Material, lights: Seq<Light>, comps: Computation, total: Color) -> bool
    decreases lights.len(),
{
    if lights.len() == 0 {
        total == Color::black()
    } else {
        exists|before: Color, last: Color|
            {
                &&& is_shade(contribution, plus, material, lights.drop_last(), comps, before)
                &&& call_ensures(contribution, (&material, &lights.last(), &comps), last)
                &&& call_ensures(plus, (before, last), total)
            }
    }
}

/// What it means to be the colour under the lights, spelled out for one
/// list of lights.
pub proof fn lemma_shade_unfolds<
    L: Fn(&Material, &Light, &Computation) -> Color,
    A: Fn(Color, Color) -> Color,
>(contribution: L, plus: A, material: Material, lights: Seq<Light>, comps: Computation, total: Color)
    requires
        is_shade(contribution, plus, material, lights, comps, total),
    ensures
        lights.len() == 0 ==> total == Color::black(),
        lights.len() > 0 ==> exists|before: Color, last: Color|
            {
                &&& is_shade(contribution, plus, material, lights.drop_last(), comps, before)
                &&& call_ensures(contribution, (&material, &lights.last(), &comps), last)
                &&& call_ensures(plus, (before, last), total)
            },
{
}

/// Every entry of the lists one after another is an entry of one of the
/// lists.
proof fn lemma_concatenation_entry(groups: Seq<Vec<Intersection>>, j: int)
    requires
        0 <= j < concatenation(groups).len(),
    ensures
        exists|g: int, k: int|
            0 <= g < groups.len() && 0 <= k < groups[g]@.len() && concatenation(groups)[j]
                == #[trigger] groups[g]@[k],
    decreases groups.len(),
{
    let lists = groups.map_values(|g: Vec<Intersection>| g@);
    if groups.len() > 0 {
        let first = lists.first();
        assert(lists.flatten() == first + lists.drop_first().flatten());
        if j < first.len() {
            assert(concatenation(groups)[j] == groups[0]@[j]);
        } else {
            let rest = groups.drop_first();
            assert(rest.map_values(|g: Vec<Intersection>| g@) =~= lists.drop_first());
            lemma_concatenation_entry(rest, j - first.len());
            let (g, k) = choose|g: int, k: int|
                0 <= g < rest.len() && 0 <= k < rest[g]@.len() && concatenation(rest)[j - first.len()]
                    == #[trigger] rest[g]@[k];
            assert(concatenation(groups)[j] == groups[g + 1]@[k]);
        }
    }
}

/// Where every list holds entries that name its own position, the sorted
/// list of all entries names positions of the lists only.
proof fn lemma_sorted_entries_name_objects(groups: Seq<Vec<Intersection>>, merged: Seq<Intersection>)
    requires
        is_stable_sort_of(merged, concatenation(groups)),
        forall|g: int, k: int|
            0 <= g < groups.len() && 0 <= k < groups[g]@.len() ==> (#[trigger] groups[g]@[k]).object == g,
    ensures
        names_objects(merged, groups.len()),
{
    let all = concatenation(groups);
    assert forall|k: int| 0 <= k < merged.len() implies (#[trigger] merged[k]).object < groups.len() by {
        lemma_entry_is_shared(merged, all, k);
        let j = choose|j: int| 0 <= j < all.len() && all[j] == merged[k];
        lemma_concatenation_entry(groups, j);
    }
}

impl World {
    /// The transform of every object is a four by four matrix.
    pub open spec fn wf(&self) -> bool {
        forall|i: int| 0 <= i < self.objects@.len() ==> (#[trigger] self.objects@[i]).wf()
    }

    /// The light of the default scene: white, at the point (-10, 10, -10).
    pub open spec fn default_light() -> Light {
        Light {
            intensity: Color::white(),
            position: Tuple {
                x: Scalar { bits: TEN_BITS }.neg(),
                y: Scalar { bits: TEN_BITS },
                z: Scalar { bits: TEN_BITS }.neg(),
                w: Scalar::one(),
            },
        }
    }

    /// The material of the first sphere of the default scene: the colour
    /// (0.8, 1, 0.6), ambient 0.1, diffuse 0.7, specular 0.2, shininess 200.
    pub open spec fn default_outer_material() -> Material {
        Material {
            color: Color {
                red: Scalar { bits: FOUR_FIFTHS_BITS },
                green: Scalar::one(),
                blue: Scalar { bits: THREE_FIFTHS_BITS },
            },
            ambient: Scalar { bits: TENTH_BITS },
            diffuse: Scalar { bits: SEVEN_TENTHS_BITS },
            specular: Scalar { bits: FIFTH_BITS },
            shininess: Scalar { bits: TWO_HUNDRED_BITS },
        }
    }

    /// Whether the transform of every object is a four by four matrix.
    pub fn is_well_formed(&self) -> (b: bool)
        ensures
            b == self.wf(),
    {
        let mut i: usize = 0;
        while i < self.objects.len()
            invariant
                i <= self.objects@.len(),
                forall|j: int| 0 <= j < i ==> (#[trigger] self.objects@[j]).wf(),
            decreases self.objects@.len() - i,
        {
            if !self.objects[i].is_well_formed() {
                return false;
            }
            i += 1;
        }
        true
    }

    /// The scene without objects and lights.
    pub fn new() -> (world: World)
        ensures
            world.objects@.len() == 0,
            world.lights@.len() == 0,
            world.wf(),
    {
        World { objects: Vec::new(), lights: Vec::new() }
    }

    /// The default scene: one white light at (-10, 10, -10), and two spheres
    /// about the origin, the first of radius one and of a greenish material,
    /// the second of radius one half and of the default material.
    pub fn default() -> (world: World)
        ensures
            world.lights@ == seq![World::default_light()],
            world.objects@.len() == 2,
            world.objects@[0].transform@ == identity_grid(4),
            world.objects@[0].material == World::default_outer_material(),
            world.objects@[1].transform@ == scaling_grid(
                Scalar { bits: HALF_BITS },
                Scalar { bits: HALF_BITS },
                Scalar { bits: HALF_BITS },
            ),
            world.objects@[1].material == Material::default(),
            world.wf(),
    {
        let ten = Scalar::from_bits(TEN_BITS);
        let half = Scalar::from_bits(HALF_BITS);
        let light = Light {
            position: Tuple::point(ten.neg(), ten, ten.neg()),
            intensity: Color::white(),
        };

        let material = Material {
            ambient: Scalar::from_bits(TENTH_BITS),
            diffuse: Scalar::from_bits(SEVEN_TENTHS_BITS),
            specular: Scalar::from_bits(FIFTH_BITS),
            shininess: Scalar::from_bits(TWO_HUNDRED_BITS),
            color: Color::new(Scalar::from_bits(FOUR_FIFTHS_BITS), Scalar::one(), Scalar::from_bits(THREE_FIFTHS_BITS)),
        };

        let mut s1 = Sphere::init();
        s1.material = material;

        let mut s2 = Sphere::init();
        s2.transform = scaling(half, half, half);

        let mut world = World::new();
        world.lights.push(light);
        world.objects.push(s1);
        world.objects.push(s2);
        assert(world.lights@ =~= seq![World::default_light()]);
        assert(world.objects@[1].transform@.len() == 4);
        world
    }

    /// All intersections of `ray` with the objects of the scene, in
    /// ascending order of `t`; entries of equal `t` stand in the order of
    /// their objects. The result is `None` where an entry is not a number.
    pub fn intersect<
        D: Fn(Scalar, Scalar, Scalar, Scalar) -> Scalar,
        P: Fn(&Vec<Scalar>, &Vec<Scalar>) -> Scalar,
        Q: Fn(Scalar, Scalar) -> Scalar,
        R: Fn(&Ray) -> (Scalar, Scalar, Scalar),
    >(&self, ray: &Ray, det2: &D, dot: &P, divide: &Q, roots: &R) -> (all: Option<Vec<Intersection>>)
        requires
            self.wf(),
            takes_four(*det2),
            takes_lists(*dot),
            takes_two(*divide),
            forall|r: Ray| call_requires(*roots, (&r,)),
        ensures
            exists|groups: Seq<Vec<Intersection>>|
                are_entries_of(*det2, *dot, *divide, *roots, *ray, self.objects@, groups)
                    && is_intersection(groups, all),
            all matches Some(merged) ==> names_objects(merged@, self.objects@.len() as nat),
    {
        let mut groups: Vec<Vec<Intersection>> = Vec::new();
        let mut i: usize = 0;
        while i < self.objects.len()
            invariant
                i <= self.objects@.len(),
                self.wf(),
                takes_four(*det2),
                takes_lists(*dot),
                takes_two(*divide),
                forall|r: Ray| call_requires(*roots, (&r,)),
                are_entries_of(*det2, *dot, *divide, *roots, *ray, self.objects@.take(i as int), groups@),
                forall|g: int, k: int|
                    0 <= g < groups@.len() && 0 <= k < groups@[g]@.len() ==> (#[trigger] groups@[g]@[k]).object
                        == g,
            decreases self.objects@.len() - i,
        {
            let found = ray.intersect(&self.objects[i], i, det2, dot, divide, roots);
            assert(forall|k: int| 0 <= k < found@.len() ==> (#[trigger] found@[k]).object == i);
            groups.push(found);
            i += 1;
        }
        assert(self.objects@.take(i as int) =~= self.objects@);
        let all = if are_numbers(&groups) {
            let merged = merge_intersections(&groups);
            proof {
                lemma_sorted_entries_name_objects(groups@, merged@);
            }
            Some(merged)
        } else {
            None
        };
        assert(is_intersection(groups@, all));
        all
    }

    /// The colour of the point of `comps` under the lights of the scene: the
    /// sum of what `contribution` gives for the material of the object, each
    /// light in turn, and the computation, starting from black.
    pub fn shade_hit<L: Fn(&Material, &Light, &Computation) -> Color, A: Fn(Color, Color) -> Color>(
        &self,
        comps: &Computation,
        contribution: &L,
        plus: &A,
    ) -> (total: Color)
        requires
            comps.object < self.objects@.len(),
            forall|m: Material, l: Light, c: Computation| call_requires(*contribution, (&m, &l, &c)),
            forall|a: Color, b: Color| call_requires(*plus, (a, b)),
        ensures
            is_shade(
                *contribution,
                *plus,
                self.objects@[comps.object as int].material,
                self.lights@,
                *comps,
                total,
            ),
    {
        let material = &self.objects[comps.object].material;
        let mut total = Color::black();
        let mut i: usize = 0;
        assert(self.lights@.take(0) =~= Seq::<Light>::empty());
        while i < self.lights.len()
            invariant
                i <= self.lights@.len(),
                *material == self.objects@[comps.object as int].material,
                forall|m: Material, l: Light, c: Computation| call_requires(*contribution, (&m, &l, &c)),
                forall|a: Color, b: Color| call_requires(*plus, (a, b)),
                is_shade(*contribution, *plus, *material, self.lights@.take(i as int), *comps, total),
            decreases self.lights@.len() - i,
        {
            let last = contribution(material, &self.lights[i], comps);
            let ghost before = total;
            total = plus(total, last);
            proof {
                let lit = self.lights@.take(i + 1);
                assert(lit.drop_last() =~= self.lights@.take(i as int));
                assert(lit.last() == self.lights@[i as int]);
                assert(is_shade(*contribution, *plus, *material, lit.drop_last(), *comps, before));
            }
            i += 1;
        }
        assert(self.lights@.take(i as int) =~= self.lights@);
        total
    }

    /// The colour that `ray` sees in the scene. `shade` gives the colour of
    /// the scene at an entry of the ray with an object. The result is `None`
    /// where an entry is not a number and where every entry lies behind the
    /// origin of the ray.
    pub fn color_at<
        D: Fn(Scalar, Scalar, Scalar, Scalar) -> Scalar,
        P: Fn(&Vec<Scalar>, &Vec<Scalar>) -> Scalar,
        Q: Fn(Scalar, Scalar) -> Scalar,
        R: Fn(&Ray) -> (Scalar, Scalar, Scalar),
        S: Fn(&Intersection, &Sphere, &Ray) -> Color,
    >(&self, ray: &Ray, det2: &D, dot: &P, divide: &Q, roots: &R, shade: &S) -> (color: Option<Color>)
        requires
            self.wf(),
            takes_four(*det2),
            takes_lists(*dot),
            takes_two(*divide),
            forall|r: Ray| call_requires(*roots, (&r,)),
            forall|i: Intersection, s: Sphere, r: Ray| call_requires(*shade, (&i, &s, &r)),
        ensures
            exists|groups: Seq<Vec<Intersection>>|
                are_entries_of(*det2, *dot, *divide, *roots, *ray, self.objects@, groups) && is_seen(
                    groups,
                    self.objects@,
                    *ray,
                    *shade,
                    color,
                ),
    {
        let all = self.intersect(ray, det2, dot, divide, roots);
        let ghost groups = choose|groups: Seq<Vec<Intersection>>|
            are_entries_of(*det2, *dot, *divide, *roots, *ray, self.objects@, groups) && is_intersection(
                groups,
                all,
            );
        let color = match all {
            None => None,
            Some(merged) => {
                if merged.len() == 0 {
                    Some(Color::black())
                } else {
                    match first_visible(&merged) {
                        Some(entry) => Some(shade(entry, &self.objects[entry.object], ray)),
                        None => None,
                    }
                }
            },
        };
        assert(is_seen(groups, self.objects@, *ray, *shade, color));
        color
    }
}

} // verus!
