//! Scenes: the nearest intersection of a ray with any of a list of surfaces.
use crate::fixed::{Fixed, RAW_MAX};
use crate::hittable::{HitRecord, Hittable};
use crate::ray::Ray;
use core::ops::Range;
use vstd::prelude::*;

verus! {

/// Raw value of the smallest ray parameter at which a scene is searched,
/// one thousandth. It keeps a scattered ray from hitting the surface that
/// it leaves.
pub const NEAR_RAW: i64 = 16777;

/// The parameter interval in which a scene is searched: from one
/// thousandth up to the largest number.
pub open spec fn scene_range() -> Range<Fixed> {
    Fixed { raw: NEAR_RAW }..Fixed { raw: RAW_MAX }
}

/// The nearer of two intersections; `prev` where both are equally near.
pub open spec fn nearer(prev: Option<HitRecord>, next: Option<HitRecord>) -> Option<HitRecord> {
    match (prev, next) {
        (None, _) => next,
        (Some(_), None) => prev,
        (Some(p), Some(n)) => if n.t@ < p.t@ {
            next
        } else {
            prev
        },
    }
}

/// The nearest of the intersections that the first `n` surfaces of
/// `objects` report for `ray`, each searched on its own over
/// `scene_range()`; the earliest surface among equally near ones.
pub open spec fn nearest_among<T: Hittable>(objects: Seq<T>, ray: Ray, n: int) -> Option<
    HitRecord,
>
    decreases n,
{
    if n <= 0 {
        None
    } else {
        nearer(nearest_among(objects, ray, n - 1), objects[n - 1].hit_spec(ray, scene_range()))
    }
}

/// The upper end of the interval that is left to search once `best` is
/// known.
pub open spec fn search_end(best: Option<HitRecord>) -> Fixed {
    match best {
        Some(rec) => rec.t,
        None => Fixed { raw: RAW_MAX },
    }
}

/// A scene that can be searched for the nearest intersection with a ray.
pub trait HittableList {
    /// The intersection that `hit_top` reports for `ray`.
    spec fn hit_top_spec(&self, ray: Ray) -> Option<HitRecord>;

    /// The nearest intersection of `ray` with the scene, if there is one.
    fn hit_top(&self, ray: &Ray) -> (hit: Option<HitRecord>)
        ensures
            hit == self.hit_top_spec(*ray),
    ;
}

impl<T: Hittable> HittableList for Vec<T> {
    open spec fn hit_top_spec(&self, ray: Ray) -> Option<HitRecord> {
        nearest_among(self@, ray, self@.len() as int)
    }

    fn hit_top(&self, ray: &Ray) -> (hit: Option<HitRecord>) {
        let near = Fixed::from_raw(NEAR_RAW);
        let mut nearest = Fixed::max_value();
        let mut hit_record: Option<HitRecord> = None;
        let mut i: usize = 0;
        while i < self.len()
            invariant
                i <= self.len(),
                near == (Fixed { raw: NEAR_RAW }),
                hit_record == nearest_among(self@, *ray, i as int),
                nearest == search_end(hit_record),
            decreases self.len() - i,
        {
            proof {
                self@[i as int].lemma_hit_in_range(*ray, scene_range());
                self@[i as int].lemma_hit_narrowed(*ray, scene_range(), nearest);
            }
            if let Some(rec) = self[i].hit(ray, near..nearest) {
                nearest = rec.t;
                hit_record = Some(rec);
            }
            i = i + 1;
        }
        hit_record
    }
}

/// The nearest intersection is one that some surface reports; no surface
/// reports a nearer one, and no earlier surface an equally near one. None is
/// found exactly where no surface reports any.
pub proof fn lemma_nearest_is_minimum<T: Hittable>(objects: Seq<T>, ray: Ray, n: int)
    requires
        0 <= n <= objects.len(),
    ensures
        nearest_among(objects, ray, n) is None <==> forall|i: int|
            0 <= i < n ==> (#[trigger] objects[i].hit_spec(ray, scene_range())) is None,
        nearest_among(objects, ray, n) matches Some(rec) ==> exists|k: int|
            0 <= k < n && (#[trigger] objects[k].hit_spec(ray, scene_range())) == Some(rec) && (
            forall|i: int|
                0 <= i < n ==> ((#[trigger] objects[i].hit_spec(ray, scene_range())) matches Some(
                    other,
                ) ==> rec.t@ <= other.t@)) && (forall|i: int|
                0 <= i < k ==> ((#[trigger] objects[i].hit_spec(ray, scene_range())) matches Some(
                    other,
                ) ==> rec.t@ < other.t@)),
    decreases n,
{
    if n > 0 {
        lemma_nearest_is_minimum(objects, ray, n - 1);
        let prev = nearest_among(objects, ray, n - 1);
        let next = objects[n - 1].hit_spec(ray, scene_range());
        let best = nearest_among(objects, ray, n);
        assert(best == nearer(prev, next));
        match best {
            Some(rec) => {
                if best == prev {
                    let k = choose|k: int|
                        0 <= k < n - 1 && (#[trigger] objects[k].hit_spec(ray, scene_range()))
                            == Some(rec) && (forall|i: int|
                            0 <= i < n - 1 ==> ((#[trigger] objects[i].hit_spec(
                                ray,
                                scene_range(),
                            )) matches Some(other) ==> rec.t@ <= other.t@)) && (forall|i: int|
                            0 <= i < k ==> ((#[trigger] objects[i].hit_spec(
                                ray,
                                scene_range(),
                            )) matches Some(other) ==> rec.t@ < other.t@));
                    assert(0 <= k < n && objects[k].hit_spec(ray, scene_range()) == Some(rec));
                } else {
                    assert(objects[n - 1].hit_spec(ray, scene_range()) == Some(rec));
                }
            },
            None => {},
        }
    }
}

/// A scene without surfaces reports no intersection.
pub proof fn lemma_empty_scene_misses<T: Hittable>(objects: Vec<T>, ray: Ray)
    requires
        objects@.len() == 0,
    ensures
        objects.hit_top_spec(ray) is None,
{
}

} // verus!
