//! Intersection records, the `Hitable` interface, and the scene container
//! that answers nearest-hit queries.
use vstd::prelude::*;

use crate::fx::Fx;
use crate::material::Material;
use crate::ray::Ray;
use crate::sphere::{
    lemma_sphere_hit_in_window, lemma_sphere_hit_shrink, lemma_sphere_miss_shrink,
    sphere_hit_spec, Sphere,
};
use crate::vec3::{Vec3, V3};

verus! {

/// The result of a successful intersection query.
#[derive(Clone, Copy, Debug, PartialEq, Eq, Structural)]
pub struct HitRecord {
    pub t: Fx,
    pub p: Vec3,
    pub normal: Vec3,
    pub material: Material,
}

/// Ghost view of a hit: parameter, point and normal at the raw level.
pub struct SHit {
    pub t: int,
    pub p: V3,
    pub normal: V3,
    pub material: Material,
}

/// An executable hit result agrees with a ghost one.
pub open spec fn hit_matches(res: Option<HitRecord>, g: Option<SHit>) -> bool {
    match (res, g) {
        (Some(h), Some(s)) => h.t@ == s.t && h.p@ == s.p && h.normal@ == s.normal && h.material
            == s.material,
        (None, None) => true,
        _ => false,
    }
}

/// Anything that can answer an intersection query over `(t_min, t_max)`.
pub trait Hitable {
    /// The ghost hit this object reports for the given ray and window.
    spec fn hit_spec(&self, r: Ray, t_min: int, t_max: int) -> Option<SHit>;

    fn hit(&self, r: &Ray, t_min: Fx, t_max: Fx) -> (res: Option<HitRecord>)
        ensures
            hit_matches(res, self.hit_spec(*r, t_min@, t_max@)),
    ;
}

/// An ordered collection of spheres queried as one object.
#[derive(Debug)]
pub struct HitableList {
    pub list: Vec<Sphere>,
}

/// One step of the nearest-hit scan: each sphere is queried with the current
/// closest bound, so only strictly closer hits replace the running best.
pub open spec fn list_hit_from(
    spheres: Seq<Sphere>,
    r: Ray,
    t_min: int,
    closest: int,
    best: Option<SHit>,
) -> Option<SHit>
    decreases spheres.len(),
{
    if spheres.len() == 0 {
        best
    } else {
        match sphere_hit_spec(spheres[0], r, t_min, closest) {
            Some(h) => list_hit_from(spheres.drop_first(), r, t_min, h.t, Some(h)),
            None => list_hit_from(spheres.drop_first(), r, t_min, closest, best),
        }
    }
}

/// The ghost nearest-hit query over a whole scene.
pub open spec fn list_hit_spec(spheres: Seq<Sphere>, r: Ray, t_min: int, t_max: int) -> Option<
    SHit,
> {
    list_hit_from(spheres, r, t_min, t_max, None)
}

impl HitableList {
    pub fn new() -> (r: HitableList)
        ensures
            r.list@ == Seq::<Sphere>::empty(),
    {
        HitableList { list: Vec::new() }
    }

    pub fn push(&mut self, s: Sphere)
        ensures
            final(self).list@ == old(self).list@.push(s),
    {
        self.list.push(s);
    }

    pub fn len(&self) -> (n: usize)
        ensures
            n == self.list@.len(),
    {
        self.list.len()
    }
}

impl Hitable for HitableList {
    open spec fn hit_spec(&self, r: Ray, t_min: int, t_max: int) -> Option<SHit> {
        list_hit_spec(self.list@, r, t_min, t_max)
    }

    fn hit(&self, r: &Ray, t_min: Fx, t_max: Fx) -> (res: Option<HitRecord>) {
        let mut temp_rec: Option<HitRecord> = None;
        let mut closest_so_far: Fx = t_max;
        let ghost mut gbest: Option<SHit> = None;
        let n: usize = self.list.len();
        let mut i: usize = 0;
        proof {
            assert(self.list@.skip(0) =~= self.list@);
        }
        while i < n
            invariant
                n == self.list@.len(),
                i <= n,
                hit_matches(temp_rec, gbest),
                list_hit_spec(self.list@, *r, t_min@, t_max@) == list_hit_from(
                    self.list@.skip(i as int),
                    *r,
                    t_min@,
                    closest_so_far@,
                    gbest,
                ),
            decreases n - i,
        {
            let item: Sphere = self.list[i];
            proof {
                assert(self.list@.skip(i as int)[0] == self.list@[i as int]);
                assert(self.list@.skip(i as int).drop_first() =~= self.list@.skip(i as int + 1));
            }
            match item.hit(r, t_min, closest_so_far) {
                Some(record) => {
                    proof {
                        gbest = sphere_hit_spec(
                            self.list@[i as int],
                            *r,
                            t_min@,
                            closest_so_far@,
                        );
                    }
                    closest_so_far = record.t;
                    temp_rec = Some(record);
                },
                None => {},
            }
            i = i + 1;
        }
        proof {
            assert(self.list@.skip(n as int).len() == 0);
        }
        temp_rec
    }
}

/// If some sphere of the scene reports a hit over the query window, the scene
/// query reports a hit at a parameter no larger than that sphere's.
pub proof fn lemma_scene_hit_is_nearest(
    spheres: Seq<Sphere>,
    r: Ray,
    t_min: int,
    t_max: int,
    i: int,
)
    requires
        0 <= i < spheres.len(),
    ensures
        sphere_hit_spec(spheres[i], r, t_min, t_max) matches Some(h) ==> (list_hit_spec(
            spheres,
            r,
            t_min,
            t_max,
        ) matches Some(w) && w.t <= h.t),
{
    lemma_from_nearest(spheres, r, t_min, t_max, None, i);
}

/// Removing a sphere that the query window misses does not change the scene
/// query's result.
pub proof fn lemma_scene_omit_missing_sphere(
    spheres: Seq<Sphere>,
    r: Ray,
    t_min: int,
    t_max: int,
    i: int,
)
    requires
        0 <= i < spheres.len(),
        sphere_hit_spec(spheres[i], r, t_min, t_max) is None,
    ensures
        list_hit_spec(spheres.remove(i), r, t_min, t_max) == list_hit_spec(
            spheres,
            r,
            t_min,
            t_max,
        ),
{
    lemma_from_omit(spheres, r, t_min, t_max, None, i);
}

/// The fold either keeps its running best or improves on the closest bound.
proof fn lemma_from_improves(spheres: Seq<Sphere>, r: Ray, t_min: int, closest: int, best: Option<
    SHit,
>)
    ensures
        list_hit_from(spheres, r, t_min, closest, best) == best || (list_hit_from(
            spheres,
            r,
            t_min,
            closest,
            best,
        ) matches Some(w) && w.t < closest),
    decreases spheres.len(),
{
    if spheres.len() > 0 {
        match sphere_hit_spec(spheres[0], r, t_min, closest) {
            Some(h) => {
                lemma_sphere_hit_in_window(spheres[0], r, t_min, closest);
                lemma_from_improves(spheres.drop_first(), r, t_min, h.t, Some(h));
            },
            None => {
                lemma_from_improves(spheres.drop_first(), r, t_min, closest, best);
            },
        }
    }
}

proof fn lemma_from_nearest(
    spheres: Seq<Sphere>,
    r: Ray,
    t_min: int,
    closest: int,
    best: Option<SHit>,
    i: int,
)
    requires
        0 <= i < spheres.len(),
    ensures
        sphere_hit_spec(spheres[i], r, t_min, closest) matches Some(h) ==> (list_hit_from(
            spheres,
            r,
            t_min,
            closest,
            best,
        ) matches Some(w) && w.t <= h.t),
    decreases spheres.len(),
{
    if sphere_hit_spec(spheres[i], r, t_min, closest) is Some {
        let h = sphere_hit_spec(spheres[i], r, t_min, closest)->Some_0;
        if i == 0 {
            lemma_from_improves(spheres.drop_first(), r, t_min, h.t, Some(h));
        } else {
            assert(spheres.drop_first()[i - 1] == spheres[i]);
            match sphere_hit_spec(spheres[0], r, t_min, closest) {
                Some(h0) => {
                    lemma_sphere_hit_in_window(spheres[0], r, t_min, closest);
                    if h.t < h0.t {
                        lemma_sphere_hit_shrink(spheres[i], r, t_min, closest, h0.t);
                        lemma_from_nearest(spheres.drop_first(), r, t_min, h0.t, Some(h0), i - 1);
                    } else {
                        lemma_from_improves(spheres.drop_first(), r, t_min, h0.t, Some(h0));
                    }
                },
                None => {
                    lemma_from_nearest(spheres.drop_first(), r, t_min, closest, best, i - 1);
                },
            }
        }
    }
}

proof fn lemma_from_omit(
    spheres: Seq<Sphere>,
    r: Ray,
    t_min: int,
    closest: int,
    best: Option<SHit>,
    i: int,
)
    requires
        0 <= i < spheres.len(),
        sphere_hit_spec(spheres[i], r, t_min, closest) is None,
    ensures
        list_hit_from(spheres.remove(i), r, t_min, closest, best) == list_hit_from(
            spheres,
            r,
            t_min,
            closest,
            best,
        ),
    decreases spheres.len(),
{
    if i == 0 {
        assert(spheres.remove(0) =~= spheres.drop_first());
    } else {
        assert(spheres.remove(i)[0] == spheres[0]);
        assert(spheres.remove(i).drop_first() =~= spheres.drop_first().remove(i - 1));
        assert(spheres.drop_first()[i - 1] == spheres[i]);
        match sphere_hit_spec(spheres[0], r, t_min, closest) {
            Some(h0) => {
                lemma_sphere_hit_in_window(spheres[0], r, t_min, closest);
                lemma_sphere_miss_shrink(spheres[i], r, t_min, closest, h0.t);
                lemma_from_omit(spheres.drop_first(), r, t_min, h0.t, Some(h0), i - 1);
            },
            None => {
                lemma_from_omit(spheres.drop_first(), r, t_min, closest, best, i - 1);
            },
        }
    }
}

} // verus!
