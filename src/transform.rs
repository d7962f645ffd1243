use vstd::prelude::*;
use crate::point::{Point, Vec3, PLACED_LIMIT, TRANSLATION_LIMIT};
use crate::rotation::{
    compose_rotations, lemma_rotate_bound, normalize_spec, product, rotate, rotate_spec, Quat,
};

verus! {

/// A rigid transform: rotate about the origin, then translate.
#[derive(Debug, Clone, Copy, PartialEq, Eq, Structural)]
pub struct Transform {
    pub rotation: Quat,
    pub translation: Vec3,
}

/// A value held to `[-lim, lim]`.
pub open spec fn clamp_spec(v: int, lim: int) -> int {
    if v > lim { lim } else if v < -lim { -lim } else { v }
}

/// Translation held to the search box.
pub open spec fn clamp_translation_spec(x: int, y: int, z: int) -> Vec3 {
    Vec3 {
        x: clamp_spec(x, TRANSLATION_LIMIT as int) as i64,
        y: clamp_spec(y, TRANSLATION_LIMIT as int) as i64,
        z: clamp_spec(z, TRANSLATION_LIMIT as int) as i64,
    }
}

/// Where `t` sends the cloud point `p`.
pub open spec fn apply_spec(t: Transform, p: Point) -> Vec3 {
    let r = rotate_spec(t.rotation, p.lifted());
    Vec3 {
        x: (r.x + t.translation.x) as i64,
        y: (r.y + t.translation.y) as i64,
        z: (r.z + t.translation.z) as i64,
    }
}

/// The cloud `c` placed by `t`, point by point.
pub open spec fn place_spec(t: Transform, c: Seq<Point>) -> Seq<Vec3> {
    Seq::new(c.len(), |i: int| apply_spec(t, c[i]))
}

/// `inc` applied after `acc`.
pub open spec fn compose_spec(inc: Transform, acc: Transform) -> Transform {
    let p = product(inc.rotation, acc.rotation);
    let r = rotate_spec(inc.rotation, acc.translation);
    Transform {
        rotation: normalize_spec(p.0, p.1, p.2, p.3),
        translation: clamp_translation_spec(
            r.x + inc.translation.x,
            r.y + inc.translation.y,
            r.z + inc.translation.z,
        ),
    }
}

pub fn clamp(v: i64, lim: i64) -> (r: i64)
    requires
        lim >= 0,
    ensures
        r == clamp_spec(v as int, lim as int),
{
    if v > lim {
        lim
    } else if v < -lim {
        -lim
    } else {
        v
    }
}

/// Holds each coordinate of a translation to `[-TRANSLATION_LIMIT, TRANSLATION_LIMIT]`.
pub fn clamp_translation(v: &Vec3) -> (r: Vec3)
    ensures
        r == clamp_translation_spec(v.x as int, v.y as int, v.z as int),
        r.within(TRANSLATION_LIMIT as int),
{
    Vec3 {
        x: clamp(v.x, TRANSLATION_LIMIT),
        y: clamp(v.y, TRANSLATION_LIMIT),
        z: clamp(v.z, TRANSLATION_LIMIT),
    }
}

impl Transform {
    /// Rotation well-formed, translation inside the search box.
    pub open spec fn wf(self) -> bool {
        self.rotation.wf() && self.translation.within(TRANSLATION_LIMIT as int)
    }

    pub open spec fn identity_spec() -> Transform {
        Transform { rotation: Quat::identity_spec(), translation: Vec3::zero() }
    }

    pub fn identity() -> (r: Transform)
        ensures
            r == Transform::identity_spec(),
            r.wf(),
    {
        Transform { rotation: Quat::identity(), translation: Vec3 { x: 0, y: 0, z: 0 } }
    }

    /// Builds a transform from a rotation and a translation, clamping the
    /// translation to the search box.
    pub fn new(rotation: Quat, translation: Vec3) -> (r: Transform)
        requires
            rotation.wf(),
        ensures
            r.rotation == rotation,
            r.translation == clamp_translation_spec(translation.x as int, translation.y as int, translation.z as int),
            r.wf(),
    {
        Transform { rotation, translation: clamp_translation(&translation) }
    }

    /// Places one cloud point.
    pub fn apply(&self, p: &Point) -> (r: Vec3)
        requires
            self.wf(),
        ensures
            r == apply_spec(*self, *p),
            r.within(PLACED_LIMIT as int),
    {
        proof {
            lemma_apply_bound(*self, *p);
        }
        let v = rotate(&self.rotation, &p.lift());
        Vec3 {
            x: v.x + self.translation.x,
            y: v.y + self.translation.y,
            z: v.z + self.translation.z,
        }
    }

    /// Places every point of a cloud.
    pub fn apply_all(&self, cloud: &Vec<Point>) -> (r: Vec<Vec3>)
        requires
            self.wf(),
        ensures
            r@ == place_spec(*self, cloud@),
            forall|i: int| 0 <= i < r@.len() ==> r@[i].within(PLACED_LIMIT as int),
    {
        let mut out: Vec<Vec3> = Vec::new();
        let mut i: usize = 0;
        while i < cloud.len()
            invariant
                self.wf(),
                i <= cloud@.len(),
                out@.len() == i,
                forall|j: int| 0 <= j < i ==> out@[j] == apply_spec(*self, cloud@[j]),
                forall|j: int| 0 <= j < i ==> out@[j].within(PLACED_LIMIT as int),
            decreases cloud@.len() - i,
        {
            let v = self.apply(&cloud[i]);
            out.push(v);
            i = i + 1;
        }
        assert(out@ =~= place_spec(*self, cloud@));
        out
    }

    /// `inc` applied after `self`.
    pub fn followed_by(&self, inc: &Transform) -> (r: Transform)
        requires
            self.wf(),
            inc.wf(),
        ensures
            r == compose_spec(*inc, *self),
            r.wf(),
    {
        let rotation = compose_rotations(&inc.rotation, &self.rotation);
        proof {
            lemma_rotate_bound(inc.rotation, self.translation, TRANSLATION_LIMIT as int);
        }
        let r = rotate(&inc.rotation, &self.translation);
        let moved = Vec3 {
            x: r.x + inc.translation.x,
            y: r.y + inc.translation.y,
            z: r.z + inc.translation.z,
        };
        Transform { rotation, translation: clamp_translation(&moved) }
    }
}

/// A placed cloud point stays within `PLACED_LIMIT`.
pub proof fn lemma_apply_bound(t: Transform, p: Point)
    requires
        t.wf(),
    ensures
        apply_spec(t, p).within(PLACED_LIMIT as int),
        rotate_spec(t.rotation, p.lifted()).within(3 * 0x8000_0000int),
{
    lemma_rotate_bound(t.rotation, p.lifted(), 0x8000_0000int);
}

} // verus!
