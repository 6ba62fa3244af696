//! End-to-end checks of the transform algebra on concrete values.

use affine::point::Pnt3;
use affine::rotation::Rot3;
use affine::scalar::Rat;
use affine::transform::Decomposed;
use affine::vector::Vec3;

/// A quarter turn about the z axis: x goes to y, y goes to -x.
fn quarter_turn_z() -> Rot3 {
    Rot3::new(0, -1, 0, 1, 0, 0, 0, 0, 1, 1).unwrap()
}

fn sample_transform() -> Decomposed {
    Decomposed {
        scale: Rat::from_int(2),
        rot: quarter_turn_z(),
        disp: Vec3::new(1, 0, 0, 1).unwrap(),
    }
}

fn sample_point() -> Pnt3 {
    Pnt3::new(3, 5, -2, 1).unwrap()
}

#[test]
fn identity_maps_point_to_itself() {
    let id = Decomposed::identity();
    let p = sample_point();
    assert!(id.transform_point(&p).same_value(&p));
    let v = Vec3::new(4, -7, 9, 2).unwrap();
    assert!(id.transform_vector(&v).same_value(&v));
}

#[test]
fn identity_is_neutral_for_concat() {
    let id = Decomposed::identity();
    let t = sample_transform();
    let p = sample_point();
    let want = t.transform_point(&p);
    assert!(id.concat(&t).transform_point(&p).same_value(&want));
    assert!(t.concat(&id).transform_point(&p).same_value(&want));
}

#[test]
fn inverse_round_trips_points_and_vectors() {
    let t = sample_transform();
    let ti = t.invert().unwrap();
    let p = sample_point();
    let back = ti.transform_point(&t.transform_point(&p));
    assert!(back.same_value(&p));
    let v = Vec3::new(-1, 2, 6, 3).unwrap();
    let vback = ti.transform_vector(&t.transform_vector(&v));
    assert!(vback.same_value(&v));
}

#[test]
fn concat_is_associative_on_points() {
    let t1 = sample_transform();
    let t2 = Decomposed {
        scale: Rat::new(1, 2).unwrap(),
        rot: Rot3::identity(),
        disp: Vec3::new(0, 3, 0, 1).unwrap(),
    };
    let t3 = Decomposed {
        scale: Rat::from_int(1),
        rot: quarter_turn_z(),
        disp: Vec3::new(0, 0, -4, 1).unwrap(),
    };
    let p = sample_point();
    let a = t1.concat(&t2).concat(&t3).transform_point(&p);
    let b = t1.concat(&t2.concat(&t3)).transform_point(&p);
    assert!(a.same_value(&b));
}

#[test]
fn rotation_then_translation_differs_from_translation_then_rotation() {
    let rot = Decomposed {
        scale: Rat::from_int(1),
        rot: quarter_turn_z(),
        disp: Vec3::zero(),
    };
    let shift = Decomposed {
        scale: Rat::from_int(1),
        rot: Rot3::identity(),
        disp: Vec3::new(1, 0, 0, 1).unwrap(),
    };
    let p = sample_point();
    let a = rot.concat(&shift).transform_point(&p);
    let b = shift.concat(&rot).transform_point(&p);
    assert!(!a.same_value(&b));
}

#[test]
fn vector_ignores_displacement_point_takes_it() {
    let t = Decomposed {
        scale: Rat::from_int(2),
        rot: quarter_turn_z(),
        disp: Vec3::new(3, -1, 5, 1).unwrap(),
    };
    let v = Vec3::new(2, 4, -6, 1).unwrap();
    let tv = t.transform_vector(&v);
    let tp = t.transform_point(&Pnt3::from_vec(&v));
    let diff = tp.to_vec().sub_v(&tv);
    assert!(diff.same_value(&t.disp));
}

#[test]
fn zero_scale_is_not_invertible() {
    let t = Decomposed {
        scale: Rat::zero(),
        rot: quarter_turn_z(),
        disp: Vec3::new(1, 2, 3, 1).unwrap(),
    };
    assert!(t.invert().is_none());
}

#[test]
fn singular_rotation_is_not_invertible() {
    let flat = Rot3::new(1, 0, 0, 0, 1, 0, 0, 0, 0, 1).unwrap();
    let t = Decomposed { scale: Rat::from_int(1), rot: flat, disp: Vec3::zero() };
    assert!(t.invert().is_none());
}

#[test]
fn in_place_variants_match_the_pure_ones() {
    let t = sample_transform();
    let other = Decomposed {
        scale: Rat::new(1, 3).unwrap(),
        rot: quarter_turn_z(),
        disp: Vec3::new(0, 1, 0, 1).unwrap(),
    };
    let p = sample_point();

    let mut a = t;
    a.concat_self(&other);
    assert!(a.transform_point(&p).same_value(&t.concat(&other).transform_point(&p)));

    let mut b = t;
    b.invert_self();
    assert!(b.transform_point(&p).same_value(&t.invert().unwrap().transform_point(&p)));
}

#[test]
fn ray_moves_origin_as_point_and_direction_as_vector() {
    let t = sample_transform();
    let ray = affine::ray::Ray3::new(sample_point(), Vec3::new(0, 0, 1, 1).unwrap());
    let moved = t.transform_ray(&ray);
    assert!(moved.origin.same_value(&t.transform_point(&ray.origin)));
    assert!(moved.direction.same_value(&t.transform_vector(&ray.direction)));
}

#[test]
fn decompose_returns_the_parts() {
    let t = sample_transform();
    let (scale_vec, rot, disp) = t.decompose();
    assert!(scale_vec.same_value(&Vec3::new(2, 2, 2, 1).unwrap()));
    assert!(rot.rotate_vector(&Vec3::new(1, 0, 0, 1).unwrap())
        .same_value(&Vec3::new(0, 1, 0, 1).unwrap()));
    assert!(disp.same_value(&t.disp));
}

#[test]
fn quarter_turn_rotates_the_x_axis_to_the_y_axis() {
    let r = quarter_turn_z();
    let turned = r.rotate_vector(&Vec3::new(1, 0, 0, 1).unwrap());
    assert!(turned.same_value(&Vec3::new(0, 1, 0, 1).unwrap()));
}

#[test]
fn scalars_normalize_their_sign_and_compare_by_value() {
    let a = Rat::new(3, -6).unwrap();
    let b = Rat::new(-1, 2).unwrap();
    assert!(a.same_value(&b));
    assert!(Rat::new(1, 0).is_none());
    assert!(Rat::zero().is_zero());
}

#[test]
fn matrix_form_transforms_points_like_the_decomposed_form() {
    let t = sample_transform();
    let m = t.to_matrix4();
    let p = sample_point();
    assert!(m.transform_point(&p).same_value(&t.transform_point(&p)));
    let v = Vec3::new(2, -3, 4, 1).unwrap();
    assert!(m.transform_vector(&v).same_value(&t.transform_vector(&v)));
}

#[test]
fn matrix_identity_and_concat_match_the_decomposed_algebra() {
    let t1 = sample_transform();
    let t2 = Decomposed {
        scale: Rat::new(1, 2).unwrap(),
        rot: Rot3::identity(),
        disp: Vec3::new(0, 3, 0, 1).unwrap(),
    };
    let p = sample_point();
    let id = affine::matrix::AffineMatrix3::identity();
    assert!(id.transform_point(&p).same_value(&p));
    let m = t1.to_matrix4().concat(&t2.to_matrix4());
    let want = t1.concat(&t2).transform_point(&p);
    assert!(m.transform_point(&p).same_value(&want));
}

#[test]
fn look_at_maps_the_eye_to_the_local_origin() {
    let eye = Pnt3::new(0, 0, 5, 1).unwrap();
    let t = Decomposed::look_at_with(&quarter_turn_z(), &eye);
    let moved = t.transform_point(&eye);
    assert!(moved.same_value(&Pnt3::origin()));
}

#[test]
fn reduce_brings_an_inverse_back_to_small_parts_with_the_same_value() {
    let t = sample_transform();
    let ti = t.invert().unwrap();
    let small = ti.reduce().unwrap();
    let p = sample_point();
    let back = small.transform_point(&t.transform_point(&p));
    assert!(back.same_value(&p));
    assert!(small.disp.same_value(&ti.disp));
}

#[test]
fn reduce_cancels_a_common_factor() {
    let a = Rat { n: 6, d: 10 };
    let r = a.reduce().unwrap();
    assert_eq!(r.n, 3);
    assert_eq!(r.d, 5);
    let v = Vec3 { x: 4, y: -8, z: 12, d: 20 };
    let w = v.reduce().unwrap();
    assert_eq!((w.x, w.y, w.z, w.d), (1, -2, 3, 5));
}
