use hell::frame::Frame;
use hell::material::{faces_front, scatter, Interaction, Scatter};
use hell::order::{clamp, less_than, INFINITY, ONE, ZERO};
use hell::path::{Event, Path, Status};
use hell::scene::closest_hit;
use hell::sphere::{crosses, nearest_root, Roots};

fn b(x: f32) -> u32 {
    x.to_bits()
}

#[test]
fn order_constants_match_floats() {
    assert_eq!(ZERO, b(0.0));
    assert_eq!(ONE, b(1.0));
    assert_eq!(INFINITY, b(f32::INFINITY));
}

#[test]
fn less_than_follows_float_order() {
    let values = [
        -f32::INFINITY,
        -3.5,
        -1.0,
        -1e-30,
        -0.0,
        0.0,
        1e-40,
        0.001,
        1.0,
        2.0,
        1e30,
        f32::INFINITY,
        f32::NAN,
    ];
    for &x in values.iter() {
        for &y in values.iter() {
            assert_eq!(less_than(b(x), b(y)), x < y, "{} < {}", x, y);
        }
    }
}

#[test]
fn negative_zero_is_not_below_zero() {
    assert!(!less_than(b(-0.0), b(0.0)));
    assert!(!less_than(b(0.0), b(-0.0)));
}

#[test]
fn nan_compares_false() {
    let nan = b(f32::NAN);
    assert!(!less_than(nan, ONE));
    assert!(!less_than(ONE, nan));
    assert!(!less_than(nan, nan));
}

#[test]
fn roots_are_ordered() {
    let r = Roots::new(b(3.0), b(1.0));
    assert_eq!(r.near, b(1.0));
    assert_eq!(r.far, b(3.0));
    let s = Roots::new(b(-2.0), b(0.5));
    assert_eq!(s.near, b(-2.0));
    assert_eq!(s.far, b(0.5));
}

#[test]
fn discriminant_must_be_positive() {
    assert!(crosses(b(0.25)));
    assert!(!crosses(b(0.0)));
    assert!(!crosses(b(-0.0)));
    assert!(!crosses(b(-1.0)));
    assert!(!crosses(b(f32::NAN)));
}

#[test]
fn nearer_root_wins() {
    let r = Roots::new(b(0.5), b(1.5));
    assert_eq!(nearest_root(&r, b(0.001), INFINITY), Some(b(0.5)));
}

#[test]
fn farther_root_when_nearer_is_behind() {
    let r = Roots::new(b(-0.5), b(1.5));
    assert_eq!(nearest_root(&r, b(0.001), INFINITY), Some(b(1.5)));
}

#[test]
fn sphere_outside_interval_is_missed() {
    let r = Roots::new(b(5.0), b(7.0));
    assert_eq!(nearest_root(&r, b(0.001), b(4.0)), None);
    let behind = Roots::new(b(-7.0), b(-5.0));
    assert_eq!(nearest_root(&behind, b(0.001), INFINITY), None);
}

#[test]
fn hit_on_bound_does_not_count() {
    let r = Roots::new(b(2.0), b(2.0));
    assert_eq!(nearest_root(&r, b(0.001), b(2.0)), None);
    assert_eq!(nearest_root(&r, b(2.0), b(3.0)), None);
}

#[test]
fn origin_on_surface_does_not_hit_itself() {
    // Leaving the surface outwards: the other root is behind the ray.
    let out = Roots::new(b(-2.0), b(0.0));
    assert_eq!(nearest_root(&out, b(0.001), INFINITY), None);
    // Entering the sphere: only the far side counts.
    let into = Roots::new(b(0.0), b(2.0));
    assert_eq!(nearest_root(&into, b(0.001), INFINITY), Some(b(2.0)));
    // A root a hair above zero is still excluded.
    let near_zero = Roots::new(b(1e-6), b(2.0));
    assert_eq!(nearest_root(&near_zero, b(0.001), INFINITY), Some(b(2.0)));
}

#[test]
fn closest_of_two_overlapping_spheres_in_both_orders() {
    // Ray from the origin along -z; spheres centred at z = -2 (radius 1) and
    // z = -2.5 (radius 1) give roots 1..3 and 1.5..3.5.
    let first = Some(Roots::new(b(1.0), b(3.0)));
    let second = Some(Roots::new(b(1.5), b(3.5)));
    let ab = closest_hit(&vec![first, second], b(0.001), INFINITY);
    let ba = closest_hit(&vec![second, first], b(0.001), INFINITY);
    assert_eq!(ab, Some((0, b(1.0))));
    assert_eq!(ba, Some((1, b(1.0))));
    assert_eq!(ab.map(|h| h.1), ba.map(|h| h.1));
}

#[test]
fn closest_hit_skips_misses_and_far_members() {
    let members = vec![
        None,
        Some(Roots::new(b(4.0), b(6.0))),
        Some(Roots::new(b(-3.0), b(-1.0))),
        Some(Roots::new(b(2.0), b(8.0))),
        Some(Roots::new(b(5.0), b(9.0))),
    ];
    assert_eq!(closest_hit(&members, b(0.001), INFINITY), Some((3, b(2.0))));
    assert_eq!(closest_hit(&members, b(0.001), b(1.5)), None);
}

#[test]
fn closest_hit_inside_a_sphere_takes_far_root() {
    let members = vec![Some(Roots::new(b(-1.0), b(1.0))), Some(Roots::new(b(3.0), b(4.0)))];
    assert_eq!(closest_hit(&members, b(0.001), INFINITY), Some((0, b(1.0))));
}

#[test]
fn closest_hit_tie_goes_to_first() {
    let members = vec![Some(Roots::new(b(2.0), b(3.0))), Some(Roots::new(b(2.0), b(5.0)))];
    assert_eq!(closest_hit(&members, b(0.001), INFINITY), Some((0, b(2.0))));
}

#[test]
fn empty_scene_has_no_hit() {
    assert_eq!(closest_hit(&Vec::new(), b(0.001), INFINITY), None);
}

#[test]
fn lambertian_always_scatters() {
    assert_eq!(scatter(&Interaction::Diffuse), Scatter::Diffuse);
}

#[test]
fn metal_absorbs_exactly_when_reflection_goes_inward() {
    let m = |d: f32| scatter(&Interaction::Mirror { outward_dot: b(d) });
    assert_eq!(m(0.3), Scatter::Reflect);
    assert_eq!(m(1e-20), Scatter::Reflect);
    assert_eq!(m(0.0), Scatter::Absorb);
    assert_eq!(m(-0.0), Scatter::Absorb);
    assert_eq!(m(-0.7), Scatter::Absorb);
}

#[test]
fn dielectric_reflects_under_total_internal_reflection() {
    // Glass to air (eta 1.5) at sin_theta 0.8: 1.2 > 1, refraction impossible.
    let bend = b(1.5 * 0.8);
    for &draw in [0.0f32, 0.3, 0.9, 0.999].iter() {
        let s = scatter(&Interaction::Interface { bend, draw: b(draw), reflectance: b(0.04) });
        assert_eq!(s, Scatter::Reflect);
    }
}

#[test]
fn dielectric_chooses_by_reflectance() {
    let bend = b(0.5);
    let reflectance = b(0.1);
    assert_eq!(
        scatter(&Interaction::Interface { bend, draw: b(0.05), reflectance }),
        Scatter::Reflect
    );
    assert_eq!(
        scatter(&Interaction::Interface { bend, draw: b(0.1), reflectance }),
        Scatter::Refract
    );
    assert_eq!(
        scatter(&Interaction::Interface { bend, draw: b(0.8), reflectance }),
        Scatter::Refract
    );
    // Exactly at the limit refraction is still possible.
    assert_eq!(
        scatter(&Interaction::Interface { bend: ONE, draw: b(0.8), reflectance }),
        Scatter::Refract
    );
}

#[test]
fn front_face_when_ray_opposes_normal() {
    assert!(faces_front(b(-0.5)));
    assert!(!faces_front(b(0.5)));
    assert!(!faces_front(b(0.0)));
    assert!(!faces_front(b(-0.0)));
}

#[test]
fn zero_depth_path_is_black() {
    assert_eq!(Path::new(0).status, Status::Black);
    assert_eq!(Path::new(-4).status, Status::Black);
}

#[test]
fn path_ends_black_when_budget_runs_out() {
    let mut p = Path::new(2);
    assert_eq!(p.status, Status::Tracing);
    p.advance(Event::Scattered);
    assert_eq!(p.status, Status::Tracing);
    assert_eq!(p.remaining, 1);
    p.advance(Event::Scattered);
    assert_eq!(p.status, Status::Black);
    assert_eq!(p.remaining, 0);
}

#[test]
fn path_ends_on_sky_or_absorption() {
    let mut p = Path::new(5);
    p.advance(Event::Scattered);
    p.advance(Event::Miss);
    assert_eq!(p.status, Status::Sky);
    assert_eq!(p.remaining, 4);
    let mut q = Path::new(5);
    q.advance(Event::Absorbed);
    assert_eq!(q.status, Status::Black);
    assert_eq!(q.remaining, 5);
}

#[test]
fn frame_walks_rows_top_down() {
    let mut f = Frame::new(2, 2);
    let mut coords = Vec::new();
    let mut n: u8 = 0;
    while !f.is_complete() {
        coords.push(f.next_pixel());
        f.push(n, n + 1, n + 2);
        n += 10;
    }
    assert_eq!(coords, vec![(0, 1), (1, 1), (0, 0), (1, 0)]);
    let bytes = f.into_bytes();
    assert_eq!(bytes.len(), 16);
    assert_eq!(
        bytes,
        vec![0, 1, 2, 255, 10, 11, 12, 255, 20, 21, 22, 255, 30, 31, 32, 255]
    );
}

#[test]
fn single_pixel_frame() {
    let mut f = Frame::new(1, 1);
    assert!(!f.is_complete());
    assert_eq!(f.next_pixel(), (0, 0));
    f.push(7, 8, 9);
    assert!(f.is_complete());
    assert_eq!(f.into_bytes(), vec![7, 8, 9, 255]);
}

#[test]
fn empty_frame_is_complete() {
    let f = Frame::new(0, 5);
    assert!(f.is_complete());
    assert!(f.into_bytes().is_empty());
}

#[test]
fn clamp_holds_values_to_bounds() {
    let lo = b(0.0);
    let hi = b(0.999);
    assert_eq!(clamp(b(0.5), lo, hi), b(0.5));
    assert_eq!(clamp(b(-0.25), lo, hi), lo);
    assert_eq!(clamp(b(3.0), lo, hi), hi);
    assert_eq!(clamp(hi, lo, hi), hi);
    assert_eq!(clamp(b(f32::INFINITY), lo, hi), hi);
}

#[test]
fn gamma_and_clamp_give_expected_bytes() {
    // One sample per pixel: the channel is sqrt(c), clamped, times 255, truncated.
    let byte = |c: f32| {
        let v = clamp(c.sqrt().to_bits(), ZERO, b(0.999));
        (f32::from_bits(v) * 255.0) as u8
    };
    assert_eq!(byte(0.0), 0);
    assert_eq!(byte(1.0), 254);
    assert_eq!(byte(4.0), 254);
    assert_eq!(byte(0.25), 127);
}
