use raytracer::integrator::{is_cut_off, plan_step, BrdfKind, Step, MAX_DEPTH};

fn key(distance: f32) -> Option<u32> {
    Some(distance.to_bits())
}

#[test]
fn max_depth_is_twenty() {
    assert_eq!(MAX_DEPTH, 20);
    assert!(!is_cut_off(20));
    assert!(is_cut_off(21));
}

#[test]
fn miss_shows_sky() {
    let step = plan_step(0, &vec![None, None], &vec![BrdfKind::Glossy, BrdfKind::Lambertian]);
    assert_eq!(step, Step::Sky);
}

#[test]
fn empty_scene_shows_sky() {
    assert_eq!(plan_step(3, &vec![], &vec![]), Step::Sky);
}

#[test]
fn past_max_depth_is_cut_off_whatever_the_scene() {
    let keys = vec![key(1.0), key(2.0)];
    let kinds = vec![BrdfKind::Glossy, BrdfKind::Glossy];
    assert_eq!(plan_step(MAX_DEPTH + 1, &keys, &kinds), Step::CutOff);
    assert_eq!(plan_step(u16::MAX, &vec![], &vec![]), Step::CutOff);
}

#[test]
fn nearest_surface_bounces_one_deeper() {
    let keys = vec![key(7.0), key(2.0), None];
    let kinds = vec![BrdfKind::Lambertian, BrdfKind::Glossy, BrdfKind::BlackBody];
    assert_eq!(plan_step(4, &keys, &kinds), Step::Surface { object: 1, bounce: Some(5) });
}

#[test]
fn black_body_ends_path() {
    let keys = vec![key(7.0), key(2.0)];
    let kinds = vec![BrdfKind::Lambertian, BrdfKind::BlackBody];
    assert_eq!(plan_step(0, &keys, &kinds), Step::Surface { object: 1, bounce: None });
}

#[test]
fn bounces_by_kind() {
    assert!(BrdfKind::Lambertian.bounces());
    assert!(BrdfKind::Glossy.bounces());
    assert!(!BrdfKind::BlackBody.bounces());
}

#[test]
fn mirror_cave_is_cut_off_after_max_depth_plus_one_surfaces() {
    // Every ray hits a mirror, wherever it goes.
    let keys = vec![key(1.0), key(1.0)];
    let kinds = vec![BrdfKind::Glossy, BrdfKind::Glossy];
    let mut depth: u16 = 0;
    let mut surfaces = 0;
    loop {
        match plan_step(depth, &keys, &kinds) {
            Step::Surface { object, bounce } => {
                assert_eq!(object, 0);
                surfaces += 1;
                depth = bounce.unwrap();
            }
            Step::CutOff => break,
            Step::Sky => panic!("a cave has no sky"),
        }
    }
    assert_eq!(surfaces, MAX_DEPTH as usize + 1);
    assert_eq!(depth, MAX_DEPTH + 1);
}
