use ray_tracer_challenge::objects::RaytracerObjectType;

#[test]
fn spheres_and_planes_have_geometry() {
    assert!(RaytracerObjectType::Sphere.has_geometry());
    assert!(RaytracerObjectType::Plane.has_geometry());
}

#[test]
fn test_shape_has_no_geometry() {
    assert!(!RaytracerObjectType::TestShape.has_geometry());
}
