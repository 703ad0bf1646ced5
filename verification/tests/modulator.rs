use usagi::modulator::ModShape;

#[test]
fn shape_from_i32_maps_and_defaults() {
    assert_eq!(ModShape::from_i32(0), ModShape::Ahd);
    assert_eq!(ModShape::from_i32(1), ModShape::Adsr);
    assert_eq!(ModShape::from_i32(2), ModShape::Drum);
    assert_eq!(ModShape::from_i32(99), ModShape::Ahd);
}

#[test]
fn shape_from_negative_defaults_to_ahd() {
    assert_eq!(ModShape::from_i32(-1), ModShape::Ahd);
    assert_eq!(ModShape::from_i32(i32::MIN), ModShape::Ahd);
}
