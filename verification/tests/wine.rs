use parameterized::wine::{LoireArea, WineRegion};

#[test]
fn wines_tasted() {
    for region in [
        WineRegion::Champagne,
        WineRegion::Languedoc,
        WineRegion::Loire(LoireArea::Nantes),
        WineRegion::Loire(LoireArea::Touraine),
    ] {
        assert!(region.tasted().is_some());
    }
}

#[test]
fn wines_not_tasted() {
    assert!(WineRegion::Jura.tasted().is_none());
}

#[test]
fn both_areas_of_the_loire_are_tasted() {
    assert!(LoireArea::Nantes.tasted().is_some());
    assert!(LoireArea::Touraine.tasted().is_some());
}
