use monopoly::space::{ColorGroup, Space};

fn street() -> Space {
    Space::street("Boardwalk", ColorGroup::DarkBlue, 400, [50, 200, 600, 1400, 1700, 2000], 200)
}

#[test]
fn only_buyable_spaces_are_ownable() {
    assert!(street().is_ownable());
    assert!(Space::railroad("Reading RR", 200).is_ownable());
    assert!(Space::utility("Electric Co", 150).is_ownable());
    assert!(!Space::Go.is_ownable());
    assert!(!Space::FreeParking.is_ownable());
    assert!(!Space::Tax(200).is_ownable());
}

#[test]
fn corners_and_decks_report_their_own_names() {
    assert_eq!(Space::Go.name(), "GO");
    assert_eq!(Space::Jail.name(), "Jail");
    assert_eq!(Space::FreeParking.name(), "Free Parking");
    assert_eq!(Space::GoToJail.name(), "Go To Jail");
    assert_eq!(Space::Chance.name(), "Chance");
    assert_eq!(Space::CommunityChest.name(), "Comm Chest");
    assert_eq!(Space::Tax(200).name(), "Tax");
    assert_eq!(street().name(), "Boardwalk");
}

#[test]
fn ownership_round_trips_through_the_accessors() {
    let mut space = street();
    assert_eq!(space.owner(), None);
    space.set_owner(Some(2));
    assert_eq!(space.owner(), Some(2));
    space.set_owner(None);
    assert_eq!(space.owner(), None);
}

#[test]
fn setting_an_owner_on_an_unbuyable_space_is_ignored() {
    let mut space = Space::FreeParking;
    space.set_owner(Some(1));
    assert_eq!(space.owner(), None);
}

#[test]
fn the_mortgage_flag_toggles() {
    let mut space = street();
    assert!(!space.is_mortgaged());
    space.set_mortgaged(true);
    assert!(space.is_mortgaged());
    space.set_mortgaged(false);
    assert!(!space.is_mortgaged());
}

#[test]
fn only_streets_report_houses_and_a_build_cost() {
    assert_eq!(street().house_cost(), 200);
    assert_eq!(Space::railroad("Reading RR", 200).houses(), 0);
    assert_eq!(Space::railroad("Reading RR", 200).house_cost(), 0);
    assert_eq!(Space::Go.house_cost(), 0);
}

#[test]
fn price_is_none_for_unbuyable_spaces() {
    assert_eq!(street().price(), Some(400));
    assert_eq!(Space::Go.price(), None);
    assert_eq!(Space::Tax(200).price(), None);
}

#[test]
fn current_rent_follows_the_development_level() {
    let Space::Property(mut p) = street() else { panic!("a street") };
    assert_eq!(p.current_rent(), 50);
    p.houses = 1;
    assert_eq!(p.current_rent(), 200);
    p.houses = 5;
    assert_eq!(p.current_rent(), 2000);
}

#[test]
fn current_rent_clamps_above_a_hotel() {
    let Space::Property(mut p) = street() else { panic!("a street") };
    p.houses = 9;
    assert_eq!(p.current_rent(), 2000, "never indexes past the table");
}

#[test]
fn returning_a_space_to_the_bank_strips_it_bare() {
    let Space::Property(mut p) = street() else { panic!("a street") };
    p.houses = 4;
    let mut space = Space::Property(p);
    space.set_mortgaged(true);
    space.reset_buildings();
    assert_eq!(space.houses(), 0);
    assert!(!space.is_mortgaged());
}

#[test]
fn only_the_flagged_spaces_carry_an_icon() {
    assert!(Space::Chance.icon().is_some());
    assert!(Space::CommunityChest.icon().is_some());
    assert!(Space::Tax(200).icon().is_some());
    assert!(Space::railroad("Reading RR", 200).icon().is_some());
    assert!(street().icon().is_none());
    assert!(Space::Go.icon().is_none());
}

#[test]
fn every_color_group_has_a_distinct_swatch() {
    let groups = [
        ColorGroup::Brown,
        ColorGroup::LightBlue,
        ColorGroup::Pink,
        ColorGroup::Orange,
        ColorGroup::Red,
        ColorGroup::Yellow,
        ColorGroup::Green,
        ColorGroup::DarkBlue,
    ];
    for (i, a) in groups.iter().enumerate() {
        for b in &groups[i + 1..] {
            assert_ne!(a.color(), b.color(), "{a:?} and {b:?} share a color");
        }
    }
}

#[test]
fn mortgage_value_is_half_the_price_and_lifting_it_adds_ten_percent() {
    let space = street();
    assert_eq!(space.mortgage_value(), 200);
    assert_eq!(space.unmortgage_cost(), 220);
    assert_eq!(space.house_refund(), 100);
    assert_eq!(Space::Go.mortgage_value(), 0);
}
