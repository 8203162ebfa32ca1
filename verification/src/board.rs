//! The standard 40-space US Monopoly board, clockwise from GO.
//!
//! Index 0 = GO, index 39 = Boardwalk.

use vstd::prelude::*;

use crate::space::{ColorGroup, Space};

verus! {

pub const RAILROAD_PRICE: u32 = 200;
pub const UTILITY_PRICE: u32 = 150;

/// `s` is a fresh, bank-held street with exactly these printed values.
pub open spec fn is_street(
    s: Space,
    name: Seq<char>,
    group: ColorGroup,
    price: u32,
    rents: [u32; 6],
    cost: u32,
) -> bool {
    s matches Space::Property(p) && p.base.name@ == name && p.base.price == price
        && p.base.owner is None && !p.base.mortgaged && p.group == group && p.rents == rents
        && p.house_cost == cost && p.houses == 0
}

/// `s` is a fresh, bank-held railroad with this name at the flat price.
pub open spec fn is_railroad(s: Space, name: Seq<char>) -> bool {
    s matches Space::Railroad(o) && o.name@ == name && o.price == RAILROAD_PRICE
        && o.owner is None && !o.mortgaged
}

/// `s` is a fresh, bank-held utility with this name at the flat price.
pub open spec fn is_utility(s: Space, name: Seq<char>) -> bool {
    s matches Space::Utility(o) && o.name@ == name && o.price == UTILITY_PRICE
        && o.owner is None && !o.mortgaged
}

/// The standard US layout, square by square.
pub open spec fn is_standard_board(b: Seq<Space>) -> bool {
    &&& b.len() == 40
    &&& b[0] is Go
    &&& is_street(b[1], "Mediterranean Ave"@, ColorGroup::Brown, 60, [2, 10, 30, 90, 160, 250], 50)
    &&& b[2] is CommunityChest
    &&& is_street(b[3], "Baltic Ave"@, ColorGroup::Brown, 60, [4, 20, 60, 180, 320, 450], 50)
    &&& b[4] == Space::Tax(200)
    &&& is_railroad(b[5], "Reading RR"@)
    &&& is_street(b[6], "Oriental Ave"@, ColorGroup::LightBlue, 100, [6, 30, 90, 270, 400, 550], 50)
    &&& b[7] is Chance
    &&& is_street(b[8], "Vermont Ave"@, ColorGroup::LightBlue, 100, [6, 30, 90, 270, 400, 550], 50)
    &&& is_street(b[9], "Connecticut Ave"@, ColorGroup::LightBlue, 120, [8, 40, 100, 300, 450, 600], 50)
    &&& b[10] is Jail
    &&& is_street(b[11], "St. Charles Pl"@, ColorGroup::Pink, 140, [10, 50, 150, 450, 625, 750], 100)
    &&& is_utility(b[12], "Electric Co"@)
    &&& is_street(b[13], "States Ave"@, ColorGroup::Pink, 140, [10, 50, 150, 450, 625, 750], 100)
    &&& is_street(b[14], "Virginia Ave"@, ColorGroup::Pink, 160, [12, 60, 180, 500, 700, 900], 100)
    &&& is_railroad(b[15], "Pennsylvania RR"@)
    &&& is_street(b[16], "St. James Pl"@, ColorGroup::Orange, 180, [14, 70, 200, 550, 750, 950], 100)
    &&& b[17] is CommunityChest
    &&& is_street(b[18], "Tennessee Ave"@, ColorGroup::Orange, 180, [14, 70, 200, 550, 750, 950], 100)
    &&& is_street(b[19], "New York Ave"@, ColorGroup::Orange, 200, [16, 80, 220, 600, 800, 1000], 100)
    &&& b[20] is FreeParking
    &&& is_street(b[21], "Kentucky Ave"@, ColorGroup::Red, 220, [18, 90, 250, 700, 875, 1050], 150)
    &&& b[22] is Chance
    &&& is_street(b[23], "Indiana Ave"@, ColorGroup::Red, 220, [18, 90, 250, 700, 875, 1050], 150)
    &&& is_street(b[24], "Illinois Ave"@, ColorGroup::Red, 240, [20, 100, 300, 750, 925, 1100], 150)
    &&& is_railroad(b[25], "B&O RR"@)
    &&& is_street(b[26], "Atlantic Ave"@, ColorGroup::Yellow, 260, [22, 110, 330, 800, 975, 1150], 150)
    &&& is_street(b[27], "Ventnor Ave"@, ColorGroup::Yellow, 260, [22, 110, 330, 800, 975, 1150], 150)
    &&& is_utility(b[28], "Water Works"@)
    &&& is_street(b[29], "Marvin Gardens"@, ColorGroup::Yellow, 280, [24, 120, 360, 850, 1025, 1200], 150)
    &&& b[30] is GoToJail
    &&& is_street(b[31], "Pacific Ave"@, ColorGroup::Green, 300, [26, 130, 390, 900, 1100, 1275], 200)
    &&& is_street(b[32], "N Carolina Ave"@, ColorGroup::Green, 300, [26, 130, 390, 900, 1100, 1275], 200)
    &&& b[33] is CommunityChest
    &&& is_street(b[34], "Pennsylvania Ave"@, ColorGroup::Green, 320, [28, 150, 450, 1000, 1200, 1400], 200)
    &&& is_railroad(b[35], "Short Line"@)
    &&& b[36] is Chance
    &&& is_street(b[37], "Park Place"@, ColorGroup::DarkBlue, 350, [35, 175, 500, 1100, 1300, 1500], 200)
    &&& b[38] == Space::Tax(100)
    &&& is_street(b[39], "Boardwalk"@, ColorGroup::DarkBlue, 400, [50, 200, 600, 1400, 1700, 2000], 200)
}

/// The 40 spaces in order, index 0 = GO.
pub fn board() -> (b: Vec<Space>)
    ensures
        is_standard_board(b@),
{
    let b = vec![
        Space::Go,
        Space::street("Mediterranean Ave", ColorGroup::Brown, 60, [2, 10, 30, 90, 160, 250], 50),
        Space::CommunityChest,
        Space::street("Baltic Ave", ColorGroup::Brown, 60, [4, 20, 60, 180, 320, 450], 50),
        Space::Tax(200),
        Space::railroad("Reading RR", RAILROAD_PRICE),
        Space::street("Oriental Ave", ColorGroup::LightBlue, 100, [6, 30, 90, 270, 400, 550], 50),
        Space::Chance,
        Space::street("Vermont Ave", ColorGroup::LightBlue, 100, [6, 30, 90, 270, 400, 550], 50),
        Space::street("Connecticut Ave", ColorGroup::LightBlue, 120, [8, 40, 100, 300, 450, 600], 50),
        Space::Jail,
        Space::street("St. Charles Pl", ColorGroup::Pink, 140, [10, 50, 150, 450, 625, 750], 100),
        Space::utility("Electric Co", UTILITY_PRICE),
        Space::street("States Ave", ColorGroup::Pink, 140, [10, 50, 150, 450, 625, 750], 100),
        Space::street("Virginia Ave", ColorGroup::Pink, 160, [12, 60, 180, 500, 700, 900], 100),
        Space::railroad("Pennsylvania RR", RAILROAD_PRICE),
        Space::street("St. James Pl", ColorGroup::Orange, 180, [14, 70, 200, 550, 750, 950], 100),
        Space::CommunityChest,
        Space::street("Tennessee Ave", ColorGroup::Orange, 180, [14, 70, 200, 550, 750, 950], 100),
        Space::street("New York Ave", ColorGroup::Orange, 200, [16, 80, 220, 600, 800, 1000], 100),
        Space::FreeParking,
        Space::street("Kentucky Ave", ColorGroup::Red, 220, [18, 90, 250, 700, 875, 1050], 150),
        Space::Chance,
        Space::street("Indiana Ave", ColorGroup::Red, 220, [18, 90, 250, 700, 875, 1050], 150),
        Space::street("Illinois Ave", ColorGroup::Red, 240, [20, 100, 300, 750, 925, 1100], 150),
        Space::railroad("B&O RR", RAILROAD_PRICE),
        Space::street("Atlantic Ave", ColorGroup::Yellow, 260, [22, 110, 330, 800, 975, 1150], 150),
        Space::street("Ventnor Ave", ColorGroup::Yellow, 260, [22, 110, 330, 800, 975, 1150], 150),
        Space::utility("Water Works", UTILITY_PRICE),
        Space::street("Marvin Gardens", ColorGroup::Yellow, 280, [24, 120, 360, 850, 1025, 1200], 150),
        Space::GoToJail,
        Space::street("Pacific Ave", ColorGroup::Green, 300, [26, 130, 390, 900, 1100, 1275], 200),
        Space::street("N Carolina Ave", ColorGroup::Green, 300, [26, 130, 390, 900, 1100, 1275], 200),
        Space::CommunityChest,
        Space::street("Pennsylvania Ave", ColorGroup::Green, 320, [28, 150, 450, 1000, 1200, 1400], 200),
        Space::railroad("Short Line", RAILROAD_PRICE),
        Space::Chance,
        Space::street("Park Place", ColorGroup::DarkBlue, 350, [35, 175, 500, 1100, 1300, 1500], 200),
        Space::Tax(100),
        Space::street("Boardwalk", ColorGroup::DarkBlue, 400, [50, 200, 600, 1400, 1700, 2000], 200),
    ];
    b
}

} // verus!
