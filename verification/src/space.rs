//! Board space data types: what each square is and who holds it.

use vstd::prelude::*;

verus! {

/// The eight color groups for street properties.
#[derive(Debug, Clone, Copy, PartialEq, Eq, Structural)]
pub enum ColorGroup {
    Brown,
    LightBlue,
    Pink,
    Orange,
    Red,
    Yellow,
    Green,
    DarkBlue,
}

/// The banner swatch of each group, as red/green/blue components.
pub open spec fn group_rgb(g: ColorGroup) -> (u8, u8, u8) {
    match g {
        ColorGroup::Brown => (149, 84, 54),
        ColorGroup::LightBlue => (170, 224, 250),
        ColorGroup::Pink => (217, 58, 150),
        ColorGroup::Orange => (247, 148, 29),
        ColorGroup::Red => (237, 27, 36),
        ColorGroup::Yellow => (254, 242, 0),
        ColorGroup::Green => (31, 158, 75),
        ColorGroup::DarkBlue => (0, 114, 187),
    }
}

impl ColorGroup {
    /// Border/banner color used when drawing a property, as an RGB triple.
    pub fn color(self) -> (rgb: (u8, u8, u8))
        ensures
            rgb == group_rgb(self),
    {
        match self {
            ColorGroup::Brown => (149, 84, 54),
            ColorGroup::LightBlue => (170, 224, 250),
            ColorGroup::Pink => (217, 58, 150),
            ColorGroup::Orange => (247, 148, 29),
            ColorGroup::Red => (237, 27, 36),
            ColorGroup::Yellow => (254, 242, 0),
            ColorGroup::Green => (31, 158, 75),
            ColorGroup::DarkBlue => (0, 114, 187),
        }
    }
}

/// Fields shared by every buyable space: a name, a purchase price, an optional
/// owner (`None` = bank, `Some(i)` = player `i`), and whether it's mortgaged.
#[derive(Debug)]
pub struct Ownable {
    pub name: String,
    pub price: u32,
    pub owner: Option<usize>,
    pub mortgaged: bool,
}

impl Clone for Ownable {
    fn clone(&self) -> (res: Self)
        ensures
            res == *self,
    {
        Ownable {
            name: self.name.clone(),
            price: self.price,
            owner: self.owner,
            mortgaged: self.mortgaged,
        }
    }
}

impl Ownable {
    /// A fresh, bank-held, unmortgaged deed.
    pub fn new(name: &str, price: u32) -> (o: Self)
        ensures
            o.name@ == name@,
            o.price == price,
            o.owner is None,
            !o.mortgaged,
    {
        Ownable { name: String::from_str(name), price, owner: None, mortgaged: false }
    }
}

/// House count that represents a hotel.
pub const HOTEL: u8 = 5;

/// A street you can buy, build on, and charge rent for.
#[derive(Debug)]
pub struct Property {
    pub base: Ownable,
    pub group: ColorGroup,
    /// Rent by development level: `[base, 1 house, 2, 3, 4, hotel]`.
    pub rents: [u32; 6],
    /// Cost of one house.
    pub house_cost: u32,
    /// Houses built: 0-4, where 5 means a hotel.
    pub houses: u8,
}

impl Clone for Property {
    fn clone(&self) -> (res: Self)
        ensures
            res == *self,
    {
        Property {
            base: self.base.clone(),
            group: self.group,
            rents: self.rents,
            house_cost: self.house_cost,
            houses: self.houses,
        }
    }
}

/// The development level a street charges at: its house count, capped at a hotel.
pub open spec fn level(houses: u8) -> int {
    if houses <= 5 {
        houses as int
    } else {
        5
    }
}

impl Property {
    /// The rent owed right now, before any monopoly doubling.
    pub open spec fn rent_spec(&self) -> u32 {
        self.rents[level(self.houses)]
    }

    /// Rent owed right now, before monopoly doubling. With houses, the matching
    /// tier; with none, the base rent.
    pub fn current_rent(&self) -> (rent: u32)
        ensures
            rent == self.rent_spec(),
    {
        let tier: usize = if self.houses <= 5 {
            self.houses as usize
        } else {
            5
        };
        self.rents[tier]
    }
}

/// Every square is exactly one of these; each variant carries only its own data.
#[derive(Debug)]
pub enum Space {
    Go,
    Property(Property),
    Railroad(Ownable),
    Utility(Ownable),
    Tax(u32),
    Chance,
    CommunityChest,
    Jail,
    FreeParking,
    GoToJail,
}

impl Clone for Space {
    fn clone(&self) -> (res: Self)
        ensures
            res == *self,
    {
        match self {
            Space::Go => Space::Go,
            Space::Property(p) => Space::Property(p.clone()),
            Space::Railroad(o) => Space::Railroad(o.clone()),
            Space::Utility(o) => Space::Utility(o.clone()),
            Space::Tax(n) => Space::Tax(*n),
            Space::Chance => Space::Chance,
            Space::CommunityChest => Space::CommunityChest,
            Space::Jail => Space::Jail,
            Space::FreeParking => Space::FreeParking,
            Space::GoToJail => Space::GoToJail,
        }
    }
}

impl Space {
    /// The shared deed data of a buyable space.
    pub open spec fn deed(self) -> Option<Ownable> {
        match self {
            Space::Property(p) => Some(p.base),
            Space::Railroad(o) => Some(o),
            Space::Utility(o) => Some(o),
            _ => None,
        }
    }

    pub open spec fn ownable_spec(self) -> bool {
        self.deed() is Some
    }

    pub open spec fn price_spec(self) -> Option<u32> {
        match self.deed() {
            Some(o) => Some(o.price),
            None => None,
        }
    }

    pub open spec fn owner_spec(self) -> Option<usize> {
        match self.deed() {
            Some(o) => o.owner,
            None => None,
        }
    }

    pub open spec fn mortgaged_spec(self) -> bool {
        match self.deed() {
            Some(o) => o.mortgaged,
            None => false,
        }
    }

    pub open spec fn houses_spec(self) -> u8 {
        match self {
            Space::Property(p) => p.houses,
            _ => 0,
        }
    }

    pub open spec fn house_cost_spec(self) -> u32 {
        match self {
            Space::Property(p) => p.house_cost,
            _ => 0,
        }
    }

    /// The same space with its deed's owner replaced (unbuyable spaces are unchanged).
    pub open spec fn with_owner(self, who: Option<usize>) -> Space {
        match self {
            Space::Property(p) => Space::Property(Property { base: Ownable { owner: who, ..p.base }, ..p }),
            Space::Railroad(o) => Space::Railroad(Ownable { owner: who, ..o }),
            Space::Utility(o) => Space::Utility(Ownable { owner: who, ..o }),
            _ => self,
        }
    }

    /// The same space with its deed's mortgage flag replaced.
    pub open spec fn with_mortgaged(self, value: bool) -> Space {
        match self {
            Space::Property(p) => Space::Property(Property { base: Ownable { mortgaged: value, ..p.base }, ..p }),
            Space::Railroad(o) => Space::Railroad(Ownable { mortgaged: value, ..o }),
            Space::Utility(o) => Space::Utility(Ownable { mortgaged: value, ..o }),
            _ => self,
        }
    }

    /// The same space with its street's house count replaced.
    pub open spec fn with_houses(self, houses: u8) -> Space {
        match self {
            Space::Property(p) => Space::Property(Property { houses, ..p }),
            _ => self,
        }
    }

    /// The label a space shows on the board.
    pub open spec fn name_spec(self) -> Seq<char> {
        match self {
            Space::Go => "GO"@,
            Space::Tax(_) => "Tax"@,
            Space::Chance => "Chance"@,
            Space::CommunityChest => "Comm Chest"@,
            Space::Jail => "Jail"@,
            Space::FreeParking => "Free Parking"@,
            Space::GoToJail => "Go To Jail"@,
            Space::Property(p) => p.base.name@,
            Space::Railroad(o) => o.name@,
            Space::Utility(o) => o.name@,
        }
    }

    /// Half the printed price: what the bank lends against a deed.
    pub open spec fn mortgage_value_spec(self) -> u32 {
        match self.price_spec() {
            Some(p) => p / 2,
            None => 0,
        }
    }

    /// What lifting a mortgage costs: its value plus 10% interest.
    pub open spec fn unmortgage_cost_spec(self) -> int {
        self.mortgage_value_spec() + self.mortgage_value_spec() / 10
    }

    /// What the bank pays back for one house: half its cost.
    pub open spec fn house_refund_spec(self) -> u32 {
        self.house_cost_spec() / 2
    }

    pub fn street(name: &str, group: ColorGroup, price: u32, rents: [u32; 6], house_cost: u32) -> (s: Self)
        ensures
            s matches Space::Property(p) && p.base.name@ == name@ && p.base.price == price
                && p.base.owner is None && !p.base.mortgaged && p.group == group && p.rents == rents
                && p.house_cost == house_cost && p.houses == 0,
    {
        Space::Property(Property { base: Ownable::new(name, price), group, rents, house_cost, houses: 0 })
    }

    pub fn railroad(name: &str, price: u32) -> (s: Self)
        ensures
            s matches Space::Railroad(o) && o.name@ == name@ && o.price == price && o.owner is None
                && !o.mortgaged,
    {
        Space::Railroad(Ownable::new(name, price))
    }

    pub fn utility(name: &str, price: u32) -> (s: Self)
        ensures
            s matches Space::Utility(o) && o.name@ == name@ && o.price == price && o.owner is None
                && !o.mortgaged,
    {
        Space::Utility(Ownable::new(name, price))
    }

    /// The shared ownable data (name/price/owner) for buyable spaces.
    pub fn ownable(&self) -> (o: Option<&Ownable>)
        ensures
            o matches Some(r) ==> self.deed() == Some(*r),
            o is None <==> self.deed() is None,
    {
        match self {
            Space::Property(p) => Some(&p.base),
            Space::Railroad(o) => Some(o),
            Space::Utility(o) => Some(o),
            _ => None,
        }
    }

    /// Short label for the board cell.
    pub fn name(&self) -> (n: &str)
        ensures
            n@ == self.name_spec(),
    {
        match self {
            Space::Go => "GO",
            Space::Tax(_) => "Tax",
            Space::Chance => "Chance",
            Space::CommunityChest => "Comm Chest",
            Space::Jail => "Jail",
            Space::FreeParking => "Free Parking",
            Space::GoToJail => "Go To Jail",
            Space::Property(p) => p.base.name.as_str(),
            Space::Railroad(o) => o.name.as_str(),
            Space::Utility(o) => o.name.as_str(),
        }
    }

    /// True for spaces that can be bought: streets, railroads, utilities.
    pub fn is_ownable(&self) -> (b: bool)
        ensures
            b == self.ownable_spec(),
    {
        self.ownable().is_some()
    }

    /// Printed purchase price, if any.
    pub fn price(&self) -> (p: Option<u32>)
        ensures
            p == self.price_spec(),
    {
        match self.ownable() {
            Some(o) => Some(o.price),
            None => None,
        }
    }

    /// Current owner's player index, if owned.
    pub fn owner(&self) -> (w: Option<usize>)
        ensures
            w == self.owner_spec(),
    {
        match self.ownable() {
            Some(o) => o.owner,
            None => None,
        }
    }

    /// Give the deed to `who` (`None` = the bank). Unbuyable spaces ignore this.
    pub fn set_owner(&mut self, who: Option<usize>)
        ensures
            *final(self) == old(self).with_owner(who),
    {
        match self {
            Space::Property(p) => p.base.owner = who,
            Space::Railroad(o) => o.owner = who,
            Space::Utility(o) => o.owner = who,
            _ => {},
        }
    }

    /// True while this space is mortgaged.
    pub fn is_mortgaged(&self) -> (b: bool)
        ensures
            b == self.mortgaged_spec(),
    {
        match self.ownable() {
            Some(o) => o.mortgaged,
            None => false,
        }
    }

    /// Set the mortgage flag. Unbuyable spaces ignore this.
    pub fn set_mortgaged(&mut self, value: bool)
        ensures
            *final(self) == old(self).with_mortgaged(value),
    {
        match self {
            Space::Property(p) => p.base.mortgaged = value,
            Space::Railroad(o) => o.mortgaged = value,
            Space::Utility(o) => o.mortgaged = value,
            _ => {},
        }
    }

    /// Houses built on a street (0-4, 5 = hotel); 0 for anything else.
    pub fn houses(&self) -> (h: u8)
        ensures
            h == self.houses_spec(),
    {
        match self {
            Space::Property(p) => p.houses,
            _ => 0,
        }
    }

    /// Cost of one house on this street, or 0 if it can't be built on.
    pub fn house_cost(&self) -> (c: u32)
        ensures
            c == self.house_cost_spec(),
    {
        match self {
            Space::Property(p) => p.house_cost,
            _ => 0,
        }
    }

    /// What the bank lends against this deed: half the printed price (0 if unbuyable).
    pub fn mortgage_value(&self) -> (v: u32)
        ensures
            v == self.mortgage_value_spec(),
    {
        match self.price() {
            Some(p) => p / 2,
            None => 0,
        }
    }

    /// What lifting the mortgage costs: the mortgage value plus 10% interest.
    pub fn unmortgage_cost(&self) -> (c: u32)
        ensures
            c == self.unmortgage_cost_spec(),
    {
        let v = self.mortgage_value();
        v + v / 10
    }

    /// What the bank pays back for one house: half its cost.
    pub fn house_refund(&self) -> (r: u32)
        ensures
            r == self.house_refund_spec(),
    {
        self.house_cost() / 2
    }

    /// Return a space to the bank's stock: clear any houses and the mortgage so
    /// the next buyer gets it undeveloped.
    pub fn reset_buildings(&mut self)
        ensures
            *final(self) == old(self).with_houses(0).with_mortgaged(false),
    {
        if let Space::Property(p) = self {
            p.houses = 0;
        }
        self.set_mortgaged(false);
    }

    /// Banner icon for non-property spaces. `None` = show the name only.
    pub fn icon(&self) -> (i: Option<&'static str>)
        ensures
            i is Some <==> (self is Chance || self is CommunityChest || self is Railroad || self is Tax),
            self is Chance ==> i == Some("?"),
            self is CommunityChest ==> i == Some("\u{f187}"),
            self is Railroad ==> i == Some("\u{f238}"),
            self is Tax ==> i == Some("$"),
    {
        match self {
            Space::Chance => Some("?"),
            Space::CommunityChest => Some("\u{f187}"),
            Space::Railroad(_) => Some("\u{f238}"),
            Space::Tax(_) => Some("$"),
            _ => None,
        }
    }
}

} // verus!
