//! The vocabulary of replayed BGO journals: seat colours, ages, the action
//! classes journal lines are sorted into, and the stop and divergence
//! reports the replayer hands back.
use vstd::prelude::*;
use crate::text::{str_eq, push_char};

verus! {

broadcast use vstd::string::group_string_axioms;

/// A seat colour, as BGO's journals name the players.
#[derive(Clone, Copy, Debug, PartialEq, Eq, Structural)]
pub enum Color {
    Orange,
    Purple,
    Green,
    Grey,
}

/// BGO's fixed seating: Orange, Purple, Green, Grey in seats 0 to 3.
pub open spec fn color_of_seat(seat: int) -> Option<Color> {
    if seat == 0 {
        Some(Color::Orange)
    } else if seat == 1 {
        Some(Color::Purple)
    } else if seat == 2 {
        Some(Color::Green)
    } else if seat == 3 {
        Some(Color::Grey)
    } else {
        None
    }
}

/// How the journal spells a colour.
pub open spec fn color_name(c: Color) -> Seq<char> {
    match c {
        Color::Orange => "Orange"@,
        Color::Purple => "Purple"@,
        Color::Green => "Green"@,
        Color::Grey => "Grey"@,
    }
}

impl Color {
    /// The colour seated at `seat`, if it is one of the four seats.
    pub fn from_seat(seat: u8) -> (c: Option<Color>)
        ensures
            c == color_of_seat(seat as int),
    {
        match seat {
            0 => Some(Color::Orange),
            1 => Some(Color::Purple),
            2 => Some(Color::Green),
            3 => Some(Color::Grey),
            _ => None,
        }
    }

    /// How the journal spells this colour.
    pub fn as_str(&self) -> (s: &'static str)
        ensures
            s@ == color_name(*self),
    {
        match self {
            Color::Orange => "Orange",
            Color::Purple => "Purple",
            Color::Green => "Green",
            Color::Grey => "Grey",
        }
    }

    /// The colour a journal spells `s`, matched exactly.
    pub fn parse(s: &str) -> (c: Option<Color>)
        ensures
            match c {
                Some(col) => color_name(col) == s@,
                None => forall|col: Color| color_name(col) != s@,
            },
    {
        if str_eq(s, "Orange") {
            Some(Color::Orange)
        } else if str_eq(s, "Purple") {
            Some(Color::Purple)
        } else if str_eq(s, "Green") {
            Some(Color::Green)
        } else if str_eq(s, "Grey") {
            Some(Color::Grey)
        } else {
            proof {
                assert forall|col: Color| color_name(col) != s@ by {
                    match col {
                        Color::Orange => {},
                        Color::Purple => {},
                        Color::Green => {},
                        Color::Grey => {},
                    }
                }
            }
            None
        }
    }
}

/// The colour of a seat number, with every seat past the third read as
/// Grey (a seat number is always below four at a base-game table).
pub fn color_for_seat(seat: u8) -> (c: Color)
    ensures
        c == (if seat < 3 { color_of_seat(seat as int).unwrap() } else { Color::Grey }),
{
    match seat {
        0 => Color::Orange,
        1 => Color::Purple,
        2 => Color::Green,
        _ => Color::Grey,
    }
}

/// A game age.
#[derive(Clone, Copy, Debug, PartialEq, Eq, Structural)]
pub enum Age {
    A,
    I,
    II,
    III,
    IV,
}

/// How the journal's age column spells an age.
pub open spec fn age_name(a: Age) -> Seq<char> {
    match a {
        Age::A => "A"@,
        Age::I => "I"@,
        Age::II => "II"@,
        Age::III => "III"@,
        Age::IV => "IV"@,
    }
}

/// The position of an age in game order, from 0 for Age A.
pub open spec fn age_index(a: Age) -> int {
    match a {
        Age::A => 0,
        Age::I => 1,
        Age::II => 2,
        Age::III => 3,
        Age::IV => 4,
    }
}

/// The age a journal age column names, matched exactly.
pub fn parse_age(s: &str) -> (a: Option<Age>)
    ensures
        match a {
            Some(age) => age_name(age) == s@,
            None => forall|age: Age| age_name(age) != s@,
        },
{
    if str_eq(s, "A") {
        Some(Age::A)
    } else if str_eq(s, "I") {
        Some(Age::I)
    } else if str_eq(s, "II") {
        Some(Age::II)
    } else if str_eq(s, "III") {
        Some(Age::III)
    } else if str_eq(s, "IV") {
        Some(Age::IV)
    } else {
        proof {
            assert forall|age: Age| age_name(age) != s@ by {
                match age {
                    Age::A => {},
                    Age::I => {},
                    Age::II => {},
                    Age::III => {},
                    Age::IV => {},
                }
            }
        }
        None
    }
}

/// The position of an age in game order, from 0 for Age A.
pub fn age_idx(a: Age) -> (i: usize)
    ensures
        i == age_index(a),
{
    match a {
        Age::A => 0,
        Age::I => 1,
        Age::II => 2,
        Age::III => 3,
        Age::IV => 4,
    }
}

/// The class a journal action line is sorted into.
#[derive(Clone, Copy, Debug, PartialEq, Eq, Structural)]
pub enum ActionClass {
    TakeCard,
    BuildBuilding,
    BuildUnit,
    BuildWonderStage,
    IncreasePopulation,
    UpgradeUnit,
    UpgradeProduction,
    DevelopTechnology,
    ElectLeader,
    ChangeGovernment,
    PlayTactic,
    DeclareWar,
    WinWar,
    PlayAggression,
    ProposePact,
    AcceptPact,
    Colonize,
    Discard,
    Bid,
    WinAuction,
    Destroy,
    Disband,
    Pass,
    PlayEvent,
    PlayActionCard,
    PutBack,
    EndTurn,
    RemoveLeaderYellow,
    ColumbusColonize,
    Barbarossa,
    BachTheater,
}

/// The name an action class is printed under (its variant name).
pub open spec fn action_class_name(c: ActionClass) -> Seq<char> {
    match c {
        ActionClass::TakeCard => "TakeCard"@,
        ActionClass::BuildBuilding => "BuildBuilding"@,
        ActionClass::BuildUnit => "BuildUnit"@,
        ActionClass::BuildWonderStage => "BuildWonderStage"@,
        ActionClass::IncreasePopulation => "IncreasePopulation"@,
        ActionClass::UpgradeUnit => "UpgradeUnit"@,
        ActionClass::UpgradeProduction => "UpgradeProduction"@,
        ActionClass::DevelopTechnology => "DevelopTechnology"@,
        ActionClass::ElectLeader => "ElectLeader"@,
        ActionClass::ChangeGovernment => "ChangeGovernment"@,
        ActionClass::PlayTactic => "PlayTactic"@,
        ActionClass::DeclareWar => "DeclareWar"@,
        ActionClass::WinWar => "WinWar"@,
        ActionClass::PlayAggression => "PlayAggression"@,
        ActionClass::ProposePact => "ProposePact"@,
        ActionClass::AcceptPact => "AcceptPact"@,
        ActionClass::Colonize => "Colonize"@,
        ActionClass::Discard => "Discard"@,
        ActionClass::Bid => "Bid"@,
        ActionClass::WinAuction => "WinAuction"@,
        ActionClass::Destroy => "Destroy"@,
        ActionClass::Disband => "Disband"@,
        ActionClass::Pass => "Pass"@,
        ActionClass::PlayEvent => "PlayEvent"@,
        ActionClass::PlayActionCard => "PlayActionCard"@,
        ActionClass::PutBack => "PutBack"@,
        ActionClass::EndTurn => "EndTurn"@,
        ActionClass::RemoveLeaderYellow => "RemoveLeaderYellow"@,
        ActionClass::ColumbusColonize => "ColumbusColonize"@,
        ActionClass::Barbarossa => "Barbarossa"@,
        ActionClass::BachTheater => "BachTheater"@,
    }
}

impl ActionClass {
    /// The name this class is printed under.
    pub fn name(&self) -> (s: &'static str)
        ensures
            s@ == action_class_name(*self),
    {
        match self {
            ActionClass::TakeCard => "TakeCard",
            ActionClass::BuildBuilding => "BuildBuilding",
            ActionClass::BuildUnit => "BuildUnit",
            ActionClass::BuildWonderStage => "BuildWonderStage",
            ActionClass::IncreasePopulation => "IncreasePopulation",
            ActionClass::UpgradeUnit => "UpgradeUnit",
            ActionClass::UpgradeProduction => "UpgradeProduction",
            ActionClass::DevelopTechnology => "DevelopTechnology",
            ActionClass::ElectLeader => "ElectLeader",
            ActionClass::ChangeGovernment => "ChangeGovernment",
            ActionClass::PlayTactic => "PlayTactic",
            ActionClass::DeclareWar => "DeclareWar",
            ActionClass::WinWar => "WinWar",
            ActionClass::PlayAggression => "PlayAggression",
            ActionClass::ProposePact => "ProposePact",
            ActionClass::AcceptPact => "AcceptPact",
            ActionClass::Colonize => "Colonize",
            ActionClass::Discard => "Discard",
            ActionClass::Bid => "Bid",
            ActionClass::WinAuction => "WinAuction",
            ActionClass::Destroy => "Destroy",
            ActionClass::Disband => "Disband",
            ActionClass::Pass => "Pass",
            ActionClass::PlayEvent => "PlayEvent",
            ActionClass::PlayActionCard => "PlayActionCard",
            ActionClass::PutBack => "PutBack",
            ActionClass::EndTurn => "EndTurn",
            ActionClass::RemoveLeaderYellow => "RemoveLeaderYellow",
            ActionClass::ColumbusColonize => "ColumbusColonize",
            ActionClass::Barbarossa => "Barbarossa",
            ActionClass::BachTheater => "BachTheater",
        }
    }
}

} // verus!
