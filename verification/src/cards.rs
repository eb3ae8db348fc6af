//! The game vocabulary the probes classify by: card types, the moves a
//! player can make (reduced to what the probes read of them), seat colours,
//! ages and journal action classes.
use vstd::prelude::*;

verus! {

/// The type printed on a card.
#[derive(Clone, Copy, Debug, PartialEq, Eq, Structural)]
pub enum CardType {
    Farm,
    Mine,
    Lab,
    Temple,
    Library,
    Arena,
    Theater,
    Infantry,
    Cavalry,
    Artillery,
    Air,
    Government,
    SpecialTech,
    Wonder,
    Leader,
    Action,
    Tactic,
    Aggression,
    War,
    Pact,
    Bonus,
    Territory,
    Event,
}

/// The urban building types.
pub open spec fn is_urban(k: CardType) -> bool {
    k == CardType::Lab || k == CardType::Temple || k == CardType::Library || k == CardType::Arena
        || k == CardType::Theater
}

/// The military unit types.
pub open spec fn is_unit(k: CardType) -> bool {
    k == CardType::Infantry || k == CardType::Cavalry || k == CardType::Artillery || k
        == CardType::Air
}

/// The types a worker can be put on (production, urban, unit): the only
/// types a build move ever targets.
pub open spec fn takes_workers(k: CardType) -> bool {
    k == CardType::Farm || k == CardType::Mine || is_urban(k) || is_unit(k)
}

/// A card, identified by its index in the card table, together with the
/// type the table gives it.
#[derive(Clone, Copy, Debug, PartialEq, Eq, Structural)]
pub struct Card {
    pub id: u16,
    pub kind: CardType,
}

/// A move, reduced to what the probes read: which kind of move it is, the
/// row slot of a take, the step count of a wonder step, and the card of the
/// moves that name one.
#[derive(Clone, Copy, Debug, PartialEq, Eq, Structural)]
pub enum Move {
    Take { slot: u8 },
    Build { card: Card },
    Develop { card: Card },
    Upgrade { to: Card },
    WonderStep { steps: u8 },
    Pop,
    PopFree,
    Revolution { card: Card },
    PlayLeader { card: Card },
    PlayAction { card: Card },
    Destroy,
    PlayTactic,
    CopyTactic,
    Aggression,
    War,
    OfferPact,
    CancelPact,
    PrepareEvent,
    RemoveLeaderYellow,
    ColumbusColonize,
    Barbarossa,
    BachTheater,
    TradeFoodAsResource,
    TradeResourceAsFood,
    Bid,
    BidPass,
    Defend,
    DefendDone,
    SendUnit,
    SendBonus,
    SendDiscard,
    SendDone,
    Choose,
    Churchill,
    EndTurn,
    PolPass,
    Resign,
}

/// A move whose card, if it names one for a build, takes workers: the only
/// builds the move generator produces.
pub open spec fn well_formed_move(mv: Move) -> bool {
    mv matches Move::Build { card } ==> takes_workers(card.kind)
}

/// The bucket a chosen move falls into, with builds split by target.
#[derive(Clone, Copy, Debug, PartialEq, Eq, Structural)]
pub enum DecisionKind {
    Take,
    BuildFarm,
    BuildMine,
    BuildUrban,
    BuildMilitary,
    Develop,
    Upgrade,
    WonderStep,
    Pop,
    Leader,
    ActionCard,
    EndTurn,
    Other,
}

/// The decision bucket of a build targeting a card of type `k`.
pub open spec fn build_target_kind_spec(k: CardType) -> DecisionKind {
    if k == CardType::Farm {
        DecisionKind::BuildFarm
    } else if k == CardType::Mine {
        DecisionKind::BuildMine
    } else if is_urban(k) {
        DecisionKind::BuildUrban
    } else {
        DecisionKind::BuildMilitary
    }
}

/// The decision bucket of a build targeting a card of type `k`; only the
/// worker-taking types are ever built.
pub fn build_target_kind(k: CardType) -> (d: DecisionKind)
    requires
        takes_workers(k),
    ensures
        d == build_target_kind_spec(k),
{
    match k {
        CardType::Farm => DecisionKind::BuildFarm,
        CardType::Mine => DecisionKind::BuildMine,
        CardType::Lab | CardType::Temple | CardType::Library | CardType::Arena | CardType::Theater => {
            DecisionKind::BuildUrban
        },
        _ => DecisionKind::BuildMilitary,
    }
}

/// The decision bucket of a move.
pub open spec fn decision_kind_spec(mv: Move) -> DecisionKind {
    match mv {
        Move::Take { .. } => DecisionKind::Take,
        Move::Build { card } => build_target_kind_spec(card.kind),
        Move::Develop { .. } => DecisionKind::Develop,
        Move::Upgrade { .. } => DecisionKind::Upgrade,
        Move::WonderStep { .. } => DecisionKind::WonderStep,
        Move::Pop | Move::PopFree => DecisionKind::Pop,
        Move::PlayLeader { .. } => DecisionKind::Leader,
        Move::PlayAction { .. } => DecisionKind::ActionCard,
        Move::EndTurn => DecisionKind::EndTurn,
        _ => DecisionKind::Other,
    }
}

/// The decision bucket of a move: builds split by what they target, end of
/// turn on its own, and every response or military-phase move in `Other`.
pub fn decision_kind(mv: Move) -> (d: DecisionKind)
    requires
        well_formed_move(mv),
    ensures
        d == decision_kind_spec(mv),
{
    match mv {
        Move::Take { .. } => DecisionKind::Take,
        Move::Build { card } => build_target_kind(card.kind),
        Move::Develop { .. } => DecisionKind::Develop,
        Move::Upgrade { .. } => DecisionKind::Upgrade,
        Move::WonderStep { .. } => DecisionKind::WonderStep,
        Move::Pop | Move::PopFree => DecisionKind::Pop,
        Move::PlayLeader { .. } => DecisionKind::Leader,
        Move::PlayAction { .. } => DecisionKind::ActionCard,
        Move::EndTurn => DecisionKind::EndTurn,
        _ => DecisionKind::Other,
    }
}

/// The five build-shaped moves whose rank the opener probe tracks.
#[derive(Clone, Copy, Debug, PartialEq, Eq, Structural)]
pub enum BuildKind {
    Farm,
    Mine,
    Urban,
    Military,
    WonderStep,
}

/// The five build kinds, in report order.
pub fn all_build_kinds() -> (ks: [BuildKind; 5])
    ensures
        ks@ == seq![
            BuildKind::Farm,
            BuildKind::Mine,
            BuildKind::Urban,
            BuildKind::Military,
            BuildKind::WonderStep,
        ],
{
    [BuildKind::Farm, BuildKind::Mine, BuildKind::Urban, BuildKind::Military, BuildKind::WonderStep]
}

/// The label a build kind is reported under.
pub open spec fn build_kind_label_spec(k: BuildKind) -> Seq<char> {
    match k {
        BuildKind::Farm => "Farm"@,
        BuildKind::Mine => "Mine"@,
        BuildKind::Urban => "Urban"@,
        BuildKind::Military => "Military"@,
        BuildKind::WonderStep => "WonderStep"@,
    }
}

/// The label a build kind is reported under.
pub fn build_kind_label(k: BuildKind) -> (s: &'static str)
    ensures
        s@ == build_kind_label_spec(k),
{
    match k {
        BuildKind::Farm => "Farm",
        BuildKind::Mine => "Mine",
        BuildKind::Urban => "Urban",
        BuildKind::Military => "Military",
        BuildKind::WonderStep => "WonderStep",
    }
}

/// Which of the five tracked build kinds a move is, if any.
pub open spec fn probe_build_kind_spec(mv: Move) -> Option<BuildKind> {
    match mv {
        Move::Build { card } => Some(
            if card.kind == CardType::Farm {
                BuildKind::Farm
            } else if card.kind == CardType::Mine {
                BuildKind::Mine
            } else if is_urban(card.kind) {
                BuildKind::Urban
            } else {
                BuildKind::Military
            },
        ),
        Move::WonderStep { .. } => Some(BuildKind::WonderStep),
        _ => None,
    }
}

/// Which of the five tracked build kinds a move is, if any.
pub fn probe_build_kind(mv: Move) -> (k: Option<BuildKind>)
    requires
        well_formed_move(mv),
    ensures
        k == probe_build_kind_spec(mv),
{
    match mv {
        Move::Build { card } => Some(
            match card.kind {
                CardType::Farm => BuildKind::Farm,
                CardType::Mine => BuildKind::Mine,
                CardType::Lab | CardType::Temple | CardType::Library | CardType::Arena
                | CardType::Theater => BuildKind::Urban,
                _ => BuildKind::Military,
            },
        ),
        Move::WonderStep { .. } => Some(BuildKind::WonderStep),
        _ => None,
    }
}

/// Each tracked build kind is exactly one kind of move: a Farm build is a
/// build of a Farm card, a Mine build one of a Mine card, an Urban build
/// one of a Lab, Temple, Library, Arena or Theater card, a Military build
/// one of an Infantry, Cavalry, Artillery or Air card, and a wonder step
/// the WonderStep move; every other move is none of them. The build kinds
/// agree with the decision buckets of the same moves.
pub proof fn lemma_build_kinds_follow_the_card(mv: Move)
    requires
        well_formed_move(mv),
    ensures
        (probe_build_kind_spec(mv) == Some(BuildKind::Farm)) <==> (mv matches Move::Build { card }
            && card.kind == CardType::Farm),
        (probe_build_kind_spec(mv) == Some(BuildKind::Mine)) <==> (mv matches Move::Build { card }
            && card.kind == CardType::Mine),
        (probe_build_kind_spec(mv) == Some(BuildKind::Urban)) <==> (mv matches Move::Build { card }
            && (card.kind == CardType::Lab || card.kind == CardType::Temple || card.kind
            == CardType::Library || card.kind == CardType::Arena || card.kind == CardType::Theater)),
        (probe_build_kind_spec(mv) == Some(BuildKind::Military)) <==> (mv matches Move::Build { card }
            && (card.kind == CardType::Infantry || card.kind == CardType::Cavalry || card.kind
            == CardType::Artillery || card.kind == CardType::Air)),
        (probe_build_kind_spec(mv) == Some(BuildKind::WonderStep)) <==> (mv is WonderStep),
        (probe_build_kind_spec(mv) is None) <==> !(mv is Build || mv is WonderStep),
        (probe_build_kind_spec(mv) == Some(BuildKind::Farm)) <==> (decision_kind_spec(mv)
            == DecisionKind::BuildFarm),
        (probe_build_kind_spec(mv) == Some(BuildKind::Mine)) <==> (decision_kind_spec(mv)
            == DecisionKind::BuildMine),
{
}

/// The types a develop move can ever name: a government, a worker-taking
/// technology, or a special technology.
pub open spec fn develop_eligible_spec(k: CardType) -> bool {
    k == CardType::Government || takes_workers(k) || k == CardType::SpecialTech
}

/// Whether a card of type `k` in hand could ever be developed.
pub fn develop_eligible_kind(k: CardType) -> (r: bool)
    ensures
        r == develop_eligible_spec(k),
{
    match k {
        CardType::Government | CardType::Farm | CardType::Mine | CardType::Lab
        | CardType::Temple | CardType::Library | CardType::Arena | CardType::Theater
        | CardType::Infantry | CardType::Cavalry | CardType::Artillery | CardType::Air
        | CardType::SpecialTech => true,
        _ => false,
    }
}

/// How the opening census names the type of a card built or developed.
pub open spec fn build_kind_name_spec(k: CardType) -> Seq<char> {
    if k == CardType::Farm {
        "Farm"@
    } else if k == CardType::Mine {
        "Mine"@
    } else if k == CardType::Temple {
        "Temple"@
    } else if k == CardType::Lab {
        "Lab"@
    } else if k == CardType::Library {
        "Library"@
    } else if k == CardType::Arena {
        "Arena"@
    } else if k == CardType::Theater {
        "Theater"@
    } else if is_unit(k) {
        "Military"@
    } else if k == CardType::Wonder {
        "WonderStage"@
    } else {
        "Other"@
    }
}

/// How the opening census names the type of a card built or developed.
pub fn build_kind(kind: CardType) -> (s: &'static str)
    ensures
        s@ == build_kind_name_spec(kind),
{
    match kind {
        CardType::Farm => "Farm",
        CardType::Mine => "Mine",
        CardType::Temple => "Temple",
        CardType::Lab => "Lab",
        CardType::Library => "Library",
        CardType::Arena => "Arena",
        CardType::Theater => "Theater",
        CardType::Infantry | CardType::Cavalry | CardType::Artillery | CardType::Air => "Military",
        CardType::Wonder => "WonderStage",
        _ => "Other",
    }
}

/// The civil card a move plays out of hand, if it is one of the four moves
/// that take a card from the civil hand.
pub open spec fn played_civil_card_spec(mv: Move) -> Option<Card> {
    match mv {
        Move::Develop { card } => Some(card),
        Move::PlayLeader { card } => Some(card),
        Move::Revolution { card } => Some(card),
        Move::PlayAction { card } => Some(card),
        _ => None,
    }
}

/// The civil card a move plays out of hand, if any.
pub fn played_civil_card(mv: Move) -> (c: Option<Card>)
    ensures
        c == played_civil_card_spec(mv),
{
    match mv {
        Move::Develop { card } => Some(card),
        Move::PlayLeader { card } => Some(card),
        Move::Revolution { card } => Some(card),
        Move::PlayAction { card } => Some(card),
        _ => None,
    }
}

/// Whether a card type is `Wonder`.
pub fn is_wonder(k: CardType) -> (r: bool)
    ensures
        r == (k == CardType::Wonder),
{
    k == CardType::Wonder
}

/// Whether a card type is `Tactic`.
pub fn is_tactic(k: CardType) -> (r: bool)
    ensures
        r == (k == CardType::Tactic),
{
    k == CardType::Tactic
}

/// Whether a card type is `Aggression`.
pub fn is_aggression(k: CardType) -> (r: bool)
    ensures
        r == (k == CardType::Aggression),
{
    k == CardType::Aggression
}

/// Whether a card type is `War`.
pub fn is_war(k: CardType) -> (r: bool)
    ensures
        r == (k == CardType::War),
{
    k == CardType::War
}

/// Whether a card type is `Pact`.
pub fn is_pact(k: CardType) -> (r: bool)
    ensures
        r == (k == CardType::Pact),
{
    k == CardType::Pact
}

/// Whether a card type is `Event`.
pub fn is_event(k: CardType) -> (r: bool)
    ensures
        r == (k == CardType::Event),
{
    k == CardType::Event
}

/// Whether a card type is `Territory`.
pub fn is_territory(k: CardType) -> (r: bool)
    ensures
        r == (k == CardType::Territory),
{
    k == CardType::Territory
}

/// Exactly the moves that play a civil card out of hand name a played card,
/// and it is the card the move names: developing a technology, playing a
/// leader, a revolution and playing an action card, and no other move.
pub proof fn lemma_played_card_is_the_named_card(mv: Move, c: Card)
    ensures
        (played_civil_card_spec(mv) == Some(c)) <==> (mv == Move::Develop { card: c } || mv
            == Move::PlayLeader { card: c } || mv == Move::Revolution { card: c } || mv
            == Move::PlayAction { card: c }),
        decision_kind_spec(mv) == DecisionKind::ActionCard ==> played_civil_card_spec(mv) is Some,
        decision_kind_spec(mv) == DecisionKind::Leader ==> played_civil_card_spec(mv) is Some,
        decision_kind_spec(mv) == DecisionKind::Develop ==> played_civil_card_spec(mv) is Some,
{
}

/// A build's decision bucket is its card's target: a Farm card gives
/// BuildFarm, a Mine card BuildMine, an urban building BuildUrban and a
/// military unit BuildMilitary; both population increases are Pop; a take
/// is Take and ending the turn EndTurn.
pub proof fn lemma_decision_kinds_follow_the_move(mv: Move)
    requires
        well_formed_move(mv),
    ensures
        mv matches Move::Build { card } ==> (card.kind == CardType::Farm <==> decision_kind_spec(mv)
            == DecisionKind::BuildFarm),
        mv matches Move::Build { card } ==> (card.kind == CardType::Mine <==> decision_kind_spec(mv)
            == DecisionKind::BuildMine),
        mv matches Move::Build { card } ==> (is_urban(card.kind) <==> decision_kind_spec(mv)
            == DecisionKind::BuildUrban),
        mv matches Move::Build { card } ==> (is_unit(card.kind) <==> decision_kind_spec(mv)
            == DecisionKind::BuildMilitary),
        (decision_kind_spec(mv) == DecisionKind::Pop) <==> (mv == Move::Pop || mv == Move::PopFree),
        (decision_kind_spec(mv) == DecisionKind::Take) <==> (mv is Take),
        (decision_kind_spec(mv) == DecisionKind::EndTurn) <==> (mv == Move::EndTurn),
        (decision_kind_spec(mv) == DecisionKind::ActionCard) <==> (mv is PlayAction),
        (decision_kind_spec(mv) == DecisionKind::Leader) <==> (mv is PlayLeader),
        (decision_kind_spec(mv) == DecisionKind::Develop) <==> (mv is Develop),
{
}

} // verus!
