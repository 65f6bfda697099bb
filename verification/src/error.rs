//! Errors of the engine, and the reasons behind them.
//!
//! Every refusal of the engine is an [`Error::Game`] with a message for a human
//! reader. Contracts do not speak of message text directly: they name the reason
//! as a [`Fault`], and [`Fault::message`] fixes the text of each reason.

use vstd::prelude::*;

verus! {

/// The error type of the whole crate.
#[derive(Debug)]
pub enum Error {
    /// A rule of the game, or an invariant of the engine, was violated.
    Game(String),
    /// A lock around the application state was poisoned.
    MutexPoisoned,
    /// A value could not be written to or read from JSON.
    Json(String),
    /// A command arrived before the game was started.
    GameNotStarted,
}

/// The mathematical value of an [`Error`]: the same variants over character sequences.
pub ghost enum ErrorView {
    Game(Seq<char>),
    MutexPoisoned,
    Json(Seq<char>),
    GameNotStarted,
}

impl View for Error {
    type V = ErrorView;

    open spec fn view(&self) -> ErrorView {
        match self {
            Error::Game(m) => ErrorView::Game(m@),
            Error::MutexPoisoned => ErrorView::MutexPoisoned,
            Error::Json(m) => ErrorView::Json(m@),
            Error::GameNotStarted => ErrorView::GameNotStarted,
        }
    }
}

impl ErrorView {
    /// The text shown for an error.
    pub open spec fn display_text(self) -> Seq<char> {
        match self {
            ErrorView::Game(m) => "Game Logic Error: "@ + m,
            ErrorView::MutexPoisoned =>
                "Failed to acquire lock on application state. The app may be in an inconsistent state."@,
            ErrorView::Json(m) => "JSON Serialization Error: "@ + m,
            ErrorView::GameNotStarted => "Game is not started yet"@,
        }
    }
}

impl Error {
    /// The text shown for this error.
    pub fn to_string(&self) -> (text: String)
        ensures
            text@ == self@.display_text(),
    {
        match self {
            Error::Game(m) => String::from_str("Game Logic Error: ").concat(m.as_str()),
            Error::MutexPoisoned => String::from_str(
                "Failed to acquire lock on application state. The app may be in an inconsistent state.",
            ),
            Error::Json(m) => String::from_str("JSON Serialization Error: ").concat(m.as_str()),
            Error::GameNotStarted => String::from_str("Game is not started yet"),
        }
    }

    /// A game error with the given message.
    pub fn from_message(message: &str) -> (e: Error)
        ensures
            e@ == ErrorView::Game(message@),
    {
        Error::Game(String::from_str(message))
    }
}

/// The decimal digit `d` as text.
pub open spec fn digit_text(d: nat) -> Seq<char> {
    if d == 0 {
        "0"@
    } else if d == 1 {
        "1"@
    } else if d == 2 {
        "2"@
    } else if d == 3 {
        "3"@
    } else if d == 4 {
        "4"@
    } else if d == 5 {
        "5"@
    } else if d == 6 {
        "6"@
    } else if d == 7 {
        "7"@
    } else if d == 8 {
        "8"@
    } else {
        "9"@
    }
}

/// The decimal notation of `n`, without sign or leading zeros.
pub open spec fn decimal_text(n: nat) -> Seq<char>
    decreases n,
{
    if n < 10 {
        digit_text(n)
    } else {
        decimal_text(n / 10) + digit_text(n % 10)
    }
}

fn digit_str(d: usize) -> (s: &'static str)
    requires
        d < 10,
    ensures
        s@ == digit_text(d as nat),
{
    if d == 0 {
        "0"
    } else if d == 1 {
        "1"
    } else if d == 2 {
        "2"
    } else if d == 3 {
        "3"
    } else if d == 4 {
        "4"
    } else if d == 5 {
        "5"
    } else if d == 6 {
        "6"
    } else if d == 7 {
        "7"
    } else if d == 8 {
        "8"
    } else {
        "9"
    }
}

/// Writes `n` in decimal notation.
pub fn decimal_string(n: usize) -> (s: String)
    ensures
        s@ == decimal_text(n as nat),
    decreases n,
{
    if n < 10 {
        String::from_str(digit_str(n))
    } else {
        let head = decimal_string(n / 10);
        head.concat(digit_str(n % 10))
    }
}

/// Why the engine refused a command or stopped an effect.
#[derive(Clone, Copy, Debug, PartialEq, Eq, Structural)]
pub enum Fault {
    CardNotFound(usize),
    PlayerNotFound(usize),
    OpponentNotFound(usize),
    AiPlayerNotFound(usize),
    AiOpponentNotFound(usize),
    TemplateNotFound(usize),
    AttackerNotFound(usize),
    TargetNotFound(usize),
    DestroyTargetNotFound(usize),
    AttackEntityNotFound(usize),
    SummonEntityNotFound(usize),
    InvalidStartingPosition,
    NotYourMonster,
    NotOnField,
    InvalidDestination,
    DestinationOccupied,
    NoMoveLeft,
    SpellOnField,
    NotYourAttacker,
    AttackOwnPlayer,
    EnemyHasDefender,
    AttackOwnMonster,
    NotOnAttackSlot,
    AttackerNotOnField,
    AttackerAsleep,
    AlreadyAttacked,
    SpellCannotAttack,
    DamageSpell,
    DestroySpell,
    HealSpell,
    SummonSpell,
    AttackWithSpell,
    AttackSpell,
    BoostSpell,
    BoardFull,
    SlotOccupied,
    NotInHand,
    NotEnoughMana,
    SpellPlayedAsMonster,
    MonsterCastAsSpell,
    WrongTargetCount(usize),
    TooManyTargets(usize),
    TargetMismatch,
    StatOverflow,
    NoFreshId,
    DrainLimit,
}

impl Fault {
    /// The message that an error carries for this reason.
    pub open spec fn message(self) -> Seq<char> {
        match self {
            Fault::CardNotFound(id) => "Card with id "@ + decimal_text(id as nat) + " not found"@,
            Fault::PlayerNotFound(id) => "Player with id "@ + decimal_text(id as nat)
                + " not found"@,
            Fault::OpponentNotFound(id) => "Opponent not found for player with id "@ + decimal_text(
                id as nat,
            ),
            Fault::AiPlayerNotFound(id) => "AI player "@ + decimal_text(id as nat) + " not found"@,
            Fault::AiOpponentNotFound(id) => "Opponent not found for player "@ + decimal_text(
                id as nat,
            ),
            Fault::TemplateNotFound(id) => "Template with id "@ + decimal_text(id as nat)
                + " not found"@,
            Fault::AttackerNotFound(id) => "Attacker with id "@ + decimal_text(id as nat)
                + " not found"@,
            Fault::TargetNotFound(id) => "Target with id "@ + decimal_text(id as nat)
                + " not found"@,
            Fault::DestroyTargetNotFound(id) => "Entity with id "@ + decimal_text(id as nat)
                + " not found for destroy"@,
            Fault::AttackEntityNotFound(id) => "Entity with id "@ + decimal_text(id as nat)
                + " not found for attack"@,
            Fault::SummonEntityNotFound(id) => "Entity with id "@ + decimal_text(id as nat)
                + " not found for summon from hand"@,
            Fault::InvalidStartingPosition => "Invalid starting position"@,
            Fault::NotYourMonster => "You can only move your monsters"@,
            Fault::NotOnField => "Card must be on the field"@,
            Fault::InvalidDestination => "Target position is not valid"@,
            Fault::DestinationOccupied => "You can't move to a position not empty"@,
            Fault::NoMoveLeft => "You don't have any move left"@,
            Fault::SpellOnField => "There shouldn't be spell on the field"@,
            Fault::NotYourAttacker => "You can only attack with your own monsters"@,
            Fault::AttackOwnPlayer => "You can't attack your own player"@,
            Fault::EnemyHasDefender =>
                "You can't attack the enemy player if he has a monster in defense"@,
            Fault::AttackOwnMonster => "You can't attack your own monster"@,
            Fault::NotOnAttackSlot => "This monster must be on an attack slot to attack"@,
            Fault::AttackerNotOnField => "This monster must be on the field to attack"@,
            Fault::AttackerAsleep => "This monster can't attack on his first turn"@,
            Fault::AlreadyAttacked => "This monster has already attacked this turn"@,
            Fault::SpellCannotAttack => "A spell can not attack"@,
            Fault::DamageSpell => "Can't deal damage to a spell"@,
            Fault::DestroySpell => "Can't destroy a spell"@,
            Fault::HealSpell => "Can't heal a spell"@,
            Fault::SummonSpell => "Can't summon a spell"@,
            Fault::AttackWithSpell => "Can't attack with a spell"@,
            Fault::AttackSpell => "Can't attack a spell"@,
            Fault::BoostSpell => "Can't boost a spell"@,
            Fault::BoardFull => "Your board is already full"@,
            Fault::SlotOccupied => "This place on the field is not empty"@,
            Fault::NotInHand => "This card must be in your hand to play it"@,
            Fault::NotEnoughMana => "You don't have enough mana to play this card"@,
            Fault::SpellPlayedAsMonster => "You are trying to play a spell as a monster"@,
            Fault::MonsterCastAsSpell => "You can not cast a monster, only a spell"@,
            Fault::WrongTargetCount(n) => "Wrong quantity of targets selected (required: "@
                + decimal_text(n as nat) + ")"@,
            Fault::TooManyTargets(n) => "Too many targets selected (maximum: "@ + decimal_text(
                n as nat,
            ) + ")"@,
            Fault::TargetMismatch =>
                "You selected a target that doesn't match the card conditions"@,
            Fault::StatOverflow => "A value grew past what the engine can count"@,
            Fault::NoFreshId => "No identifier is left for a new card"@,
            Fault::DrainLimit => "The effect queue did not run dry"@,
        }
    }

    /// The error that reports this reason.
    pub open spec fn error_view(self) -> ErrorView {
        ErrorView::Game(self.message())
    }

    /// The error that reports this reason.
    pub fn to_error(self) -> (e: Error)
        ensures
            e@ == self.error_view(),
    {
        let message = match self {
            Fault::CardNotFound(id) => with_number("Card with id ", id, " not found"),
            Fault::PlayerNotFound(id) => with_number("Player with id ", id, " not found"),
            Fault::OpponentNotFound(id) => String::from_str(
                "Opponent not found for player with id ",
            ).concat(decimal_string(id).as_str()),
            Fault::AiPlayerNotFound(id) => with_number("AI player ", id, " not found"),
            Fault::AiOpponentNotFound(id) => String::from_str(
                "Opponent not found for player ",
            ).concat(decimal_string(id).as_str()),
            Fault::TemplateNotFound(id) => with_number("Template with id ", id, " not found"),
            Fault::AttackerNotFound(id) => with_number("Attacker with id ", id, " not found"),
            Fault::TargetNotFound(id) => with_number("Target with id ", id, " not found"),
            Fault::DestroyTargetNotFound(id) => with_number(
                "Entity with id ",
                id,
                " not found for destroy",
            ),
            Fault::AttackEntityNotFound(id) => with_number(
                "Entity with id ",
                id,
                " not found for attack",
            ),
            Fault::SummonEntityNotFound(id) => with_number(
                "Entity with id ",
                id,
                " not found for summon from hand",
            ),
            Fault::InvalidStartingPosition => String::from_str("Invalid starting position"),
            Fault::NotYourMonster => String::from_str("You can only move your monsters"),
            Fault::NotOnField => String::from_str("Card must be on the field"),
            Fault::InvalidDestination => String::from_str("Target position is not valid"),
            Fault::DestinationOccupied => String::from_str(
                "You can't move to a position not empty",
            ),
            Fault::NoMoveLeft => String::from_str("You don't have any move left"),
            Fault::SpellOnField => String::from_str("There shouldn't be spell on the field"),
            Fault::NotYourAttacker => String::from_str(
                "You can only attack with your own monsters",
            ),
            Fault::AttackOwnPlayer => String::from_str("You can't attack your own player"),
            Fault::EnemyHasDefender => String::from_str(
                "You can't attack the enemy player if he has a monster in defense",
            ),
            Fault::AttackOwnMonster => String::from_str("You can't attack your own monster"),
            Fault::NotOnAttackSlot => String::from_str(
                "This monster must be on an attack slot to attack",
            ),
            Fault::AttackerNotOnField => String::from_str(
                "This monster must be on the field to attack",
            ),
            Fault::AttackerAsleep => String::from_str(
                "This monster can't attack on his first turn",
            ),
            Fault::AlreadyAttacked => String::from_str(
                "This monster has already attacked this turn",
            ),
            Fault::SpellCannotAttack => String::from_str("A spell can not attack"),
            Fault::DamageSpell => String::from_str("Can't deal damage to a spell"),
            Fault::DestroySpell => String::from_str("Can't destroy a spell"),
            Fault::HealSpell => String::from_str("Can't heal a spell"),
            Fault::SummonSpell => String::from_str("Can't summon a spell"),
            Fault::AttackWithSpell => String::from_str("Can't attack with a spell"),
            Fault::AttackSpell => String::from_str("Can't attack a spell"),
            Fault::BoostSpell => String::from_str("Can't boost a spell"),
            Fault::BoardFull => String::from_str("Your board is already full"),
            Fault::SlotOccupied => String::from_str("This place on the field is not empty"),
            Fault::NotInHand => String::from_str("This card must be in your hand to play it"),
            Fault::NotEnoughMana => String::from_str(
                "You don't have enough mana to play this card",
            ),
            Fault::SpellPlayedAsMonster => String::from_str(
                "You are trying to play a spell as a monster",
            ),
            Fault::MonsterCastAsSpell => String::from_str(
                "You can not cast a monster, only a spell",
            ),
            Fault::WrongTargetCount(n) => with_number(
                "Wrong quantity of targets selected (required: ",
                n,
                ")",
            ),
            Fault::TooManyTargets(n) => with_number(
                "Too many targets selected (maximum: ",
                n,
                ")",
            ),
            Fault::TargetMismatch => String::from_str(
                "You selected a target that doesn't match the card conditions",
            ),
            Fault::StatOverflow => String::from_str("A value grew past what the engine can count"),
            Fault::NoFreshId => String::from_str("No identifier is left for a new card"),
            Fault::DrainLimit => String::from_str("The effect queue did not run dry"),
        };
        assert(message@ =~= self.message());
        Error::Game(message)
    }
}

/// `before`, then `n` in decimal, then `after`.
fn with_number(before: &str, n: usize, after: &str) -> (s: String)
    ensures
        s@ == before@ + decimal_text(n as nat) + after@,
{
    let number = decimal_string(n);
    String::from_str(before).concat(number.as_str()).concat(after)
}

/// Results of this crate.
pub type Result<T> = std::result::Result<T, Error>;

} // verus!
