//! Which picture the client's heads-up display and lobby show, and where a
//! sprite sits relative to its anchor.
use vstd::prelude::*;

verus! {

/// The point of a sprite that its position names.
#[derive(PartialEq, Eq, Structural, Clone, Copy, Debug)]
pub enum Anchor {
    BotLeft,
    BotRight,
    TopLeft,
    TopRight,
    Centered,
}

impl Anchor {
    /// How far the bottom-left corner of a sprite lies from its position, in
    /// halves of the sprite's width and height.
    pub fn offset_in_halves(&self) -> (r: (i8, i8))
        ensures
            *self == Anchor::BotLeft ==> r == (0i8, 0i8),
            *self == Anchor::BotRight ==> r == (-2i8, 0i8),
            *self == Anchor::TopLeft ==> r == (0i8, -2i8),
            *self == Anchor::TopRight ==> r == (-2i8, -2i8),
            *self == Anchor::Centered ==> r == (-1i8, -1i8),
    {
        match self {
            Anchor::BotLeft => (0, 0),
            Anchor::BotRight => (-2, 0),
            Anchor::TopLeft => (0, -2),
            Anchor::TopRight => (-2, -2),
            Anchor::Centered => (-1, -1),
        }
    }
}

/// The card a lobby slot shows.
#[derive(PartialEq, Eq, Structural, Clone, Copy, Debug)]
pub enum LobbyCard {
    /// No player in this slot.
    Gray,
    /// Another player, not ready.
    Joined,
    /// This client's player, not ready.
    JoinedMe,
    /// Another player, ready.
    Ready,
    /// This client's player, ready.
    ReadyMe,
}

/// The card of lobby slot `slot` when `player_count` players have joined,
/// the player in the slot is ready or not, and this client is in slot `me`.
pub fn lobby_card(slot: usize, player_count: usize, slot_ready: bool, me: usize) -> (r: LobbyCard)
    ensures
        slot >= player_count ==> r == LobbyCard::Gray,
        slot < player_count && slot_ready ==> r == (if slot == me {
            LobbyCard::ReadyMe
        } else {
            LobbyCard::Ready
        }),
        slot < player_count && !slot_ready ==> r == (if slot == me {
            LobbyCard::JoinedMe
        } else {
            LobbyCard::Joined
        }),
{
    if slot >= player_count {
        LobbyCard::Gray
    } else if slot_ready {
        if me == slot {
            LobbyCard::ReadyMe
        } else {
            LobbyCard::Ready
        }
    } else {
        if me == slot {
            LobbyCard::JoinedMe
        } else {
            LobbyCard::Joined
        }
    }
}

/// The health bar the client shows for its own player.
#[derive(PartialEq, Eq, Structural, Clone, Copy, Debug)]
pub enum HealthBar {
    Full,
    Half,
    Empty,
}

/// Full at two hit points, half at one, empty otherwise or once dead.
pub fn health_bar(client_alive: bool, health: u8) -> (r: HealthBar)
    ensures
        client_alive && health == 2 ==> r == HealthBar::Full,
        client_alive && health == 1 ==> r == HealthBar::Half,
        !(client_alive && (health == 1 || health == 2)) ==> r == HealthBar::Empty,
{
    if client_alive && health == 2 {
        HealthBar::Full
    } else if client_alive && health == 1 {
        HealthBar::Half
    } else {
        HealthBar::Empty
    }
}

/// Whether a kill of player `victim` by player `killer` has a message to
/// show: there is one for every pair of different players of the four.
pub fn has_death_message(killer: usize, victim: usize) -> (r: bool)
    requires
        killer < 4,
        victim < 4,
    ensures
        r == (killer != victim),
{
    killer != victim
}

} // verus!
