//! The integer and flag components that server and clients exchange, and the
//! game's tuning constants.
use vstd::prelude::*;

verus! {

/// Server tick length in milliseconds.
pub const TICK_SPEED: u64 = 16;

/// Players needed before a game can start.
pub const MIN_PLAYERS: usize = 2;

/// Rounds in a full magazine.
pub const AMMO_COUNT: u8 = 6;

/// Health a player starts a game with.
pub const START_HEALTH: u8 = 2;

/// Ticks a weapon needs between two shots.
pub const FIRE_COOLDOWN: i16 = 30;

/// Ticks a reload takes.
pub const RELOAD_COOLDOWN: i16 = 180;

/// A player's weapon: ticks until it can act again, rounds left, and whether
/// the wait is a reload.
#[derive(PartialEq, Eq, Structural, Clone, Copy, Debug)]
pub struct PlayerWeaponComponent {
    pub cooldown: i16,
    pub ammo: u8,
    pub reloading: bool,
}

impl PlayerWeaponComponent {
    /// A ready weapon with a full magazine.
    pub fn default() -> (r: PlayerWeaponComponent)
        ensures
            r == (PlayerWeaponComponent { cooldown: 0, ammo: AMMO_COUNT, reloading: false }),
    {
        PlayerWeaponComponent { cooldown: 0, ammo: AMMO_COUNT, reloading: false }
    }
}

/// A player's health: whether the player is still in the game, hits left,
/// and hits landed on others.
#[derive(PartialEq, Eq, Structural, Clone, Copy, Debug)]
pub struct PlayerHealthComponent {
    pub alive: bool,
    pub health: u8,
    pub hits: u8,
}

impl PlayerHealthComponent {
    /// A player at full health who has hit no one.
    pub fn default() -> (r: PlayerHealthComponent)
        ensures
            r == (PlayerHealthComponent { alive: true, health: START_HEALTH, hits: 0 }),
    {
        PlayerHealthComponent { alive: true, health: START_HEALTH, hits: 0 }
    }
}

/// A client's message in the lobby: whether its player is ready.
#[derive(PartialEq, Eq, Structural, Clone, Copy, Debug)]
pub struct ReadyECS {
    pub ready: bool,
}

/// The buttons of a client's input message (its camera orientation travels
/// beside them).
#[derive(PartialEq, Eq, Structural, Clone, Copy, Debug)]
pub struct InputButtons {
    pub lmb_clicked: bool,
    pub rmb_clicked: bool,
    pub w_pressed: bool,
    pub a_pressed: bool,
    pub s_pressed: bool,
    pub d_pressed: bool,
    pub r_pressed: bool,
    pub shift_pressed: bool,
    pub ctrl_pressed: bool,
    pub enter_pressed: bool,
    pub reset_pressed: bool,
}

/// No button pressed.
pub open spec fn no_buttons() -> InputButtons {
    InputButtons {
        lmb_clicked: false,
        rmb_clicked: false,
        w_pressed: false,
        a_pressed: false,
        s_pressed: false,
        d_pressed: false,
        r_pressed: false,
        shift_pressed: false,
        ctrl_pressed: false,
        enter_pressed: false,
        reset_pressed: false,
    }
}

impl InputButtons {
    /// No button pressed.
    pub fn default() -> (r: InputButtons)
        ensures
            r == no_buttons(),
    {
        InputButtons {
            lmb_clicked: false,
            rmb_clicked: false,
            w_pressed: false,
            a_pressed: false,
            s_pressed: false,
            d_pressed: false,
            r_pressed: false,
            shift_pressed: false,
            ctrl_pressed: false,
            enter_pressed: false,
            reset_pressed: false,
        }
    }
}

/// `curr` after `value` arrived in the same tick: the action and movement
/// buttons pressed in either; enter and reset as in `curr`.
pub open spec fn combined(curr: InputButtons, value: InputButtons) -> InputButtons {
    InputButtons {
        lmb_clicked: curr.lmb_clicked || value.lmb_clicked,
        rmb_clicked: curr.rmb_clicked || value.rmb_clicked,
        w_pressed: curr.w_pressed || value.w_pressed,
        a_pressed: curr.a_pressed || value.a_pressed,
        s_pressed: curr.s_pressed || value.s_pressed,
        d_pressed: curr.d_pressed || value.d_pressed,
        r_pressed: curr.r_pressed || value.r_pressed,
        shift_pressed: curr.shift_pressed || value.shift_pressed,
        ctrl_pressed: curr.ctrl_pressed || value.ctrl_pressed,
        enter_pressed: curr.enter_pressed,
        reset_pressed: curr.reset_pressed,
    }
}

/// Merges an input message into the ones already received this tick.
pub fn combine_input(curr: &mut InputButtons, value: InputButtons)
    ensures
        *final(curr) == combined(*old(curr), value),
{
    curr.lmb_clicked = curr.lmb_clicked || value.lmb_clicked;
    curr.rmb_clicked = curr.rmb_clicked || value.rmb_clicked;
    curr.w_pressed = curr.w_pressed || value.w_pressed;
    curr.a_pressed = curr.a_pressed || value.a_pressed;
    curr.s_pressed = curr.s_pressed || value.s_pressed;
    curr.d_pressed = curr.d_pressed || value.d_pressed;
    curr.shift_pressed = curr.shift_pressed || value.shift_pressed;
    curr.ctrl_pressed = curr.ctrl_pressed || value.ctrl_pressed;
    curr.r_pressed = curr.r_pressed || value.r_pressed;
}

/// The messages of one tick merged, from no buttons, in arrival order.
pub open spec fn merge_all(inputs: Seq<InputButtons>) -> InputButtons
    decreases inputs.len(),
{
    if inputs.len() == 0 {
        no_buttons()
    } else {
        combined(merge_all(inputs.drop_last()), inputs.last())
    }
}

/// Whether some message of the tick has `pressed` set.
pub open spec fn some_message(inputs: Seq<InputButtons>, pressed: spec_fn(InputButtons) -> bool) -> bool {
    exists|k: int| 0 <= k < inputs.len() && #[trigger] pressed(inputs[k])
}

/// The buttons a player holds for this tick: the messages that arrived merged,
/// or, when none arrived, the previous buttons with the one-shot fire and
/// reload presses dropped.
pub fn aggregate_inputs(previous: InputButtons, received: &Vec<InputButtons>) -> (r: InputButtons)
    ensures
        received@.len() == 0 ==> r == (InputButtons {
            lmb_clicked: false,
            r_pressed: false,
            ..previous
        }),
        received@.len() > 0 ==> r == merge_all(received@),
{
    if received.len() == 0 {
        let mut r = previous;
        r.lmb_clicked = false;
        r.r_pressed = false;
        r
    } else {
        let mut acc = InputButtons::default();
        let mut k: usize = 0;
        while k < received.len()
            invariant
                k <= received@.len(),
                acc == merge_all(received@.subrange(0, k as int)),
            decreases received@.len() - k,
        {
            let ghost before = received@.subrange(0, k as int);
            combine_input(&mut acc, received[k]);
            proof {
                let after = received@.subrange(0, k + 1);
                assert(after.drop_last() =~= before);
                assert(after.last() == received@[k as int]);
            }
            k += 1;
        }
        assert(received@.subrange(0, received@.len() as int) =~= received@);
        acc
    }
}

/// Merging the messages of a tick presses an action or movement button
/// exactly when some message pressed it, whatever their order; enter and
/// reset never come through.
pub proof fn law_merge_is_any_pressed(inputs: Seq<InputButtons>)
    ensures
        merge_all(inputs).lmb_clicked == some_message(inputs, |i: InputButtons| i.lmb_clicked),
        merge_all(inputs).rmb_clicked == some_message(inputs, |i: InputButtons| i.rmb_clicked),
        merge_all(inputs).w_pressed == some_message(inputs, |i: InputButtons| i.w_pressed),
        merge_all(inputs).a_pressed == some_message(inputs, |i: InputButtons| i.a_pressed),
        merge_all(inputs).s_pressed == some_message(inputs, |i: InputButtons| i.s_pressed),
        merge_all(inputs).d_pressed == some_message(inputs, |i: InputButtons| i.d_pressed),
        merge_all(inputs).r_pressed == some_message(inputs, |i: InputButtons| i.r_pressed),
        merge_all(inputs).shift_pressed == some_message(inputs, |i: InputButtons| i.shift_pressed),
        merge_all(inputs).ctrl_pressed == some_message(inputs, |i: InputButtons| i.ctrl_pressed),
        !merge_all(inputs).enter_pressed,
        !merge_all(inputs).reset_pressed,
    decreases inputs.len(),
{
    if inputs.len() > 0 {
        let front = inputs.drop_last();
        law_merge_is_any_pressed(front);
        lemma_some_message_split(inputs, |i: InputButtons| i.lmb_clicked);
        lemma_some_message_split(inputs, |i: InputButtons| i.rmb_clicked);
        lemma_some_message_split(inputs, |i: InputButtons| i.w_pressed);
        lemma_some_message_split(inputs, |i: InputButtons| i.a_pressed);
        lemma_some_message_split(inputs, |i: InputButtons| i.s_pressed);
        lemma_some_message_split(inputs, |i: InputButtons| i.d_pressed);
        lemma_some_message_split(inputs, |i: InputButtons| i.r_pressed);
        lemma_some_message_split(inputs, |i: InputButtons| i.shift_pressed);
        lemma_some_message_split(inputs, |i: InputButtons| i.ctrl_pressed);
    }
}

proof fn lemma_some_message_split(inputs: Seq<InputButtons>, pressed: spec_fn(InputButtons) -> bool)
    requires
        inputs.len() > 0,
    ensures
        some_message(inputs, pressed) == (some_message(inputs.drop_last(), pressed) || pressed(
            inputs.last(),
        )),
{
    let front = inputs.drop_last();
    if some_message(inputs, pressed) {
        let k = choose|k: int| 0 <= k < inputs.len() && #[trigger] pressed(inputs[k]);
        if k < inputs.len() - 1 {
            assert(front[k] == inputs[k]);
        }
    }
    if some_message(front, pressed) {
        let k = choose|k: int| 0 <= k < front.len() && #[trigger] pressed(front[k]);
        assert(front[k] == inputs[k]);
    }
    if pressed(inputs.last()) {
        assert(inputs[inputs.len() - 1] == inputs.last());
    }
}

} // verus!
