//! Aiming: charging the hurl while the button is held, aiming with the
//! pointer, and firing on release.
use vstd::prelude::*;
use crate::constants::STONE_HURL_POWERUP_TIME;
use crate::fixed::ONE;
use crate::game::HurlStone;

verus! {

/// Charge held below this many milliseconds does not fire on release.
pub const MIN_HURL_CHARGE: u64 = 900;

/// Charge and aim while the player prepares a hurl.
#[derive(Clone, Copy, Debug, PartialEq, Eq, Structural)]
pub struct Aiming {
    pub power_up: bool,
    /// Milliseconds charged, up to `STONE_HURL_POWERUP_TIME`.
    pub power: u64,
    /// Aim angle over `ONE`, in `[-ONE/2, ONE/2]`.
    pub angle: i64,
}

/// What the aiming display shows: charge ratio and angle, or a reset after
/// a hurl went out.
#[derive(Clone, Copy, Debug, PartialEq, Eq, Structural)]
pub struct HurlAimAndPower {
    pub power: u64,
    pub angle: i64,
    pub reset: bool,
}

/// One frame of aiming input: the modifier key, a fresh press and a release
/// of the button, the pointer's horizontal place across the window (over
/// `ONE`) if known, and the frame time in milliseconds.
#[derive(Clone, Copy, Debug, PartialEq, Eq, Structural)]
pub struct AimInput {
    pub shift: bool,
    pub pressed: bool,
    pub released: bool,
    pub cursor: Option<u64>,
    pub dt: u64,
}

/// Charge ratio over `ONE` of `power` milliseconds charged.
pub open spec fn charge_ratio(power: int) -> int {
    power * ONE / (STONE_HURL_POWERUP_TIME as int)
}

impl AimInput {
    pub open spec fn valid(&self) -> bool {
        self.cursor matches Some(c) ==> c <= ONE
    }
}

impl Aiming {
    pub open spec fn wf(&self) -> bool {
        &&& self.power <= STONE_HURL_POWERUP_TIME
        &&& -500_000 <= self.angle <= 500_000
    }

    /// The aim before anything happened.
    pub fn new() -> (a: Aiming)
        ensures
            a.wf(),
            a == (Aiming { power_up: false, power: 0, angle: 0 }),
    {
        Aiming { power_up: false, power: 0, angle: 0 }
    }

    /// The aim after a frame with `input` (ignored while the modifier is
    /// held), the display update, and the hurl fired by the frame if any.
    pub open spec fn after(self, input: AimInput) -> (Aiming, Option<HurlAimAndPower>, Option<HurlStone>) {
        if input.shift {
            (self, None, None)
        } else {
            let up = self.power_up || input.pressed;
            let angle = match input.cursor {
                Some(c) => (c - 500_000) as i64,
                None => self.angle,
            };
            let power = if up {
                if self.power + input.dt >= STONE_HURL_POWERUP_TIME {
                    STONE_HURL_POWERUP_TIME
                } else {
                    (self.power + input.dt) as u64
                }
            } else {
                self.power
            };
            let ratio = charge_ratio(power as int) as u64;
            let fired = input.released && power > MIN_HURL_CHARGE;
            let next = if input.released {
                Aiming { power_up: false, power: 0, angle }
            } else {
                Aiming { power_up: up, power, angle }
            };
            let viz = if fired {
                HurlAimAndPower { power: 0, angle: 0, reset: true }
            } else {
                HurlAimAndPower { power: ratio, angle, reset: false }
            };
            (next, Some(viz), if fired { Some(HurlStone { power: ratio, angle }) } else { None })
        }
    }

    /// Charges while the button is held, aims from the pointer, and on
    /// release fires a hurl with the charge ratio if more than
    /// `MIN_HURL_CHARGE` was charged; the charge then starts over.
    pub fn aim_and_powerup_for_hurl(&mut self, input: AimInput) -> (r: (Option<HurlAimAndPower>, Option<HurlStone>))
        requires
            old(self).wf(),
            input.valid(),
        ensures
            final(self).wf(),
            (*final(self), r.0, r.1) == old(self).after(input),
            r.1 matches Some(h) ==> h.valid(),
    {
        if input.shift {
            return (None, None);
        }
        if input.pressed {
            self.power_up = true;
        }
        match input.cursor {
            Some(c) => {
                self.angle = c as i64 - 500_000;
            },
            None => {},
        }
        if self.power_up {
            self.power = if input.dt >= STONE_HURL_POWERUP_TIME - self.power {
                STONE_HURL_POWERUP_TIME
            } else {
                self.power + input.dt
            };
        }
        assert(self.power * ONE <= STONE_HURL_POWERUP_TIME * ONE) by (nonlinear_arith)
            requires
                self.power <= STONE_HURL_POWERUP_TIME,
        ;
        proof {
            vstd::arithmetic::div_mod::lemma_div_is_ordered(
                self.power * ONE,
                STONE_HURL_POWERUP_TIME * ONE,
                STONE_HURL_POWERUP_TIME as int,
            );
            vstd::arithmetic::div_mod::lemma_div_multiples_vanish(ONE as int, STONE_HURL_POWERUP_TIME as int);
            assert(STONE_HURL_POWERUP_TIME * ONE == ONE * STONE_HURL_POWERUP_TIME);
        }
        let ratio: u64 = self.power * ONE / STONE_HURL_POWERUP_TIME;
        let angle = self.angle;
        let fired = input.released && self.power > MIN_HURL_CHARGE;
        if input.released {
            self.power_up = false;
            self.power = 0;
        }
        if fired {
            (Some(HurlAimAndPower { power: 0, angle: 0, reset: true }), Some(HurlStone { power: ratio, angle }))
        } else {
            (Some(HurlAimAndPower { power: ratio, angle, reset: false }), None)
        }
    }
}

} // verus!
