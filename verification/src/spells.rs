//! The spell effect library: the four concrete spells, the capability traits
//! they implement, and the tagged references the spellbook stores.
//!
//! A cast operates on a state from which the casting cost (the spent dice
//! and the slot use) has already been deducted by the caller; it only checks
//! its own usability precondition.

use vstd::prelude::*;

use crate::dice::Die;
use crate::state::GameState;
use crate::state::StateModel;
use crate::state::bump;

verus! {

/// The single-die spells.
#[derive(Clone, Copy, Debug, PartialEq, Eq, Structural)]
pub enum Spell1Kind {
    HarvestScythe,
    Chisel,
    DoppelTwice,
}

/// The double-die spells.
#[derive(Clone, Copy, Debug, PartialEq, Eq, Structural)]
pub enum Spell2Kind {
    ViseGrip,
}

/// A spell as the spellbook stores it: a tag for its arity and its kind.
#[derive(Clone, Copy, Debug, PartialEq, Eq, Structural)]
pub enum SpellRef {
    Spell1(Spell1Kind),
    Spell2(Spell2Kind),
}

/// What every spell has: a name and an initial use count for a slot it is
/// prepared into.
pub trait BaseSpell {
    /// The use count a slot starts with when this spell is prepared.
    spec fn spec_initial_uses(&self) -> u8;

    /// The spell's name, as a sequence of characters.
    spec fn spec_name(&self) -> Seq<char>;

    fn name(&self) -> (r: &'static str)
        ensures
            r@ == self.spec_name(),
    ;

    fn initial_uses(&self) -> (r: u8)
        ensures
            r == self.spec_initial_uses(),
    ;
}

/// A spell that consumes one die.
pub trait Spell1: BaseSpell {
    /// The usability precondition of the spell.
    spec fn spec_can_cast(&self, s: StateModel, die: Die) -> bool;

    /// The state the cast produces, given a state from which the casting
    /// cost is already deducted.
    spec fn spec_cast(&self, s: StateModel, die: Die) -> StateModel;

    fn can_cast(&self, state: &GameState, die: Die) -> (r: bool)
        ensures
            r == self.spec_can_cast(state@, die),
    ;

    fn cast_spell(&self, state: &GameState, die: Die) -> (r: GameState)
        requires
            self.spec_can_cast(state@, die),
        ensures
            r@ == self.spec_cast(state@, die),
    ;
}

/// A spell that consumes two dice.
pub trait Spell2: BaseSpell {
    /// The usability precondition of the spell.
    spec fn spec_can_cast(&self, s: StateModel, d1: Die, d2: Die) -> bool;

    /// The state the cast produces, given a state from which the casting
    /// cost is already deducted.
    spec fn spec_cast(&self, s: StateModel, d1: Die, d2: Die) -> StateModel;

    fn can_cast(&self, state: &GameState, d1: Die, d2: Die) -> (r: bool)
        ensures
            r == self.spec_can_cast(state@, d1, d2),
    ;

    fn cast_spell(&self, state: &GameState, d1: Die, d2: Die) -> (r: GameState)
        requires
            self.spec_can_cast(state@, d1, d2),
        ensures
            r@ == self.spec_cast(state@, d1, d2),
    ;
}

/// Enemy health after a scythe hit with the given die: five damage per pip,
/// saturating at zero.
pub open spec fn scythe_hp(hp: u8, die: Die) -> u8 {
    if hp >= 5 * die@ {
        (hp - 5 * die@) as u8
    } else {
        0
    }
}

/// Damages the enemy by five times the die's pips and permanently consumes
/// the spellbook bit of the cast die's face.
pub struct HarvestScythe;

impl BaseSpell for HarvestScythe {
    open spec fn spec_initial_uses(&self) -> u8 {
        1
    }

    open spec fn spec_name(&self) -> Seq<char> {
        "Harvest Scythe"@
    }

    fn name(&self) -> (r: &'static str) {
        "Harvest Scythe"
    }

    fn initial_uses(&self) -> (r: u8) {
        1
    }
}

impl Spell1 for HarvestScythe {
    open spec fn spec_can_cast(&self, s: StateModel, die: Die) -> bool {
        !s.consumed.contains(die@ - 1)
    }

    open spec fn spec_cast(&self, s: StateModel, die: Die) -> StateModel {
        StateModel {
            consumed: s.consumed.insert(die@ - 1),
            enemy_hp: scythe_hp(s.enemy_hp, die),
            ..s
        }
    }

    fn can_cast(&self, state: &GameState, die: Die) -> (r: bool) {
        let idx = die.as_index();
        !state.spellbook.consumed.contains(idx)
    }

    fn cast_spell(&self, state: &GameState, die: Die) -> (r: GameState) {
        let dmg: u8 = 5 * die.pips();
        let hp = if state.enemy_hp >= dmg {
            state.enemy_hp - dmg
        } else {
            0
        };
        let book = state.spellbook.consume(die).unwrap();
        let r = GameState {
            dice: state.dice,
            spellbook: book,
            board: state.board,
            enemy_hp: hp,
        };
        proof {
            assert(r@ =~= self.spec_cast(state@, die));
        }
        r
    }
}

/// Turns a mismatched pair into dice: adds three dice of the face equal to
/// the pips difference; with equal dice it is a legal no-op.
pub struct ViseGrip;

impl BaseSpell for ViseGrip {
    open spec fn spec_initial_uses(&self) -> u8 {
        1
    }

    open spec fn spec_name(&self) -> Seq<char> {
        "Vise Grip"@
    }

    fn name(&self) -> (r: &'static str) {
        "Vise Grip"
    }

    fn initial_uses(&self) -> (r: u8) {
        1
    }
}

impl Spell2 for ViseGrip {
    open spec fn spec_can_cast(&self, s: StateModel, d1: Die, d2: Die) -> bool {
        true
    }

    open spec fn spec_cast(&self, s: StateModel, d1: Die, d2: Die) -> StateModel {
        if d1@ == d2@ {
            s
        } else {
            let diff = if d1@ > d2@ {
                d1@ - d2@
            } else {
                d2@ - d1@
            };
            s.add_dice(diff - 1, 3)
        }
    }

    fn can_cast(&self, state: &GameState, d1: Die, d2: Die) -> (r: bool) {
        true
    }

    fn cast_spell(&self, state: &GameState, d1: Die, d2: Die) -> (r: GameState) {
        let p1 = d1.pips();
        let p2 = d2.pips();
        if p1 == p2 {
            return *state;
        }
        let diff = if p1 > p2 {
            p1 - p2
        } else {
            p2 - p1
        };
        let idx = (diff - 1) as usize;
        let mut dice = state.dice;
        dice[idx] = bump(dice[idx], 3);
        let r = GameState {
            dice,
            spellbook: state.spellbook,
            board: state.board,
            enemy_hp: state.enemy_hp,
        };
        proof {
            assert(r@ =~= self.spec_cast(state@, d1, d2));
        }
        r
    }
}

/// Splits a die: adds one die one pip below the cast die and one die of face
/// one; usable only on dice with more than one pip.
pub struct Chisel;

impl BaseSpell for Chisel {
    open spec fn spec_initial_uses(&self) -> u8 {
        2
    }

    open spec fn spec_name(&self) -> Seq<char> {
        "Chisel"@
    }

    fn name(&self) -> (r: &'static str) {
        "Chisel"
    }

    fn initial_uses(&self) -> (r: u8) {
        2
    }
}

impl Spell1 for Chisel {
    open spec fn spec_can_cast(&self, s: StateModel, die: Die) -> bool {
        die@ > 1
    }

    open spec fn spec_cast(&self, s: StateModel, die: Die) -> StateModel {
        s.add_dice(die@ - 2, 1).add_dice(0, 1)
    }

    fn can_cast(&self, state: &GameState, die: Die) -> (r: bool) {
        die.pips() > 1
    }

    fn cast_spell(&self, state: &GameState, die: Die) -> (r: GameState) {
        let idx = die.as_index() - 1;
        let mut dice = state.dice;
        dice[idx] = bump(dice[idx], 1);
        dice[0] = bump(dice[0], 1);
        let r = GameState {
            dice,
            spellbook: state.spellbook,
            board: state.board,
            enemy_hp: state.enemy_hp,
        };
        proof {
            assert(r@ =~= self.spec_cast(state@, die));
        }
        r
    }
}

/// Doubles the die's pips and credits the result to the pool; a doubled
/// value above six wraps by subtracting six and the wrapped face is credited
/// twice. Usable only on dice with at most five pips.
pub struct DoppelTwice;

impl BaseSpell for DoppelTwice {
    open spec fn spec_initial_uses(&self) -> u8 {
        2
    }

    open spec fn spec_name(&self) -> Seq<char> {
        "DoppelTwice"@
    }

    fn name(&self) -> (r: &'static str) {
        "DoppelTwice"
    }

    fn initial_uses(&self) -> (r: u8) {
        2
    }
}

impl Spell1 for DoppelTwice {
    open spec fn spec_can_cast(&self, s: StateModel, die: Die) -> bool {
        die@ <= 5
    }

    open spec fn spec_cast(&self, s: StateModel, die: Die) -> StateModel {
        let dbl = 2 * die@;
        if dbl > 6 {
            s.add_dice(dbl - 7, 1).add_dice(dbl - 7, 1)
        } else {
            s.add_dice(dbl - 1, 1)
        }
    }

    fn can_cast(&self, state: &GameState, die: Die) -> (r: bool) {
        die.pips() <= 5
    }

    fn cast_spell(&self, state: &GameState, die: Die) -> (r: GameState) {
        let mut dice = state.dice;
        let mut double = 2 * die.pips();
        if double > 6 {
            let idx = (double - 7) as usize;
            dice[idx] = bump(dice[idx], 1);
            double = double - 6;
        }
        let idx2 = (double - 1) as usize;
        dice[idx2] = bump(dice[idx2], 1);
        let r = GameState {
            dice,
            spellbook: state.spellbook,
            board: state.board,
            enemy_hp: state.enemy_hp,
        };
        proof {
            assert(r@ =~= self.spec_cast(state@, die));
        }
        r
    }
}

/// The usability of a single-die spell of the given kind.
pub open spec fn spell1_can_cast_spec(k: Spell1Kind, s: StateModel, die: Die) -> bool {
    match k {
        Spell1Kind::HarvestScythe => HarvestScythe.spec_can_cast(s, die),
        Spell1Kind::Chisel => Chisel.spec_can_cast(s, die),
        Spell1Kind::DoppelTwice => DoppelTwice.spec_can_cast(s, die),
    }
}

/// The state a single-die spell of the given kind produces.
pub open spec fn spell1_cast_spec(k: Spell1Kind, s: StateModel, die: Die) -> StateModel {
    match k {
        Spell1Kind::HarvestScythe => HarvestScythe.spec_cast(s, die),
        Spell1Kind::Chisel => Chisel.spec_cast(s, die),
        Spell1Kind::DoppelTwice => DoppelTwice.spec_cast(s, die),
    }
}

/// The usability of a double-die spell of the given kind.
pub open spec fn spell2_can_cast_spec(k: Spell2Kind, s: StateModel, d1: Die, d2: Die) -> bool {
    match k {
        Spell2Kind::ViseGrip => ViseGrip.spec_can_cast(s, d1, d2),
    }
}

/// The state a double-die spell of the given kind produces.
pub open spec fn spell2_cast_spec(k: Spell2Kind, s: StateModel, d1: Die, d2: Die) -> StateModel {
    match k {
        Spell2Kind::ViseGrip => ViseGrip.spec_cast(s, d1, d2),
    }
}

/// The name of the spell a reference names.
pub open spec fn spell_name_spec(r: SpellRef) -> Seq<char> {
    match r {
        SpellRef::Spell1(Spell1Kind::HarvestScythe) => HarvestScythe.spec_name(),
        SpellRef::Spell1(Spell1Kind::Chisel) => Chisel.spec_name(),
        SpellRef::Spell1(Spell1Kind::DoppelTwice) => DoppelTwice.spec_name(),
        SpellRef::Spell2(Spell2Kind::ViseGrip) => ViseGrip.spec_name(),
    }
}

/// The initial use count of the spell a reference names.
pub open spec fn spell_initial_uses_spec(r: SpellRef) -> u8 {
    match r {
        SpellRef::Spell1(Spell1Kind::HarvestScythe) => HarvestScythe.spec_initial_uses(),
        SpellRef::Spell1(Spell1Kind::Chisel) => Chisel.spec_initial_uses(),
        SpellRef::Spell1(Spell1Kind::DoppelTwice) => DoppelTwice.spec_initial_uses(),
        SpellRef::Spell2(Spell2Kind::ViseGrip) => ViseGrip.spec_initial_uses(),
    }
}

/// Runs the usability test of a single-die spell kind.
pub fn spell1_can_cast(k: Spell1Kind, state: &GameState, die: Die) -> (r: bool)
    ensures
        r == spell1_can_cast_spec(k, state@, die),
{
    match k {
        Spell1Kind::HarvestScythe => HarvestScythe.can_cast(state, die),
        Spell1Kind::Chisel => Chisel.can_cast(state, die),
        Spell1Kind::DoppelTwice => DoppelTwice.can_cast(state, die),
    }
}

/// Casts a single-die spell kind on a state whose casting cost is already
/// deducted.
pub fn spell1_cast(k: Spell1Kind, state: &GameState, die: Die) -> (r: GameState)
    requires
        spell1_can_cast_spec(k, state@, die),
    ensures
        r@ == spell1_cast_spec(k, state@, die),
{
    match k {
        Spell1Kind::HarvestScythe => HarvestScythe.cast_spell(state, die),
        Spell1Kind::Chisel => Chisel.cast_spell(state, die),
        Spell1Kind::DoppelTwice => DoppelTwice.cast_spell(state, die),
    }
}

/// Runs the usability test of a double-die spell kind.
pub fn spell2_can_cast(k: Spell2Kind, state: &GameState, d1: Die, d2: Die) -> (r: bool)
    ensures
        r == spell2_can_cast_spec(k, state@, d1, d2),
{
    match k {
        Spell2Kind::ViseGrip => ViseGrip.can_cast(state, d1, d2),
    }
}

/// Casts a double-die spell kind on a state whose casting cost is already
/// deducted.
pub fn spell2_cast(k: Spell2Kind, state: &GameState, d1: Die, d2: Die) -> (r: GameState)
    requires
        spell2_can_cast_spec(k, state@, d1, d2),
    ensures
        r@ == spell2_cast_spec(k, state@, d1, d2),
{
    match k {
        Spell2Kind::ViseGrip => ViseGrip.cast_spell(state, d1, d2),
    }
}

impl SpellRef {
    /// The name of the spell this reference names.
    pub fn spell_name(&self) -> (r: &'static str)
        ensures
            r@ == spell_name_spec(*self),
    {
        match *self {
            SpellRef::Spell1(Spell1Kind::HarvestScythe) => HarvestScythe.name(),
            SpellRef::Spell1(Spell1Kind::Chisel) => Chisel.name(),
            SpellRef::Spell1(Spell1Kind::DoppelTwice) => DoppelTwice.name(),
            SpellRef::Spell2(Spell2Kind::ViseGrip) => ViseGrip.name(),
        }
    }

    /// The initial use count of the spell this reference names.
    pub fn initial_uses(&self) -> (r: u8)
        ensures
            r == spell_initial_uses_spec(*self),
    {
        match *self {
            SpellRef::Spell1(Spell1Kind::HarvestScythe) => HarvestScythe.initial_uses(),
            SpellRef::Spell1(Spell1Kind::Chisel) => Chisel.initial_uses(),
            SpellRef::Spell1(Spell1Kind::DoppelTwice) => DoppelTwice.initial_uses(),
            SpellRef::Spell2(Spell2Kind::ViseGrip) => ViseGrip.initial_uses(),
        }
    }
}

/// Casting Vise Grip with two equal dice leaves the state unchanged: the
/// pool, board, spellbook and health are exactly those of the input.
pub proof fn lemma_vise_grip_equal_dice(s: StateModel, d1: Die, d2: Die)
    requires
        d1@ == d2@,
    ensures
        ViseGrip.spec_cast(s, d1, d2) == s,
{
}

/// A scythe cast marks the cast die's face consumed in the spellbook, as
/// its own effect.
pub proof fn lemma_scythe_marks_face(s: StateModel, die: Die)
    ensures
        HarvestScythe.spec_cast(s, die).consumed.contains(die@ - 1),
{
}

/// A doubled four wraps: eight exceeds six, so the wrapped face two is
/// credited twice, and nothing else in the state changes. The count bound
/// keeps the credit below the ceiling at which counts saturate.
pub proof fn lemma_doppel_wrap_credits_twice(s: StateModel, die: Die)
    requires
        s.wf(),
        die@ == 4,
        s.dice[1] + 2 <= u64::MAX,
    ensures
        ({
            let r = DoppelTwice.spec_cast(s, die);
            &&& r.dice[1] == s.dice[1] + 2
            &&& forall|i: int| 0 <= i < 6 && i != 1 ==> r.dice[i] == s.dice[i]
            &&& r.board == s.board
            &&& r.spells == s.spells
            &&& r.consumed == s.consumed
            &&& r.enemy_hp == s.enemy_hp
        }),
{
}

/// A doubled three does not wrap: exactly one die is credited at face six,
/// and nothing else in the state changes. The count bound keeps the credit
/// below the ceiling at which counts saturate.
pub proof fn lemma_doppel_no_wrap_credits_once(s: StateModel, die: Die)
    requires
        s.wf(),
        die@ == 3,
        s.dice[5] + 1 <= u64::MAX,
    ensures
        ({
            let r = DoppelTwice.spec_cast(s, die);
            &&& r.dice[5] == s.dice[5] + 1
            &&& forall|i: int| 0 <= i < 6 && i != 5 ==> r.dice[i] == s.dice[i]
            &&& r.board == s.board
            &&& r.spells == s.spells
            &&& r.consumed == s.consumed
            &&& r.enemy_hp == s.enemy_hp
        }),
{
}

} // verus!
