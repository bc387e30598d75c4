//! The game's value types: the dice pool, the spellbook with its
//! consumed-set, the board of four spell slots, and the aggregate state,
//! together with the mathematical model that all contracts speak of.

use vstd::prelude::*;

use crate::bits::ConsumedSet;
use crate::bits::consumed_bits;
use crate::dice::Die;
use crate::spells::Spell1Kind;
use crate::spells::Spell2Kind;
use crate::spells::SpellRef;

verus! {

/// One board position: an optional prepared spell, identified by the face
/// that prepared it, and a remaining-uses counter.
#[derive(Clone, Copy, Debug, PartialEq, Eq)]
pub struct SpellSlot {
    pub spell: Option<Die>,
    pub uses: u8,
}

/// The fixed sequence of six spells, indexed by die face, plus the set of
/// face indices whose spells have been permanently used up.
#[derive(Clone, Copy)]
pub struct Spellbook {
    pub spells: [SpellRef; 6],
    pub consumed: ConsumedSet,
}

/// A snapshot of the whole game: dice counts per face, the spellbook, the
/// four board slots, and the enemy's remaining health.
#[derive(Clone, Copy)]
pub struct GameState {
    pub dice: [u64; 6],
    pub spellbook: Spellbook,
    pub board: [SpellSlot; 4],
    pub enemy_hp: u8,
}

/// The mathematical model of a game state: the dice pool as a sequence of
/// counts indexed by face index, the spell of each face, the set of consumed
/// face indices, the board slots, and the enemy health.
#[verifier::ext_equal]
pub struct StateModel {
    pub dice: Seq<u64>,
    pub spells: Seq<SpellRef>,
    pub consumed: Set<int>,
    pub board: Seq<SpellSlot>,
    pub enemy_hp: u8,
}

impl View for GameState {
    type V = StateModel;

    open spec fn view(&self) -> StateModel {
        StateModel {
            dice: self.dice@,
            spells: self.spellbook.spells@,
            consumed: consumed_bits(self.spellbook.consumed),
            board: self.board@,
            enemy_hp: self.enemy_hp,
        }
    }
}

impl StateModel {
    /// The fixed shape every reachable state has: six dice counts, six
    /// spells, four board slots.
    pub open spec fn wf(self) -> bool {
        &&& self.dice.len() == 6
        &&& self.spells.len() == 6
        &&& self.board.len() == 4
    }

    /// The model after one die of the given face left the pool.
    pub open spec fn remove_die(self, die: Die) -> StateModel {
        StateModel {
            dice: self.dice.update(die@ - 1, (self.dice[die@ - 1] - 1) as u64),
            ..self
        }
    }

    /// The model after `n` dice of the face at `idx` joined the pool; the
    /// count saturates at the machine ceiling.
    pub open spec fn add_dice(self, idx: int, n: u64) -> StateModel {
        StateModel { dice: self.dice.update(idx, bump_count(self.dice[idx], n)), ..self }
    }
}

/// A dice count raised by `n`, saturating at the machine ceiling.
pub open spec fn bump_count(c: u64, n: u64) -> u64 {
    if c + n <= u64::MAX {
        (c + n) as u64
    } else {
        u64::MAX
    }
}

/// Raises a dice count by `n`, saturating at the machine ceiling.
pub fn bump(c: u64, n: u64) -> (r: u64)
    ensures
        r == bump_count(c, n),
{
    if c <= u64::MAX - n {
        c + n
    } else {
        u64::MAX
    }
}

impl GameState {
    /// Removes one die of the given face from the pool; everything else is
    /// kept.
    pub fn use_die(&self, die: Die) -> (r: GameState)
        requires
            self@.dice[die@ - 1] > 0,
        ensures
            r@ == self@.remove_die(die),
    {
        let idx = die.as_index();
        let mut dice = self.dice;
        dice[idx] = dice[idx] - 1;
        let r = GameState {
            dice,
            spellbook: self.spellbook,
            board: self.board,
            enemy_hp: self.enemy_hp,
        };
        proof {
            assert(r@ =~= self@.remove_die(die));
        }
        r
    }
}

impl Spellbook {
    /// Marks the given face's spell permanently used up; `None` if its bit
    /// was already set.
    pub fn consume(&self, die: Die) -> (r: Option<Spellbook>)
        ensures
            r is Some <==> !consumed_bits(self.consumed).contains(die@ - 1),
            r matches Some(b) ==> b.spells == self.spells && consumed_bits(b.consumed)
                == consumed_bits(self.consumed).insert(die@ - 1),
    {
        let idx = die.as_index();
        if self.consumed.contains(idx) {
            return None;
        }
        Some(Spellbook { spells: self.spells, consumed: self.consumed.insert(idx) })
    }
}

/// An empty board position.
pub open spec fn empty_slot() -> SpellSlot {
    SpellSlot { spell: None, uses: 0 }
}

/// The fixed spellbook: three scythes, a vise grip, a chisel and a doppel,
/// in face order.
pub open spec fn initial_spells() -> Seq<SpellRef> {
    seq![
        SpellRef::Spell1(Spell1Kind::HarvestScythe),
        SpellRef::Spell2(Spell2Kind::ViseGrip),
        SpellRef::Spell1(Spell1Kind::HarvestScythe),
        SpellRef::Spell1(Spell1Kind::Chisel),
        SpellRef::Spell1(Spell1Kind::HarvestScythe),
        SpellRef::Spell1(Spell1Kind::DoppelTwice),
    ]
}

/// The model of the starting position: one die of each face, the fixed
/// spellbook with nothing consumed, an empty board, enemy health 105.
pub open spec fn initial_model() -> StateModel {
    StateModel {
        dice: seq![1u64, 1u64, 1u64, 1u64, 1u64, 1u64],
        spells: initial_spells(),
        consumed: Set::empty(),
        board: seq![empty_slot(), empty_slot(), empty_slot(), empty_slot()],
        enemy_hp: 105,
    }
}

/// Builds the starting position.
pub fn initial_state() -> (r: GameState)
    ensures
        r@ == initial_model(),
{
    let spells = [
        SpellRef::Spell1(Spell1Kind::HarvestScythe),
        SpellRef::Spell2(Spell2Kind::ViseGrip),
        SpellRef::Spell1(Spell1Kind::HarvestScythe),
        SpellRef::Spell1(Spell1Kind::Chisel),
        SpellRef::Spell1(Spell1Kind::HarvestScythe),
        SpellRef::Spell1(Spell1Kind::DoppelTwice),
    ];
    let slot = SpellSlot { spell: None, uses: 0 };
    let r = GameState {
        dice: [1u64, 1u64, 1u64, 1u64, 1u64, 1u64],
        spellbook: Spellbook { spells, consumed: ConsumedSet::none() },
        board: [slot, slot, slot, slot],
        enemy_hp: 105,
    };
    proof {
        assert(r@ =~= initial_model());
    }
    r
}

} // verus!
