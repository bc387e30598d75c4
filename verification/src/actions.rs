//! Legal-move enumeration and deterministic move application.
//!
//! An action is one of: doing nothing, preparing a spell into the first idle
//! board slot, or casting a prepared spell with one or two dice. The
//! generator returns exactly the legal actions of a state; the transition
//! function applies one action, reporting an invariant violation as an error
//! instead of corrupting state.

use vstd::prelude::*;

use crate::dice::Die;
use crate::dice::lemma_die_eq;
use crate::spells::Spell1Kind;
use crate::spells::SpellRef;
use crate::spells::spell1_can_cast;
use crate::spells::spell1_can_cast_spec;
use crate::spells::spell1_cast;
use crate::spells::spell1_cast_spec;
use crate::spells::spell2_can_cast;
use crate::spells::spell2_can_cast_spec;
use crate::spells::spell2_cast;
use crate::spells::spell2_cast_spec;
use crate::spells::spell_initial_uses_spec;
use crate::state::GameState;
use crate::state::SpellSlot;
use crate::state::StateModel;

verus! {

/// One move: do nothing, prepare a spell, or cast with one or two dice.
#[derive(Clone, Copy, Debug, PartialEq, Eq, Structural)]
pub enum Action {
    Pass,
    Prep { spell: Die, slot: u8 },
    Cast1 { slot: u8, die: Die },
    Cast2 { slot: u8, d1: Die, d2: Die },
}

/// An invariant violation found while applying an action: the generator and
/// the transition function have diverged.
#[derive(Clone, Copy, Debug, PartialEq, Eq, Structural)]
pub enum RuleError {
    /// The slot index is outside the board.
    BadSlot,
    /// The slot's use counter is already zero.
    NoUses,
    /// The slot holds no prepared spell.
    EmptySlot,
    /// The action's arity differs from the slot's spell.
    ArityMismatch,
    /// The face's spellbook bit is already consumed.
    FaceConsumed,
    /// The pool lacks a die the action spends.
    MissingDie,
    /// The spell's usability precondition fails.
    NotUsable,
}

/// Whether the pool can pay for a pair of dice: two of one face, or one of
/// each of two faces.
pub open spec fn pair_available(s: StateModel, d1: Die, d2: Die) -> bool {
    if d1@ == d2@ {
        s.dice[d1@ - 1] >= 2
    } else {
        s.dice[d1@ - 1] >= 1 && s.dice[d2@ - 1] >= 1
    }
}

/// The slot checks shared by both cast arities: a board slot with remaining
/// uses that holds a prepared spell, whose face it yields.
pub open spec fn check_cast_slot(s: StateModel, slot: u8) -> Result<Die, RuleError> {
    if slot >= 4 {
        Err(RuleError::BadSlot)
    } else if s.board[slot as int].uses == 0 {
        Err(RuleError::NoUses)
    } else {
        match s.board[slot as int].spell {
            None => Err(RuleError::EmptySlot),
            Some(face) => Ok(face),
        }
    }
}

/// The transition function's acceptance test: `Ok` when the action can be
/// applied, otherwise the first invariant violation found.
pub open spec fn action_check(s: StateModel, a: Action) -> Result<(), RuleError> {
    match a {
        Action::Pass => Ok(()),
        Action::Prep { spell, slot } => if slot >= 4 {
            Err(RuleError::BadSlot)
        } else if s.consumed.contains(spell@ - 1) {
            Err(RuleError::FaceConsumed)
        } else if s.dice[spell@ - 1] == 0 {
            Err(RuleError::MissingDie)
        } else {
            Ok(())
        },
        Action::Cast1 { slot, die } => match check_cast_slot(s, slot) {
            Err(e) => Err(e),
            Ok(face) => match s.spells[face@ - 1] {
                SpellRef::Spell2(_) => Err(RuleError::ArityMismatch),
                SpellRef::Spell1(k) => if s.dice[die@ - 1] == 0 {
                    Err(RuleError::MissingDie)
                } else if !spell1_can_cast_spec(k, s, die) {
                    Err(RuleError::NotUsable)
                } else {
                    Ok(())
                },
            },
        },
        Action::Cast2 { slot, d1, d2 } => match check_cast_slot(s, slot) {
            Err(e) => Err(e),
            Ok(face) => match s.spells[face@ - 1] {
                SpellRef::Spell1(_) => Err(RuleError::ArityMismatch),
                SpellRef::Spell2(k) => if !pair_available(s, d1, d2) {
                    Err(RuleError::MissingDie)
                } else if !spell2_can_cast_spec(k, s, d1, d2) {
                    Err(RuleError::NotUsable)
                } else {
                    Ok(())
                },
            },
        },
    }
}

/// Whether the transition function accepts the action.
pub open spec fn action_ok(s: StateModel, a: Action) -> bool {
    action_check(s, a) is Ok
}

/// The model after a slot's use counter went down by one.
pub open spec fn slot_used(s: StateModel, slot: u8) -> StateModel {
    StateModel {
        board: s.board.update(
            slot as int,
            SpellSlot {
                spell: s.board[slot as int].spell,
                uses: (s.board[slot as int].uses - 1) as u8,
            },
        ),
        ..s
    }
}

/// The state an accepted action produces: the identity for a pass, one die
/// spent and a slot filled for a prep, and the slot use, the spent dice and
/// the spell's effect for a cast.
pub open spec fn apply_model(s: StateModel, a: Action) -> StateModel {
    match a {
        Action::Pass => s,
        Action::Prep { spell, slot } => {
            let after = s.remove_die(spell);
            StateModel {
                board: after.board.update(
                    slot as int,
                    SpellSlot {
                        spell: Some(spell),
                        uses: spell_initial_uses_spec(s.spells[spell@ - 1]),
                    },
                ),
                ..after
            }
        },
        Action::Cast1 { slot, die } => match s.board[slot as int].spell {
            None => s,
            Some(face) => match s.spells[face@ - 1] {
                SpellRef::Spell1(k) => spell1_cast_spec(k, slot_used(s, slot).remove_die(die), die),
                SpellRef::Spell2(_) => s,
            },
        },
        Action::Cast2 { slot, d1, d2 } => match s.board[slot as int].spell {
            None => s,
            Some(face) => match s.spells[face@ - 1] {
                SpellRef::Spell1(_) => s,
                SpellRef::Spell2(k) => spell2_cast_spec(
                    k,
                    slot_used(s, slot).remove_die(d1).remove_die(d2),
                    d1,
                    d2,
                ),
            },
        },
    }
}

/// Takes one use off a slot and yields the spell prepared there, without yet
/// spending any die.
pub fn use_spell(state: &GameState, slot_idx: u8) -> (r: (GameState, SpellRef))
    requires
        slot_idx < 4,
        state@.board[slot_idx as int].uses > 0,
        state@.board[slot_idx as int].spell is Some,
    ensures
        r.0@ == slot_used(state@, slot_idx),
        state@.board[slot_idx as int].spell matches Some(face) && r.1 == state@.spells[face@ - 1]
            && face.valid(),
{
    let slot = state.board[slot_idx as usize];
    let face = slot.spell.unwrap();
    proof {
        use_type_invariant(face);
    }
    let spell = state.spellbook.spells[face.as_index()];
    let mut board = state.board;
    board[slot_idx as usize] = SpellSlot { spell: slot.spell, uses: slot.uses - 1 };
    let st = GameState {
        dice: state.dice,
        spellbook: state.spellbook,
        board,
        enemy_hp: state.enemy_hp,
    };
    proof {
        assert(st@ =~= slot_used(state@, slot_idx));
    }
    (st, spell)
}

/// Applies one action to a state. Accepts exactly the actions that
/// `action_check` accepts, produces exactly the state `apply_model` gives,
/// and otherwise reports the violation `action_check` finds.
pub fn apply_action(state: &GameState, action: Action) -> (r: Result<GameState, RuleError>)
    ensures
        r is Ok <==> action_ok(state@, action),
        r matches Ok(ns) ==> ns@ == apply_model(state@, action),
        r matches Err(e) ==> action_check(state@, action) == Err::<(), RuleError>(e),
{
    match action {
        Action::Pass => Ok(*state),
        Action::Prep { spell, slot } => {
            if slot >= 4 {
                return Err(RuleError::BadSlot);
            }
            proof {
                use_type_invariant(spell);
            }
            let idx = spell.as_index();
            if state.spellbook.consumed.contains(idx) {
                return Err(RuleError::FaceConsumed);
            }
            if state.dice[idx] == 0 {
                return Err(RuleError::MissingDie);
            }
            let uses = state.spellbook.spells[idx].initial_uses();
            let st = state.use_die(spell);
            let mut board = st.board;
            board[slot as usize] = SpellSlot { spell: Some(spell), uses };
            let ns = GameState {
                dice: st.dice,
                spellbook: st.spellbook,
                board,
                enemy_hp: st.enemy_hp,
            };
            proof {
                assert(ns@ =~= apply_model(state@, action));
            }
            Ok(ns)
        },
        Action::Cast1 { slot, die } => {
            if slot >= 4 {
                return Err(RuleError::BadSlot);
            }
            if state.board[slot as usize].uses == 0 {
                return Err(RuleError::NoUses);
            }
            if state.board[slot as usize].spell.is_none() {
                return Err(RuleError::EmptySlot);
            }
            let (st, spell) = use_spell(state, slot);
            match spell {
                SpellRef::Spell2(_) => Err(RuleError::ArityMismatch),
                SpellRef::Spell1(k) => {
                    proof {
                        use_type_invariant(die);
                    }
                    let didx = die.as_index();
                    if state.dice[didx] == 0 {
                        return Err(RuleError::MissingDie);
                    }
                    if !spell1_can_cast(k, state, die) {
                        return Err(RuleError::NotUsable);
                    }
                    let st2 = st.use_die(die);
                    Ok(spell1_cast(k, &st2, die))
                },
            }
        },
        Action::Cast2 { slot, d1, d2 } => {
            if slot >= 4 {
                return Err(RuleError::BadSlot);
            }
            if state.board[slot as usize].uses == 0 {
                return Err(RuleError::NoUses);
            }
            if state.board[slot as usize].spell.is_none() {
                return Err(RuleError::EmptySlot);
            }
            let (st, spell) = use_spell(state, slot);
            match spell {
                SpellRef::Spell1(_) => Err(RuleError::ArityMismatch),
                SpellRef::Spell2(k) => {
                    proof {
                        use_type_invariant(d1);
                        use_type_invariant(d2);
                    }
                    let i1 = d1.as_index();
                    let i2 = d2.as_index();
                    if i1 == i2 {
                        if state.dice[i1] < 2 {
                            return Err(RuleError::MissingDie);
                        }
                    } else {
                        if state.dice[i1] < 1 || state.dice[i2] < 1 {
                            return Err(RuleError::MissingDie);
                        }
                    }
                    if !spell2_can_cast(k, state, d1, d2) {
                        return Err(RuleError::NotUsable);
                    }
                    let st2 = st.use_die(d1);
                    let st3 = st2.use_die(d2);
                    Ok(spell2_cast(k, &st3, d1, d2))
                },
            }
        },
    }
}

/// Every slot before `i` is busy: its use counter is positive.
pub open spec fn prior_slots_busy(board: Seq<SpellSlot>, i: int) -> bool {
    forall|j: int| 0 <= j < i ==> board[j].uses > 0
}

/// The generator's legality test. A prep goes only into the first idle
/// slot; a cast needs a prepared slot of the matching arity with remaining
/// uses, the dice it spends, and the spell's usability.
pub open spec fn action_legal(s: StateModel, a: Action) -> bool {
    match a {
        Action::Pass => true,
        Action::Prep { spell, slot } => {
            &&& spell.valid()
            &&& slot < 4
            &&& s.board[slot as int].uses == 0
            &&& prior_slots_busy(s.board, slot as int)
            &&& !s.consumed.contains(spell@ - 1)
            &&& s.dice[spell@ - 1] > 0
        },
        Action::Cast1 { slot, die } => {
            &&& die.valid()
            &&& slot < 4
            &&& s.board[slot as int].uses > 0
            &&& s.board[slot as int].spell matches Some(face) && face.valid() && (s.spells[face@
                - 1] matches SpellRef::Spell1(k) && s.dice[die@ - 1] > 0 && spell1_can_cast_spec(
                k,
                s,
                die,
            ))
        },
        Action::Cast2 { slot, d1, d2 } => {
            &&& d1.valid()
            &&& d2.valid()
            &&& d1@ <= d2@
            &&& slot < 4
            &&& s.board[slot as int].uses > 0
            &&& s.board[slot as int].spell matches Some(face) && face.valid() && (s.spells[face@
                - 1] matches SpellRef::Spell2(k) && pair_available(s, d1, d2)
                && spell2_can_cast_spec(k, s, d1, d2))
        },
    }
}

/// A legal action always applies cleanly: whatever the generator emits, the
/// transition function accepts.
pub proof fn lemma_legal_action_applies(s: StateModel, a: Action)
    requires
        s.wf(),
        action_legal(s, a),
    ensures
        action_ok(s, a),
{
}

/// A one-pip die can never cast the chisel: with the chisel prepared from
/// its own face, such a cast is illegal — so `all_actions`, being sound for
/// `action_legal`, never emits it — and the transition function refuses it.
pub proof fn lemma_chisel_rejects_one_pip(s: StateModel, slot: u8, die: Die)
    requires
        s.wf(),
        slot < 4,
        s.board[slot as int].spell matches Some(face) && face@ == 4,
        s.spells[3] == SpellRef::Spell1(Spell1Kind::Chisel),
        die@ == 1,
    ensures
        !action_legal(s, Action::Cast1 { slot, die }),
        !action_ok(s, Action::Cast1 { slot, die }),
{
}

/// A face whose spellbook bit is already consumed cannot carry a scythe
/// cast: with a scythe prepared at the slot, casting it with a die of a
/// consumed face is illegal, and the transition function refuses it.
pub proof fn lemma_consumed_face_rejects_scythe(s: StateModel, slot: u8, die: Die)
    requires
        s.wf(),
        slot < 4,
        s.board[slot as int].spell matches Some(face) && s.spells[face@ - 1]
            == SpellRef::Spell1(Spell1Kind::HarvestScythe),
        s.consumed.contains(die@ - 1),
    ensures
        !action_legal(s, Action::Cast1 { slot, die }),
        !action_ok(s, Action::Cast1 { slot, die }),
{
}

proof fn lemma_push_keeps_contains<A>(s: Seq<A>, x: A, y: A)
    requires
        s.contains(y),
    ensures
        s.push(x).contains(y),
{
    let i = choose|i: int| 0 <= i < s.len() && s[i] == y;
    assert(s.push(x)[i] == y);
}

/// Whether an action is a cast at a slot before `i`.
pub open spec fn cast_before(a: Action, i: int) -> bool {
    match a {
        Action::Cast1 { slot, .. } => slot < i,
        Action::Cast2 { slot, .. } => slot < i,
        _ => false,
    }
}

/// Whether an action preps a face whose index is below `di`.
spec fn prep_below(a: Action, di: int) -> bool {
    match a {
        Action::Prep { spell, .. } => spell@ - 1 < di,
        _ => false,
    }
}

/// Whether an action is a prep.
spec fn is_prep(a: Action) -> bool {
    match a {
        Action::Prep { .. } => true,
        _ => false,
    }
}

/// Whether an action is a single-die cast at slot `si` of a face whose
/// index is below `di`.
spec fn cast1_at_below(a: Action, si: int, di: int) -> bool {
    match a {
        Action::Cast1 { slot, die } => slot == si && die@ - 1 < di,
        _ => false,
    }
}

/// Whether an action is a double-die cast at slot `si` whose first face
/// index is below `i1`.
spec fn cast2_outer_below(a: Action, si: int, i1: int) -> bool {
    match a {
        Action::Cast2 { slot, d1, .. } => slot == si && d1@ - 1 < i1,
        _ => false,
    }
}

/// Whether an action is a double-die cast at slot `si` with first face
/// index `i1` and second face index below `i2`.
spec fn cast2_inner_below(a: Action, si: int, i1: int, i2: int) -> bool {
    match a {
        Action::Cast2 { slot, d1, d2 } => slot == si && d1@ - 1 == i1 && d2@ - 1 < i2,
        _ => false,
    }
}

/// Enumerates the complete set of legal actions of a state: everything it
/// returns is legal, and every legal action is in it.
pub fn all_actions(state: &GameState) -> (r: Vec<Action>)
    ensures
        forall|k: int| 0 <= k < r@.len() ==> action_legal(state@, #[trigger] r@[k]),
        forall|a: Action| #[trigger] action_legal(state@, a) ==> r@.contains(a),
{
    let ghost s = state@;
    let mut actions: Vec<Action> = Vec::new();
    actions.push(Action::Pass);
    proof {
        assert(actions@[0] == Action::Pass);
    }

    // Preps go into the first slot with no remaining uses, if any.
    let mut prep_slot: usize = 0;
    while prep_slot < 4 && state.board[prep_slot].uses > 0
        invariant
            prep_slot <= 4,
            prior_slots_busy(s.board, prep_slot as int),
            s == state@,
        decreases 4 - prep_slot,
    {
        prep_slot = prep_slot + 1;
    }
    if prep_slot < 4 {
        let mut di: usize = 0;
        while di < 6
            invariant
                di <= 6,
                prep_slot < 4,
                s == state@,
                s.board[prep_slot as int].uses == 0,
                prior_slots_busy(s.board, prep_slot as int),
                actions@.contains(Action::Pass),
                forall|k: int| 0 <= k < actions@.len() ==> action_legal(s, #[trigger] actions@[k]),
                forall|a: Action| #[trigger] action_legal(s, a) && prep_below(a, di as int)
                    ==> actions@.contains(a),
            decreases 6 - di,
        {
            let can = state.dice[di] > 0 && !state.spellbook.consumed.contains(di);
            let spell = Die::from_index(di).unwrap();
            let act = Action::Prep { spell, slot: prep_slot as u8 };
            if can {
                proof {
                    lemma_all_contains_push(s, actions@, act);
                }
                actions.push(act);
            }
            proof {
                assert forall|a: Action|
                    #[trigger] action_legal(s, a) && prep_below(a, di + 1) implies actions@.contains(
                    a,
                ) by {
                    match a {
                        Action::Prep { spell: sp, slot } => {
                            if sp@ - 1 == di {
                                assert(can);
                                if slot < prep_slot as u8 {
                                    assert(s.board[slot as int].uses > 0);
                                }
                                if slot > prep_slot as u8 {
                                    assert(s.board[prep_slot as int].uses > 0);
                                }
                                lemma_die_eq(sp, spell);
                                assert(a == act);
                                assert(actions@[actions@.len() - 1] == act);
                            }
                        },
                        _ => {},
                    }
                }
            }
            di = di + 1;
        }
    }
    proof {
        assert forall|a: Action| #[trigger] action_legal(s, a) && is_prep(a) implies actions@.contains(
            a,
        ) by {
            match a {
                Action::Prep { spell, slot } => {
                    if prep_slot == 4 {
                        assert(s.board[slot as int].uses > 0);
                    }
                },
                _ => {},
            }
        }
    }

    // Casts, slot by slot.
    let mut si: usize = 0;
    while si < 4
        invariant
            si <= 4,
            s == state@,
            forall|k: int| 0 <= k < actions@.len() ==> action_legal(s, #[trigger] actions@[k]),
            actions@.contains(Action::Pass),
            forall|a: Action| #[trigger] action_legal(s, a) && is_prep(a) ==> actions@.contains(a),
            forall|a: Action| #[trigger] action_legal(s, a) && cast_before(a, si as int)
                ==> actions@.contains(a),
        decreases 4 - si,
    {
        let sl = state.board[si];
        if sl.uses > 0 && sl.spell.is_some() {
            let face = sl.spell.unwrap();
            proof {
                use_type_invariant(face);
            }
            match state.spellbook.spells[face.as_index()] {
                SpellRef::Spell1(k) => {
                    let mut di: usize = 0;
                    while di < 6
                        invariant
                            di <= 6,
                            si < 4,
                            s == state@,
                            sl == s.board[si as int],
                            sl.uses > 0,
                            sl.spell matches Some(f) && f == face,
                            face.valid(),
                            s.spells[face@ - 1] == SpellRef::Spell1(k),
                            forall|x: int| 0 <= x < actions@.len() ==> action_legal(
                                s,
                                #[trigger] actions@[x],
                            ),
                            actions@.contains(Action::Pass),
                            forall|a: Action| #[trigger] action_legal(s, a) && is_prep(a)
                                ==> actions@.contains(a),
                            forall|a: Action| #[trigger] action_legal(s, a) && cast_before(
                                a,
                                si as int,
                            ) ==> actions@.contains(a),
                            forall|a: Action| #[trigger] action_legal(s, a) && cast1_at_below(
                                a,
                                si as int,
                                di as int,
                            ) ==> actions@.contains(a),
                        decreases 6 - di,
                    {
                        let die = Die::from_index(di).unwrap();
                        let can = state.dice[di] > 0 && spell1_can_cast(k, state, die);
                        let act = Action::Cast1 { slot: si as u8, die };
                        if can {
                            proof {
                                lemma_all_contains_push(s, actions@, act);
                            }
                            actions.push(act);
                        }
                        proof {
                            assert forall|a: Action|
                                #[trigger] action_legal(s, a) && cast1_at_below(
                                    a,
                                    si as int,
                                    di + 1,
                                ) implies actions@.contains(a) by {
                                match a {
                                    Action::Cast1 { slot, die: da } => {
                                        if da@ - 1 == di {
                                            lemma_die_eq(da, die);
                                            assert(can);
                                            assert(a == act);
                                            assert(actions@[actions@.len() - 1] == act);
                                        }
                                    },
                                    _ => {},
                                }
                            }
                        }
                        di = di + 1;
                    }
                },
                SpellRef::Spell2(k) => {
                    let mut i1: usize = 0;
                    while i1 < 6
                        invariant
                            i1 <= 6,
                            si < 4,
                            s == state@,
                            sl == s.board[si as int],
                            sl.uses > 0,
                            sl.spell matches Some(f) && f == face,
                            face.valid(),
                            s.spells[face@ - 1] == SpellRef::Spell2(k),
                            forall|x: int| 0 <= x < actions@.len() ==> action_legal(
                                s,
                                #[trigger] actions@[x],
                            ),
                            actions@.contains(Action::Pass),
                            forall|a: Action| #[trigger] action_legal(s, a) && is_prep(a)
                                ==> actions@.contains(a),
                            forall|a: Action| #[trigger] action_legal(s, a) && cast_before(
                                a,
                                si as int,
                            ) ==> actions@.contains(a),
                            forall|a: Action| #[trigger] action_legal(s, a) && cast2_outer_below(
                                a,
                                si as int,
                                i1 as int,
                            ) ==> actions@.contains(a),
                        decreases 6 - i1,
                    {
                        if state.dice[i1] > 0 {
                            let mut i2: usize = i1;
                            while i2 < 6
                                invariant
                                    i1 <= i2 <= 6,
                                    i1 < 6,
                                    si < 4,
                                    s == state@,
                                    s.dice[i1 as int] > 0,
                                    sl == s.board[si as int],
                                    sl.uses > 0,
                                    sl.spell matches Some(f) && f == face,
                                    face.valid(),
                                    s.spells[face@ - 1] == SpellRef::Spell2(k),
                                    forall|x: int| 0 <= x < actions@.len() ==> action_legal(
                                        s,
                                        #[trigger] actions@[x],
                                    ),
                                    actions@.contains(Action::Pass),
                                    forall|a: Action| #[trigger] action_legal(s, a) && is_prep(a)
                                        ==> actions@.contains(a),
                                    forall|a: Action| #[trigger] action_legal(s, a) && cast_before(
                                        a,
                                        si as int,
                                    ) ==> actions@.contains(a),
                                    forall|a: Action| #[trigger] action_legal(s, a)
                                        && cast2_outer_below(a, si as int, i1 as int)
                                        ==> actions@.contains(a),
                                    forall|a: Action| #[trigger] action_legal(s, a)
                                        && cast2_inner_below(a, si as int, i1 as int, i2 as int)
                                        ==> actions@.contains(a),
                                decreases 6 - i2,
                            {
                                let need: u64 = if i2 == i1 {
                                    2
                                } else {
                                    1
                                };
                                let d1 = Die::from_index(i1).unwrap();
                                let d2 = Die::from_index(i2).unwrap();
                                let can = state.dice[i2] >= need && spell2_can_cast(
                                    k,
                                    state,
                                    d1,
                                    d2,
                                );
                                let act = Action::Cast2 { slot: si as u8, d1, d2 };
                                if can {
                                    proof {
                                        lemma_all_contains_push(s, actions@, act);
                                    }
                                    actions.push(act);
                                }
                                proof {
                                    assert forall|a: Action|
                                        #[trigger] action_legal(s, a) && cast2_inner_below(
                                            a,
                                            si as int,
                                            i1 as int,
                                            i2 + 1,
                                        ) implies actions@.contains(a) by {
                                        match a {
                                            Action::Cast2 { slot, d1: da, d2: db } => {
                                                if db@ - 1 == i2 {
                                                    lemma_die_eq(da, d1);
                                                    lemma_die_eq(db, d2);
                                                    assert(can);
                                                    assert(a == act);
                                                    assert(actions@[actions@.len() - 1] == act);
                                                }
                                            },
                                            _ => {},
                                        }
                                    }
                                }
                                i2 = i2 + 1;
                            }
                        }
                        proof {
                            assert forall|a: Action|
                                #[trigger] action_legal(s, a) && cast2_outer_below(
                                    a,
                                    si as int,
                                    i1 + 1,
                                ) implies actions@.contains(a) by {
                                match a {
                                    Action::Cast2 { slot, d1, d2 } => {
                                        if d1@ - 1 == i1 {
                                            assert(pair_available(s, d1, d2));
                                        }
                                    },
                                    _ => {},
                                }
                            }
                        }
                        i1 = i1 + 1;
                    }
                },
            }
        }
        proof {
            assert forall|a: Action| #[trigger] action_legal(s, a) && cast_before(
                a,
                si + 1,
            ) implies actions@.contains(a) by {
                match a {
                    Action::Cast1 { slot, die } => {
                        if slot == si {
                            assert(s.board[si as int].uses > 0);
                        }
                    },
                    Action::Cast2 { slot, d1, d2 } => {
                        if slot == si {
                            assert(s.board[si as int].uses > 0);
                        }
                    },
                    _ => {},
                }
            }
        }
        si = si + 1;
    }
    proof {
        assert forall|a: Action| #[trigger] action_legal(s, a) implies actions@.contains(a) by {
            match a {
                Action::Pass => {},
                Action::Prep { .. } => {
                    assert(is_prep(a));
                },
                Action::Cast1 { slot, .. } => {
                    assert(cast_before(a, 4));
                },
                Action::Cast2 { slot, .. } => {
                    assert(cast_before(a, 4));
                },
            }
        }
    }
    actions
}
/// Pushing a legal action keeps every element of the vector legal and keeps
/// everything it contained.
proof fn lemma_all_contains_push(s: StateModel, v: Seq<Action>, x: Action)
    requires
        forall|k: int| 0 <= k < v.len() ==> action_legal(s, #[trigger] v[k]),
        action_legal(s, x),
    ensures
        forall|k: int| 0 <= k < v.push(x).len() ==> action_legal(s, #[trigger] v.push(x)[k]),
        forall|y: Action| v.contains(y) ==> v.push(x).contains(y),
        v.push(x).contains(x),
{
    assert forall|k: int| 0 <= k < v.push(x).len() implies action_legal(
        s,
        #[trigger] v.push(x)[k],
    ) by {
        if k < v.len() {
            assert(v.push(x)[k] == v[k]);
        }
    }
    assert forall|y: Action| v.contains(y) implies v.push(x).contains(y) by {
        lemma_push_keeps_contains(v, x, y);
    }
    assert(v.push(x)[v.len() as int] == x);
}

} // verus!
