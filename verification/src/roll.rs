//! The roll engine: from a validated command to the faces that came up.

use crate::parse::RollCmd;
use rand::distributions::{Distribution, Uniform};
use vstd::prelude::*;

verus! {

/// What a roll gave, in the order in which it was drawn.
#[derive(Debug, PartialEq)]
pub struct Rolls(pub Vec<usize>);

/// How to roll a command.
#[derive(Debug, PartialEq, Eq, Structural, Clone, Copy)]
pub enum Mode {
    /// One draw for each die.
    Normal,
    /// The most that the dice can show together, then one draw for each die.
    Critical,
}

/// Whether `rolls` can come of rolling `count` dice of `faces` faces: one
/// entry for each die, each between 1 and `faces`.
pub open spec fn is_normal_roll(count: nat, faces: nat, rolls: Seq<usize>) -> bool {
    &&& rolls.len() == count
    &&& forall|i: int| 0 <= i < rolls.len() ==> 1 <= #[trigger] rolls[i] <= faces
}

/// Whether `rolls` can come of a critical roll of `count` dice of `faces`
/// faces: first the most that the dice can show together, then a normal roll.
pub open spec fn is_critical_roll(count: nat, faces: nat, rolls: Seq<usize>) -> bool {
    &&& rolls.len() == count + 1
    &&& rolls[0] == count * faces
    &&& is_normal_roll(count, faces, rolls.drop_first())
}

/// Whether `rolls` can come of rolling `count` dice of `faces` faces in `mode`.
pub open spec fn is_roll(mode: Mode, count: nat, faces: nat, rolls: Seq<usize>) -> bool {
    match mode {
        Mode::Normal => is_normal_roll(count, faces, rolls),
        Mode::Critical => is_critical_roll(count, faces, rolls),
    }
}

/// The sum of the entries of `rolls`.
pub open spec fn total(rolls: Seq<usize>) -> nat
    decreases rolls.len(),
{
    if rolls.len() == 0 {
        0
    } else {
        total(rolls.drop_last()) + rolls.last() as nat
    }
}

/// The sum of entries that all lie between `low` and `high` lies between
/// these bounds taken once for each entry.
pub proof fn lemma_total_bounds(rolls: Seq<usize>, low: nat, high: nat)
    requires
        forall|i: int| 0 <= i < rolls.len() ==> low <= #[trigger] rolls[i] <= high,
    ensures
        rolls.len() * low <= total(rolls) <= rolls.len() * high,
    decreases rolls.len(),
{
    if rolls.len() > 0 {
        let front = rolls.drop_last();
        lemma_total_bounds(front, low, high);
        assert(rolls.len() * low == front.len() * low + low) by (nonlinear_arith)
            requires
                rolls.len() == front.len() + 1,
        ;
        assert(rolls.len() * high == front.len() * high + high) by (nonlinear_arith)
            requires
                rolls.len() == front.len() + 1,
        ;
    }
}

/// The sum of a sequence is its first entry and the sum of the rest.
pub proof fn lemma_total_first(rolls: Seq<usize>)
    requires
        rolls.len() > 0,
    ensures
        total(rolls) == rolls[0] + total(rolls.drop_first()),
    decreases rolls.len(),
{
    if rolls.len() == 1 {
        assert(rolls.drop_last() =~= Seq::<usize>::empty());
        assert(rolls.drop_first() =~= Seq::<usize>::empty());
    } else {
        lemma_total_first(rolls.drop_last());
        assert(rolls.drop_last().drop_first() =~= rolls.drop_first().drop_last());
    }
}

/// A normal roll sums to no less than the number of dice and to no more than
/// all dice showing their highest face.
pub proof fn lemma_normal_total(count: nat, faces: nat, rolls: Seq<usize>)
    requires
        is_normal_roll(count, faces, rolls),
    ensures
        count <= total(rolls) <= count * faces,
{
    lemma_total_bounds(rolls, 1, faces);
}

/// A critical roll of at least one die sums to more than all dice showing
/// their highest face, and to no more than twice that. So it sums to more
/// than any normal roll of the same dice.
pub proof fn lemma_critical_total(
    count: nat,
    faces: nat,
    critical: Seq<usize>,
    normal: Seq<usize>,
)
    requires
        count >= 1,
        is_critical_roll(count, faces, critical),
        is_normal_roll(count, faces, normal),
    ensures
        count * faces < total(critical) <= 2 * count * faces,
        total(normal) < total(critical),
{
    lemma_total_first(critical);
    lemma_normal_total(count, faces, critical.drop_first());
    lemma_normal_total(count, faces, normal);
    assert(count * faces + count * faces == 2 * count * faces) by (nonlinear_arith);
}

/// `rand::rngs::ThreadRng`, the handle to the generator of the calling
/// thread. Nothing inside it is seen from here.
#[verifier::external_type_specification]
#[verifier::external_body]
pub struct ExThreadRng(rand::rngs::ThreadRng);

/// `rand::thread_rng` hands out the generator of the calling thread, which
/// the system seeds when the thread first asks; it panics where the system
/// has no seed to give. Nothing is claimed of the handle.
pub assume_specification[ rand::thread_rng ]() -> rand::rngs::ThreadRng
;

/// One draw from `low..=high`: the distribution that
/// `rand::distributions::Uniform::new_inclusive` makes for these bounds,
/// sampled once with `rng` through `Distribution::sample`.
///
/// Taken on trust: the draw lies within the bounds. Nothing is said of which
/// value comes, nor of the generator afterwards. `new_inclusive` panics where
/// `low > high`, so callers have to show `low <= high`.
#[verifier::external_body]
fn sample_inclusive(rng: &mut rand::rngs::ThreadRng, low: usize, high: usize) -> (drawn: usize)
    requires
        low <= high,
    ensures
        low <= drawn <= high,
{
    Uniform::new_inclusive(low, high).sample(rng)
}

/// The most that the dice of `cmd` can show together: each die its highest
/// face.
pub fn max_damage(cmd: &RollCmd) -> (bonus: usize)
    ensures
        bonus == cmd.num@ * cmd.size.faces(),
{
    let num: usize = usize::from(cmd.num.get());
    let size: usize = usize::from(cmd.size);
    assert(num * size <= 255 * 100) by (nonlinear_arith)
        requires
            num <= 255,
            size <= 100,
    ;
    num.checked_mul(size).unwrap()
}

/// Rolls the dice of `cmd`: one draw for each die, each between 1 and the
/// number of its faces.
pub fn roll_normal(cmd: &RollCmd) -> (rolls: Rolls)
    ensures
        is_normal_roll(cmd.num@, cmd.size.faces(), rolls.0@),
{
    let mut rng = rand::thread_rng();
    let faces: usize = usize::from(cmd.size);
    let num: u8 = cmd.num.get();
    let mut rolls: Vec<usize> = Vec::new();
    for drawn in 0..num
        invariant
            faces == cmd.size.faces(),
            is_normal_roll(drawn as nat, faces as nat, rolls@),
    {
        rolls.push(sample_inclusive(&mut rng, 1, faces));
    }
    Rolls(rolls)
}

/// Rolls the dice of `cmd` as a critical hit: first the most that they can
/// show together, then one draw for each die as in a normal roll.
pub fn roll_crit(cmd: &RollCmd) -> (rolls: Rolls)
    ensures
        is_critical_roll(cmd.num@, cmd.size.faces(), rolls.0@),
{
    let mut rng = rand::thread_rng();
    let faces: usize = usize::from(cmd.size);
    let num: u8 = cmd.num.get();
    let mut rolls: Vec<usize> = Vec::new();
    rolls.push(max_damage(cmd));
    for drawn in 0..num
        invariant
            faces == cmd.size.faces(),
            rolls@.len() == drawn + 1,
            rolls@[0] == cmd.num@ * cmd.size.faces(),
            is_normal_roll(drawn as nat, faces as nat, rolls@.drop_first()),
    {
        let ghost before = rolls@;
        let face: usize = sample_inclusive(&mut rng, 1, faces);
        rolls.push(face);
        assert(rolls@.drop_first() == before.drop_first().push(face));
    }
    Rolls(rolls)
}

/// Rolls the dice of `cmd` in `mode`.
pub fn roll(cmd: &RollCmd, mode: Mode) -> (rolls: Rolls)
    ensures
        is_roll(mode, cmd.num@, cmd.size.faces(), rolls.0@),
{
    match mode {
        Mode::Normal => roll_normal(cmd),
        Mode::Critical => roll_crit(cmd),
    }
}

impl Rolls {
    /// The sum of the entries. It is taken in 128 bits, where the entries of
    /// no vector can overflow it.
    pub fn sum(&self) -> (sum: u128)
        ensures
            sum == total(self.0@),
    {
        let mut sum: u128 = 0;
        let mut i: usize = 0;
        while i < self.0.len()
            invariant
                i <= self.0@.len(),
                sum == total(self.0@.take(i as int)),
            decreases self.0@.len() - i,
        {
            proof {
                let next = self.0@.take(i + 1);
                assert(next.drop_last() == self.0@.take(i as int));
                lemma_total_bounds(next, 0, usize::MAX as nat);
                assert(next.len() * (usize::MAX as nat) <= u128::MAX) by (nonlinear_arith)
                    requires
                        next.len() <= usize::MAX,
                        usize::MAX <= u64::MAX,
                ;
            }
            sum = sum + self.0[i] as u128;
            i += 1;
        }
        assert(self.0@.take(i as int) == self.0@);
        sum
    }
}

} // verus!
