use rand::distributions::Distribution;
use vstd::prelude::*;

verus! {

/// Why an evaluation was abandoned.
#[derive(Clone, Copy, Debug, PartialEq, Eq, Structural)]
pub enum EvalError {
    NegativeDiceCount,
    NonPositiveFaces,
    DivideByZero,
    Overflow,
}

/// `rolls` can be what `count` dice of `faces` faces came up with.
pub open spec fn valid_rolls(count: i64, faces: i64, rolls: Seq<i64>) -> bool {
    count > 0 && faces >= 1 ==> {
        &&& rolls.len() == count
        &&& forall|i: int| 0 <= i < rolls.len() ==> 1 <= #[trigger] rolls[i] <= faces
    }
}

/// What a roll of `count` dice of `faces` faces that came up `rolls` gives.
pub open spec fn dice_result(count: i64, faces: i64, rolls: Seq<i64>) -> Result<i64, EvalError> {
    if count == 0 {
        Ok(0)
    } else if count < 0 {
        Err(EvalError::NegativeDiceCount)
    } else if faces < 1 {
        Err(EvalError::NonPositiveFaces)
    } else if total(rolls) <= i64::MAX {
        Ok(total(rolls) as i64)
    } else {
        Err(EvalError::Overflow)
    }
}

/// Relies on rand's `Uniform::new_inclusive(1, faces)` and its `sample` with the
/// thread-local generator: a value in `[1, faces]`. `new_inclusive` panics when
/// the range is empty, which `requires` rules out.
#[verifier::external_body]
fn roll_die(faces: i64) -> (r: i64)
    requires
        faces >= 1,
    ensures
        1 <= r <= faces,
{
    rand::distributions::Uniform::new_inclusive(1, faces).sample(&mut rand::thread_rng())
}

/// Rolls `count` dice of `faces` faces. No die is rolled when `count` is zero.
pub fn roll_dice(count: i64, faces: i64) -> (r: Result<Vec<i64>, EvalError>)
    ensures
        count == 0 ==> r is Ok && r->Ok_0@.len() == 0,
        count < 0 ==> r == Err::<Vec<i64>, EvalError>(EvalError::NegativeDiceCount),
        count > 0 && faces < 1 ==> r == Err::<Vec<i64>, EvalError>(EvalError::NonPositiveFaces),
        count > 0 && faces >= 1 ==> r is Ok,
        r is Ok ==> valid_rolls(count, faces, r->Ok_0@),
{
    if count == 0 {
        return Ok(Vec::new());
    }
    if count < 0 {
        return Err(EvalError::NegativeDiceCount);
    }
    if faces < 1 {
        return Err(EvalError::NonPositiveFaces);
    }
    let mut rolls: Vec<i64> = Vec::new();
    let mut i: i64 = 0;
    while i < count
        invariant
            0 <= i <= count,
            faces >= 1,
            rolls@.len() == i,
            forall|j: int| 0 <= j < rolls@.len() ==> 1 <= #[trigger] rolls@[j] <= faces,
        decreases count - i,
    {
        let roll = roll_die(faces);
        rolls.push(roll);
        i = i + 1;
    }
    Ok(rolls)
}

pub open spec fn total(s: Seq<i64>) -> int
    decreases s.len(),
{
    if s.len() == 0 {
        0
    } else {
        total(s.drop_last()) + s.last()
    }
}

/// The result of rolling `count` dice of `faces` faces that came up `rolls`.
/// No die is rolled when `count` is zero, whatever `faces` is.
pub fn dice_total(count: i64, faces: i64, rolls: &Vec<i64>) -> (r: Result<i64, EvalError>)
    requires
        count > 0 && faces >= 1 ==> rolls@.len() == count,
        count > 0 && faces >= 1 ==> forall|i: int| 0 <= i < rolls@.len() ==> 1 <= #[trigger] rolls@[i] <= faces,
    ensures
        count == 0 ==> r == Ok::<i64, EvalError>(0),
        count < 0 ==> r == Err::<i64, EvalError>(EvalError::NegativeDiceCount),
        count > 0 && faces < 1 ==> r == Err::<i64, EvalError>(EvalError::NonPositiveFaces),
        count > 0 && faces >= 1 ==> r == if total(rolls@) <= i64::MAX {
            Ok::<i64, EvalError>(total(rolls@) as i64)
        } else {
            Err::<i64, EvalError>(EvalError::Overflow)
        },
        count > 0 && r is Ok ==> count <= r->Ok_0 <= count * faces,
        valid_rolls(count, faces, rolls@) ==> r == dice_result(count, faces, rolls@),
{
    if count == 0 {
        return Ok(0);
    }
    if count < 0 {
        return Err(EvalError::NegativeDiceCount);
    }
    if faces < 1 {
        return Err(EvalError::NonPositiveFaces);
    }
    let mut acc: i128 = 0;
    let mut i: usize = 0;
    while i < rolls.len()
        invariant
            i <= rolls@.len(),
            rolls@.len() == count,
            forall|j: int| 0 <= j < rolls@.len() ==> 1 <= #[trigger] rolls@[j] <= faces,
            acc == total(rolls@.subrange(0, i as int)),
            i <= acc <= i * faces,
            faces <= i64::MAX,
        decreases rolls@.len() - i,
    {
        assert(rolls@.subrange(0, i + 1).drop_last() == rolls@.subrange(0, i as int));
        let roll = rolls[i];
        assert(acc + roll <= (i + 1) * faces) by (nonlinear_arith)
            requires acc <= i * faces, roll <= faces;
        assert(i * faces <= i64::MAX * i64::MAX) by (nonlinear_arith)
            requires 0 <= i <= i64::MAX, 1 <= faces <= i64::MAX;
        acc = acc + roll as i128;
        i = i + 1;
    }
    assert(rolls@.subrange(0, i as int) == rolls@);
    if acc > i64::MAX as i128 {
        Err(EvalError::Overflow)
    } else {
        Ok(acc as i64)
    }
}

} // verus!
