//! World-to-camera matrices of an underfolder dataset: a text file of 16
//! whitespace-separated numbers, the 4x4 matrix in row-major order.
//!
//! The text is split into tokens here; each token is read as an `f32` by the
//! caller, and the readings (bit patterns, or `None` for a token that is not
//! a number) come back to `w2c_from_readings`.
use vstd::prelude::*;
use crate::text::{decimal, push_decimal};

verus! {

/// Why a world-to-camera file was refused.
#[derive(Clone, Copy, Debug, PartialEq, Eq, Structural)]
pub enum W2cError {
    /// Token `index` is not a number.
    InvalidValue { index: usize },
    /// The file does not hold exactly 16 numbers.
    WrongCount { count: usize },
}

/// The index of the first token that is not a number, from `i` on.
pub open spec fn first_unreadable(readings: Seq<Option<u32>>, i: nat) -> Option<nat>
    decreases readings.len() - i,
{
    if i >= readings.len() {
        None
    } else if readings[i as int] is None {
        Some(i)
    } else {
        first_unreadable(readings, i + 1)
    }
}

/// The matrix (row-major `f32` bit patterns) that a file with these token
/// readings gives: the first token that is not a number is reported, then a
/// count other than 16.
pub open spec fn w2c_of(readings: Seq<Option<u32>>) -> Result<Seq<u32>, W2cError> {
    match first_unreadable(readings, 0) {
        Some(i) => Err(W2cError::InvalidValue { index: i as usize }),
        None => if readings.len() != 16 {
            Err(W2cError::WrongCount { count: readings.len() as usize })
        } else {
            Ok(readings.map_values(|r: Option<u32>| r->0))
        },
    }
}

/// The 4x4 matrix from the readings of a file's tokens.
pub fn w2c_from_readings(readings: &Vec<Option<u32>>) -> (r: Result<[u32; 16], W2cError>)
    ensures
        match r {
            Ok(m) => w2c_of(readings@) == Ok::<Seq<u32>, W2cError>(m@),
            Err(e) => w2c_of(readings@) == Err::<Seq<u32>, W2cError>(e),
        },
{
    let mut i: usize = 0;
    while i < readings.len()
        invariant
            i <= readings@.len(),
            first_unreadable(readings@, i as nat) == first_unreadable(readings@, 0),
            forall|k: int| 0 <= k < i ==> readings@[k] is Some,
        decreases readings@.len() - i,
    {
        if readings[i].is_none() {
            assert(first_unreadable(readings@, i as nat) == Some(i as nat));
            return Err(W2cError::InvalidValue { index: i });
        }
        assert(first_unreadable(readings@, i as nat) == first_unreadable(readings@, (i + 1) as nat));
        i = i + 1;
    }
    if readings.len() != 16 {
        return Err(W2cError::WrongCount { count: readings.len() });
    }
    let mut m: [u32; 16] = [0u32; 16];
    let mut k: usize = 0;
    while k < 16
        invariant
            readings@.len() == 16,
            forall|j: int| 0 <= j < 16 ==> readings@[j] is Some,
            forall|j: int| 0 <= j < k ==> m@[j] == readings@[j]->0,
            k <= 16,
        decreases 16 - k,
    {
        m[k] = match readings[k] {
            Some(bits) => bits,
            None => 0,
        };
        k = k + 1;
    }
    assert(m@ =~= readings@.map_values(|r: Option<u32>| r->0));
    Ok(m)
}

impl W2cError {
    /// The text of the refusal: the standard library's message for a token
    /// that is not a float, or the count found.
    pub open spec fn text(self) -> Seq<char> {
        match self {
            W2cError::InvalidValue { .. } => "invalid float literal"@,
            W2cError::WrongCount { count } => "Expected 16 values, got "@ + decimal(count as nat),
        }
    }

    /// The text of the refusal.
    pub fn message(&self) -> (s: String)
        ensures
            s@ == self.text(),
    {
        match self {
            W2cError::InvalidValue { .. } => String::from_str("invalid float literal"),
            W2cError::WrongCount { count } => {
                let mut s = String::from_str("Expected 16 values, got ");
                push_decimal(&mut s, *count as u64);
                s
            },
        }
    }
}

/// A file is accepted exactly when it holds 16 tokens that are all numbers,
/// and then the matrix lists them in file order.
pub proof fn law_w2c_accepts_sixteen_numbers(readings: Seq<Option<u32>>)
    ensures
        (w2c_of(readings) is Ok) <==> (readings.len() == 16 && forall|k: int|
            0 <= k < 16 ==> #[trigger] readings[k] is Some),
        w2c_of(readings) is Ok ==> forall|k: int|
            0 <= k < 16 ==> #[trigger] readings[k] == Some(w2c_of(readings)->Ok_0[k]),
{
    lemma_first_unreadable(readings, 0);
}

proof fn lemma_first_unreadable_found(readings: Seq<Option<u32>>, i: nat)
    ensures
        first_unreadable(readings, i) matches Some(j) ==> i <= j < readings.len() && readings[j as int] is None
            && forall|k: int| i <= k < j ==> #[trigger] readings[k] is Some,
    decreases readings.len() - i,
{
    if i < readings.len() {
        lemma_first_unreadable_found(readings, i + 1);
    }
}

/// A refused file reports the first token that is not a number, if there is
/// one, and otherwise its count of numbers, which is not 16.
pub proof fn law_w2c_first_problem(readings: Seq<Option<u32>>)
    requires
        readings.len() <= usize::MAX,
    ensures
        w2c_of(readings) matches Err(W2cError::InvalidValue { index }) ==> index < readings.len()
            && readings[index as int] is None && forall|k: int| 0 <= k < index ==> #[trigger] readings[k] is Some,
        (exists|k: int| 0 <= k < readings.len() && #[trigger] readings[k] is None) ==> w2c_of(readings) is Err
            && w2c_of(readings)->Err_0 is InvalidValue,
        (forall|k: int| 0 <= k < readings.len() ==> #[trigger] readings[k] is Some) && readings.len() != 16
            ==> w2c_of(readings) == Err::<Seq<u32>, W2cError>(W2cError::WrongCount { count: readings.len() as usize }),
{
    lemma_first_unreadable(readings, 0);
    lemma_first_unreadable_found(readings, 0);
}

proof fn lemma_first_unreadable(readings: Seq<Option<u32>>, i: nat)
    ensures
        first_unreadable(readings, i) is None <==> forall|k: int|
            i <= k < readings.len() ==> #[trigger] readings[k] is Some,
    decreases readings.len() - i,
{
    if i < readings.len() {
        lemma_first_unreadable(readings, i + 1);
    }
}

} // verus!
