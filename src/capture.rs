//! Choosing what to capture among the monitors and windows that the system
//! lists.

use vstd::prelude::*;

verus! {

#[derive(Clone, Copy, PartialEq, Eq, Debug, Structural)]
pub enum CaptureError {
    /// Nothing suitable to capture, or capture was refused.
    CaptureUnavailable,
}

/// The first monitor marked primary, given for each listed monitor whether it
/// is the primary one.
pub fn primary_index(is_primary: &Vec<bool>) -> (r: Result<usize, CaptureError>)
    ensures
        match r {
            Ok(i) => i < is_primary@.len() && is_primary@[i as int] && forall|j: int|
                0 <= j < i ==> !#[trigger] is_primary@[j],
            Err(e) => e == CaptureError::CaptureUnavailable && forall|j: int|
                0 <= j < is_primary@.len() ==> !#[trigger] is_primary@[j],
        },
{
    let mut i: usize = 0;
    while i < is_primary.len()
        invariant
            i <= is_primary@.len(),
            forall|j: int| 0 <= j < i ==> !#[trigger] is_primary@[j],
        decreases is_primary@.len() - i,
    {
        if is_primary[i] {
            return Ok(i);
        }
        i = i + 1;
    }
    Err(CaptureError::CaptureUnavailable)
}

/// The first window whose title is exactly `name`.
pub fn find_title(titles: &Vec<String>, name: &str) -> (r: Option<usize>)
    ensures
        match r {
            Some(i) => i < titles@.len() && titles@[i as int]@ == name@ && forall|j: int|
                0 <= j < i ==> #[trigger] titles@[j]@ != name@,
            None => forall|j: int| 0 <= j < titles@.len() ==> #[trigger] titles@[j]@ != name@,
        },
{
    let target = name.to_owned();
    let mut i: usize = 0;
    while i < titles.len()
        invariant
            i <= titles@.len(),
            target@ == name@,
            forall|j: int| 0 <= j < i ==> #[trigger] titles@[j]@ != name@,
        decreases titles@.len() - i,
    {
        if titles[i] == target {
            return Some(i);
        }
        i = i + 1;
    }
    None
}

} // verus!
