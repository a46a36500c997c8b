//! Decisions of the scripting interface to an entity's animation component: which animations
//! it offers, and which index scripts may make active.
use crate::native::DropbearNativeError;
use crate::text::str_eq;
use vstd::prelude::*;

verus! {

/// What becomes of a requested active animation index, with `available` animations known (zero
/// when the list has not been filled yet): a negative index is refused, and so is one past the
/// end of a non-empty list; anything else is taken as it is.
pub open spec fn spec_checked_animation_index(index: Option<i32>, available: nat) -> Result<
    Option<usize>,
    DropbearNativeError,
> {
    match index {
        None => Ok(None),
        Some(v) => if v < 0 || (available > 0 && v >= available) {
            Err(DropbearNativeError::InvalidArgument)
        } else {
            Ok(Some(v as usize))
        },
    }
}

/// Checks a requested active animation index; see [`spec_checked_animation_index`].
pub fn checked_animation_index(index: Option<i32>, available: usize) -> (r: Result<
    Option<usize>,
    DropbearNativeError,
>)
    ensures
        r == spec_checked_animation_index(index, available as nat),
{
    match index {
        None => Ok(None),
        Some(v) => {
            if v < 0 {
                return Err(DropbearNativeError::InvalidArgument);
            }
            let value = v as usize;
            if available > 0 && value >= available {
                Err(DropbearNativeError::InvalidArgument)
            } else {
                Ok(Some(value))
            }
        },
    }
}

/// The position of the first animation called `name`, as scripts receive it (an `i32`, to
/// which the position is cast).
pub fn index_from_string(available: &Vec<String>, name: &str) -> (r: Option<i32>)
    ensures
        r is None <==> forall|i: int| 0 <= i < available@.len() ==> (#[trigger] available@[i])@
            != name@,
        r matches Some(k) ==> exists|i: int|
            0 <= i < available@.len() && (#[trigger] available@[i])@ == name@ && k == i as i32
                && forall|j: int| 0 <= j < i ==> (#[trigger] available@[j])@ != name@,
{
    let mut i: usize = 0;
    while i < available.len()
        invariant
            i <= available@.len(),
            forall|j: int| 0 <= j < i ==> (#[trigger] available@[j])@ != name@,
        decreases available@.len() - i,
    {
        if str_eq(available[i].as_str(), name) {
            let k = i as i32;
            assert(available@[i as int]@ == name@ && k == (i as int) as i32);
            return Some(k);
        }
        i = i + 1;
    }
    None
}

/// The animations an entity offers: its own list when it has one, otherwise the animation
/// names of its model when it has a loaded model, otherwise none.
pub fn available_animations(own: &Vec<String>, model_animations: Option<Vec<String>>) -> (r: Vec<
    String,
>)
    ensures
        own@.len() > 0 ==> r@ == own@,
        own@.len() == 0 ==> r@ == (match model_animations {
            Some(names) => names@,
            None => Seq::<String>::empty(),
        }),
{
    if own.len() > 0 {
        return own.clone();
    }
    match model_animations {
        Some(names) => names,
        None => Vec::new(),
    }
}

} // verus!
