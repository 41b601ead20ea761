//! Resolving the tick's contact normals into one standing surface.

use vstd::prelude::*;

use crate::vec2::Vec2;

verus! {

/// Picks the contact normal most aligned with the world's up direction:
/// the one with the greatest upward coordinate, which is its dot product
/// with world-up. Ties are broken arbitrarily; the winner is only promised
/// to be one of the contacts and to have the greatest upward coordinate.
pub fn resolve_standing_surface(contacts: &Vec<Vec2>) -> (r: Option<Vec2>)
    ensures
        r is Some <==> contacts@.len() > 0,
        r matches Some(n) ==> contacts@.contains(n),
        r matches Some(n) ==> forall|i: int| 0 <= i < contacts@.len() ==> contacts@[i].y <= n.y,
{
    if contacts.len() == 0 {
        return None;
    }
    let mut best: Vec2 = contacts[0];
    let mut i: usize = 1;
    while i < contacts.len()
        invariant
            1 <= i <= contacts@.len(),
            contacts@.contains(best),
            forall|j: int| 0 <= j < i ==> contacts@[j].y <= best.y,
        decreases contacts@.len() - i,
    {
        let c: Vec2 = contacts[i];
        if best.y < c.y {
            best = c;
        }
        i = i + 1;
    }
    Some(best)
}

} // verus!
