//! The editor preference rule: the ordered list of editor programs worth
//! probing, and the choice of the first one that resolves — or none, which
//! the calling action must report as an unavailable editor. The probing
//! itself (asking the system which programs exist) and the spawning are
//! outside work; they hand this module plain availability flags.

use vstd::prelude::*;

verus! {

/// The ordered preference list of editor programs, most preferred first.
pub fn editor_candidates() -> (r: Vec<&'static str>)
    ensures
        r@.len() == 5,
        r@[0]@ == "nvim"@,
        r@[1]@ == "vi"@,
        r@[2]@ == "nano"@,
        r@[3]@ == "vim"@,
        r@[4]@ == "gedit"@,
{
    let mut v: Vec<&'static str> = Vec::new();
    v.push("nvim");
    v.push("vi");
    v.push("nano");
    v.push("vim");
    v.push("gedit");
    v
}

/// Picks the editor to use, given which candidates resolved: the first
/// available one, or none at all when nothing resolved — in which case the
/// create or edit action fails as editor-unavailable.
pub fn preferred_editor(available: &Vec<bool>) -> (r: Option<usize>)
    requires
        available@.len() == 5,
    ensures
        r matches Some(i) ==> i < 5 && available@[i as int] && (forall|j: int|
            0 <= j < i ==> !available@[j]),
        r is Some <==> exists|j: int| 0 <= j < 5 && #[trigger] available@[j],
{
    let mut i: usize = 0;
    while i < 5
        invariant
            i <= 5,
            available@.len() == 5,
            forall|j: int| 0 <= j < i ==> !available@[j],
        decreases 5 - i,
    {
        if available[i] {
            return Some(i);
        }
        i += 1;
    }
    None
}

} // verus!
