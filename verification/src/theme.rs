//! Choosing the syntax-highlighting theme among the themes that are loaded.

use vstd::prelude::*;

use crate::approx::has_prefix;
use crate::chars::chars_of;

verus! {

/// The syntax theme used when the wanted one is not loaded.
pub const FALLBACK_SYNTAX_THEME: &'static str = "base16-ocean.dark";

/// The characters of each name.
pub open spec fn name_views(names: Seq<String>) -> Seq<Seq<char>> {
    names.map_values(|n: String| n@)
}

/// The theme to use among the loaded `names` (in their order) when `wanted`
/// is asked for: `wanted` itself when it is loaded, else the fallback theme
/// when that is loaded, else the first loaded theme; none when nothing is
/// loaded.
pub open spec fn chosen_theme(names: Seq<Seq<char>>, wanted: Seq<char>) -> Option<Seq<char>> {
    if names.contains(wanted) {
        Some(wanted)
    } else if names.contains(FALLBACK_SYNTAX_THEME@) {
        Some(FALLBACK_SYNTAX_THEME@)
    } else if names.len() > 0 {
        Some(names[0])
    } else {
        None
    }
}

/// The position of a name in `names` that is `name`, if there is one.
fn position_of(names: &[String], name: &str) -> (found: Option<usize>)
    ensures
        match found {
            Some(k) => k < names@.len() && names@[k as int]@ == name@,
            None => !name_views(names@).contains(name@),
        },
{
    let target = chars_of(name);
    let mut k: usize = 0;
    while k < names.len()
        invariant
            k <= names@.len(),
            target@ == name@,
            forall|j: int| 0 <= j < k ==> names@[j]@ != name@,
        decreases names.len() - k,
    {
        let candidate = chars_of(names[k].as_str());
        if candidate.len() == target.len() && has_prefix(candidate.as_slice(), target.as_slice()) {
            assert(candidate@.take(candidate@.len() as int) =~= candidate@);
            return Some(k);
        }
        assert(names@[k as int]@ != name@) by {
            if names@[k as int]@ == name@ {
                assert(candidate@.take(target@.len() as int) =~= candidate@);
            }
        }
        k = k + 1;
    }
    assert forall|j: int| 0 <= j < name_views(names@).len() implies name_views(names@)[j]
        != name@ by {
        assert(name_views(names@)[j] == names@[j]@);
    }
    None
}

/// Which of the loaded syntax themes `names` (in their order) to use when the
/// theme `wanted` is asked for: its position, or `None` when no theme is
/// loaded.
pub fn choose_syntax_theme(names: &[String], wanted: &str) -> (choice: Option<usize>)
    ensures
        match choice {
            Some(k) => k < names@.len() && chosen_theme(name_views(names@), wanted@) == Some(
                names@[k as int]@,
            ),
            None => chosen_theme(name_views(names@), wanted@) is None,
        },
{
    match position_of(names, wanted) {
        Some(k) => {
            assert(name_views(names@)[k as int] == wanted@);
            Some(k)
        },
        None => match position_of(names, FALLBACK_SYNTAX_THEME) {
            Some(k) => {
                assert(name_views(names@)[k as int] == FALLBACK_SYNTAX_THEME@);
                Some(k)
            },
            None => {
                if names.len() > 0 {
                    assert(name_views(names@)[0] == names@[0]@);
                    Some(0)
                } else {
                    None
                }
            },
        },
    }
}

} // verus!
