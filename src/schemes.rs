use vstd::prelude::*;

verus! {

/// Index of the first scheme at or after `from` that reads `c`, or `0`
/// when none does.
pub open spec fn first_index(schemes: Seq<Seq<char>>, c: Seq<char>, from: int) -> int
    decreases schemes.len() - from,
{
    if from < 0 || from >= schemes.len() {
        0
    } else if schemes[from] == c {
        from
    } else {
        first_index(schemes, c, from + 1)
    }
}

/// Index of the first scheme named `current`, or `0` when there is none.
pub open spec fn selection_index(schemes: Seq<Seq<char>>, current: Option<Seq<char>>) -> int {
    match current {
        Some(c) => first_index(schemes, c, 0),
        None => 0,
    }
}

/// The text of each scheme name.
pub open spec fn names_of(schemes: Seq<String>) -> Seq<Seq<char>> {
    schemes.map_values(|s: String| s@)
}

/// The text of an optional scheme name.
pub open spec fn name_view(current: Option<String>) -> Option<Seq<char>> {
    match current {
        Some(c) => Some(c@),
        None => None,
    }
}

/// Picks the index that the list opens on: the position of the scheme now in
/// use, or the first scheme when it is unknown or absent from `schemes`.
pub fn current_selection(schemes: &Vec<String>, current: &Option<String>) -> (r: usize)
    ensures
        r == selection_index(names_of(schemes@), name_view(*current)),
        schemes.len() > 0 ==> r < schemes.len(),
{
    let ghost names = names_of(schemes@);
    match current {
        None => 0,
        Some(c) => {
            let mut i: usize = 0;
            while i < schemes.len()
                invariant
                    i <= schemes.len(),
                    names == names_of(schemes@),
                    name_view(*current) == Some(c@),
                    first_index(names, c@, 0) == first_index(names, c@, i as int),
                decreases schemes.len() - i,
            {
                assert(names[i as int] == schemes@[i as int]@);
                if schemes[i].eq(c) {
                    return i;
                }
                i = i + 1;
            }
            0
        },
    }
}

} // verus!
