//! The table of real hydrogenic basis states used by the GPU scans.

use crate::error::InputError;
use crate::text::str_eq;
use vstd::prelude::*;
use vstd::string::StringExecFns;

verus! {

/// The numeric identifier of each named real basis state: 1s is 0, the 2p
/// states are 10 to 12 and the 3d states 20 to 24.
pub open spec fn state_id_of(name: Seq<char>) -> Option<i32> {
    if name == "1s"@ {
        Some(0i32)
    } else if name == "2p_z"@ {
        Some(10i32)
    } else if name == "2p_x"@ {
        Some(11i32)
    } else if name == "2p_y"@ {
        Some(12i32)
    } else if name == "3d_z2"@ {
        Some(20i32)
    } else if name == "3d_x2_y2"@ {
        Some(21i32)
    } else if name == "3d_xy"@ {
        Some(22i32)
    } else if name == "3d_xz"@ {
        Some(23i32)
    } else if name == "3d_yz"@ {
        Some(24i32)
    } else {
        None
    }
}

/// The basis-state table, spelled out: each name with its identifier.
pub open spec fn state_table() -> Seq<(Seq<char>, i32)> {
    seq![
        (seq!['1', 's'], 0i32),
        (seq!['2', 'p', '_', 'z'], 10i32),
        (seq!['2', 'p', '_', 'x'], 11i32),
        (seq!['2', 'p', '_', 'y'], 12i32),
        (seq!['3', 'd', '_', 'z', '2'], 20i32),
        (seq!['3', 'd', '_', 'x', '2', '_', 'y', '2'], 21i32),
        (seq!['3', 'd', '_', 'x', 'y'], 22i32),
        (seq!['3', 'd', '_', 'x', 'z'], 23i32),
        (seq!['3', 'd', '_', 'y', 'z'], 24i32),
    ]
}

/// The lookup agrees with the table; an identifier's tens digit is the
/// principal number n - 1 written first in the name.
pub proof fn lemma_state_ids_plain(name: Seq<char>)
    ensures
        forall|k: int|
            0 <= k < 9 && name == (#[trigger] state_table()[k]).0 ==> state_id_of(name) == Some(
                state_table()[k].1,
            ),
        state_id_of(name) is Some ==> exists|k: int|
            0 <= k < 9 && name == (#[trigger] state_table()[k]).0,
        state_id_of(name) matches Some(id) ==> (name.len() >= 2 && name[0] as int == 49 + id / 10),
{
    reveal_strlit("1s");
    reveal_strlit("2p_z");
    reveal_strlit("2p_x");
    reveal_strlit("2p_y");
    reveal_strlit("3d_z2");
    reveal_strlit("3d_x2_y2");
    reveal_strlit("3d_xy");
    reveal_strlit("3d_xz");
    reveal_strlit("3d_yz");
    let t = state_table();
    assert("1s"@ =~= t[0].0);
    assert("2p_z"@ =~= t[1].0);
    assert("2p_x"@ =~= t[2].0);
    assert("2p_y"@ =~= t[3].0);
    assert("3d_z2"@ =~= t[4].0);
    assert("3d_x2_y2"@ =~= t[5].0);
    assert("3d_xy"@ =~= t[6].0);
    assert("3d_xz"@ =~= t[7].0);
    assert("3d_yz"@ =~= t[8].0);
    assert(t[0].0[0] != t[1].0[0]);
    assert(t[1].0[3] != t[2].0[3] && t[1].0[3] != t[3].0[3] && t[2].0[3] != t[3].0[3]);
    assert(t[4].0[3] != t[6].0[3] && t[4].0[3] != t[7].0[3] && t[4].0[3] != t[8].0[3]);
    assert(t[6].0[4] != t[7].0[4]);
    assert(t[1].0[0] != t[4].0[0]);
    assert(t[0].0[0] != t[4].0[0]);
}

/// Looks up the identifier of a named basis state.
pub fn state_id(name: &str) -> (r: Result<i32, InputError>)
    ensures
        r is Ok <==> state_id_of(name@) is Some,
        r matches Ok(id) ==> state_id_of(name@) == Some(id),
        r matches Err(e) ==> (e matches InputError::UnknownState { name: n } && n@ == name@),
        forall|k: int|
            0 <= k < 9 && name@ == (#[trigger] state_table()[k]).0 ==> r == Ok::<i32, InputError>(
                state_table()[k].1,
            ),
        r is Ok ==> exists|k: int| 0 <= k < 9 && name@ == (#[trigger] state_table()[k]).0,
        r matches Ok(id) ==> (name@.len() >= 2 && name@[0] as int == 49 + id / 10),
{
    proof {
        lemma_state_ids_plain(name@);
    }
    if str_eq(name, "1s") {
        Ok(0)
    } else if str_eq(name, "2p_z") {
        Ok(10)
    } else if str_eq(name, "2p_x") {
        Ok(11)
    } else if str_eq(name, "2p_y") {
        Ok(12)
    } else if str_eq(name, "3d_z2") {
        Ok(20)
    } else if str_eq(name, "3d_x2_y2") {
        Ok(21)
    } else if str_eq(name, "3d_xy") {
        Ok(22)
    } else if str_eq(name, "3d_xz") {
        Ok(23)
    } else if str_eq(name, "3d_yz") {
        Ok(24)
    } else {
        Err(InputError::UnknownState { name: String::from_str(name) })
    }
}

/// Different state names never share an identifier.
pub proof fn lemma_state_ids_distinct(a: Seq<char>, b: Seq<char>)
    requires
        state_id_of(a) is Some,
        state_id_of(a) == state_id_of(b),
    ensures
        a == b,
{
}

} // verus!
