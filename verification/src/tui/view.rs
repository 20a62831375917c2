//! Layout arithmetic of the results viewer.

use vstd::prelude::*;

verus! {

/// The selected row and the first visible row of a list of `total` rows
/// shown `visible` at a time: the selection is clamped to the list, and the
/// window is centred on it as far as the list allows.
pub open spec fn window_of(total: nat, visible: nat, selected: nat) -> (nat, nat) {
    let sel = if total == 0 {
        0
    } else if selected <= total - 1 {
        selected
    } else {
        (total - 1) as nat
    };
    let start = if total <= visible {
        0
    } else {
        let max_start = (total - visible) as nat;
        let ideal = if sel >= visible / 2 {
            (sel - visible / 2) as nat
        } else {
            0
        };
        if ideal <= max_start {
            ideal
        } else {
            max_start
        }
    };
    (sel, start)
}

/// Which row of the findings list is selected and which row comes first on
/// screen (see [`window_of`]). The selected row always lies within the
/// list and within the rows shown.
pub fn results_window(total: usize, visible: usize, selected: usize) -> (w: (usize, usize))
    ensures
        (w.0 as nat, w.1 as nat) == window_of(total as nat, visible as nat, selected as nat),
        total > 0 ==> w.0 < total,
        total > 0 && visible > 0 ==> w.1 <= w.0 < w.1 + visible,
        total > visible ==> w.1 + visible <= total,
{
    let half = visible / 2;
    let sel = if total == 0 {
        0
    } else if selected <= total - 1 {
        selected
    } else {
        total - 1
    };
    let start = if total <= visible {
        0
    } else {
        let max_start = total - visible;
        let ideal = if sel >= half { sel - half } else { 0 };
        if ideal <= max_start { ideal } else { max_start }
    };
    (sel, start)
}

} // verus!
