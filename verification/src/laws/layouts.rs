//! Shaped lines.

use crate::layouts;
use crate::view::ViewModel;
use vstd::prelude::*;

verus! {

/// Shaped lines stay as long as they were shaped for the same key and the viewport has as many lines.
/// Otherwise none stays, and the lines are shaped for the new key. Without lines there is neither a
/// shaped line nor a key. Nothing else changes.
pub proof fn law_when_shapes_stay<F, L, K>(
    m: ViewModel<F, L, K>,
    key: K,
    key_is_current: bool,
    row: int,
)
    requires
        0 <= row < m.lines.len(),
    ensures
        ({
            let ready = layouts::prepared_model(m, key, key_is_current);
            &&& key_is_current && m.layouts.len() == m.lines.len() ==> ready == m
            &&& !key_is_current || m.layouts.len() != m.lines.len() ==> ready.layouts.len()
                == m.lines.len() && ready.layouts[row] is None && ready.layout_key == Some(key)
            &&& ready == (ViewModel { layouts: ready.layouts, layout_key: ready.layout_key, ..m })
        }),
{
}

/// A viewport without lines has no shaped lines and no key.
pub proof fn law_nothing_to_shape<F, L, K>(m: ViewModel<F, L, K>, key: K, key_is_current: bool)
    requires
        m.lines.len() == 0,
    ensures
        layouts::prepared_model(m, key, key_is_current).layouts.len() == 0,
        layouts::prepared_model(m, key, key_is_current).layout_key is None,
        layouts::prepared_model(m, key, key_is_current) == (ViewModel {
            layouts: Seq::empty(),
            layout_key: None,
            ..m
        }),
        layouts::stale_rows(m).len() == 0,
{
    assert(Seq::new(m.lines.len(), |i: int| i as usize) =~= Seq::<usize>::empty());
    reveal_with_fuel(Seq::filter, 2);
}

/// A row has to be shaped exactly where it was not, or its line is another one than was shaped. A
/// line that is shaped again and again stays shaped.
pub proof fn law_rows_to_shape<F, L, K>(
    m: ViewModel<F, L, K>,
    row: int,
    shaped_text: Seq<char>,
    shaped: L,
)
    requires
        m.layouts.len() == m.lines.len() <= usize::MAX,
        0 <= row < m.lines.len(),
    ensures
        m.layouts[row] is None ==> layouts::stale_rows(m).contains(row as usize),
        m.layouts[row] == Some((shaped_text, shaped)) ==> (layouts::stale_rows(m).contains(
            row as usize,
        ) <==> shaped_text != m.lines[row]),
        layouts::shaped_model(m, row, shaped).layouts[row] == Some((m.lines[row], shaped)),
        !layouts::stale_rows(layouts::shaped_model(m, row, shaped)).contains(row as usize),
        forall|other: int|
            0 <= other < m.lines.len() && other != row ==> layouts::shaped_model(
                m,
                row,
                shaped,
            ).layouts[other] == #[trigger] m.layouts[other],
{
    layouts::lemma_stale_rows(m);
    layouts::lemma_stale_rows(layouts::shaped_model(m, row, shaped));
}

} // verus!
