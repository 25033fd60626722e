//! The key layout: which character each slot of each controller types.

use vstd::prelude::*;
use crate::codes::SLOT_COUNT;

verus! {

/// Number of controllers that have a row of keys.
pub const PAD_COUNT: usize = 4;

/// Size of the alphabet that key characters are taken from: the low half of
/// the one-byte range.
pub const ALPHABET_SIZE: usize = 128;

/// Whether `rows` is a full layout: one row of keys per controller, one key
/// per slot, every key within the alphabet.
pub open spec fn valid_rows(rows: Seq<Seq<char>>) -> bool {
    &&& rows.len() == PAD_COUNT
    &&& forall|pad: int| 0 <= pad < rows.len() ==> (#[trigger] rows[pad]).len() == SLOT_COUNT
    &&& forall|pad: int, slot: int|
        0 <= pad < rows.len() && 0 <= slot < rows[pad].len() ==> (#[trigger] rows[pad][slot] as int)
            < ALPHABET_SIZE
}

/// The key that `rows` assigns to a slot of a controller; none for a
/// controller without a row or a slot beyond the row's end.
pub open spec fn key_at(rows: Seq<Seq<char>>, pad_id: int, slot: int) -> Option<char> {
    if 0 <= pad_id < rows.len() && 0 <= slot < rows[pad_id].len() {
        Some(rows[pad_id][slot])
    } else {
        None
    }
}

/// The rows of the standard layout: the digit row and the three letter rows
/// of a keyboard, ten keys each.
pub open spec fn standard_rows() -> Seq<Seq<char>> {
    seq![
        seq!['1', '2', '3', '4', '5', '6', '7', '8', '9', '0'],
        seq!['q', 'w', 'e', 'r', 't', 'y', 'u', 'i', 'o', 'p'],
        seq!['a', 's', 'd', 'f', 'g', 'h', 'j', 'k', 'l', ';'],
        seq!['z', 'x', 'c', 'v', 'b', 'n', 'm', ',', '.', '/'],
    ]
}

/// A table of key characters, one row per controller.
pub struct KeyLayout {
    rows: Vec<Vec<char>>,
}

impl View for KeyLayout {
    type V = Seq<Seq<char>>;

    closed spec fn view(&self) -> Seq<Seq<char>> {
        Seq::new(self.rows@.len(), |pad: int| self.rows@[pad]@)
    }
}

impl KeyLayout {
    /// Whether the table is a full layout.
    pub open spec fn wf(&self) -> bool {
        valid_rows(self@)
    }

    /// The standard layout.
    pub fn standard() -> (layout: KeyLayout)
        ensures
            layout.wf(),
            layout@ == standard_rows(),
    {
        let mut rows: Vec<Vec<char>> = Vec::new();
        rows.push(vec!['1', '2', '3', '4', '5', '6', '7', '8', '9', '0']);
        rows.push(vec!['q', 'w', 'e', 'r', 't', 'y', 'u', 'i', 'o', 'p']);
        rows.push(vec!['a', 's', 'd', 'f', 'g', 'h', 'j', 'k', 'l', ';']);
        rows.push(vec!['z', 'x', 'c', 'v', 'b', 'n', 'm', ',', '.', '/']);
        let layout = KeyLayout { rows };
        proof {
            assert(layout@ =~~= standard_rows());
            lemma_standard_rows_valid();
        }
        layout
    }

    /// The key of a slot of a controller, where the layout has one.
    pub fn key(&self, pad_id: usize, slot: usize) -> (key: Option<char>)
        ensures
            key == key_at(self@, pad_id as int, slot as int),
    {
        if pad_id < self.rows.len() {
            let row = &self.rows[pad_id];
            if slot < row.len() {
                return Some(row[slot]);
            }
        }
        None
    }
}

/// The standard rows form a full layout.
pub proof fn lemma_standard_rows_valid()
    ensures
        valid_rows(standard_rows()),
{
    let rows = standard_rows();
    assert forall|pad: int, slot: int| 0 <= pad < rows.len() && 0 <= slot < rows[pad].len() implies (
    #[trigger] rows[pad][slot] as int) < ALPHABET_SIZE by {
        if pad == 0 {
        } else if pad == 1 {
        } else if pad == 2 {
        } else {
        }
    }
}

/// A full layout has a key for exactly the slots of the controllers that have
/// a row, and each of its keys lies within the alphabet.
pub proof fn lemma_valid_rows_keys(rows: Seq<Seq<char>>, pad_id: int, slot: int)
    requires
        valid_rows(rows),
    ensures
        key_at(rows, pad_id, slot) is Some <==> 0 <= pad_id < PAD_COUNT && 0 <= slot < SLOT_COUNT,
        key_at(rows, pad_id, slot) matches Some(key) ==> (key as int) < ALPHABET_SIZE,
{
}

} // verus!
