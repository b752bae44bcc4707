//! The inventory of a controller: a table of four rows, one cell per slot,
//! that holds what the modules said of themselves. Row 0 holds the firmware
//! versions, row 1 the manufacturers, row 2 the codes on the front, row 3 the
//! codes on the back. In the file the cells of a row stand between colons and
//! the rows between line feeds; an empty cell is a slot without a module.

use vstd::prelude::*;
use vstd::string::*;
use crate::platform::{slots_of, ControllerTypes};
use crate::session::Module;
use crate::text::{
    chars_of, decimal, join, join_chars, law_join_undoes_split, push_decimal, split, split_chars,
    string_of,
};

verus! {

/// The file that holds the inventory.
pub const INVENTORY_FILE: &'static str = "/usr/lib/gocontroll/modules";

/// The directory of the inventory file.
pub const INVENTORY_DIRECTORY: &'static str = "/usr/lib/gocontroll/";

/// The number of rows of an inventory.
pub const ROWS: usize = 4;

/// The rows of `text`, each cut into its cells.
pub open spec fn rows_of(text: Seq<char>) -> Seq<Seq<Seq<char>>> {
    let lines = split(text, '\n');
    Seq::new(lines.len(), |r: int| split(lines[r], ':'))
}

/// Whether `table` has four rows of `slots` cells each.
pub open spec fn is_table(table: Seq<Seq<Seq<char>>>, slots: nat) -> bool {
    table.len() == ROWS && forall|r: int| 0 <= r < ROWS ==> (#[trigger] table[r]).len() == slots
}

/// The inventory of a controller without modules.
pub open spec fn blank_table(slots: nat) -> Seq<Seq<Seq<char>>> {
    Seq::new(ROWS as nat, |r: int| Seq::new(slots, |c: int| Seq::<char>::empty()))
}

/// The inventory to start from: what the file holds, if that is a table for
/// this number of slots, and the blank inventory if the file is missing or
/// holds anything else.
pub open spec fn base_table(existing: Option<Seq<char>>, slots: nat) -> Seq<Seq<Seq<char>>> {
    match existing {
        Some(text) if is_table(rows_of(text), slots) => rows_of(text),
        _ => blank_table(slots),
    }
}

/// `table` with the cells of column `col` replaced by `values`, one for each
/// row.
pub open spec fn with_column(table: Seq<Seq<Seq<char>>>, col: int, values: Seq<Seq<char>>) -> Seq<
    Seq<Seq<char>>,
> {
    Seq::new(table.len(), |r: int| table[r].update(col, values[r]))
}

/// The cells of a module: its firmware version, and in decimal its
/// manufacturer and its two codes.
pub open spec fn column_of(module: Module) -> Seq<Seq<char>> {
    seq![
        module.firmware.text(),
        decimal(module.manufacturer as nat),
        decimal(module.qr_front as nat),
        decimal(module.qr_back as nat),
    ]
}

/// The cells of a slot without a module.
pub open spec fn blank_column() -> Seq<Seq<char>> {
    Seq::new(ROWS as nat, |r: int| Seq::<char>::empty())
}

/// `table` after the entry at `index`: a module fills the column of its
/// slot, and no module blanks the column that `index` names. An entry for a
/// slot that the controller does not have changes nothing.
pub open spec fn with_entry(
    table: Seq<Seq<Seq<char>>>,
    slots: nat,
    index: int,
    entry: Option<Module>,
) -> Seq<Seq<Seq<char>>> {
    match entry {
        Some(module) => if 1 <= module.slot <= slots {
            with_column(table, module.slot - 1, column_of(module))
        } else {
            table
        },
        None => if index < slots {
            with_column(table, index, blank_column())
        } else {
            table
        },
    }
}

/// `table` after each of `entries` in turn.
pub open spec fn with_entries(
    table: Seq<Seq<Seq<char>>>,
    slots: nat,
    entries: Seq<Option<Module>>,
) -> Seq<Seq<Seq<char>>>
    decreases entries.len(),
{
    if entries.len() == 0 {
        table
    } else {
        with_entry(
            with_entries(table, slots, entries.drop_last()),
            slots,
            entries.len() - 1,
            entries.last(),
        )
    }
}

/// The text of `table`: colons between the cells, line feeds between the
/// rows.
pub open spec fn render(table: Seq<Seq<Seq<char>>>) -> Seq<char> {
    join(Seq::new(table.len(), |r: int| join(table[r], ':')), '\n')
}

/// The inventory file after `entries` are saved over `existing`.
pub open spec fn saved(existing: Option<Seq<char>>, slots: nat, entries: Seq<Option<Module>>) -> Seq<
    char,
> {
    render(with_entries(base_table(existing, slots), slots, entries))
}

/// Builds the blank inventory for `slots` slots.
fn make_blank(slots: usize) -> (table: Vec<Vec<Vec<char>>>)
    ensures
        table.deep_view() == blank_table(slots as nat),
{
    let mut table: Vec<Vec<Vec<char>>> = Vec::new();
    let mut r: usize = 0;
    while r < ROWS
        invariant
            r <= ROWS,
            table@.len() == r,
            forall|k: int| 0 <= k < r ==> (#[trigger] table@[k]).deep_view() == Seq::new(
                slots as nat,
                |c: int| Seq::<char>::empty(),
            ),
        decreases ROWS - r,
    {
        let mut row: Vec<Vec<char>> = Vec::new();
        let mut c: usize = 0;
        while c < slots
            invariant
                c <= slots,
                row@.len() == c,
                forall|k: int| 0 <= k < c ==> (#[trigger] row@[k])@ == Seq::<char>::empty(),
            decreases slots - c,
        {
            row.push(Vec::new());
            c += 1;
        }
        assert(row.deep_view() =~= Seq::new(slots as nat, |c: int| Seq::<char>::empty())) by {
            assert forall|k: int| 0 <= k < slots implies (#[trigger] row.deep_view()[k])
                == Seq::<char>::empty() by {
                assert(row@[k].deep_view() =~= row@[k]@);
            }
        }
        table.push(row);
        r += 1;
    }
    assert(table.deep_view() =~= blank_table(slots as nat));
    table
}

/// Reads the inventory that `text` holds, if it holds one for `slots` slots.
fn read_table(text: &[char], slots: usize) -> (table: Option<Vec<Vec<Vec<char>>>>)
    ensures
        table is Some <==> is_table(rows_of(text@), slots as nat),
        table matches Some(t) ==> t.deep_view() == rows_of(text@),
{
    let lines = split_chars(text, '\n');
    if lines.len() != ROWS {
        return None;
    }
    let mut table: Vec<Vec<Vec<char>>> = Vec::new();
    let mut r: usize = 0;
    while r < ROWS
        invariant
            r <= ROWS,
            lines@.len() == ROWS,
            lines.deep_view() == split(text@, '\n'),
            table@.len() == r,
            forall|k: int|
                0 <= k < r ==> (#[trigger] table@[k]).deep_view() == rows_of(text@)[k]
                    && table@[k]@.len() == slots,
        decreases ROWS - r,
    {
        assert(lines@[r as int]@ =~= lines.deep_view()[r as int]);
        let cells = split_chars(lines[r].as_slice(), ':');
        if cells.len() != slots {
            assert(rows_of(text@)[r as int].len() != slots);
            return None;
        }
        table.push(cells);
        r += 1;
    }
    assert(table.deep_view() =~= rows_of(text@));
    assert forall|k: int| 0 <= k < ROWS implies (#[trigger] rows_of(text@)[k]).len() == slots by {
        assert(table@[k].deep_view().len() == table@[k]@.len());
    }
    Some(table)
}

/// Replaces the cells of column `col` of `table` by `values`.
fn set_column(table: &mut Vec<Vec<Vec<char>>>, col: usize, values: Vec<Vec<char>>)
    requires
        old(table)@.len() == ROWS,
        values@.len() == ROWS,
        forall|r: int| 0 <= r < ROWS ==> col < (#[trigger] old(table)@[r])@.len(),
    ensures
        final(table).deep_view() == with_column(old(table).deep_view(), col as int, values.deep_view()),
        final(table)@.len() == ROWS,
        forall|r: int|
            0 <= r < ROWS ==> (#[trigger] final(table)@[r])@.len() == old(table)@[r]@.len(),
{
    let ghost start = table.deep_view();
    let ghost cells = values.deep_view();
    let mut values = values;
    let mut r: usize = ROWS;
    while r > 0
        invariant
            r <= ROWS,
            table@.len() == ROWS,
            old(table)@.len() == ROWS,
            start == old(table).deep_view(),
            cells.len() == ROWS,
            forall|k: int| 0 <= k < ROWS ==> col < (#[trigger] old(table)@[k])@.len(),
            values@.len() == r,
            forall|k: int| 0 <= k < r ==> (#[trigger] values@[k]).deep_view() == cells[k],
            forall|k: int| 0 <= k < ROWS ==> (#[trigger] table@[k])@.len() == old(table)@[k]@.len(),
            forall|k: int| 0 <= k < r ==> (#[trigger] table@[k]) == old(table)@[k],
            forall|k: int|
                r <= k < ROWS ==> (#[trigger] table@[k]).deep_view() == start[k].update(
                    col as int,
                    cells[k],
                ),
        decreases r,
    {
        r -= 1;
        let value = match values.pop() {
            Some(value) => value,
            None => Vec::new(),
        };
        assert(value.deep_view() == cells[r as int]);
        let ghost before = table@[r as int].deep_view();
        assert(table@[r as int] == old(table)@[r as int]);
        assert(before == start[r as int]);
        let mut row: Vec<Vec<char>> = Vec::new();
        std::mem::swap(&mut row, &mut table[r]);
        row[col] = value;
        assert(row.deep_view() =~= before.update(col as int, cells[r as int]));
        table[r] = row;
    }
    assert(table.deep_view() =~= with_column(start, col as int, cells));
}

/// Writes `table` out as text.
fn render_table(table: &Vec<Vec<Vec<char>>>) -> (text: String)
    ensures
        text@ == render(table.deep_view()),
{
    let ghost rows = table.deep_view();
    let mut lines: Vec<Vec<char>> = Vec::new();
    let mut r: usize = 0;
    while r < table.len()
        invariant
            r <= table@.len(),
            rows == table.deep_view(),
            lines@.len() == r,
            forall|k: int| 0 <= k < r ==> (#[trigger] lines@[k])@ == join(rows[k], ':'),
        decreases table@.len() - r,
    {
        let line = join_chars(&table[r], ':');
        lines.push(line);
        r += 1;
    }
    assert(lines.deep_view() =~= Seq::new(rows.len(), |r: int| join(rows[r], ':'))) by {
        assert forall|k: int| 0 <= k < rows.len() implies (#[trigger] lines.deep_view()[k])
            == join(rows[k], ':') by {
            assert(lines@[k].deep_view() =~= lines@[k]@);
        }
    }
    let chars = join_chars(&lines, '\n');
    string_of(chars.as_slice())
}

/// The number `n` in decimal, as characters.
fn decimal_chars(n: u32) -> (chars: Vec<char>)
    ensures
        chars@ == decimal(n as nat),
{
    let mut text = String::new();
    push_decimal(&mut text, n);
    assert(text@ =~= decimal(n as nat));
    chars_of(text.as_str())
}

/// The cells of `module`.
fn module_column(module: &Module) -> (cells: Vec<Vec<char>>)
    ensures
        cells.deep_view() == column_of(*module),
        cells@.len() == ROWS,
{
    let mut cells: Vec<Vec<char>> = Vec::new();
    let firmware = module.firmware.as_string();
    cells.push(chars_of(firmware.as_str()));
    cells.push(decimal_chars(module.manufacturer));
    cells.push(decimal_chars(module.qr_front));
    cells.push(decimal_chars(module.qr_back));
    assert(cells.deep_view() =~= column_of(*module)) by {
        assert forall|k: int| 0 <= k < 4 implies (#[trigger] cells.deep_view()[k]) == column_of(
            *module,
        )[k] by {
            assert(cells@[k].deep_view() =~= cells@[k]@);
        }
    }
    cells
}

/// The cells of a slot without a module.
fn empty_column() -> (cells: Vec<Vec<char>>)
    ensures
        cells.deep_view() == blank_column(),
        cells@.len() == ROWS,
{
    let mut cells: Vec<Vec<char>> = Vec::new();
    cells.push(Vec::new());
    cells.push(Vec::new());
    cells.push(Vec::new());
    cells.push(Vec::new());
    assert(cells.deep_view() =~= blank_column()) by {
        assert forall|k: int| 0 <= k < 4 implies (#[trigger] cells.deep_view()[k])
            == Seq::<char>::empty() by {
            assert(cells@[k].deep_view() =~= cells@[k]@);
        }
    }
    cells
}

/// The text of an inventory file, if there is one, as the contracts see it.
pub open spec fn text_of(existing: Option<String>) -> Option<Seq<char>> {
    match existing {
        Some(text) => Some(text@),
        None => None,
    }
}

/// Enters `modules` into the inventory: gives the text that the inventory
/// file is to hold after they are entered into what it holds now.
///
/// `existing` is the content of the file, or `None` where there is none. A
/// module fills the column of its slot; a `None` among `modules` blanks the
/// column that its place in `modules` names.
pub fn save_modules(
    existing: Option<String>,
    modules: &Vec<Option<Module>>,
    controller: &ControllerTypes,
) -> (text: String)
    ensures
        text@ == saved(text_of(existing), slots_of(*controller) as nat, modules@),
{
    let slots: usize = controller.slot_count() as usize;
    let ghost base = base_table(text_of(existing), slots as nat);
    let kept = match &existing {
        Some(text) => {
            let chars = chars_of(text.as_str());
            read_table(chars.as_slice(), slots)
        },
        None => None,
    };
    let mut table = match kept {
        Some(table) => table,
        None => make_blank(slots),
    };
    assert(table.deep_view() == base);
    assert(table@.len() == ROWS && forall|r: int|
        0 <= r < ROWS ==> (#[trigger] table@[r])@.len() == slots) by {
        assert forall|r: int| 0 <= r < ROWS implies (#[trigger] table@[r])@.len() == slots by {
            assert(table.deep_view()[r].len() == table@[r]@.len());
            assert(is_table(base, slots as nat));
        }
    }
    let mut i: usize = 0;
    assert(modules@.take(0) =~= Seq::<Option<Module>>::empty());
    while i < modules.len()
        invariant
            i <= modules@.len(),
            slots == slots_of(*controller),
            table@.len() == ROWS,
            forall|r: int| 0 <= r < ROWS ==> (#[trigger] table@[r])@.len() == slots,
            table.deep_view() == with_entries(base, slots as nat, modules@.take(i as int)),
        decreases modules@.len() - i,
    {
        proof {
            let next = modules@.take(i + 1);
            assert(next.drop_last() =~= modules@.take(i as int));
            assert(next.last() == modules@[i as int]);
        }
        match &modules[i] {
            Some(module) => {
                if 1 <= module.slot && module.slot as usize <= slots {
                    set_column(&mut table, (module.slot - 1) as usize, module_column(module));
                }
            },
            None => {
                if i < slots {
                    set_column(&mut table, i, empty_column());
                }
            },
        }
        i += 1;
    }
    assert(modules@.take(i as int) =~= modules@);
    render_table(&table)
}

impl ControllerTypes {
    /// The inventory file of a controller without modules.
    pub fn get_empty_modules_file(&self) -> (text: String)
        ensures
            text@ == render(blank_table(slots_of(*self) as nat)),
    {
        let table = make_blank(self.slot_count() as usize);
        render_table(&table)
    }
}

/// An inventory reads back as it was written: the text of the rows of a
/// file is the file. So, where nothing is saved over a file that holds an
/// inventory, the file stays as it is.
pub proof fn law_inventory_reads_back(text: Seq<char>, slots: nat)
    ensures
        render(rows_of(text)) == text,
        is_table(rows_of(text), slots) ==> saved(Some(text), slots, Seq::empty()) == text,
{
    let lines = split(text, '\n');
    let rows = rows_of(text);
    let written = Seq::new(rows.len(), |r: int| join(rows[r], ':'));
    assert forall|r: int| 0 <= r < lines.len() implies written[r] == lines[r] by {
        law_join_undoes_split(lines[r], ':');
    }
    assert(written =~= lines);
    law_join_undoes_split(text, '\n');
}

} // verus!
