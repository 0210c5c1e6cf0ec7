//! The tidy table: rows of named, typed values, and their conversion into
//! chart datasets.

use crate::model::data::{BarDataset, DataPoint, Dataset, Series};
use crate::model::encoding::Encoding;
use crate::number::float::{Float, ONE_BITS, ZERO_BITS};
use crate::number::text::names;
use vstd::prelude::*;

verus! {

/// One cell of a table.
#[derive(Debug, Clone, PartialEq)]
pub enum FieldValue {
    /// A number.
    Numeric(Float),
    /// A text.
    Text(String),
    /// A point in time, as a number.
    Timestamp(Float),
    /// A truth value.
    Bool(bool),
    /// No value.
    Null,
}

/// What a cell holds, with texts by their characters.
pub enum CellModel {
    Numeric(Float),
    Text(Seq<char>),
    Timestamp(Float),
    Bool(bool),
    Null,
}

impl View for FieldValue {
    type V = CellModel;

    open spec fn view(&self) -> CellModel {
        match self {
            FieldValue::Numeric(v) => CellModel::Numeric(*v),
            FieldValue::Text(s) => CellModel::Text(s@),
            FieldValue::Timestamp(v) => CellModel::Timestamp(*v),
            FieldValue::Bool(b) => CellModel::Bool(*b),
            FieldValue::Null => CellModel::Null,
        }
    }
}

impl CellModel {
    /// The cell read as a number: a number or a timestamp as it is, a truth
    /// value as 1 or 0, and nothing else.
    pub open spec fn number(self) -> Option<Float> {
        match self {
            CellModel::Numeric(v) => Some(v),
            CellModel::Timestamp(v) => Some(v),
            CellModel::Bool(b) => Some(
                if b {
                    Float::from_bits(ONE_BITS)
                } else {
                    Float::from_bits(ZERO_BITS)
                },
            ),
            CellModel::Text(_) => None,
            CellModel::Null => None,
        }
    }

    /// The text of a text cell.
    pub open spec fn text(self) -> Option<Seq<char>> {
        match self {
            CellModel::Text(s) => Some(s),
            _ => None,
        }
    }
}

impl FieldValue {
    /// The cell read as a number: a number or a timestamp as it is, a truth
    /// value as 1 or 0, and nothing else.
    pub fn as_f64(&self) -> (r: Option<Float>)
        ensures
            r == self@.number(),
    {
        match self {
            FieldValue::Numeric(v) => Some(*v),
            FieldValue::Timestamp(v) => Some(*v),
            FieldValue::Bool(b) => Some(
                if *b {
                    Float::from_bits(ONE_BITS)
                } else {
                    Float::from_bits(ZERO_BITS)
                },
            ),
            FieldValue::Text(_) => None,
            FieldValue::Null => None,
        }
    }

    /// The text of a text cell, and nothing for any other cell.
    pub fn as_str(&self) -> (r: Option<&str>)
        ensures
            r.is_some() == self@.text().is_some(),
            r.is_some() ==> r.unwrap()@ == self@.text().unwrap(),
    {
        match self {
            FieldValue::Text(s) => Some(s.as_str()),
            _ => None,
        }
    }

    /// The cell read as a point in time: a timestamp or a number.
    pub fn as_timestamp(&self) -> (r: Option<Float>)
        ensures
            r == match self@ {
                CellModel::Timestamp(v) => Some(v),
                CellModel::Numeric(v) => Some(v),
                _ => None,
            },
    {
        match self {
            FieldValue::Timestamp(v) => Some(*v),
            FieldValue::Numeric(v) => Some(*v),
            _ => None,
        }
    }

    /// Whether the cell holds no value.
    pub fn is_null(&self) -> (r: bool)
        ensures
            r == (self@ == CellModel::Null),
    {
        match self {
            FieldValue::Null => true,
            _ => false,
        }
    }

    /// A text cell.
    pub fn text(s: &str) -> (r: FieldValue)
        ensures
            r@ == CellModel::Text(s@),
    {
        FieldValue::Text(s.to_owned())
    }

    /// A cell that holds the same as this one.
    pub fn copy(&self) -> (r: FieldValue)
        ensures
            r@ == self@,
    {
        match self {
            FieldValue::Numeric(v) => FieldValue::Numeric(*v),
            FieldValue::Text(s) => FieldValue::Text(s.clone()),
            FieldValue::Timestamp(v) => FieldValue::Timestamp(*v),
            FieldValue::Bool(b) => FieldValue::Bool(*b),
            FieldValue::Null => FieldValue::Null,
        }
    }
}

/// One named cell of a row.
#[derive(Debug, Clone, PartialEq)]
pub struct Cell {
    pub name: String,
    pub value: FieldValue,
}

/// A row of a table: a value for each of some column names. No name occurs
/// twice as far as reading and writing can tell: both go by the first cell of
/// a name.
#[derive(Debug, Clone)]
pub struct DataRow {
    cells: Vec<Cell>,
}

/// The value of the first cell called `name`.
pub open spec fn lookup(cells: Seq<Cell>, name: Seq<char>) -> Option<CellModel>
    decreases cells.len(),
{
    if cells.len() == 0 {
        None
    } else if cells[0].name@ == name {
        Some(cells[0].value@)
    } else {
        lookup(cells.drop_first(), name)
    }
}

proof fn lemma_lookup_skip(cells: Seq<Cell>, name: Seq<char>, i: int)
    requires
        0 <= i <= cells.len(),
        forall|k: int| 0 <= k < i ==> (#[trigger] cells[k]).name@ != name,
    ensures
        lookup(cells, name) == lookup(cells.skip(i), name),
    decreases i,
{
    if i > 0 {
        assert(cells.drop_first().skip(i - 1) =~= cells.skip(i));
        assert forall|k: int| 0 <= k < i - 1 implies (#[trigger] cells.drop_first()[k]).name@
            != name by {
            assert(cells.drop_first()[k] == cells[k + 1]);
        }
        lemma_lookup_skip(cells.drop_first(), name, i - 1);
    } else {
        assert(cells.skip(0) =~= cells);
    }
}

proof fn lemma_lookup_push(cells: Seq<Cell>, cell: Cell, name: Seq<char>)
    ensures
        lookup(cells.push(cell), name) == if lookup(cells, name).is_some() {
            lookup(cells, name)
        } else if cell.name@ == name {
            Some(cell.value@)
        } else {
            None
        },
    decreases cells.len(),
{
    if cells.len() > 0 {
        assert(cells.push(cell).drop_first() =~= cells.drop_first().push(cell));
        assert(cells.push(cell)[0] == cells[0]);
        lemma_lookup_push(cells.drop_first(), cell, name);
    } else {
        assert(cells.push(cell).drop_first() =~= Seq::<Cell>::empty());
        assert(lookup(Seq::<Cell>::empty(), name).is_none());
        assert(cells.push(cell)[0] == cell);
    }
}

proof fn lemma_lookup_update(cells: Seq<Cell>, i: int, cell: Cell, name: Seq<char>)
    requires
        0 <= i < cells.len(),
        cells[i].name@ == cell.name@,
        forall|k: int| 0 <= k < i ==> (#[trigger] cells[k]).name@ != cell.name@,
    ensures
        lookup(cells.update(i, cell), name) == if name == cell.name@ {
            Some(cell.value@)
        } else {
            lookup(cells, name)
        },
    decreases i,
{
    if i > 0 {
        assert(cells.update(i, cell).drop_first() =~= cells.drop_first().update(i - 1, cell));
        assert forall|k: int| 0 <= k < i - 1 implies (#[trigger] cells.drop_first()[k]).name@
            != cell.name@ by {
            assert(cells.drop_first()[k] == cells[k + 1]);
        }
        lemma_lookup_update(cells.drop_first(), i - 1, cell, name);
    } else {
        assert(cells.update(i, cell).drop_first() =~= cells.drop_first());
    }
}

impl View for DataRow {
    type V = Map<Seq<char>, CellModel>;

    closed spec fn view(&self) -> Map<Seq<char>, CellModel> {
        Map::new(
            |name: Seq<char>| lookup(self.cells@, name).is_some(),
            |name: Seq<char>| lookup(self.cells@, name).unwrap(),
        )
    }
}

/// The value that a row has for a column, if it has one.
pub open spec fn cell_of(row: Map<Seq<char>, CellModel>, col: Seq<char>) -> Option<CellModel> {
    if row.contains_key(col) {
        Some(row[col])
    } else {
        None
    }
}

impl DataRow {
    /// A row without cells.
    pub fn new() -> (r: DataRow)
        ensures
            r@ == Map::<Seq<char>, CellModel>::empty(),
    {
        let r = DataRow { cells: Vec::new() };
        assert(r@ =~= Map::<Seq<char>, CellModel>::empty());
        r
    }

    /// The position of the first cell called `name`.
    fn position(&self, name: &String) -> (r: Option<usize>)
        ensures
            r.is_none() ==> lookup(self.cells@, name@).is_none(),
            r.is_some() ==> r.unwrap() < self.cells@.len() && self.cells@[r.unwrap() as int].name@
                == name@ && lookup(self.cells@, name@) == Some(
                self.cells@[r.unwrap() as int].value@,
            ) && forall|k: int| 0 <= k < r.unwrap() ==> (#[trigger] self.cells@[k]).name@ != name@,
    {
        let n = self.cells.len();
        let mut i: usize = 0;
        while i < n
            invariant
                i <= n,
                n == self.cells@.len(),
                forall|k: int| 0 <= k < i ==> (#[trigger] self.cells@[k]).name@ != name@,
            decreases n - i,
        {
            if self.cells[i].name == *name {
                proof {
                    lemma_lookup_skip(self.cells@, name@, i as int);
                }
                return Some(i);
            }
            i += 1;
        }
        proof {
            lemma_lookup_skip(self.cells@, name@, n as int);
        }
        None
    }

    /// Sets the value of column `name`, and returns the value that the column
    /// had before.
    pub fn insert(&mut self, name: String, value: FieldValue) -> (r: Option<FieldValue>)
        ensures
            final(self)@ == old(self)@.insert(name@, value@),
            r.is_some() == old(self)@.contains_key(name@),
            r.is_some() ==> r.unwrap()@ == old(self)@[name@],
    {
        let ghost before = self.cells@;
        match self.position(&name) {
            Some(i) => {
                let previous = self.cells[i].value.copy();
                let cell = Cell { name, value };
                self.cells.set(i, cell);
                proof {
                    assert forall|k: Seq<char>| #[trigger]
                        lookup(self.cells@, k) == if k == cell.name@ {
                            Some(cell.value@)
                        } else {
                            lookup(before, k)
                        } by {
                        lemma_lookup_update(before, i as int, cell, k);
                    }
                    assert(self@ =~= old(self)@.insert(name@, value@));
                }
                Some(previous)
            },
            None => {
                let cell = Cell { name, value };
                self.cells.push(cell);
                proof {
                    assert forall|k: Seq<char>| #[trigger]
                        lookup(self.cells@, k) == if lookup(before, k).is_some() {
                            lookup(before, k)
                        } else if cell.name@ == k {
                            Some(cell.value@)
                        } else {
                            None
                        } by {
                        lemma_lookup_push(before, cell, k);
                    }
                    assert(self@ =~= old(self)@.insert(name@, value@));
                }
                None
            },
        }
    }

    /// The value of column `name`, if the row has one.
    pub fn get(&self, name: &str) -> (r: Option<&FieldValue>)
        ensures
            r.is_some() == self@.contains_key(name@),
            r.is_some() ==> r.unwrap()@ == self@[name@],
    {
        let wanted = name.to_owned();
        match self.position(&wanted) {
            Some(i) => Some(&self.cells[i].value),
            None => None,
        }
    }

    /// A row that holds the same as this one.
    pub fn copy(&self) -> (r: DataRow)
        ensures
            r@ == self@,
    {
        let n = self.cells.len();
        let mut cells: Vec<Cell> = Vec::new();
        let mut i: usize = 0;
        while i < n
            invariant
                i <= n,
                n == self.cells@.len(),
                cells@.len() == i,
                forall|k: int|
                    0 <= k < i ==> (#[trigger] cells@[k]).name@ == self.cells@[k].name@
                        && cells@[k].value@ == self.cells@[k].value@,
            decreases n - i,
        {
            cells.push(Cell { name: self.cells[i].name.clone(), value: self.cells[i].value.copy() });
            i += 1;
        }
        let r = DataRow { cells };
        proof {
            assert forall|k: Seq<char>| lookup(r.cells@, k) == lookup(self.cells@, k) by {
                lemma_lookup_alike(r.cells@, self.cells@, k);
            }
            assert(r@ =~= self@);
        }
        r
    }
}

proof fn lemma_lookup_alike(a: Seq<Cell>, b: Seq<Cell>, name: Seq<char>)
    requires
        a.len() == b.len(),
        forall|k: int|
            0 <= k < a.len() ==> (#[trigger] a[k]).name@ == b[k].name@ && a[k].value@ == b[k].value@,
    ensures
        lookup(a, name) == lookup(b, name),
    decreases a.len(),
{
    if a.len() > 0 {
        assert forall|k: int| 0 <= k < a.drop_first().len() implies (#[trigger] a.drop_first()[k]).name@
            == b.drop_first()[k].name@ && a.drop_first()[k].value@ == b.drop_first()[k].value@ by {
            assert(a.drop_first()[k] == a[k + 1]);
            assert(b.drop_first()[k] == b[k + 1]);
        }
        lemma_lookup_alike(a.drop_first(), b.drop_first(), name);
    }
}

impl Default for DataRow {
    fn default() -> (r: DataRow)
        ensures
            r@ == Map::<Seq<char>, CellModel>::empty(),
    {
        DataRow::new()
    }
}

/// What a row holds: a value for each of its column names.
pub type RowModel = Map<Seq<char>, CellModel>;

/// What a list of rows holds.
pub open spec fn row_views(rows: Seq<DataRow>) -> Seq<RowModel> {
    rows.map_values(|r: DataRow| r@)
}

/// A table: rows in the order of their source.
#[derive(Debug, Clone)]
pub struct DataTable {
    rows: Vec<DataRow>,
}

impl View for DataTable {
    type V = Seq<RowModel>;

    closed spec fn view(&self) -> Seq<RowModel> {
        row_views(self.rows@)
    }
}

/// The numbers of column `col`, one for each row that has a number there, in
/// row order.
pub open spec fn numbers_of(rows: Seq<RowModel>, col: Seq<char>) -> Seq<Float>
    decreases rows.len(),
{
    if rows.len() == 0 {
        Seq::empty()
    } else {
        let front = numbers_of(rows.drop_last(), col);
        match cell_of(rows.last(), col) {
            Some(cell) => match cell.number() {
                Some(v) => front.push(v),
                None => front,
            },
            None => front,
        }
    }
}

/// The texts of column `col`, one for each row that has a text there, in
/// row order.
pub open spec fn texts_of(rows: Seq<RowModel>, col: Seq<char>) -> Seq<Seq<char>>
    decreases rows.len(),
{
    if rows.len() == 0 {
        Seq::empty()
    } else {
        let front = texts_of(rows.drop_last(), col);
        match cell_of(rows.last(), col) {
            Some(cell) => match cell.text() {
                Some(s) => front.push(s),
                None => front,
            },
            None => front,
        }
    }
}

/// The points of the rows that have a number in both columns, in row order.
pub open spec fn xy_points(rows: Seq<RowModel>, x: Seq<char>, y: Seq<char>) -> Seq<DataPoint>
    decreases rows.len(),
{
    if rows.len() == 0 {
        Seq::empty()
    } else {
        let front = xy_points(rows.drop_last(), x, y);
        match (cell_of(rows.last(), x), cell_of(rows.last(), y)) {
            (Some(cx), Some(cy)) => match (cx.number(), cy.number()) {
                (Some(vx), Some(vy)) => front.push(DataPoint { x: vx, y: vy }),
                _ => front,
            },
            _ => front,
        }
    }
}

/// The key under which a row is grouped by a cell: a text as it is, a number
/// or a timestamp by its decimal text, a truth value as `true` or `false`,
/// and a missing or empty cell as `__null__`.
pub open spec fn group_key(cell: Option<CellModel>) -> Seq<char> {
    match cell {
        Some(CellModel::Text(s)) => s,
        Some(CellModel::Numeric(v)) => v.spec_to_text(),
        Some(CellModel::Timestamp(v)) => v.spec_to_text(),
        Some(CellModel::Bool(b)) => if b {
            "true"@
        } else {
            "false"@
        },
        Some(CellModel::Null) => "__null__"@,
        None => "__null__"@,
    }
}

/// The texts of `keys` without repetitions, each at its first occurrence.
pub open spec fn distinct(keys: Seq<Seq<char>>) -> Seq<Seq<char>>
    decreases keys.len(),
{
    if keys.len() == 0 {
        Seq::empty()
    } else if distinct(keys.drop_last()).contains(keys.last()) {
        distinct(keys.drop_last())
    } else {
        distinct(keys.drop_last()).push(keys.last())
    }
}

/// The group keys of the rows by column `col`, one for each row.
pub open spec fn keys_of(rows: Seq<RowModel>, col: Seq<char>) -> Seq<Seq<char>> {
    rows.map_values(|r: RowModel| group_key(cell_of(r, col)))
}

/// The rows whose group key by column `col` is `key`, in row order.
pub open spec fn rows_with_key(rows: Seq<RowModel>, col: Seq<char>, key: Seq<char>) -> Seq<RowModel>
    decreases rows.len(),
{
    if rows.len() == 0 {
        Seq::empty()
    } else if group_key(cell_of(rows.last(), col)) == key {
        rows_with_key(rows.drop_last(), col, key).push(rows.last())
    } else {
        rows_with_key(rows.drop_last(), col, key)
    }
}

/// The keys of the groups by column `col`, in the order in which they first
/// occur.
pub open spec fn group_keys(rows: Seq<RowModel>, col: Seq<char>) -> Seq<Seq<char>> {
    distinct(keys_of(rows, col))
}

/// Whether `groups` is the grouping of `rows` by column `col`: one group
/// for each key, in the order in which the keys first occur, each holding
/// the rows of its key in row order.
pub open spec fn is_grouping(
    rows: Seq<RowModel>,
    col: Seq<char>,
    groups: Seq<(String, DataTable)>,
) -> bool {
    &&& groups.len() == group_keys(rows, col).len()
    &&& forall|g: int|
        0 <= g < groups.len() ==> {
            &&& (#[trigger] groups[g]).0@ == group_keys(rows, col)[g]
            &&& groups[g].1@ == rows_with_key(rows, col, group_keys(rows, col)[g])
        }
}

/// No key occurs twice among the distinct keys, and they are the keys that
/// occur at all.
pub proof fn lemma_distinct_is_exact(keys: Seq<Seq<char>>)
    ensures
        forall|i: int, j: int|
            0 <= i < j < distinct(keys).len() ==> #[trigger] distinct(keys)[i] != #[trigger] distinct(
                keys,
            )[j],
        forall|k: Seq<char>| distinct(keys).contains(k) <==> keys.contains(k),
        distinct(keys).len() <= keys.len(),
    decreases keys.len(),
{
    if keys.len() > 0 {
        let front = keys.drop_last();
        lemma_distinct_is_exact(front);
        let d = distinct(front);
        let r = distinct(keys);
        assert(keys[keys.len() - 1] == keys.last());
        assert forall|k: Seq<char>| r.contains(k) <==> keys.contains(k) by {
            if r.contains(k) {
                let i = choose|i: int| 0 <= i < r.len() && r[i] == k;
                if i < d.len() {
                    assert(d[i] == k);
                    assert(d.contains(k));
                    assert(front.contains(k));
                    let j = choose|j: int| 0 <= j < front.len() && front[j] == k;
                    assert(keys[j] == k);
                }
            }
            if keys.contains(k) {
                let j = choose|j: int| 0 <= j < keys.len() && keys[j] == k;
                if j < front.len() {
                    assert(front[j] == k);
                    assert(front.contains(k));
                    assert(d.contains(k));
                    let i = choose|i: int| 0 <= i < d.len() && d[i] == k;
                    assert(r[i] == k);
                } else if d.contains(k) {
                    let i = choose|i: int| 0 <= i < d.len() && d[i] == k;
                    assert(r[i] == k);
                } else {
                    assert(r[r.len() - 1] == k);
                }
            }
        }
        assert forall|i: int, j: int| 0 <= i < j < r.len() implies #[trigger] r[i] != #[trigger] r[j] by {
            if j < d.len() {
                assert(r[i] == d[i] && r[j] == d[j]);
            } else {
                assert(r[i] == d[i]);
                assert(d.contains(d[i]));
            }
        }
    }
}

/// The number of rows in the groups of the given keys.
pub open spec fn rows_in_groups(rows: Seq<RowModel>, col: Seq<char>, keys: Seq<Seq<char>>) -> nat
    decreases keys.len(),
{
    if keys.len() == 0 {
        0
    } else {
        rows_in_groups(rows, col, keys.drop_last()) + rows_with_key(rows, col, keys.last()).len()
    }
}

proof fn lemma_rows_in_groups_step(
    rows: Seq<RowModel>,
    col: Seq<char>,
    keys: Seq<Seq<char>>,
)
    requires
        rows.len() > 0,
        forall|i: int, j: int| 0 <= i < j < keys.len() ==> #[trigger] keys[i] != #[trigger] keys[j],
    ensures
        rows_in_groups(rows, col, keys) == rows_in_groups(rows.drop_last(), col, keys) + if keys.contains(
            group_key(cell_of(rows.last(), col)),
        ) {
            1nat
        } else {
            0nat
        },
    decreases keys.len(),
{
    if keys.len() > 0 {
        let front = keys.drop_last();
        let key = group_key(cell_of(rows.last(), col));
        assert forall|i: int, j: int| 0 <= i < j < front.len() implies #[trigger] front[i]
            != #[trigger] front[j] by {
            assert(front[i] == keys[i] && front[j] == keys[j]);
        }
        lemma_rows_in_groups_step(rows, col, front);
        assert(keys[keys.len() - 1] == keys.last());
        if keys.last() == key {
            if front.contains(key) {
                let i = choose|i: int| 0 <= i < front.len() && front[i] == key;
                assert(keys[i] == keys[keys.len() - 1]);
            }
        } else {
            if keys.contains(key) {
                let i = choose|i: int| 0 <= i < keys.len() && keys[i] == key;
                assert(front[i] == key);
            }
            if front.contains(key) {
                let i = choose|i: int| 0 <= i < front.len() && front[i] == key;
                assert(keys[i] == key);
            }
        }
    }
}

proof fn lemma_rows_in_groups_empty(col: Seq<char>, keys: Seq<Seq<char>>)
    ensures
        rows_in_groups(Seq::empty(), col, keys) == 0,
    decreases keys.len(),
{
    if keys.len() > 0 {
        lemma_rows_in_groups_empty(col, keys.drop_last());
    }
}

proof fn lemma_rows_in_groups_covers(rows: Seq<RowModel>, col: Seq<char>, keys: Seq<Seq<char>>)
    requires
        forall|i: int, j: int| 0 <= i < j < keys.len() ==> #[trigger] keys[i] != #[trigger] keys[j],
        forall|i: int| 0 <= i < rows.len() ==> keys.contains(group_key(cell_of(#[trigger] rows[i], col))),
    ensures
        rows_in_groups(rows, col, keys) == rows.len(),
    decreases rows.len(),
{
    if rows.len() == 0 {
        lemma_rows_in_groups_empty(col, keys);
        assert(rows =~= Seq::<RowModel>::empty());
    } else {
        let front = rows.drop_last();
        assert forall|i: int| 0 <= i < front.len() implies keys.contains(
            group_key(cell_of(#[trigger] front[i], col)),
        ) by {
            assert(front[i] == rows[i]);
        }
        lemma_rows_in_groups_covers(front, col, keys);
        lemma_rows_in_groups_step(rows, col, keys);
        assert(rows[rows.len() - 1] == rows.last());
    }
}

/// Grouping places every row in exactly one group: the groups have distinct
/// keys and as many rows between them as the table has.
pub proof fn lemma_groups_partition(rows: Seq<RowModel>, col: Seq<char>)
    ensures
        forall|i: int, j: int|
            0 <= i < j < group_keys(rows, col).len() ==> #[trigger] group_keys(rows, col)[i]
                != #[trigger] group_keys(rows, col)[j],
        rows_in_groups(rows, col, group_keys(rows, col)) == rows.len(),
        rows.len() > 0 ==> group_keys(rows, col).len() > 0,
{
    let keys = keys_of(rows, col);
    lemma_distinct_is_exact(keys);
    assert forall|i: int| 0 <= i < rows.len() implies group_keys(rows, col).contains(
        group_key(cell_of(#[trigger] rows[i], col)),
    ) by {
        assert(keys[i] == group_key(cell_of(rows[i], col)));
        assert(keys.contains(keys[i]));
    }
    lemma_rows_in_groups_covers(rows, col, group_keys(rows, col));
    if rows.len() > 0 {
        assert(keys.contains(keys[0]));
    }
}

/// The value of the bar of category `cat`: the number that the first row
/// with the text `cat` in column `x` has in column `y`, and zero where there
/// is no such row or no number in it.
pub open spec fn bar_value(rows: Seq<RowModel>, x: Seq<char>, y: Seq<char>, cat: Seq<char>) -> Float
    decreases rows.len(),
{
    if rows.len() == 0 {
        Float::from_bits(ZERO_BITS)
    } else if cell_of(rows[0], x) == Some(CellModel::Text(cat)) {
        match cell_of(rows[0], y) {
            Some(cell) => match cell.number() {
                Some(v) => v,
                None => Float::from_bits(ZERO_BITS),
            },
            None => Float::from_bits(ZERO_BITS),
        }
    } else {
        bar_value(rows.drop_first(), x, y, cat)
    }
}

/// The values of the bars of the given categories.
pub open spec fn bar_values(
    rows: Seq<RowModel>,
    x: Seq<char>,
    y: Seq<char>,
    categories: Seq<Seq<char>>,
) -> Seq<Float> {
    categories.map_values(|cat: Seq<char>| bar_value(rows, x, y, cat))
}

/// The text of the key under which a row is grouped by `cell`.
fn key_text(cell: Option<&FieldValue>) -> (r: String)
    ensures
        r@ == group_key(
            match cell {
                Some(c) => Some(c@),
                None => None,
            },
        ),
{
    match cell {
        Some(FieldValue::Text(s)) => s.clone(),
        Some(FieldValue::Numeric(v)) => v.to_text(),
        Some(FieldValue::Timestamp(v)) => v.to_text(),
        Some(FieldValue::Bool(b)) => if *b {
            "true".to_owned()
        } else {
            "false".to_owned()
        },
        Some(FieldValue::Null) => "__null__".to_owned(),
        None => "__null__".to_owned(),
    }
}

/// Whether `list` holds a string with the text of `s`.
fn holds(list: &Vec<String>, s: &String) -> (r: bool)
    ensures
        r == names(list@).contains(s@),
{
    let n = list.len();
    let mut i: usize = 0;
    while i < n
        invariant
            i <= n,
            n == list@.len(),
            forall|k: int| 0 <= k < i ==> names(list@)[k] != s@,
        decreases n - i,
    {
        assert(names(list@)[i as int] == list@[i as int]@);
        if list[i] == *s {
            return true;
        }
        i += 1;
    }
    false
}

/// The value of the row for a column, as a model.
pub(crate) fn cell_at<'a>(row: &'a DataRow, col: &str) -> (r: Option<&'a FieldValue>)
    ensures
        (match r {
            Some(c) => Some(c@),
            None => None,
        }) == cell_of(row@, col@),
{
    row.get(col)
}

impl DataTable {
    /// A table of the given rows.
    pub fn new(rows: Vec<DataRow>) -> (r: DataTable)
        ensures
            r@ == row_views(rows@),
    {
        DataTable { rows }
    }

    /// A table of the given rows.
    pub fn from_rows(rows: Vec<DataRow>) -> (r: DataTable)
        ensures
            r@ == row_views(rows@),
    {
        DataTable::new(rows)
    }

    /// Appends a row.
    pub fn push(&mut self, row: DataRow)
        ensures
            final(self)@ == old(self)@.push(row@),
    {
        self.rows.push(row);
        assert(self@ =~= old(self)@.push(row@));
    }

    /// The number of rows.
    pub fn len(&self) -> (r: usize)
        ensures
            r == self@.len(),
    {
        self.rows.len()
    }

    /// Whether the table has no rows.
    pub fn is_empty(&self) -> (r: bool)
        ensures
            r == (self@.len() == 0),
    {
        self.rows.len() == 0
    }

    /// The rows, in order.
    pub fn rows(&self) -> (r: &[DataRow])
        ensures
            row_views(r@) == self@,
    {
        self.rows.as_slice()
    }

    /// The numbers of column `col`, skipping the rows that have none there.
    pub fn extract_numeric(&self, col: &str) -> (r: Vec<Float>)
        ensures
            r@ == numbers_of(self@, col@),
    {
        let n = self.rows.len();
        let mut out: Vec<Float> = Vec::new();
        let mut i: usize = 0;
        while i < n
            invariant
                i <= n,
                n == self.rows@.len(),
                out@ == numbers_of(self@.take(i as int), col@),
            decreases n - i,
        {
            assert(self@.take(i + 1).drop_last() =~= self@.take(i as int));
            assert(self@.take(i + 1).last() == self.rows@[i as int]@);
            if let Some(cell) = cell_at(&self.rows[i], col) {
                if let Some(v) = cell.as_f64() {
                    out.push(v);
                }
            }
            i += 1;
        }
        assert(self@.take(n as int) =~= self@);
        out
    }

    /// The texts of column `col`, skipping the rows that have none there.
    pub fn extract_text(&self, col: &str) -> (r: Vec<String>)
        ensures
            names(r@) == texts_of(self@, col@),
    {
        let n = self.rows.len();
        let mut out: Vec<String> = Vec::new();
        let mut i: usize = 0;
        while i < n
            invariant
                i <= n,
                n == self.rows@.len(),
                names(out@) == texts_of(self@.take(i as int), col@),
            decreases n - i,
        {
            assert(self@.take(i + 1).drop_last() =~= self@.take(i as int));
            assert(self@.take(i + 1).last() == self.rows@[i as int]@);
            if let Some(cell) = cell_at(&self.rows[i], col) {
                if let Some(s) = cell.as_str() {
                    let ghost before = out@;
                    let owned = s.to_owned();
                    out.push(owned);
                    assert(names(out@) =~= names(before).push(owned@));
                }
            }
            i += 1;
        }
        assert(self@.take(n as int) =~= self@);
        out
    }

    /// The points of the rows that have a number in both columns.
    pub(crate) fn extract_xy(&self, x_col: &str, y_col: &str) -> (r: Vec<DataPoint>)
        ensures
            r@ == xy_points(self@, x_col@, y_col@),
    {
        let n = self.rows.len();
        let mut out: Vec<DataPoint> = Vec::new();
        let mut i: usize = 0;
        while i < n
            invariant
                i <= n,
                n == self.rows@.len(),
                out@ == xy_points(self@.take(i as int), x_col@, y_col@),
            decreases n - i,
        {
            assert(self@.take(i + 1).drop_last() =~= self@.take(i as int));
            assert(self@.take(i + 1).last() == self.rows@[i as int]@);
            let cx = cell_at(&self.rows[i], x_col);
            let cy = cell_at(&self.rows[i], y_col);
            if let Some(cell_x) = cx {
                if let Some(cell_y) = cy {
                    if let Some(x) = cell_x.as_f64() {
                        if let Some(y) = cell_y.as_f64() {
                            out.push(DataPoint::new(x, y));
                        }
                    }
                }
            }
            i += 1;
        }
        assert(self@.take(n as int) =~= self@);
        out
    }

    /// The keys of the groups by column `col`, in the order in which they
    /// first occur.
    fn distinct_keys(&self, col: &str) -> (r: Vec<String>)
        ensures
            names(r@) == group_keys(self@, col@),
    {
        let n = self.rows.len();
        let mut order: Vec<String> = Vec::new();
        let mut i: usize = 0;
        assert(keys_of(self@.take(0), col@) =~= Seq::<Seq<char>>::empty());
        while i < n
            invariant
                i <= n,
                n == self.rows@.len(),
                names(order@) == distinct(keys_of(self@.take(i as int), col@)),
            decreases n - i,
        {
            let key = key_text(cell_at(&self.rows[i], col));
            proof {
                let now = keys_of(self@.take(i + 1), col@);
                assert(now.drop_last() =~= keys_of(self@.take(i as int), col@));
                assert(now.last() == key@);
            }
            if !holds(&order, &key) {
                let ghost before = order@;
                order.push(key);
                assert(names(order@) =~= names(before).push(key@));
            }
            i += 1;
        }
        assert(self@.take(n as int) =~= self@);
        order
    }

    /// The rows whose group key by column `col` is `key`.
    fn rows_of_group(&self, col: &str, key: &String) -> (r: DataTable)
        ensures
            r@ == rows_with_key(self@, col@, key@),
    {
        let n = self.rows.len();
        let mut rows: Vec<DataRow> = Vec::new();
        let mut i: usize = 0;
        while i < n
            invariant
                i <= n,
                n == self.rows@.len(),
                row_views(rows@) == rows_with_key(self@.take(i as int), col@, key@),
            decreases n - i,
        {
            assert(self@.take(i + 1).drop_last() =~= self@.take(i as int));
            assert(self@.take(i + 1).last() == self.rows@[i as int]@);
            let row_key = key_text(cell_at(&self.rows[i], col));
            if row_key == *key {
                let ghost before = rows@;
                let row = self.rows[i].copy();
                rows.push(row);
                assert(row_views(rows@) =~= row_views(before).push(row@));
            }
            i += 1;
        }
        assert(self@.take(n as int) =~= self@);
        DataTable { rows }
    }

    /// The rows grouped by the value that they have in column `col`.
    ///
    /// There is one group for each key, in the order in which the keys first
    /// occur, and each group holds the rows of its key in their order.
    pub fn group_by(&self, col: &str) -> (r: Vec<(String, DataTable)>)
        ensures
            is_grouping(self@, col@, r@),
    {
        let order = self.distinct_keys(col);
        let m = order.len();
        let mut groups: Vec<(String, DataTable)> = Vec::new();
        let mut g: usize = 0;
        assert(names(order@).len() == m);
        while g < m
            invariant
                g <= m,
                m == order@.len(),
                names(order@) == group_keys(self@, col@),
                groups@.len() == g,
                forall|k: int|
                    0 <= k < g ==> {
                        &&& (#[trigger] groups@[k]).0@ == group_keys(self@, col@)[k]
                        &&& groups@[k].1@ == rows_with_key(self@, col@, group_keys(self@, col@)[k])
                    },
            decreases m - g,
        {
            assert(names(order@)[g as int] == order@[g as int]@);
            let sub = self.rows_of_group(col, &order[g]);
            groups.push((order[g].clone(), sub));
            g += 1;
        }
        groups
    }
}

/// Whether `dataset` has exactly the series with the given names and points,
/// all of them visible.
pub open spec fn has_series(
    dataset: Dataset,
    series_names: Seq<Seq<char>>,
    points: spec_fn(int) -> Seq<DataPoint>,
) -> bool {
    &&& dataset.series@.len() == series_names.len()
    &&& forall|g: int|
        0 <= g < series_names.len() ==> {
            &&& (#[trigger] dataset.series@[g]).name@ == series_names[g]
            &&& dataset.series@[g].data@ == points(g)
            &&& dataset.series@[g].visible
        }
}

/// Whether `bars` has exactly the bar series with the given names and
/// values.
pub open spec fn has_bar_series(
    bars: BarDataset,
    series_names: Seq<Seq<char>>,
    values: spec_fn(int) -> Seq<Float>,
) -> bool {
    &&& bars.series@.len() == series_names.len()
    &&& forall|g: int|
        0 <= g < series_names.len() ==> {
            &&& (#[trigger] bars.series@[g]).name@ == series_names[g]
            &&& bars.series@[g].values@ == values(g)
        }
}

/// The value of the bar of category `cat` among `rows`.
fn bar_value_of(rows: &[DataRow], x: &str, y: &str, cat: &String) -> (r: Float)
    ensures
        r == bar_value(row_views(rows@), x@, y@, cat@),
{
    let ghost models = row_views(rows@);
    let n = rows.len();
    let mut i: usize = 0;
    assert(models.skip(0) =~= models);
    while i < n
        invariant
            i <= n,
            n == rows@.len(),
            models == row_views(rows@),
            bar_value(models, x@, y@, cat@) == bar_value(models.skip(i as int), x@, y@, cat@),
        decreases n - i,
    {
        assert(models.skip(i as int).drop_first() =~= models.skip(i + 1));
        assert(models.skip(i as int)[0] == rows@[i as int]@);
        let matches = match cell_at(&rows[i], x) {
            Some(FieldValue::Text(s)) => *s == *cat,
            _ => false,
        };
        if matches {
            if let Some(cell) = cell_at(&rows[i], y) {
                if let Some(v) = cell.as_f64() {
                    return v;
                }
            }
            return Float::from_bits(ZERO_BITS);
        }
        i += 1;
    }
    Float::from_bits(ZERO_BITS)
}

/// The values of the bars of the given categories among `rows`.
fn bar_values_of(rows: &[DataRow], x: &str, y: &str, categories: &Vec<String>) -> (r: Vec<Float>)
    ensures
        r@ == bar_values(row_views(rows@), x@, y@, names(categories@)),
{
    let m = categories.len();
    let mut values: Vec<Float> = Vec::new();
    let mut c: usize = 0;
    while c < m
        invariant
            c <= m,
            m == categories@.len(),
            values@.len() == c,
            forall|k: int|
                0 <= k < c ==> values@[k] == bar_value(
                    row_views(rows@),
                    x@,
                    y@,
                    names(categories@)[k],
                ),
        decreases m - c,
    {
        assert(names(categories@)[c as int] == categories@[c as int]@);
        values.push(bar_value_of(rows, x, y, &categories[c]));
        c += 1;
    }
    assert(values@ =~= bar_values(row_views(rows@), x@, y@, names(categories@)));
    values
}

impl DataTable {
    /// The table as series of points, the `x` and `y` of which come from the
    /// columns that `encoding` names. Rows without a number in either column
    /// are left out.
    ///
    /// Without a colour field there is one series, called `default`. With
    /// one, the rows are grouped by it and each group becomes a series under
    /// the name of its key.
    pub fn to_dataset(&self, encoding: &Encoding) -> (r: Dataset)
        ensures
            match encoding.color {
                Some(field) => has_series(
                    r,
                    group_keys(self@, field.name@),
                    |g: int|
                        xy_points(
                            rows_with_key(self@, field.name@, group_keys(self@, field.name@)[g]),
                            encoding.x.name@,
                            encoding.y.name@,
                        ),
                ),
                None => has_series(
                    r,
                    seq!["default"@],
                    |g: int| xy_points(self@, encoding.x.name@, encoding.y.name@),
                ),
            },
    {
        let x = encoding.x.name.as_str();
        let y = encoding.y.name.as_str();
        match &encoding.color {
            Some(field) => {
                let groups = self.group_by(field.name.as_str());
                let ghost keys = group_keys(self@, field.name@);
                let mut dataset = Dataset::new();
                let m = groups.len();
                let mut g: usize = 0;
                while g < m
                    invariant
                        g <= m,
                        m == groups@.len(),
                        x@ == encoding.x.name@,
                        y@ == encoding.y.name@,
                        keys == group_keys(self@, field.name@),
                        is_grouping(self@, field.name@, groups@),
                        dataset.series@.len() == g,
                        forall|k: int|
                            0 <= k < g ==> {
                                &&& (#[trigger] dataset.series@[k]).name@ == keys[k]
                                &&& dataset.series@[k].data@ == xy_points(
                                    rows_with_key(self@, field.name@, keys[k]),
                                    x@,
                                    y@,
                                )
                                &&& dataset.series@[k].visible
                            },
                    decreases m - g,
                {
                    let points = groups[g].1.extract_xy(x, y);
                    dataset.add_series(Series::new(groups[g].0.as_str(), points));
                    g += 1;
                }
                dataset
            },
            None => {
                let points = self.extract_xy(x, y);
                Dataset::from_series(Series::new("default", points))
            },
        }
    }

    /// The texts of column `col` without repetitions, each at its first
    /// occurrence.
    fn categories_of(&self, col: &str) -> (r: Vec<String>)
        ensures
            names(r@) == distinct(texts_of(self@, col@)),
    {
        let n = self.rows.len();
        let mut ordered: Vec<String> = Vec::new();
        let mut i: usize = 0;
        while i < n
            invariant
                i <= n,
                n == self.rows@.len(),
                names(ordered@) == distinct(texts_of(self@.take(i as int), col@)),
            decreases n - i,
        {
            assert(self@.take(i + 1).drop_last() =~= self@.take(i as int));
            assert(self@.take(i + 1).last() == self.rows@[i as int]@);
            if let Some(FieldValue::Text(s)) = cell_at(&self.rows[i], col) {
                proof {
                    let now = texts_of(self@.take(i + 1), col@);
                    assert(now.drop_last() =~= texts_of(self@.take(i as int), col@));
                    assert(now.last() == s@);
                }
                if !holds(&ordered, s) {
                    let ghost before = ordered@;
                    let owned = s.clone();
                    ordered.push(owned);
                    assert(names(ordered@) =~= names(before).push(owned@));
                }
            }
            i += 1;
        }
        assert(self@.take(n as int) =~= self@);
        ordered
    }

    /// The table as bars. The categories are the texts of the column that
    /// `encoding.x` names, without repetitions, in the order in which they
    /// first occur. The bar of a category is as high as the number that the
    /// first row of that category has in the column that `encoding.y` names,
    /// and zero where it has none.
    ///
    /// Without a colour field there is one series of bars, called `default`.
    /// With one, the rows are grouped by it and each group becomes a series
    /// under the name of its key.
    pub fn to_bar_dataset(&self, encoding: &Encoding) -> (r: BarDataset)
        ensures
            names(r.categories@) == distinct(texts_of(self@, encoding.x.name@)),
            match encoding.color {
                Some(field) => has_bar_series(
                    r,
                    group_keys(self@, field.name@),
                    |g: int|
                        bar_values(
                            rows_with_key(self@, field.name@, group_keys(self@, field.name@)[g]),
                            encoding.x.name@,
                            encoding.y.name@,
                            distinct(texts_of(self@, encoding.x.name@)),
                        ),
                ),
                None => has_bar_series(
                    r,
                    seq!["default"@],
                    |g: int|
                        bar_values(
                            self@,
                            encoding.x.name@,
                            encoding.y.name@,
                            distinct(texts_of(self@, encoding.x.name@)),
                        ),
                ),
            },
    {
        let x = encoding.x.name.as_str();
        let y = encoding.y.name.as_str();
        let categories = self.categories_of(x);
        let ghost cats = distinct(texts_of(self@, encoding.x.name@));
        match &encoding.color {
            Some(field) => {
                let groups = self.group_by(field.name.as_str());
                let ghost keys = group_keys(self@, field.name@);
                let m = groups.len();
                let mut series: Vec<(String, Vec<Float>)> = Vec::new();
                let mut g: usize = 0;
                while g < m
                    invariant
                        g <= m,
                        m == groups@.len(),
                        x@ == encoding.x.name@,
                        y@ == encoding.y.name@,
                        cats == names(categories@),
                        keys == group_keys(self@, field.name@),
                        is_grouping(self@, field.name@, groups@),
                        series@.len() == g,
                        forall|k: int|
                            0 <= k < g ==> {
                                &&& (#[trigger] series@[k]).0@ == keys[k]
                                &&& series@[k].1@ == bar_values(
                                    rows_with_key(self@, field.name@, keys[k]),
                                    x@,
                                    y@,
                                    cats,
                                )
                            },
                    decreases m - g,
                {
                    let values = bar_values_of(groups[g].1.rows(), x, y, &categories);
                    series.push((groups[g].0.clone(), values));
                    g += 1;
                }
                let mut bars = BarDataset::new(categories);
                let mut k: usize = 0;
                while k < m
                    invariant
                        k <= m,
                        m == series@.len(),
                        names(bars.categories@) == cats,
                        bars.series@.len() == k,
                        forall|j: int|
                            0 <= j < k ==> {
                                &&& (#[trigger] bars.series@[j]).name@ == series@[j].0@
                                &&& bars.series@[j].values@ == series@[j].1@
                            },
                    decreases m - k,
                {
                    let ghost before = bars.series@;
                    let values = series[k].1.clone();
                    bars.add_series(series[k].0.as_str(), values);
                    assert forall|j: int| 0 <= j < k + 1 implies {
                        &&& (#[trigger] bars.series@[j]).name@ == series@[j].0@
                        &&& bars.series@[j].values@ == series@[j].1@
                    } by {
                        if j < k {
                            assert(bars.series@[j] == bars.series@.drop_last()[j]);
                        }
                    }
                    k += 1;
                }
                bars
            },
            None => {
                let values = bar_values_of(self.rows.as_slice(), x, y, &categories);
                let mut bars = BarDataset::new(categories);
                bars.add_series("default", values);
                bars
            },
        }
    }
}

impl Default for DataTable {
    fn default() -> (r: DataTable)
        ensures
            r@.len() == 0,
    {
        DataTable { rows: Vec::new() }
    }
}

} // verus!
