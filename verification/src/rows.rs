//! In-memory form of a synced table row, as exported in a backup payload: an
//! ordered list of `(column, value)` pairs, plus the maps from another
//! device's local row ids to this device's.

use vstd::prelude::*;
use vstd::string::*;
use crate::text::str_eq;

verus! {

/// A column value, as the JSON payload carries it. Integers that fit `i64`
/// are `Int`; larger unsigned integers are `BigUInt`; a floating-point number
/// is carried by its IEEE-754 bit pattern (the library never computes with
/// it, only copies and compares it); arrays and objects are carried as their
/// JSON text.
#[derive(Debug)]
pub enum Cell {
    Null,
    Bool(bool),
    Int(i64),
    BigUInt(u64),
    FloatBits(u64),
    Text(String),
    Composite(String),
}

/// Plain-value view of a `Cell`.
pub enum CellView {
    Null,
    Bool(bool),
    Int(int),
    BigUInt(int),
    FloatBits(int),
    Text(Seq<char>),
    Composite(Seq<char>),
}

impl View for Cell {
    type V = CellView;

    open spec fn view(&self) -> CellView {
        match self {
            Cell::Null => CellView::Null,
            Cell::Bool(b) => CellView::Bool(*b),
            Cell::Int(i) => CellView::Int(*i as int),
            Cell::BigUInt(u) => CellView::BigUInt(*u as int),
            Cell::FloatBits(u) => CellView::FloatBits(*u as int),
            Cell::Text(s) => CellView::Text(s@),
            Cell::Composite(s) => CellView::Composite(s@),
        }
    }
}

/// The integer of a value, when it is an integer that fits `i64`.
pub open spec fn cell_as_int(c: CellView) -> Option<int> {
    match c {
        CellView::Int(i) => Some(i),
        _ => None,
    }
}

/// The text of a value, when it is a string.
pub open spec fn cell_as_text(c: CellView) -> Option<Seq<char>> {
    match c {
        CellView::Text(s) => Some(s),
        _ => None,
    }
}

impl Cell {
    /// A copy of this value.
    pub fn copy(&self) -> (c: Cell)
        ensures
            c@ == self@,
    {
        match self {
            Cell::Null => Cell::Null,
            Cell::Bool(b) => Cell::Bool(*b),
            Cell::Int(i) => Cell::Int(*i),
            Cell::BigUInt(u) => Cell::BigUInt(*u),
            Cell::FloatBits(u) => Cell::FloatBits(*u),
            Cell::Text(s) => Cell::Text(s.clone()),
            Cell::Composite(s) => Cell::Composite(s.clone()),
        }
    }

    /// The integer, when this is an integer that fits `i64`.
    pub fn as_i64(&self) -> (r: Option<i64>)
        ensures
            match r {
                Some(i) => cell_as_int(self@) == Some(i as int),
                None => cell_as_int(self@) is None,
            },
    {
        match self {
            Cell::Int(i) => Some(*i),
            _ => None,
        }
    }

    /// The text, when this is a string.
    pub fn as_text(&self) -> (r: Option<&str>)
        ensures
            match r {
                Some(s) => cell_as_text(self@) == Some(s@),
                None => cell_as_text(self@) is None,
            },
    {
        match self {
            Cell::Text(s) => Some(s.as_str()),
            _ => None,
        }
    }

    /// Whether two values are the same value.
    pub fn same_as(&self, other: &Cell) -> (r: bool)
        ensures
            r == (self@ == other@),
    {
        match (self, other) {
            (Cell::Null, Cell::Null) => true,
            (Cell::Bool(a), Cell::Bool(b)) => *a == *b,
            (Cell::Int(a), Cell::Int(b)) => *a == *b,
            (Cell::BigUInt(a), Cell::BigUInt(b)) => *a == *b,
            (Cell::FloatBits(a), Cell::FloatBits(b)) => *a == *b,
            (Cell::Text(a), Cell::Text(b)) => str_eq(a.as_str(), b.as_str()),
            (Cell::Composite(a), Cell::Composite(b)) => str_eq(a.as_str(), b.as_str()),
            _ => false,
        }
    }
}

/// A row: `(column, value)` pairs, in the order the payload lists them.
pub struct Row {
    pub cells: Vec<(String, Cell)>,
}

/// Plain-value view of a row.
pub type RowView = Seq<(Seq<char>, CellView)>;

impl View for Row {
    type V = RowView;

    open spec fn view(&self) -> RowView {
        self.cells@.map_values(|e: (String, Cell)| (e.0@, e.1@))
    }
}

/// Position of the first entry for `key`, or the row's length.
pub open spec fn key_index(row: RowView, key: Seq<char>) -> int
    decreases row.len(),
{
    if row.len() == 0 {
        0
    } else if row[0].0 == key {
        0
    } else {
        1 + key_index(row.drop_first(), key)
    }
}

proof fn lemma_key_index(row: RowView, key: Seq<char>, i: int)
    requires
        0 <= i <= row.len(),
        forall|k: int| 0 <= k < i ==> row[k].0 != key,
        i == row.len() || row[i].0 == key,
    ensures
        key_index(row, key) == i,
    decreases row.len(),
{
    if row.len() > 0 && i > 0 {
        assert forall|k: int| 0 <= k < i - 1 implies row.drop_first()[k].0 != key by {
            assert(row[k + 1].0 != key);
        }
        lemma_key_index(row.drop_first(), key, i - 1);
    }
}

/// What `key_index` finds: no earlier entry has the key, and the position
/// is the end or an entry with the key.
proof fn lemma_key_index_props(row: RowView, key: Seq<char>)
    ensures
        0 <= key_index(row, key) <= row.len(),
        forall|k: int| 0 <= k < key_index(row, key) ==> row[k].0 != key,
        key_index(row, key) == row.len() || row[key_index(row, key)].0 == key,
    decreases row.len(),
{
    if row.len() > 0 && row[0].0 != key {
        lemma_key_index_props(row.drop_first(), key);
        assert forall|k: int| 0 <= k < key_index(row, key) implies row[k].0 != key by {
            if k > 0 {
                assert(row[k] == row.drop_first()[k - 1]);
            }
        }
    }
}

/// Two rows with the same keys in the same positions find every key at the
/// same position.
proof fn lemma_key_index_same_keys(a: RowView, b: RowView, key: Seq<char>)
    requires
        a.len() == b.len(),
        forall|k: int| 0 <= k < a.len() ==> a[k].0 == b[k].0,
    ensures
        key_index(a, key) == key_index(b, key),
{
    lemma_key_index_props(a, key);
    lemma_key_index(b, key, key_index(a, key));
}

/// The value of `key` in a row (its first entry), if present.
pub open spec fn row_get(row: RowView, key: Seq<char>) -> Option<CellView> {
    let i = key_index(row, key);
    if i < row.len() {
        Some(row[i].1)
    } else {
        None
    }
}

/// The row with `key` set to `value`: the first entry for `key` is replaced
/// in place, or a new entry is appended (as a JSON object insert does).
pub open spec fn row_set(row: RowView, key: Seq<char>, value: CellView) -> RowView {
    let i = key_index(row, key);
    if i < row.len() {
        row.update(i, (key, value))
    } else {
        row.push((key, value))
    }
}

/// Reading a row after setting a key: that key gives the value set, every
/// other key what it gave before.
pub proof fn lemma_row_set_get(row: RowView, key: Seq<char>, value: CellView, other: Seq<char>)
    ensures
        row_get(row_set(row, key, value), key) == Some(value),
        other != key ==> row_get(row_set(row, key, value), other) == row_get(row, other),
{
    let i = key_index(row, key);
    lemma_key_index_props(row, key);
    let r2 = row_set(row, key, value);
    if i < row.len() {
        assert forall|k: int| 0 <= k < row.len() implies r2[k].0 == row[k].0 by {}
        lemma_key_index_same_keys(row, r2, key);
        lemma_key_index_same_keys(row, r2, other);
        lemma_key_index_props(row, other);
        if other != key {
            let m = key_index(row, other);
            if m < row.len() {
                assert(m != i);
                assert(r2[m] == row[m]);
            }
        }
    } else {
        lemma_key_index(r2, key, i);
        lemma_key_index_props(row, other);
        if other != key {
            let m = key_index(row, other);
            assert forall|k: int| 0 <= k < m implies r2[k].0 != other by {
                assert(r2[k] == row[k]);
            }
            if m < row.len() {
                assert(r2[m] == row[m]);
                lemma_key_index(r2, other, m);
            } else {
                assert(r2[m].0 == key);
                lemma_key_index(r2, other, r2.len() as int);
            }
        }
    }
}

impl Row {
    /// Position of the first entry for `key`, or the number of entries.
    pub fn find(&self, key: &str) -> (i: usize)
        ensures
            i as int == key_index(self@, key@),
            i <= self@.len(),
    {
        let n = self.cells.len();
        let mut i: usize = 0;
        while i < n
            invariant
                n == self.cells@.len(),
                i <= n,
                forall|k: int| 0 <= k < i ==> self@[k].0 != key@,
            decreases n - i,
        {
            if str_eq(self.cells[i].0.as_str(), key) {
                proof {
                    lemma_key_index(self@, key@, i as int);
                }
                return i;
            }
            i = i + 1;
        }
        proof {
            lemma_key_index(self@, key@, n as int);
        }
        n
    }

    /// The value of `key`, if present.
    pub fn get(&self, key: &str) -> (r: Option<&Cell>)
        ensures
            match r {
                Some(c) => row_get(self@, key@) == Some(c@),
                None => row_get(self@, key@) is None,
            },
    {
        let i = self.find(key);
        if i < self.cells.len() {
            Some(&self.cells[i].1)
        } else {
            None
        }
    }

    /// Sets `key` to `value` (see `row_set`).
    pub fn set(&mut self, key: &str, value: Cell)
        ensures
            final(self)@ == row_set(old(self)@, key@, value@),
    {
        let i = self.find(key);
        let ghost v = value@;
        if i < self.cells.len() {
            let ghost before = self@;
            self.cells.set(i, (String::from_str(key), value));
            assert(self@ =~= before.update(i as int, (key@, v)));
        } else {
            let ghost before = self@;
            self.cells.push((String::from_str(key), value));
            assert(self@ =~= before.push((key@, v)));
        }
    }

    /// A copy of this row.
    pub fn copy(&self) -> (r: Row)
        ensures
            r@ == self@,
    {
        let mut cells: Vec<(String, Cell)> = Vec::new();
        let n = self.cells.len();
        let mut i: usize = 0;
        while i < n
            invariant
                n == self.cells@.len(),
                i <= n,
                cells@.len() == i,
                forall|k: int| 0 <= k < i ==> (#[trigger] cells@[k]).0@ == self.cells@[k].0@ && cells@[k].1@
                    == self.cells@[k].1@,
            decreases n - i,
        {
            let e = &self.cells[i];
            cells.push((e.0.clone(), e.1.copy()));
            i = i + 1;
        }
        let r = Row { cells };
        assert(r@ =~= self@);
        r
    }
}

/// Maps, per synced table, another device's local row ids to this device's,
/// built up table by table during a merge (and during duplicate cleanup).
pub struct IdMaps {
    pub entries: Vec<(String, i64, i64)>,
}

/// Plain-value view of the id maps: `(table, remote id, local id)` entries.
pub type IdMapsView = Seq<(Seq<char>, int, int)>;

impl View for IdMaps {
    type V = IdMapsView;

    open spec fn view(&self) -> IdMapsView {
        self.entries@.map_values(|e: (String, i64, i64)| (e.0@, e.1 as int, e.2 as int))
    }
}

/// Position of the first entry for `(table, remote)`, or the length.
pub open spec fn map_index(m: IdMapsView, table: Seq<char>, remote: int) -> int
    decreases m.len(),
{
    if m.len() == 0 {
        0
    } else if m[0].0 == table && m[0].1 == remote {
        0
    } else {
        1 + map_index(m.drop_first(), table, remote)
    }
}

proof fn lemma_map_index(m: IdMapsView, table: Seq<char>, remote: int, i: int)
    requires
        0 <= i <= m.len(),
        forall|k: int| 0 <= k < i ==> !(m[k].0 == table && m[k].1 == remote),
        i == m.len() || (m[i].0 == table && m[i].1 == remote),
    ensures
        map_index(m, table, remote) == i,
    decreases m.len(),
{
    if m.len() > 0 && i > 0 {
        assert forall|k: int| 0 <= k < i - 1 implies !(m.drop_first()[k].0 == table && m.drop_first()[k].1
            == remote) by {
            assert(!(m[k + 1].0 == table && m[k + 1].1 == remote));
        }
        lemma_map_index(m.drop_first(), table, remote, i - 1);
    }
}

/// The local id that `remote` maps to in `table`'s map, if any.
pub open spec fn map_get(m: IdMapsView, table: Seq<char>, remote: int) -> Option<int> {
    let i = map_index(m, table, remote);
    if i < m.len() {
        Some(m[i].2)
    } else {
        None
    }
}

/// The maps with `remote` mapped to `local` in `table`'s map (replacing an
/// earlier mapping of the same id).
pub open spec fn map_put(m: IdMapsView, table: Seq<char>, remote: int, local: int) -> IdMapsView {
    let i = map_index(m, table, remote);
    if i < m.len() {
        m.update(i, (table, remote, local))
    } else {
        m.push((table, remote, local))
    }
}

impl IdMaps {
    /// Empty maps.
    pub fn new() -> (m: IdMaps)
        ensures
            m@ == Seq::<(Seq<char>, int, int)>::empty(),
    {
        let m = IdMaps { entries: Vec::new() };
        assert(m@ =~= Seq::<(Seq<char>, int, int)>::empty());
        m
    }

    fn index(&self, table: &str, remote: i64) -> (i: usize)
        ensures
            i as int == map_index(self@, table@, remote as int),
            i <= self@.len(),
    {
        let n = self.entries.len();
        let mut i: usize = 0;
        while i < n
            invariant
                n == self.entries@.len(),
                i <= n,
                forall|k: int| 0 <= k < i ==> !(self@[k].0 == table@ && self@[k].1 == remote as int),
            decreases n - i,
        {
            if self.entries[i].1 == remote && str_eq(self.entries[i].0.as_str(), table) {
                proof {
                    lemma_map_index(self@, table@, remote as int, i as int);
                }
                return i;
            }
            i = i + 1;
        }
        proof {
            lemma_map_index(self@, table@, remote as int, n as int);
        }
        n
    }

    /// The local id that `remote` maps to in `table`'s map.
    pub fn get(&self, table: &str, remote: i64) -> (r: Option<i64>)
        ensures
            match r {
                Some(l) => map_get(self@, table@, remote as int) == Some(l as int),
                None => map_get(self@, table@, remote as int) is None,
            },
    {
        let i = self.index(table, remote);
        if i < self.entries.len() {
            Some(self.entries[i].2)
        } else {
            None
        }
    }

    /// Maps `remote` to `local` in `table`'s map.
    pub fn put(&mut self, table: &str, remote: i64, local: i64)
        ensures
            final(self)@ == map_put(old(self)@, table@, remote as int, local as int),
    {
        let i = self.index(table, remote);
        let ghost before = self@;
        if i < self.entries.len() {
            self.entries.set(i, (String::from_str(table), remote, local));
            assert(self@ =~= before.update(i as int, (table@, remote as int, local as int)));
        } else {
            self.entries.push((String::from_str(table), remote, local));
            assert(self@ =~= before.push((table@, remote as int, local as int)));
        }
    }
}

/// A value as it is bound into SQL: booleans become 0 or 1, an unsigned
/// integer past `i64` becomes a real of its value, arrays and objects their
/// JSON text.
pub enum SqlValue {
    Null,
    Integer(i64),
    /// A real, by its IEEE-754 bit pattern.
    RealBits(u64),
    /// A real with the value of this unsigned integer.
    RealOfUnsigned(u64),
    Text(String),
}

/// Plain-value view of a `SqlValue`.
pub enum SqlValueView {
    Null,
    Integer(int),
    RealBits(int),
    RealOfUnsigned(int),
    Text(Seq<char>),
}

/// The SQL value a cell is bound as.
pub open spec fn sql_value_spec(c: CellView) -> SqlValueView {
    match c {
        CellView::Null => SqlValueView::Null,
        CellView::Bool(b) => SqlValueView::Integer(if b {
            1
        } else {
            0
        }),
        CellView::Int(i) => SqlValueView::Integer(i),
        CellView::BigUInt(u) => SqlValueView::RealOfUnsigned(u),
        CellView::FloatBits(b) => SqlValueView::RealBits(b),
        CellView::Text(s) => SqlValueView::Text(s),
        CellView::Composite(s) => SqlValueView::Text(s),
    }
}

/// Plain-value view of a SQL value.
pub open spec fn sql_value_view(v: SqlValue) -> SqlValueView {
    match v {
        SqlValue::Null => SqlValueView::Null,
        SqlValue::Integer(i) => SqlValueView::Integer(i as int),
        SqlValue::RealBits(b) => SqlValueView::RealBits(b as int),
        SqlValue::RealOfUnsigned(u) => SqlValueView::RealOfUnsigned(u as int),
        SqlValue::Text(s) => SqlValueView::Text(s@),
    }
}

/// The SQL value a cell is bound as (see `sql_value_spec`).
pub fn json_to_sql_value(c: &Cell) -> (v: SqlValue)
    ensures
        sql_value_view(v) == sql_value_spec(c@),
{
    match c {
        Cell::Null => SqlValue::Null,
        Cell::Bool(b) => SqlValue::Integer(if *b {
            1
        } else {
            0
        }),
        Cell::Int(i) => SqlValue::Integer(*i),
        Cell::BigUInt(u) => SqlValue::RealOfUnsigned(*u),
        Cell::FloatBits(b) => SqlValue::RealBits(*b),
        Cell::Text(s) => SqlValue::Text(s.clone()),
        Cell::Composite(s) => SqlValue::Text(s.clone()),
    }
}

} // verus!
