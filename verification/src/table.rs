//! A small table of named, typed columns: the store that traces are kept in.
//!
//! Every column of a table has the same number of rows, and no two columns
//! share a name. Rows are appended by stacking one table under another with
//! the same columns, and removed by filtering with one flag per row.

use crate::errors::MonitoringError;
use vstd::prelude::*;
use vstd::string::*;

verus! {

/// The values of one column.
#[derive(Debug)]
pub enum ColumnData {
    /// Unsigned 32-bit integers, such as process identifiers.
    UInt32(Vec<u32>),
    /// Signed 64-bit integers, such as timestamps.
    Int64(Vec<i64>),
    /// Unsigned 64-bit integers, such as measured amounts.
    UInt64(Vec<u64>),
    /// Text, such as device labels.
    Text(Vec<String>),
}

/// The values of one column as a mathematical value.
pub enum ColumnValues {
    UInt32(Seq<u32>),
    Int64(Seq<i64>),
    UInt64(Seq<u64>),
    Text(Seq<Seq<char>>),
}

/// One named column.
#[derive(Debug)]
pub struct Column {
    /// The name of the column.
    pub name: String,
    /// The values, one per row.
    pub data: ColumnData,
}

/// One named column as a mathematical value.
pub struct ColumnView {
    pub name: Seq<char>,
    pub values: ColumnValues,
}

/// A table: columns of equal length under distinct names.
#[derive(Debug)]
pub struct Table {
    columns: Vec<Column>,
}

impl View for ColumnData {
    type V = ColumnValues;

    open spec fn view(&self) -> ColumnValues {
        match self {
            ColumnData::UInt32(v) => ColumnValues::UInt32(v@),
            ColumnData::Int64(v) => ColumnValues::Int64(v@),
            ColumnData::UInt64(v) => ColumnValues::UInt64(v@),
            ColumnData::Text(v) => ColumnValues::Text(v.deep_view()),
        }
    }
}

impl View for Column {
    type V = ColumnView;

    open spec fn view(&self) -> ColumnView {
        ColumnView { name: self.name@, values: self.data@ }
    }
}

/// The columns as mathematical values, in order.
pub open spec fn columns_view(columns: Seq<Column>) -> Seq<ColumnView> {
    columns.map_values(|c: Column| c@)
}

impl View for Table {
    type V = Seq<ColumnView>;

    closed spec fn view(&self) -> Seq<ColumnView> {
        columns_view(self.columns@)
    }
}

/// The number of values in a column.
pub open spec fn values_len(values: ColumnValues) -> nat {
    match values {
        ColumnValues::UInt32(v) => v.len(),
        ColumnValues::Int64(v) => v.len(),
        ColumnValues::UInt64(v) => v.len(),
        ColumnValues::Text(v) => v.len(),
    }
}

/// The number of rows of a table: the length of its columns, and zero for a
/// table without columns.
pub open spec fn height_of(table: Seq<ColumnView>) -> nat {
    if table.len() == 0 {
        0
    } else {
        values_len(table[0].values)
    }
}

/// Whether all columns have the same length.
pub open spec fn equal_lengths(table: Seq<ColumnView>) -> bool {
    forall|i: int| 0 <= i < table.len() ==> values_len(#[trigger] table[i].values) == height_of(table)
}

/// Whether no two columns share a name.
pub open spec fn distinct_names(table: Seq<ColumnView>) -> bool {
    forall|i: int, j: int|
        0 <= i < j < table.len() ==> (#[trigger] table[i]).name != (#[trigger] table[j]).name
}

/// Whether the columns make a table.
pub open spec fn table_wf(table: Seq<ColumnView>) -> bool {
    equal_lengths(table) && distinct_names(table)
}

/// The position of the column called `name`, if there is one.
pub open spec fn find_column(table: Seq<ColumnView>, name: Seq<char>) -> Option<int>
    decreases table.len(),
{
    if table.len() == 0 {
        None
    } else if table.last().name == name {
        Some(table.len() - 1)
    } else {
        find_column(table.drop_last(), name)
    }
}

/// Whether two columns hold values of the same type.
pub open spec fn same_kind(a: ColumnValues, b: ColumnValues) -> bool {
    match (a, b) {
        (ColumnValues::UInt32(_), ColumnValues::UInt32(_)) => true,
        (ColumnValues::Int64(_), ColumnValues::Int64(_)) => true,
        (ColumnValues::UInt64(_), ColumnValues::UInt64(_)) => true,
        (ColumnValues::Text(_), ColumnValues::Text(_)) => true,
        _ => false,
    }
}

/// Whether two tables have the same columns: as many, with the same names and
/// types, in the same order.
pub open spec fn same_schema(a: Seq<ColumnView>, b: Seq<ColumnView>) -> bool {
    &&& a.len() == b.len()
    &&& forall|i: int|
        0 <= i < a.len() ==> (#[trigger] a[i]).name == b[i].name && same_kind(
            a[i].values,
            b[i].values,
        )
}

/// The values of `a` followed by those of `b`, where both are of one type.
pub open spec fn concat_values(a: ColumnValues, b: ColumnValues) -> ColumnValues {
    match (a, b) {
        (ColumnValues::UInt32(x), ColumnValues::UInt32(y)) => ColumnValues::UInt32(x + y),
        (ColumnValues::Int64(x), ColumnValues::Int64(y)) => ColumnValues::Int64(x + y),
        (ColumnValues::UInt64(x), ColumnValues::UInt64(y)) => ColumnValues::UInt64(x + y),
        (ColumnValues::Text(x), ColumnValues::Text(y)) => ColumnValues::Text(x + y),
        _ => a,
    }
}

/// The rows of `a` followed by the rows of `b`, column by column.
pub open spec fn stacked(a: Seq<ColumnView>, b: Seq<ColumnView>) -> Seq<ColumnView> {
    Seq::new(
        a.len(),
        |i: int| ColumnView { name: a[i].name, values: concat_values(a[i].values, b[i].values) },
    )
}

/// The items whose flag in `mask` is set, in their order.
pub open spec fn keep<T>(items: Seq<T>, mask: Seq<bool>) -> Seq<T>
    decreases items.len(),
{
    if items.len() == 0 {
        Seq::empty()
    } else if items.len() <= mask.len() && mask[items.len() - 1] {
        keep(items.drop_last(), mask).push(items.last())
    } else {
        keep(items.drop_last(), mask)
    }
}

/// The values of a column whose flag in `mask` is set.
pub open spec fn keep_values(values: ColumnValues, mask: Seq<bool>) -> ColumnValues {
    match values {
        ColumnValues::UInt32(v) => ColumnValues::UInt32(keep(v, mask)),
        ColumnValues::Int64(v) => ColumnValues::Int64(keep(v, mask)),
        ColumnValues::UInt64(v) => ColumnValues::UInt64(keep(v, mask)),
        ColumnValues::Text(v) => ColumnValues::Text(keep(v, mask)),
    }
}

/// The rows of a table whose flag in `mask` is set.
pub open spec fn filtered(table: Seq<ColumnView>, mask: Seq<bool>) -> Seq<ColumnView> {
    Seq::new(
        table.len(),
        |i: int| ColumnView { name: table[i].name, values: keep_values(table[i].values, mask) },
    )
}

/// How many flags of `mask` are set.
pub open spec fn count_set(mask: Seq<bool>) -> nat
    decreases mask.len(),
{
    if mask.len() == 0 {
        0
    } else {
        count_set(mask.drop_last()) + if mask.last() {
            1nat
        } else {
            0nat
        }
    }
}

/// Filtering keeps as many items as flags are set among the first ones.
pub proof fn lemma_keep_len<T>(items: Seq<T>, mask: Seq<bool>)
    requires
        items.len() <= mask.len(),
    ensures
        keep(items, mask).len() == count_set(mask.subrange(0, items.len() as int)),
    decreases items.len(),
{
    if items.len() > 0 {
        lemma_keep_len(items.drop_last(), mask);
        assert(mask.subrange(0, items.len() as int).drop_last() =~= mask.subrange(
            0,
            items.len() - 1,
        ));
    }
}

/// Every item that filtering keeps is an item whose flag is set.
pub proof fn lemma_keep_members<T>(items: Seq<T>, mask: Seq<bool>, j: int)
    requires
        0 <= j < keep(items, mask).len(),
    ensures
        exists|i: int| 0 <= i < items.len() && i < mask.len() && mask[i] && items[i] == keep(items, mask)[j],
    decreases items.len(),
{
    if items.len() > 0 {
        let rest = items.drop_last();
        if items.len() <= mask.len() && mask[items.len() - 1] && j == keep(rest, mask).len() {
            assert(items[items.len() - 1] == keep(items, mask)[j]);
        } else {
            lemma_keep_members(rest, mask, j);
            let i = choose|i: int|
                0 <= i < rest.len() && i < mask.len() && mask[i] && rest[i] == keep(rest, mask)[j];
            assert(items[i] == keep(items, mask)[j]);
        }
    }
}

/// Adds the values of `src` at the end of `dst`.
fn append_copies<T: Copy>(dst: &mut Vec<T>, src: &Vec<T>)
    ensures
        final(dst)@ == old(dst)@ + src@,
{
    let n = src.len();
    let mut i: usize = 0;
    while i < n
        invariant
            i <= n == src.len(),
            dst@ == old(dst)@ + src@.subrange(0, i as int),
        decreases n - i,
    {
        dst.push(src[i]);
        i += 1;
        assert(dst@ =~= old(dst)@ + src@.subrange(0, i as int));
    }
    assert(src@.subrange(0, n as int) =~= src@);
}

/// Adds copies of the texts of `src` at the end of `dst`.
fn append_texts(dst: &mut Vec<String>, src: &Vec<String>)
    ensures
        final(dst).deep_view() == old(dst).deep_view() + src.deep_view(),
{
    let n = src.len();
    let mut i: usize = 0;
    while i < n
        invariant
            i <= n == src.len(),
            dst.deep_view() == old(dst).deep_view() + src.deep_view().subrange(0, i as int),
        decreases n - i,
    {
        let ghost before = dst.deep_view();
        dst.push(src[i].clone());
        assert(dst.deep_view() =~= before.push(src[i as int]@));
        i += 1;
        assert(dst.deep_view() =~= old(dst).deep_view() + src.deep_view().subrange(0, i as int));
    }
    assert(src.deep_view().subrange(0, n as int) =~= src.deep_view());
}

/// The values of `src` whose flag in `mask` is set.
fn kept_copies<T: Copy>(src: &Vec<T>, mask: &Vec<bool>) -> (kept: Vec<T>)
    requires
        src.len() == mask.len(),
    ensures
        kept@ == keep(src@, mask@),
{
    let n = src.len();
    let mut kept: Vec<T> = Vec::new();
    let mut i: usize = 0;
    while i < n
        invariant
            i <= n == src.len(),
            n == mask.len(),
            kept@ == keep(src@.subrange(0, i as int), mask@),
        decreases n - i,
    {
        assert(src@.subrange(0, i + 1).drop_last() =~= src@.subrange(0, i as int));
        if mask[i] {
            kept.push(src[i]);
        }
        i += 1;
    }
    assert(src@.subrange(0, n as int) =~= src@);
    kept
}

/// Copies of the texts of `src` whose flag in `mask` is set.
fn kept_texts(src: &Vec<String>, mask: &Vec<bool>) -> (kept: Vec<String>)
    requires
        src.len() == mask.len(),
    ensures
        kept.deep_view() == keep(src.deep_view(), mask@),
{
    let n = src.len();
    let mut kept: Vec<String> = Vec::new();
    let mut i: usize = 0;
    assert(kept.deep_view() =~= Seq::empty());
    while i < n
        invariant
            i <= n == src.len(),
            n == mask.len(),
            kept.deep_view() == keep(src.deep_view().subrange(0, i as int), mask@),
        decreases n - i,
    {
        assert(src.deep_view().subrange(0, i + 1).drop_last() =~= src.deep_view().subrange(
            0,
            i as int,
        ));
        assert(src.deep_view().subrange(0, i + 1).last() == src[i as int]@);
        if mask[i] {
            let ghost before = kept.deep_view();
            kept.push(src[i].clone());
            assert(kept.deep_view() =~= before.push(src[i as int]@));
        }
        i += 1;
    }
    assert(src.deep_view().subrange(0, n as int) =~= src.deep_view());
    kept
}

impl ColumnData {
    /// The number of values.
    pub fn len(&self) -> (n: usize)
        ensures
            n == values_len(self@),
    {
        match self {
            ColumnData::UInt32(v) => v.len(),
            ColumnData::Int64(v) => v.len(),
            ColumnData::UInt64(v) => v.len(),
            ColumnData::Text(v) => v.len(),
        }
    }

    /// Tells whether both hold values of the same type.
    pub fn is_same_kind(&self, other: &ColumnData) -> (same: bool)
        ensures
            same == same_kind(self@, other@),
    {
        match (self, other) {
            (ColumnData::UInt32(_), ColumnData::UInt32(_)) => true,
            (ColumnData::Int64(_), ColumnData::Int64(_)) => true,
            (ColumnData::UInt64(_), ColumnData::UInt64(_)) => true,
            (ColumnData::Text(_), ColumnData::Text(_)) => true,
            _ => false,
        }
    }

    /// A copy of the values.
    pub fn copy(&self) -> (data: ColumnData)
        ensures
            data@ == self@,
    {
        match self {
            ColumnData::UInt32(v) => {
                let mut out: Vec<u32> = Vec::new();
                append_copies(&mut out, v);
                assert(out@ =~= v@);
                ColumnData::UInt32(out)
            },
            ColumnData::Int64(v) => {
                let mut out: Vec<i64> = Vec::new();
                append_copies(&mut out, v);
                assert(out@ =~= v@);
                ColumnData::Int64(out)
            },
            ColumnData::UInt64(v) => {
                let mut out: Vec<u64> = Vec::new();
                append_copies(&mut out, v);
                assert(out@ =~= v@);
                ColumnData::UInt64(out)
            },
            ColumnData::Text(v) => {
                let mut out: Vec<String> = Vec::new();
                assert(out.deep_view() =~= Seq::empty());
                append_texts(&mut out, v);
                assert(out.deep_view() =~= v.deep_view());
                ColumnData::Text(out)
            },
        }
    }

    /// These values followed by those of `other`, which are of the same type.
    pub fn stacked_with(&self, other: &ColumnData) -> (data: ColumnData)
        requires
            same_kind(self@, other@),
        ensures
            data@ == concat_values(self@, other@),
    {
        match (self, other) {
            (ColumnData::UInt32(a), ColumnData::UInt32(b)) => {
                let mut out: Vec<u32> = Vec::new();
                append_copies(&mut out, a);
                append_copies(&mut out, b);
                assert(out@ =~= a@ + b@);
                ColumnData::UInt32(out)
            },
            (ColumnData::Int64(a), ColumnData::Int64(b)) => {
                let mut out: Vec<i64> = Vec::new();
                append_copies(&mut out, a);
                append_copies(&mut out, b);
                assert(out@ =~= a@ + b@);
                ColumnData::Int64(out)
            },
            (ColumnData::UInt64(a), ColumnData::UInt64(b)) => {
                let mut out: Vec<u64> = Vec::new();
                append_copies(&mut out, a);
                append_copies(&mut out, b);
                assert(out@ =~= a@ + b@);
                ColumnData::UInt64(out)
            },
            (ColumnData::Text(a), ColumnData::Text(b)) => {
                let mut out: Vec<String> = Vec::new();
                assert(out.deep_view() =~= Seq::empty());
                append_texts(&mut out, a);
                append_texts(&mut out, b);
                assert(out.deep_view() =~= a.deep_view() + b.deep_view());
                ColumnData::Text(out)
            },
            _ => self.copy(),
        }
    }

    /// The values whose flag in `mask` is set.
    pub fn filtered_by(&self, mask: &Vec<bool>) -> (data: ColumnData)
        requires
            values_len(self@) == mask@.len(),
        ensures
            data@ == keep_values(self@, mask@),
    {
        match self {
            ColumnData::UInt32(v) => ColumnData::UInt32(kept_copies(v, mask)),
            ColumnData::Int64(v) => ColumnData::Int64(kept_copies(v, mask)),
            ColumnData::UInt64(v) => ColumnData::UInt64(kept_copies(v, mask)),
            ColumnData::Text(v) => ColumnData::Text(kept_texts(v, mask)),
        }
    }
}

impl Column {
    /// A column called `name` with the values `data`.
    pub fn new(name: &str, data: ColumnData) -> (column: Self)
        ensures
            column.name@ == name@,
            column.data == data,
    {
        Column { name: String::from_str(name), data }
    }
}

/// The number of values after filtering is the number of set flags, whatever
/// the type of the values.
proof fn lemma_keep_values_len(values: ColumnValues, mask: Seq<bool>)
    requires
        values_len(values) == mask.len(),
    ensures
        values_len(keep_values(values, mask)) == count_set(mask),
{
    assert(mask.subrange(0, mask.len() as int) =~= mask);
    match values {
        ColumnValues::UInt32(v) => lemma_keep_len(v, mask),
        ColumnValues::Int64(v) => lemma_keep_len(v, mask),
        ColumnValues::UInt64(v) => lemma_keep_len(v, mask),
        ColumnValues::Text(v) => lemma_keep_len(v, mask),
    }
}

/// A column that the search finds is at a position of the table and has the
/// name that was searched for; where the search finds none, no column has it.
pub proof fn lemma_find_column(table: Seq<ColumnView>, name: Seq<char>)
    ensures
        match find_column(table, name) {
            Some(i) => 0 <= i < table.len() && table[i].name == name,
            None => forall|i: int| 0 <= i < table.len() ==> (#[trigger] table[i]).name != name,
        },
    decreases table.len(),
{
    if table.len() > 0 && table.last().name != name {
        let rest = table.drop_last();
        lemma_find_column(rest, name);
        match find_column(rest, name) {
            Some(i) => {
                assert(rest[i] == table[i]);
            },
            None => {
                assert forall|i: int| 0 <= i < table.len() implies (#[trigger] table[i]).name
                    != name by {
                    if i < rest.len() {
                        assert(rest[i] == table[i]);
                    }
                }
            },
        }
    }
}

impl Table {
    #[verifier::type_invariant]
    spec fn well_formed(&self) -> bool {
        table_wf(columns_view(self.columns@))
    }

    /// A table without columns and without rows.
    pub fn empty() -> (table: Self)
        ensures
            table@.len() == 0,
    {
        Table { columns: Vec::new() }
    }

    /// A table of the given columns. They must all have the same length and
    /// pairwise different names; else the call fails.
    pub fn new(columns: Vec<Column>) -> (result: Result<Self, MonitoringError>)
        ensures
            match result {
                Ok(table) => table_wf(columns_view(columns@)) && table@ == columns_view(columns@),
                Err(error) => !table_wf(columns_view(columns@)) && error is Other,
            },
    {
        let ghost view = columns_view(columns@);
        let n = columns.len();
        let mut i: usize = 0;
        while i < n
            invariant
                i <= n == columns.len(),
                view == columns_view(columns@),
                forall|k: int| 0 <= k < i ==> values_len(#[trigger] view[k].values) == height_of(view),
                forall|a: int, b: int|
                    0 <= a < b < i ==> (#[trigger] view[a]).name != (#[trigger] view[b]).name,
            decreases n - i,
        {
            if columns[i].data.len() != columns[0].data.len() {
                assert(values_len(view[i as int].values) != height_of(view));
                return Err(MonitoringError::other("columns differ in length"));
            }
            let mut j: usize = 0;
            while j < i
                invariant
                    j <= i < n == columns.len(),
                    view == columns_view(columns@),
                    forall|a: int| 0 <= a < j ==> (#[trigger] view[a]).name != view[i as int].name,
                decreases i - j,
            {
                if columns[j].name == columns[i].name {
                    assert(view[j as int].name == view[i as int].name);
                    return Err(MonitoringError::other("two columns share a name"));
                }
                j += 1;
            }
            i += 1;
        }
        Ok(Table { columns })
    }

    /// A table of columns that are known to have one length and different names.
    pub(crate) fn from_columns(columns: Vec<Column>) -> (table: Self)
        requires
            table_wf(columns_view(columns@)),
        ensures
            table@ == columns_view(columns@),
    {
        Table { columns }
    }

    /// The columns, in order.
    pub fn columns(&self) -> (columns: &Vec<Column>)
        ensures
            columns_view(columns@) == self@,
            table_wf(self@),
    {
        proof {
            use_type_invariant(self);
        }
        &self.columns
    }

    /// The number of columns.
    pub fn width(&self) -> (w: usize)
        ensures
            w == self@.len(),
    {
        self.columns.len()
    }

    /// The number of rows.
    pub fn height(&self) -> (h: usize)
        ensures
            h == height_of(self@),
            table_wf(self@),
    {
        proof {
            use_type_invariant(self);
        }
        if self.columns.len() == 0 {
            0
        } else {
            self.columns[0].data.len()
        }
    }

    /// Tells whether the table has no row.
    pub fn is_empty(&self) -> (empty: bool)
        ensures
            empty == (height_of(self@) == 0),
            table_wf(self@),
    {
        self.height() == 0
    }

    /// The column called `name`, if there is one.
    pub fn column(&self, name: &str) -> (found: Option<&Column>)
        ensures
            match found {
                Some(column) => find_column(self@, name@) matches Some(i) && 0 <= i < self@.len()
                    && column@ == self@[i],
                None => find_column(self@, name@) is None,
            },
            table_wf(self@),
    {
        proof {
            use_type_invariant(self);
            lemma_find_column(self@, name@);
        }
        let wanted = String::from_str(name);
        let n = self.columns.len();
        let mut i: usize = n;
        assert(self@.subrange(0, n as int) =~= self@);
        while i > 0
            invariant
                i <= n == self.columns.len(),
                wanted@ == name@,
                table_wf(self@),
                find_column(self@, name@) == find_column(self@.subrange(0, i as int), name@),
            decreases i,
        {
            assert(self@.subrange(0, i as int).drop_last() =~= self@.subrange(0, i - 1));
            if self.columns[i - 1].name == wanted {
                return Some(&self.columns[i - 1]);
            }
            i -= 1;
        }
        None
    }

    /// Tells whether the table has a column called `name`.
    pub fn has_column(&self, name: &str) -> (present: bool)
        ensures
            present == (find_column(self@, name@) is Some),
    {
        self.column(name).is_some()
    }

    /// The names of the columns, in order.
    pub fn get_column_names(&self) -> (names: Vec<String>)
        ensures
            names@.len() == self@.len(),
            forall|i: int| 0 <= i < names@.len() ==> (#[trigger] names@[i])@ == self@[i].name,
    {
        let n = self.columns.len();
        let mut names: Vec<String> = Vec::new();
        let mut i: usize = 0;
        while i < n
            invariant
                i <= n == self.columns.len(),
                names@.len() == i,
                forall|k: int| 0 <= k < i ==> (#[trigger] names@[k])@ == self@[k].name,
            decreases n - i,
        {
            names.push(self.columns[i].name.clone());
            i += 1;
        }
        names
    }

    /// A copy of the table.
    pub fn copy(&self) -> (table: Self)
        ensures
            table@ == self@,
    {
        proof {
            use_type_invariant(self);
        }
        let n = self.columns.len();
        let mut columns: Vec<Column> = Vec::new();
        let mut i: usize = 0;
        while i < n
            invariant
                i <= n == self.columns.len(),
                columns@.len() == i,
                forall|k: int| 0 <= k < i ==> (#[trigger] columns@[k])@ == self@[k],
            decreases n - i,
        {
            let column = &self.columns[i];
            columns.push(Column { name: column.name.clone(), data: column.data.copy() });
            i += 1;
        }
        assert(columns_view(columns@) =~= self@);
        Table { columns }
    }

    /// Tells whether `other` has the same columns: as many, with the same
    /// names and types, in the same order.
    pub fn has_schema_of(&self, other: &Table) -> (same: bool)
        ensures
            same == same_schema(self@, other@),
    {
        let n = self.columns.len();
        if other.columns.len() != n {
            return false;
        }
        let mut i: usize = 0;
        while i < n
            invariant
                i <= n == self.columns.len(),
                n == other.columns.len(),
                forall|k: int|
                    0 <= k < i ==> (#[trigger] self@[k]).name == other@[k].name && same_kind(
                        self@[k].values,
                        other@[k].values,
                    ),
            decreases n - i,
        {
            if !(self.columns[i].name == other.columns[i].name) || !self.columns[i].data.is_same_kind(
                &other.columns[i].data,
            ) {
                assert(!(self@[i as int].name == other@[i as int].name && same_kind(
                    self@[i as int].values,
                    other@[i as int].values,
                )));
                return false;
            }
            i += 1;
        }
        true
    }

    /// The rows of this table followed by the rows of `other`. Both must have
    /// the same columns; else the call fails.
    pub fn vstack(&self, other: &Table) -> (result: Result<Table, MonitoringError>)
        ensures
            match result {
                Ok(table) => same_schema(self@, other@) && table@ == stacked(self@, other@),
                Err(error) => !same_schema(self@, other@) && error is Other,
            },
    {
        proof {
            use_type_invariant(self);
            use_type_invariant(other);
        }
        if !self.has_schema_of(other) {
            return Err(MonitoringError::other("the tables differ in their columns"));
        }
        let n = self.columns.len();
        let mut columns: Vec<Column> = Vec::new();
        let mut i: usize = 0;
        while i < n
            invariant
                i <= n == self.columns.len(),
                n == other.columns.len(),
                same_schema(self@, other@),
                columns@.len() == i,
                forall|k: int| 0 <= k < i ==> (#[trigger] columns@[k])@ == stacked(self@, other@)[k],
            decreases n - i,
        {
            assert(self@[i as int].name == other@[i as int].name && same_kind(
                self@[i as int].values,
                other@[i as int].values,
            ));
            let data = self.columns[i].data.stacked_with(&other.columns[i].data);
            columns.push(Column { name: self.columns[i].name.clone(), data });
            i += 1;
        }
        let ghost view = columns_view(columns@);
        assert(view =~= stacked(self@, other@));
        assert(table_wf(view)) by {
            assert forall|k: int| 0 <= k < view.len() implies values_len(
                #[trigger] view[k].values,
            ) == height_of(view) by {
                assert(values_len(self@[k].values) == height_of(self@));
                assert(values_len(other@[k].values) == height_of(other@));
                assert(self@[k].name == other@[k].name && same_kind(
                    self@[k].values,
                    other@[k].values,
                ));
                assert(self@[0].name == other@[0].name && same_kind(
                    self@[0].values,
                    other@[0].values,
                ));
                assert(values_len(self@[0].values) == height_of(self@));
                assert(values_len(other@[0].values) == height_of(other@));
            }
            assert forall|a: int, b: int| 0 <= a < b < view.len() implies (#[trigger] view[a]).name
                != (#[trigger] view[b]).name by {
                assert(self@[a].name != self@[b].name);
            }
        }
        Ok(Table { columns })
    }

    /// The rows whose flag in `mask` is set. The mask must have one flag per
    /// row; else the call fails.
    pub fn filter(&self, mask: &Vec<bool>) -> (result: Result<Table, MonitoringError>)
        ensures
            match result {
                Ok(table) => mask@.len() == height_of(self@) && table@ == filtered(self@, mask@),
                Err(error) => mask@.len() != height_of(self@) && error is Other,
            },
    {
        proof {
            use_type_invariant(self);
        }
        if mask.len() != self.height() {
            return Err(MonitoringError::other("the mask does not have one flag per row"));
        }
        let n = self.columns.len();
        let mut columns: Vec<Column> = Vec::new();
        let mut i: usize = 0;
        while i < n
            invariant
                i <= n == self.columns.len(),
                table_wf(self@),
                mask@.len() == height_of(self@),
                columns@.len() == i,
                forall|k: int| 0 <= k < i ==> (#[trigger] columns@[k])@ == filtered(self@, mask@)[k],
            decreases n - i,
        {
            assert(values_len(self@[i as int].values) == height_of(self@));
            let data = self.columns[i].data.filtered_by(mask);
            columns.push(Column { name: self.columns[i].name.clone(), data });
            i += 1;
        }
        let ghost view = columns_view(columns@);
        assert(view =~= filtered(self@, mask@));
        assert(table_wf(view)) by {
            assert forall|k: int| 0 <= k < view.len() implies values_len(
                #[trigger] view[k].values,
            ) == height_of(view) by {
                assert(values_len(self@[k].values) == height_of(self@));
                assert(values_len(self@[0].values) == height_of(self@));
                lemma_keep_values_len(self@[k].values, mask@);
                lemma_keep_values_len(self@[0].values, mask@);
            }
            assert forall|a: int, b: int| 0 <= a < b < view.len() implies (#[trigger] view[a]).name
                != (#[trigger] view[b]).name by {
                assert(self@[a].name != self@[b].name);
            }
        }
        Ok(Table { columns })
    }
}

} // verus!
