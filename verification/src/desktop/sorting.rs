//! Ordering of listing rows: folders first, then the chosen column in the
//! chosen direction, then name and key as tie-breakers.

use vstd::prelude::*;
use vstd::multiset::Multiset;
use crate::desktop::rows::LoadedRow;
use crate::text::{chars_of, lower_ascii, lowercase_chars, to_lower_ascii, unicode_lower};

verus! {

broadcast use vstd::seq_lib::group_to_multiset_ensures;

/// Result of comparing two values.
#[derive(Clone, Copy, PartialEq, Eq, Structural, Debug)]
pub enum Order {
    Less,
    Equal,
    Greater,
}

pub open spec fn flip(o: Order) -> Order {
    match o {
        Order::Less => Order::Greater,
        Order::Equal => Order::Equal,
        Order::Greater => Order::Less,
    }
}

/// `x`, unless it is `Equal`; then `y`.
pub open spec fn then(x: Order, y: Order) -> Order {
    if x != Order::Equal {
        x
    } else {
        y
    }
}

/// The three comparisons along a chain `a, b, c` are consistent with one
/// total preorder.
pub open spec fn chain_ok(ab: Order, bc: Order, ac: Order) -> bool {
    &&& (ab != Order::Greater && bc != Order::Greater ==> ac != Order::Greater)
    &&& (ab == Order::Equal && bc == Order::Equal ==> ac == Order::Equal)
    &&& (ab == Order::Less && bc != Order::Greater ==> ac == Order::Less)
    &&& (ab != Order::Greater && bc == Order::Less ==> ac == Order::Less)
}

pub proof fn lemma_then_chain(xab: Order, xbc: Order, xac: Order, yab: Order, ybc: Order, yac: Order)
    requires
        chain_ok(xab, xbc, xac),
        chain_ok(yab, ybc, yac),
    ensures
        chain_ok(then(xab, yab), then(xbc, ybc), then(xac, yac)),
{
}

pub proof fn lemma_flip_chain(ab: Order, bc: Order, ac: Order)
    requires
        chain_ok(flip(bc), flip(ab), flip(ac)),
    ensures
        chain_ok(flip(ab), flip(bc), flip(ac)),
{
}

/// Lexicographic order of character sequences by code point, as `str`
/// and `String` compare.
pub open spec fn lex(a: Seq<char>, b: Seq<char>) -> Order
    decreases a.len(),
{
    if a.len() == 0 && b.len() == 0 {
        Order::Equal
    } else if a.len() == 0 {
        Order::Less
    } else if b.len() == 0 {
        Order::Greater
    } else if (a[0] as int) < (b[0] as int) {
        Order::Less
    } else if (a[0] as int) > (b[0] as int) {
        Order::Greater
    } else {
        lex(a.drop_first(), b.drop_first())
    }
}

pub proof fn lemma_lex_flip(a: Seq<char>, b: Seq<char>)
    ensures
        lex(a, b) == flip(lex(b, a)),
        lex(a, b) == Order::Equal <==> a == b,
    decreases a.len(),
{
    if a.len() > 0 && b.len() > 0 && a[0] == b[0] {
        lemma_lex_flip(a.drop_first(), b.drop_first());
        if a.drop_first() == b.drop_first() {
            assert(a =~= seq![a[0]] + a.drop_first());
            assert(b =~= seq![b[0]] + b.drop_first());
        }
    } else if a.len() > 0 && b.len() > 0 {
        assert((a[0] as int) != (b[0] as int));
    } else if a.len() == 0 && b.len() == 0 {
        assert(a =~= b);
    }
}

pub proof fn lemma_lex_chain(a: Seq<char>, b: Seq<char>, c: Seq<char>)
    ensures
        chain_ok(lex(a, b), lex(b, c), lex(a, c)),
    decreases a.len(),
{
    lemma_lex_flip(a, b);
    lemma_lex_flip(b, c);
    lemma_lex_flip(a, c);
    if a.len() > 0 && b.len() > 0 && c.len() > 0 {
        lemma_lex_chain(a.drop_first(), b.drop_first(), c.drop_first());
    }
}

pub open spec fn num_order(a: int, b: int) -> Order {
    if a < b {
        Order::Less
    } else if a > b {
        Order::Greater
    } else {
        Order::Equal
    }
}

/// `Option` order: `None` first, then by value.
pub open spec fn opt_order(a: Option<int>, b: Option<int>) -> Order {
    match (a, b) {
        (None, None) => Order::Equal,
        (None, Some(_)) => Order::Less,
        (Some(_), None) => Order::Greater,
        (Some(x), Some(y)) => num_order(x, y),
    }
}

pub proof fn lemma_opt_chain(a: Option<int>, b: Option<int>, c: Option<int>)
    ensures
        chain_ok(opt_order(a, b), opt_order(b, c), opt_order(a, c)),
        opt_order(a, b) == flip(opt_order(b, a)),
{
}

/// `false` before `true`.
pub open spec fn bool_order(a: bool, b: bool) -> Order {
    if a == b {
        Order::Equal
    } else if !a {
        Order::Less
    } else {
        Order::Greater
    }
}

/// Column a listing can be ordered by.
#[derive(Clone, Copy, PartialEq, Eq, Structural, Debug)]
pub enum SortField {
    Type,
    Name,
    Size,
    Modified,
    Created,
    Accessed,
}

/// Ascending or descending.
#[derive(Clone, Copy, PartialEq, Eq, Structural, Debug)]
pub enum SortDirection {
    Ascending,
    Descending,
}

/// Column and direction of the listing order.
#[derive(Clone, Copy, PartialEq, Eq, Structural, Debug)]
pub struct SortSpec {
    pub field: SortField,
    pub direction: SortDirection,
}

impl SortField {
    /// The field shown in `column`, when there is one.
    pub fn from_column(column: i32) -> (r: Option<SortField>)
        ensures
            r == (if column == 0 {
                Some(SortField::Type)
            } else if column == 1 {
                Some(SortField::Name)
            } else if column == 2 {
                Some(SortField::Size)
            } else if column == 3 {
                Some(SortField::Modified)
            } else if column == 4 {
                Some(SortField::Created)
            } else if column == 5 {
                Some(SortField::Accessed)
            } else {
                None
            }),
    {
        match column {
            0 => Some(SortField::Type),
            1 => Some(SortField::Name),
            2 => Some(SortField::Size),
            3 => Some(SortField::Modified),
            4 => Some(SortField::Created),
            5 => Some(SortField::Accessed),
            _ => None,
        }
    }

    /// The column that shows this field.
    pub fn column(self) -> (r: i32)
        ensures
            r == self.column_of(),
            SortField::from_column_spec(r) == Some(self),
    {
        match self {
            SortField::Type => 0,
            SortField::Name => 1,
            SortField::Size => 2,
            SortField::Modified => 3,
            SortField::Created => 4,
            SortField::Accessed => 5,
        }
    }

    pub open spec fn column_of(self) -> i32 {
        match self {
            SortField::Type => 0,
            SortField::Name => 1,
            SortField::Size => 2,
            SortField::Modified => 3,
            SortField::Created => 4,
            SortField::Accessed => 5,
        }
    }

    pub open spec fn from_column_spec(column: i32) -> Option<SortField> {
        if column == 0 {
            Some(SortField::Type)
        } else if column == 1 {
            Some(SortField::Name)
        } else if column == 2 {
            Some(SortField::Size)
        } else if column == 3 {
            Some(SortField::Modified)
        } else if column == 4 {
            Some(SortField::Created)
        } else if column == 5 {
            Some(SortField::Accessed)
        } else {
            None
        }
    }
}

impl SortDirection {
    /// The other direction.
    pub fn toggled(self) -> (r: SortDirection)
        ensures
            r != self,
    {
        match self {
            SortDirection::Ascending => SortDirection::Descending,
            SortDirection::Descending => SortDirection::Ascending,
        }
    }

    pub fn is_ascending(self) -> (r: bool)
        ensures
            r == (self == SortDirection::Ascending),
    {
        match self {
            SortDirection::Ascending => true,
            SortDirection::Descending => false,
        }
    }
}

impl SortSpec {
    /// Clicking a column header: the same column flips direction, another
    /// column starts ascending, an unknown column changes nothing.
    pub fn toggle_column(self, column: i32) -> (r: SortSpec)
        ensures
            r == toggled_spec(self, column),
    {
        match SortField::from_column(column) {
            None => self,
            Some(field) => SortSpec {
                direction: if field == self.field {
                    self.direction.toggled()
                } else {
                    SortDirection::Ascending
                },
                field,
            },
        }
    }
}

/// What clicking `column` makes of `spec`.
pub open spec fn toggled_spec(spec: SortSpec, column: i32) -> SortSpec {
    match SortField::from_column_spec(column) {
        None => spec,
        Some(field) => SortSpec {
            direction: if field == spec.field {
                if spec.direction == SortDirection::Ascending {
                    SortDirection::Descending
                } else {
                    SortDirection::Ascending
                }
            } else {
                SortDirection::Ascending
            },
            field,
        },
    }
}

/// Clicking the same header twice restores the order.
pub proof fn law_toggle_twice(spec: SortSpec)
    ensures
        toggled_spec(toggled_spec(spec, spec.field.column_of()), spec.field.column_of()) == spec,
{
}

impl Default for SortSpec {
    fn default() -> (r: SortSpec)
        ensures
            r == (SortSpec { field: SortField::Name, direction: SortDirection::Ascending }),
    {
        SortSpec { field: SortField::Name, direction: SortDirection::Ascending }
    }
}

/// What a row is ordered by.
pub struct KeyModel {
    pub is_directory: bool,
    pub kind: Seq<char>,
    pub name: Seq<char>,
    pub size: Option<int>,
    pub modified: Option<int>,
    pub created: Option<int>,
    pub accessed: Option<int>,
    pub key: Seq<char>,
}

pub open spec fn opt_u64(v: Option<u64>) -> Option<int> {
    match v {
        Some(x) => Some(x as int),
        None => None,
    }
}

pub open spec fn opt_i128(v: Option<i128>) -> Option<int> {
    match v {
        Some(x) => Some(x as int),
        None => None,
    }
}

/// The ordering key of a row: kind in ASCII lower case, name in Unicode
/// lower case.
pub open spec fn row_key(r: LoadedRow) -> KeyModel {
    KeyModel {
        is_directory: r.is_directory,
        kind: lower_ascii(r.kind@),
        name: unicode_lower(r.name@),
        size: opt_u64(r.size),
        modified: opt_i128(r.modified),
        created: opt_i128(r.created),
        accessed: opt_i128(r.accessed),
        key: r.key@,
    }
}

pub open spec fn field_order(a: KeyModel, b: KeyModel, field: SortField) -> Order {
    match field {
        SortField::Type => lex(a.kind, b.kind),
        SortField::Name => lex(a.name, b.name),
        SortField::Size => opt_order(a.size, b.size),
        SortField::Modified => opt_order(a.modified, b.modified),
        SortField::Created => opt_order(a.created, b.created),
        SortField::Accessed => opt_order(a.accessed, b.accessed),
    }
}

/// Order of two keys under `spec`.
pub open spec fn key_order(a: KeyModel, b: KeyModel, spec: SortSpec) -> Order {
    let primary = if spec.direction == SortDirection::Ascending {
        field_order(a, b, spec.field)
    } else {
        flip(field_order(a, b, spec.field))
    };
    then(
        bool_order(b.is_directory, a.is_directory),
        then(primary, then(lex(a.name, b.name), lex(a.key, b.key))),
    )
}

/// Order of two rows under `spec`.
pub open spec fn row_order(a: LoadedRow, b: LoadedRow, spec: SortSpec) -> Order {
    key_order(row_key(a), row_key(b), spec)
}

/// Rows in an order that `spec` accepts.
pub open spec fn sorted_by(rows: Seq<LoadedRow>, spec: SortSpec) -> bool {
    forall|i: int, j: int|
        0 <= i < j < rows.len() ==> row_order(#[trigger] rows[i], #[trigger] rows[j], spec)
            != Order::Greater
}

/// In a listing ordered by any column and direction, folders come
/// before files.
pub proof fn law_directories_first(rows: Seq<LoadedRow>, spec: SortSpec, i: int, j: int)
    requires
        sorted_by(rows, spec),
        0 <= i < j < rows.len(),
        rows[j].is_directory,
    ensures
        rows[i].is_directory,
{
    assert(row_order(rows[i], rows[j], spec) != Order::Greater);
}

/// A time `a` comes strictly before a time `b`: an unknown time before a
/// known one, known times by value.
pub open spec fn time_before(a: Option<i128>, b: Option<i128>) -> bool {
    match (a, b) {
        (None, Some(_)) => true,
        (Some(x), Some(y)) => x < y,
        _ => false,
    }
}

/// A size `a` is strictly smaller than a size `b`: an unknown size
/// before a known one, known sizes by value.
pub open spec fn size_before(a: Option<u64>, b: Option<u64>) -> bool {
    match (a, b) {
        (None, Some(_)) => true,
        (Some(x), Some(y)) => x < y,
        _ => false,
    }
}

/// Sorting by a column compares that column's own values: between two
/// rows that are both folders or both not, a strictly smaller value in
/// the chosen column (size, modification, creation or access time, the
/// kind or the name ignoring case) puts the row first when ascending and
/// last when descending, whatever the other columns hold.
pub proof fn law_sort_by_column(a: LoadedRow, b: LoadedRow, direction: SortDirection)
    requires
        a.is_directory == b.is_directory,
    ensures
        ({
            let first = if direction == SortDirection::Ascending {
                Order::Less
            } else {
                Order::Greater
            };
            &&& size_before(a.size, b.size) ==> row_order(
                a,
                b,
                SortSpec { field: SortField::Size, direction },
            ) == first
            &&& time_before(a.modified, b.modified) ==> row_order(
                a,
                b,
                SortSpec { field: SortField::Modified, direction },
            ) == first
            &&& time_before(a.created, b.created) ==> row_order(
                a,
                b,
                SortSpec { field: SortField::Created, direction },
            ) == first
            &&& time_before(a.accessed, b.accessed) ==> row_order(
                a,
                b,
                SortSpec { field: SortField::Accessed, direction },
            ) == first
            &&& lex(lower_ascii(a.kind@), lower_ascii(b.kind@)) == Order::Less ==> row_order(
                a,
                b,
                SortSpec { field: SortField::Type, direction },
            ) == first
            &&& lex(unicode_lower(a.name@), unicode_lower(b.name@)) == Order::Less ==> row_order(
                a,
                b,
                SortSpec { field: SortField::Name, direction },
            ) == first
        }),
{
}

/// In a listing sorted by a column, ascending, no row comes after another
/// of the same sort (folder or not) whose value in that column is
/// strictly smaller: for instance, by creation time, older files first,
/// whatever their modification times.
pub proof fn law_sorted_listing_by_column(rows: Seq<LoadedRow>, i: int, j: int)
    requires
        0 <= i < j < rows.len(),
        rows[i].is_directory == rows[j].is_directory,
    ensures
        sorted_by(rows, SortSpec { field: SortField::Size, direction: SortDirection::Ascending })
            ==> !size_before(rows[j].size, rows[i].size),
        sorted_by(rows, SortSpec { field: SortField::Modified, direction: SortDirection::Ascending })
            ==> !time_before(rows[j].modified, rows[i].modified),
        sorted_by(rows, SortSpec { field: SortField::Created, direction: SortDirection::Ascending })
            ==> !time_before(rows[j].created, rows[i].created),
        sorted_by(rows, SortSpec { field: SortField::Accessed, direction: SortDirection::Ascending })
            ==> !time_before(rows[j].accessed, rows[i].accessed),
        sorted_by(rows, SortSpec { field: SortField::Size, direction: SortDirection::Descending })
            ==> !size_before(rows[i].size, rows[j].size),
        sorted_by(rows, SortSpec { field: SortField::Created, direction: SortDirection::Descending })
            ==> !time_before(rows[i].created, rows[j].created),
{
    law_sort_by_column(rows[j], rows[i], SortDirection::Ascending);
    law_sort_by_column(rows[i], rows[j], SortDirection::Descending);
    let asc = SortDirection::Ascending;
    let desc = SortDirection::Descending;
    if sorted_by(rows, SortSpec { field: SortField::Size, direction: asc }) {
        assert(row_order(rows[i], rows[j], SortSpec { field: SortField::Size, direction: asc }) != Order::Greater);
        law_row_preorder(row_key(rows[i]), row_key(rows[j]), row_key(rows[i]), SortSpec { field: SortField::Size, direction: asc });
    }
    if sorted_by(rows, SortSpec { field: SortField::Modified, direction: asc }) {
        assert(row_order(rows[i], rows[j], SortSpec { field: SortField::Modified, direction: asc }) != Order::Greater);
        law_row_preorder(row_key(rows[i]), row_key(rows[j]), row_key(rows[i]), SortSpec { field: SortField::Modified, direction: asc });
    }
    if sorted_by(rows, SortSpec { field: SortField::Created, direction: asc }) {
        assert(row_order(rows[i], rows[j], SortSpec { field: SortField::Created, direction: asc }) != Order::Greater);
        law_row_preorder(row_key(rows[i]), row_key(rows[j]), row_key(rows[i]), SortSpec { field: SortField::Created, direction: asc });
    }
    if sorted_by(rows, SortSpec { field: SortField::Accessed, direction: asc }) {
        assert(row_order(rows[i], rows[j], SortSpec { field: SortField::Accessed, direction: asc }) != Order::Greater);
        law_row_preorder(row_key(rows[i]), row_key(rows[j]), row_key(rows[i]), SortSpec { field: SortField::Accessed, direction: asc });
    }
    if sorted_by(rows, SortSpec { field: SortField::Size, direction: desc }) {
        assert(row_order(rows[i], rows[j], SortSpec { field: SortField::Size, direction: desc }) != Order::Greater);
    }
    if sorted_by(rows, SortSpec { field: SortField::Created, direction: desc }) {
        assert(row_order(rows[i], rows[j], SortSpec { field: SortField::Created, direction: desc }) != Order::Greater);
    }
}

pub proof fn lemma_field_chain(a: KeyModel, b: KeyModel, c: KeyModel, f: SortField)
    ensures
        chain_ok(field_order(a, b, f), field_order(b, c, f), field_order(a, c, f)),
        field_order(a, b, f) == flip(field_order(b, a, f)),
{
    lemma_lex_chain(a.kind, b.kind, c.kind);
    lemma_lex_chain(a.name, b.name, c.name);
    lemma_lex_flip(a.kind, b.kind);
    lemma_lex_flip(a.name, b.name);
    lemma_opt_chain(a.size, b.size, c.size);
    lemma_opt_chain(a.modified, b.modified, c.modified);
    lemma_opt_chain(a.created, b.created, c.created);
    lemma_opt_chain(a.accessed, b.accessed, c.accessed);
    lemma_opt_chain(b.size, a.size, c.size);
    lemma_opt_chain(b.modified, a.modified, c.modified);
    lemma_opt_chain(b.created, a.created, c.created);
    lemma_opt_chain(b.accessed, a.accessed, c.accessed);
}

/// The row order is a total preorder: it is antisymmetric and it chains.
pub proof fn law_row_preorder(a: KeyModel, b: KeyModel, c: KeyModel, spec: SortSpec)
    ensures
        key_order(a, b, spec) == flip(key_order(b, a, spec)),
        chain_ok(key_order(a, b, spec), key_order(b, c, spec), key_order(a, c, spec)),
{
    lemma_field_chain(a, b, c, spec.field);
    lemma_field_chain(c, b, a, spec.field);
    lemma_field_chain(b, a, c, spec.field);
    lemma_field_chain(b, c, a, spec.field);
    lemma_field_chain(a, c, b, spec.field);
    lemma_lex_chain(a.name, b.name, c.name);
    lemma_lex_chain(a.key, b.key, c.key);
    lemma_lex_flip(a.name, b.name);
    lemma_lex_flip(a.key, b.key);
    let p_ab = field_order(a, b, spec.field);
    let p_bc = field_order(b, c, spec.field);
    let p_ac = field_order(a, c, spec.field);
    if spec.direction != SortDirection::Ascending {
        lemma_flip_chain(p_ab, p_bc, p_ac);
    }
    let q_ab = if spec.direction == SortDirection::Ascending { p_ab } else { flip(p_ab) };
    let q_bc = if spec.direction == SortDirection::Ascending { p_bc } else { flip(p_bc) };
    let q_ac = if spec.direction == SortDirection::Ascending { p_ac } else { flip(p_ac) };
    lemma_then_chain(
        lex(a.name, b.name),
        lex(b.name, c.name),
        lex(a.name, c.name),
        lex(a.key, b.key),
        lex(b.key, c.key),
        lex(a.key, c.key),
    );
    lemma_then_chain(
        q_ab,
        q_bc,
        q_ac,
        then(lex(a.name, b.name), lex(a.key, b.key)),
        then(lex(b.name, c.name), lex(b.key, c.key)),
        then(lex(a.name, c.name), lex(a.key, c.key)),
    );
    lemma_then_chain(
        bool_order(b.is_directory, a.is_directory),
        bool_order(c.is_directory, b.is_directory),
        bool_order(c.is_directory, a.is_directory),
        then(q_ab, then(lex(a.name, b.name), lex(a.key, b.key))),
        then(q_bc, then(lex(b.name, c.name), lex(b.key, c.key))),
        then(q_ac, then(lex(a.name, c.name), lex(a.key, c.key))),
    );
}

/// Ordering key of a row, computed once per row.
pub struct SortKey {
    pub is_directory: bool,
    pub kind: Vec<char>,
    pub name: Vec<char>,
    pub size: Option<u64>,
    pub modified: Option<i128>,
    pub created: Option<i128>,
    pub accessed: Option<i128>,
    pub key: Vec<char>,
}

impl View for SortKey {
    type V = KeyModel;

    open spec fn view(&self) -> KeyModel {
        KeyModel {
            is_directory: self.is_directory,
            kind: self.kind@,
            name: self.name@,
            size: opt_u64(self.size),
            modified: opt_i128(self.modified),
            created: opt_i128(self.created),
            accessed: opt_i128(self.accessed),
            key: self.key@,
        }
    }
}

/// The ordering key of `row`.
pub fn sort_key(row: &LoadedRow) -> (k: SortKey)
    ensures
        k@ == row_key(*row),
{
    let kind_chars = chars_of(row.kind.as_str());
    SortKey {
        is_directory: row.is_directory,
        kind: to_lower_ascii(&kind_chars),
        name: lowercase_chars(row.name.as_str()),
        size: row.size,
        modified: row.modified,
        created: row.created,
        accessed: row.accessed,
        key: chars_of(row.key.as_str()),
    }
}

pub fn lex_chars(a: &[char], b: &[char]) -> (r: Order)
    ensures
        r == lex(a@, b@),
{
    let mut i: usize = 0;
    assert(a@.subrange(0, a@.len() as int) =~= a@);
    assert(b@.subrange(0, b@.len() as int) =~= b@);
    while i < a.len() && i < b.len() && a[i] == b[i]
        invariant
            i <= a@.len(),
            i <= b@.len(),
            lex(a@, b@) == lex(a@.subrange(i as int, a@.len() as int), b@.subrange(
                i as int,
                b@.len() as int,
            )),
        decreases a@.len() - i,
    {
        proof {
            let sa = a@.subrange(i as int, a@.len() as int);
            let sb = b@.subrange(i as int, b@.len() as int);
            assert(sa.drop_first() =~= a@.subrange(i + 1, a@.len() as int));
            assert(sb.drop_first() =~= b@.subrange(i + 1, b@.len() as int));
        }
        i = i + 1;
    }
    proof {
        if i == 0 {
            assert(a@.subrange(0, a@.len() as int) =~= a@);
            assert(b@.subrange(0, b@.len() as int) =~= b@);
        }
    }
    let sa_len = a.len() - i;
    let sb_len = b.len() - i;
    if sa_len == 0 && sb_len == 0 {
        Order::Equal
    } else if sa_len == 0 {
        Order::Less
    } else if sb_len == 0 {
        Order::Greater
    } else if a[i] < b[i] {
        Order::Less
    } else {
        proof {
            assert(a@.subrange(i as int, a@.len() as int)[0] == a@[i as int]);
            assert(b@.subrange(i as int, b@.len() as int)[0] == b@[i as int]);
        }
        Order::Greater
    }
}

fn opt_u64_order(a: Option<u64>, b: Option<u64>) -> (r: Order)
    ensures
        r == opt_order(opt_u64(a), opt_u64(b)),
{
    match (a, b) {
        (None, None) => Order::Equal,
        (None, Some(_)) => Order::Less,
        (Some(_), None) => Order::Greater,
        (Some(x), Some(y)) => if x < y {
            Order::Less
        } else if x > y {
            Order::Greater
        } else {
            Order::Equal
        },
    }
}

fn opt_i128_order(a: Option<i128>, b: Option<i128>) -> (r: Order)
    ensures
        r == opt_order(opt_i128(a), opt_i128(b)),
{
    match (a, b) {
        (None, None) => Order::Equal,
        (None, Some(_)) => Order::Less,
        (Some(_), None) => Order::Greater,
        (Some(x), Some(y)) => if x < y {
            Order::Less
        } else if x > y {
            Order::Greater
        } else {
            Order::Equal
        },
    }
}

fn flip_order(o: Order) -> (r: Order)
    ensures
        r == flip(o),
{
    match o {
        Order::Less => Order::Greater,
        Order::Equal => Order::Equal,
        Order::Greater => Order::Less,
    }
}

/// Compares two ordering keys under `spec`.
pub fn compare_keys(a: &SortKey, b: &SortKey, spec: SortSpec) -> (r: Order)
    ensures
        r == key_order(a@, b@, spec),
{
    if a.is_directory != b.is_directory {
        return if a.is_directory {
            Order::Less
        } else {
            Order::Greater
        };
    }
    let field = match spec.field {
        SortField::Type => lex_chars(&a.kind, &b.kind),
        SortField::Name => lex_chars(&a.name, &b.name),
        SortField::Size => opt_u64_order(a.size, b.size),
        SortField::Modified => opt_i128_order(a.modified, b.modified),
        SortField::Created => opt_i128_order(a.created, b.created),
        SortField::Accessed => opt_i128_order(a.accessed, b.accessed),
    };
    let primary = if spec.direction.is_ascending() {
        field
    } else {
        flip_order(field)
    };
    if primary != Order::Equal {
        return primary;
    }
    let by_name = lex_chars(&a.name, &b.name);
    if by_name != Order::Equal {
        return by_name;
    }
    lex_chars(&a.key, &b.key)
}

/// Compares two rows under `spec`.
pub fn compare_rows(left: &LoadedRow, right: &LoadedRow, spec: SortSpec) -> (r: Order)
    ensures
        r == row_order(*left, *right, spec),
{
    let a = sort_key(left);
    let b = sort_key(right);
    compare_keys(&a, &b, spec)
}

pub proof fn lemma_insert_sorted(s: Seq<LoadedRow>, lo: int, row: LoadedRow, spec: SortSpec)
    requires
        0 <= lo <= s.len(),
        sorted_by(s, spec),
        forall|k: int| 0 <= k < lo ==> row_order(#[trigger] s[k], row, spec) != Order::Greater,
        forall|k: int| lo <= k < s.len() ==> row_order(#[trigger] s[k], row, spec) == Order::Greater,
    ensures
        sorted_by(s.insert(lo, row), spec),
{
    let out = s.insert(lo, row);
    assert forall|i: int, j: int| 0 <= i < j < out.len() implies row_order(
        #[trigger] out[i],
        #[trigger] out[j],
        spec,
    ) != Order::Greater by {
        if i == lo {
            law_row_preorder(row_key(row), row_key(s[j - 1]), row_key(row), spec);
            assert(row_order(s[j - 1], row, spec) == Order::Greater);
        } else if j == lo {
            assert(row_order(s[i], row, spec) != Order::Greater);
        } else if i < lo && j < lo {
            assert(row_order(s[i], s[j], spec) != Order::Greater);
        } else if i < lo && j > lo {
            assert(row_order(s[i], s[j - 1], spec) != Order::Greater);
        } else {
            assert(row_order(s[i - 1], s[j - 1], spec) != Order::Greater);
        }
    }
}

/// Puts `rows` in the order `spec` asks for, keeping the same rows.
#[verifier::rlimit(40)]
pub fn sort_rows(rows: &mut Vec<LoadedRow>, spec: SortSpec)
    ensures
        final(rows)@.to_multiset() == old(rows)@.to_multiset(),
        sorted_by(final(rows)@, spec),
{
    let mut input: Vec<LoadedRow> = Vec::new();
    std::mem::swap(rows, &mut input);
    let ghost initial = input@;
    let mut keys: Vec<SortKey> = Vec::new();
    let mut out: Vec<LoadedRow> = Vec::new();
    while input.len() > 0
        invariant
            keys@.len() == out@.len(),
            forall|k: int| 0 <= k < keys@.len() ==> (#[trigger] keys@[k])@ == row_key(out@[k]),
            out@.to_multiset().add(input@.to_multiset()) == initial.to_multiset(),
            sorted_by(out@, spec),
        decreases input@.len(),
    {
        let ghost before = input@;
        let row = input.pop().unwrap();
        proof {
            assert(before =~= input@.push(row));
        }
        let key = sort_key(&row);
        let mut lo: usize = 0;
        let mut hi: usize = out.len();
        while lo < hi
            invariant
                lo <= hi <= out@.len(),
                keys@.len() == out@.len(),
                forall|k: int| 0 <= k < keys@.len() ==> (#[trigger] keys@[k])@ == row_key(out@[k]),
                key@ == row_key(row),
                sorted_by(out@, spec),
                forall|k: int| 0 <= k < lo ==> row_order(#[trigger] out@[k], row, spec) != Order::Greater,
                forall|k: int| hi <= k < out@.len() ==> row_order(#[trigger] out@[k], row, spec) == Order::Greater,
            decreases hi - lo,
        {
            let mid = lo + (hi - lo) / 2;
            let c = compare_keys(&keys[mid], &key, spec);
            if c == Order::Greater {
                proof {
                    assert forall|k: int| mid <= k < out@.len() implies row_order(
                        #[trigger] out@[k],
                        row,
                        spec,
                    ) == Order::Greater by {
                        if k > mid {
                            law_row_preorder(row_key(row), row_key(out@[mid as int]), row_key(out@[k]), spec);
                            law_row_preorder(row_key(out@[mid as int]), row_key(row), row_key(out@[k]), spec);
                            law_row_preorder(row_key(out@[k]), row_key(row), row_key(out@[mid as int]), spec);
                            assert(row_order(out@[mid as int], out@[k], spec) != Order::Greater);
                        }
                    }
                }
                hi = mid;
            } else {
                proof {
                    assert forall|k: int| 0 <= k <= mid implies row_order(#[trigger] out@[k], row, spec)
                        != Order::Greater by {
                        if k < mid {
                            law_row_preorder(row_key(out@[k]), row_key(out@[mid as int]), row_key(row), spec);
                            assert(row_order(out@[k], out@[mid as int], spec) != Order::Greater);
                        }
                    }
                }
                lo = mid + 1;
            }
        }
        let ghost old_out = out@;
        let ghost old_keys = keys@;
        keys.insert(lo, key);
        out.insert(lo, row);
        proof {
            assert(out@ == old_out.insert(lo as int, row));
            assert(keys@ == old_keys.insert(lo as int, key));
            assert forall|k: int| 0 <= k < keys@.len() implies (#[trigger] keys@[k])@ == row_key(
                out@[k],
            ) by {
                if k < lo {
                    assert(keys@[k] == old_keys[k]);
                } else if k > lo {
                    assert(keys@[k] == old_keys[k - 1]);
                }
            }
            lemma_insert_sorted(old_out, lo as int, row, spec);
            assert(out@.to_multiset() == old_out.to_multiset().insert(row));
            assert(before.to_multiset() == input@.to_multiset().insert(row));
            assert(out@.to_multiset().add(input@.to_multiset()) =~= old_out.to_multiset().add(
                before.to_multiset(),
            ));
        }
    }
    proof {
        assert(input@.to_multiset() =~= Multiset::<LoadedRow>::empty());
        assert(out@.to_multiset().add(input@.to_multiset()) =~= out@.to_multiset());
    }
    *rows = out;
}

} // verus!
