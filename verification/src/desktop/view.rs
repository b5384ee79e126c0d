//! What the window shows about the listing: the filtered rows, the status
//! line, the empty-state text, and checks on names typed by the user.

use vstd::prelude::*;
use crate::desktop::rows::{clone_row, LoadedRow};
use crate::desktop::selection::SelectionState;
use crate::desktop::sorting::{sort_rows, sorted_by, SortSpec};
use crate::text::{
    chars_of, contains_char, contains_chars, decimal, eq_str, extend_chars, extend_str, has_char,
    has_infix, lowercase_chars, push_decimal, string_of, trim, trim_chars, unicode_lower,
};

verus! {

broadcast use vstd::seq_lib::group_to_multiset_ensures;

/// The filter text as it is matched: trimmed, in lower case.
pub open spec fn normalized_query(query: Seq<char>) -> Seq<char> {
    unicode_lower(trim(query))
}

/// A row passes the filter when its lower-cased name holds the query.
pub open spec fn passes(row: LoadedRow, q: Seq<char>) -> bool {
    has_infix(unicode_lower(row.name@), q)
}

pub open spec fn passes_pred(q: Seq<char>) -> spec_fn(LoadedRow) -> bool {
    |r: LoadedRow| passes(r, q)
}

/// The rows that an (already normalized) query keeps, in their order.
pub open spec fn kept_rows(rows: Seq<LoadedRow>, q: Seq<char>) -> Seq<LoadedRow> {
    if q.len() == 0 {
        rows
    } else {
        rows.filter(passes_pred(q))
    }
}

/// Filtering ignores case: two queries that read the same once trimmed
/// and put in lower case keep the same rows; and a row whose name is the
/// query as typed (trimmed) is always kept, whatever the case of either.
pub proof fn law_filter_ignores_case(rows: Seq<LoadedRow>, q1: Seq<char>, q2: Seq<char>, i: int)
    requires
        0 <= i < rows.len(),
    ensures
        unicode_lower(trim(q1)) == unicode_lower(trim(q2)) ==> kept_rows(
            rows,
            normalized_query(q1),
        ) == kept_rows(rows, normalized_query(q2)),
        rows[i].name@ == trim(q1) ==> kept_rows(rows, normalized_query(q1)).contains(rows[i]),
{
    if rows[i].name@ == trim(q1) {
        let q = normalized_query(q1);
        let n = unicode_lower(rows[i].name@);
        assert(n == q);
        assert(n.subrange(0int, 0int + q.len()) =~= q);
        assert(has_infix(n, q));
        assert(passes(rows[i], q));
        if q.len() > 0 {
            rows.lemma_filter_contains(passes_pred(q), i);
        } else {
            assert(rows[i] == rows[i]);
            assert(rows.contains(rows[i]));
        }
    }
}

/// One more element of a prefix, through a filter.
pub proof fn lemma_filter_step<A>(s: Seq<A>, i: int, f: spec_fn(A) -> bool)
    requires
        0 <= i < s.len(),
    ensures
        s.subrange(0, i + 1).filter(f) == (if f(s[i]) {
            s.subrange(0, i).filter(f).push(s[i])
        } else {
            s.subrange(0, i).filter(f)
        }),
{
    reveal_with_fuel(Seq::filter, 1);
    let p = s.subrange(0, i + 1);
    assert(p.drop_last() =~= s.subrange(0, i));
    assert(p.last() == s[i]);
}

pub proof fn lemma_filter_empty<A>(s: Seq<A>, f: spec_fn(A) -> bool)
    ensures
        s.subrange(0, 0).filter(f) == Seq::<A>::empty(),
{
    reveal_with_fuel(Seq::filter, 1);
    assert(s.subrange(0, 0) =~= Seq::<A>::empty());
}

/// The rows whose name holds `query` (ignoring case and surrounding
/// blanks), in their order; a blank query keeps every row. Subfolders are
/// not searched.
pub fn filter_rows(rows: &[LoadedRow], query: &str) -> (r: Vec<LoadedRow>)
    ensures
        r@ == kept_rows(rows@, normalized_query(query@)),
{
    let qc = chars_of(query);
    let trimmed = trim_chars(&qc);
    let ts = string_of(&trimmed);
    let q = lowercase_chars(ts.as_str());
    let ghost nq = normalized_query(query@);
    assert(q@ == nq);
    let mut out: Vec<LoadedRow> = Vec::new();
    let mut i: usize = 0;
    proof {
        lemma_filter_empty(rows@, passes_pred(nq));
    }
    while i < rows.len()
        invariant
            i <= rows@.len(),
            q@ == nq,
            out@ == (if nq.len() == 0 {
                rows@.subrange(0, i as int)
            } else {
                rows@.subrange(0, i as int).filter(passes_pred(nq))
            }),
        decreases rows@.len() - i,
    {
        let keep = if q.len() == 0 {
            true
        } else {
            let name = lowercase_chars(rows[i].name.as_str());
            contains_chars(&name, &q)
        };
        proof {
            lemma_filter_step(rows@, i as int, passes_pred(nq));
        }
        if keep {
            out.push(clone_row(&rows[i]));
        }
        i = i + 1;
        proof {
            if nq.len() == 0 {
                assert(out@ =~= rows@.subrange(0, i as int));
            }
        }
    }
    assert(rows@.subrange(0, rows@.len() as int) =~= rows@);
    out
}

/// The filtered rows in the listing order `spec`.
pub fn filter_and_sort_rows(rows: &[LoadedRow], query: &str, spec: SortSpec) -> (r: Vec<
    LoadedRow,
>)
    ensures
        r@.to_multiset() == kept_rows(rows@, normalized_query(query@)).to_multiset(),
        sorted_by(r@, spec),
{
    let mut filtered = filter_rows(rows, query);
    sort_rows(&mut filtered, spec);
    filtered
}

pub open spec fn empty_folder_text() -> Seq<char> {
    "Esta pasta está vazia."@
}

pub open spec fn no_match_text() -> Seq<char> {
    "Nenhum item corresponde ao filtro."@
}

/// What the empty-state line says.
pub open spec fn empty_state_of(total: nat, visible: nat, query: Seq<char>) -> Seq<char> {
    if total == 0 {
        empty_folder_text()
    } else if visible == 0 && trim(query).len() != 0 {
        no_match_text()
    } else {
        Seq::empty()
    }
}

/// The empty-state text: an empty folder, or a filter that hides every row.
pub fn empty_state_text(total: usize, visible: usize, query: &str) -> (r: &'static str)
    ensures
        r@ == empty_state_of(total as nat, visible as nat, query@),
{
    if total == 0 {
        "Esta pasta está vazia."
    } else {
        let qc = chars_of(query);
        let t = trim_chars(&qc);
        if visible == 0 && t.len() > 0 {
            "Nenhum item corresponde ao filtro."
        } else {
            proof {
                reveal_strlit("");
            }
            ""
        }
    }
}

/// The status line for a filtered listing.
pub open spec fn filter_status_of(total: nat, visible: nat, query: Seq<char>) -> Seq<char> {
    let q = trim(query);
    if q.len() == 0 {
        decimal(total) + " itens"@
    } else if visible == 0 {
        "Nenhum item corresponde a ‘"@ + q + "’ ("@ + decimal(total) + " itens na pasta)"@
    } else {
        decimal(visible) + " de "@ + decimal(total) + " itens"@
    }
}

/// The status line: how many rows, and how many pass the filter.
pub fn filter_status(total: usize, visible: usize, query: &str) -> (r: String)
    ensures
        r@ == filter_status_of(total as nat, visible as nat, query@),
{
    let qc = chars_of(query);
    let q = trim_chars(&qc);
    let mut out: Vec<char> = Vec::new();
    if q.len() == 0 {
        push_decimal(&mut out, total as u64);
        extend_str(&mut out, " itens");
    } else if visible == 0 {
        extend_str(&mut out, "Nenhum item corresponde a ‘");
        extend_chars(&mut out, &q);
        extend_str(&mut out, "’ (");
        push_decimal(&mut out, total as u64);
        extend_str(&mut out, " itens na pasta)");
    } else {
        push_decimal(&mut out, visible as u64);
        extend_str(&mut out, " de ");
        push_decimal(&mut out, total as u64);
        extend_str(&mut out, " itens");
    }
    proof {
        assert(out@ =~= filter_status_of(total as nat, visible as nat, query@));
    }
    string_of(&out)
}

/// The status line for the selection.
pub open spec fn selection_status_of(count: nat) -> Seq<char> {
    if count == 0 {
        Seq::empty()
    } else if count == 1 {
        "1 item selecionado"@
    } else {
        decimal(count) + " itens selecionados"@
    }
}

/// How many rows are selected, in words.
pub fn selection_status(selection: &SelectionState) -> (r: String)
    ensures
        r@ == selection_status_of(selection.keys().len()),
{
    let count = selection.count();
    let mut out: Vec<char> = Vec::new();
    if count == 1 {
        extend_str(&mut out, "1 item selecionado");
    } else if count > 1 {
        push_decimal(&mut out, count as u64);
        extend_str(&mut out, " itens selecionados");
    }
    proof {
        assert(out@ =~= selection_status_of(count as nat));
    }
    string_of(&out)
}

/// Paths of the selected rows, in row order.
pub open spec fn selected_pred(selection: Set<Seq<char>>) -> spec_fn(LoadedRow) -> bool {
    |r: LoadedRow| selection.contains(r.key@)
}

pub open spec fn selected_rows_of(rows: Seq<LoadedRow>, selection: Set<Seq<char>>) -> Seq<
    LoadedRow,
> {
    rows.filter(selected_pred(selection))
}

/// The paths of the selected rows, in the order the rows are listed.
pub fn selected_paths(rows: &[LoadedRow], selection: &SelectionState) -> (r: Vec<String>)
    ensures
        r@.len() == selected_rows_of(rows@, selection.keys()).len(),
        forall|i: int|
            0 <= i < r@.len() ==> (#[trigger] r@[i])@ == selected_rows_of(
                rows@,
                selection.keys(),
            )[i].path@,
{
    let ghost sel = selection.keys();
    let mut out: Vec<String> = Vec::new();
    let mut i: usize = 0;
    proof {
        lemma_filter_empty(rows@, selected_pred(sel));
    }
    while i < rows.len()
        invariant
            i <= rows@.len(),
            sel == selection.keys(),
            out@.len() == selected_rows_of(rows@.subrange(0, i as int), sel).len(),
            forall|k: int|
                0 <= k < out@.len() ==> (#[trigger] out@[k])@ == selected_rows_of(
                    rows@.subrange(0, i as int),
                    sel,
                )[k].path@,
        decreases rows@.len() - i,
    {
        proof {
            lemma_filter_step(rows@, i as int, selected_pred(sel));
        }
        if selection.is_selected(rows[i].key.as_str()) {
            out.push(rows[i].path.clone());
        }
        i = i + 1;
    }
    assert(rows@.subrange(0, rows@.len() as int) =~= rows@);
    out
}

/// The selected row when exactly one key is selected: the first listed
/// row with a selected key.
pub open spec fn single_selected_of(rows: Seq<LoadedRow>, selection: Set<Seq<char>>) -> Option<
    LoadedRow,
> {
    if selection.len() != 1 || selected_rows_of(rows, selection).len() == 0 {
        None
    } else {
        Some(selected_rows_of(rows, selection)[0])
    }
}

/// The row that the single selected key names, if exactly one key is
/// selected and a listed row has it.
pub fn selected_row(rows: &[LoadedRow], selection: &SelectionState) -> (r: Option<LoadedRow>)
    ensures
        r == single_selected_of(rows@, selection.keys()),
{
    if selection.count() != 1 {
        return None;
    }
    let ghost sel = selection.keys();
    let mut i: usize = 0;
    proof {
        lemma_filter_empty(rows@, selected_pred(sel));
    }
    while i < rows.len()
        invariant
            i <= rows@.len(),
            sel == selection.keys(),
            sel.len() == 1,
            selected_rows_of(rows@.subrange(0, i as int), sel).len() == 0,
        decreases rows@.len() - i,
    {
        proof {
            lemma_filter_step(rows@, i as int, selected_pred(sel));
        }
        if selection.is_selected(rows[i].key.as_str()) {
            proof {
                lemma_first_selected(rows@, sel, i as int);
            }
            return Some(clone_row(&rows[i]));
        }
        i = i + 1;
    }
    assert(rows@.subrange(0, rows@.len() as int) =~= rows@);
    None
}

pub proof fn lemma_first_selected(rows: Seq<LoadedRow>, sel: Set<Seq<char>>, i: int)
    requires
        0 <= i < rows.len(),
        sel.contains(rows[i].key@),
        selected_rows_of(rows.subrange(0, i), sel).len() == 0,
    ensures
        selected_rows_of(rows, sel).len() > 0,
        selected_rows_of(rows, sel)[0] == rows[i],
{
    lemma_filter_step(rows, i, selected_pred(sel));
    lemma_filter_prefix(rows, sel, i + 1);
    let b = selected_rows_of(rows.subrange(0, i + 1), sel);
    assert(b.len() == 1);
    assert(b[0] == rows[i]);
    assert(selected_rows_of(rows, sel)[0] == b[0]);
}

/// Filtering a longer prefix keeps what the shorter one kept, in front.
pub proof fn lemma_filter_prefix(rows: Seq<LoadedRow>, sel: Set<Seq<char>>, n: int)
    requires
        0 <= n <= rows.len(),
    ensures
        selected_rows_of(rows.subrange(0, n), sel).len() <= selected_rows_of(rows, sel).len(),
        forall|k: int|
            0 <= k < selected_rows_of(rows.subrange(0, n), sel).len() ==> selected_rows_of(
                rows,
                sel,
            )[k] == #[trigger] selected_rows_of(rows.subrange(0, n), sel)[k],
    decreases rows.len() - n,
{
    if n == rows.len() {
        assert(rows.subrange(0, n) =~= rows);
    } else {
        lemma_filter_step(rows, n, selected_pred(sel));
        lemma_filter_prefix(rows, sel, n + 1);
        let a = selected_rows_of(rows.subrange(0, n), sel);
        let b = selected_rows_of(rows.subrange(0, n + 1), sel);
        assert forall|k: int| 0 <= k < a.len() implies selected_rows_of(rows, sel)[k]
            == #[trigger] a[k] by {
            assert(b[k] == a[k]);
            assert(selected_rows_of(rows, sel)[k] == b[k]);
        }
    }
}

/// What the preview panel shows: the path, name and folder flag of the one
/// selected row, when exactly one listed row is selected.
pub fn selected_target(rows: &[LoadedRow], selection: &SelectionState) -> (r: Option<
    (String, String, bool),
>)
    ensures
        match r {
            Some(t) => selected_rows_of(rows@, selection.keys()).len() == 1 && t.0@
                == selected_rows_of(rows@, selection.keys())[0].path@ && t.1@ == selected_rows_of(
                rows@,
                selection.keys(),
            )[0].name@ && t.2 == selected_rows_of(rows@, selection.keys())[0].is_directory,
            None => selected_rows_of(rows@, selection.keys()).len() != 1,
        },
{
    let ghost sel = selection.keys();
    let mut found: Option<usize> = None;
    let mut i: usize = 0;
    proof {
        lemma_filter_empty(rows@, selected_pred(sel));
    }
    while i < rows.len()
        invariant
            i <= rows@.len(),
            sel == selection.keys(),
            match found {
                None => selected_rows_of(rows@.subrange(0, i as int), sel).len() == 0,
                Some(j) => j < i && selected_rows_of(rows@.subrange(0, i as int), sel).len() == 1
                    && selected_rows_of(rows@.subrange(0, i as int), sel)[0] == rows@[j as int],
            },
        decreases rows@.len() - i,
    {
        proof {
            lemma_filter_step(rows@, i as int, selected_pred(sel));
        }
        if selection.is_selected(rows[i].key.as_str()) {
            match found {
                Some(_) => {
                    proof {
                        lemma_filter_prefix(rows@, sel, (i + 1) as int);
                        assert(selected_rows_of(rows@.subrange(0, i + 1), sel).len() == 2);
                    }
                    return None;
                },
                None => {
                    found = Some(i);
                },
            }
        }
        i = i + 1;
    }
    assert(rows@.subrange(0, rows@.len() as int) =~= rows@);
    match found {
        None => None,
        Some(j) => Some((rows[j].path.clone(), rows[j].name.clone(), rows[j].is_directory)),
    }
}

pub open spec fn empty_name_error() -> Seq<char> {
    "o novo nome não pode ser vazio"@
}

pub open spec fn single_name_error() -> Seq<char> {
    "o novo nome deve ser um único nome de arquivo"@
}

/// What a new name must not be: `.`, `..`, or anything with a separator
/// or NUL.
pub open spec fn is_unsafe_name(t: Seq<char>) -> bool {
    t == "."@ || t == ".."@ || has_char(t, '/') || has_char(t, '\\') || has_char(t, '\0')
}

/// The outcome of checking a typed name: the trimmed name, or why it is
/// refused.
pub open spec fn rename_check_of(name: Seq<char>) -> Result<Seq<char>, Seq<char>> {
    let t = trim(name);
    if t.len() == 0 {
        Err(empty_name_error())
    } else if is_unsafe_name(t) {
        Err(single_name_error())
    } else {
        Ok(t)
    }
}

/// Checks a name typed for a rename: trimmed, non-empty, one plain name.
pub fn validate_rename_name(name: &str) -> (r: Result<String, &'static str>)
    ensures
        match r {
            Ok(s) => rename_check_of(name@) == Ok::<Seq<char>, Seq<char>>(s@),
            Err(e) => rename_check_of(name@) == Err::<Seq<char>, Seq<char>>(e@),
        },
{
    let nc = chars_of(name);
    let t = trim_chars(&nc);
    if t.len() == 0 {
        return Err("o novo nome não pode ser vazio");
    }
    if eq_str(&t, ".") || eq_str(&t, "..") || contains_char(&t, '/') || contains_char(&t, '\\')
        || contains_char(&t, '\0') {
        return Err("o novo nome deve ser um único nome de arquivo");
    }
    Ok(string_of(&t))
}

} // verus!
