use vstd::prelude::*;

use crate::database::SetRegistry;
use crate::idset::views;
use crate::registry::{map_after_insert, RegistryMap};
use crate::text::{chars_of, is_space, lemma_run_len_bounds, run_len, run_length, space_char, CharClass};

verus! {

/// The Unicode lowercase mapping of a string, as `str::to_lowercase` computes it.
pub uninterp spec fn lower_of(s: Seq<char>) -> Seq<char>;

/// Relies on `str::to_lowercase`: the full Unicode lowercase mapping, which depends on the
/// characters alone.
#[verifier::external_body]
fn lowercase(s: &str) -> (r: String)
    ensures
        r@ == lower_of(s@),
{
    s.to_lowercase()
}

/// The length of the run of white space that ends just before position `e`.
pub open spec fn back_run(s: Seq<char>, e: int) -> nat
    decreases e,
{
    if 0 < e <= s.len() && is_space(s[e - 1]) {
        1 + back_run(s, e - 1)
    } else {
        0
    }
}

/// `s` without leading and trailing white space.
pub open spec fn trimmed(s: Seq<char>) -> Seq<char> {
    let a = run_len(s, 0, CharClass::Space);
    if a == s.len() {
        Seq::empty()
    } else {
        s.subrange(a as int, s.len() - back_run(s, s.len() as int))
    }
}

/// Whether the loader replaces `c` in labels: white space and parentheses.
pub open spec fn replaced(c: char) -> bool {
    is_space(c) || c == '(' || c == ')'
}

/// `s` with every replaced character turned into an underscore.
pub open spec fn underscored(s: Seq<char>) -> Seq<char> {
    s.map_values(|c: char| if replaced(c) { '_' } else { c })
}

/// A header or a cell as it stands in labels: trimmed, lowercased, underscored.
pub open spec fn normalized(s: Seq<char>) -> Seq<char> {
    underscored(lower_of(trimmed(s)))
}

/// The label of a cell under a normalized header: `header:cell`.
pub open spec fn label_of(header: Seq<char>, cell: Seq<char>) -> Seq<char> {
    header + seq![':'] + normalized(cell)
}

fn trim_text(s: &str) -> (r: &str)
    ensures
        r@ == trimmed(s@),
{
    let cs = chars_of(s);
    let n = cs.len();
    let a = run_length(&cs, 0, CharClass::Space);
    if a == n {
        return s.substring_char(0, 0);
    }
    proof {
        lemma_run_len_bounds(cs@, 0, CharClass::Space);
        assert(!is_space(cs@[a as int]));
    }
    let mut e: usize = n;
    while e > a + 1 && space_char(cs[e - 1])
        invariant
            a < e <= n,
            n == cs@.len(),
            cs@ == s@,
            !is_space(cs@[a as int]),
            back_run(cs@, n as int) == (n - e) + back_run(cs@, e as int),
        decreases e,
    {
        e = e - 1;
    }
    assert(back_run(cs@, e as int) == 0);
    s.substring_char(a, e)
}

fn underscore_text(s: &str) -> (r: String)
    ensures
        r@ == underscored(s@),
{
    let cs = chars_of(s);
    let mut r = String::new();
    let mut i: usize = 0;
    while i < cs.len()
        invariant
            i <= cs@.len(),
            cs@ == s@,
            r@ == underscored(s@).subrange(0, i as int),
        decreases cs@.len() - i,
    {
        let c = cs[i];
        let ghost before = r@;
        if space_char(c) || c == '(' || c == ')' {
            r.append("_");
            proof {
                reveal_strlit("_");
            }
            assert("_"@ =~= seq!['_']);
        } else {
            let piece = s.substring_char(i, i + 1);
            assert(piece@ =~= seq![c]);
            r.append(piece);
        }
        assert(r@ =~= before.push(underscored(s@)[i as int]));
        i = i + 1;
        assert(r@ =~= underscored(s@).subrange(0, i as int));
    }
    assert(underscored(s@).subrange(0, i as int) =~= underscored(s@));
    r
}

/// Trims, lowercases and underscores a header or a cell.
pub fn normalize(s: &str) -> (r: String)
    ensures
        r@ == normalized(s@),
{
    let lower = lowercase(trim_text(s));
    underscore_text(lower.as_str())
}

/// The label of `cell` under the normalized `header`.
pub fn cell_label(header: &String, cell: &String) -> (r: String)
    ensures
        r@ == label_of(header@, cell@),
{
    let mut r = header.clone();
    r.append(":");
    proof {
        reveal_strlit(":");
    }
    let v = normalize(cell.as_str());
    r.append(v.as_str());
    r
}

/// The table's rows, each as the character sequences of its cells.
pub open spec fn rows_view(rows: Seq<Vec<String>>) -> Seq<Seq<Seq<char>>> {
    rows.map_values(|r: Vec<String>| views(r@))
}

/// The headers, normalized.
pub open spec fn headers_view(headers: Seq<String>) -> Seq<Seq<char>> {
    views(headers).map_values(|h: Seq<char>| normalized(h))
}

/// The first header names the identifier column: it normalizes to `id`.
pub open spec fn has_id_column(headers: Seq<Seq<char>>) -> bool {
    headers.len() > 0 && normalized(headers[0]) == seq!['i', 'd']
}

/// `m` after the cells of columns `1..n` of `row` are recorded as labels of the row's
/// identifier, its first cell.
pub open spec fn row_into(m: RegistryMap, hs: Seq<Seq<char>>, row: Seq<Seq<char>>, n: int) -> RegistryMap
    decreases n,
{
    if n <= 1 {
        m
    } else {
        map_after_insert(row_into(m, hs, row, n - 1), label_of(hs[n - 1], row[n - 1]), row[0])
    }
}

/// The registry that the first `k` rows make, under the normalized headers `hs`; a row
/// is read as far as both it and the headers go.
pub open spec fn table_map(hs: Seq<Seq<char>>, rows: Seq<Seq<Seq<char>>>, k: int) -> RegistryMap
    decreases k,
{
    if k <= 0 {
        Map::empty()
    } else {
        let row = rows[k - 1];
        let n = if hs.len() < row.len() {
            hs.len() as int
        } else {
            row.len() as int
        };
        row_into(table_map(hs, rows, k - 1), hs, row, n)
    }
}

/// The identifiers, first cells, of the first `k` rows.
pub open spec fn table_ids(rows: Seq<Seq<Seq<char>>>, k: int) -> Set<Seq<char>>
    decreases k,
{
    if k <= 0 {
        Set::empty()
    } else {
        table_ids(rows, k - 1).insert(rows[k - 1][0])
    }
}

/// Why a table could not be loaded into a registry.
#[derive(Debug, Clone, PartialEq, Eq)]
pub enum LoadError {
    /// The first header does not normalize to `id`.
    MissingIdColumn,
    /// The row at this index has no cell, so no identifier.
    EmptyRecord(usize),
}

/// Builds a registry from a table: the first column holds identifiers, and every other
/// cell gives its row's identifier the label `header:cell`, both normalized.
pub fn registry_from_table(headers: &Vec<String>, rows: &Vec<Vec<String>>) -> (r: Result<SetRegistry, LoadError>)
    ensures
        match r {
            Err(LoadError::MissingIdColumn) => !has_id_column(views(headers@)),
            Err(LoadError::EmptyRecord(i)) => {
                &&& has_id_column(views(headers@))
                &&& i < rows@.len() && rows@[i as int]@.len() == 0
                &&& forall|j: int| 0 <= j < i ==> (#[trigger] rows@[j])@.len() > 0
            },
            Ok(reg) => {
                &&& has_id_column(views(headers@))
                &&& forall|j: int| 0 <= j < rows@.len() ==> (#[trigger] rows@[j])@.len() > 0
                &&& reg.wf()
                &&& reg.data@ == table_map(headers_view(headers@), rows_view(rows@), rows@.len() as int)
                &&& reg.ids@ == table_ids(rows_view(rows@), rows@.len() as int)
            },
        },
{
    let mut hs: Vec<String> = Vec::new();
    let mut i: usize = 0;
    while i < headers.len()
        invariant
            i <= headers@.len(),
            views(hs@) == headers_view(headers@).subrange(0, i as int),
        decreases headers@.len() - i,
    {
        let h = normalize(headers[i].as_str());
        let ghost before = hs@;
        hs.push(h);
        assert(views(hs@) =~= views(before).push(h@));
        i = i + 1;
        assert(views(hs@) =~= headers_view(headers@).subrange(0, i as int));
    }
    assert(views(hs@) =~= headers_view(headers@));
    let ghost hv = headers_view(headers@);
    let ghost rv = rows_view(rows@);
    let id_word = "id".to_owned();
    proof {
        reveal_strlit("id");
    }
    assert(id_word@ =~= seq!['i', 'd']);
    if hs.len() == 0 {
        return Err(LoadError::MissingIdColumn);
    }
    assert(hs@[0]@ == hv[0]);
    if !(hs[0] == id_word) {
        return Err(LoadError::MissingIdColumn);
    }
    assert(hv[0] == normalized(views(headers@)[0]));
    let mut reg = SetRegistry::new();
    let mut k: usize = 0;
    while k < rows.len()
        invariant
            k <= rows@.len(),
            views(hs@) == hv,
            hv == headers_view(headers@),
            rv == rows_view(rows@),
            has_id_column(views(headers@)),
            reg.wf(),
            reg.data@ == table_map(hv, rv, k as int),
            reg.ids@ == table_ids(rv, k as int),
            forall|j: int| 0 <= j < k ==> (#[trigger] rows@[j])@.len() > 0,
        decreases rows@.len() - k,
    {
        let row = &rows[k];
        if row.len() == 0 {
            return Err(LoadError::EmptyRecord(k));
        }
        let ghost rk = rv[k as int];
        assert(rk == views(row@));
        let id = &row[0];
        assert(id@ == rk[0]);
        reg.ids.insert(id.clone());
        assert(reg.ids@ == table_ids(rv, k + 1));
        let n = if hs.len() < row.len() {
            hs.len()
        } else {
            row.len()
        };
        let ghost start = reg.data@;
        let mut c: usize = 1;
        while c < n
            invariant
                1 <= c <= n,
                n <= hs@.len(),
                n <= row@.len(),
                views(hs@) == hv,
                rk == views(row@),
                row@.len() > 0,
                id@ == rk[0],
                reg.ids@ == table_ids(rv, k + 1),
                reg.wf(),
                reg.data@ == row_into(start, hv, rk, c as int),
            decreases n - c,
        {
            let label = cell_label(&hs[c], &row[c]);
            assert(hs@[c as int]@ == hv[c as int]);
            assert(row@[c as int]@ == rk[c as int]);
            reg.insert(label, id.clone());
            assert(reg.data@ == row_into(start, hv, rk, c + 1));
            c = c + 1;
        }
        k = k + 1;
    }
    Ok(reg)
}

} // verus!
