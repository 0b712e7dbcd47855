use vstd::prelude::*;
use vstd::string::*;
use crate::text::{decimal, push_decimal};

verus! {

/// Items joined with a comma and a space.
pub open spec fn sep_list(parts: Seq<Seq<char>>) -> Seq<char>
    decreases parts.len(),
{
    if parts.len() == 0 {
        Seq::empty()
    } else if parts.len() == 1 {
        parts[0]
    } else {
        sep_list(parts.drop_last()) + ", "@ + parts.last()
    }
}

/// The positional parameter marker for the parameter at index `k` (counted from zero).
pub open spec fn placeholder(k: nat) -> Seq<char> {
    "$"@ + decimal(k + 1)
}

pub open spec fn placeholders(n: nat) -> Seq<Seq<char>> {
    Seq::new(n, |k: int| placeholder(k as nat))
}

pub open spec fn assignments(names: Seq<Seq<char>>) -> Seq<Seq<char>> {
    Seq::new(names.len(), |k: int| names[k] + " = "@ + placeholder(k as nat))
}

pub open spec fn insert_sql(table: Seq<char>, names: Seq<Seq<char>>, pk: Seq<char>) -> Seq<char> {
    "INSERT INTO "@ + table + " ("@ + sep_list(names) + ") VALUES ("@
        + sep_list(placeholders(names.len())) + ") RETURNING "@ + pk + ";"@
}

pub open spec fn update_sql(table: Seq<char>, names: Seq<Seq<char>>, pk: Seq<char>) -> Seq<char> {
    "UPDATE "@ + table + " SET "@ + sep_list(assignments(names)) + " WHERE "@ + pk + " = "@
        + placeholder(names.len())
}

pub open spec fn delete_sql(table: Seq<char>, pk: Seq<char>) -> Seq<char> {
    "DELETE FROM "@ + table + " WHERE "@ + pk + " = "@ + placeholder(0)
}

pub open spec fn select_sql(table: Seq<char>, condition: Seq<char>) -> Seq<char> {
    "SELECT * FROM "@ + table + " WHERE "@ + condition
}

pub open spec fn select_first_sql(table: Seq<char>, condition: Seq<char>) -> Seq<char> {
    select_sql(table, condition) + " LIMIT 1"@
}

pub open spec fn views(v: Seq<String>) -> Seq<Seq<char>> {
    v.map_values(|s: String| s@)
}

/// Appends the parts joined with a comma and a space.
pub fn push_list(s: &mut String, parts: &Vec<String>)
    ensures
        final(s)@ == old(s)@ + sep_list(views(parts@)),
{
    let ghost start = s@;
    let mut i: usize = 0;
    while i < parts.len()
        invariant
            i <= parts@.len(),
            s@ == start + sep_list(views(parts@.subrange(0, i as int))),
        decreases parts@.len() - i,
    {
        assert(views(parts@.subrange(0, i + 1)).drop_last() =~= views(parts@.subrange(0, i as int)));
        if i > 0 {
            s.append(", ");
        }
        s.append(parts[i].as_str());
        i = i + 1;
    }
    assert(parts@.subrange(0, parts@.len() as int) =~= parts@);
}

fn placeholder_text(k: usize) -> (r: String)
    ensures
        r@ == placeholder(k as nat),
{
    let mut r = String::from_str("$");
    push_decimal(&mut r, k as u128 + 1);
    r
}

/// The parameter markers for `n` parameters.
pub fn placeholder_list(n: usize) -> (r: Vec<String>)
    ensures
        views(r@) == placeholders(n as nat),
{
    let mut r: Vec<String> = Vec::new();
    let mut k: usize = 0;
    while k < n
        invariant
            k <= n,
            r@.len() == k,
            views(r@) == placeholders(k as nat),
        decreases n - k,
    {
        let p = placeholder_text(k);
        let ghost before = r@;
        r.push(p);
        k = k + 1;
        proof {
            assert forall|j: int| 0 <= j < k implies views(r@)[j] == placeholders(k as nat)[j] by {
                if j < k - 1 {
                    assert(r@[j] == before[j]);
                    assert(views(before)[j] == placeholders((k - 1) as nat)[j]);
                }
            }
            assert(views(r@) =~= placeholders(k as nat));
        }
    }
    r
}

/// `name = $k` for each name, numbered from one.
pub fn assignment_list(names: &Vec<String>) -> (r: Vec<String>)
    ensures
        views(r@) == assignments(views(names@)),
{
    let mut r: Vec<String> = Vec::new();
    let mut k: usize = 0;
    while k < names.len()
        invariant
            k <= names@.len(),
            r@.len() == k,
            views(r@) == assignments(views(names@.subrange(0, k as int))),
        decreases names@.len() - k,
    {
        let mut a = names[k].clone();
        a.append(" = ");
        let p = placeholder_text(k);
        a.append(p.as_str());
        let ghost before = r@;
        r.push(a);
        k = k + 1;
        proof {
            let cur = views(names@.subrange(0, k as int));
            let prev = views(names@.subrange(0, k - 1));
            assert forall|j: int| 0 <= j < k implies views(r@)[j] == assignments(cur)[j] by {
                if j < k - 1 {
                    assert(r@[j] == before[j]);
                    assert(views(before)[j] == assignments(prev)[j]);
                    assert(cur[j] == prev[j]);
                }
            }
            assert(views(r@) =~= assignments(cur));
        }
    }
    assert(names@.subrange(0, names@.len() as int) =~= names@);
    r
}

pub fn build_insert(table: &String, names: &Vec<String>, pk: &String) -> (r: String)
    ensures
        r@ == insert_sql(table@, views(names@), pk@),
{
    let mut s = String::from_str("INSERT INTO ");
    s.append(table.as_str());
    s.append(" (");
    push_list(&mut s, names);
    s.append(") VALUES (");
    let marks = placeholder_list(names.len());
    push_list(&mut s, &marks);
    s.append(") RETURNING ");
    s.append(pk.as_str());
    s.append(";");
    s
}

pub fn build_update(table: &String, names: &Vec<String>, pk: &String) -> (r: String)
    ensures
        r@ == update_sql(table@, views(names@), pk@),
{
    let mut s = String::from_str("UPDATE ");
    s.append(table.as_str());
    s.append(" SET ");
    let sets = assignment_list(names);
    push_list(&mut s, &sets);
    s.append(" WHERE ");
    s.append(pk.as_str());
    s.append(" = ");
    let p = placeholder_text(names.len());
    s.append(p.as_str());
    s
}

pub fn build_delete(table: &String, pk: &String) -> (r: String)
    ensures
        r@ == delete_sql(table@, pk@),
{
    let mut s = String::from_str("DELETE FROM ");
    s.append(table.as_str());
    s.append(" WHERE ");
    s.append(pk.as_str());
    s.append(" = ");
    let p = placeholder_text(0);
    s.append(p.as_str());
    s
}

pub fn build_select(table: &String, condition: &str) -> (r: String)
    ensures
        r@ == select_sql(table@, condition@),
{
    let mut s = String::from_str("SELECT * FROM ");
    s.append(table.as_str());
    s.append(" WHERE ");
    s.append(condition);
    s
}

pub fn build_select_first(table: &String, condition: &str) -> (r: String)
    ensures
        r@ == select_first_sql(table@, condition@),
{
    let mut s = build_select(table, condition);
    s.append(" LIMIT 1");
    s
}

} // verus!
