//! The filter expressions that the vector store is queried and updated with.

use vstd::prelude::*;
use crate::search::SearchFilters;
use crate::text::{chars_of, i64_decimal, join_strings, join_with, push_char, views, decimal};

verus! {

/// `s` with every single quote doubled, as SQL string literals need.
pub open spec fn escape_quotes(s: Seq<char>) -> Seq<char>
    decreases s.len(),
{
    if s.len() == 0 {
        seq![]
    } else {
        escape_quotes(s.drop_last()) + if s.last() == '\'' {
            seq!['\'', '\'']
        } else {
            seq![s.last()]
        }
    }
}

/// Doubles every single quote of `s`.
pub fn escape_sql_quotes(s: &str) -> (r: String)
    ensures
        r@ == escape_quotes(s@),
{
    let cs = chars_of(s);
    let mut r = String::new();
    let mut i: usize = 0;
    while i < cs.len()
        invariant
            cs@ == s@,
            i <= cs@.len(),
            r@ == escape_quotes(cs@.take(i as int)),
        decreases cs@.len() - i,
    {
        assert(cs@.take(i + 1).drop_last() == cs@.take(i as int));
        if cs[i] == '\'' {
            push_char(&mut r, '\'');
        }
        push_char(&mut r, cs[i]);
        assert(r@ =~= escape_quotes(cs@.take(i + 1)));
        i += 1;
    }
    assert(cs@.take(cs@.len() as int) == cs@);
    r
}

/// The live chunks of one file.
pub fn file_chunks_filter(file_id: &str) -> (r: String)
    ensures
        r@ == "file_id = '"@ + file_id@ + "' AND deleted_at IS NULL"@,
{
    let mut r = String::from_str("file_id = '");
    r.append(file_id);
    r.append("' AND deleted_at IS NULL");
    r
}

/// The live first chunks (one per file), of one category or of all.
pub fn listing_filter(category: Option<&str>) -> (r: String)
    ensures
        match category {
            Some(c) => r@ == "category = '"@ + c@ + "' AND deleted_at IS NULL AND chunk_index = 0"@,
            None => r@ == "deleted_at IS NULL AND chunk_index = 0"@,
        },
{
    match category {
        Some(c) => {
            let mut r = String::from_str("category = '");
            r.append(c);
            r.append("' AND deleted_at IS NULL AND chunk_index = 0");
            r
        },
        None => String::from_str("deleted_at IS NULL AND chunk_index = 0"),
    }
}

/// The chunks stored for one path.
pub fn path_filter(path: &str) -> (r: String)
    ensures
        r@ == "path = '"@ + path@ + "'"@,
{
    let mut r = String::from_str("path = '");
    r.append(path);
    r.append("'");
    r
}

/// All chunks of one file, deleted or not.
pub fn file_filter(file_id: &str) -> (r: String)
    ensures
        r@ == "file_id = '"@ + file_id@ + "'"@,
{
    let mut r = String::from_str("file_id = '");
    r.append(file_id);
    r.append("'");
    r
}

/// A string value as an SQL literal, without escaping (the column update of
/// a user category).
pub fn quoted_value(value: &str) -> (r: String)
    ensures
        r@ == "'"@ + value@ + "'"@,
{
    let mut r = String::from_str("'");
    r.append(value);
    r.append("'");
    r
}

/// The chunks whose path starts with `prefix`; quotes in the prefix are
/// doubled so that the literal stays well formed.
pub fn prefix_filter(prefix: &str) -> (r: String)
    ensures
        r@ == "path LIKE '"@ + escape_quotes(prefix@) + "%'"@,
{
    let mut r = String::from_str("path LIKE '");
    let e = escape_sql_quotes(prefix);
    r.append(e.as_str());
    r.append("%'");
    r
}

/// The directory prefix of the records under `dir`: `dir` itself when it
/// ends with a slash, `dir` and a slash otherwise.
pub open spec fn dir_prefix_spec(dir: Seq<char>) -> Seq<char> {
    if dir.len() > 0 && dir.last() == '/' { dir } else { dir.push('/') }
}

/// Computes `dir_prefix_spec`.
pub fn dir_prefix(dir: &str) -> (r: String)
    ensures
        r@ == dir_prefix_spec(dir@),
{
    let cs = chars_of(dir);
    let mut r = String::from_str(dir);
    if cs.len() == 0 || cs[cs.len() - 1] != '/' {
        push_char(&mut r, '/');
    }
    r
}

/// A condition `column = '<value>'` for a set filter, none otherwise.
pub open spec fn text_condition(column: Seq<char>, value: Option<String>) -> Seq<Seq<char>> {
    match value {
        Some(v) => seq![column + " = '"@ + v@ + "'"@],
        None => seq![],
    }
}

/// A condition `column <op> <value>` for a set bound, none otherwise.
pub open spec fn bound_condition(column: Seq<char>, op: Seq<char>, value: Option<i64>) -> Seq<Seq<char>> {
    match value {
        Some(v) => seq![column + op + decimal(v as int)],
        None => seq![],
    }
}

/// The conditions of a vector search under `f`, in this order: live chunks
/// only, then category, extension, minimum and maximum size, and the
/// modification window, each where `f` sets it.
pub open spec fn search_conditions_spec(f: SearchFilters) -> Seq<Seq<char>> {
    seq!["deleted_at IS NULL"@]
        + text_condition("category"@, f.category)
        + text_condition("extension"@, f.extension)
        + bound_condition("size"@, " >= "@, f.min_size)
        + bound_condition("size"@, " <= "@, f.max_size)
        + bound_condition("modified_at"@, " >= "@, f.after_ms)
        + bound_condition("modified_at"@, " <= "@, f.before_ms)
}

fn push_text_condition(conds: &mut Vec<String>, column: &str, value: &Option<String>)
    ensures
        views(final(conds)@) == views(old(conds)@) + text_condition(column@, *value),
{
    let ghost before = conds@;
    match value {
        Some(v) => {
            let mut c = String::from_str(column);
            c.append(" = '");
            c.append(v.as_str());
            c.append("'");
            conds.push(c);
        },
        None => {},
    }
    assert(views(conds@) =~= views(before) + text_condition(column@, *value));
}

fn push_bound_condition(conds: &mut Vec<String>, column: &str, op: &str, value: Option<i64>)
    ensures
        views(final(conds)@) == views(old(conds)@) + bound_condition(column@, op@, value),
{
    let ghost before = conds@;
    match value {
        Some(v) => {
            let mut c = String::from_str(column);
            c.append(op);
            let d = i64_decimal(v);
            c.append(d.as_str());
            conds.push(c);
        },
        None => {},
    }
    assert(views(conds@) =~= views(before) + bound_condition(column@, op@, value));
}

/// A joined list starts with its first part.
proof fn lemma_join_starts_with_first(parts: Seq<Seq<char>>, sep: Seq<char>)
    requires
        parts.len() > 0,
    ensures
        join_with(parts, sep).len() >= parts[0].len(),
        join_with(parts, sep).take(parts[0].len() as int) == parts[0],
    decreases parts.len(),
{
    if parts.len() > 1 {
        lemma_join_starts_with_first(parts.drop_last(), sep);
        let j = join_with(parts.drop_last(), sep);
        assert(join_with(parts, sep) == j + sep + parts.last());
        assert((j + sep + parts.last()).take(parts[0].len() as int) =~= j.take(parts[0].len() as int));
    } else {
        assert(parts[0].take(parts[0].len() as int) =~= parts[0]);
    }
}

/// Whatever the filters, a vector search is restricted to chunks that are
/// not deleted: its filter starts with that condition.
pub proof fn law_search_excludes_deleted(f: SearchFilters)
    ensures
        join_with(search_conditions_spec(f), " AND "@).take("deleted_at IS NULL"@.len() as int)
            == "deleted_at IS NULL"@,
{
    let conds = search_conditions_spec(f);
    assert(conds[0] == "deleted_at IS NULL"@);
    lemma_join_starts_with_first(conds, " AND "@);
}

/// A category filter is part of the search filter.
pub proof fn law_search_applies_category(f: SearchFilters)
    requires
        f.category is Some,
    ensures
        search_conditions_spec(f).contains("category"@ + " = '"@ + f.category->0@ + "'"@),
{
    let conds = search_conditions_spec(f);
    assert(conds[1] == "category"@ + " = '"@ + f.category->0@ + "'"@);
}

/// Each filter that is set adds its own condition to a vector search,
/// whatever the other filters are, and nothing else is added: the
/// conditions are the live-chunk condition and one per set filter.
pub proof fn law_search_applies_each_filter(f: SearchFilters)
    ensures
        f.category matches Some(c) ==> search_conditions_spec(f).contains("category = '"@ + c@ + "'"@),
        f.extension matches Some(e) ==> search_conditions_spec(f).contains("extension = '"@ + e@ + "'"@),
        f.min_size matches Some(v) ==> search_conditions_spec(f).contains("size >= "@ + decimal(v as int)),
        f.max_size matches Some(v) ==> search_conditions_spec(f).contains("size <= "@ + decimal(v as int)),
        f.after_ms matches Some(v) ==> search_conditions_spec(f).contains("modified_at >= "@ + decimal(v as int)),
        f.before_ms matches Some(v) ==> search_conditions_spec(f).contains("modified_at <= "@ + decimal(v as int)),
        search_conditions_spec(f).len() == 1 + (if f.category is Some { 1int } else { 0 })
            + (if f.extension is Some { 1int } else { 0 }) + (if f.min_size is Some { 1int } else { 0 })
            + (if f.max_size is Some { 1int } else { 0 }) + (if f.after_ms is Some { 1int } else { 0 })
            + (if f.before_ms is Some { 1int } else { 0 }),
{
    reveal_strlit("category");
    reveal_strlit("extension");
    reveal_strlit("size");
    reveal_strlit("modified_at");
    reveal_strlit(" = '");
    reveal_strlit(" >= ");
    reveal_strlit(" <= ");
    reveal_strlit("category = '");
    reveal_strlit("extension = '");
    reveal_strlit("size >= ");
    reveal_strlit("size <= ");
    reveal_strlit("modified_at >= ");
    reveal_strlit("modified_at <= ");
    let p0 = seq!["deleted_at IS NULL"@];
    let p1 = p0 + text_condition("category"@, f.category);
    let p2 = p1 + text_condition("extension"@, f.extension);
    let p3 = p2 + bound_condition("size"@, " >= "@, f.min_size);
    let p4 = p3 + bound_condition("size"@, " <= "@, f.max_size);
    let p5 = p4 + bound_condition("modified_at"@, " >= "@, f.after_ms);
    let p6 = p5 + bound_condition("modified_at"@, " <= "@, f.before_ms);
    assert(p6 == search_conditions_spec(f));
    assert(p2.take(p1.len() as int) =~= p1);
    assert(p3.take(p2.len() as int) =~= p2);
    assert(p4.take(p3.len() as int) =~= p3);
    assert(p5.take(p4.len() as int) =~= p4);
    assert(p6.take(p5.len() as int) =~= p5);
    if let Some(c) = f.category {
        assert("category"@ + " = '"@ + c@ + "'"@ =~= "category = '"@ + c@ + "'"@);
        assert(p6[1] == p1[1]);
    }
    if let Some(e) = f.extension {
        assert("extension"@ + " = '"@ + e@ + "'"@ =~= "extension = '"@ + e@ + "'"@);
        assert(p6[p1.len() as int] == p2[p1.len() as int]);
    }
    if let Some(v) = f.min_size {
        assert("size"@ + " >= "@ + decimal(v as int) =~= "size >= "@ + decimal(v as int));
        assert(p6[p2.len() as int] == p3[p2.len() as int]);
    }
    if let Some(v) = f.max_size {
        assert("size"@ + " <= "@ + decimal(v as int) =~= "size <= "@ + decimal(v as int));
        assert(p6[p3.len() as int] == p4[p3.len() as int]);
    }
    if let Some(v) = f.after_ms {
        assert("modified_at"@ + " >= "@ + decimal(v as int) =~= "modified_at >= "@ + decimal(v as int));
        assert(p6[p4.len() as int] == p5[p4.len() as int]);
    }
    if let Some(v) = f.before_ms {
        assert("modified_at"@ + " <= "@ + decimal(v as int) =~= "modified_at <= "@ + decimal(v as int));
        assert(p6[p5.len() as int] == p6[p5.len() as int]);
    }
}

/// The conditions of a vector search under `f`.
pub fn search_conditions(f: &SearchFilters) -> (r: Vec<String>)
    ensures
        views(r@) == search_conditions_spec(*f),
{
    let mut conds: Vec<String> = Vec::new();
    conds.push(String::from_str("deleted_at IS NULL"));
    assert(views(conds@) =~= seq!["deleted_at IS NULL"@]);
    push_text_condition(&mut conds, "category", &f.category);
    push_text_condition(&mut conds, "extension", &f.extension);
    push_bound_condition(&mut conds, "size", " >= ", f.min_size);
    push_bound_condition(&mut conds, "size", " <= ", f.max_size);
    push_bound_condition(&mut conds, "modified_at", " >= ", f.after_ms);
    push_bound_condition(&mut conds, "modified_at", " <= ", f.before_ms);
    conds
}

/// The filter of a vector search under `f`: its conditions joined by `AND`.
pub fn search_filter(f: &SearchFilters) -> (r: String)
    ensures
        r@ == join_with(search_conditions_spec(*f), " AND "@),
{
    let conds = search_conditions(f);
    join_strings(&conds, " AND ")
}

} // verus!
