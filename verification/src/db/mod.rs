//! The SQLite side of the mirror: the statements that ingest and lookup build,
//! and the guards applied before they run.

pub mod ingest;
pub mod printed;
pub mod query;
pub mod scd;

use vstd::prelude::*;

use crate::text::{chars_of, push_str, text_of};

verus! {

pub open spec fn contains_char(s: Seq<char>, c: char) -> bool {
    exists|i: int| 0 <= i < s.len() && s[i] == c
}

/// `VACUUM INTO` quotes its destination, so a destination with a single quote is refused.
pub open spec fn vacuum_into_sql(dest: Seq<char>) -> Result<Seq<char>, Seq<char>> {
    if contains_char(dest, '\'') {
        Err("VACUUM INTO destination must not contain a single quote"@)
    } else {
        Ok("VACUUM INTO '"@ + dest + "'"@)
    }
}

/// The statement that snapshots the open database into `dest`.
pub fn vacuum_into_statement(dest: &str) -> (r: Result<String, String>)
    ensures
        r matches Ok(s) ==> vacuum_into_sql(dest@) == Ok::<Seq<char>, Seq<char>>(s@),
        r matches Err(e) ==> vacuum_into_sql(dest@) == Err::<Seq<char>, Seq<char>>(e@),
{
    let cs = chars_of(dest);
    let n = cs.len();
    let mut i: usize = 0;
    while i < n
        invariant
            i <= n == cs@.len(),
            cs@ == dest@,
            forall|j: int| 0 <= j < i ==> cs@[j] != '\'',
        decreases n - i,
    {
        if cs[i] == '\'' {
            return Err(text_of(
                chars_of("VACUUM INTO destination must not contain a single quote").as_slice(),
            ));
        }
        i = i + 1;
    }
    let mut out = chars_of("VACUUM INTO '");
    push_str(&mut out, dest);
    push_str(&mut out, "'");
    Ok(text_of(out.as_slice()))
}

/// `PRAGMA table_info(table)`.
pub fn table_info_statement(table: &str) -> (r: String)
    ensures
        r@ == "PRAGMA table_info("@ + table@ + ")"@,
{
    let mut out = chars_of("PRAGMA table_info(");
    push_str(&mut out, table);
    push_str(&mut out, ")");
    text_of(out.as_slice())
}

/// `ALTER TABLE table ADD COLUMN column decl`.
pub fn add_column_statement(table: &str, column: &str, decl: &str) -> (r: String)
    ensures
        r@ == "ALTER TABLE "@ + table@ + " ADD COLUMN "@ + column@ + " "@ + decl@,
{
    let mut out = chars_of("ALTER TABLE ");
    push_str(&mut out, table);
    push_str(&mut out, " ADD COLUMN ");
    push_str(&mut out, column);
    push_str(&mut out, " ");
    push_str(&mut out, decl);
    text_of(out.as_slice())
}

/// Whether `column` is among the column names that `PRAGMA table_info` listed.
pub fn has_column(names: &[String], column: &str) -> (b: bool)
    ensures
        b == exists|i: int| 0 <= i < names@.len() && #[trigger] names@[i]@ == column@,
{
    let n = names.len();
    let mut i: usize = 0;
    while i < n
        invariant
            i <= n == names@.len(),
            forall|j: int| 0 <= j < i ==> #[trigger] names@[j]@ != column@,
        decreases n - i,
    {
        if crate::text::same_text(names[i].as_str(), column) {
            return true;
        }
        i = i + 1;
    }
    false
}

/// The current rows of an SCD table, by N-number, id and state hash.
pub fn load_current_statement(table: &str) -> (r: String)
    ensures
        r@ == "SELECT n_number, id, state_hash FROM "@ + table@ + " WHERE is_current = 1"@,
{
    let mut out = chars_of("SELECT n_number, id, state_hash FROM ");
    push_str(&mut out, table);
    push_str(&mut out, " WHERE is_current = 1");
    text_of(out.as_slice())
}

/// Closes one SCD row: it stops being current and gets its `valid_to` day.
pub fn close_row_statement(table: &str) -> (r: String)
    ensures
        r@ == "UPDATE "@ + table@ + " SET is_current = 0, valid_to = ?1 WHERE id = ?2"@,
{
    let mut out = chars_of("UPDATE ");
    push_str(&mut out, table);
    push_str(&mut out, " SET is_current = 0, valid_to = ?1 WHERE id = ?2");
    text_of(out.as_slice())
}

} // verus!
