//! Filters, pages and checked names.

use crate::distribution::transform::{int_at, int_member};
use crate::json::{values_view, Json, JsonV};
use crate::match_algo::keys_view;
use crate::sql::{
    copy_params, params_view, slot, slot_text, valid_ident, validate_ident, SqlV, SqlValue,
    Statement, StatementV,
};
use crate::text::{join, joined, texts};
use vstd::prelude::*;

verus! {

/// A statement whose text is given.
pub fn statement(sql: &str, params: Vec<SqlValue>) -> (r: Statement)
    ensures
        r.sql@ == sql@,
        r.params@ == params@,
{
    Statement { sql: sql.to_owned(), params }
}

/// The first of the names that may not stand in a statement.
pub open spec fn first_bad(names: Seq<Seq<char>>) -> Option<Seq<char>>
    decreases names.len(),
{
    if names.len() == 0 {
        None
    } else if !valid_ident(names[0]) {
        Some(names[0])
    } else {
        first_bad(names.drop_first())
    }
}

/// What is said of a name that may not stand in a statement.
pub open spec fn bad_name(name: Seq<char>) -> Seq<char> {
    "非法标识符: "@ + name
}

/// Refuses the first name that may not stand in a statement.
pub fn check_names(names: &[&str]) -> (r: Result<(), String>)
    ensures
        match first_bad(keys_view(names@)) {
            None => r is Ok,
            Some(n) => r matches Err(e) && e@ == bad_name(n),
        },
{
    let ghost all = keys_view(names@);
    let mut i: usize = 0;
    assert(all.skip(0) =~= all);
    while i < names.len()
        invariant
            i <= names@.len(),
            all == keys_view(names@),
            first_bad(all) == first_bad(all.skip(i as int)),
        decreases names@.len() - i,
    {
        assert(all.skip(i as int)[0] == names@[i as int]@);
        assert(all.skip(i as int).drop_first() =~= all.skip(i + 1));
        if let Err(e) = validate_ident(names[i]) {
            return Err(e);
        }
        i += 1;
    }
    Ok(())
}

/// Refuses a name that may not stand in a statement.
pub fn check_name(name: &str) -> (r: Result<(), String>)
    ensures
        match first_bad(seq![name@]) {
            None => r is Ok,
            Some(n) => r matches Err(e) && e@ == bad_name(n),
        },
{
    assert(seq![name@].drop_first() =~= Seq::<Seq<char>>::empty());
    reveal_with_fuel(first_bad, 2);
    validate_ident(name)
}

/// Refuses the first of two names that may not stand in a statement.
pub fn check_two(a: &str, b: &str) -> (r: Result<(), String>)
    ensures
        match first_bad(seq![a@, b@]) {
            None => r is Ok,
            Some(n) => r matches Err(e) && e@ == bad_name(n),
        },
{
    assert(seq![a@, b@].drop_first() =~= seq![b@]);
    reveal_with_fuel(first_bad, 2);
    match validate_ident(a) {
        Err(e) => Err(e),
        Ok(_) => check_name(b),
    }
}

/// Conditions with their parameters.
#[derive(Debug)]
pub struct Filter {
    pub clauses: Vec<String>,
    pub params: Vec<SqlValue>,
}

/// What a filter stands for.
#[verifier::ext_equal]
pub struct FilterV {
    pub clauses: Seq<Seq<char>>,
    pub params: Seq<SqlV>,
}

/// A filter with one condition without a parameter.
pub open spec fn filter_of(first: Seq<char>) -> FilterV {
    FilterV { clauses: seq![first], params: Seq::empty() }
}

/// The filter with the condition `before $n after` for the next parameter.
pub open spec fn filter_on(f: FilterV, before: Seq<char>, after: Seq<char>, v: SqlV) -> FilterV {
    FilterV {
        clauses: f.clauses.push(before + slot(f.params.len() + 1) + after),
        params: f.params.push(v),
    }
}

/// The filter on a text, where one is asked for.
pub open spec fn filter_text(f: FilterV, before: Seq<char>, t: Option<Seq<char>>) -> FilterV {
    match t {
        Some(s) => filter_on(f, before, ""@, SqlV::Text(s)),
        None => f,
    }
}

/// The filter on an integer, where one is asked for.
pub open spec fn filter_int(f: FilterV, before: Seq<char>, i: Option<i64>) -> FilterV {
    match i {
        Some(n) => filter_on(f, before, ""@, SqlV::Int(n)),
        None => f,
    }
}

/// The view of an optional borrowed text.
pub open spec fn opt_str(s: Option<&str>) -> Option<Seq<char>> {
    match s {
        Some(t) => Some(t@),
        None => None,
    }
}

impl Filter {
    pub open spec fn view(&self) -> FilterV {
        FilterV { clauses: texts(self.clauses@), params: params_view(self.params@) }
    }

    /// A filter with one condition without a parameter.
    pub fn new(first: &str) -> (r: Filter)
        ensures
            r@ == filter_of(first@),
    {
        let mut clauses: Vec<String> = Vec::new();
        clauses.push(first.to_owned());
        let r = Filter { clauses, params: Vec::new() };
        assert(r@ =~= filter_of(first@));
        r
    }

    /// Adds a condition on the next parameter.
    pub fn on(&mut self, before: &str, after: &str, v: SqlValue)
        requires
            old(self)@.params.len() < usize::MAX,
        ensures
            final(self)@ == filter_on(old(self)@, before@, after@, v@),
    {
        let ghost f = self@;
        let mut c: String = before.to_owned();
        c.append(slot_text(self.params.len() as u64 + 1).as_str());
        c.append(after);
        self.clauses.push(c);
        self.params.push(v);
        assert(self@ =~= filter_on(f, before@, after@, v@));
    }

    /// Adds a condition on a text, where one is asked for.
    pub fn text(&mut self, before: &str, t: Option<&str>)
        requires
            old(self)@.params.len() < usize::MAX,
        ensures
            final(self)@ == filter_text(old(self)@, before@, opt_str(t)),
    {
        if let Some(s) = t {
            self.on(before, "", SqlValue::Text(s.to_owned()));
        }
    }

    /// Adds a condition on an integer, where one is asked for.
    pub fn integer(&mut self, before: &str, i: Option<i64>)
        requires
            old(self)@.params.len() < usize::MAX,
        ensures
            final(self)@ == filter_int(old(self)@, before@, i),
    {
        if let Some(n) = i {
            self.on(before, "", SqlValue::Int(n));
        }
    }
}

/// The size of a page: 20 unless a positive one is asked for.
pub open spec fn size_or_default(page_size: i64) -> i64 {
    if page_size > 0 {
        page_size
    } else {
        20
    }
}

/// The number of a page: 1 unless a positive one is asked for.
pub open spec fn page_or_default(page: i64) -> i64 {
    if page > 0 {
        page
    } else {
        1
    }
}

/// How many rows stand before a page.
pub open spec fn page_offset(page: i64, page_size: i64) -> int {
    (page_or_default(page) - 1) * size_or_default(page_size)
}

/// A page of rows: how many there are in all, and those of the page.
#[derive(Debug)]
pub struct PageQuery {
    pub count: Statement,
    pub list: Statement,
}

/// What a page query stands for.
#[verifier::ext_equal]
pub struct PageQueryV {
    pub count: StatementV,
    pub list: StatementV,
}

impl PageQuery {
    pub open spec fn view(&self) -> PageQueryV {
        PageQueryV { count: self.count@, list: self.list@ }
    }
}

/// The texts of a page query: columns, tables and order.
pub struct PageText<'a> {
    pub count_from: &'a str,
    pub columns: &'a str,
    pub list_from: &'a str,
    pub order: &'a str,
}

/// A page of what a filter lets through.
pub open spec fn page_query(
    count_from: Seq<char>,
    columns: Seq<char>,
    list_from: Seq<char>,
    order: Seq<char>,
    f: FilterV,
    page: i64,
    page_size: i64,
) -> PageQueryV {
    let cond = join(f.clauses, " AND "@);
    PageQueryV {
        count: StatementV {
            sql: "SELECT COUNT(*) AS c FROM "@ + count_from + " WHERE "@ + cond,
            params: f.params,
        },
        list: StatementV {
            sql: "SELECT "@ + columns + " FROM "@ + list_from + " WHERE "@ + cond + " ORDER BY "@
                + order + " LIMIT "@ + slot(f.params.len() + 1) + " OFFSET "@ + slot(
                f.params.len() + 2,
            ),
            params: f.params + seq![
                SqlV::Int(size_or_default(page_size)),
                SqlV::Int(page_offset(page, page_size) as i64),
            ],
        },
    }
}

/// A page of what a filter lets through.
pub fn build_page(t: &PageText, filter: Filter, page: i64, page_size: i64) -> (r: PageQuery)
    requires
        filter@.params.len() + 2 <= usize::MAX,
        page_offset(page, page_size) <= i64::MAX,
    ensures
        r@ == page_query(
            t.count_from@,
            t.columns@,
            t.list_from@,
            t.order@,
            filter@,
            page,
            page_size,
        ),
{
    let ghost f = filter@;
    let size: i64 = if page_size > 0 {
        page_size
    } else {
        20
    };
    let number: i64 = if page > 0 {
        page
    } else {
        1
    };
    assert(0 <= (number - 1) * size) by (nonlinear_arith)
        requires
            number >= 1,
            size >= 1,
    ;
    let offset: i64 = (number - 1) * size;
    let cond = joined(&filter.clauses, " AND ");
    let mut count: String = "SELECT COUNT(*) AS c FROM ".to_owned();
    count.append(t.count_from);
    count.append(" WHERE ");
    count.append(cond.as_str());
    let n: u64 = filter.params.len() as u64;
    let mut list: String = "SELECT ".to_owned();
    list.append(t.columns);
    list.append(" FROM ");
    list.append(t.list_from);
    list.append(" WHERE ");
    list.append(cond.as_str());
    list.append(" ORDER BY ");
    list.append(t.order);
    list.append(" LIMIT ");
    list.append(slot_text(n + 1).as_str());
    list.append(" OFFSET ");
    list.append(slot_text(n + 2).as_str());
    let count_params = copy_params(&filter.params);
    let mut params = filter.params;
    params.push(SqlValue::Int(size));
    params.push(SqlValue::Int(offset));
    assert(params_view(params@) =~= f.params + seq![SqlV::Int(size), SqlV::Int(offset)]);
    PageQuery {
        count: Statement { sql: count, params: count_params },
        list: Statement { sql: list, params },
    }
}

/// How many rows there are in all, from the rows of a count; 0 where there are none.
pub open spec fn total_in(rows: Seq<JsonV>) -> i64 {
    if rows.len() > 0 {
        int_at(rows[0], "c"@)
    } else {
        0
    }
}

/// How many rows there are in all, from the rows of a count.
pub fn total_of(rows: &Vec<Json>) -> (r: i64)
    ensures
        r == total_in(values_view(rows@)),
{
    if rows.len() > 0 {
        int_member(&rows[0], "c")
    } else {
        0
    }
}

} // verus!
