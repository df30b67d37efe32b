//! What a list's statements read from a table, whatever the table holds.

use vstd::prelude::*;

use crate::list::{ActiveModel, ListModel, SortDir};
use crate::list_query::{
    count_select, filter_param, filter_terms, narrowed_rows, not_negative, planned, rows_select,
    search_pattern, search_terms, searched_fields, shown_row, NarrowingModel, PlanModel, ReadModel,
    RowModel,
};
use crate::sql::{has_term, is_like, law_a_search_finds_substrings, starts_at};
use crate::statements::{
    grouped, Backend, ConditionModel, ParamModel, SelectModel, TermModel, WhereModel,
};
use crate::strs::trimmed;
use crate::unicode::lowercase_of;

verus! {

/// A row of a table. Each map holds the columns that are not null.
pub struct StoredRow {
    /// What a column is compared as.
    pub values: Map<Seq<char>, ParamModel>,
    /// What a column's cast to text gives.
    pub texts: Map<Seq<char>, Seq<char>>,
    /// What the database's lower case of a column gives.
    pub lowered: Map<Seq<char>, Seq<char>>,
}

/// Whether a row meets a term. A null column equals nothing and is like nothing.
pub open spec fn meets_term(row: StoredRow, term: TermModel) -> bool
    decreases term,
{
    match term {
        TermModel::TextIs { column, cast, text } => row.texts.contains_key(column)
            && row.texts[column] == text,
        TermModel::FieldIs { column, value } => row.values.contains_key(column)
            && row.values[column] == value,
        TermModel::LowerLike { column, pattern } => row.lowered.contains_key(column) && is_like(
            row.lowered[column],
            pattern,
        ),
        TermModel::Present { column } => row.texts.contains_key(column),
        TermModel::Group(c) => meets(row, c),
    }
}

/// Whether a row meets a condition.
pub open spec fn meets(row: StoredRow, c: ConditionModel) -> bool
    decreases c,
{
    if c.any {
        exists|i: int| 0 <= i < c.terms.len() && meets_term(row, #[trigger] c.terms[i])
    } else {
        forall|i: int| 0 <= i < c.terms.len() ==> meets_term(row, #[trigger] c.terms[i])
    }
}

/// Whether a row is one that a statement is about.
pub open spec fn among(row: StoredRow, rows: WhereModel) -> bool {
    match rows {
        WhereModel::Every => true,
        WhereModel::Meeting(c) => meets(row, c),
    }
}

/// The rows of a table that a statement is about.
pub open spec fn met(table: Seq<StoredRow>, rows: WhereModel) -> Seq<StoredRow> {
    table.filter(|row: StoredRow| among(row, rows))
}

/// What a count of a column answers.
pub open spec fn counted(table: Seq<StoredRow>, rows: WhereModel, column: Seq<char>) -> nat {
    met(table, rows).filter(|row: StoredRow| row.texts.contains_key(column)).len()
}

/// The number of rows that a plan's count answers.
pub open spec fn total_read(table: Seq<StoredRow>, p: PlanModel) -> nat {
    counted(table, count_select(p).rows, count_select(p).chosen[0]->Count_0)
}

/// A stretch of some rows.
pub open spec fn stretch(rows: Seq<StoredRow>, offset: int, limit: int) -> Seq<StoredRow> {
    let rest = if offset < rows.len() {
        rows.skip(offset)
    } else {
        Seq::empty()
    };
    if limit < rest.len() {
        rest.take(limit)
    } else {
        rest
    }
}

/// Whether a select can read these rows: the rows it is about stand in some order, and
/// these are a stretch of it. Which of two rows that are ordered alike comes first is
/// the database's to choose.
pub open spec fn can_read(
    table: Seq<StoredRow>,
    s: SelectModel,
    read: Seq<StoredRow>,
) -> bool {
    exists|ordered: Seq<StoredRow>|
        {
            &&& #[trigger] ordered.to_multiset() == met(table, s.rows).to_multiset()
            &&& read == stretch(ordered, s.offset->0, s.limit->0)
        }
}

/// A column's text, where it is not null.
pub open spec fn text_in(row: StoredRow, column: Seq<char>) -> Option<Seq<char>> {
    if row.texts.contains_key(column) {
        Some(row.texts[column])
    } else {
        None
    }
}

/// A row as a plan's select hands it over.
pub open spec fn handed_over(p: PlanModel, row: StoredRow) -> ReadModel {
    ReadModel {
        id: text_in(row, p.id_field),
        cells: p.columns.map_values(|c: Seq<char>| text_in(row, c)),
    }
}

/// The rows of a page as they are shown.
pub open spec fn page_rows(p: PlanModel, read: Seq<StoredRow>) -> Seq<RowModel> {
    read.map_values(|row: StoredRow| shown_row(handed_over(p, row)))
}

/// Whether a search finds a row: the term, in lower case, stands in one of the searched
/// columns, character by character. No search finds every row.
pub open spec fn found(row: StoredRow, searched: Seq<Seq<char>>, term: Seq<char>) -> bool {
    searched.len() == 0 || exists|i: int|
        0 <= i < searched.len() && row.lowered.contains_key(#[trigger] searched[i]) && has_term(
            row.lowered[searched[i]],
            lowercase_of(trimmed(term)),
        )
}

/// Whether every filter lets a row through.
pub open spec fn let_through(row: StoredRow, filters: Seq<ActiveModel>) -> bool {
    forall|i: int|
        0 <= i < filters.len() ==> row.values.contains_key((#[trigger] filters[i]).field)
            && row.values[filters[i].field] == filter_param(filters[i].value)
}

/// Whether a list's request is about a row: the search finds it and the filters let it
/// through.
pub open spec fn matching(
    row: StoredRow,
    config: ListModel,
    q: Seq<char>,
    filters: Seq<ActiveModel>,
) -> bool {
    found(row, searched_fields(config.columns, q), q) && let_through(row, filters)
}

/// A condition is met as a term where it is met.
proof fn lemma_grouped(row: StoredRow, c: ConditionModel)
    ensures
        meets_term(row, grouped(c)) == meets(row, c),
{
    reveal_with_fuel(meets, 2);
    reveal_with_fuel(meets_term, 2);
    if c.terms.len() == 1 {
        assert(meets_term(row, c.terms[0]) == meets(row, c)) by {
            if c.any && meets(row, c) {
                let i = choose|i: int|
                    0 <= i < c.terms.len() && meets_term(row, #[trigger] c.terms[i]);
                assert(i == 0);
            }
        }
    }
}

/// The search's terms are met where the search finds the row.
proof fn lemma_search(row: StoredRow, n: NarrowingModel)
    requires
        n.search.len() > 0,
    ensures
        meets(row, search_terms(n)) == found(row, n.search, n.term),
{
    reveal_with_fuel(meets, 2);
    reveal_with_fuel(meets_term, 2);
    let c = search_terms(n);
    let term = lowercase_of(trimmed(n.term));
    assert forall|i: int| 0 <= i < n.search.len() implies meets_term(row, #[trigger] c.terms[i])
        == (row.lowered.contains_key(n.search[i]) && has_term(row.lowered[n.search[i]], term)) by {
        assert(c.terms[i] == TermModel::LowerLike {
            column: n.search[i],
            pattern: search_pattern(n.term),
        });
        law_a_search_finds_substrings(row.lowered[n.search[i]], term);
    }
    if meets(row, c) {
        let i = choose|i: int| 0 <= i < c.terms.len() && meets_term(row, #[trigger] c.terms[i]);
        assert(row.lowered.contains_key(n.search[i]));
    }
    if found(row, n.search, n.term) {
        let i = choose|i: int|
            0 <= i < n.search.len() && row.lowered.contains_key(#[trigger] n.search[i])
                && has_term(row.lowered[n.search[i]], term);
        assert(meets_term(row, c.terms[i]));
    }
}

/// The filters' terms are met where the filters let the row through.
proof fn lemma_filters(row: StoredRow, n: NarrowingModel)
    ensures
        meets(row, filter_terms(n)) == let_through(row, n.filters),
{
    reveal_with_fuel(meets, 2);
    reveal_with_fuel(meets_term, 2);
    let c = filter_terms(n);
    assert forall|i: int| 0 <= i < n.filters.len() implies meets_term(row, #[trigger] c.terms[i])
        == (row.values.contains_key(n.filters[i].field) && row.values[n.filters[i].field]
        == filter_param(n.filters[i].value)) by {
        assert(c.terms[i] == TermModel::FieldIs {
            column: n.filters[i].field,
            value: filter_param(n.filters[i].value),
        });
    }
    if meets(row, c) {
        assert forall|i: int| 0 <= i < n.filters.len() implies row.values.contains_key(
            (#[trigger] n.filters[i]).field,
        ) && row.values[n.filters[i].field] == filter_param(n.filters[i].value) by {
            assert(meets_term(row, c.terms[i]));
        }
    }
    if let_through(row, n.filters) {
        assert forall|i: int| 0 <= i < c.terms.len() implies meets_term(
            row,
            #[trigger] c.terms[i],
        ) by {
            assert(row.values.contains_key(n.filters[i].field));
        }
    }
}

/// A list is narrowed to the rows that its request is about: the search finds them, and
/// every filter lets them through.
pub proof fn law_a_list_is_narrowed_to_what_matches(row: StoredRow, n: NarrowingModel)
    ensures
        among(row, narrowed_rows(n)) == (found(row, n.search, n.term) && let_through(
            row,
            n.filters,
        )),
{
    reveal_with_fuel(meets, 2);
    reveal_with_fuel(meets_term, 2);
    lemma_filters(row, n);
    lemma_grouped(row, filter_terms(n));
    lemma_grouped(row, search_terms(n));
    if n.search.len() > 0 {
        lemma_search(row, n);
    }
    if n.search.len() > 0 && n.filters.len() > 0 {
        let c = narrowed_rows(n)->Meeting_0;
        assert(c.terms[0] == grouped(search_terms(n)));
        assert(c.terms[1] == grouped(filter_terms(n)));
        if meets(row, c) {
            assert(meets_term(row, c.terms[0]));
            assert(meets_term(row, c.terms[1]));
        }
        if found(row, n.search, n.term) && let_through(row, n.filters) {
            assert forall|i: int| 0 <= i < c.terms.len() implies meets_term(
                row,
                #[trigger] c.terms[i],
            ) by {
                assert(i == 0 || i == 1);
            }
        }
    }
}

/// Filtering by tests that agree gives the same rows.
proof fn lemma_filters_agree(
    table: Seq<StoredRow>,
    f: spec_fn(StoredRow) -> bool,
    g: spec_fn(StoredRow) -> bool,
)
    requires
        forall|i: int| 0 <= i < table.len() ==> f(#[trigger] table[i]) == g(table[i]),
    ensures
        table.filter(f) == table.filter(g),
    decreases table.len(),
{
    reveal(Seq::filter);
    if table.len() > 0 {
        let front = table.drop_last();
        assert forall|i: int| 0 <= i < front.len() implies f(#[trigger] front[i]) == g(
            front[i],
        ) by {
            assert(front[i] == table[i]);
        }
        lemma_filters_agree(front, f, g);
        assert(f(table[table.len() - 1]) == g(table[table.len() - 1]));
    }
}

/// A test that every row passes keeps every row.
proof fn lemma_filter_keeps(table: Seq<StoredRow>, f: spec_fn(StoredRow) -> bool)
    requires
        forall|i: int| 0 <= i < table.len() ==> f(#[trigger] table[i]),
    ensures
        table.filter(f) == table,
    decreases table.len(),
{
    reveal(Seq::filter);
    if table.len() > 0 {
        let front = table.drop_last();
        assert forall|i: int| 0 <= i < front.len() implies f(#[trigger] front[i]) by {
            assert(front[i] == table[i]);
        }
        lemma_filter_keeps(front, f);
        assert(f(table[table.len() - 1]));
        assert(front.push(table.last()) =~= table);
    }
}

/// The rows a list's statements are about are those that match its request.
proof fn lemma_met_matches(
    table: Seq<StoredRow>,
    config: ListModel,
    q: Seq<char>,
    filters: Seq<ActiveModel>,
)
    ensures
        met(
            table,
            narrowed_rows(
                NarrowingModel { search: searched_fields(config.columns, q), term: q, filters },
            ),
        ) == table.filter(|row: StoredRow| matching(row, config, q, filters)),
{
    let n = NarrowingModel { search: searched_fields(config.columns, q), term: q, filters };
    let f = |row: StoredRow| among(row, narrowed_rows(n));
    let g = |row: StoredRow| matching(row, config, q, filters);
    assert forall|i: int| 0 <= i < table.len() implies f(#[trigger] table[i]) == g(table[i]) by {
        law_a_list_is_narrowed_to_what_matches(table[i], n);
    }
    lemma_filters_agree(table, f, g);
}

/// The total is the number of rows in the table that match the search and the filters,
/// whichever page is asked for and however long pages are. Every row has an id.
pub proof fn law_pages_share_their_total(
    table: Seq<StoredRow>,
    config: ListModel,
    offset: int,
    order_by: Seq<char>,
    order_dir: SortDir,
    q: Seq<char>,
    filters: Seq<ActiveModel>,
    per_page: Option<i64>,
)
    requires
        forall|i: int|
            0 <= i < table.len() ==> (#[trigger] table[i]).texts.contains_key(config.id_field),
    ensures
        total_read(table, planned(config, offset, order_by, order_dir, q, filters, per_page))
            == table.filter(|row: StoredRow| matching(row, config, q, filters)).len(),
{
    let p = planned(config, offset, order_by, order_dir, q, filters, per_page);
    lemma_met_matches(table, config, q, filters);
    let rows = met(table, narrowed_rows(p.narrowing));
    assert forall|i: int| 0 <= i < rows.len() implies (#[trigger] rows[i]).texts.contains_key(
        config.id_field,
    ) by {
        let f = |row: StoredRow| among(row, narrowed_rows(p.narrowing));
        table.filter_lemma(f);
        assert(table.contains(rows[i])) by {
            table.lemma_filter_contains_rev(f, rows[i]);
        }
    }
    lemma_filter_keeps(rows, |row: StoredRow| row.texts.contains_key(config.id_field));
}

/// A blank search matches every row that the filters let through, and with no filter
/// either, every row there is.
pub proof fn law_a_blank_search_matches_every_row(
    row: StoredRow,
    config: ListModel,
    q: Seq<char>,
    filters: Seq<ActiveModel>,
)
    requires
        trimmed(q).len() == 0,
    ensures
        matching(row, config, q, filters) == let_through(row, filters),
        filters.len() == 0 ==> matching(row, config, q, filters),
{
}

/// A wildcard in a search stands for itself: what the term holds, a searched column of
/// every row found holds.
pub proof fn law_a_wildcard_stands_for_itself(
    row: StoredRow,
    searched: Seq<Seq<char>>,
    term: Seq<char>,
    wildcard: char,
)
    requires
        searched.len() > 0,
        found(row, searched, term),
        lowercase_of(trimmed(term)).contains(wildcard),
    ensures
        exists|i: int|
            0 <= i < searched.len() && row.lowered.contains_key(#[trigger] searched[i])
                && row.lowered[searched[i]].contains(wildcard),
{
    let sought = lowercase_of(trimmed(term));
    let i = choose|i: int|
        0 <= i < searched.len() && row.lowered.contains_key(#[trigger] searched[i]) && has_term(
            row.lowered[searched[i]],
            sought,
        );
    let text = row.lowered[searched[i]];
    let at = choose|at: int| 0 <= at && #[trigger] starts_at(text, sought, at);
    let k = choose|k: int| 0 <= k < sought.len() && sought[k] == wildcard;
    assert(text.subrange(at, at + sought.len())[k] == text[at + k]);
}

/// A page holds no more rows than a page may and no more than there are: just those of
/// its stretch of the whole. Each of its rows matches the request, and has one cell for
/// each column. Every row has an id.
pub proof fn law_a_page_is_part_of_the_whole(
    table: Seq<StoredRow>,
    config: ListModel,
    offset: int,
    order_by: Seq<char>,
    order_dir: SortDir,
    q: Seq<char>,
    filters: Seq<ActiveModel>,
    per_page: Option<i64>,
    backend: Backend,
    read: Seq<StoredRow>,
)
    requires
        forall|i: int|
            0 <= i < table.len() ==> (#[trigger] table[i]).texts.contains_key(config.id_field),
        can_read(
            table,
            rows_select(
                planned(config, offset, order_by, order_dir, q, filters, per_page),
                backend,
            ),
            read,
        ),
    ensures
        ({
            let p = planned(config, offset, order_by, order_dir, q, filters, per_page);
            let total = total_read(table, p);
            let asked = not_negative(
                match per_page {
                    Some(n) => n as int,
                    None => config.per_page,
                },
            );
            let left = not_negative(total - not_negative(offset));
            let rows = page_rows(p, read);
            &&& rows.len() <= asked
            &&& rows.len() <= total
            &&& rows.len() == if asked < left {
                asked
            } else {
                left
            }
            &&& forall|i: int|
                0 <= i < rows.len() ==> (#[trigger] rows[i]).cells.len() == config.columns.len()
            &&& forall|i: int|
                0 <= i < read.len() ==> table.contains(#[trigger] read[i]) && matching(
                    read[i],
                    config,
                    q,
                    filters,
                )
        }),
{
    let p = planned(config, offset, order_by, order_dir, q, filters, per_page);
    let s = rows_select(p, backend);
    law_pages_share_their_total(
        table,
        config,
        offset,
        order_by,
        order_dir,
        q,
        filters,
        per_page,
    );
    lemma_met_matches(table, config, q, filters);
    let f = |row: StoredRow| matching(row, config, q, filters);
    let whole = table.filter(f);
    let ordered = choose|ordered: Seq<StoredRow>|
        {
            &&& #[trigger] ordered.to_multiset() == met(table, s.rows).to_multiset()
            &&& read == stretch(ordered, s.offset->0, s.limit->0)
        };
    ordered.to_multiset_ensures();
    whole.to_multiset_ensures();
    assert(ordered.len() == whole.len());
    assert forall|i: int| 0 <= i < read.len() implies table.contains(#[trigger] read[i])
        && matching(read[i], config, q, filters) by {
        assert(ordered.contains(read[i])) by {
            assert(read[i] == ordered[i + p.offset]);
        }
        assert(ordered.to_multiset().count(read[i]) > 0);
        assert(whole.contains(read[i]));
        table.lemma_filter_contains_rev(f, read[i]);
        table.filter_lemma(f);
    }
}

} // verus!
