//! What a list screen promises.

use vstd::prelude::*;

use crate::access::{meets, PermissionSetModel};
use crate::attr::AttrModel;
use crate::cells::{cell_model, cell_plan, column_key, row_plan, slug_of, yes_no, BuiltinColumn};
use crate::cells::CellPlan;
use crate::laws::rows::compares_as;
use crate::laws::saving::reads_back;
use crate::laws::values::lemma_kept;
use crate::list::{
    accepted, active_filter, active_filters, chosen_names, declares, filter_param, kept_columns, offers,
    searches, shown_columns, sort_dir, sort_field, ActiveModel, ButtonModel, ColumnModel,
    FilterModel, KindModel, ListModel, OptionModel, SortDir, ValueModel,
};
use crate::list_query::{count_select, rows_select, searched_fields, ID_ALIAS};
use crate::list_screen::{chosen_columns, columns_action, sort_link, ColumnsModel};
use crate::list_view::{
    carry_of, choice_of, dir_word, encoded, encoded_byte, filters_carry, head_of, page_of, selected_value,
    shown_button, shown_filter, shown_options, term_of, toolbar_models, unreserved, upper_hex,
    urlencoded, value_named, values_named, ToolbarModel,
};
use crate::list_work::view_plan;
use crate::persist::bound;
use crate::sql::{ident_char, is_ident};
use crate::statements::{cast_of, Backend, ChosenModel};
use crate::strs::{is_ascii_word, lookup, only, split_on, trimmed};
use crate::text::localized;
use crate::zones::instant_text;

verus! {

// -------------------------------------------------------------------- ordering
/// Whatever column a list is ordered by, a submitted direction is followed. Where none
/// is submitted, the descriptor's own direction applies, and only to its own column;
/// any other column ascends.
pub proof fn law_a_submitted_direction_is_followed(
    config: ListModel,
    by: Seq<char>,
    dir: SortDir,
    other: Option<Seq<char>>,
)
    ensures
        sort_dir(config, by, Some(dir_word(dir))) == dir,
        other != Some(dir_word(SortDir::Asc)) && other != Some(dir_word(SortDir::Desc)) ==> {
            &&& sort_dir(config, config.order_by, other) == config.order_dir
            &&& by != config.order_by ==> sort_dir(config, by, other) == SortDir::Asc
        },
        dir_word(SortDir::Asc) == "asc"@,
        dir_word(SortDir::Desc) == "desc"@,
{
    reveal_strlit("asc");
    reveal_strlit("desc");
    assert("asc"@.len() != "desc"@.len());
}

/// A click on the header of the column a list is ordered by turns the order round, and
/// one on any other column orders by that column, ascending.
pub proof fn law_a_click_turns_the_order_round(
    config: ListModel,
    c: ColumnModel,
    order_by: Seq<char>,
    order_dir: SortDir,
    table: Seq<(Seq<char>, Seq<char>)>,
)
    requires
        config.columns.contains(c),
    ensures
        ({
            let head = head_of(c, order_by, order_dir, table);
            let next = sort_dir(config, head.field, Some(head.next_dir));
            &&& sort_field(config, Some(head.field)) == c.field
            &&& c.field == order_by ==> next != order_dir && head.active.len() > 0 && sort_dir(
                config,
                order_by,
                Some(head.active),
            ) == order_dir
            &&& c.field != order_by ==> next == SortDir::Asc && head.active.len() == 0
            &&& head.label == localized(table, c.label)
        }),
{
    reveal_strlit("asc");
    reveal_strlit("desc");
    assert("asc"@.len() != "desc"@.len());
    let i = choose|i: int| 0 <= i < config.columns.len() && config.columns[i] == c;
    assert(config.columns[i].field == c.field);
    assert(declares(config.columns, c.field));
}

/// A list is ordered by the column asked for where the descriptor declares it, and by
/// the descriptor's own otherwise.
pub proof fn law_the_column_asked_for_orders(config: ListModel, sort: Seq<char>)
    ensures
        declares(config.columns, sort) ==> sort_field(config, Some(sort)) == sort,
        !declares(config.columns, sort) ==> sort_field(config, Some(sort)) == config.order_by,
        sort_field(config, None) == config.order_by,
        declares(config.columns, sort) <==> exists|c: ColumnModel| #[trigger]
            config.columns.contains(c) && c.field == sort,
{
    if declares(config.columns, sort) {
        let i = choose|i: int| 0 <= i < config.columns.len() && config.columns[i].field == sort;
        assert(config.columns.contains(config.columns[i]));
    }
    if exists|c: ColumnModel| #[trigger] config.columns.contains(c) && c.field == sort {
        let c = choose|c: ColumnModel| #[trigger] config.columns.contains(c) && c.field == sort;
        let i = choose|i: int| 0 <= i < config.columns.len() && config.columns[i] == c;
        assert(config.columns[i].field == sort);
    }
}

/// The page a request reads is what it asked for: its table, its columns in order with
/// the id behind them, its ordering, and as many rows behind the earlier pages as a page
/// holds.
pub proof fn law_a_page_reads_what_was_asked(
    config: ListModel,
    sort: Option<Seq<char>>,
    dir: Option<Seq<char>>,
    q: Option<Seq<char>>,
    raw: Seq<(Seq<char>, Seq<char>)>,
    page: Option<i64>,
    backend: Backend,
    i: int,
)
    requires
        0 <= i < config.columns.len(),
        config.per_page > 0,
    ensures
        ({
            let offset = (page_of(page) - 1) * config.per_page;
            let p = view_plan(config, sort, dir, q, raw, offset, None);
            let s = rows_select(p, backend);
            &&& s.tables == seq![config.entity]
            &&& s.chosen.len() == config.columns.len() + 1
            &&& s.chosen[i] == ChosenModel::AsText {
                column: config.columns[i].field,
                cast: cast_of(backend),
                alias: config.columns[i].field,
            }
            &&& s.chosen.last() == ChosenModel::AsText {
                column: config.id_field,
                cast: cast_of(backend),
                alias: ID_ALIAS@,
            }
            &&& s.orders == seq![(sort_field(config, sort), sort_dir(
                config,
                sort_field(config, sort),
                dir,
            ))]
            &&& s.limit == Some(config.per_page)
            &&& s.offset == Some(offset)
            &&& count_select(p).chosen == seq![ChosenModel::Count(config.id_field)]
            &&& count_select(p).tables == s.tables
            &&& p.narrowing.term == term_of(q)
            &&& p.narrowing.filters == active_filters(config.filters, raw)
        }),
{
    let offset = (page_of(page) - 1) * config.per_page;
    assert(offset >= 0) by (nonlinear_arith)
        requires
            offset == (page_of(page) - 1) * config.per_page,
            page_of(page) >= 1,
            config.per_page > 0,
    ;
}

/// The first page is page one; a page that is asked for is the one that is shown, and
/// none lies before the first.
pub proof fn law_the_page_asked_for_is_shown(n: i64)
    ensures
        page_of(None) == 1,
        n >= 1 ==> page_of(Some(n)) == n,
        n < 1 ==> page_of(Some(n)) == page_of(None),
{
}

// -------------------------------------------------------------------- searching
/// A search looks in the columns that the descriptor says so of, and in the text columns
/// of which it says nothing; without a term it looks nowhere.
pub proof fn law_a_search_looks_in_the_searchable_columns(
    columns: Seq<ColumnModel>,
    term: Seq<char>,
    field: Seq<char>,
)
    ensures
        trimmed(term).len() == 0 ==> searched_fields(columns, term).len() == 0,
        trimmed(term).len() > 0 ==> (searched_fields(columns, term).contains(field) <==> exists|
            c: ColumnModel,
        | #[trigger]
            columns.contains(c) && c.field == field && (c.searchable == Some(true) || (
            c.searchable is None && c.column_type == "text"@))),
{
    if trimmed(term).len() > 0 {
        let f = |c: ColumnModel|
            if searches(c) {
                Some(c.field)
            } else {
                None::<Seq<char>>
            };
        lemma_kept(columns, f, field);
        if searched_fields(columns, term).contains(field) {
            let c = choose|c: ColumnModel| #[trigger] columns.contains(c) && f(c) == Some(field);
            assert(columns.contains(c));
        }
        if exists|c: ColumnModel| #[trigger]
            columns.contains(c) && c.field == field && (c.searchable == Some(true) || (
            c.searchable is None && c.column_type == "text"@)) {
            let c = choose|c: ColumnModel| #[trigger]
                columns.contains(c) && c.field == field && (c.searchable == Some(true) || (
                c.searchable is None && c.column_type == "text"@));
            assert(f(c) == Some(field));
        }
    }
}

// -------------------------------------------------------------------- filtering
/// A yes/no filter takes one for yes and nought for no, a choice just what it offers as
/// it was offered; anything else, blank included, is no filter.
pub proof fn law_a_filter_takes_what_it_offers(kind: KindModel, raw: Seq<char>)
    ensures
        kind is Boolean ==> {
            &&& accepted(kind, "1"@) == Some(ValueModel::Bool(true))
            &&& accepted(kind, "0"@) == Some(ValueModel::Bool(false))
            &&& raw != "1"@ && raw != "0"@ ==> accepted(kind, raw) is None
        },
        kind matches KindModel::Select { options } ==> {
            &&& (accepted(kind, raw) is Some <==> raw.len() > 0 && exists|o: OptionModel|
                #[trigger] options.contains(o) && o.value == raw)
            &&& accepted(kind, raw) is Some ==> accepted(kind, raw) == Some(ValueModel::Text(raw))
        },
{
    reveal_strlit("1");
    reveal_strlit("0");
    assert("1"@[0] != "0"@[0]);
    match kind {
        KindModel::Select { options } => {
            if offers(options, raw) {
                let i = choose|i: int| 0 <= i < options.len() && options[i].value == raw;
                assert(options.contains(options[i]));
            }
            if exists|o: OptionModel| #[trigger] options.contains(o) && o.value == raw {
                let o = choose|o: OptionModel| #[trigger] options.contains(o) && o.value == raw;
                let i = choose|i: int| 0 <= i < options.len() && options[i] == o;
                assert(options[i].value == raw);
            }
        },
        _ => {},
    }
}

/// A filter applies where the request gives it a value it takes, and then with that
/// value; every declared filter has a parameter of its own, whatever its field is called.
pub proof fn law_a_filter_applies_where_it_was_set(
    filters: Seq<FilterModel>,
    f: FilterModel,
    params: Seq<(Seq<char>, Seq<char>)>,
    value: Seq<char>,
    other: Seq<char>,
)
    requires
        filters.contains(f),
    ensures
        ({
            let set = params.push((filter_param(f.field), value));
            let active = active_filters(filters, set);
            accepted(f.kind, trimmed(value)) matches Some(v) ==> active.contains(
                ActiveModel { field: f.field, raw: trimmed(value), value: v },
            )
        }),
        lookup(params, filter_param(f.field)) is None ==> active_filter(f, params) is None,
        filter_param(f.field) == filter_param(other) ==> f.field == other,
        filter_param(f.field) != "q"@ && filter_param(f.field) != "sort"@ && filter_param(f.field)
            != "dir"@ && filter_param(f.field) != "page"@,
{
    let set = params.push((filter_param(f.field), value));
    let g = |x: FilterModel| active_filter(x, set);
    assert(set.last() == (filter_param(f.field), value));
    if accepted(f.kind, trimmed(value)) is Some {
        let want = ActiveModel {
            field: f.field,
            raw: trimmed(value),
            value: accepted(f.kind, trimmed(value))->0,
        };
        lemma_kept(filters, g, want);
        assert(g(f) == Some(want));
    }
    reveal_strlit("f_");
    reveal_strlit("q");
    reveal_strlit("sort");
    reveal_strlit("dir");
    reveal_strlit("page");
    let a = filter_param(f.field);
    assert(a[0] == 'f' && a[1] == '_');
    if a == filter_param(other) {
        assert(a.skip(2) =~= f.field);
        assert(filter_param(other).skip(2) =~= other);
    }
    assert("q"@.len() == 1);
    assert("sort"@[0] == 's' && "dir"@[0] == 'd' && "page"@[0] == 'p');
}

/// A filter's control shows the value that applies, and offers what the filter takes:
/// each of its options is taken as it stands.
pub proof fn law_a_control_shows_what_applies(
    f: FilterModel,
    active: Seq<ActiveModel>,
    table: Seq<(Seq<char>, Seq<char>)>,
    i: int,
)
    ensures
        ({
            let shown = shown_filter(f, active, table);
            &&& shown.param == filter_param(f.field)
            &&& shown.label == localized(table, f.label)
            &&& (shown.boolean <==> f.kind is Boolean)
            &&& (forall|k: int| 0 <= k < active.len() ==> (#[trigger] active[k]).field != f.field)
                ==> shown.value.len() == 0
            &&& 0 <= i < active.len() && active[i].field == f.field && (forall|k: int|
                0 <= k < i ==> (#[trigger] active[k]).field != f.field) ==> shown.value
                == active[i].raw
            &&& 0 <= i < shown.options.len() && shown.options[i].value.len() > 0 ==> accepted(
                f.kind,
                shown.options[i].value,
            ) is Some
            &&& f.kind matches KindModel::Select { options } ==> shown.options.len()
                == options.len() && (0 <= i < options.len() ==> shown.options[i].label
                == localized(table, options[i].label) && shown.options[i].value
                == options[i].value)
        }),
{
    lemma_selected(f.field, active, i);
    reveal_strlit("1");
    reveal_strlit("0");
    match f.kind {
        KindModel::Select { options } => {
            if 0 <= i < options.len() {
                assert(offers(options, options[i].value));
            }
        },
        KindModel::Boolean => {
            assert(shown_options(f.kind, table).len() == 2);
        },
    }
}

/// The value shown is that of the first filter of the field.
proof fn lemma_selected(field: Seq<char>, active: Seq<ActiveModel>, i: int)
    ensures
        (forall|k: int| 0 <= k < active.len() ==> (#[trigger] active[k]).field != field)
            ==> selected_value(active, field).len() == 0,
        0 <= i < active.len() && active[i].field == field && (forall|k: int|
            0 <= k < i ==> (#[trigger] active[k]).field != field) ==> selected_value(active, field)
            == active[i].raw,
    decreases active.len(),
{
    if active.len() > 0 && active[0].field != field {
        let rest = active.drop_first();
        lemma_selected(field, rest, i - 1);
        assert(forall|k: int| 0 <= k < rest.len() ==> #[trigger] rest[k] == active[k + 1]);
    }
}

// ---------------------------------------------------------------------- columns
/// The columns shown are the descriptor's, in its order; with no choice stored, all of
/// them.
pub proof fn law_no_choice_shows_every_column(columns: Seq<ColumnModel>, c: ColumnModel)
    ensures
        shown_columns(columns, None) == columns,
        forall|names: Seq<Seq<char>>|
            #![trigger kept_columns(columns, names)]
            kept_columns(columns, names).contains(c) <==> columns.contains(c) && names.contains(
                c.field,
            ),
{
    assert forall|names: Seq<Seq<char>>|
        #![trigger kept_columns(columns, names)]
        kept_columns(columns, names).contains(c) <==> columns.contains(c) && names.contains(
            c.field,
        ) by {
        let h = |x: ColumnModel|
            if names.contains(x.field) {
                Some(x)
            } else {
                None::<ColumnModel>
            };
        lemma_kept(columns, h, c);
        if columns.contains(c) && names.contains(c.field) {
            assert(h(c) == Some(c));
        }
        if kept_columns(columns, names).contains(c) {
            let x = choose|x: ColumnModel| #[trigger] columns.contains(x) && h(x) == Some(c);
            assert(x == c);
        }
    }
}

/// The picker ticks just the columns that are shown.
pub proof fn law_the_picker_ticks_what_is_shown(
    c: ColumnModel,
    shown: Seq<ColumnModel>,
    table: Seq<(Seq<char>, Seq<char>)>,
)
    ensures
        choice_of(c, shown, table).field == c.field,
        choice_of(c, shown, table).label == localized(table, c.label),
        choice_of(c, shown, table).shown <==> exists|i: int|
            0 <= i < shown.len() && (#[trigger] shown[i]).field == c.field,
{
    if declares(shown, c.field) {
        let i = choose|i: int| 0 <= i < shown.len() && shown[i].field == c.field;
        assert(shown[i].field == c.field);
    }
}

/// A choice of columns is kept under the list's own name. Choosing some of the columns
/// and not all of them stores a choice; choosing all or none forgets it.
pub proof fn law_some_of_the_columns_is_a_choice(
    columns: Seq<ColumnModel>,
    path: Seq<char>,
    pairs: Seq<(Seq<char>, Seq<char>)>,
    c: ColumnModel,
)
    requires
        columns.contains(c),
    ensures
        ({
            let chosen = chosen_columns(columns, pairs);
            let action = columns_action(columns, path, pairs);
            &&& chosen.len() > 0 && !chosen.contains(c.field) ==> action is Store
            &&& (forall|d: ColumnModel| #[trigger]
                columns.contains(d) ==> chosen.contains(d.field)) ==> action is Clear
            &&& chosen.len() == 0 ==> action is Clear
            &&& match action {
                ColumnsModel::Clear { key } => key == "list.columns."@ + path,
                ColumnsModel::Store { key, value } => key == "list.columns."@ + path,
            }
            &&& forall|name: Seq<char>| #[trigger]
                chosen.contains(name) ==> exists|p: (Seq<char>, Seq<char>)| #[trigger]
                    pairs.contains(p) && p.0 == "column"@ && trimmed(p.1) == name
        }),
{
    let chosen = chosen_columns(columns, pairs);
    let i = choose|i: int| 0 <= i < columns.len() && columns[i] == c;
    assert(columns[i].field == c.field);
    if forall|d: ColumnModel| #[trigger] columns.contains(d) ==> chosen.contains(d.field) {
        assert forall|k: int| 0 <= k < columns.len() implies chosen.contains(
            #[trigger] columns[k].field,
        ) by {
            assert(columns.contains(columns[k]));
        }
    }
    let f = |p: (Seq<char>, Seq<char>)|
        if p.0 == "column"@ && declares(columns, trimmed(p.1)) {
            Some(trimmed(p.1))
        } else {
            None::<Seq<char>>
        };
    assert forall|name: Seq<char>| #[trigger] chosen.contains(name) implies exists|
        p: (Seq<char>, Seq<char>),
    | #[trigger] pairs.contains(p) && p.0 == "column"@ && trimmed(p.1) == name by {
        lemma_kept(pairs, f, name);
        let p = choose|p: (Seq<char>, Seq<char>)| #[trigger]
            pairs.contains(p) && f(p) == Some(name);
        assert(pairs.contains(p));
    }
}

// ------------------------------------------------------------------------ links
/// What an encoded byte was.
pub open spec fn hex_value(c: char) -> int {
    if '0' <= c <= '9' {
        c as int - 48
    } else {
        c as int - 55
    }
}

/// The bytes that an encoded value stands for.
pub open spec fn decoded(s: Seq<char>) -> Seq<u8>
    decreases s.len(),
{
    if s.len() == 0 {
        Seq::empty()
    } else if s[0] == '+' {
        seq![32u8] + decoded(s.skip(1))
    } else if s[0] == '%' && s.len() >= 3 {
        seq![(hex_value(s[1]) * 16 + hex_value(s[2])) as u8] + decoded(s.skip(3))
    } else {
        seq![s[0] as u8] + decoded(s.skip(1))
    }
}

/// Decoding in two pieces, the first of which is one encoded byte.
proof fn lemma_decoded_byte(b: u8, rest: Seq<char>)
    ensures
        decoded(encoded_byte(b) + rest) == seq![b] + decoded(rest),
{
    let s = encoded_byte(b) + rest;
    if unreserved(b) {
        assert(s[0] == b as char);
        assert(s.skip(1) =~= rest);
        assert(((b as char) as u8) == b);
        assert((b as char) as int == b);
        assert(s[0] != '+' && s[0] != '%');
    } else if b == 32 {
        assert(s.skip(1) =~= rest);
    } else {
        let h = b as int / 16;
        let l = b as int % 16;
        assert(s[0] == '%' && s[1] == upper_hex(h) && s[2] == upper_hex(l));
        assert(s.skip(3) =~= rest);
        lemma_hex(h);
        lemma_hex(l);
        assert(h * 16 + l == b);
    }
}

/// A hexadecimal digit stands for its value.
proof fn lemma_hex(n: int)
    requires
        0 <= n < 16,
    ensures
        hex_value(upper_hex(n)) == n,
{
    if n < 10 {
        assert(upper_hex(n) as int == n + 48);
    } else {
        assert(upper_hex(n) as int == n + 55);
    }
}

/// An encoded value reads back byte for byte.
pub proof fn law_an_encoded_value_reads_back(bytes: Seq<u8>)
    ensures
        decoded(encoded(bytes)) == bytes,
{
    lemma_decoded(bytes, Seq::empty());
    assert(encoded(bytes) + Seq::<char>::empty() =~= encoded(bytes));
    assert(bytes + Seq::<u8>::empty() =~= bytes);
}

/// What follows an encoded value is decoded after it.
proof fn lemma_decoded(bytes: Seq<u8>, rest: Seq<char>)
    ensures
        decoded(encoded(bytes) + rest) == bytes + decoded(rest),
    decreases bytes.len(),
{
    if bytes.len() == 0 {
        assert(encoded(bytes) + rest =~= rest);
        assert(bytes + decoded(rest) =~= decoded(rest));
    } else {
        let init = bytes.drop_last();
        let b = bytes.last();
        lemma_decoded_byte(b, rest);
        lemma_decoded(init, encoded_byte(b) + rest);
        assert(encoded(bytes) + rest =~= encoded(init) + (encoded_byte(b) + rest));
        assert(init + (seq![b] + decoded(rest)) =~= bytes + decoded(rest));
    }
}

/// Every link keeps the view: the search comes first where there is one, and each filter
/// adds its own parameter with the value as it was submitted.
pub proof fn law_every_link_keeps_the_view(
    q: Seq<char>,
    filters: Seq<ActiveModel>,
    f: ActiveModel,
    field: Seq<char>,
    dir: SortDir,
)
    ensures
        q.len() > 0 ==> carry_of(q, Seq::empty()) == "&q="@ + urlencoded(q),
        carry_of(Seq::empty(), Seq::empty()).len() == 0,
        carry_of(q, filters.push(f)) == carry_of(q, filters) + "&"@ + filter_param(f.field) + "="@
            + urlencoded(f.raw),
        sort_link(field, dir_word(dir), carry_of(q, filters)) == "?sort="@ + field + "&dir="@
            + dir_word(dir) + carry_of(q, filters),
{
    let none = Seq::<ActiveModel>::empty();
    assert(carry_of(q, none) =~= (if q.len() > 0 {
        "&q="@ + urlencoded(q)
    } else {
        Seq::empty()
    }));
    assert(filters.push(f).drop_last() =~= filters);
    assert(carry_of(q, filters.push(f)) =~= carry_of(q, filters) + "&"@ + filter_param(f.field)
        + "="@ + urlencoded(f.raw));
}

/// A parameter given once reads as it was given; the term searched for is the one asked
/// for, without the white space around it.
pub proof fn law_a_parameter_reads_as_given(
    pairs: Seq<(Seq<char>, Seq<char>)>,
    name: Seq<char>,
    value: Seq<char>,
    other: Seq<char>,
)
    ensures
        values_named(pairs.push((name, value)), name) == values_named(pairs, name).push(value),
        other != name ==> values_named(pairs.push((name, value)), other) == values_named(
            pairs,
            other,
        ),
        values_named(Seq::empty(), name).len() == 0,
        values_named(pairs, name).len() == 0 ==> value_named(pairs, name) is None && value_named(
            pairs.push((name, value)),
            name,
        ) == Some(value),
        term_of(Some(value)) == trimmed(value),
        term_of(None).len() == 0,
{
    let f = |key: Seq<char>|
        |p: (Seq<char>, Seq<char>)|
            if p.0 == key {
                Some(p.1)
            } else {
                None::<Seq<char>>
            };
    let more = pairs.push((name, value));
    assert(more.drop_last() =~= pairs);
    reveal(Seq::filter_map);
    assert(values_named(more, name) =~= values_named(pairs, name).push(value));
    assert(values_named(more, other) =~= values_named(pairs, other) || other == name);
}

// ---------------------------------------------------------------------- toolbar
/// The toolbar shows New first where the list creates records, and just the buttons the
/// operator may use.
pub proof fn law_the_toolbar_shows_what_may_be_done(
    config: ListModel,
    admin_path: Seq<char>,
    perms: PermissionSetModel,
    table: Seq<(Seq<char>, Seq<char>)>,
    icons: Seq<Seq<char>>,
    sprite: Seq<char>,
    b: ButtonModel,
    shown: ToolbarModel,
)
    ensures
        ({
            let toolbar = toolbar_models(config, admin_path, perms, table, icons, sprite);
            &&& config.toolbar.contains(b) && meets(perms, b.permission) ==> toolbar.contains(
                shown_button(b, admin_path, table, icons, sprite),
            )
            &&& !config.creatable || config.edit_base is None ==> (toolbar.contains(shown) ==> exists|
                x: ButtonModel,
            | #[trigger]
                config.toolbar.contains(x) && meets(perms, x.permission) && shown == shown_button(
                    x,
                    admin_path,
                    table,
                    icons,
                    sprite,
                ))
            &&& config.creatable && config.edit_base is Some ==> toolbar.len() > 0
                && toolbar[0].primary && toolbar[0].href == admin_path + config.edit_base->0
                + "/new"@
            &&& shown_button(b, admin_path, table, icons, sprite).primary == b.primary
            &&& shown_button(b, admin_path, table, icons, sprite).label == localized(
                table,
                b.label,
            )
        }),
{
    let f = |x: ButtonModel|
        if meets(perms, x.permission) {
            Some(shown_button(x, admin_path, table, icons, sprite))
        } else {
            None::<ToolbarModel>
        };
    let toolbar = toolbar_models(config, admin_path, perms, table, icons, sprite);
    let own = config.toolbar.filter_map(f);
    let head = toolbar.len() - own.len();
    let one = shown_button(b, admin_path, table, icons, sprite);
    if config.toolbar.contains(b) && meets(perms, b.permission) {
        lemma_kept(config.toolbar, f, one);
        assert(f(b) == Some(one));
        let k = choose|k: int| 0 <= k < own.len() && own[k] == one;
        assert(toolbar[head + k] == one);
    }
    if (!config.creatable || config.edit_base is None) && toolbar.contains(shown) {
        assert(toolbar =~= own);
        lemma_kept(config.toolbar, f, shown);
        let x = choose|x: ButtonModel| #[trigger]
            config.toolbar.contains(x) && f(x) == Some(shown);
        assert(config.toolbar.contains(x));
    }
}

// ------------------------------------------------------------------------ cells
/// A stored boolean shows as Yes where it was set and as No where it was not, and so
/// does its absence; anything that is no boolean shows as it is.
pub proof fn law_a_boolean_cell_says_what_was_stored(b: bool, value: Seq<char>)
    ensures
        yes_no(reads_back(bound(Some(AttrModel::Bool(b))))->0) == (if b {
            "Yes"@
        } else {
            "No"@
        }),
        yes_no(Seq::empty()) == "No"@,
        yes_no("true"@) == "Yes"@,
        yes_no("false"@) == "No"@,
        yes_no(value) != value ==> yes_no(value) == "Yes"@ || yes_no(value) == "No"@,
{
    reveal_strlit("1");
    reveal_strlit("0");
    reveal_strlit("true");
    reveal_strlit("false");
    reveal_strlit("");
    assert(crate::nums::decimal_int(1) =~= "1"@) by {
        assert(crate::nums::digit_char(1) as int == 49);
    }
    assert(crate::nums::decimal_int(0) =~= "0"@) by {
        assert(crate::nums::digit_char(0) as int == 48);
    }
    assert(""@ =~= Seq::<char>::empty());
    assert("1"@[0] != "0"@[0]);
    assert("true"@.len() == 4 && "false"@.len() == 5);
}

/// A cell keeps its raw value, and shows it as its column's type does: text and a status
/// as they are, an instant as the zone and the locale write it, or as it is where it is
/// none. A status alone has a modifier, which a style sheet can name.
pub proof fn law_a_cell_shows_its_value(
    c: BuiltinColumn,
    value: Seq<char>,
    tz: Seq<char>,
    locale: Seq<char>,
    i: int,
)
    ensures
        ({
            let cell = cell_model(c, value, tz, locale);
            let stamp = |pattern: Seq<char>|
                match instant_text(value, tz, locale, pattern) {
                    Some(text) => text,
                    None => value,
                };
            &&& cell.value == value
            &&& cell.view_key == column_key(c)
            &&& c is Text || c is StatusPill ==> cell.display == value
            &&& c is DateTime ==> cell.display == stamp("%-d %b %Y, %H:%M"@)
            &&& c is Date ==> cell.display == stamp("%-d %b %Y"@)
            &&& c is Time ==> cell.display == stamp("%H:%M"@)
            &&& c is Bool ==> cell.display == yes_no(value)
            &&& (cell.slug is Some <==> c is StatusPill)
            &&& 0 <= i < slug_of(value).len() ==> is_ascii_word(slug_of(value)[i])
                || slug_of(value)[i] == '-'
        }),
{
}

/// A row has a cell for each column, each by its own column's type; a type that nobody
/// knows leaves its cell missing rather than another's.
pub proof fn law_each_cell_goes_by_its_column(
    columns: Seq<ColumnModel>,
    registered: Seq<Seq<char>>,
    cells: Seq<Seq<char>>,
    tz: Seq<char>,
    locale: Seq<char>,
    i: int,
)
    requires
        cells.len() == columns.len(),
        0 <= i < columns.len(),
    ensures
        ({
            let row = row_plan(columns, registered, cells, tz, locale);
            &&& row.len() == columns.len()
            &&& row[i] == cell_plan(columns[i].column_type, registered, cells[i], tz, locale)
            &&& forall|c: BuiltinColumn|
                columns[i].column_type == #[trigger] column_key(c) ==> row[i]
                    == CellPlan::Builtin(cell_model(c, cells[i], tz, locale))
            &&& row[i] is Missing ==> !registered.contains(columns[i].column_type)
        }),
{
    assert forall|c: BuiltinColumn|
        columns[i].column_type == #[trigger] column_key(c) implies row_plan(
        columns,
        registered,
        cells,
        tz,
        locale,
    )[i] == CellPlan::Builtin(cell_model(c, cells[i], tz, locale)) by {
        crate::cells::law_builtin_types_are_found_by_key(c);
    }
}

/// A filter finds what was saved: a yes/no filter the records that were saved with the
/// answer it asks for and none that were saved with the other, and a choice those that
/// were saved with that very text.
pub proof fn law_a_filter_finds_what_was_saved(saved: bool, asked: bool, a: Seq<char>, b: Seq<char>)
    requires
        a.len() > 0,
    ensures
        compares_as(bound(Some(AttrModel::Bool(saved)))) == Some(
            crate::list_query::filter_param(ValueModel::Bool(asked)),
        ) <==> saved == asked,
        compares_as(bound(Some(AttrModel::Text(a)))) == Some(crate::list_query::filter_param(ValueModel::Text(b)))
            <==> a == b,
{
}

/// The columns an operator chose are those they named, without the space around them and
/// without what is blank.
pub proof fn law_a_choice_holds_the_columns_named(stored: Seq<char>, part: Seq<char>)
    ensures
        split_on(stored, only(',')).contains(part) && trimmed(part).len() > 0 ==> chosen_names(
            stored,
        ).contains(trimmed(part)),
        forall|name: Seq<char>| #[trigger]
            chosen_names(stored).contains(name) ==> name.len() > 0 && exists|p: Seq<char>|
                #[trigger] split_on(stored, only(',')).contains(p) && trimmed(p) == name,
{
    let parts = split_on(stored, only(','));
    let make = |p: Seq<char>|
        if trimmed(p).len() > 0 {
            Some(trimmed(p))
        } else {
            None::<Seq<char>>
        };
    assert(chosen_names(stored) == parts.filter_map(make));
    lemma_kept(parts, make, trimmed(part));
    if parts.contains(part) && trimmed(part).len() > 0 {
        assert(make(part) == Some(trimmed(part)));
    }
    assert forall|name: Seq<char>| #[trigger] chosen_names(stored).contains(name) implies name.len()
        > 0 && exists|p: Seq<char>| #[trigger] parts.contains(p) && trimmed(p) == name by {
        lemma_kept(parts, make, name);
        let p = choose|p: Seq<char>| #[trigger] parts.contains(p) && make(p) == Some(name);
        assert(parts.contains(p) && trimmed(p) == name);
    }
}

/// A link carries every filter that applies, each under its own name.
pub proof fn law_a_link_carries_each_filter(filters: Seq<ActiveModel>, f: ActiveModel)
    ensures
        filters_carry(filters.push(f)) == filters_carry(filters) + "&"@ + filter_param(f.field)
            + "="@ + urlencoded(f.raw),
        filters_carry(Seq::empty()).len() == 0,
{
    assert(filters.push(f).drop_last() =~= filters);
}

/// A name that goes into a statement is made of lowercase letters, digits and
/// underscores, and starts with no digit; any such name that is not too long may.
pub proof fn law_a_name_in_a_statement_is_plain(s: Seq<char>)
    ensures
        is_ident(s) <==> {
            &&& 0 < s.len() <= 63
            &&& !('0' <= s[0] <= '9')
            &&& forall|i: int|
                0 <= i < s.len() ==> ('a' <= #[trigger] s[i] <= 'z' || '0' <= s[i] <= '9' || s[i]
                    == '_')
        },
{
    if is_ident(s) {
        assert forall|i: int| 0 <= i < s.len() implies ('a' <= #[trigger] s[i] <= 'z' || '0' <= s[i]
            <= '9' || s[i] == '_') by {
            assert(ident_char(s[i], i == 0));
        }
        assert(ident_char(s[0], true));
    }
    if 0 < s.len() <= 63 && !('0' <= s[0] <= '9') && forall|i: int|
        0 <= i < s.len() ==> ('a' <= #[trigger] s[i] <= 'z' || '0' <= s[i] <= '9' || s[i] == '_') {
        assert forall|i: int| 0 <= i < s.len() implies ident_char(#[trigger] s[i], i == 0) by {
            assert('a' <= s[i] <= 'z' || '0' <= s[i] <= '9' || s[i] == '_');
        }
    }
}

} // verus!
