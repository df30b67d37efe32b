//! List cells: what each built-in column type shows of a stored value.

use vstd::prelude::*;

use crate::list::{ColumnModel, ListColumn};
use crate::strs::{cat4, chars_of, is_ascii_word, listed, same, trim, trimmed};
use crate::unicode::{lowercase, lowercase_of};
use crate::zones::{date_locale, date_locale_of, format_ts, instant_text, shown_instant};

verus! {

/// What a cell is rendered from: the stored value as text, the display zone, and
/// the locale for month names.
pub struct CellCx<'a> {
    pub value: &'a str,
    pub tz: &'a str,
    pub locale: &'a str,
}

/// A cell's payload: the stored value, what it shows, and for a status the CSS
/// modifier of its pill.
pub struct CellVm {
    pub view_key: String,
    pub value: String,
    pub display: String,
    pub slug: Option<String>,
}

/// A [`CellVm`], over characters.
pub struct CellModel {
    pub view_key: Seq<char>,
    pub value: Seq<char>,
    pub display: Seq<char>,
    pub slug: Option<Seq<char>>,
}

impl DeepView for CellVm {
    type V = CellModel;

    open spec fn deep_view(&self) -> CellModel {
        CellModel {
            view_key: self.view_key@,
            value: self.value@,
            display: self.display@,
            slug: self.slug.deep_view(),
        }
    }
}

/// The built-in column types.
#[derive(Clone, Copy, Debug, PartialEq, Eq, Structural)]
pub enum BuiltinColumn {
    Text,
    DateTime,
    Date,
    Time,
    Bool,
    StatusPill,
}

/// The registry key of a built-in column type.
pub open spec fn column_key(c: BuiltinColumn) -> Seq<char> {
    match c {
        BuiltinColumn::Text => "text"@,
        BuiltinColumn::DateTime => "datetime"@,
        BuiltinColumn::Date => "date"@,
        BuiltinColumn::Time => "time"@,
        BuiltinColumn::Bool => "boolean"@,
        BuiltinColumn::StatusPill => "status_pill"@,
    }
}

/// What a boolean column shows: the two answers for the spellings the backends
/// give, anything else as it stands.
pub open spec fn yes_no(value: Seq<char>) -> Seq<char> {
    if value == "1"@ || value == "true"@ {
        "Yes"@
    } else if value == "0"@ || value == "false"@ || value == ""@ {
        "No"@
    } else {
        value
    }
}

/// A CSS-safe modifier from a status: lower case, with a dash for anything but a
/// letter or digit of ASCII.
pub open spec fn slug_of(value: Seq<char>) -> Seq<char> {
    lowercase_of(trimmed(value)).map_values(|c: char| if is_ascii_word(c) { c } else { '-' })
}

/// A CSS-safe modifier from a status value.
pub fn status_slug(value: &str) -> (r: String)
    ensures
        r@ == slug_of(value@),
        forall|i: int| 0 <= i < r@.len() ==> is_ascii_word(#[trigger] r@[i]) || r@[i] == '-',
{
    slugged(lowercase(trim(value)).as_str())
}

/// A lower-cased status with a dash for anything but a letter or digit of ASCII.
pub fn slugged(lowered: &str) -> (r: String)
    ensures
        r@ == lowered@.map_values(|c: char| if is_ascii_word(c) { c } else { '-' }),
{
    let chars: Vec<char> = chars_of(lowered);
    let mut r: String = String::new();
    let ghost f = |c: char| if is_ascii_word(c) { c } else { '-' };
    let mut i: usize = 0;
    while i < chars.len()
        invariant
            chars@ == lowered@,
            i <= chars.len(),
            f == (|c: char| if is_ascii_word(c) { c } else { '-' }),
            r@ == lowered@.take(i as int).map_values(f),
        decreases chars.len() - i,
    {
        let c: char = chars[i];
        let word: bool = ('a' <= c && c <= 'z') || ('A' <= c && c <= 'Z') || ('0' <= c && c <= '9');
        r.push(if word { c } else { '-' });
        i = i + 1;
        assert(r@ =~= lowered@.take(i as int).map_values(f));
    }
    assert(lowered@.take(lowered@.len() as int) =~= lowered@);
    r
}

/// What a built-in column type shows.
pub open spec fn cell_model(
    c: BuiltinColumn,
    value: Seq<char>,
    tz: Seq<char>,
    locale: Seq<char>,
) -> CellModel {
    let stamp = |pattern: Seq<char>|
        shown_instant(value, instant_text(value, tz, locale, pattern));
    CellModel {
        view_key: column_key(c),
        value,
        display: match c {
            BuiltinColumn::Text => value,
            BuiltinColumn::DateTime => stamp("%-d %b %Y, %H:%M"@),
            BuiltinColumn::Date => stamp("%-d %b %Y"@),
            BuiltinColumn::Time => stamp("%H:%M"@),
            BuiltinColumn::Bool => yes_no(value),
            BuiltinColumn::StatusPill => value,
        },
        slug: match c {
            BuiltinColumn::StatusPill => Some(slug_of(value)),
            _ => None,
        },
    }
}

/// A cell that shows text.
fn text_cell(view_key: &str, value: &str, display: String) -> (r: CellVm)
    ensures
        r.deep_view() == (CellModel {
            view_key: view_key@,
            value: value@,
            display: display@,
            slug: None,
        }),
{
    CellVm { view_key: view_key.to_owned(), value: value.to_owned(), display, slug: None }
}

/// What a boolean column shows.
fn bool_display(value: &str) -> (r: String)
    ensures
        r@ == yes_no(value@),
{
    if same(value, "1") || same(value, "true") {
        "Yes".to_owned()
    } else if same(value, "0") || same(value, "false") || same(value, "") {
        "No".to_owned()
    } else {
        value.to_owned()
    }
}

impl BuiltinColumn {
    /// The registry key.
    pub fn view_key(self) -> (r: &'static str)
        ensures
            r@ == column_key(self),
    {
        match self {
            BuiltinColumn::Text => "text",
            BuiltinColumn::DateTime => "datetime",
            BuiltinColumn::Date => "date",
            BuiltinColumn::Time => "time",
            BuiltinColumn::Bool => "boolean",
            BuiltinColumn::StatusPill => "status_pill",
        }
    }

    /// What this type shows of a stored value.
    pub fn view_model(self, cx: &CellCx<'_>) -> (r: CellVm)
        ensures
            r.deep_view() == cell_model(self, cx.value@, cx.tz@, cx.locale@),
    {
        match self {
            BuiltinColumn::Text => text_cell("text", cx.value, cx.value.to_owned()),
            BuiltinColumn::DateTime => text_cell(
                "datetime",
                cx.value,
                format_ts(cx.value, cx.tz, cx.locale, "%-d %b %Y, %H:%M"),
            ),
            BuiltinColumn::Date => text_cell(
                "date",
                cx.value,
                format_ts(cx.value, cx.tz, cx.locale, "%-d %b %Y"),
            ),
            BuiltinColumn::Time => text_cell(
                "time",
                cx.value,
                format_ts(cx.value, cx.tz, cx.locale, "%H:%M"),
            ),
            BuiltinColumn::Bool => text_cell("boolean", cx.value, bool_display(cx.value)),
            BuiltinColumn::StatusPill => CellVm {
                view_key: "status_pill".to_owned(),
                value: cx.value.to_owned(),
                display: cx.value.to_owned(),
                slug: Some(status_slug(cx.value)),
            },
        }
    }
}

/// The built-in column types, in registration order.
pub open spec fn builtin_columns() -> Seq<BuiltinColumn> {
    seq![
        BuiltinColumn::Text,
        BuiltinColumn::DateTime,
        BuiltinColumn::Date,
        BuiltinColumn::Time,
        BuiltinColumn::Bool,
        BuiltinColumn::StatusPill,
    ]
}

/// The built-in column types, in registration order.
pub fn builtin_column_types() -> (r: Vec<BuiltinColumn>)
    ensures
        r@ == builtin_columns(),
{
    let r: Vec<BuiltinColumn> = vec![
        BuiltinColumn::Text,
        BuiltinColumn::DateTime,
        BuiltinColumn::Date,
        BuiltinColumn::Time,
        BuiltinColumn::Bool,
        BuiltinColumn::StatusPill,
    ];
    assert(r@ =~= builtin_columns());
    r
}

/// The keys of the built-in column types.
pub open spec fn builtin_column_keys() -> Seq<Seq<char>> {
    builtin_columns().map_values(|c: BuiltinColumn| column_key(c))
}

/// The column registry's keys, seeded with the built-in types.
pub fn builtin_column_registry() -> (r: Vec<String>)
    ensures
        r.deep_view() == builtin_column_keys(),
{
    let types: Vec<BuiltinColumn> = builtin_column_types();
    let mut r: Vec<String> = Vec::new();
    let ghost f = |c: BuiltinColumn| column_key(c);
    assert(r.deep_view() =~= types@.take(0).map_values(f));
    let mut i: usize = 0;
    while i < types.len()
        invariant
            i <= types.len(),
            f == (|c: BuiltinColumn| column_key(c)),
            r.deep_view() == types@.take(i as int).map_values(f),
        decreases types.len() - i,
    {
        let ghost before = r.deep_view();
        r.push(types[i].view_key().to_owned());
        i = i + 1;
        assert(r.deep_view() =~= before.push(column_key(types@[i - 1])));
        assert(r.deep_view() =~= types@.take(i as int).map_values(f));
    }
    assert(types@.take(types@.len() as int) =~= types@);
    r
}

/// The built-in type of a key, where it is one's.
pub open spec fn builtin_of(key: Seq<char>) -> Option<BuiltinColumn> {
    if key == "text"@ {
        Some(BuiltinColumn::Text)
    } else if key == "datetime"@ {
        Some(BuiltinColumn::DateTime)
    } else if key == "date"@ {
        Some(BuiltinColumn::Date)
    } else if key == "time"@ {
        Some(BuiltinColumn::Time)
    } else if key == "boolean"@ {
        Some(BuiltinColumn::Bool)
    } else if key == "status_pill"@ {
        Some(BuiltinColumn::StatusPill)
    } else {
        None
    }
}

/// The built-in type of a key, where it is one's.
pub fn builtin_column(key: &str) -> (r: Option<BuiltinColumn>)
    ensures
        r == builtin_of(key@),
{
    if same(key, "text") {
        Some(BuiltinColumn::Text)
    } else if same(key, "datetime") {
        Some(BuiltinColumn::DateTime)
    } else if same(key, "date") {
        Some(BuiltinColumn::Date)
    } else if same(key, "time") {
        Some(BuiltinColumn::Time)
    } else if same(key, "boolean") {
        Some(BuiltinColumn::Bool)
    } else if same(key, "status_pill") {
        Some(BuiltinColumn::StatusPill)
    } else {
        None
    }
}

/// Every built-in type is found by its own key.
pub proof fn law_builtin_types_are_found_by_key(c: BuiltinColumn)
    ensures
        builtin_of(column_key(c)) == Some(c),
{
    reveal_strlit("text");
    reveal_strlit("datetime");
    reveal_strlit("date");
    reveal_strlit("time");
    reveal_strlit("boolean");
    reveal_strlit("status_pill");
    assert("text"@.len() == 4 && "date"@.len() == 4 && "time"@.len() == 4);
    assert("datetime"@.len() == 8 && "boolean"@.len() == 7 && "status_pill"@.len() == 11);
    assert("text"@[1] != "date"@[1] && "text"@[1] != "time"@[1] && "date"@[0] != "time"@[0]);
}

/// How one cell comes to be shown.
pub enum Cell {
    /// By a built-in type.
    Builtin(CellVm),
    /// By a type that a module contributed.
    Contributed,
    /// Not at all: nobody registered the type.
    Missing,
}

/// A [`Cell`], over characters.
pub enum CellPlan {
    Builtin(CellModel),
    Contributed,
    Missing,
}

impl DeepView for Cell {
    type V = CellPlan;

    open spec fn deep_view(&self) -> CellPlan {
        match self {
            Cell::Builtin(vm) => CellPlan::Builtin(vm.deep_view()),
            Cell::Contributed => CellPlan::Contributed,
            Cell::Missing => CellPlan::Missing,
        }
    }
}

/// How a cell of a column comes to be shown.
pub open spec fn cell_plan(
    column_type: Seq<char>,
    registered: Seq<Seq<char>>,
    value: Seq<char>,
    tz: Seq<char>,
    locale: Seq<char>,
) -> CellPlan {
    match builtin_of(column_type) {
        Some(c) => CellPlan::Builtin(cell_model(c, value, tz, locale)),
        None => if registered.contains(column_type) {
            CellPlan::Contributed
        } else {
            CellPlan::Missing
        },
    }
}

/// How a row's cells come to be shown: one for each value that has a column.
pub open spec fn row_plan(
    columns: Seq<ColumnModel>,
    registered: Seq<Seq<char>>,
    cells: Seq<Seq<char>>,
    tz: Seq<char>,
    locale: Seq<char>,
) -> Seq<CellPlan> {
    let n = if columns.len() < cells.len() {
        columns.len()
    } else {
        cells.len()
    };
    Seq::new(n, |i: int| cell_plan(columns[i].column_type, registered, cells[i], tz, locale))
}

/// How a row's cells come to be shown to an operator with a locale tag. `registered`
/// holds the keys of the column types that modules contributed.
pub fn plan_row(
    columns: &Vec<ListColumn>,
    registered: &Vec<String>,
    cells: &Vec<String>,
    tz: &str,
    locale: &str,
) -> (r: Vec<Cell>)
    ensures
        r.deep_view() == row_plan(
            columns.deep_view(),
            registered.deep_view(),
            cells.deep_view(),
            tz@,
            date_locale_of(locale@),
        ),
{
    let dates: String = date_locale(locale);
    let mut r: Vec<Cell> = Vec::new();
    let ghost want = row_plan(
        columns.deep_view(),
        registered.deep_view(),
        cells.deep_view(),
        tz@,
        dates@,
    );
    let mut i: usize = 0;
    while i < columns.len() && i < cells.len()
        invariant
            i <= columns.len(),
            i <= cells.len(),
            want == row_plan(
                columns.deep_view(),
                registered.deep_view(),
                cells.deep_view(),
                tz@,
                dates@,
            ),
            r.len() == i,
            forall|j: int| 0 <= j < i ==> #[trigger] r@[j].deep_view() == want[j],
        decreases columns.len() - i,
    {
        let key: &str = columns[i].column_type.as_str();
        let cell: Cell = match builtin_column(key) {
            Some(c) => {
                let cx = CellCx { value: cells[i].as_str(), tz, locale: dates.as_str() };
                Cell::Builtin(c.view_model(&cx))
            },
            None => if listed(registered, key) {
                Cell::Contributed
            } else {
                Cell::Missing
            },
        };
        r.push(cell);
        i = i + 1;
    }
    assert(r.deep_view() =~= want);
    r
}

/// The first column of a list whose type nobody registered.
pub open spec fn first_unregistered(
    columns: Seq<ColumnModel>,
    registered: Seq<Seq<char>>,
) -> Option<ColumnModel>
    decreases columns.len(),
{
    if columns.len() == 0 {
        None
    } else if !registered.contains(columns[0].column_type) {
        Some(columns[0])
    } else {
        first_unregistered(columns.drop_first(), registered)
    }
}

/// Checks a list's columns at boot: each names a registered type. The refusal
/// names the first that does not.
pub fn check(columns: &Vec<ListColumn>, registered: &Vec<String>) -> (r: Result<(), String>)
    ensures
        match first_unregistered(columns.deep_view(), registered.deep_view()) {
            None => r is Ok,
            Some(c) => r is Err && r->Err_0@ == "column `"@ + c.field
                + "` uses unregistered type `"@ + c.column_type + "`"@,
        },
{
    let ghost all = columns.deep_view();
    let ghost keys = registered.deep_view();
    let mut i: usize = 0;
    assert(all.skip(0) =~= all);
    while i < columns.len()
        invariant
            i <= columns.len(),
            all == columns.deep_view(),
            keys == registered.deep_view(),
            first_unregistered(all, keys) == first_unregistered(all.skip(i as int), keys),
        decreases columns.len() - i,
    {
        assert(all.skip(i as int).drop_first() =~= all.skip(i + 1));
        let c: &ListColumn = &columns[i];
        if !listed(registered, c.column_type.as_str()) {
            let head: String = cat4(
                "column `",
                c.field.as_str(),
                "` uses unregistered type `",
                c.column_type.as_str(),
            );
            return Err(crate::strs::cat(head.as_str(), "`"));
        }
        i = i + 1;
    }
    Ok(())
}

} // verus!
