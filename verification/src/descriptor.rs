//! Reading a resource from a descriptor file.
//!
//! One file describes one [`Resource`]: what it is, where it mounts, who may reach
//! it, and the list and form screens over it. The entity, the path and the id column
//! are written once at the top and filled into both screens, so the two cannot
//! disagree about what they edit.

use vstd::prelude::*;
use vstd::string::StringExecFns;

use crate::form::{FormConfig, FormConfigModel, FormField, FormFieldModel};
use crate::list::{
    ColumnModel, FilterModel, ListColumn, ListConfig, ListFilter, ListModel,
};
use crate::resource::{Resource, ResourceModel};
use crate::strs::{cat3, only, replace_char, replaced, split, split_on};
use crate::text::{plain, Text, TextModel};
use crate::unicode::{uppercase, uppercase_of};

verus! {

/// A resource as a descriptor file spells it.
pub struct ResourceFile {
    /// The table the screens read and write.
    pub entity: String,
    /// Where the resource mounts, under the module's own namespace.
    pub path: String,
    /// The navigation label, and the default title for both screens.
    pub title: Text,
    /// Required once the resource has a form: an unguarded write aborts boot.
    pub permission: Option<String>,
    /// The primary key column.
    pub id_field: String,
    pub list: ListConfig,
    pub form: Option<FormConfig>,
}

/// A [`ResourceFile`], over characters.
pub struct FileModel {
    pub entity: Seq<char>,
    pub path: Seq<char>,
    pub title: TextModel,
    pub permission: Option<Seq<char>>,
    pub id_field: Seq<char>,
    pub list: ListModel,
    pub form: Option<FormConfigModel>,
}

impl DeepView for ResourceFile {
    type V = FileModel;

    open spec fn deep_view(&self) -> FileModel {
        FileModel {
            entity: self.entity@,
            path: self.path@,
            title: self.title@,
            permission: self.permission.deep_view(),
            id_field: self.id_field@,
            list: self.list@,
            form: self.form.deep_view(),
        }
    }
}

/// The primary key column of a file that names none.
pub fn default_id_field() -> (r: String)
    ensures
        r@ == "id"@,
{
    "id".to_owned()
}

/// What went wrong reading a descriptor file.
#[derive(Debug)]
pub struct DescriptorError {
    /// The file, as the caller named it.
    pub source: String,
    pub message: String,
}

impl DescriptorError {
    /// The error as it is shown: the file, then what is wrong with it.
    pub fn shown(&self) -> (r: String)
        ensures
            r@ == self.source@ + ": "@ + self.message@,
    {
        cat3(self.source.as_str(), ": ", self.message.as_str())
    }
}

// ----------------------------------------------------------------------- labels
/// A word at the head of a label: its first letter in upper case.
pub open spec fn headed(word: Seq<char>) -> Seq<char> {
    if word.len() == 0 {
        word
    } else {
        uppercase_of(word[0]) + word.skip(1)
    }
}

/// Words as a label reads: the first with a capital, each later one after a space,
/// and nothing for an empty one.
pub open spec fn label_words(words: Seq<Seq<char>>) -> Seq<char>
    decreases words.len(),
{
    if words.len() == 0 {
        Seq::empty()
    } else {
        let before = label_words(words.drop_last());
        let word = words.last();
        if word.len() == 0 {
            before
        } else if words.len() == 1 {
            headed(word)
        } else {
            before + " "@ + word
        }
    }
}

/// A column's name as a label reads: `created_at` reads as "Created at".
pub open spec fn human(name: Seq<char>) -> Seq<char> {
    label_words(split_on(replaced(name, '-', '_'), only('_')))
}

/// A column's name as a label reads. Still a message, so it localizes like any
/// other.
pub fn humanize(name: &str) -> (r: Text)
    ensures
        r@ == plain(human(name@)),
{
    let words: Vec<String> = split(replace_char(name, '-', '_').as_str(), '_');
    let ghost all = words.deep_view();
    let mut out: String = String::new();
    let mut i: usize = 0;
    while i < words.len()
        invariant
            i <= words.len(),
            all == words.deep_view(),
            out@ == label_words(all.take(i as int)),
        decreases words.len() - i,
    {
        assert(all.take(i + 1).drop_last() =~= all.take(i as int));
        assert(all.take(i + 1).last() == words@[i as int]@);
        let word: &str = words[i].as_str();
        let n: usize = word.unicode_len();
        if n > 0 {
            if i > 0 {
                out.append(" ");
                out.append(word);
            } else {
                assert(all.take(0) =~= Seq::<Seq<char>>::empty());
                out.append(uppercase(word.get_char(0)).as_str());
                out.append(word.substring_char(1, n));
                assert(out@ =~= headed(word@));
            }
        }
        i = i + 1;
    }
    assert(all.take(all.len() as int) =~= all);
    Text::new(out.as_str())
}

/// A label, or the name it stands for read as one where it is blank.
pub open spec fn label_or(label: TextModel, name: Seq<char>) -> TextModel {
    if label.source.len() == 0 {
        plain(human(name))
    } else {
        label
    }
}

/// A title, or another where it is blank.
pub open spec fn title_or(title: TextModel, other: TextModel) -> TextModel {
    if title.source.len() == 0 {
        other
    } else {
        title
    }
}

// ---------------------------------------------------------------------- filling
/// The list of a file, filled in.
pub open spec fn filled_list(file: FileModel) -> ListModel {
    ListModel {
        entity: file.entity,
        id_field: file.id_field,
        title: title_or(file.list.title, file.title),
        edit_base: if file.form is Some && file.list.edit_base is None {
            Some(file.path)
        } else {
            file.list.edit_base
        },
        columns: file.list.columns.map_values(
            |c: ColumnModel| ColumnModel { label: label_or(c.label, c.field), ..c },
        ),
        filters: file.list.filters.map_values(
            |f: FilterModel| FilterModel { label: label_or(f.label, f.field), ..f },
        ),
        ..file.list
    }
}

/// The form of a file, filled in.
pub open spec fn filled_form(file: FileModel, form: FormConfigModel) -> FormConfigModel {
    FormConfigModel {
        entity: file.entity,
        id_field: file.id_field,
        base_path: file.path,
        title: title_or(form.title, file.title),
        fields: form.fields.map_values(
            |f: FormFieldModel| FormFieldModel { label: label_or(f.label, f.name), ..f },
        ),
        ..form
    }
}

/// The resource a file describes.
pub open spec fn described(file: FileModel) -> ResourceModel {
    ResourceModel {
        base_path: file.path,
        nav_label: file.title,
        list: filled_list(file),
        form: match file.form {
            Some(form) => Some(filled_form(file, form)),
            None => None,
        },
        permission: file.permission,
    }
}

/// A label, or the name it stands for read as one where it is blank.
fn label_for(label: Text, name: &str) -> (r: Text)
    ensures
        r@ == label_or(label@, name@),
{
    if label.source().is_empty() {
        humanize(name)
    } else {
        label
    }
}

/// The columns with their labels filled in.
fn fill_columns(columns: &Vec<ListColumn>) -> (r: Vec<ListColumn>)
    ensures
        r.deep_view() == columns.deep_view().map_values(
            |c: ColumnModel| ColumnModel { label: label_or(c.label, c.field), ..c },
        ),
{
    let ghost all = columns.deep_view();
    let mut r: Vec<ListColumn> = Vec::new();
    let mut i: usize = 0;
    while i < columns.len()
        invariant
            i <= columns.len(),
            all == columns.deep_view(),
            r.len() == i,
            forall|j: int|
                0 <= j < i ==> #[trigger] r@[j].deep_view() == (ColumnModel {
                    label: label_or(all[j].label, all[j].field),
                    ..all[j]
                }),
        decreases columns.len() - i,
    {
        assert(all[i as int] == columns@[i as int].deep_view());
        let mut c: ListColumn = columns[i].copy();
        c.label = label_for(c.label, columns[i].field.as_str());
        r.push(c);
        i = i + 1;
    }
    assert(r.deep_view() =~= all.map_values(
        |c: ColumnModel| ColumnModel { label: label_or(c.label, c.field), ..c },
    ));
    r
}

/// The filters with their labels filled in.
fn fill_filters(filters: &Vec<ListFilter>) -> (r: Vec<ListFilter>)
    ensures
        r.deep_view() == filters.deep_view().map_values(
            |f: FilterModel| FilterModel { label: label_or(f.label, f.field), ..f },
        ),
{
    let ghost all = filters.deep_view();
    let mut r: Vec<ListFilter> = Vec::new();
    let mut i: usize = 0;
    while i < filters.len()
        invariant
            i <= filters.len(),
            all == filters.deep_view(),
            r.len() == i,
            forall|j: int|
                0 <= j < i ==> #[trigger] r@[j].deep_view() == (FilterModel {
                    label: label_or(all[j].label, all[j].field),
                    ..all[j]
                }),
        decreases filters.len() - i,
    {
        assert(all[i as int] == filters@[i as int].deep_view());
        let mut f: ListFilter = filters[i].copy();
        f.label = label_for(f.label, filters[i].field.as_str());
        r.push(f);
        i = i + 1;
    }
    assert(r.deep_view() =~= all.map_values(
        |f: FilterModel| FilterModel { label: label_or(f.label, f.field), ..f },
    ));
    r
}

/// The fields with their labels filled in.
fn fill_fields(fields: Vec<FormField>) -> (r: Vec<FormField>)
    ensures
        r.deep_view() == fields.deep_view().map_values(
            |f: FormFieldModel| FormFieldModel { label: label_or(f.label, f.name), ..f },
        ),
{
    let ghost all = fields.deep_view();
    let n: usize = fields.len();
    let mut left: Vec<FormField> = fields;
    let mut r: Vec<FormField> = Vec::new();
    let mut i: usize = 0;
    assert(all.skip(0) =~= all);
    while i < n
        invariant
            i <= n,
            n == all.len(),
            left.deep_view() == all.skip(i as int),
            r.len() == i,
            forall|j: int|
                0 <= j < i ==> #[trigger] r@[j].deep_view() == (FormFieldModel {
                    label: label_or(all[j].label, all[j].name),
                    ..all[j]
                }),
        decreases n - i,
    {
        let ghost before = left.deep_view();
        assert(before.len() == n - i);
        assert(before[0] == left@[0].deep_view());
        let mut f: FormField = left.remove(0);
        assert(left.deep_view() =~= before.remove(0));
        assert(before.remove(0) =~= all.skip(i + 1));
        let name: String = f.name.clone();
        f.label = label_for(f.label, name.as_str());
        r.push(f);
        i = i + 1;
    }
    assert(r.deep_view() =~= all.map_values(
        |f: FormFieldModel| FormFieldModel { label: label_or(f.label, f.name), ..f },
    ));
    r
}

/// The resource a file describes.
pub fn resource_of(file: ResourceFile) -> (r: Resource)
    ensures
        r.deep_view() == described(file.deep_view()),
{
    let ghost m = file.deep_view();
    let mut list: ListConfig = file.list;
    list.entity = file.entity.clone();
    list.id_field = file.id_field.clone();
    if list.title.source().is_empty() {
        list.title = file.title.copy();
    }
    // Rows link to the form when there is one, so a file need not repeat the path it
    // already gave.
    if file.form.is_some() && list.edit_base.is_none() {
        list.edit_base = Some(file.path.clone());
    }
    list.columns = fill_columns(&list.columns);
    list.filters = fill_filters(&list.filters);
    let form: Option<FormConfig> = match file.form {
        Some(f) => {
            let mut form: FormConfig = f;
            form.entity = file.entity.clone();
            form.id_field = file.id_field.clone();
            form.base_path = file.path.clone();
            if form.title.source().is_empty() {
                form.title = file.title.copy();
            }
            form.fields = fill_fields(form.fields);
            Some(form)
        },
        None => None,
    };
    Resource {
        base_path: file.path,
        nav_label: file.title,
        list,
        form,
        permission: file.permission,
    }
}

/// Reads a resource from what a descriptor file was parsed to, or from why it could
/// not be. `source` names the file in any error, so a message points at something
/// the author can open.
pub fn from_yaml(parsed: Result<ResourceFile, String>, source: &str) -> (r: Result<
    Resource,
    DescriptorError,
>)
    ensures
        match parsed {
            Ok(file) => r is Ok && (r->Ok_0).deep_view() == described(file.deep_view()),
            Err(message) => r is Err && (r->Err_0).source@ == source@ && (r->Err_0).message
                == message,
        },
{
    match parsed {
        Ok(file) => Ok(resource_of(file)),
        Err(message) => Err(DescriptorError { source: source.to_owned(), message }),
    }
}

/// A file cannot say one thing to the list and another to the form: what is written
/// once at the top reaches both screens.
pub proof fn law_a_file_describes_both_screens_alike(file: FileModel)
    ensures
        described(file).list.entity == file.entity,
        described(file).list.id_field == file.id_field,
        described(file).form matches Some(form) ==> {
            &&& form.entity == described(file).list.entity
            &&& form.id_field == described(file).list.id_field
            &&& form.base_path == described(file).base_path
            &&& described(file).list.edit_base is Some
        },
        described(file).form is None ==> described(file).list.edit_base == file.list.edit_base,
{
}

} // verus!
