//! The first column of a result, read as text.

use arrow::array::{Array, RecordBatch, StringArray};
use vstd::prelude::*;

verus! {

/// A part of a query's result: an `arrow` record batch, the collection of the
/// columns that came with it.
#[verifier::external_body]
pub struct ResultBatch {
    pub inner: RecordBatch,
}

/// A column as it is read here: the texts of a `VARCHAR` column, with nothing in
/// place of each `NULL`, or the name of another column's type.
#[derive(Debug, PartialEq, Eq)]
pub enum Column {
    Text(Vec<Option<String>>),
    Other(String),
}

/// A column's texts, or the name of its type.
pub enum ColumnView {
    Text(Seq<Option<Seq<char>>>),
    Other(Seq<char>),
}

impl View for Column {
    type V = ColumnView;

    open spec fn view(&self) -> ColumnView {
        match self {
            Column::Text(values) => ColumnView::Text(values.deep_view()),
            Column::Other(data_type) => ColumnView::Other(data_type@),
        }
    }
}

/// The number of columns in a batch.
pub uninterp spec fn column_count(batch: ResultBatch) -> nat;

/// The first column of a batch.
pub uninterp spec fn first_column(batch: ResultBatch) -> ColumnView;

/// Counts the columns of a batch: `RecordBatch::num_columns`.
///
/// The contract names the count.
#[verifier::external_body]
fn count_columns(batch: &ResultBatch) -> (n: usize)
    ensures
        n == column_count(*batch),
{
    batch.inner.num_columns()
}

/// Reads the first column of a batch: `RecordBatch::column`, which needs that
/// there is one.
///
/// The contract names the column. It is `Text`, with the values in order, where
/// the column is a `StringArray`, and else `Other`, with the name of its type.
#[verifier::external_body]
fn read_first_column(batch: &ResultBatch) -> (column: Column)
    requires
        column_count(*batch) > 0,
    ensures
        column@ == first_column(*batch),
{
    let column = batch.inner.column(0);
    match column.as_any().downcast_ref::<StringArray>() {
        Some(texts) => Column::Text(texts.iter().map(|text| text.map(str::to_string)).collect()),
        None => Column::Other(column.data_type().to_string()),
    }
}

/// The values that are present, in order.
pub open spec fn present(values: Seq<Option<Seq<char>>>) -> Seq<Seq<char>>
    decreases values.len(),
{
    if values.len() == 0 {
        Seq::empty()
    } else {
        match values.last() {
            Some(value) => present(values.drop_last()).push(value),
            None => present(values.drop_last()),
        }
    }
}

/// The texts of all columns, one column after the other, without the `NULL`s.
pub open spec fn column_texts(columns: Seq<ColumnView>) -> Seq<Seq<char>>
    decreases columns.len(),
{
    if columns.len() == 0 {
        Seq::empty()
    } else {
        match columns.last() {
            ColumnView::Text(values) => column_texts(columns.drop_last()) + present(values),
            ColumnView::Other(_) => column_texts(columns.drop_last()),
        }
    }
}

/// The type of the first column that holds something other than text.
pub open spec fn first_other_type(columns: Seq<ColumnView>) -> Option<Seq<char>>
    decreases columns.len(),
{
    if columns.len() == 0 {
        None
    } else {
        match (first_other_type(columns.drop_last()), columns.last()) {
            (Some(data_type), _) => Some(data_type),
            (None, ColumnView::Other(data_type)) => Some(data_type),
            (None, ColumnView::Text(_)) => None,
        }
    }
}

/// What is said of a column of the type `data_type` where text was expected.
pub open spec fn unexpected_type(sql: Seq<char>, data_type: Seq<char>) -> Seq<char> {
    "expected a VARCHAR column from '"@ + sql + "', got "@ + data_type
}

/// The columns of which each batch gives its first.
pub open spec fn first_columns(batches: Seq<ResultBatch>) -> Seq<ColumnView> {
    batches.map_values(|batch: ResultBatch| first_column(batch))
}

/// What reading the columns of the result of `sql` gives: their texts, or what is
/// said of the first column that holds something other than text.
pub open spec fn texts_or_message(
    sql: Seq<char>,
    columns: Seq<ColumnView>,
    r: Result<Vec<String>, String>,
) -> bool {
    match first_other_type(columns) {
        None => r is Ok && r->Ok_0.deep_view() == column_texts(columns),
        Some(data_type) => r is Err && r->Err_0@ == unexpected_type(sql, data_type),
    }
}

/// Whether every batch has a column.
pub open spec fn have_columns(batches: Seq<ResultBatch>) -> bool {
    forall|i: int| 0 <= i < batches.len() ==> column_count(#[trigger] batches[i]) > 0
}

/// Appends to `texts` the values that are present.
fn push_present(texts: &mut Vec<String>, values: &Vec<Option<String>>)
    ensures
        final(texts).deep_view() == old(texts).deep_view() + present(values.deep_view()),
{
    let ghost all = values.deep_view();
    let mut i: usize = 0;
    assert(all.take(0) == Seq::<Option<Seq<char>>>::empty());
    assert(texts.deep_view() == old(texts).deep_view() + present(all.take(0)));
    while i < values.len()
        invariant
            i <= values.len(),
            all == values.deep_view(),
            texts.deep_view() == old(texts).deep_view() + present(all.take(i as int)),
        decreases values.len() - i,
    {
        assert(all.take(i + 1).drop_last() == all.take(i as int));
        let ghost before = texts.deep_view();
        match &values[i] {
            Some(value) => {
                texts.push(value.clone());
                assert(texts.deep_view() == before.push(value@));
            },
            None => {},
        }
        i += 1;
    }
    assert(all.take(i as int) == all);
}

/// The texts of all columns, one column after the other, without the `NULL`s.
///
/// Fails at the first column that holds something other than text, with a
/// message that names the statement and that column's type.
pub fn collect_texts(sql: &str, columns: &Vec<Column>) -> (r: Result<Vec<String>, String>)
    ensures
        texts_or_message(sql@, columns@.map_values(|column: Column| column@), r),
{
    let ghost all = columns@.map_values(|column: Column| column@);
    let mut texts: Vec<String> = Vec::new();
    let mut i: usize = 0;
    assert(texts.deep_view() == Seq::<Seq<char>>::empty());
    assert(all.take(0) == Seq::<ColumnView>::empty());
    while i < columns.len()
        invariant
            i <= columns.len(),
            all == columns@.map_values(|column: Column| column@),
            first_other_type(all.take(i as int)) is None,
            texts.deep_view() == column_texts(all.take(i as int)),
        decreases columns.len() - i,
    {
        assert(all.take(i + 1).drop_last() == all.take(i as int));
        match &columns[i] {
            Column::Text(values) => {
                push_present(&mut texts, values);
            },
            Column::Other(data_type) => {
                proof {
                    lemma_first_other_type_is_kept(all, i + 1);
                }
                let mut message = "expected a VARCHAR column from '".to_owned();
                message.append(sql);
                message.append("', got ");
                message.append(data_type.as_str());
                return Err(message);
            },
        }
        i += 1;
    }
    assert(all.take(i as int) == all);
    Ok(texts)
}

/// The first column of another type stays the first, whatever columns follow.
proof fn lemma_first_other_type_is_kept(columns: Seq<ColumnView>, k: int)
    requires
        0 <= k <= columns.len(),
        first_other_type(columns.take(k)) is Some,
    ensures
        first_other_type(columns) == first_other_type(columns.take(k)),
    decreases columns.len() - k,
{
    if k < columns.len() {
        assert(columns.take(k + 1).drop_last() == columns.take(k));
        lemma_first_other_type_is_kept(columns, k + 1);
    } else {
        assert(columns.take(k) == columns);
    }
}

impl ResultBatch {
    /// Whether the batch has a column.
    pub fn has_columns(&self) -> (yes: bool)
        ensures
            yes == (column_count(*self) > 0),
    {
        count_columns(self) > 0
    }
}

/// The texts in the first column of a result, without the `NULL`s.
///
/// Fails at the first batch whose first column holds something other than text,
/// with a message that names the statement and that column's type.
pub fn string_column(sql: &str, batches: &Vec<ResultBatch>) -> (r: Result<Vec<String>, String>)
    requires
        have_columns(batches@),
    ensures
        texts_or_message(sql@, first_columns(batches@), r),
{
    let mut columns: Vec<Column> = Vec::new();
    let mut i: usize = 0;
    while i < batches.len()
        invariant
            have_columns(batches@),
            i <= batches.len(),
            columns@.map_values(|column: Column| column@) == first_columns(batches@).take(i as int),
        decreases batches.len() - i,
    {
        let ghost before = columns@;
        columns.push(read_first_column(&batches[i]));
        assert(columns@.map_values(|column: Column| column@) == before.map_values(
            |column: Column| column@,
        ).push(first_column(batches@[i as int])));
        assert(first_columns(batches@).take(i + 1) == first_columns(batches@).take(i as int).push(
            first_column(batches@[i as int]),
        ));
        i += 1;
    }
    assert(first_columns(batches@).take(i as int) == first_columns(batches@));
    collect_texts(sql, &columns)
}

/// The texts in the first column of a result, as `string_column` gives them, or
/// nothing where some batch has no column.
pub fn string_column_if_any(sql: &str, batches: &Vec<ResultBatch>) -> (r: Option<
    Result<Vec<String>, String>,
>)
    ensures
        r is Some <==> have_columns(batches@),
        r is Some ==> texts_or_message(sql@, first_columns(batches@), r->0),
{
    let mut i: usize = 0;
    while i < batches.len()
        invariant
            i <= batches.len(),
            forall|j: int| 0 <= j < i ==> column_count(#[trigger] batches@[j]) > 0,
        decreases batches.len() - i,
    {
        if !batches[i].has_columns() {
            return None;
        }
        i += 1;
    }
    Some(string_column(sql, batches))
}

/// Where a result is cut into batches does not matter: the texts, and the message
/// where there is one, are those of the uncut column.
pub proof fn law_batch_boundaries_do_not_matter(
    before: Seq<ColumnView>,
    first: Seq<Option<Seq<char>>>,
    second: Seq<Option<Seq<char>>>,
    after: Seq<ColumnView>,
)
    ensures
        column_texts(before + seq![ColumnView::Text(first), ColumnView::Text(second)] + after)
            == column_texts(before + seq![ColumnView::Text(first + second)] + after),
        first_other_type(before + seq![ColumnView::Text(first), ColumnView::Text(second)] + after)
            == first_other_type(before + seq![ColumnView::Text(first + second)] + after),
    decreases after.len(),
{
    let cut = before + seq![ColumnView::Text(first), ColumnView::Text(second)];
    let whole = before + seq![ColumnView::Text(first + second)];
    if after.len() > 0 {
        law_batch_boundaries_do_not_matter(before, first, second, after.drop_last());
        assert((cut + after).drop_last() == cut + after.drop_last());
        assert((whole + after).drop_last() == whole + after.drop_last());
    } else {
        lemma_present_of_both(first, second);
        let half = before.push(ColumnView::Text(first));
        assert(cut + after == cut && whole + after == whole);
        assert(cut.drop_last() == half && half.drop_last() == before);
        assert(whole.drop_last() == before);
        assert(column_texts(half) == column_texts(before) + present(first));
        assert(column_texts(cut) == column_texts(half) + present(second));
        assert(column_texts(whole) == column_texts(before) + present(first + second));
        assert(first_other_type(half) == first_other_type(before));
    }
}

proof fn lemma_present_of_both(first: Seq<Option<Seq<char>>>, second: Seq<Option<Seq<char>>>)
    ensures
        present(first + second) == present(first) + present(second),
    decreases second.len(),
{
    if second.len() == 0 {
        assert(first + second == first);
    } else {
        lemma_present_of_both(first, second.drop_last());
        assert((first + second).drop_last() == first + second.drop_last());
    }
}

/// Only `NULL`s are skipped, one value at a time: a text is kept as it is, a `NULL`
/// is left out, and the values before and after stay where they are.
pub proof fn law_only_nulls_are_skipped(
    first: Seq<Option<Seq<char>>>,
    second: Seq<Option<Seq<char>>>,
    text: Seq<char>,
)
    ensures
        present(first + second) == present(first) + present(second),
        present(seq![Some(text)]) == seq![text],
        present(seq![None::<Seq<char>>]) == Seq::<Seq<char>>::empty(),
        present(Seq::<Option<Seq<char>>>::empty()) == Seq::<Seq<char>>::empty(),
{
    lemma_present_of_both(first, second);
    let nothing = Seq::<Option<Seq<char>>>::empty();
    assert(seq![Some(text)].drop_last() == nothing);
    assert(seq![None::<Seq<char>>].drop_last() == nothing);
    assert(present(nothing) == Seq::<Seq<char>>::empty());
}

/// A column without `NULL`s is read whole, in its order.
pub proof fn law_full_column_is_read_whole(values: Seq<Option<Seq<char>>>)
    requires
        forall|i: int| 0 <= i < values.len() ==> (#[trigger] values[i]) is Some,
    ensures
        present(values).len() == values.len(),
        forall|i: int| 0 <= i < values.len() ==> #[trigger] present(values)[i] == values[i]->0,
    decreases values.len(),
{
    if values.len() > 0 {
        let before = values.drop_last();
        assert forall|i: int| 0 <= i < before.len() implies (#[trigger] before[i]) is Some by {
            assert(values[i] is Some);
        }
        law_full_column_is_read_whole(before);
        assert(values[values.len() - 1] is Some);
        assert forall|i: int| 0 <= i < values.len() implies #[trigger] present(values)[i]
            == values[i]->0 by {
            if i < before.len() {
                assert(present(before)[i] == before[i]->0);
            }
        }
    }
}

/// Every text that is present is read, and every text that is read is present.
pub proof fn law_texts_are_those_present(values: Seq<Option<Seq<char>>>, text: Seq<char>)
    ensures
        present(values).contains(text) <==> values.contains(Some(text)),
    decreases values.len(),
{
    if values.len() > 0 {
        let before = values.drop_last();
        law_texts_are_those_present(before, text);
        assert(values == before.push(values.last()));
        if values.contains(Some(text)) {
            let i = choose|i: int| 0 <= i < values.len() && values[i] == Some(text);
            if i < before.len() {
                assert(before[i] == Some(text));
                let j = choose|j: int| 0 <= j < present(before).len() && present(before)[j] == text;
                assert(present(values)[j] == text);
            } else {
                assert(present(values)[present(before).len() as int] == text);
            }
        }
        if present(values).contains(text) {
            let j = choose|j: int| 0 <= j < present(values).len() && present(values)[j] == text;
            if j < present(before).len() {
                assert(present(before)[j] == text);
                let i = choose|i: int| 0 <= i < before.len() && before[i] == Some(text);
                assert(values[i] == Some(text));
            } else {
                assert(values[values.len() - 1] == Some(text));
            }
        }
    }
}

/// The columns are read one after the other, each as its own values are.
pub proof fn law_columns_are_read_in_turn(
    first: Seq<ColumnView>,
    second: Seq<ColumnView>,
    values: Seq<Option<Seq<char>>>,
)
    ensures
        column_texts(first + second) == column_texts(first) + column_texts(second),
        column_texts(seq![ColumnView::Text(values)]) == present(values),
        column_texts(Seq::<ColumnView>::empty()) == Seq::<Seq<char>>::empty(),
    decreases second.len(),
{
    let nothing = Seq::<ColumnView>::empty();
    assert(column_texts(nothing) == Seq::<Seq<char>>::empty());
    assert(seq![ColumnView::Text(values)].drop_last() == nothing);
    assert(column_texts(seq![ColumnView::Text(values)]) == present(values));
    if second.len() == 0 {
        assert(first + second == first);
    } else {
        law_columns_are_read_in_turn(first, second.drop_last(), values);
        assert((first + second).drop_last() == first + second.drop_last());
    }
}

/// A result is refused for the first of its columns that is not text, whatever
/// follows.
pub proof fn law_first_other_column_is_named(columns: Seq<ColumnView>, at: int)
    requires
        0 <= at < columns.len(),
        columns[at] is Other,
        forall|i: int| 0 <= i < at ==> (#[trigger] columns[i]) is Text,
    ensures
        first_other_type(columns) == Some(columns[at]->Other_0),
{
    let upto = columns.take(at + 1);
    law_text_columns_are_accepted(columns.take(at));
    assert(upto.drop_last() == columns.take(at));
    assert(upto.last() == columns[at]);
    lemma_first_other_type_is_kept(columns, at + 1);
}

/// A result whose columns are all text is not refused.
pub proof fn law_text_columns_are_accepted(columns: Seq<ColumnView>)
    requires
        forall|i: int| 0 <= i < columns.len() ==> (#[trigger] columns[i]) is Text,
    ensures
        first_other_type(columns) is None,
    decreases columns.len(),
{
    if columns.len() > 0 {
        let before = columns.drop_last();
        assert forall|i: int| 0 <= i < before.len() implies (#[trigger] before[i]) is Text by {
            assert(columns[i] is Text);
        }
        law_text_columns_are_accepted(before);
        assert(columns[columns.len() - 1] is Text);
    }
}

/// A result of text columns is answered with their texts; any other with a message
/// that holds the statement and the type of the first column that is not text.
pub proof fn law_result_is_read_or_refused(
    sql: Seq<char>,
    columns: Seq<ColumnView>,
    at: int,
    r: Result<Vec<String>, String>,
)
    requires
        texts_or_message(sql, columns, r),
        0 <= at <= columns.len(),
        forall|i: int| 0 <= i < at ==> (#[trigger] columns[i]) is Text,
        at < columns.len() ==> columns[at] is Other,
    ensures
        at == columns.len() ==> r is Ok && r->Ok_0.deep_view() == column_texts(columns),
        at < columns.len() ==> r is Err && r->Err_0@ == "expected a VARCHAR column from '"@ + sql
            + "', got "@ + columns[at]->Other_0,
{
    if at == columns.len() {
        law_text_columns_are_accepted(columns);
    } else {
        law_first_other_column_is_named(columns, at);
    }
}

/// The columns of a result are the first columns of its batches, in their order.
pub proof fn law_first_columns_are_taken(batches: Seq<ResultBatch>)
    ensures
        first_columns(batches).len() == batches.len(),
        forall|i: int|
            0 <= i < batches.len() ==> #[trigger] first_columns(batches)[i] == first_column(
                batches[i],
            ),
        have_columns(batches) <==> forall|i: int|
            0 <= i < batches.len() ==> column_count(#[trigger] batches[i]) >= 1,
{
}

/// A column is seen as the values or the type that it holds.
pub proof fn law_column_is_seen_as_it_is(column: Column)
    ensures
        match column {
            Column::Text(values) => column@ == ColumnView::Text(values.deep_view()),
            Column::Other(data_type) => column@ == ColumnView::Other(data_type@),
        },
{
}

} // verus!
