//! Decoding of scanned columns into canonical values.

use vstd::prelude::*;
use vstd::string::StringSliceAdditionalSpecFns;
use vstd::utf8::encode_utf8;
use crate::dialect::{Backend, DecodeRule, Dialect, DialectView, IntWidth};
use crate::encoding::{base64_length, base64_text, encode_base64};
use crate::error::{BooleanSource, BooleanSourceView, Error, ErrorView};
use crate::name_map::{
    distinct_keys, has_key, inserted, lemma_inserted, lemma_position_unique, lookup,
};
use crate::row::{Row, RowView};
use crate::value::{CanonicalValue, ValueView};

verus! {

/// One scanned column of one row, as the backend's driver hands it over:
/// its names, its null flag, and what each typed read of it gives. A read
/// that the driver refuses holds the driver's message.
#[derive(Debug)]
pub struct RawColumn {
    /// The column's name in the result set.
    pub name: String,
    /// The type name that the backend reports for the column.
    pub type_tag: String,
    /// Whether the backend reports the column's type as null.
    pub type_is_null: bool,
    /// Whether the backend reports the column's value as null.
    pub value_is_null: bool,
    pub int64: Result<i64, String>,
    pub int32: Result<i32, String>,
    pub int16: Result<i16, String>,
    pub int8: Result<i8, String>,
    pub boolean: Result<bool, String>,
    pub text: Result<String, String>,
    /// The column read as bytes.
    pub bytes: Result<Vec<u8>, String>,
}

/// Mathematical model of a [`RawColumn`].
pub ghost struct ColumnView {
    pub name: Seq<char>,
    pub type_tag: Seq<char>,
    pub type_is_null: bool,
    pub value_is_null: bool,
    pub int64: Result<int, Seq<char>>,
    pub int32: Result<int, Seq<char>>,
    pub int16: Result<int, Seq<char>>,
    pub int8: Result<int, Seq<char>>,
    pub boolean: Result<bool, Seq<char>>,
    pub text: Result<Seq<char>, Seq<char>>,
    pub bytes: Result<Seq<u8>, Seq<char>>,
}

impl ColumnView {
    /// Whether the column holds no value: its type or its value is
    /// reported as null.
    pub open spec fn is_null(self) -> bool {
        self.type_is_null || self.value_is_null
    }

    /// The column's payload: what the read as bytes gives, or, where that
    /// read is refused, the bytes of the column's text. Where both reads
    /// are refused, the message of the text read.
    pub open spec fn payload(self) -> Result<Seq<u8>, Seq<char>> {
        match self.bytes {
            Ok(p) => Ok(p),
            Err(_) => match self.text {
                Ok(t) => Ok(encode_utf8(t)),
                Err(e) => Err(e),
            },
        }
    }

    /// Whether the payload, if there is one, is short enough for its base64
    /// text to fit in memory.
    pub open spec fn encodable(self) -> bool {
        self.payload() matches Ok(p) ==> base64_length(p.len()) <= isize::MAX
    }
}

impl View for RawColumn {
    type V = ColumnView;

    open spec fn view(&self) -> ColumnView {
        ColumnView {
            name: self.name@,
            type_tag: self.type_tag@,
            type_is_null: self.type_is_null,
            value_is_null: self.value_is_null,
            int64: match self.int64 {
                Ok(v) => Ok(v as int),
                Err(e) => Err(e@),
            },
            int32: match self.int32 {
                Ok(v) => Ok(v as int),
                Err(e) => Err(e@),
            },
            int16: match self.int16 {
                Ok(v) => Ok(v as int),
                Err(e) => Err(e@),
            },
            int8: match self.int8 {
                Ok(v) => Ok(v as int),
                Err(e) => Err(e@),
            },
            boolean: match self.boolean {
                Ok(b) => Ok(b),
                Err(e) => Err(e@),
            },
            text: match self.text {
                Ok(t) => Ok(t@),
                Err(e) => Err(e@),
            },
            bytes: match self.bytes {
                Ok(p) => Ok(p@),
                Err(e) => Err(e@),
            },
        }
    }
}

/// The models of a list of columns.
pub open spec fn column_views(columns: Seq<RawColumn>) -> Seq<ColumnView> {
    Seq::new(columns.len(), |i: int| columns[i]@)
}

/// The model of a result set: the models of the columns of each row.
pub open spec fn result_set_view(rows: Seq<Vec<RawColumn>>) -> Seq<Seq<ColumnView>> {
    Seq::new(rows.len(), |i: int| column_views(rows[i]@))
}

impl RawColumn {
    /// Whether the column holds no value.
    pub fn is_null(&self) -> (null: bool)
        ensures
            null == self@.is_null(),
    {
        self.type_is_null || self.value_is_null
    }

    /// The column's payload: what the read as bytes gives, or, where that
    /// read is refused, the bytes of the column's text.
    pub fn payload(&self) -> (payload: Result<&[u8], &String>)
        ensures
            match payload {
                Ok(p) => self@.payload() == Ok::<Seq<u8>, Seq<char>>(p@),
                Err(e) => self@.payload() == Err::<Seq<u8>, Seq<char>>(e@),
            },
    {
        match &self.bytes {
            Ok(p) => Ok(p.as_slice()),
            Err(_) => match &self.text {
                Ok(t) => Ok(t.as_str().as_bytes()),
                Err(e) => Err(e),
            },
        }
    }

    /// Whether the payload, if there is one, is short enough for its base64
    /// text to fit in memory.
    pub fn can_encode(&self) -> (fits: bool)
        ensures
            fits == self@.encodable(),
    {
        match self.payload() {
            Ok(p) => {
                let n = p.len();
                let groups = n / 3 + if n % 3 == 0 {
                    0
                } else {
                    1
                };
                groups <= (isize::MAX as usize) / 4
            },
            Err(_) => true,
        }
    }
}

/// Whether every column of a result set can be encoded.
pub fn rows_encodable(rows: &Vec<Vec<RawColumn>>) -> (fits: bool)
    ensures
        fits == forall|i: int, j: int|
            0 <= i < rows@.len() && 0 <= j < rows@[i]@.len() ==> (
            #[trigger] rows@[i]@[j])@.encodable(),
{
    let mut i: usize = 0;
    while i < rows.len()
        invariant
            i <= rows@.len(),
            forall|a: int, b: int|
                0 <= a < i && 0 <= b < rows@[a]@.len() ==> (#[trigger] rows@[a]@[b])@.encodable(),
        decreases rows@.len() - i,
    {
        let row = &rows[i];
        let mut j: usize = 0;
        while j < row.len()
            invariant
                i < rows@.len(),
                row@ == rows@[i as int]@,
                j <= row@.len(),
                forall|b: int| 0 <= b < j ==> (#[trigger] row@[b])@.encodable(),
            decreases row@.len() - j,
        {
            if !row[j].can_encode() {
                assert(!rows@[i as int]@[j as int]@.encodable());
                return false;
            }
            j += 1;
        }
        i += 1;
    }
    true
}

/// The model of a decoding's outcome.
pub open spec fn outcome_view(outcome: Result<CanonicalValue, Error>) -> Result<
    ValueView,
    ErrorView,
> {
    match outcome {
        Ok(v) => Ok(v@),
        Err(e) => Err(e@),
    }
}

/// Whether `text` spells a word, each letter in either case: `lower` and
/// `upper` hold the word's two spellings.
pub open spec fn spells(text: Seq<char>, lower: Seq<char>, upper: Seq<char>) -> bool {
    &&& text.len() == lower.len()
    &&& forall|i: int| 0 <= i < text.len() ==> text[i] == lower[i] || text[i] == upper[i]
}

/// The boolean that a text names, whatever its case.
pub open spec fn symbol_bool(text: Seq<char>) -> Option<bool> {
    if spells(text, "true"@, "TRUE"@) {
        Some(true)
    } else if spells(text, "false"@, "FALSE"@) {
        Some(false)
    } else {
        None
    }
}

/// What the integer cascade yields: the first of the reads at 64, 32, 16
/// and 8 bits that succeeded.
pub open spec fn cascade(column: ColumnView) -> Option<int> {
    if let Ok(v) = column.int64 {
        Some(v)
    } else if let Ok(v) = column.int32 {
        Some(v)
    } else if let Ok(v) = column.int16 {
        Some(v)
    } else if let Ok(v) = column.int8 {
        Some(v)
    } else {
        None
    }
}

/// What the read at one width gives.
pub open spec fn fixed_read(column: ColumnView, width: IntWidth) -> Result<int, Seq<char>> {
    match width {
        IntWidth::W8 => match column.int8 {
            Ok(v) => Ok(v),
            Err(e) => Err(e),
        },
        IntWidth::W16 => match column.int16 {
            Ok(v) => Ok(v),
            Err(e) => Err(e),
        },
        IntWidth::W32 => match column.int32 {
            Ok(v) => Ok(v),
            Err(e) => Err(e),
        },
        IntWidth::W64 => match column.int64 {
            Ok(v) => Ok(v),
            Err(e) => Err(e),
        },
    }
}

/// What a boolean column decodes to where the backend stores booleans as
/// integers or as symbols: the 8-bit integer read decides where it
/// succeeds, else the text read.
pub open spec fn decoded_int_or_symbol(column: ColumnView) -> Result<ValueView, ErrorView> {
    match column.int8 {
        Ok(v) => if v == 0 {
            Ok(ValueView::Bool(false))
        } else if v == 1 {
            Ok(ValueView::Bool(true))
        } else {
            Err(ErrorView::BooleanDecoding(BooleanSourceView::Integer(v), column.type_tag))
        },
        Err(_) => match column.text {
            Ok(s) => match symbol_bool(s) {
                Some(b) => Ok(ValueView::Bool(b)),
                None => Err(
                    ErrorView::BooleanDecoding(BooleanSourceView::Text(s), column.type_tag),
                ),
            },
            Err(_) => Err(
                ErrorView::BooleanDecoding(BooleanSourceView::Unreadable, column.type_tag),
            ),
        },
    }
}

/// What a column that is not null decodes to under a rule.
pub open spec fn decoded_by_rule(rule: DecodeRule, backend: Backend, column: ColumnView) -> Result<
    ValueView,
    ErrorView,
> {
    match rule {
        DecodeRule::StringDirect => match column.text {
            Ok(s) => Ok(ValueView::Text(s)),
            Err(e) => Err(ErrorView::Sql(e)),
        },
        DecodeRule::BytesBase64 => match column.payload() {
            Ok(p) => Ok(ValueView::Bytes(base64_text(p))),
            Err(e) => Err(ErrorView::Sql(e)),
        },
        DecodeRule::BoolDirect => match column.boolean {
            Ok(b) => Ok(ValueView::Bool(b)),
            Err(e) => Err(ErrorView::Sql(e)),
        },
        DecodeRule::BoolFromIntOrSymbol => decoded_int_or_symbol(column),
        DecodeRule::IntegerCascade | DecodeRule::NumericAsInteger => match cascade(column) {
            Some(v) => Ok(ValueView::Integer(v)),
            None => Err(ErrorView::NumericDecoding(column.type_tag, backend.name_spec())),
        },
        DecodeRule::IntegerFixed(width) => match fixed_read(column, width) {
            Ok(v) => Ok(ValueView::Integer(v)),
            Err(e) => Err(ErrorView::Sql(e)),
        },
    }
}

/// What a column decodes to in a dialect: `Null` where the column is null,
/// whatever its type, and where the dialect's table lacks its type name;
/// else what the rule of its type name gives.
pub open spec fn decoded(dialect: DialectView, column: ColumnView) -> Result<ValueView, ErrorView> {
    if column.is_null() {
        Ok(ValueView::Null)
    } else {
        match dialect.rule_for(column.type_tag) {
            None => Ok(ValueView::Null),
            Some(rule) => decoded_by_rule(rule, dialect.backend, column),
        }
    }
}

/// Whether `text` spells a word, each letter in either case.
fn spells_word(text: &str, lower: &str, upper: &str) -> (same: bool)
    requires
        lower@.len() == upper@.len(),
    ensures
        same == spells(text@, lower@, upper@),
{
    let n = lower.unicode_len();
    if text.unicode_len() != n {
        return false;
    }
    let mut i: usize = 0;
    while i < n
        invariant
            i <= n,
            n == text@.len(),
            n == lower@.len(),
            n == upper@.len(),
            forall|j: int| 0 <= j < i ==> text@[j] == lower@[j] || text@[j] == upper@[j],
        decreases n - i,
    {
        let c = text.get_char(i);
        if c != lower.get_char(i) && c != upper.get_char(i) {
            return false;
        }
        i += 1;
    }
    true
}

/// The boolean that a text names, whatever its case.
pub fn parse_symbol(text: &str) -> (named: Option<bool>)
    ensures
        named == symbol_bool(text@),
{
    proof {
        reveal_strlit("true");
        reveal_strlit("TRUE");
        reveal_strlit("false");
        reveal_strlit("FALSE");
    }
    if spells_word(text, "true", "TRUE") {
        Some(true)
    } else if spells_word(text, "false", "FALSE") {
        Some(false)
    } else {
        None
    }
}

/// Runs the integer cascade on a column.
pub fn read_cascade(column: &RawColumn) -> (value: Option<i64>)
    ensures
        match value {
            Some(v) => cascade(column@) == Some(v as int),
            None => cascade(column@) is None,
        },
{
    if let Ok(v) = &column.int64 {
        Some(*v)
    } else if let Ok(v) = &column.int32 {
        Some(*v as i64)
    } else if let Ok(v) = &column.int16 {
        Some(*v as i64)
    } else if let Ok(v) = &column.int8 {
        Some(*v as i64)
    } else {
        None
    }
}

/// Decodes a boolean that the backend stores as an integer or as a symbol.
pub fn decode_bool_from_int_or_symbol(column: &RawColumn) -> (outcome: Result<
    CanonicalValue,
    Error,
>)
    ensures
        outcome_view(outcome) == decoded_int_or_symbol(column@),
{
    match &column.int8 {
        Ok(v) => {
            if *v == 0 {
                Ok(CanonicalValue::Bool(false))
            } else if *v == 1 {
                Ok(CanonicalValue::Bool(true))
            } else {
                Err(Error::BooleanDecoding(BooleanSource::Integer(*v), column.type_tag.clone()))
            }
        },
        Err(_) => match &column.text {
            Ok(s) => match parse_symbol(s.as_str()) {
                Some(b) => Ok(CanonicalValue::Bool(b)),
                None => Err(
                    Error::BooleanDecoding(BooleanSource::Text(s.clone()), column.type_tag.clone()),
                ),
            },
            Err(_) => Err(
                Error::BooleanDecoding(BooleanSource::Unreadable, column.type_tag.clone()),
            ),
        },
    }
}

/// The canonical value of a binary payload, from its base64 text.
pub fn bytes_value(encoded: String) -> (value: CanonicalValue)
    ensures
        value@ == ValueView::Bytes(encoded@),
{
    CanonicalValue::Bytes(encoded)
}

/// Decodes a column that is not null under a rule.
pub fn decode_by_rule(rule: DecodeRule, backend: Backend, column: &RawColumn) -> (outcome: Result<
    CanonicalValue,
    Error,
>)
    requires
        column@.encodable(),
    ensures
        outcome_view(outcome) == decoded_by_rule(rule, backend, column@),
        outcome matches Ok(CanonicalValue::Bytes(text)) ==> column@.payload() matches Ok(p)
            && text@.len() == base64_length(p.len()),
{
    match rule {
        DecodeRule::StringDirect => match &column.text {
            Ok(s) => Ok(CanonicalValue::Text(s.clone())),
            Err(e) => Err(Error::Sql(e.clone())),
        },
        DecodeRule::BytesBase64 => match column.payload() {
            Ok(p) => Ok(bytes_value(encode_base64(p))),
            Err(e) => Err(Error::Sql(e.clone())),
        },
        DecodeRule::BoolDirect => match &column.boolean {
            Ok(b) => Ok(CanonicalValue::Bool(*b)),
            Err(e) => Err(Error::Sql(e.clone())),
        },
        DecodeRule::BoolFromIntOrSymbol => decode_bool_from_int_or_symbol(column),
        DecodeRule::IntegerCascade | DecodeRule::NumericAsInteger => match read_cascade(column) {
            Some(v) => Ok(CanonicalValue::Integer(v)),
            None => Err(
                Error::NumericDecoding(column.type_tag.clone(), backend.name().to_owned()),
            ),
        },
        DecodeRule::IntegerFixed(width) => {
            match width {
                IntWidth::W8 => match &column.int8 {
                    Ok(v) => Ok(CanonicalValue::Integer(*v as i64)),
                    Err(e) => Err(Error::Sql(e.clone())),
                },
                IntWidth::W16 => match &column.int16 {
                    Ok(v) => Ok(CanonicalValue::Integer(*v as i64)),
                    Err(e) => Err(Error::Sql(e.clone())),
                },
                IntWidth::W32 => match &column.int32 {
                    Ok(v) => Ok(CanonicalValue::Integer(*v as i64)),
                    Err(e) => Err(Error::Sql(e.clone())),
                },
                IntWidth::W64 => match &column.int64 {
                    Ok(v) => Ok(CanonicalValue::Integer(*v)),
                    Err(e) => Err(Error::Sql(e.clone())),
                },
            }
        },
    }
}

/// Decodes one column in a dialect.
pub fn deserialize_col(dialect: &Dialect, column: &RawColumn) -> (outcome: Result<
    CanonicalValue,
    Error,
>)
    requires
        column@.encodable(),
    ensures
        outcome_view(outcome) == decoded(dialect@, column@),
        outcome matches Ok(CanonicalValue::Bytes(text)) ==> column@.payload() matches Ok(p)
            && text@.len() == base64_length(p.len()),
{
    if column.is_null() {
        Ok(CanonicalValue::Null)
    } else {
        match dialect.rule_for(column.type_tag.as_str()) {
            None => Ok(CanonicalValue::Null),
            Some(rule) => decode_by_rule(rule, dialect.backend(), column),
        }
    }
}

/// Decodes one column in a dialect, unless its payload is too long to be
/// encoded: then nothing is decoded.
pub fn try_deserialize_col(dialect: &Dialect, column: &RawColumn) -> (outcome: Option<
    Result<CanonicalValue, Error>,
>)
    ensures
        match outcome {
            Some(decoding) => column@.encodable() && outcome_view(decoding) == decoded(
                dialect@,
                column@,
            ),
            None => !column@.encodable(),
        },
{
    if column.can_encode() {
        Some(deserialize_col(dialect, column))
    } else {
        None
    }
}

/// What the columns of one row decode to: the columns are decoded in order
/// and each value is stored under its column's name, a later value taking
/// the place of an earlier one of the same name. The first column that
/// fails gives the error, and no row.
pub open spec fn decoded_row(dialect: DialectView, columns: Seq<ColumnView>) -> Result<
    RowView,
    ErrorView,
>
    decreases columns.len(),
{
    if columns.len() == 0 {
        Ok(Seq::empty())
    } else {
        match decoded_row(dialect, columns.drop_last()) {
            Err(e) => Err(e),
            Ok(row) => match decoded(dialect, columns.last()) {
                Err(e) => Err(e),
                Ok(v) => Ok(inserted(row, columns.last().name, v)),
            },
        }
    }
}

/// The models of a list of rows.
pub open spec fn row_views(rows: Seq<Row>) -> Seq<RowView> {
    Seq::new(rows.len(), |i: int| rows[i]@)
}

/// What a result set decodes to: its rows in order. The first row that
/// fails gives the error, and no list.
pub open spec fn decoded_rows(dialect: DialectView, rows: Seq<Seq<ColumnView>>) -> Result<
    Seq<RowView>,
    ErrorView,
>
    decreases rows.len(),
{
    if rows.len() == 0 {
        Ok(Seq::empty())
    } else {
        match decoded_rows(dialect, rows.drop_last()) {
            Err(e) => Err(e),
            Ok(list) => match decoded_row(dialect, rows.last()) {
                Err(e) => Err(e),
                Ok(row) => Ok(list.push(row)),
            },
        }
    }
}

/// Decodes the columns of one row.
pub fn decode_row(dialect: &Dialect, columns: &Vec<RawColumn>) -> (outcome: Result<Row, Error>)
    requires
        forall|i: int| 0 <= i < columns@.len() ==> (#[trigger] columns@[i])@.encodable(),
    ensures
        match outcome {
            Ok(row) => decoded_row(dialect@, column_views(columns@)) == Ok::<RowView, ErrorView>(
                row@,
            ),
            Err(e) => decoded_row(dialect@, column_views(columns@)) == Err::<RowView, ErrorView>(
                e@,
            ),
        },
{
    let mut row = Row::new();
    let mut i: usize = 0;
    let ghost all = column_views(columns@);
    proof {
        assert(all.take(0) =~= Seq::<ColumnView>::empty());
    }
    while i < columns.len()
        invariant
            i <= columns@.len(),
            all == column_views(columns@),
            forall|k: int| 0 <= k < columns@.len() ==> (#[trigger] columns@[k])@.encodable(),
            decoded_row(dialect@, all.take(i as int)) == Ok::<RowView, ErrorView>(row@),
        decreases columns@.len() - i,
    {
        let column = &columns[i];
        proof {
            assert(all.take(i + 1).drop_last() =~= all.take(i as int));
            assert(all.take(i + 1).last() == columns@[i as int]@);
        }
        match deserialize_col(dialect, column) {
            Ok(value) => {
                row.insert(column.name.clone(), value);
            },
            Err(e) => {
                proof {
                    lemma_decoded_row_fails(dialect@, all, i + 1);
                }
                return Err(e);
            },
        }
        i += 1;
    }
    proof {
        assert(all.take(i as int) =~= all);
    }
    Ok(row)
}

/// A row whose first columns fail fails with the same error.
proof fn lemma_decoded_row_fails(dialect: DialectView, columns: Seq<ColumnView>, n: int)
    requires
        0 <= n <= columns.len(),
        decoded_row(dialect, columns.take(n)) is Err,
    ensures
        decoded_row(dialect, columns) == decoded_row(dialect, columns.take(n)),
    decreases columns.len() - n,
{
    if n < columns.len() {
        assert(columns.take(n + 1).drop_last() =~= columns.take(n));
        lemma_decoded_row_fails(dialect, columns, n + 1);
    } else {
        assert(columns.take(n) =~= columns);
    }
}

/// A result set whose first rows fail fails with the same error.
proof fn lemma_decoded_rows_fails(dialect: DialectView, rows: Seq<Seq<ColumnView>>, n: int)
    requires
        0 <= n <= rows.len(),
        decoded_rows(dialect, rows.take(n)) is Err,
    ensures
        decoded_rows(dialect, rows) == decoded_rows(dialect, rows.take(n)),
    decreases rows.len() - n,
{
    if n < rows.len() {
        assert(rows.take(n + 1).drop_last() =~= rows.take(n));
        lemma_decoded_rows_fails(dialect, rows, n + 1);
    } else {
        assert(rows.take(n) =~= rows);
    }
}

/// Decodes every row of a result set.
pub fn decode_rows(dialect: &Dialect, rows: &Vec<Vec<RawColumn>>) -> (outcome: Result<
    Vec<Row>,
    Error,
>)
    requires
        forall|i: int, j: int|
            0 <= i < rows@.len() && 0 <= j < rows@[i]@.len() ==> (
            #[trigger] rows@[i]@[j])@.encodable(),
    ensures
        match outcome {
            Ok(list) => decoded_rows(dialect@, result_set_view(rows@)) == Ok::<
                Seq<RowView>,
                ErrorView,
            >(row_views(list@)),
            Err(e) => decoded_rows(dialect@, result_set_view(rows@)) == Err::<
                Seq<RowView>,
                ErrorView,
            >(e@),
        },
{
    let mut list: Vec<Row> = Vec::new();
    let mut i: usize = 0;
    let ghost all = result_set_view(rows@);
    proof {
        assert(row_views(list@) =~= Seq::<RowView>::empty());
        assert(all.take(0) =~= Seq::<Seq<ColumnView>>::empty());
    }
    while i < rows.len()
        invariant
            i <= rows@.len(),
            all == result_set_view(rows@),
            forall|a: int, b: int|
                0 <= a < rows@.len() && 0 <= b < rows@[a]@.len() ==> (
                #[trigger] rows@[a]@[b])@.encodable(),
            decoded_rows(dialect@, all.take(i as int)) == Ok::<Seq<RowView>, ErrorView>(
                row_views(list@),
            ),
        decreases rows@.len() - i,
    {
        proof {
            assert(all.take(i + 1).drop_last() =~= all.take(i as int));
            assert(all.take(i + 1).last() == column_views(rows@[i as int]@));
        }
        match decode_row(dialect, &rows[i]) {
            Ok(row) => {
                proof {
                    assert(row_views(list@.push(row)) =~= row_views(list@).push(row@));
                }
                list.push(row);
            },
            Err(e) => {
                proof {
                    lemma_decoded_rows_fails(dialect@, all, i + 1);
                }
                return Err(e);
            },
        }
        i += 1;
    }
    proof {
        assert(all.take(i as int) =~= all);
    }
    Ok(list)
}

/// Decodes every row of a result set, unless a payload in it is too long
/// to be encoded: then nothing is decoded.
pub fn try_decode_rows(dialect: &Dialect, rows: &Vec<Vec<RawColumn>>) -> (outcome: Option<
    Result<Vec<Row>, Error>,
>)
    ensures
        match outcome {
            Some(Ok(list)) => decoded_rows(dialect@, result_set_view(rows@)) == Ok::<
                Seq<RowView>,
                ErrorView,
            >(row_views(list@)),
            Some(Err(e)) => decoded_rows(dialect@, result_set_view(rows@)) == Err::<
                Seq<RowView>,
                ErrorView,
            >(e@),
            None => true,
        },
        outcome is Some <==> forall|i: int, j: int|
            0 <= i < rows@.len() && 0 <= j < rows@[i]@.len() ==> (
            #[trigger] rows@[i]@[j])@.encodable(),
{
    if rows_encodable(rows) {
        Some(decode_rows(dialect, rows))
    } else {
        None
    }
}

/// In a decoded row no name occurs twice, and what is found under a
/// column's name is the value of the last column of that name.
pub proof fn lemma_last_column_of_a_name_wins(
    dialect: DialectView,
    columns: Seq<ColumnView>,
    last: int,
)
    requires
        decoded_row(dialect, columns) is Ok,
        0 <= last < columns.len(),
        forall|j: int| last < j < columns.len() ==> columns[j].name != columns[last].name,
    ensures
        distinct_keys(decoded_row(dialect, columns)->Ok_0),
        decoded(dialect, columns[last]) is Ok,
        lookup(decoded_row(dialect, columns)->Ok_0, columns[last].name) == Some(
            decoded(dialect, columns[last])->Ok_0,
        ),
    decreases columns.len(),
{
    lemma_decoded_row_distinct(dialect, columns);
    let front = columns.drop_last();
    lemma_decoded_row_distinct(dialect, front);
    let row = decoded_row(dialect, front)->Ok_0;
    let value = decoded(dialect, columns.last())->Ok_0;
    lemma_inserted(row, columns.last().name, value);
    if last < columns.len() - 1 {
        assert(columns[columns.len() - 1].name != columns[last].name);
        assert forall|j: int| last < j < front.len() implies front[j].name
            != front[last].name by {
            assert(front[j] == columns[j]);
        }
        lemma_last_column_of_a_name_wins(dialect, front, last);
    }
}

/// In a decoded row no name occurs twice.
proof fn lemma_decoded_row_distinct(dialect: DialectView, columns: Seq<ColumnView>)
    ensures
        decoded_row(dialect, columns) matches Ok(row) ==> distinct_keys(row),
    decreases columns.len(),
{
    if columns.len() > 0 {
        lemma_decoded_row_distinct(dialect, columns.drop_last());
        if let Ok(row) = decoded_row(dialect, columns.drop_last()) {
            if let Ok(v) = decoded(dialect, columns.last()) {
                lemma_inserted(row, columns.last().name, v);
            }
        }
    }
}

/// A null column decodes to `Null`, whatever type name it declares.
pub proof fn lemma_null_column_decodes_to_null(dialect: DialectView, column: ColumnView)
    requires
        column.is_null(),
    ensures
        decoded(dialect, column) == Ok::<ValueView, ErrorView>(ValueView::Null),
{
}

/// A column whose type name is an entry of the dialect's table, and which is
/// not null, decodes to a value of the kind that the entry's rule documents,
/// or fails.
pub proof fn lemma_entry_decodes_to_documented_kind(
    dialect: DialectView,
    column: ColumnView,
    entry: int,
)
    requires
        distinct_keys(dialect.types),
        0 <= entry < dialect.types.len(),
        column.type_tag == dialect.types[entry].0,
        !column.is_null(),
    ensures
        decoded(dialect, column) == decoded_by_rule(
            dialect.types[entry].1,
            dialect.backend,
            column,
        ),
        decoded(dialect, column) matches Ok(value) ==> value.kind()
            == dialect.types[entry].1.kind_spec(),
{
    lemma_position_unique(dialect.types, column.type_tag, entry);
}

/// A column whose type name the dialect's table lacks decodes to `Null`.
pub proof fn lemma_unmodeled_type_decodes_to_null(dialect: DialectView, column: ColumnView)
    requires
        !has_key(dialect.types, column.type_tag),
    ensures
        decoded(dialect, column) == Ok::<ValueView, ErrorView>(ValueView::Null),
{
}

} // verus!
