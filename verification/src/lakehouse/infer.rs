//! Column type inference over the leading records of a delimited file.
//!
//! Each column starts open to every type; each non-null cell rules out the
//! types it does not parse as. The narrowest type still open wins.
use vstd::prelude::*;
use vstd::utf8::encode_utf8;
use crate::lakehouse::sql::{safe_sql_name, sql_name};
use crate::lakehouse::types::{croissant_type_name, spark_type_name, LakehouseDataType, TypedColumn};
use crate::text::{
    cat, chars_of, decimal, is_ascii_digit, lower, owned, replace_char, replace_char_with, str_eq,
    to_ascii_lowercase, trim, trim_str, u64_to_string,
};

verus! {

/// How many records of a file inference reads.
pub const INFERENCE_RECORDS: usize = 5000;

/// Texts that stand for a missing value.
pub open spec fn is_null_text(v: Seq<char>) -> bool {
    v.len() == 0 || v == "."@ || v == "NA"@ || v == "N/A"@ || v == "null"@ || v == "NULL"@
}

/// What one cell contributes: `None` for a null, else its trimmed text.
pub open spec fn observation(cell: Seq<char>) -> Option<Seq<char>> {
    if is_null_text(trim(cell)) {
        None
    } else {
        Some(trim(cell))
    }
}

/// Boolean words, in any ASCII case.
pub open spec fn is_bool_text(v: Seq<char>) -> bool {
    let l = lower(v);
    l == "true"@ || l == "false"@ || l == "yes"@ || l == "no"@ || l == "0"@ || l == "1"@
}

/// The value of a sequence of decimal digits.
pub open spec fn digits_value(d: Seq<char>) -> int
    decreases d.len(),
{
    if d.len() == 0 {
        0
    } else {
        digits_value(d.drop_last()) * 10 + (d.last() as int - '0' as int)
    }
}

/// One or more ASCII digits.
pub open spec fn all_digits(d: Seq<char>) -> bool {
    d.len() > 0 && forall|i: int| 0 <= i < d.len() ==> is_ascii_digit(#[trigger] d[i])
}

/// `i64::from_str`: an optional sign and one or more digits, within range.
pub open spec fn i64_text_value(s: Seq<char>) -> Option<int> {
    let neg = s.len() > 0 && s[0] == '-';
    let digits = if s.len() > 0 && (s[0] == '-' || s[0] == '+') {
        s.drop_first()
    } else {
        s
    };
    let v = if neg {
        -digits_value(digits)
    } else {
        digits_value(digits)
    };
    if all_digits(digits) && i64::MIN <= v <= i64::MAX {
        Some(v)
    } else {
        None
    }
}

/// A text without its `,` characters.
pub open spec fn without_commas(s: Seq<char>) -> Seq<char> {
    replace_char(s, ',', Seq::empty())
}

/// `parse_int`: the integer a text denotes once its `,` are dropped.
pub open spec fn int_value(s: Seq<char>) -> Option<int> {
    i64_text_value(without_commas(s))
}

/// The digits of a decimal float: `d`, `d.`, `d.d` or `.d`.
#[verifier::opaque]
pub open spec fn is_float_mantissa(m: Seq<char>) -> bool {
    match crate::text::split_once(m, '.') {
        None => all_digits(m),
        Some(p) => (all_digits(p.0) && (p.1.len() == 0 || all_digits(p.1))) || (p.0.len() == 0
            && all_digits(p.1)),
    }
}

/// An exponent: `e` or `E`, an optional sign and digits.
#[verifier::opaque]
pub open spec fn is_float_exponent(e: Seq<char>) -> bool {
    e.len() >= 2 && (e[0] == 'e' || e[0] == 'E') && if e[1] == '+' || e[1] == '-' {
        all_digits(e.subrange(2, e.len() as int))
    } else {
        all_digits(e.drop_first())
    }
}

/// The unsigned forms that `f64::from_str` accepts: `inf`, `infinity` and
/// `nan` in any ASCII case, or a decimal mantissa with an optional exponent.
pub open spec fn is_unsigned_float(s: Seq<char>) -> bool {
    let l = lower(s);
    l == "inf"@ || l == "infinity"@ || l == "nan"@ || is_float_mantissa(s) || has_exponent_split(s)
}

/// A mantissa followed by an exponent.
pub open spec fn has_exponent_split(s: Seq<char>) -> bool {
    exists|k: int|
        0 <= k < s.len() && is_float_mantissa(s.subrange(0, k)) && is_float_exponent(
            #[trigger] s.subrange(k, s.len() as int),
        )
}

/// `f64::from_str` succeeds: an optional sign and an unsigned form.
pub open spec fn is_float_text(s: Seq<char>) -> bool {
    if s.len() > 0 && (s[0] == '+' || s[0] == '-') {
        is_unsigned_float(s.drop_first())
    } else {
        is_unsigned_float(s)
    }
}

/// `parse_float` succeeds once the `,` are dropped.
pub open spec fn parses_as_float(s: Seq<char>) -> bool {
    is_float_text(without_commas(s))
}

/// `YYYY-MM-DD`: ten bytes, dashes at offsets 4 and 7, digits elsewhere.
pub open spec fn is_date_text(s: Seq<char>) -> bool {
    let b = encode_utf8(s);
    b.len() == 10 && b[4] == 45 && b[7] == 45 && forall|i: int|
        0 <= i < 10 && i != 4 && i != 7 ==> 48 <= #[trigger] b[i] <= 57
}

/// A `T` and at least nineteen bytes.
pub open spec fn is_timestamp_text(s: Seq<char>) -> bool {
    s.contains('T') && encode_utf8(s).len() >= 19
}

/// A value parses as the given type; any value is text.
pub open spec fn value_is(kind: LakehouseDataType, v: Seq<char>) -> bool {
    match kind {
        LakehouseDataType::Boolean => is_bool_text(v),
        LakehouseDataType::Int64 => int_value(v) is Some,
        LakehouseDataType::Float64 => parses_as_float(v),
        LakehouseDataType::Date => is_date_text(v),
        LakehouseDataType::Timestamp => is_timestamp_text(v),
        LakehouseDataType::String => true,
    }
}

/// Every value observed parses as the given type.
pub open spec fn all_values(h: Seq<Option<Seq<char>>>, kind: LakehouseDataType) -> bool {
    forall|i: int| 0 <= i < h.len() ==> (#[trigger] h[i] matches Some(v) ==> value_is(kind, v))
}

/// Some observation is a value.
pub open spec fn has_value(h: Seq<Option<Seq<char>>>) -> bool {
    exists|i: int| 0 <= i < h.len() && #[trigger] h[i] is Some
}

/// Some observation is a null.
pub open spec fn has_null(h: Seq<Option<Seq<char>>>) -> bool {
    exists|i: int| 0 <= i < h.len() && #[trigger] h[i] is None
}

/// The type inferred from a column's observations: the first of boolean,
/// integer, float, date and timestamp that every value parses as, or text.
pub open spec fn inferred_type(h: Seq<Option<Seq<char>>>) -> LakehouseDataType {
    if !has_value(h) {
        LakehouseDataType::String
    } else if all_values(h, LakehouseDataType::Boolean) {
        LakehouseDataType::Boolean
    } else if all_values(h, LakehouseDataType::Int64) {
        LakehouseDataType::Int64
    } else if all_values(h, LakehouseDataType::Float64) {
        LakehouseDataType::Float64
    } else if all_values(h, LakehouseDataType::Date) {
        LakehouseDataType::Date
    } else if all_values(h, LakehouseDataType::Timestamp) {
        LakehouseDataType::Timestamp
    } else {
        LakehouseDataType::String
    }
}

/// Inference is sound and takes the narrowest type: a column is typed
/// other than text only when it has a value and every value parses as that
/// type, and a type every value parses as is never passed over for a later
/// one (boolean, then integer, float, date, timestamp).
pub proof fn law_inferred_type_sound(h: Seq<Option<Seq<char>>>)
    ensures
        inferred_type(h) != LakehouseDataType::String ==> has_value(h) && all_values(h, inferred_type(h)),
        has_value(h) && all_values(h, LakehouseDataType::Boolean) ==> inferred_type(h)
            == LakehouseDataType::Boolean,
        has_value(h) && all_values(h, LakehouseDataType::Int64) ==> inferred_type(h)
            == LakehouseDataType::Boolean || inferred_type(h) == LakehouseDataType::Int64,
        has_value(h) && all_values(h, LakehouseDataType::Float64) ==> inferred_type(h)
            != LakehouseDataType::Date && inferred_type(h) != LakehouseDataType::Timestamp
            && inferred_type(h) != LakehouseDataType::String,
        !has_value(h) ==> inferred_type(h) == LakehouseDataType::String,
{
}

/// The Spark type a column is cast to and the schema.org type it is
/// described with are each one of Spark's and schema.org's types for
/// booleans, 64-bit integers, doubles, dates, timestamps (with their time
/// of day) and text, and each names exactly the values that its column
/// type admits.
pub proof fn law_type_names_follow_values(t: LakehouseDataType, v: Seq<char>)
    ensures
        spark_type_name(t) == "BOOLEAN"@ || spark_type_name(t) == "BIGINT"@ || spark_type_name(t) == "DOUBLE"@ || spark_type_name(t) == "DATE"@ || spark_type_name(t) == "TIMESTAMP"@ || spark_type_name(t) == "STRING"@,
        croissant_type_name(t) == "sc:Boolean"@ || croissant_type_name(t) == "sc:Integer"@ || croissant_type_name(t) == "sc:Float"@ || croissant_type_name(t) == "sc:Date"@ || croissant_type_name(t) == "sc:DateTime"@ || croissant_type_name(t) == "sc:Text"@,
        spark_type_name(t) == "BOOLEAN"@ ==> (value_is(t, v) <==> is_bool_text(v)),
        spark_type_name(t) == "BIGINT"@ ==> (value_is(t, v) <==> int_value(v) is Some),
        spark_type_name(t) == "DOUBLE"@ ==> (value_is(t, v) <==> parses_as_float(v)),
        spark_type_name(t) == "DATE"@ ==> (value_is(t, v) <==> is_date_text(v)),
        spark_type_name(t) == "TIMESTAMP"@ ==> (value_is(t, v) <==> is_timestamp_text(v)),
        spark_type_name(t) == "STRING"@ ==> value_is(t, v),
        croissant_type_name(t) == "sc:Boolean"@ ==> (value_is(t, v) <==> is_bool_text(v)),
        croissant_type_name(t) == "sc:Integer"@ ==> (value_is(t, v) <==> int_value(v) is Some),
        croissant_type_name(t) == "sc:Float"@ ==> (value_is(t, v) <==> parses_as_float(v)),
        croissant_type_name(t) == "sc:Date"@ ==> (value_is(t, v) <==> is_date_text(v)),
        croissant_type_name(t) == "sc:DateTime"@ ==> (value_is(t, v) <==> is_timestamp_text(v)),
        croissant_type_name(t) == "sc:Text"@ ==> value_is(t, v),
{
    reveal_strlit("BOOLEAN");
    reveal_strlit("BIGINT");
    reveal_strlit("DOUBLE");
    reveal_strlit("DATE");
    reveal_strlit("TIMESTAMP");
    reveal_strlit("STRING");
    reveal_strlit("sc:Boolean");
    reveal_strlit("sc:Integer");
    reveal_strlit("sc:Float");
    reveal_strlit("sc:Date");
    reveal_strlit("sc:DateTime");
    reveal_strlit("sc:Text");
    assert("BOOLEAN"@.len() != "BIGINT"@.len());
    assert("BOOLEAN"@.len() != "DOUBLE"@.len());
    assert("BOOLEAN"@.len() != "DATE"@.len());
    assert("BOOLEAN"@.len() != "TIMESTAMP"@.len());
    assert("BOOLEAN"@.len() != "STRING"@.len());
    assert("BIGINT"@[0] != "DOUBLE"@[0]);
    assert("BIGINT"@.len() != "DATE"@.len());
    assert("BIGINT"@.len() != "TIMESTAMP"@.len());
    assert("BIGINT"@[0] != "STRING"@[0]);
    assert("DOUBLE"@.len() != "DATE"@.len());
    assert("DOUBLE"@.len() != "TIMESTAMP"@.len());
    assert("DOUBLE"@[0] != "STRING"@[0]);
    assert("DATE"@.len() != "TIMESTAMP"@.len());
    assert("DATE"@.len() != "STRING"@.len());
    assert("TIMESTAMP"@.len() != "STRING"@.len());
    assert("sc:Boolean"@[3] != "sc:Integer"@[3]);
    assert("sc:Boolean"@.len() != "sc:Float"@.len());
    assert("sc:Boolean"@.len() != "sc:Date"@.len());
    assert("sc:Boolean"@.len() != "sc:DateTime"@.len());
    assert("sc:Boolean"@.len() != "sc:Text"@.len());
    assert("sc:Integer"@.len() != "sc:Float"@.len());
    assert("sc:Integer"@.len() != "sc:Date"@.len());
    assert("sc:Integer"@.len() != "sc:DateTime"@.len());
    assert("sc:Integer"@.len() != "sc:Text"@.len());
    assert("sc:Float"@.len() != "sc:Date"@.len());
    assert("sc:Float"@.len() != "sc:DateTime"@.len());
    assert("sc:Float"@.len() != "sc:Text"@.len());
    assert("sc:Date"@.len() != "sc:DateTime"@.len());
    assert("sc:Date"@[3] != "sc:Text"@[3]);
    assert("sc:DateTime"@.len() != "sc:Text"@.len());
}

/// Different column types are cast to different Spark types and described
/// with different schema.org types.
pub proof fn law_type_names_distinct(t: LakehouseDataType, u: LakehouseDataType)
    ensures
        t != u ==> spark_type_name(t) != spark_type_name(u),
        t != u ==> croissant_type_name(t) != croissant_type_name(u),
{
    reveal_strlit("BOOLEAN");
    reveal_strlit("BIGINT");
    reveal_strlit("DOUBLE");
    reveal_strlit("DATE");
    reveal_strlit("TIMESTAMP");
    reveal_strlit("STRING");
    reveal_strlit("sc:Boolean");
    reveal_strlit("sc:Integer");
    reveal_strlit("sc:Float");
    reveal_strlit("sc:Date");
    reveal_strlit("sc:DateTime");
    reveal_strlit("sc:Text");
    assert("BOOLEAN"@.len() != "BIGINT"@.len());
    assert("BOOLEAN"@.len() != "DOUBLE"@.len());
    assert("BOOLEAN"@.len() != "DATE"@.len());
    assert("BOOLEAN"@.len() != "TIMESTAMP"@.len());
    assert("BOOLEAN"@.len() != "STRING"@.len());
    assert("BIGINT"@[0] != "DOUBLE"@[0]);
    assert("BIGINT"@.len() != "DATE"@.len());
    assert("BIGINT"@.len() != "TIMESTAMP"@.len());
    assert("BIGINT"@[0] != "STRING"@[0]);
    assert("DOUBLE"@.len() != "DATE"@.len());
    assert("DOUBLE"@.len() != "TIMESTAMP"@.len());
    assert("DOUBLE"@[0] != "STRING"@[0]);
    assert("DATE"@.len() != "TIMESTAMP"@.len());
    assert("DATE"@.len() != "STRING"@.len());
    assert("TIMESTAMP"@.len() != "STRING"@.len());
    assert("sc:Boolean"@[3] != "sc:Integer"@[3]);
    assert("sc:Boolean"@.len() != "sc:Float"@.len());
    assert("sc:Boolean"@.len() != "sc:Date"@.len());
    assert("sc:Boolean"@.len() != "sc:DateTime"@.len());
    assert("sc:Boolean"@.len() != "sc:Text"@.len());
    assert("sc:Integer"@.len() != "sc:Float"@.len());
    assert("sc:Integer"@.len() != "sc:Date"@.len());
    assert("sc:Integer"@.len() != "sc:DateTime"@.len());
    assert("sc:Integer"@.len() != "sc:Text"@.len());
    assert("sc:Float"@.len() != "sc:Date"@.len());
    assert("sc:Float"@.len() != "sc:DateTime"@.len());
    assert("sc:Float"@.len() != "sc:Text"@.len());
    assert("sc:Date"@.len() != "sc:DateTime"@.len());
    assert("sc:Date"@[3] != "sc:Text"@[3]);
    assert("sc:DateTime"@.len() != "sc:Text"@.len());
}

/// The SQL name of a column: its header made safe, or `column_<index>`.
pub open spec fn column_name(header: Seq<char>, index: nat) -> Seq<char> {
    if sql_name(header).len() == 0 {
        "column_"@ + decimal(index)
    } else {
        sql_name(header)
    }
}

/// Observing a value: it is a value, nulls are unchanged, and each type
/// stays open only if the value parses as it.
pub proof fn lemma_observe_value(h: Seq<Option<Seq<char>>>, x: Seq<char>)
    ensures
        has_value(h.push(Some(x))),
        has_null(h.push(Some(x))) == has_null(h),
        forall|kind: LakehouseDataType|
            #[trigger] all_values(h.push(Some(x)), kind) == (all_values(h, kind) && value_is(kind, x)),
{
    let h2 = h.push(Some(x));
    assert(h2[h.len() as int] is Some);
    if has_null(h) {
        let i = choose|i: int| 0 <= i < h.len() && #[trigger] h[i] is None;
        assert(h2[i] == h[i]);
    }
    if has_null(h2) {
        let i = choose|i: int| 0 <= i < h2.len() && #[trigger] h2[i] is None;
        assert(h2[i] == h[i]);
    }
    assert forall|kind: LakehouseDataType|
        #[trigger] all_values(h2, kind) == (all_values(h, kind) && value_is(kind, x)) by {
        if all_values(h2, kind) {
            assert forall|i: int| 0 <= i < h.len() implies (#[trigger] h[i] matches Some(v)
                ==> value_is(kind, v)) by {
                assert(h2[i] == h[i]);
            }
            assert(h2[h.len() as int] == Some(x));
        }
        if all_values(h, kind) && value_is(kind, x) {
            assert forall|i: int| 0 <= i < h2.len() implies (#[trigger] h2[i] matches Some(v)
                ==> value_is(kind, v)) by {
                if i < h.len() {
                    assert(h2[i] == h[i]);
                }
            }
        }
    }
}

/// Observing a null: it is a null, and nothing else changes.
pub proof fn lemma_observe_null(h: Seq<Option<Seq<char>>>)
    ensures
        has_null(h.push(None)),
        has_value(h.push(None)) == has_value(h),
        forall|kind: LakehouseDataType| #[trigger] all_values(h.push(None), kind) == all_values(h, kind),
{
    let h2 = h.push(None::<Seq<char>>);
    assert(h2[h.len() as int] is None);
    if has_value(h) {
        let i = choose|i: int| 0 <= i < h.len() && #[trigger] h[i] is Some;
        assert(h2[i] == h[i]);
    }
    if has_value(h2) {
        let i = choose|i: int| 0 <= i < h2.len() && #[trigger] h2[i] is Some;
        assert(h2[i] == h[i]);
    }
    assert forall|kind: LakehouseDataType| #[trigger] all_values(h2, kind) == all_values(h, kind) by {
        if all_values(h2, kind) {
            assert forall|i: int| 0 <= i < h.len() implies (#[trigger] h[i] matches Some(v)
                ==> value_is(kind, v)) by {
                assert(h2[i] == h[i]);
            }
        }
        if all_values(h, kind) {
            assert forall|i: int| 0 <= i < h2.len() implies (#[trigger] h2[i] matches Some(v)
                ==> value_is(kind, v)) by {
                if i < h.len() {
                    assert(h2[i] == h[i]);
                }
            }
        }
    }
}

/// The state of inference for one column.
pub struct ColumnInference {
    source_name: String,
    name: String,
    nullable: bool,
    saw_value: bool,
    boolean_ok: bool,
    int_ok: bool,
    float_ok: bool,
    date_ok: bool,
    timestamp_ok: bool,
    history: Ghost<Seq<Option<Seq<char>>>>,
}

impl ColumnInference {
    /// The observations so far, in order.
    pub closed spec fn observed(&self) -> Seq<Option<Seq<char>>> {
        self.history@
    }

    /// The header the column came from.
    pub closed spec fn source_name_spec(&self) -> Seq<char> {
        self.source_name@
    }

    /// The column's SQL name.
    pub closed spec fn name_spec(&self) -> Seq<char> {
        self.name@
    }

    /// The flags summarize the observations.
    pub closed spec fn wf(&self) -> bool {
        let h = self.history@;
        &&& self.nullable == has_null(h)
        &&& self.saw_value == has_value(h)
        &&& self.boolean_ok == all_values(h, LakehouseDataType::Boolean)
        &&& self.int_ok == all_values(h, LakehouseDataType::Int64)
        &&& self.float_ok == all_values(h, LakehouseDataType::Float64)
        &&& self.date_ok == all_values(h, LakehouseDataType::Date)
        &&& self.timestamp_ok == all_values(h, LakehouseDataType::Timestamp)
    }

    /// A column with no observations, named after its header or, where the
    /// header has no usable character, after its position.
    pub fn new(source_name: &str, index: usize) -> (r: ColumnInference)
        ensures
            r.wf(),
            r.observed() == Seq::<Option<Seq<char>>>::empty(),
            r.source_name_spec() == source_name@,
            r.name_spec() == column_name(source_name@, index as nat),
    {
        let mut name = safe_sql_name(source_name);
        proof {
            reveal_strlit("");
        }
        if str_eq(name.as_str(), "") {
            let digits = u64_to_string(index as u64);
            name = cat("column_", digits.as_str());
        } else {
            assert(name@.len() != 0) by {
                if name@.len() == 0 {
                    assert(name@ =~= ""@);
                }
            }
        }
        ColumnInference {
            source_name: owned(source_name),
            name,
            nullable: false,
            saw_value: false,
            boolean_ok: true,
            int_ok: true,
            float_ok: true,
            date_ok: true,
            timestamp_ok: true,
            history: Ghost(Seq::empty()),
        }
    }

    /// Records one cell: a null marks the column nullable, a value rules
    /// out the types it does not parse as.
    pub fn observe(&mut self, value: &str)
        requires
            old(self).wf(),
        ensures
            final(self).wf(),
            final(self).observed() == old(self).observed().push(observation(value@)),
            final(self).source_name_spec() == old(self).source_name_spec(),
            final(self).name_spec() == old(self).name_spec(),
    {
        let trimmed = trim_str(value);
        let ghost h = self.history@;
        let ghost h2 = h.push(observation(value@));
        if is_null_value(trimmed.as_str()) {
            self.nullable = true;
            self.history = Ghost(h2);
            proof {
                lemma_observe_null(h);
            }
            return;
        }
        let b = is_bool(trimmed.as_str());
        let n = parse_int(trimmed.as_str()).is_some();
        let f = parse_float(trimmed.as_str());
        let d = looks_like_date(trimmed.as_str());
        let t = looks_like_timestamp(trimmed.as_str());
        self.saw_value = true;
        self.boolean_ok = self.boolean_ok && b;
        self.int_ok = self.int_ok && n;
        self.float_ok = self.float_ok && f;
        self.date_ok = self.date_ok && d;
        self.timestamp_ok = self.timestamp_ok && t;
        self.history = Ghost(h2);
        proof {
            lemma_observe_value(h, trimmed@);
            assert(all_values(h2, LakehouseDataType::Boolean) == (self.boolean_ok));
            assert(all_values(h2, LakehouseDataType::Int64) == (self.int_ok));
            assert(all_values(h2, LakehouseDataType::Float64) == (self.float_ok));
            assert(all_values(h2, LakehouseDataType::Date) == (self.date_ok));
            assert(all_values(h2, LakehouseDataType::Timestamp) == (self.timestamp_ok));
        }
    }

    /// The column's type and nullability.
    pub fn finish(self) -> (r: TypedColumn)
        requires
            self.wf(),
        ensures
            r.source_name@ == self.source_name_spec(),
            r.name@ == self.name_spec(),
            r.data_type == inferred_type(self.observed()),
            r.nullable == has_null(self.observed()),
    {
        let data_type = if !self.saw_value {
            LakehouseDataType::String
        } else if self.boolean_ok {
            LakehouseDataType::Boolean
        } else if self.int_ok {
            LakehouseDataType::Int64
        } else if self.float_ok {
            LakehouseDataType::Float64
        } else if self.date_ok {
            LakehouseDataType::Date
        } else if self.timestamp_ok {
            LakehouseDataType::Timestamp
        } else {
            LakehouseDataType::String
        };
        TypedColumn {
            source_name: self.source_name,
            name: self.name,
            data_type,
            nullable: self.nullable,
        }
    }
}

/// The text of a record's cell, or the empty text past its end.
pub open spec fn cell(record: Seq<String>, index: int) -> Seq<char> {
    if 0 <= index < record.len() {
        record[index]@
    } else {
        Seq::empty()
    }
}

/// What the records contribute to one column.
pub open spec fn column_observations(records: Seq<Vec<String>>, index: int) -> Seq<
    Option<Seq<char>>,
> {
    records.map_values(|r: Vec<String>| observation(cell(r@, index)))
}

/// The records that inference reads: at most the first 5000.
pub open spec fn inference_window(records: Seq<Vec<String>>) -> Seq<Vec<String>> {
    if records.len() <= INFERENCE_RECORDS {
        records
    } else {
        records.take(INFERENCE_RECORDS as int)
    }
}

/// Infers the typed columns of a delimited file from its header and its
/// leading records, once they are read: one column per header, typed by the
/// first 5000 records; a short record leaves its missing cells empty.
pub fn infer_columns(headers: &Vec<String>, records: &Vec<Vec<String>>) -> (r: Vec<TypedColumn>)
    requires
        headers@.len() <= usize::MAX,
    ensures
        r@.len() == headers@.len(),
        forall|i: int|
            0 <= i < headers@.len() ==> {
                let h = column_observations(inference_window(records@), i);
                &&& (#[trigger] r@[i]).source_name@ == headers@[i]@
                &&& r@[i].name@ == column_name(headers@[i]@, i as nat)
                &&& r@[i].data_type == inferred_type(h)
                &&& r@[i].nullable == has_null(h)
            },
{
    let limit = if records.len() <= INFERENCE_RECORDS {
        records.len()
    } else {
        INFERENCE_RECORDS
    };
    let ghost window = inference_window(records@);
    assert(window =~= records@.take(limit as int));
    let mut out: Vec<TypedColumn> = Vec::new();
    for i in 0..headers.len()
        invariant
            out@.len() == i,
            limit <= records@.len(),
            window == records@.take(limit as int),
            window == inference_window(records@),
            forall|j: int|
                0 <= j < i ==> {
                    let h = column_observations(window, j);
                    &&& (#[trigger] out@[j]).source_name@ == headers@[j]@
                    &&& out@[j].name@ == column_name(headers@[j]@, j as nat)
                    &&& out@[j].data_type == inferred_type(h)
                    &&& out@[j].nullable == has_null(h)
                },
    {
        let mut state = ColumnInference::new(headers[i].as_str(), i);
        for k in 0..limit
            invariant
                state.wf(),
                limit <= records@.len(),
                state.observed() == column_observations(records@.take(k as int), i as int),
                state.source_name_spec() == headers@[i as int]@,
                state.name_spec() == column_name(headers@[i as int]@, i as nat),
        {
            let record = &records[k];
            proof {
                reveal_strlit("");
            }
            if i < record.len() {
                state.observe(record[i].as_str());
            } else {
                state.observe("");
                assert(""@ =~= cell(record@, i as int));
            }
            assert(column_observations(records@.take(k + 1), i as int) =~= column_observations(
                records@.take(k as int),
                i as int,
            ).push(observation(cell(records@[k as int]@, i as int))));
        }
        assert(column_observations(records@.take(limit as int), i as int) == column_observations(
            window,
            i as int,
        ));
        out.push(state.finish());
    }
    out
}

/// Whether a trimmed cell stands for a missing value.
fn is_null_value(v: &str) -> (r: bool)
    ensures
        r == is_null_text(v@),
{
    proof {
        reveal_strlit("");
        assert(v@.len() == 0 <==> v@ =~= ""@);
    }
    str_eq(v, "") || str_eq(v, ".") || str_eq(v, "NA") || str_eq(v, "N/A") || str_eq(v, "null")
        || str_eq(v, "NULL")
}

/// Boolean words, in any ASCII case.
pub fn is_bool(value: &str) -> (r: bool)
    ensures
        r == is_bool_text(value@),
{
    let l = to_ascii_lowercase(value);
    let l = l.as_str();
    str_eq(l, "true") || str_eq(l, "false") || str_eq(l, "yes") || str_eq(l, "no") || str_eq(l, "0")
        || str_eq(l, "1")
}

/// A longer prefix of digits has a value at least as large.
pub proof fn lemma_digits_monotone(d: Seq<char>, k: int)
    requires
        0 <= k <= d.len(),
        forall|i: int| 0 <= i < d.len() ==> is_ascii_digit(#[trigger] d[i]),
    ensures
        0 <= digits_value(d.take(k)) <= digits_value(d),
    decreases d.len(),
{
    if d.len() == 0 {
        assert(d.take(k) =~= d);
    } else if k == d.len() {
        assert(d.take(k) =~= d);
        lemma_digits_monotone(d.drop_last(), k - 1);
    } else {
        lemma_digits_monotone(d.drop_last(), k);
        assert(d.drop_last().take(k) =~= d.take(k));
        lemma_digits_monotone(d.drop_last(), 0);
    }
}

/// Parses optional sign and digits as `i64::from_str` does.
fn parse_i64_chars(s: &Vec<char>) -> (r: Option<i64>)
    ensures
        match r {
            Some(n) => i64_text_value(s@) == Some(n as int),
            None => i64_text_value(s@) is None,
        },
{
    let n = s.len();
    let neg = n > 0 && s[0] == '-';
    let start: usize = if n > 0 && (s[0] == '-' || s[0] == '+') {
        1
    } else {
        0
    };
    let ghost digits = s@.subrange(start as int, n as int);
    assert(start == 1 ==> digits =~= s@.drop_first());
    assert(start == 0 ==> digits =~= s@);
    if start == n {
        assert(digits.len() == 0);
        return None;
    }
    let mut i = start;
    while i < n
        invariant
            start <= i <= n,
            n == s@.len(),
            digits == s@.subrange(start as int, n as int),
            start == 1 <==> (n > 0 && (s@[0] == '-' || s@[0] == '+')),
            start <= 1,
            start == 1 ==> digits == s@.drop_first(),
            start == 0 ==> digits == s@,
            neg == (n > 0 && s@[0] == '-'),
            forall|j: int| start <= j < i ==> is_ascii_digit(#[trigger] s@[j]),
        decreases n - i,
    {
        if !('0' <= s[i] && s[i] <= '9') {
            assert(digits[i - start] == s@[i as int]);
            assert(!is_ascii_digit(digits[i - start]));
            return None;
        }
        i = i + 1;
    }
    assert forall|j: int| 0 <= j < digits.len() implies is_ascii_digit(#[trigger] digits[j]) by {
        assert(digits[j] == s@[start + j]);
    }
    let limit: u64 = 9223372036854775808;
    let mut acc: u64 = 0;
    let mut k = start;
    while k < n
        invariant
            start <= k <= n,
            n == s@.len(),
            digits == s@.subrange(start as int, n as int),
            start == 1 <==> (n > 0 && (s@[0] == '-' || s@[0] == '+')),
            start <= 1,
            start == 1 ==> digits == s@.drop_first(),
            start == 0 ==> digits == s@,
            neg == (n > 0 && s@[0] == '-'),
            all_digits(digits),
            acc as int == digits_value(digits.take(k - start)),
            acc <= limit,
            limit == 9223372036854775808u64,
        decreases n - k,
    {
        assert(digits[k - start] == s@[k as int]);
        assert(is_ascii_digit(digits[k - start]));
        let dv = (s[k] as u32 - '0' as u32) as u64;
        assert(digits.take(k + 1 - start).drop_last() =~= digits.take(k - start));
        if acc > (limit - dv) / 10 {
            proof {
                let t = digits.take(k + 1 - start);
                assert(t.last() == digits[k - start]);
                assert(digits_value(t) == digits_value(t.drop_last()) * 10 + (t.last() as int - '0' as int));
                assert(digits_value(digits.take(k + 1 - start)) == acc * 10 + dv);
                assert(acc * 10 + dv > limit) by (nonlinear_arith)
                    requires
                        acc > (limit - dv) / 10,
                        dv <= 9,
                        limit == 9223372036854775808u64,
                ;
                lemma_digits_monotone(digits, k + 1 - start);
            }
            return None;
        }
        assert(acc * 10 + dv <= limit) by (nonlinear_arith)
            requires
                acc <= (limit - dv) / 10,
                dv <= 9,
                limit == 9223372036854775808u64,
        ;
        proof {
            let t = digits.take(k + 1 - start);
            assert(t.last() == digits[k - start]);
            assert(digits_value(t) == digits_value(t.drop_last()) * 10 + (t.last() as int - '0' as int));
        }
        acc = acc * 10 + dv;
        k = k + 1;
    }
    assert(digits.take(n - start) =~= digits);
    if neg {
        if acc == limit {
            Some(-9223372036854775807i64 - 1)
        } else {
            Some(-(acc as i64))
        }
    } else {
        if acc == limit {
            None
        } else {
            Some(acc as i64)
        }
    }
}

/// `parse_int`: the value of a text once its `,` are dropped.
pub fn parse_int(value: &str) -> (r: Option<i64>)
    ensures
        match r {
            Some(n) => int_value(value@) == Some(n as int),
            None => int_value(value@) is None,
        },
{
    let cleaned = replace_char_with(value, ',', "");
    proof {
        reveal_strlit("");
        assert(""@ =~= Seq::<char>::empty());
    }
    let cs = chars_of(cleaned.as_str());
    parse_i64_chars(&cs)
}

/// All characters in `[from, to)` are ASCII digits, and there is one.
fn digits_between(s: &Vec<char>, from: usize, to: usize) -> (r: bool)
    requires
        from <= to <= s@.len(),
    ensures
        r == all_digits(s@.subrange(from as int, to as int)),
{
    if from == to {
        return false;
    }
    let mut i = from;
    while i < to
        invariant
            from <= i <= to <= s@.len(),
            forall|j: int| from <= j < i ==> is_ascii_digit(#[trigger] s@[j]),
        decreases to - i,
    {
        if !('0' <= s[i] && s[i] <= '9') {
            assert(s@.subrange(from as int, to as int)[i - from] == s@[i as int]);
            return false;
        }
        i = i + 1;
    }
    assert forall|j: int| 0 <= j < to - from implies is_ascii_digit(
        #[trigger] s@.subrange(from as int, to as int)[j],
    ) by {
        assert(s@.subrange(from as int, to as int)[j] == s@[from + j]);
    }
    true
}

/// The mantissa grammar on `[from, to)`.
fn mantissa_between(s: &Vec<char>, from: usize, to: usize) -> (r: bool)
    requires
        from <= to <= s@.len(),
    ensures
        r == is_float_mantissa(s@.subrange(from as int, to as int)),
{
    reveal(is_float_mantissa);
    let ghost m = s@.subrange(from as int, to as int);
    let mut i = from;
    while i < to && s[i] != '.'
        invariant
            from <= i <= to <= s@.len(),
            m == s@.subrange(from as int, to as int),
            forall|j: int| from <= j < i ==> s@[j] != '.',
        decreases to - i,
    {
        i = i + 1;
    }
    if i == to {
        proof {
            if m.contains('.') {
                let j = choose|j: int| 0 <= j < m.len() && m[j] == '.';
                assert(s@[from + j] == m[j]);
            }
        }
        return digits_between(s, from, to);
    }
    proof {
        assert(m[i - from] == '.');
        assert forall|j: int| 0 <= j < i - from implies m[j] != '.' by {
            assert(m[j] == s@[from + j]);
        }
        crate::text::lemma_first_index(m, '.', i - from);
        assert(m.subrange(0, i - from) =~= s@.subrange(from as int, i as int));
        assert(m.subrange(i - from + 1, m.len() as int) =~= s@.subrange(i + 1, to as int));
    }
    let before = digits_between(s, from, i);
    let after = digits_between(s, i + 1, to);
    (before && (i + 1 == to || after)) || (i == from && after)
}

/// The exponent grammar on `[from, to)`.
fn exponent_between(s: &Vec<char>, from: usize, to: usize) -> (r: bool)
    requires
        from <= to <= s@.len(),
    ensures
        r == is_float_exponent(s@.subrange(from as int, to as int)),
{
    reveal(is_float_exponent);
    let ghost e = s@.subrange(from as int, to as int);
    if to - from < 2 || !(s[from] == 'e' || s[from] == 'E') {
        return false;
    }
    assert(e[0] == s@[from as int] && e[1] == s@[from + 1]);
    if s[from + 1] == '+' || s[from + 1] == '-' {
        assert(e.subrange(2, e.len() as int) =~= s@.subrange(from + 2, to as int));
        digits_between(s, from + 2, to)
    } else {
        assert(e.drop_first() =~= s@.subrange(from + 1, to as int));
        digits_between(s, from + 1, to)
    }
}

/// The unsigned float grammar on `[from, n)`.
fn unsigned_float_from(s: &Vec<char>, from: usize) -> (r: bool)
    requires
        from <= s@.len(),
    ensures
        r == is_unsigned_float(s@.subrange(from as int, s@.len() as int)),
{
    let n = s.len();
    let ghost u = s@.subrange(from as int, n as int);
    let word = string_of_range(s, from, n);
    let l = to_ascii_lowercase(word.as_str());
    if str_eq(l.as_str(), "inf") || str_eq(l.as_str(), "infinity") || str_eq(l.as_str(), "nan") {
        return true;
    }
    let mut k = from;
    while k < n && s[k] != 'e' && s[k] != 'E'
        invariant
            from <= k <= n,
            n == s@.len(),
            forall|j: int| from <= j < k ==> s@[j] != 'e' && s@[j] != 'E',
        decreases n - k,
    {
        k = k + 1;
    }
    let whole = mantissa_between(s, from, n);
    let split = k < n && mantissa_between(s, from, k) && exponent_between(s, k, n);
    proof {
        let k0: int = k - from;
        assert forall|j: int| 0 <= j < k0 implies u[j] != 'e' && u[j] != 'E' by {
            assert(u[j] == s@[from + j]);
        }
        if k < n {
            assert(u[k0] == s@[k as int]);
            assert(u.subrange(0, k0) =~= s@.subrange(from as int, k as int));
            assert(u.subrange(k0, u.len() as int) =~= s@.subrange(k as int, n as int));
        }
        lemma_exponent_split(u, k0);
    }
    whole || split
}

/// The exponent of a float starts at its first `e` or `E`.
proof fn lemma_exponent_split(u: Seq<char>, k0: int)
    requires
        0 <= k0 <= u.len(),
        forall|j: int| 0 <= j < k0 ==> u[j] != 'e' && u[j] != 'E',
        k0 < u.len() ==> (u[k0] == 'e' || u[k0] == 'E'),
    ensures
        has_exponent_split(u) == (k0 < u.len() && is_float_mantissa(u.subrange(0, k0))
            && is_float_exponent(u.subrange(k0, u.len() as int))),
{
    if k0 < u.len() && is_float_mantissa(u.subrange(0, k0)) && is_float_exponent(
        u.subrange(k0, u.len() as int),
    ) {
        assert(has_exponent_split(u));
    }
    assert forall|k2: int|
        0 <= k2 < u.len() && is_float_mantissa(u.subrange(0, k2)) && is_float_exponent(
            #[trigger] u.subrange(k2, u.len() as int),
        ) implies k0 < u.len() && k2 == k0 by {
        let e = u.subrange(k2, u.len() as int);
        reveal(is_float_exponent);
        assert(e[0] == u[k2]);
        if k2 > k0 {
            let m = u.subrange(0, k2);
            lemma_mantissa_chars(m);
            assert(m[k0] == u[k0]);
        }
    }
}

/// A mantissa holds only digits and dots.
proof fn lemma_mantissa_chars(m: Seq<char>)
    requires
        is_float_mantissa(m),
    ensures
        forall|j: int| 0 <= j < m.len() ==> is_ascii_digit(#[trigger] m[j]) || m[j] == '.',
{
    reveal(is_float_mantissa);
    if m.contains('.') {
        let w = crate::text::first_witness(m, '.');
        crate::text::lemma_first_index(m, '.', w);
    }
    match crate::text::first_index(m, '.') {
        None => {},
        Some(i) => {
            let a = m.subrange(0, i);
            let b = m.subrange(i + 1, m.len() as int);
            assert(crate::text::split_once(m, '.') == Some((a, b)));
            assert forall|j: int| 0 <= j < m.len() implies is_ascii_digit(#[trigger] m[j]) || m[j]
                == '.' by {
                if j < i {
                    assert(a[j] == m[j]);
                } else if j > i {
                    assert(b[j - i - 1] == m[j]);
                }
            }
        },
    }
}

/// The characters in `[from, to)` as a string.
fn string_of_range(s: &Vec<char>, from: usize, to: usize) -> (r: String)
    requires
        from <= to <= s@.len(),
    ensures
        r@ == s@.subrange(from as int, to as int),
{
    crate::text::slice_string(s, from, to)
}

/// `parse_float` succeeds: the text, without its `,`, is a float that
/// `f64::from_str` accepts.
pub fn parse_float(value: &str) -> (r: bool)
    ensures
        r == parses_as_float(value@),
{
    let cleaned = replace_char_with(value, ',', "");
    proof {
        reveal_strlit("");
        assert(""@ =~= Seq::<char>::empty());
    }
    let cs = chars_of(cleaned.as_str());
    if cs.len() > 0 && (cs[0] == '+' || cs[0] == '-') {
        assert(cs@.subrange(1, cs@.len() as int) =~= cs@.drop_first());
        unsigned_float_from(&cs, 1)
    } else {
        assert(cs@.subrange(0, cs@.len() as int) =~= cs@);
        unsigned_float_from(&cs, 0)
    }
}

/// `YYYY-MM-DD` by its bytes.
pub fn looks_like_date(value: &str) -> (r: bool)
    ensures
        r == is_date_text(value@),
{
    let bytes = value.as_bytes();
    if bytes.len() != 10 || bytes[4] != 45 || bytes[7] != 45 {
        return false;
    }
    let mut i: usize = 0;
    while i < 10
        invariant
            i <= 10,
            bytes@ == encode_utf8(value@),
            bytes@.len() == 10,
            forall|j: int| 0 <= j < i && j != 4 && j != 7 ==> 48 <= #[trigger] bytes@[j] <= 57,
        decreases 10 - i,
    {
        if i != 4 && i != 7 && !(48 <= bytes[i] && bytes[i] <= 57) {
            return false;
        }
        i = i + 1;
    }
    true
}

/// A `T` and at least nineteen bytes.
pub fn looks_like_timestamp(value: &str) -> (r: bool)
    ensures
        r == is_timestamp_text(value@),
{
    crate::text::contains_char(value, 'T') && value.as_bytes().len() >= 19
}

/// The text of a record's cell, or the empty text past its end.
pub open spec fn text_cell(record: Seq<Seq<char>>, index: int) -> Seq<char> {
    if 0 <= index < record.len() {
        record[index]
    } else {
        Seq::empty()
    }
}

/// What records, given as texts, contribute to one column.
pub open spec fn text_column(records: Seq<Seq<Seq<char>>>, index: int) -> Seq<Option<Seq<char>>> {
    records.map_values(|r: Seq<Seq<char>>| observation(text_cell(r, index)))
}

/// A column's observations read the same from records and from their texts.
pub proof fn lemma_text_column(records: Seq<Vec<String>>, index: int)
    ensures
        column_observations(records, index) == text_column(
            crate::lakehouse::delimited::rows_text(records),
            index,
        ),
{
    let t = crate::lakehouse::delimited::rows_text(records);
    assert forall|k: int| 0 <= k < records.len() implies cell(records[k]@, index) == text_cell(t[k], index) by {
        if 0 <= index < records[k]@.len() {
            assert(t[k] == crate::text::views(records[k]@));
            assert(t[k][index] == records[k]@[index]@);
        }
    }
    assert(column_observations(records, index) =~= text_column(t, index));
}

/// Infers the typed columns of a delimited file from its bytes: the header
/// and the first 5000 records as `csv` reads them, each column typed by its
/// values; `None` where the file does not read.
pub fn infer_typed_columns(bytes: &[u8], delimiter: u8) -> (r: Option<Vec<TypedColumn>>)
    ensures
        match crate::lakehouse::delimited::csv_table(bytes@, delimiter, INFERENCE_RECORDS as nat) {
            None => r is None,
            Some((h, rows)) => r matches Some(c) && c@.len() == h.len() && forall|i: int|
                0 <= i < h.len() ==> {
                    let obs = text_column(rows, i);
                    &&& (#[trigger] c@[i]).source_name@ == h[i]
                    &&& c@[i].name@ == column_name(h[i], i as nat)
                    &&& c@[i].data_type == inferred_type(obs)
                    &&& c@[i].nullable == has_null(obs)
                },
        },
{
    match crate::lakehouse::delimited::csv_read(bytes, delimiter, INFERENCE_RECORDS) {
        None => None,
        Some((headers, records)) => {
            let count = headers.len();
            assert(headers@.len() == count);
            let c = infer_columns(&headers, &records);
            proof {
                assert(inference_window(records@) == records@);
                assert forall|i: int| 0 <= i < headers@.len() implies column_observations(
                    inference_window(records@),
                    i,
                ) == text_column(crate::lakehouse::delimited::rows_text(records@), i) by {
                    lemma_text_column(records@, i);
                }
                assert forall|i: int| 0 <= i < headers@.len() implies #[trigger] headers@[i]@ == crate::text::views(
                    headers@,
                )[i] by {}
            }
            Some(c)
        },
    }
}

} // verus!
