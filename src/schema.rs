//! Schema fields, schema records, the schema query and the schema table.
use vstd::prelude::*;
use crate::text::{join, pad_right, repeat_char, views, push_padded, push_repeated, join_strings, same_text};

verus! {

/// One column of the schema table, which is also one field of the schema query.
#[derive(Clone, Copy, Debug, PartialEq, Eq, Structural)]
pub enum Field {
    Predicate,
    Type,
    Index,
    Reverse,
    Tokenizer,
    List,
    Count,
    Upsert,
    Lang,
}

/// Every field, in the order in which the table lays out its columns.
pub open spec fn all_fields() -> Seq<Field> {
    seq![
        Field::Predicate,
        Field::Type,
        Field::Index,
        Field::Reverse,
        Field::Tokenizer,
        Field::List,
        Field::Count,
        Field::Upsert,
        Field::Lang,
    ]
}

/// The position of a field in the table's column order.
pub open spec fn rank(f: Field) -> nat {
    match f {
        Field::Predicate => 0,
        Field::Type => 1,
        Field::Index => 2,
        Field::Reverse => 3,
        Field::Tokenizer => 4,
        Field::List => 5,
        Field::Count => 6,
        Field::Upsert => 7,
        Field::Lang => 8,
    }
}

/// The field's name in the query language and on the command line.
pub open spec fn field_name(f: Field) -> Seq<char> {
    match f {
        Field::Predicate => "predicate"@,
        Field::Type => "type"@,
        Field::Index => "index"@,
        Field::Reverse => "reverse"@,
        Field::Tokenizer => "tokenizer"@,
        Field::List => "list"@,
        Field::Count => "count"@,
        Field::Upsert => "upsert"@,
        Field::Lang => "lang"@,
    }
}

/// Whether `s` is the name of some field.
pub open spec fn is_field_name(s: Seq<char>) -> bool {
    exists|f: Field| #[trigger] field_name(f) == s
}

/// The field's column heading.
pub open spec fn field_label(f: Field) -> Seq<char> {
    match f {
        Field::Predicate => "Predicate"@,
        Field::Type => "Type"@,
        Field::Index => "Index"@,
        Field::Reverse => "Reverse"@,
        Field::Tokenizer => "Tokenizers"@,
        Field::List => "List"@,
        Field::Count => "Count"@,
        Field::Upsert => "Upsert"@,
        Field::Lang => "Lang"@,
    }
}

/// Spaces kept between a cell's text and the next column.
pub const GAP: u128 = 3;

pub const PREDICATE_MIN_WIDTH: u128 = 9 + GAP;

pub const TYPE_WIDTH: u128 = 10;

pub const INDEX_WIDTH: u128 = 5 + GAP;

pub const REVERSE_WIDTH: u128 = 7 + GAP;

pub const TOKENIZER_MIN_WIDTH: u128 = 10 + GAP;

pub const LIST_WIDTH: u128 = 5 + GAP;

pub const COUNT_WIDTH: u128 = 5 + GAP;

pub const UPSERT_WIDTH: u128 = 6 + GAP;

pub const LANG_WIDTH: u128 = 5 + GAP;

/// One predicate of the schema as the server reports it; an absent flag reads
/// as `false`, an absent type or tokenizer list as empty text.
pub struct SchemaRecord {
    pub predicate: String,
    pub ty: Option<String>,
    pub index: Option<bool>,
    pub reverse: Option<bool>,
    pub tokenizer: Option<Vec<String>>,
    pub list: Option<bool>,
    pub count: Option<bool>,
    pub upsert: Option<bool>,
    pub lang: Option<bool>,
}

/// The chosen fields in column order.
pub open spec fn columns_among(fs: Seq<Field>, wanted: Set<Field>) -> Seq<Field>
    decreases fs.len(),
{
    if fs.len() == 0 {
        Seq::empty()
    } else if wanted.contains(fs.last()) {
        columns_among(fs.drop_last(), wanted).push(fs.last())
    } else {
        columns_among(fs.drop_last(), wanted)
    }
}

/// The table's columns for a set of wanted fields.
pub open spec fn columns(wanted: Set<Field>) -> Seq<Field> {
    columns_among(all_fields(), wanted)
}

pub open spec fn bool_text(b: bool) -> Seq<char> {
    if b {
        "true"@
    } else {
        "false"@
    }
}

pub open spec fn flag_text(b: Option<bool>) -> Seq<char> {
    match b {
        Some(v) => bool_text(v),
        None => bool_text(false),
    }
}

/// The tokenizers as a cell shows them: joined by commas.
pub open spec fn tokenizer_text(r: SchemaRecord) -> Seq<char> {
    match r.tokenizer {
        Some(ts) => join(views(ts@), ","@),
        None => Seq::empty(),
    }
}

/// The room a record asks of the tokenizer column: its tokenizers joined by
/// a comma and a space, plus the gap; nothing without tokenizers.
pub open spec fn tokenizer_room(r: SchemaRecord) -> nat {
    match r.tokenizer {
        Some(ts) => join(views(ts@), ", "@).len() + GAP as nat,
        None => 0,
    }
}

/// The room a record asks of the predicate column.
pub open spec fn predicate_room(r: SchemaRecord) -> nat {
    r.predicate@.len() + GAP as nat
}

/// The predicate column's width: its minimum, or the largest room a record asks.
pub open spec fn predicate_width(rs: Seq<SchemaRecord>) -> nat
    decreases rs.len(),
{
    if rs.len() == 0 {
        PREDICATE_MIN_WIDTH as nat
    } else {
        let w = predicate_width(rs.drop_last());
        if predicate_room(rs.last()) > w {
            predicate_room(rs.last())
        } else {
            w
        }
    }
}

/// The tokenizer column's width: its minimum, or the largest room a record asks.
pub open spec fn tokenizer_width(rs: Seq<SchemaRecord>) -> nat
    decreases rs.len(),
{
    if rs.len() == 0 {
        TOKENIZER_MIN_WIDTH as nat
    } else {
        let w = tokenizer_width(rs.drop_last());
        if tokenizer_room(rs.last()) > w {
            tokenizer_room(rs.last())
        } else {
            w
        }
    }
}

/// A column's width in a table of the records `rs`.
pub open spec fn column_width(f: Field, rs: Seq<SchemaRecord>) -> nat {
    match f {
        Field::Predicate => predicate_width(rs),
        Field::Type => TYPE_WIDTH as nat,
        Field::Index => INDEX_WIDTH as nat,
        Field::Reverse => REVERSE_WIDTH as nat,
        Field::Tokenizer => tokenizer_width(rs),
        Field::List => LIST_WIDTH as nat,
        Field::Count => COUNT_WIDTH as nat,
        Field::Upsert => UPSERT_WIDTH as nat,
        Field::Lang => LANG_WIDTH as nat,
    }
}

/// What a record shows in a column, before padding.
pub open spec fn cell_text(f: Field, r: SchemaRecord) -> Seq<char> {
    match f {
        Field::Predicate => r.predicate@,
        Field::Type => match r.ty {
            Some(t) => t@,
            None => Seq::empty(),
        },
        Field::Index => flag_text(r.index),
        Field::Reverse => flag_text(r.reverse),
        Field::Tokenizer => tokenizer_text(r),
        Field::List => flag_text(r.list),
        Field::Count => flag_text(r.count),
        Field::Upsert => flag_text(r.upsert),
        Field::Lang => flag_text(r.lang),
    }
}

/// The headings of the columns `cols`, each padded to its width.
pub open spec fn header_line(cols: Seq<Field>, rs: Seq<SchemaRecord>) -> Seq<char>
    decreases cols.len(),
{
    if cols.len() == 0 {
        Seq::empty()
    } else {
        header_line(cols.drop_last(), rs) + pad_right(
            field_label(cols.last()),
            column_width(cols.last(), rs),
        )
    }
}

/// The sum of the widths of the columns `cols`.
pub open spec fn total_width(cols: Seq<Field>, rs: Seq<SchemaRecord>) -> nat
    decreases cols.len(),
{
    if cols.len() == 0 {
        0
    } else {
        total_width(cols.drop_last(), rs) + column_width(cols.last(), rs)
    }
}

/// The cells of the record `r` in the columns `cols`, each padded to its width.
pub open spec fn record_line(cols: Seq<Field>, rs: Seq<SchemaRecord>, r: SchemaRecord) -> Seq<
    char,
>
    decreases cols.len(),
{
    if cols.len() == 0 {
        Seq::empty()
    } else {
        record_line(cols.drop_last(), rs, r) + pad_right(
            cell_text(cols.last(), r),
            column_width(cols.last(), rs),
        )
    }
}

/// One line per record of `shown`, in order, with widths taken from `rs`.
pub open spec fn record_lines(cols: Seq<Field>, rs: Seq<SchemaRecord>, shown: Seq<SchemaRecord>) -> Seq<
    char,
>
    decreases shown.len(),
{
    if shown.len() == 0 {
        Seq::empty()
    } else {
        record_lines(cols, rs, shown.drop_last()) + record_line(cols, rs, shown.last()) + seq!['\n']
    }
}

/// The whole table: the header, a line of dashes as wide as all columns
/// together, then one line per record in the given order.
pub open spec fn table_text(wanted: Set<Field>, rs: Seq<SchemaRecord>) -> Seq<char> {
    let cols = columns(wanted);
    header_line(cols, rs) + seq!['\n'] + repeat_char('-', total_width(cols, rs)) + seq!['\n']
        + record_lines(cols, rs, rs)
}

/// The schema query asking for the columns `cols`.
pub open spec fn query_fields(cols: Seq<Field>) -> Seq<char>
    decreases cols.len(),
{
    if cols.len() == 0 {
        Seq::empty()
    } else {
        query_fields(cols.drop_last()) + seq![' '] + field_name(cols.last())
    }
}

/// The schema query for a set of wanted fields, e.g. `schema { predicate type }`.
pub open spec fn schema_query_text(wanted: Set<Field>) -> Seq<char> {
    "schema {"@ + query_fields(columns(wanted)) + " }"@
}

impl Field {
    /// The field at a position of the column order.
    pub fn at(i: usize) -> (r: Field)
        requires
            i < 9,
        ensures
            r == all_fields()[i as int],
            rank(r) == i,
    {
        if i == 0 {
            Field::Predicate
        } else if i == 1 {
            Field::Type
        } else if i == 2 {
            Field::Index
        } else if i == 3 {
            Field::Reverse
        } else if i == 4 {
            Field::Tokenizer
        } else if i == 5 {
            Field::List
        } else if i == 6 {
            Field::Count
        } else if i == 7 {
            Field::Upsert
        } else {
            Field::Lang
        }
    }

    /// Every field, in column order.
    pub fn all() -> (r: Vec<Field>)
        ensures
            r@ == all_fields(),
    {
        let mut v: Vec<Field> = Vec::new();
        let mut i: usize = 0;
        while i < 9
            invariant
                i <= 9,
                v@ == all_fields().take(i as int),
            decreases 9 - i,
        {
            v.push(Field::at(i));
            i = i + 1;
            assert(v@ =~= all_fields().take(i as int));
        }
        assert(v@ =~= all_fields());
        v
    }

    /// The field's name in the query language.
    pub fn name(&self) -> (r: &'static str)
        ensures
            r@ == field_name(*self),
    {
        match self {
            Field::Predicate => "predicate",
            Field::Type => "type",
            Field::Index => "index",
            Field::Reverse => "reverse",
            Field::Tokenizer => "tokenizer",
            Field::List => "list",
            Field::Count => "count",
            Field::Upsert => "upsert",
            Field::Lang => "lang",
        }
    }

    /// The field's column heading.
    pub fn label(&self) -> (r: &'static str)
        ensures
            r@ == field_label(*self),
    {
        match self {
            Field::Predicate => "Predicate",
            Field::Type => "Type",
            Field::Index => "Index",
            Field::Reverse => "Reverse",
            Field::Tokenizer => "Tokenizers",
            Field::List => "List",
            Field::Count => "Count",
            Field::Upsert => "Upsert",
            Field::Lang => "Lang",
        }
    }

    /// The field whose name is `name`, if any.
    pub fn from_name(name: &str) -> (r: Option<Field>)
        ensures
            r matches Some(f) ==> field_name(f) == name@,
            r is None ==> !is_field_name(name@),
    {
        let mut i: usize = 0;
        while i < 9
            invariant
                i <= 9,
                forall|j: int| 0 <= j < i ==> field_name(#[trigger] all_fields()[j]) != name@,
            decreases 9 - i,
        {
            let f = Field::at(i);
            if same_text(f.name(), name) {
                return Some(f);
            }
            i = i + 1;
        }
        proof {
            assert forall|f: Field| field_name(f) != name@ by {
                assert(all_fields()[rank(f) as int] == f);
            }
        }
        None
    }
}

/// Whether `f` is among `fields`.
fn contains_field(fields: &Vec<Field>, f: Field) -> (r: bool)
    ensures
        r == fields@.contains(f),
{
    let mut i: usize = 0;
    while i < fields.len()
        invariant
            i <= fields.len(),
            forall|j: int| 0 <= j < i ==> fields@[j] != f,
        decreases fields.len() - i,
    {
        if fields[i] == f {
            return true;
        }
        i = i + 1;
    }
    false
}

/// The fields named by `names`, in their order; all fields where no name is
/// given; `None` where a name is no field's.
pub fn requested_fields(names: &Vec<String>) -> (r: Option<Vec<Field>>)
    ensures
        names@.len() == 0 ==> (r matches Some(fs) && fs@ == all_fields()),
        names@.len() > 0 ==> (r is Some <==> forall|i: int|
            0 <= i < names@.len() ==> is_field_name(#[trigger] names@[i]@)),
        names@.len() > 0 ==> (r matches Some(fs) ==> fs@.len() == names@.len() && forall|i: int|
            0 <= i < names@.len() ==> field_name(#[trigger] fs@[i]) == names@[i]@),
{
    if names.len() == 0 {
        return Some(Field::all());
    }
    let mut out: Vec<Field> = Vec::new();
    let mut i: usize = 0;
    while i < names.len()
        invariant
            i <= names.len(),
            out@.len() == i,
            forall|j: int| 0 <= j < i ==> field_name(#[trigger] out@[j]) == names@[j]@,
        decreases names.len() - i,
    {
        match Field::from_name(names[i].as_str()) {
            Some(f) => out.push(f),
            None => {
                return None;
            },
        }
        i = i + 1;
    }
    proof {
        assert forall|j: int| 0 <= j < names@.len() implies is_field_name(
            #[trigger] names@[j]@,
        ) by {
            assert(field_name(out@[j]) == names@[j]@);
        }
    }
    Some(out)
}

/// The schema query that asks the server for exactly the wanted fields, in
/// column order, e.g. `schema { predicate type }`.
pub fn schema_query(fields: &Vec<Field>) -> (r: String)
    ensures
        r@ == schema_query_text(fields@.to_set()),
{
    proof {
        reveal_strlit("schema {");
        reveal_strlit(" ");
        reveal_strlit(" }");
    }
    let ghost wanted = fields@.to_set();
    let ghost all = all_fields();
    let mut out = String::from_str("schema {");
    let mut i: usize = 0;
    while i < 9
        invariant
            i <= 9,
            wanted == fields@.to_set(),
            all == all_fields(),
            out@ == "schema {"@ + query_fields(columns_among(all.take(i as int), wanted)),
        decreases 9 - i,
    {
        let f = Field::at(i);
        proof {
            assert(all.take(i + 1).drop_last() =~= all.take(i as int));
            assert(all.take(i + 1).last() == f);
        }
        if contains_field(fields, f) {
            out.append(" ");
            out.append(f.name());
            proof {
                reveal_strlit(" ");
                let cols = columns_among(all.take(i + 1), wanted);
                assert(wanted.contains(f));
                assert(cols == columns_among(all.take(i as int), wanted).push(f));
                assert(cols.drop_last() =~= columns_among(all.take(i as int), wanted));
                assert(cols.last() == f);
                assert(out@ =~= "schema {"@ + query_fields(cols));
            }
        }
        i = i + 1;
    }
    out.append(" }");
    proof {
        assert(all.take(9) =~= all);
    }
    out
}

/// The text of an optional flag, absent reading as `false`.
fn flag_str(b: Option<bool>) -> (r: &'static str)
    ensures
        r@ == flag_text(b),
{
    match b {
        Some(true) => "true",
        _ => "false",
    }
}

/// The predicate column's width for the records.
fn predicate_column_width(records: &Vec<SchemaRecord>) -> (r: u128)
    ensures
        r == predicate_width(records@),
{
    let mut width: u128 = PREDICATE_MIN_WIDTH;
    let mut i: usize = 0;
    while i < records.len()
        invariant
            i <= records.len(),
            width == predicate_width(records@.take(i as int)),
        decreases records.len() - i,
    {
        proof {
            assert(records@.take(i + 1).drop_last() =~= records@.take(i as int));
        }
        let room = records[i].predicate.as_str().unicode_len() as u128 + GAP;
        if room > width {
            width = room;
        }
        i = i + 1;
    }
    proof {
        assert(records@.take(records@.len() as int) =~= records@);
    }
    width
}

/// The tokenizer column's width for the records.
fn tokenizer_column_width(records: &Vec<SchemaRecord>) -> (r: u128)
    ensures
        r == tokenizer_width(records@),
{
    proof {
        reveal_strlit(", ");
    }
    let mut width: u128 = TOKENIZER_MIN_WIDTH;
    let mut i: usize = 0;
    while i < records.len()
        invariant
            i <= records.len(),
            width == tokenizer_width(records@.take(i as int)),
        decreases records.len() - i,
    {
        proof {
            assert(records@.take(i + 1).drop_last() =~= records@.take(i as int));
        }
        let room: u128 = match &records[i].tokenizer {
            Some(ts) => join_strings(ts, ", ").as_str().unicode_len() as u128 + GAP,
            None => 0,
        };
        if room > width {
            width = room;
        }
        i = i + 1;
    }
    proof {
        assert(records@.take(records@.len() as int) =~= records@);
    }
    width
}

/// The width of a column, given those of the two columns that grow.
fn width_of(f: Field, pw: u128, tw: u128, rs: Ghost<Seq<SchemaRecord>>) -> (r: u128)
    requires
        pw == predicate_width(rs@),
        tw == tokenizer_width(rs@),
    ensures
        r == column_width(f, rs@),
{
    match f {
        Field::Predicate => pw,
        Field::Type => TYPE_WIDTH,
        Field::Index => INDEX_WIDTH,
        Field::Reverse => REVERSE_WIDTH,
        Field::Tokenizer => tw,
        Field::List => LIST_WIDTH,
        Field::Count => COUNT_WIDTH,
        Field::Upsert => UPSERT_WIDTH,
        Field::Lang => LANG_WIDTH,
    }
}

/// Appends a record's cell in column `f`, padded to `width`.
fn push_cell(out: &mut String, f: Field, r: &SchemaRecord, width: u128)
    ensures
        final(out)@ == old(out)@ + pad_right(cell_text(f, *r), width as nat),
{
    proof {
        reveal_strlit("");
        reveal_strlit(",");
    }
    match f {
        Field::Predicate => push_padded(out, r.predicate.as_str(), width),
        Field::Type => match &r.ty {
            Some(t) => push_padded(out, t.as_str(), width),
            None => push_padded(out, "", width),
        },
        Field::Index => push_padded(out, flag_str(r.index), width),
        Field::Reverse => push_padded(out, flag_str(r.reverse), width),
        Field::Tokenizer => match &r.tokenizer {
            Some(ts) => {
                let joined = join_strings(ts, ",");
                push_padded(out, joined.as_str(), width);
            },
            None => push_padded(out, "", width),
        },
        Field::List => push_padded(out, flag_str(r.list), width),
        Field::Count => push_padded(out, flag_str(r.count), width),
        Field::Upsert => push_padded(out, flag_str(r.upsert), width),
        Field::Lang => push_padded(out, flag_str(r.lang), width),
    }
}

/// Lays the records out as a table of the wanted fields: a header, a line of
/// dashes, then one line per record in the given order. Each cell is padded
/// with spaces to its column's width; the predicate and tokenizer columns
/// widen to fit the longest value.
pub fn format_table(fields: &Vec<Field>, records: &Vec<SchemaRecord>) -> (r: String)
    ensures
        r@ == table_text(fields@.to_set(), records@),
{
    proof {
        reveal_strlit("\n");
        reveal_strlit("-");
    }
    let ghost wanted = fields@.to_set();
    let ghost all = all_fields();
    let ghost rs = records@;
    let pw = predicate_column_width(records);
    let tw = tokenizer_column_width(records);
    let mut header = String::new();
    let mut rule = String::new();
    let mut i: usize = 0;
    while i < 9
        invariant
            i <= 9,
            wanted == fields@.to_set(),
            all == all_fields(),
            rs == records@,
            pw == predicate_width(rs),
            tw == tokenizer_width(rs),
            header@ == header_line(columns_among(all.take(i as int), wanted), rs),
            rule@ == repeat_char('-', total_width(columns_among(all.take(i as int), wanted), rs)),
        decreases 9 - i,
    {
        let f = Field::at(i);
        proof {
            reveal_strlit("-");
            assert(all.take(i + 1).drop_last() =~= all.take(i as int));
            assert(all.take(i + 1).last() == f);
        }
        if contains_field(fields, f) {
            let width = width_of(f, pw, tw, Ghost(rs));
            let ghost rule_before = rule@;
            push_padded(&mut header, f.label(), width);
            push_repeated(&mut rule, "-", width);
            proof {
                let cols = columns_among(all.take(i + 1), wanted);
                assert(wanted.contains(f));
                assert(cols == columns_among(all.take(i as int), wanted).push(f));
                assert(cols.drop_last() =~= columns_among(all.take(i as int), wanted));
                assert(cols.last() == f);
                assert(rule@ =~= repeat_char('-', total_width(cols, rs)));
            }
        }
        i = i + 1;
    }
    proof {
        assert(all.take(9) =~= all);
    }
    let ghost cols = columns(wanted);
    let mut out = header;
    out.append("\n");
    out.append(rule.as_str());
    out.append("\n");
    let ghost top = out@;
    let mut k: usize = 0;
    while k < records.len()
        invariant
            k <= records.len(),
            wanted == fields@.to_set(),
            all == all_fields(),
            cols == columns(wanted),
            rs == records@,
            pw == predicate_width(rs),
            tw == tokenizer_width(rs),
            out@ == top + record_lines(cols, rs, rs.take(k as int)),
        decreases records.len() - k,
    {
        let r = &records[k];
        let ghost before = out@;
        let mut j: usize = 0;
        while j < 9
            invariant
                j <= 9,
                k < records.len(),
                r == records@[k as int],
                wanted == fields@.to_set(),
                all == all_fields(),
                rs == records@,
                pw == predicate_width(rs),
                tw == tokenizer_width(rs),
                out@ == before + record_line(columns_among(all.take(j as int), wanted), rs, *r),
            decreases 9 - j,
        {
            let f = Field::at(j);
            proof {
                assert(all.take(j + 1).drop_last() =~= all.take(j as int));
                assert(all.take(j + 1).last() == f);
            }
            if contains_field(fields, f) {
                let width = width_of(f, pw, tw, Ghost(rs));
                push_cell(&mut out, f, r, width);
                proof {
                    let cs = columns_among(all.take(j + 1), wanted);
                    assert(wanted.contains(f));
                    assert(cs == columns_among(all.take(j as int), wanted).push(f));
                    assert(cs.drop_last() =~= columns_among(all.take(j as int), wanted));
                    assert(cs.last() == f);
                    assert(out@ =~= before + record_line(cs, rs, *r));
                }
            }
            j = j + 1;
        }
        proof {
            reveal_strlit("\n");
        }
        out.append("\n");
        k = k + 1;
        proof {
            assert(all.take(9) =~= all);
            assert(rs.take(k as int).drop_last() =~= rs.take(k - 1));
            assert(out@ =~= top + record_lines(cols, rs, rs.take(k as int)));
        }
    }
    proof {
        assert(rs.take(rs.len() as int) =~= rs);
        assert(out@ =~= table_text(wanted, rs));
    }
    out
}

/// The chosen fields keep the order of `fs` and are exactly those of `fs`
/// that are wanted.
proof fn lemma_columns_among(fs: Seq<Field>, wanted: Set<Field>)
    requires
        forall|i: int, j: int| 0 <= i < j < fs.len() ==> rank(fs[i]) < rank(fs[j]),
    ensures
        forall|f: Field|
            columns_among(fs, wanted).contains(f) <==> (fs.contains(f) && wanted.contains(f)),
        forall|i: int, j: int|
            0 <= i < j < columns_among(fs, wanted).len() ==> rank(columns_among(fs, wanted)[i])
                < rank(columns_among(fs, wanted)[j]),
        forall|i: int|
            0 <= i < columns_among(fs, wanted).len() ==> exists|k: int|
                0 <= k < fs.len() && fs[k] == #[trigger] columns_among(fs, wanted)[i],
    decreases fs.len(),
{
    if fs.len() > 0 {
        let init = fs.drop_last();
        lemma_columns_among(init, wanted);
        let sub = columns_among(init, wanted);
        let cols = columns_among(fs, wanted);
        assert forall|f: Field| cols.contains(f) <==> (fs.contains(f) && wanted.contains(f)) by {
            if fs.contains(f) {
                let k = choose|k: int| 0 <= k < fs.len() && fs[k] == f;
                if k < fs.len() - 1 {
                    assert(init[k] == f);
                }
            }
            if init.contains(f) {
                let k = choose|k: int| 0 <= k < init.len() && init[k] == f;
                assert(fs[k] == f);
            }
            if wanted.contains(fs.last()) {
                assert(cols == sub.push(fs.last()));
                if sub.contains(f) {
                    let k = choose|k: int| 0 <= k < sub.len() && sub[k] == f;
                    assert(cols[k] == f);
                }
                if cols.contains(f) && f != fs.last() {
                    let k = choose|k: int| 0 <= k < cols.len() && cols[k] == f;
                    assert(sub[k] == f);
                }
                assert(cols[cols.len() - 1] == fs.last());
            }
        }
        assert forall|i: int|
            0 <= i < cols.len() implies exists|k: int|
                0 <= k < fs.len() && fs[k] == #[trigger] cols[i] by {
            if i < sub.len() {
                assert(cols[i] == sub[i]);
                let k = choose|k: int| 0 <= k < init.len() && init[k] == sub[i];
                assert(fs[k] == cols[i]);
            } else {
                assert(cols[i] == fs[fs.len() - 1]);
            }
        }
        assert forall|i: int, j: int|
            0 <= i < j < cols.len() implies rank(cols[i]) < rank(cols[j]) by {
            if j < sub.len() {
                assert(cols[i] == sub[i] && cols[j] == sub[j]);
            } else {
                assert(cols[j] == fs.last());
                assert(cols[i] == sub[i]);
                let k = choose|k: int| 0 <= k < init.len() && init[k] == sub[i];
                assert(fs[k] == init[k]);
            }
        }
    }
}

/// The table's columns are exactly the wanted fields, in the fixed column
/// order, and a list of wanted fields gives the same table whatever its
/// order or repetitions.
pub proof fn lemma_table_columns(a: Seq<Field>, b: Seq<Field>, rs: Seq<SchemaRecord>)
    requires
        a.to_set() == b.to_set(),
    ensures
        forall|f: Field| columns(a.to_set()).contains(f) <==> a.contains(f),
        forall|i: int, j: int|
            0 <= i < j < columns(a.to_set()).len() ==> rank(columns(a.to_set())[i]) < rank(
                columns(a.to_set())[j],
            ),
        table_text(a.to_set(), rs) == table_text(b.to_set(), rs),
{
    let all = all_fields();
    assert forall|i: int, j: int| 0 <= i < j < all.len() implies rank(all[i]) < rank(all[j]) by {}
    lemma_columns_among(all, a.to_set());
    assert forall|f: Field| columns(a.to_set()).contains(f) <==> a.contains(f) by {
        assert(all[rank(f) as int] == f);
        assert(all.contains(f));
        assert(a.to_set().contains(f) == a.contains(f));
    }
}

proof fn lemma_join_narrower(parts: Seq<Seq<char>>)
    ensures
        join(parts, ","@).len() <= join(parts, ", "@).len(),
    decreases parts.len(),
{
    reveal_strlit(",");
    reveal_strlit(", ");
    if parts.len() > 1 {
        lemma_join_narrower(parts.drop_last());
    }
}

/// The predicate column is as wide as its minimum or as the largest room a
/// record asks (its length plus the gap), whichever is more; no predicate
/// is cut, and a gap stays after each.
pub proof fn lemma_predicate_width(rs: Seq<SchemaRecord>)
    ensures
        predicate_width(rs) >= PREDICATE_MIN_WIDTH,
        forall|i: int| 0 <= i < rs.len() ==> predicate_width(rs) >= predicate_room(#[trigger] rs[i]),
        predicate_width(rs) == PREDICATE_MIN_WIDTH || exists|i: int|
            0 <= i < rs.len() && predicate_width(rs) == predicate_room(#[trigger] rs[i]),
        forall|i: int|
            0 <= i < rs.len() ==> cell_text(Field::Predicate, #[trigger] rs[i]).len() + GAP
                <= column_width(Field::Predicate, rs),
    decreases rs.len(),
{
    if rs.len() > 0 {
        let init = rs.drop_last();
        lemma_predicate_width(init);
        assert forall|i: int| 0 <= i < rs.len() implies predicate_width(rs) >= predicate_room(
            #[trigger] rs[i],
        ) by {
            if i < init.len() {
                assert(rs[i] == init[i]);
            }
        }
        if predicate_width(rs) != PREDICATE_MIN_WIDTH {
            if predicate_width(rs) == predicate_width(init) {
                let i = choose|i: int|
                    0 <= i < init.len() && predicate_width(init) == predicate_room(#[trigger] init[i]);
                assert(rs[i] == init[i]);
            } else {
                assert(predicate_width(rs) == predicate_room(rs[rs.len() - 1]));
            }
        }
    }
}

/// The tokenizer column is as wide as its minimum or as the largest room a
/// record asks, whichever is more; no cell's tokenizers are cut, and a gap
/// stays after each.
pub proof fn lemma_tokenizer_width(rs: Seq<SchemaRecord>)
    ensures
        tokenizer_width(rs) >= TOKENIZER_MIN_WIDTH,
        forall|i: int| 0 <= i < rs.len() ==> tokenizer_width(rs) >= tokenizer_room(#[trigger] rs[i]),
        tokenizer_width(rs) == TOKENIZER_MIN_WIDTH || exists|i: int|
            0 <= i < rs.len() && tokenizer_width(rs) == tokenizer_room(#[trigger] rs[i]),
        forall|i: int|
            0 <= i < rs.len() ==> cell_text(Field::Tokenizer, #[trigger] rs[i]).len() + GAP
                <= column_width(Field::Tokenizer, rs),
    decreases rs.len(),
{
    if rs.len() > 0 {
        let init = rs.drop_last();
        lemma_tokenizer_width(init);
        assert forall|i: int| 0 <= i < rs.len() implies tokenizer_width(rs) >= tokenizer_room(
            #[trigger] rs[i],
        ) by {
            if i < init.len() {
                assert(rs[i] == init[i]);
            }
        }
        if tokenizer_width(rs) != TOKENIZER_MIN_WIDTH {
            if tokenizer_width(rs) == tokenizer_width(init) {
                let i = choose|i: int|
                    0 <= i < init.len() && tokenizer_width(init) == tokenizer_room(#[trigger] init[i]);
                assert(rs[i] == init[i]);
            } else {
                assert(tokenizer_width(rs) == tokenizer_room(rs[rs.len() - 1]));
            }
        }
    }
    assert forall|i: int|
        0 <= i < rs.len() implies cell_text(Field::Tokenizer, #[trigger] rs[i]).len() + GAP
            <= column_width(Field::Tokenizer, rs) by {
        match rs[i].tokenizer {
            Some(ts) => {
                lemma_join_narrower(views(ts@));
                assert(tokenizer_width(rs) >= tokenizer_room(rs[i]));
            },
            None => {
                reveal_strlit("");
            },
        }
    }
}

} // verus!
