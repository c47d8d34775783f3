//! What goes to the store: values and named bindings, the statements that
//! set the schema up, and the statements of the query history.

use crate::text::{
    chars_of, decimal, find_from, first_match, lemma_first_match, parse_unsigned, push_decimal,
    push_range, push_text, string_of, unsigned_of,
};
use vstd::prelude::*;

verus! {

/// The scale on which weights are given: a weight is a percentage, and is
/// bound divided by this.
pub const WEIGHT_SCALE: u64 = 100;

/// A value that the store can bind to a placeholder.
#[derive(Debug)]
pub enum SqlValue {
    Text(String),
    Integer(u64),
    Blob(Vec<u8>),
    /// The 32-bit float with the bit pattern `bits`, divided by `divisor`.
    Scaled { bits: u32, divisor: u64 },
}

/// The mathematical value of a [`SqlValue`].
pub enum SqlValueView {
    Text(Seq<char>),
    Integer(u64),
    Blob(Seq<u8>),
    Scaled { bits: u32, divisor: u64 },
}

impl View for SqlValue {
    type V = SqlValueView;

    open spec fn view(&self) -> SqlValueView {
        match self {
            SqlValue::Text(s) => SqlValueView::Text(s@),
            SqlValue::Integer(n) => SqlValueView::Integer(*n),
            SqlValue::Blob(b) => SqlValueView::Blob(b@),
            SqlValue::Scaled { bits, divisor } => SqlValueView::Scaled {
                bits: *bits,
                divisor: *divisor,
            },
        }
    }
}

/// A named placeholder together with its value.
#[derive(Debug)]
pub struct Binding {
    pub name: String,
    pub value: SqlValue,
}

/// The mathematical value of a [`Binding`].
pub struct BindingView {
    pub name: Seq<char>,
    pub value: SqlValueView,
}

impl View for Binding {
    type V = BindingView;

    open spec fn view(&self) -> BindingView {
        BindingView { name: self.name@, value: self.value@ }
    }
}

/// The values of a list of bindings, in order.
pub open spec fn bindings_view(v: Seq<Binding>) -> Seq<BindingView> {
    v.map_values(|b: Binding| b@)
}

pub open spec fn text_binding(name: Seq<char>, value: Seq<char>) -> BindingView {
    BindingView { name, value: SqlValueView::Text(value) }
}

pub open spec fn integer_binding(name: Seq<char>, value: u64) -> BindingView {
    BindingView { name, value: SqlValueView::Integer(value) }
}

pub open spec fn blob_binding(name: Seq<char>, value: Seq<u8>) -> BindingView {
    BindingView { name, value: SqlValueView::Blob(value) }
}

pub open spec fn weight_binding(name: Seq<char>, bits: u32) -> BindingView {
    BindingView {
        name,
        value: SqlValueView::Scaled { bits, divisor: WEIGHT_SCALE },
    }
}

impl Binding {
    /// Binds a text.
    pub fn text(name: &str, value: &str) -> (b: Binding)
        ensures
            b@ == text_binding(name@, value@),
    {
        Binding { name: name.to_owned(), value: SqlValue::Text(value.to_owned()) }
    }

    /// Binds an unsigned integer.
    pub fn integer(name: &str, value: u64) -> (b: Binding)
        ensures
            b@ == integer_binding(name@, value),
    {
        Binding { name: name.to_owned(), value: SqlValue::Integer(value) }
    }

    /// Binds a copy of a byte string.
    pub fn blob(name: &str, value: &Vec<u8>) -> (b: Binding)
        ensures
            b@ == blob_binding(name@, value@),
    {
        let mut bytes: Vec<u8> = Vec::new();
        let mut i: usize = 0;
        while i < value.len()
            invariant
                i <= value.len(),
                bytes@ == value@.take(i as int),
            decreases value.len() - i,
        {
            bytes.push(value[i]);
            i += 1;
        }
        assert(value@.take(value.len() as int) == value@);
        Binding { name: name.to_owned(), value: SqlValue::Blob(bytes) }
    }

    /// Binds a weight given in percent, by the bit pattern of its 32-bit
    /// float, as that number divided by [`WEIGHT_SCALE`].
    pub fn weight(name: &str, bits: u32) -> (b: Binding)
        ensures
            b@ == weight_binding(name@, bits),
    {
        Binding {
            name: name.to_owned(),
            value: SqlValue::Scaled { bits, divisor: WEIGHT_SCALE },
        }
    }
}

/// Every table, index and trigger but the vector index.
pub const SCHEMA_CORE: &'static str =
    "create table if not exists raw_record(id integer primary key, email text, nombre text, sexo text, fecha_nacimiento text, edad integer not null, provincia text, ciudad text, descripcion text, estudios text, experiencia text, estudios_mas_recientes text); create table if not exists history(id integer primary key, query_text text not null unique, timestamp datetime default current_timestamp); create table if not exists record(id integer primary key, email text, province text, city text, age integer not null, sex text, template_text text); create virtual table if not exists lex_record using fts5(email, age, province, city, sex, template_text, content='record', content_rowid='id'); create virtual table if not exists lex_history using fts5(query_text, content='history', content_rowid='id'); create trigger if not exists after_insert_history after insert on history begin insert into lex_history(rowid, query_text) values (new.id, new.query_text); end; create trigger if not exists after_update_history after update on history begin update lex_history set query_text = new.query_text where rowid = old.id; end; create trigger if not exists after_delete_history after delete on history begin delete from lex_history where rowid = old.id; end;";


/// The vector index, up to its dimension.
pub const VECTOR_HEAD: &'static str =
    " create virtual table if not exists vec_record using vec0(row_id integer primary key, embedding float[";

/// The vector index, after its dimension.
pub const VECTOR_TAIL: &'static str = "]);";

/// Asks the store and the vector extension for their versions.
pub const VERSIONS: &'static str = "select sqlite_version(), vec_version()";

/// Asks for the definition of the vector index, if there is one.
pub const VECTOR_TABLE_SQL: &'static str =
    "select sql from sqlite_master where type = 'table' and name = 'vec_record'";

/// Counts the records.
pub const COUNT_RECORDS: &'static str = "select count(*) from record";

/// Drops the record table.
pub const DROP_RECORD: &'static str = "drop table if exists record";

/// Drops the raw table.
pub const DROP_RAW: &'static str = "drop table if exists raw_record";

/// Drops the vector index.
pub const DROP_VECTORS: &'static str = "drop table if exists vec_record";

/// Reads the id and the narrative text of every record.
pub const SELECT_TEMPLATES: &'static str = "select id, template_text from record";

/// Inserts one row of the vector index.
pub const INSERT_EMBEDDING: &'static str =
    "insert into vec_record(row_id, embedding) values (:row_id, :embedding)";

/// Fills the lexical index from the record table and optimises it.
pub const SYNC_LEXICAL: &'static str =
    "insert into lex_record(rowid, email, province, city, age, sex, template_text) select id, email, province, city, age, sex, template_text from record; insert into lex_record(lex_record) values('optimize');";

/// Records a query, replacing an earlier entry of the same text.
pub const RECORD_HISTORY: &'static str =
    "insert or replace into history(query_text) values (:query)";

/// Lists the history, the latest entry first.
pub const LIST_HISTORY: &'static str =
    "select id, query_text from history order by timestamp desc";

/// Opens a transaction.
pub const BEGIN: &'static str = "BEGIN TRANSACTION";

/// Commits the open transaction.
pub const COMMIT: &'static str = "COMMIT";

/// Rolls the open transaction back.
pub const ROLLBACK: &'static str = "ROLLBACK";

/// The statements that create every table, index and trigger that is not
/// there yet, with a vector index of `vector_dim` numbers.
pub fn schema_statement(vector_dim: u64) -> (out: String)
    ensures
        out@ == SCHEMA_CORE@ + VECTOR_HEAD@ + decimal(vector_dim as nat) + VECTOR_TAIL@,
{
    let mut out: Vec<char> = Vec::new();
    push_text(&mut out, SCHEMA_CORE);
    push_text(&mut out, VECTOR_HEAD);
    push_decimal(&mut out, vector_dim);
    push_text(&mut out, VECTOR_TAIL);
    string_of(&out)
}

/// The mark before the dimension in the definition of a vector column.
pub open spec fn dimension_mark() -> Seq<char> {
    seq!['f', 'l', 'o', 'a', 't', '[']
}

/// The dimension that the definition of a vector table records: the
/// number between the first `float[` and the first `]` after it.
pub open spec fn dimension_in(sql: Seq<char>) -> Option<u64> {
    let o = first_match(sql, dimension_mark(), 0);
    if o >= sql.len() {
        None
    } else {
        let c = first_match(sql, seq![']'], o + 6);
        if c >= sql.len() {
            None
        } else {
            unsigned_of(sql.subrange(o + 6, c))
        }
    }
}

/// Reads the dimension out of the definition of a vector table.
pub fn recorded_dimension(sql: &str) -> (out: Option<u64>)
    ensures
        out == dimension_in(sql@),
{
    let v = chars_of(sql);
    let mut mark: Vec<char> = Vec::new();
    mark.push('f');
    mark.push('l');
    mark.push('o');
    mark.push('a');
    mark.push('t');
    mark.push('[');
    assert(mark@ == dimension_mark());
    let mut close: Vec<char> = Vec::new();
    close.push(']');
    assert(close@ == seq![']']);
    match find_from(&v, &mark, 0) {
        None => None,
        Some(o) => {
            proof {
                lemma_first_match(v@, dimension_mark(), 0);
            }
            match find_from(&v, &close, o + 6) {
                None => None,
                Some(c) => {
                    proof {
                        lemma_first_match(v@, seq![']'], o + 6);
                    }
                    let mut digits: Vec<char> = Vec::new();
                    push_range(&mut digits, &v, o + 6, c);
                    let text = string_of(&digits);
                    parse_unsigned(text.as_str())
                },
            }
        },
    }
}

/// What has to be done to a store before it is used.
#[derive(Debug, Clone, Copy, PartialEq, Eq, Structural)]
pub enum InitPlan {
    /// There is no vector index yet: create the schema.
    Create,
    /// The vector index has the dimension asked for: create what else may
    /// be missing.
    Keep,
}

/// Why a store cannot be used.
#[derive(Debug, Clone, Copy, PartialEq, Eq, Structural)]
pub enum StoreError {
    /// The store was set up for vectors of another dimension.
    DimensionMismatch { recorded: u64, requested: u64 },
}

/// What initialising does to a store whose vector index records the given
/// dimension, if any.
pub open spec fn init_plan(recorded: Option<u64>, requested: u64) -> Result<InitPlan, StoreError> {
    match recorded {
        None => Ok(InitPlan::Create),
        Some(d) => if d == requested {
            Ok(InitPlan::Keep)
        } else {
            Err(StoreError::DimensionMismatch { recorded: d, requested })
        },
    }
}

/// Decides what initialising does: a fresh store is created, a store of
/// the dimension asked for is kept, and any other is refused.
pub fn plan_initialize(recorded: Option<u64>, requested: u64) -> (out: Result<InitPlan, StoreError>)
    ensures
        out == init_plan(recorded, requested),
{
    match recorded {
        None => Ok(InitPlan::Create),
        Some(d) => {
            if d == requested {
                Ok(InitPlan::Keep)
            } else {
                Err(StoreError::DimensionMismatch { recorded: d, requested })
            }
        },
    }
}

/// One entry of the query history.
#[derive(Debug, Clone)]
pub struct Historial {
    pub id: u64,
    pub query: String,
}

impl Historial {
    /// The entry with the given id and query.
    #[must_use]
    pub fn new(id: u64, query: String) -> (out: Historial)
        ensures
            out.id == id,
            out.query == query,
    {
        Historial { id, query }
    }
}

impl Default for Historial {
    fn default() -> (out: Historial)
        ensures
            out.id == 0,
            out.query@ == Seq::<char>::empty(),
    {
        Historial { id: 0, query: String::new() }
    }
}

/// The bindings of [`RECORD_HISTORY`] for a raw query, which is recorded
/// as the user wrote it.
pub fn history_bindings(query: &str) -> (out: Vec<Binding>)
    ensures
        bindings_view(out@) == seq![text_binding(":query"@, query@)],
{
    let mut out: Vec<Binding> = Vec::new();
    out.push(Binding::text(":query", query));
    assert(bindings_view(out@) =~= seq![text_binding(":query"@, query@)]);
    out
}

/// The bindings of [`INSERT_EMBEDDING`] for one row.
pub fn embedding_bindings(row_id: u64, payload: &Vec<u8>) -> (out: Vec<Binding>)
    ensures
        bindings_view(out@) == seq![
            integer_binding(":row_id"@, row_id),
            blob_binding(":embedding"@, payload@),
        ],
{
    let mut out: Vec<Binding> = Vec::new();
    out.push(Binding::integer(":row_id", row_id));
    out.push(Binding::blob(":embedding", payload));
    assert(bindings_view(out@) =~= seq![
        integer_binding(":row_id"@, row_id),
        blob_binding(":embedding"@, payload@),
    ]);
    out
}

/// A history without the entries of one text, the others in their order.
pub open spec fn others(history: Seq<Seq<char>>, query: Seq<char>) -> Seq<Seq<char>>
    decreases history.len(),
{
    if history.len() == 0 {
        Seq::empty()
    } else if history.last() == query {
        others(history.drop_last(), query)
    } else {
        others(history.drop_last(), query).push(history.last())
    }
}

/// The history, oldest entry first, after [`RECORD_HISTORY`] ran for a
/// query: an entry of the same text is replaced, and the query is the
/// latest entry.
pub open spec fn recorded(history: Seq<Seq<char>>, query: Seq<char>) -> Seq<Seq<char>> {
    others(history, query).push(query)
}

/// The history after a query was submitted `times` times.
pub open spec fn submitted(history: Seq<Seq<char>>, query: Seq<char>, times: nat) -> Seq<
    Seq<char>,
>
    decreases times,
{
    if times == 0 {
        history
    } else {
        recorded(submitted(history, query, (times - 1) as nat), query)
    }
}

/// The number of entries of one text.
pub open spec fn entries_of(history: Seq<Seq<char>>, query: Seq<char>) -> nat
    decreases history.len(),
{
    if history.len() == 0 {
        0
    } else if history.last() == query {
        1 + entries_of(history.drop_last(), query)
    } else {
        entries_of(history.drop_last(), query)
    }
}

proof fn lemma_others(history: Seq<Seq<char>>, query: Seq<char>)
    ensures
        entries_of(others(history, query), query) == 0,
        entries_of(history, query) == 0 ==> others(history, query) == history,
    decreases history.len(),
{
    if history.len() > 0 {
        let init = history.drop_last();
        lemma_others(init, query);
        if history.last() != query {
            let kept = others(init, query).push(history.last());
            assert(kept.drop_last() =~= others(init, query));
            if entries_of(history, query) == 0 {
                assert(init.push(history.last()) =~= history);
            }
        }
    } else {
        assert(others(history, query) =~= history);
    }
}

/// Recording a query leaves exactly one entry of its text, the latest, and
/// every entry of another text as it was.
pub proof fn lemma_recorded_once(history: Seq<Seq<char>>, query: Seq<char>)
    ensures
        entries_of(recorded(history, query), query) == 1,
        recorded(history, query).last() == query,
        recorded(history, query).drop_last() == others(history, query),
        recorded(recorded(history, query), query) == recorded(history, query),
{
    lemma_others(history, query);
    let once = recorded(history, query);
    assert(once.drop_last() =~= others(history, query));
    lemma_others(others(history, query), query);
    assert(others(once, query) == others(history, query));
}

/// However often the same query is submitted, the history holds one entry
/// of its text, and that entry is the latest: submitting it again changes
/// nothing but its place in time.
pub proof fn lemma_history_is_idempotent(history: Seq<Seq<char>>, query: Seq<char>, times: nat)
    requires
        times >= 1,
    ensures
        submitted(history, query, times) == recorded(history, query),
        entries_of(submitted(history, query, times), query) == 1,
        submitted(history, query, times).last() == query,
    decreases times,
{
    lemma_recorded_once(history, query);
    if times > 1 {
        lemma_history_is_idempotent(history, query, (times - 1) as nat);
    } else {
        assert(submitted(history, query, 0) == history);
    }
}

} // verus!
