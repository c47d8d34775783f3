//! The rules of ingestion: which files are sources, which headers a
//! tabular source must have, how loosely typed fields are read, what a raw
//! record looks like when it is stored, and when anything is loaded at all.

use crate::normalize::{checked_clean_html, cleaned, normalize, normalized, SANITIZE_LIMIT};
use crate::sexo::{sex_named, Sexo};
use crate::store::{bindings_view, integer_binding, text_binding, Binding, BindingView};
use crate::template::Template;
use crate::text::{
    chars_of, no_ascii_capital, parse_unsigned, push_text, same_text, string_of, texts,
    unsigned_of,
};
use vstd::prelude::*;

verus! {

/// The kind of a source file.
#[derive(Debug, Clone, Copy, PartialEq, Eq, Structural)]
pub enum DataSources {
    Csv,
    Json,
}

/// Why ingestion cannot go on.
#[derive(Debug)]
pub enum IngestError {
    /// A file has an extension that is neither `csv` nor `json`.
    UnknownExtension(String),
    /// A tabular file lacks a column that the template reads.
    MissingHeader(String),
    /// A narrative field is too long to be sanitised.
    FieldTooLong(String),
}

/// The kind that an extension stands for.
pub open spec fn source_kind(ext: Seq<char>) -> Option<DataSources> {
    if ext == "csv"@ {
        Some(DataSources::Csv)
    } else if ext == "json"@ {
        Some(DataSources::Json)
    } else {
        None
    }
}

impl IngestError {
    /// The name that the error is about: the extension or the header.
    pub open spec fn subject(self) -> Seq<char> {
        match self {
            IngestError::UnknownExtension(ext) => ext@,
            IngestError::MissingHeader(field) => field@,
            IngestError::FieldTooLong(field) => field@,
        }
    }

    /// The message shown for the error.
    pub fn message(&self) -> (out: String)
        ensures
            out@ == match self {
                IngestError::UnknownExtension(ext) => "Extension desconocida "@ + ext@,
                IngestError::MissingHeader(field) => "El archivo no tiene el header "@ + field@,
                IngestError::FieldTooLong(field) => "El campo es demasiado largo: "@ + field@,
            },
    {
        let mut out: Vec<char> = Vec::new();
        match self {
            IngestError::UnknownExtension(ext) => {
                push_text(&mut out, "Extension desconocida ");
                push_text(&mut out, ext.as_str());
            },
            IngestError::MissingHeader(field) => {
                push_text(&mut out, "El archivo no tiene el header ");
                push_text(&mut out, field.as_str());
            },
            IngestError::FieldTooLong(field) => {
                push_text(&mut out, "El campo es demasiado largo: ");
                push_text(&mut out, field.as_str());
            },
        }
        string_of(&out)
    }
}

impl DataSources {
    /// The kind of a file with the given extension: `csv` and `json` are
    /// known, and every other extension is an error that names it.
    pub fn from_extension(ext: &str) -> (out: Result<DataSources, IngestError>)
        ensures
            match out {
                Ok(kind) => source_kind(ext@) == Some(kind),
                Err(e) => source_kind(ext@) is None && e is UnknownExtension && e.subject() == ext@,
            },
    {
        if same_text(ext, "csv") {
            Ok(DataSources::Csv)
        } else if same_text(ext, "json") {
            Ok(DataSources::Json)
        } else {
            Err(IngestError::UnknownExtension(ext.to_owned()))
        }
    }
}

/// What is known of one entry of the source directory.
#[derive(Debug)]
pub struct SourceEntry {
    pub is_file: bool,
    pub extension: Option<String>,
}

/// The sources among the first entries of a directory, each with its
/// index, or the first extension that is unknown. Entries that are no
/// files, and files without an extension, are passed over.
pub open spec fn sources_among(entries: Seq<SourceEntry>) -> Result<
    Seq<(usize, DataSources)>,
    Seq<char>,
>
    decreases entries.len(),
{
    if entries.len() == 0 {
        Ok(Seq::empty())
    } else {
        match sources_among(entries.drop_last()) {
            Err(ext) => Err(ext),
            Ok(found) => {
                let last = entries.last();
                match last.extension {
                    Some(ext) if last.is_file => match source_kind(ext@) {
                        Some(kind) => Ok(found.push(((entries.len() - 1) as usize, kind))),
                        None => Err(ext@),
                    },
                    _ => Ok(found),
                }
            },
        }
    }
}

/// Picks the sources out of the entries of a directory.
pub fn select_sources(entries: &Vec<SourceEntry>) -> (out: Result<
    Vec<(usize, DataSources)>,
    IngestError,
>)
    ensures
        match out {
            Ok(found) => sources_among(entries@) == Ok::<_, Seq<char>>(found@),
            Err(e) => e is UnknownExtension && sources_among(entries@) == Err::<
                Seq<(usize, DataSources)>,
                _,
            >(e.subject()),
        },
{
    let mut found: Vec<(usize, DataSources)> = Vec::new();
    let mut i: usize = 0;
    while i < entries.len()
        invariant
            i <= entries.len(),
            sources_among(entries@.take(i as int)) == Ok::<_, Seq<char>>(found@),
        decreases entries.len() - i,
    {
        proof {
            assert(entries@.take(i + 1).drop_last() =~= entries@.take(i as int));
            assert(entries@.take(i + 1).last() == entries@[i as int]);
        }
        if entries[i].is_file {
            match &entries[i].extension {
                Some(ext) => {
                    match DataSources::from_extension(ext.as_str()) {
                        Ok(kind) => {
                            found.push((i, kind));
                        },
                        Err(e) => {
                            proof {
                                lemma_error_stays(entries@, i + 1);
                            }
                            return Err(e);
                        },
                    }
                },
                None => {},
            }
        }
        i += 1;
    }
    assert(entries@.take(entries.len() as int) == entries@);
    Ok(found)
}

/// An unknown extension among the first `n` entries is the result for all
/// entries.
proof fn lemma_error_stays(entries: Seq<SourceEntry>, n: int)
    requires
        0 <= n <= entries.len(),
        sources_among(entries.take(n)) is Err,
    ensures
        sources_among(entries) == sources_among(entries.take(n)),
    decreases entries.len() - n,
{
    if n < entries.len() {
        assert(entries.take(n + 1).drop_last() =~= entries.take(n));
        lemma_error_stays(entries, n + 1);
    } else {
        assert(entries.take(n) =~= entries);
    }
}

/// Whether `i` is the first field that is no header.
pub open spec fn first_missing(headers: Seq<Seq<char>>, fields: Seq<Seq<char>>, i: int) -> bool {
    &&& 0 <= i < fields.len()
    &&& !headers.contains(fields[i])
    &&& forall|j: int| 0 <= j < i ==> headers.contains(#[trigger] fields[j])
}

/// Whether every field is a header.
pub open spec fn covered(headers: Seq<Seq<char>>, fields: Seq<Seq<char>>) -> bool {
    forall|j: int| 0 <= j < fields.len() ==> headers.contains(#[trigger] fields[j])
}

/// Whether `name` is one of `headers`.
fn is_header(headers: &Vec<String>, name: &str) -> (found: bool)
    ensures
        found == texts(headers@).contains(name@),
{
    let mut k: usize = 0;
    while k < headers.len()
        invariant
            k <= headers.len(),
            forall|m: int| 0 <= m < k ==> (#[trigger] texts(headers@)[m]) != name@,
        decreases headers.len() - k,
    {
        assert(texts(headers@)[k as int] == headers[k as int]@);
        if same_text(headers[k].as_str(), name) {
            return true;
        }
        k += 1;
    }
    false
}

/// The first field of the template that is no header of a tabular file.
pub fn missing_field(headers: &Vec<String>, fields: &Vec<String>) -> (out: Option<usize>)
    ensures
        match out {
            Some(i) => first_missing(texts(headers@), texts(fields@), i as int),
            None => covered(texts(headers@), texts(fields@)),
        },
{
    let mut i: usize = 0;
    while i < fields.len()
        invariant
            i <= fields.len(),
            forall|j: int| 0 <= j < i ==> texts(headers@).contains(#[trigger] texts(fields@)[j]),
        decreases fields.len() - i,
    {
        assert(texts(fields@)[i as int] == fields[i as int]@);
        if !is_header(headers, fields[i].as_str()) {
            return Some(i);
        }
        i += 1;
    }
    None
}

/// Checks that a tabular file has every column that the template reads;
/// the error names the first that it lacks.
pub fn check_headers(headers: &Vec<String>, template: &Template) -> (out: Result<(), IngestError>)
    ensures
        out is Ok <==> covered(texts(headers@), texts(template.fields@)),
        out matches Err(e) ==> e is MissingHeader && exists|i: int|
            first_missing(texts(headers@), texts(template.fields@), i) && e.subject() == texts(
                template.fields@,
            )[i],
{
    match missing_field(headers, &template.fields) {
        Some(i) => {
            let name = template.fields[i].clone();
            assert(texts(template.fields@)[i as int] == template.fields[i as int]@);
            Err(IngestError::MissingHeader(name))
        },
        None => Ok(()),
    }
}

/// A value found where an age is expected.
#[derive(Debug)]
pub enum AgeValue {
    Null,
    Text(String),
    /// A number, with its value if it is an unsigned integer of 64 bits.
    Number(Option<u64>),
    /// A boolean, a list or an object.
    Other,
}

/// Why a record was rejected.
#[derive(Debug, Clone, Copy, PartialEq, Eq, Structural)]
pub enum DeserializationError {
    /// A text that is no unsigned number.
    InvalidDigits,
    /// A number that is negative, fractional or too large.
    InvalidNumber,
    /// Neither text nor number.
    UnexpectedType,
}

impl DeserializationError {
    /// The message shown for the error.
    pub fn message(&self) -> (out: &'static str)
        ensures
            out@ == match self {
                DeserializationError::InvalidDigits => "invalid digit found in string"@,
                DeserializationError::InvalidNumber => "Invalid number format"@,
                DeserializationError::UnexpectedType => "Expected string or number"@,
            },
    {
        match self {
            DeserializationError::InvalidDigits => "invalid digit found in string",
            DeserializationError::InvalidNumber => "Invalid number format",
            DeserializationError::UnexpectedType => "Expected string or number",
        }
    }
}

/// The age that a loosely typed value stands for. Nothing and the empty
/// text stand for zero; any other text has to write an unsigned number; a
/// number has to be an unsigned integer; and the value has to fit in a
/// machine word.
pub open spec fn age_of(value: AgeValue) -> Result<usize, DeserializationError> {
    match value {
        AgeValue::Null => Ok(0),
        AgeValue::Text(s) => if s@.len() == 0 {
            Ok(0)
        } else {
            match unsigned_of(s@) {
                Some(n) if n <= usize::MAX => Ok(n as usize),
                _ => Err(DeserializationError::InvalidDigits),
            }
        },
        AgeValue::Number(Some(n)) => if n <= usize::MAX {
            Ok(n as usize)
        } else {
            Err(DeserializationError::InvalidNumber)
        },
        AgeValue::Number(None) => Err(DeserializationError::InvalidNumber),
        AgeValue::Other => Err(DeserializationError::UnexpectedType),
    }
}

/// Reads an age from a loosely typed value.
pub fn coerce_age(value: &AgeValue) -> (out: Result<usize, DeserializationError>)
    ensures
        out == age_of(*value),
{
    match value {
        AgeValue::Null => Ok(0),
        AgeValue::Text(s) => {
            if s.as_str().unicode_len() == 0 {
                Ok(0)
            } else {
                match parse_unsigned(s.as_str()) {
                    Some(n) => {
                        if n <= usize::MAX as u64 {
                            Ok(n as usize)
                        } else {
                            Err(DeserializationError::InvalidDigits)
                        }
                    },
                    None => Err(DeserializationError::InvalidDigits),
                }
            }
        },
        AgeValue::Number(Some(n)) => {
            if *n <= usize::MAX as u64 {
                Ok(*n as usize)
            } else {
                Err(DeserializationError::InvalidNumber)
            }
        },
        AgeValue::Number(None) => Err(DeserializationError::InvalidNumber),
        AgeValue::Other => Err(DeserializationError::UnexpectedType),
    }
}

/// The text of an optional field: empty where there is none.
pub fn default_if_empty(value: Option<String>) -> (out: String)
    ensures
        out@ == match value {
            Some(s) => s@,
            None => Seq::<char>::empty(),
        },
{
    match value {
        Some(s) => s,
        None => String::new(),
    }
}

/// A candidate as the sources give it.
#[derive(Debug, Clone, Default)]
pub struct TneaData {
    pub email: String,
    pub nombre: String,
    pub sexo: String,
    pub fecha_nacimiento: String,
    pub edad: usize,
    pub provincia: String,
    pub ciudad: String,
    pub descripcion: String,
    pub estudios: String,
    pub experiencia: String,
    pub estudios_mas_recientes: String,
}

/// The mathematical value of a [`TneaData`].
pub struct TneaDataView {
    pub email: Seq<char>,
    pub nombre: Seq<char>,
    pub sexo: Seq<char>,
    pub fecha_nacimiento: Seq<char>,
    pub edad: usize,
    pub provincia: Seq<char>,
    pub ciudad: Seq<char>,
    pub descripcion: Seq<char>,
    pub estudios: Seq<char>,
    pub experiencia: Seq<char>,
    pub estudios_mas_recientes: Seq<char>,
}

impl View for TneaData {
    type V = TneaDataView;

    open spec fn view(&self) -> TneaDataView {
        TneaDataView {
            email: self.email@,
            nombre: self.nombre@,
            sexo: self.sexo@,
            fecha_nacimiento: self.fecha_nacimiento@,
            edad: self.edad,
            provincia: self.provincia@,
            ciudad: self.ciudad@,
            descripcion: self.descripcion@,
            estudios: self.estudios@,
            experiencia: self.experiencia@,
            estudios_mas_recientes: self.estudios_mas_recientes@,
        }
    }
}

/// A candidate as it is stored: the sex as one of its three letters,
/// province and city in normal form, the four narrative fields sanitised,
/// everything else as given.
pub open spec fn stored_form(d: TneaDataView) -> TneaDataView {
    TneaDataView {
        email: d.email,
        nombre: d.nombre,
        sexo: sex_named(d.sexo).letter(),
        fecha_nacimiento: d.fecha_nacimiento,
        edad: d.edad,
        provincia: normalized(d.provincia),
        ciudad: normalized(d.ciudad),
        descripcion: cleaned(d.descripcion),
        estudios: cleaned(d.estudios),
        experiencia: cleaned(d.experiencia),
        estudios_mas_recientes: cleaned(d.estudios_mas_recientes),
    }
}

/// Inserts one candidate into the raw table.
pub const INSERT_RAW: &'static str =
    "insert into raw_record (email, nombre, sexo, fecha_nacimiento, edad, provincia, ciudad, descripcion, estudios, estudios_mas_recientes, experiencia) values (:email, :nombre, :sexo, :fecha_nacimiento, :edad, :provincia, :ciudad, :descripcion, :estudios, :estudios_mas_recientes, :experiencia)";

/// The bindings of [`INSERT_RAW`] for a candidate: each column of the raw
/// table takes the field of the same name.
pub open spec fn raw_bindings(d: TneaDataView) -> Seq<BindingView> {
    seq![
        text_binding(":email"@, d.email),
        text_binding(":nombre"@, d.nombre),
        text_binding(":sexo"@, d.sexo),
        text_binding(":fecha_nacimiento"@, d.fecha_nacimiento),
        integer_binding(":edad"@, d.edad as u64),
        text_binding(":provincia"@, d.provincia),
        text_binding(":ciudad"@, d.ciudad),
        text_binding(":descripcion"@, d.descripcion),
        text_binding(":estudios"@, d.estudios),
        text_binding(":estudios_mas_recientes"@, d.estudios_mas_recientes),
        text_binding(":experiencia"@, d.experiencia),
    ]
}

/// The first narrative field of a candidate that is too long to be
/// sanitised, by its name.
pub open spec fn overlong_field(d: TneaDataView) -> Option<Seq<char>> {
    if d.descripcion.len() > SANITIZE_LIMIT {
        Some("descripcion"@)
    } else if d.estudios.len() > SANITIZE_LIMIT {
        Some("estudios"@)
    } else if d.experiencia.len() > SANITIZE_LIMIT {
        Some("experiencia"@)
    } else if d.estudios_mas_recientes.len() > SANITIZE_LIMIT {
        Some("estudios_mas_recientes"@)
    } else {
        None
    }
}

impl TneaData {
    /// Brings a candidate into its stored form, in which province and city
    /// hold no ASCII capital. A candidate with a
    /// narrative field too long to be sanitised is refused, with the name
    /// of the first such field.
    pub fn prepare(self) -> (out: Result<TneaData, IngestError>)
        ensures
            match out {
                Ok(stored) => overlong_field(self@) is None && stored@ == stored_form(self@)
                    && no_ascii_capital(stored.provincia@) && no_ascii_capital(stored.ciudad@),
                Err(e) => e is FieldTooLong && overlong_field(self@) == Some(e.subject()),
            },
    {
        let descripcion = match checked_clean_html(self.descripcion) {
            Some(text) => text,
            None => {
                return Err(IngestError::FieldTooLong("descripcion".to_owned()));
            },
        };
        let estudios = match checked_clean_html(self.estudios) {
            Some(text) => text,
            None => {
                return Err(IngestError::FieldTooLong("estudios".to_owned()));
            },
        };
        let experiencia = match checked_clean_html(self.experiencia) {
            Some(text) => text,
            None => {
                return Err(IngestError::FieldTooLong("experiencia".to_owned()));
            },
        };
        let estudios_mas_recientes = match checked_clean_html(self.estudios_mas_recientes) {
            Some(text) => text,
            None => {
                return Err(IngestError::FieldTooLong("estudios_mas_recientes".to_owned()));
            },
        };
        Ok(
            TneaData {
                provincia: normalize(self.provincia.as_str()),
                ciudad: normalize(self.ciudad.as_str()),
                descripcion,
                estudios,
                experiencia,
                estudios_mas_recientes,
                email: self.email,
                nombre: self.nombre,
                sexo: Sexo::parse(self.sexo.as_str()).to_sql_text().to_owned(),
                fecha_nacimiento: self.fecha_nacimiento,
                edad: self.edad,
            },
        )
    }

    /// The bindings with which the candidate, as it stands, is inserted.
    pub fn bindings(&self) -> (out: Vec<Binding>)
        ensures
            bindings_view(out@) == raw_bindings(self@),
    {
        let mut out: Vec<Binding> = Vec::new();
        out.push(Binding::text(":email", self.email.as_str()));
        out.push(Binding::text(":nombre", self.nombre.as_str()));
        out.push(Binding::text(":sexo", self.sexo.as_str()));
        out.push(Binding::text(":fecha_nacimiento", self.fecha_nacimiento.as_str()));
        out.push(Binding::integer(":edad", self.edad as u64));
        out.push(Binding::text(":provincia", self.provincia.as_str()));
        out.push(Binding::text(":ciudad", self.ciudad.as_str()));
        out.push(Binding::text(":descripcion", self.descripcion.as_str()));
        out.push(Binding::text(":estudios", self.estudios.as_str()));
        out.push(Binding::text(":estudios_mas_recientes", self.estudios_mas_recientes.as_str()));
        out.push(Binding::text(":experiencia", self.experiencia.as_str()));
        assert(bindings_view(out@) =~= raw_bindings(self@));
        out
    }
}

/// What an ingestion does to the record table.
#[derive(Debug, Clone, Copy, PartialEq, Eq, Structural)]
pub enum IngestPlan {
    /// The table has rows and stays as it is.
    Skip,
    /// The table is empty and takes the corpus.
    Load,
    /// The tables are dropped and made anew, then take the corpus.
    Rebuild,
}

/// The plan for a record table with `rows` rows.
pub open spec fn planned(rows: nat, force: bool) -> IngestPlan {
    if force {
        IngestPlan::Rebuild
    } else if rows != 0 {
        IngestPlan::Skip
    } else {
        IngestPlan::Load
    }
}

/// Decides what an ingestion does: with `force` it rebuilds; without, it
/// loads into an empty table and leaves any other alone.
pub fn plan_ingest(rows: u64, force: bool) -> (out: IngestPlan)
    ensures
        out == planned(rows as nat, force),
{
    if force {
        IngestPlan::Rebuild
    } else if rows != 0 {
        IngestPlan::Skip
    } else {
        IngestPlan::Load
    }
}

/// The records after an ingestion of `corpus` that found `before`.
pub open spec fn records_after<R>(before: Seq<R>, corpus: Seq<R>, force: bool) -> Seq<R> {
    match planned(before.len(), force) {
        IngestPlan::Skip => before,
        IngestPlan::Load => before + corpus,
        IngestPlan::Rebuild => corpus,
    }
}

/// Ingesting twice without `force` is ingesting once; and on an empty
/// store, what is there afterwards is exactly the corpus.
pub proof fn lemma_ingest_is_idempotent<R>(before: Seq<R>, corpus: Seq<R>)
    ensures
        records_after(records_after(before, corpus, false), corpus, false) == records_after(
            before,
            corpus,
            false,
        ),
        before.len() == 0 ==> records_after(before, corpus, false) == corpus,
{
    let once = records_after(before, corpus, false);
    if before.len() == 0 {
        assert(once =~= corpus);
        if corpus.len() == 0 {
            assert(once + corpus =~= once);
        }
    }
}

/// A forced ingestion leaves, whatever it found, what an ingestion into an
/// empty store leaves.
pub proof fn lemma_force_is_fresh<R>(before: Seq<R>, corpus: Seq<R>)
    ensures
        records_after(before, corpus, true) == records_after(Seq::<R>::empty(), corpus, false),
{
    assert(Seq::<R>::empty() + corpus =~= corpus);
}

/// The projection, up to the expression of the narrative text.
pub const PROJECT_HEAD: &'static str =
    "insert into record(email, province, city, age, sex, template_text) select email, provincia, ciudad, edad, sexo, ";

/// The projection, after the expression of the narrative text.
pub const PROJECT_TAIL: &'static str = " from raw_record;";

/// The statement that fills the record table from the raw table, with the
/// compiled template as the expression of the narrative text.
pub fn projection_statement(template: &Template) -> (out: String)
    ensures
        out@ == PROJECT_HEAD@ + template.template@ + PROJECT_TAIL@,
{
    let mut out: Vec<char> = Vec::new();
    push_text(&mut out, PROJECT_HEAD);
    push_text(&mut out, template.template.as_str());
    push_text(&mut out, PROJECT_TAIL);
    string_of(&out)
}

} // verus!
