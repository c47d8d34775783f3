//! Assembly of the five ranked queries: statement text with named
//! placeholders, and the values bound to them.

use crate::query::{SearchString, SearchStringView};
use crate::sexo::Sexo;
use crate::store::{
    bindings_view, blob_binding, integer_binding, text_binding, weight_binding, Binding,
    BindingView, WEIGHT_SCALE,
};
use crate::text::{
    decimal, lowercase_of, push_decimal, push_text, same_text, string_of, to_lowercase,
};
use vstd::prelude::*;
use vstd::string::StringExecFns;

verus! {

/// The constant of reciprocal rank fusion.
pub const RRF_K: u64 = 60;

/// The lexical search, up to its age condition.
pub const SELECT_FTS: &'static str =
    "select rank as score, email, province, city, age, sex, highlight(lex_record, 5, '<b style=\"color: green;\">', '</b>') as template from lex_record where template_text match :term and age between :age_min and :age_max";

/// The semantic search, up to its age condition.
pub const SELECT_SEMANTIC: &'static str =
    "select vec_record.distance, record.email, record.province, record.city, record.age, record.sex, record.template_text from vec_record join record on record.id = vec_record.row_id where embedding match :embedding and k = 1000 and record.age between :age_min and :age_max";

/// Reciprocal rank fusion of both searches, up to its age condition.
pub const SELECT_RRF: &'static str =
    "with vec_matches as (select row_id, row_number() over (order by distance) as vec_rank, distance from vec_record where embedding match :embedding and k = :k), fts_matches as (select rowid as row_id, row_number() over (order by rank) as fts_rank, rank as fts_score from lex_record where template_text match :term), final as (select record.template_text, record.email, record.province, record.city, record.age, record.sex, vec_matches.vec_rank, fts_matches.fts_rank, (coalesce(1.0 / (:rrf_k + fts_matches.fts_rank), 0.0) * :weight_fts + coalesce(1.0 / (:rrf_k + vec_matches.vec_rank), 0.0) * :weight_semantic) as combined_rank, vec_matches.distance as vec_distance, fts_matches.fts_score from fts_matches full outer join vec_matches on vec_matches.row_id = fts_matches.row_id join record on record.id = coalesce(fts_matches.row_id, vec_matches.row_id) where record.age between :age_min and :age_max";

/// The union of lexical matches and nearest vectors, up to its age condition.
pub const SELECT_KEYWORD_FIRST: &'static str =
    "with fts_matches as (select rowid as row_id, rank as score from lex_record where template_text match :term), vec_matches as (select row_id, distance as score from vec_record where embedding match :embedding and k = :k order by distance), combined as (select 'fts' as match_type, * from fts_matches union all select 'vec' as match_type, * from vec_matches), final as (select distinct record.template_text, record.email, record.province, record.city, record.age, record.sex, combined.score, combined.match_type from combined join record on record.id = combined.row_id where record.age between :age_min and :age_max";

/// The lexical matches with their embeddings, up to the age condition.
pub const SELECT_RERANK: &'static str =
    "with fts_matches as (select rowid, rank as score from lex_record where template_text match :term), embeddings as (select row_id as rowid, embedding from vec_record where row_id in (select rowid from fts_matches)), final as (select record.template_text, record.email, record.province, record.city, record.age, record.sex, fts_matches.score, 'fts' as match_type from fts_matches join record on record.id = fts_matches.rowid left join embeddings on embeddings.rowid = fts_matches.rowid where record.age between :age_min and :age_max";

/// Best lexical rank first.
pub const CLOSE_FTS: &'static str = " order by rank";

/// Nearest vector first.
pub const CLOSE_SEMANTIC: &'static str = " order by vec_record.distance";

/// Highest fused score first.
pub const CLOSE_RRF: &'static str = " order by combined_rank desc) select * from final";

/// The order of the union: lexical matches, then nearest vectors.
pub const CLOSE_KEYWORD_FIRST: &'static str = ") select * from final";

/// Nearest to the embedding of the term first.
pub const CLOSE_RERANK: &'static str =
    " order by vec_distance_cosine(:embedding, embeddings.embedding)) select * from final";

/// The province filter on the lexical index.
pub const PROVINCE_INDEXED: &'static str = " and province like :province";

/// The city filter on the lexical index.
pub const CITY_INDEXED: &'static str = " and city like :city";

/// The sex filter on the lexical index.
pub const SEX_INDEXED: &'static str = " and sex = :sex";

/// The province filter on the record table.
pub const PROVINCE_JOINED: &'static str = " and record.province like :province";

/// The city filter on the record table.
pub const CITY_JOINED: &'static str = " and record.city like :city";

/// The sex filter on the record table.
pub const SEX_JOINED: &'static str = " and record.sex = :sex";

/// The placeholder of the search term.
pub const TERM: &'static str = ":term";

/// The placeholder of the lowest age.
pub const AGE_MIN: &'static str = ":age_min";

/// The placeholder of the highest age.
pub const AGE_MAX: &'static str = ":age_max";

/// The placeholder of the embedding of the search term.
pub const EMBEDDING: &'static str = ":embedding";

/// The placeholder of the number of nearest vectors.
pub const NEIGHBORS: &'static str = ":k";

/// The placeholder of the fusion constant.
pub const FUSION: &'static str = ":rrf_k";

/// The placeholder of the weight of the lexical rank.
pub const WEIGHT_FTS: &'static str = ":weight_fts";

/// The placeholder of the weight of the semantic rank.
pub const WEIGHT_SEMANTIC: &'static str = ":weight_semantic";

/// The placeholder of the province pattern.
pub const PROVINCE: &'static str = ":province";

/// The placeholder of the city pattern.
pub const CITY: &'static str = ":city";

/// The placeholder of the sex.
pub const SEX: &'static str = ":sex";

/// A statement under construction: its text so far and, in the order in
/// which their clauses were appended, the bindings of its placeholders.
#[derive(Debug)]
pub struct SearchQuery {
    pub stmt_str: String,
    pub bindings: Vec<Binding>,
}

/// The mathematical value of a [`SearchQuery`].
pub struct SearchQueryView {
    pub stmt: Seq<char>,
    pub bindings: Seq<BindingView>,
}

impl View for SearchQuery {
    type V = SearchQueryView;

    open spec fn view(&self) -> SearchQueryView {
        SearchQueryView { stmt: self.stmt_str@, bindings: bindings_view(self.bindings@) }
    }
}

impl SearchQuery {
    /// A statement that so far is `base_stmt`, with nothing bound.
    pub fn new(base_stmt: &str) -> (q: SearchQuery)
        ensures
            q@.stmt == base_stmt@,
            q@.bindings == Seq::<BindingView>::empty(),
    {
        let q = SearchQuery { stmt_str: base_stmt.to_owned(), bindings: Vec::new() };
        assert(bindings_view(q.bindings@) =~= Seq::<BindingView>::empty());
        q
    }

    /// Appends a clause together with the bindings of its placeholders.
    pub fn add_filter(&mut self, filter: &str, binding: Vec<Binding>)
        ensures
            final(self)@.stmt == old(self)@.stmt + filter@,
            final(self)@.bindings == old(self)@.bindings + bindings_view(binding@),
    {
        self.stmt_str.append(filter);
        self.add_bindings(binding);
    }

    /// Appends bindings for placeholders that the text already holds.
    pub fn add_bindings(&mut self, binding: Vec<Binding>)
        ensures
            final(self)@.stmt == old(self)@.stmt,
            final(self)@.bindings == old(self)@.bindings + bindings_view(binding@),
    {
        let mut binding = binding;
        let ghost added = binding@;
        self.bindings.append(&mut binding);
        assert(bindings_view(old(self).bindings@ + added) =~= bindings_view(old(self).bindings@)
            + bindings_view(added));
    }

    /// Appends text that holds no placeholder.
    pub fn push_str(&mut self, stmt: &str)
        ensures
            final(self)@.stmt == old(self)@.stmt + stmt@,
            final(self)@.bindings == old(self)@.bindings,
    {
        self.stmt_str.append(stmt);
    }
}

/// The way in which matches are found and ranked.
#[derive(Debug, Clone, Copy, PartialEq, Eq, Structural)]
pub enum SearchStrategy {
    Fts,
    Semantic,
    KeywordFirst,
    ReciprocalRankFusion,
    ReRankBySemantics,
}

/// The strategy that a lower-case name stands for.
pub open spec fn strategy_named(name: Seq<char>) -> Option<SearchStrategy> {
    if name == "fts"@ {
        Some(SearchStrategy::Fts)
    } else if name == "semantic_search"@ {
        Some(SearchStrategy::Semantic)
    } else if name == "rrf"@ {
        Some(SearchStrategy::ReciprocalRankFusion)
    } else if name == "hkf"@ {
        Some(SearchStrategy::KeywordFirst)
    } else if name == "rrs"@ {
        Some(SearchStrategy::ReRankBySemantics)
    } else {
        None
    }
}

/// A name that stands for no strategy, in lower case.
#[derive(Debug)]
pub enum SearchStrategyError {
    UnsupportedSearchStrategy(String),
}

impl SearchStrategyError {
    /// The message shown for the error.
    pub fn message(&self) -> (out: String)
        ensures
            out@ == "'"@ + self->0@
                + "' No es una estrategia de búsqueda soportada, usa 'fts', 'semantic_search', 'HKF' o 'rrf'"@,
    {
        match self {
            SearchStrategyError::UnsupportedSearchStrategy(name) => {
                let mut out = "'".to_owned();
                out.append(name.as_str());
                out.append(
                    "' No es una estrategia de búsqueda soportada, usa 'fts', 'semantic_search', 'HKF' o 'rrf'",
                );
                out
            },
        }
    }
}

/// The query parameters of one search. The two weights are percentages,
/// each held as the bit pattern of its 32-bit float.
#[derive(Debug, Clone)]
pub struct Params {
    pub search_str: String,
    pub strategy: SearchStrategy,
    pub sexo: Sexo,
    pub edad_min: u64,
    pub edad_max: u64,
    pub peso_fts: u32,
    pub peso_semantic: u32,
    pub k_neighbors: u64,
}

/// One optional condition on the records that a search returns.
pub enum Filter {
    Province(Seq<char>),
    City(Seq<char>),
    Sex(Sexo),
}

/// The optional conditions of a search, in the order in which their
/// clauses are appended: province and city where the query names them, sex
/// where it is `F` or `M`.
pub open spec fn filters(search: SearchStringView, sexo: Sexo) -> Seq<Filter> {
    (match search.provincia {
        Some(p) => seq![Filter::Province(p)],
        None => Seq::<Filter>::empty(),
    }) + (match search.ciudad {
        Some(c) => seq![Filter::City(c)],
        None => Seq::<Filter>::empty(),
    }) + (if sexo == Sexo::U {
        Seq::<Filter>::empty()
    } else {
        seq![Filter::Sex(sexo)]
    })
}

/// Whether a record on which `holds` tells the truth of each single
/// condition satisfies all of `fs`.
pub open spec fn passes(fs: Seq<Filter>, holds: spec_fn(Filter) -> bool) -> bool {
    forall|i: int| 0 <= i < fs.len() ==> holds(#[trigger] fs[i])
}

/// Whether the first search asks no more than the second: each of its
/// optional conditions is either absent or the same.
pub open spec fn relaxes(
    loose: SearchStringView,
    loose_sexo: Sexo,
    strict: SearchStringView,
    strict_sexo: Sexo,
) -> bool {
    &&& loose.provincia is None || loose.provincia == strict.provincia
    &&& loose.ciudad is None || loose.ciudad == strict.ciudad
    &&& loose_sexo == Sexo::U || loose_sexo == strict_sexo
}

/// Taking an optional filter away never loses a record: whatever decides
/// the single conditions, a record that satisfies the filters of a search
/// satisfies those of every search that asks no more.
pub proof fn lemma_fewer_filters_admit_more(
    loose: SearchStringView,
    loose_sexo: Sexo,
    strict: SearchStringView,
    strict_sexo: Sexo,
    holds: spec_fn(Filter) -> bool,
)
    requires
        relaxes(loose, loose_sexo, strict, strict_sexo),
        passes(filters(strict, strict_sexo), holds),
    ensures
        passes(filters(loose, loose_sexo), holds),
{
    let fl = filters(loose, loose_sexo);
    let fs = filters(strict, strict_sexo);
    assert forall|i: int| 0 <= i < fl.len() implies holds(#[trigger] fl[i]) by {
        let f = fl[i];
        let np: int = if strict.provincia is Some { 1 } else { 0 };
        let nc: int = if strict.ciudad is Some { 1 } else { 0 };
        match f {
            Filter::Province(p) => {
                assert(loose.provincia == Some(p));
                assert(fs[0] == f);
            },
            Filter::City(c) => {
                assert(loose.ciudad == Some(c));
                assert(fs[np] == f);
            },
            Filter::Sex(s) => {
                assert(loose_sexo == s);
                assert(fs[np + nc] == f);
            },
        }
    }
}

impl SearchStrategy {
    /// Whether the statement binds the embedding of the search term.
    pub open spec fn embeds(self) -> bool {
        self != SearchStrategy::Fts
    }

    /// Whether the statement reads the narrative text from the lexical
    /// index itself, rather than from the record table joined to it.
    pub open spec fn indexed(self) -> bool {
        self == SearchStrategy::Fts
    }

    /// The statement up to and including the age condition.
    pub open spec fn select_text(self) -> Seq<char> {
        match self {
            SearchStrategy::Fts => SELECT_FTS@,
            SearchStrategy::Semantic => SELECT_SEMANTIC@,
            SearchStrategy::ReciprocalRankFusion => SELECT_RRF@,
            SearchStrategy::KeywordFirst => SELECT_KEYWORD_FIRST@,
            SearchStrategy::ReRankBySemantics => SELECT_RERANK@,
        }
    }

    /// What follows the filters: the ordering and the end of the statement.
    pub open spec fn closing_text(self) -> Seq<char> {
        match self {
            SearchStrategy::Fts => CLOSE_FTS@,
            SearchStrategy::Semantic => CLOSE_SEMANTIC@,
            SearchStrategy::ReciprocalRankFusion => CLOSE_RRF@,
            SearchStrategy::KeywordFirst => CLOSE_KEYWORD_FIRST@,
            SearchStrategy::ReRankBySemantics => CLOSE_RERANK@,
        }
    }

    /// The clause of one filter.
    pub open spec fn clause_text(self, f: Filter) -> Seq<char> {
        match f {
            Filter::Province(_) => if self.indexed() {
                PROVINCE_INDEXED@
            } else {
                PROVINCE_JOINED@
            },
            Filter::City(_) => if self.indexed() {
                CITY_INDEXED@
            } else {
                CITY_JOINED@
            },
            Filter::Sex(_) => if self.indexed() {
                SEX_INDEXED@
            } else {
                SEX_JOINED@
            },
        }
    }

    /// The clauses of a list of filters, one after the other.
    pub open spec fn clauses_text(self, fs: Seq<Filter>) -> Seq<char>
        decreases fs.len(),
    {
        if fs.len() == 0 {
            Seq::<char>::empty()
        } else {
            self.clauses_text(fs.drop_last()) + self.clause_text(fs.last())
        }
    }

    /// The bindings of the placeholders of `select_text`, in the order in
    /// which they first occur there.
    pub open spec fn select_bindings(self, term: Seq<char>, params: Params, embedding: Seq<u8>) -> Seq<
        BindingView,
    > {
        let ages = seq![
            integer_binding(AGE_MIN@, params.edad_min),
            integer_binding(AGE_MAX@, params.edad_max),
        ];
        match self {
            SearchStrategy::Fts => seq![text_binding(TERM@, term)] + ages,
            SearchStrategy::Semantic => seq![blob_binding(EMBEDDING@, embedding)] + ages,
            SearchStrategy::ReciprocalRankFusion => seq![
                blob_binding(EMBEDDING@, embedding),
                integer_binding(NEIGHBORS@, params.k_neighbors),
                text_binding(TERM@, term),
                integer_binding(FUSION@, RRF_K),
                weight_binding(WEIGHT_FTS@, params.peso_fts),
                weight_binding(WEIGHT_SEMANTIC@, params.peso_semantic),
            ] + ages,
            SearchStrategy::KeywordFirst => seq![
                text_binding(TERM@, term),
                blob_binding(EMBEDDING@, embedding),
                integer_binding(NEIGHBORS@, params.k_neighbors),
            ] + ages,
            SearchStrategy::ReRankBySemantics => seq![text_binding(TERM@, term)] + ages,
        }
    }

    /// The bindings of the placeholders of `closing_text`.
    pub open spec fn closing_bindings(self, embedding: Seq<u8>) -> Seq<BindingView> {
        match self {
            SearchStrategy::ReRankBySemantics => seq![blob_binding(EMBEDDING@, embedding)],
            _ => Seq::<BindingView>::empty(),
        }
    }

    /// The whole statement of a search and its bindings: the selection with
    /// the age range, one clause for each filter, and the closing.
    pub open spec fn assembled(
        self,
        search: SearchStringView,
        params: Params,
        embedding: Seq<u8>,
    ) -> SearchQueryView {
        let fs = filters(search, params.sexo);
        SearchQueryView {
            stmt: self.select_text() + self.clauses_text(fs) + self.closing_text(),
            bindings: self.select_bindings(search.query, params, embedding) + filter_bindings(fs)
                + self.closing_bindings(embedding),
        }
    }

    /// Whether the search term has to be embedded before the statement can
    /// be assembled: true of every strategy but the lexical one.
    pub fn needs_embedding(self) -> (b: bool)
        ensures
            b == self.embeds(),
    {
        match self {
            SearchStrategy::Fts => false,
            _ => true,
        }
    }

    /// The strategy that the lower-case name `lowered` stands for.
    pub fn from_name(lowered: &str) -> (out: Option<SearchStrategy>)
        ensures
            out == strategy_named(lowered@),
    {
        if same_text(lowered, "fts") {
            Some(SearchStrategy::Fts)
        } else if same_text(lowered, "semantic_search") {
            Some(SearchStrategy::Semantic)
        } else if same_text(lowered, "rrf") {
            Some(SearchStrategy::ReciprocalRankFusion)
        } else if same_text(lowered, "hkf") {
            Some(SearchStrategy::KeywordFirst)
        } else if same_text(lowered, "rrs") {
            Some(SearchStrategy::ReRankBySemantics)
        } else {
            None
        }
    }

    /// Reads the name of a strategy, in any mix of upper and lower case.
    pub fn try_from(value: String) -> (out: Result<SearchStrategy, SearchStrategyError>)
        ensures
            match out {
                Ok(strategy) => strategy_named(lowercase_of(value@)) == Some(strategy),
                Err(e) => strategy_named(lowercase_of(value@)) is None && e->0@ == lowercase_of(
                    value@,
                ),
            },
    {
        let lowered = to_lowercase(value.as_str());
        match SearchStrategy::from_name(lowered.as_str()) {
            Some(strategy) => Ok(strategy),
            None => Err(SearchStrategyError::UnsupportedSearchStrategy(lowered)),
        }
    }

    fn select_sql(self) -> (out: &'static str)
        ensures
            out@ == self.select_text(),
    {
        match self {
            SearchStrategy::Fts => SELECT_FTS,
            SearchStrategy::Semantic => SELECT_SEMANTIC,
            SearchStrategy::ReciprocalRankFusion => SELECT_RRF,
            SearchStrategy::KeywordFirst => SELECT_KEYWORD_FIRST,
            SearchStrategy::ReRankBySemantics => SELECT_RERANK,
        }
    }

    fn closing_sql(self) -> (out: &'static str)
        ensures
            out@ == self.closing_text(),
    {
        match self {
            SearchStrategy::Fts => CLOSE_FTS,
            SearchStrategy::Semantic => CLOSE_SEMANTIC,
            SearchStrategy::ReciprocalRankFusion => CLOSE_RRF,
            SearchStrategy::KeywordFirst => CLOSE_KEYWORD_FIRST,
            SearchStrategy::ReRankBySemantics => CLOSE_RERANK,
        }
    }

    fn opening(self, term: &str, params: &Params, embedding: &Vec<u8>) -> (out: Vec<Binding>)
        ensures
            bindings_view(out@) == self.select_bindings(term@, *params, embedding@),
    {
        let mut out: Vec<Binding> = Vec::new();
        match self {
            SearchStrategy::Fts => {
                out.push(Binding::text(TERM, term));
            },
            SearchStrategy::Semantic => {
                out.push(Binding::blob(EMBEDDING, embedding));
            },
            SearchStrategy::ReciprocalRankFusion => {
                out.push(Binding::blob(EMBEDDING, embedding));
                out.push(Binding::integer(NEIGHBORS, params.k_neighbors));
                out.push(Binding::text(TERM, term));
                out.push(Binding::integer(FUSION, RRF_K));
                out.push(Binding::weight(WEIGHT_FTS, params.peso_fts));
                out.push(Binding::weight(WEIGHT_SEMANTIC, params.peso_semantic));
            },
            SearchStrategy::KeywordFirst => {
                out.push(Binding::text(TERM, term));
                out.push(Binding::blob(EMBEDDING, embedding));
                out.push(Binding::integer(NEIGHBORS, params.k_neighbors));
            },
            SearchStrategy::ReRankBySemantics => {
                out.push(Binding::text(TERM, term));
            },
        }
        out.push(Binding::integer(AGE_MIN, params.edad_min));
        out.push(Binding::integer(AGE_MAX, params.edad_max));
        assert(bindings_view(out@) =~= self.select_bindings(term@, *params, embedding@));
        out
    }

    fn closing(self, embedding: &Vec<u8>) -> (out: Vec<Binding>)
        ensures
            bindings_view(out@) == self.closing_bindings(embedding@),
    {
        let mut out: Vec<Binding> = Vec::new();
        match self {
            SearchStrategy::ReRankBySemantics => {
                out.push(Binding::blob(EMBEDDING, embedding));
            },
            _ => {},
        }
        assert(bindings_view(out@) =~= self.closing_bindings(embedding@));
        out
    }

    /// Appends the clause of `f` to `q`, with its binding.
    fn add_clause(self, q: &mut SearchQuery, name: &str, value: &str, Ghost(f): Ghost<Filter>)
        requires
            filter_binding(f) == text_binding(name@, value@),
            name@ == PROVINCE@ ==> f is Province,
            name@ == CITY@ ==> f is City,
            name@ != PROVINCE@ && name@ != CITY@ ==> f is Sex,
        ensures
            final(q)@.stmt == old(q)@.stmt + self.clause_text(f),
            final(q)@.bindings == old(q)@.bindings.push(filter_binding(f)),
    {
        let province = same_text(name, PROVINCE);
        let city = same_text(name, CITY);
        let indexed = match self {
            SearchStrategy::Fts => true,
            _ => false,
        };
        let clause = if province {
            if indexed {
                PROVINCE_INDEXED
            } else {
                PROVINCE_JOINED
            }
        } else if city {
            if indexed {
                CITY_INDEXED
            } else {
                CITY_JOINED
            }
        } else {
            if indexed {
                SEX_INDEXED
            } else {
                SEX_JOINED
            }
        };
        let mut bound: Vec<Binding> = Vec::new();
        bound.push(Binding::text(name, value));
        assert(bindings_view(bound@) =~= seq![filter_binding(f)]);
        q.add_filter(clause, bound);
        assert(old(q)@.bindings + seq![filter_binding(f)] =~= old(q)@.bindings.push(
            filter_binding(f),
        ));
    }

    /// Assembles the statement of a search. `embedding` is the embedding of
    /// the search term, packed as bytes; the lexical strategy binds none
    /// and ignores it.
    pub fn assemble(self, search: &SearchString, params: &Params, embedding: &Vec<u8>) -> (q:
        SearchQuery)
        ensures
            q@ == self.assembled(search@, *params, embedding@),
    {
        let mut q = SearchQuery::new(self.select_sql());
        q.add_bindings(self.opening(search.query.as_str(), params, embedding));
        let ghost opened = self.select_bindings(search@.query, *params, embedding@);
        let ghost mut fs = Seq::<Filter>::empty();
        assert(q@.stmt =~= self.select_text() + self.clauses_text(fs));
        assert(q@.bindings =~= opened + filter_bindings(fs));
        match &search.provincia {
            Some(p) => {
                let ghost f = Filter::Province(p@);
                proof {
                    lemma_placeholders_differ();
                }
                self.add_clause(&mut q, PROVINCE, p.as_str(), Ghost(f));
                proof {
                    lemma_one_more_filter(self, fs, f);
                    assert(q@.stmt =~= self.select_text() + self.clauses_text(fs.push(f)));
                    assert(q@.bindings =~= opened + filter_bindings(fs.push(f)));
                    fs = fs.push(f);
                }
            },
            None => {},
        }
        match &search.ciudad {
            Some(c) => {
                let ghost f = Filter::City(c@);
                proof {
                    lemma_placeholders_differ();
                }
                self.add_clause(&mut q, CITY, c.as_str(), Ghost(f));
                proof {
                    lemma_one_more_filter(self, fs, f);
                    assert(q@.stmt =~= self.select_text() + self.clauses_text(fs.push(f)));
                    assert(q@.bindings =~= opened + filter_bindings(fs.push(f)));
                    fs = fs.push(f);
                }
            },
            None => {},
        }
        match params.sexo {
            Sexo::U => {},
            _ => {
                let ghost f = Filter::Sex(params.sexo);
                proof {
                    lemma_placeholders_differ();
                }
                self.add_clause(&mut q, SEX, params.sexo.to_sql_text(), Ghost(f));
                proof {
                    lemma_one_more_filter(self, fs, f);
                    assert(q@.stmt =~= self.select_text() + self.clauses_text(fs.push(f)));
                    assert(q@.bindings =~= opened + filter_bindings(fs.push(f)));
                    fs = fs.push(f);
                }
            },
        }
        assert(fs =~= filters(search@, params.sexo));
        q.add_filter(self.closing_sql(), self.closing(embedding));
        q
    }
}

/// The binding of the placeholder of one filter.
pub open spec fn filter_binding(f: Filter) -> BindingView {
    match f {
        Filter::Province(p) => text_binding(PROVINCE@, p),
        Filter::City(c) => text_binding(CITY@, c),
        Filter::Sex(s) => text_binding(SEX@, s.letter()),
    }
}

/// The bindings of a list of filters, in order.
pub open spec fn filter_bindings(fs: Seq<Filter>) -> Seq<BindingView> {
    fs.map_values(|f: Filter| filter_binding(f))
}

/// The three filter placeholders are three different names.
proof fn lemma_placeholders_differ()
    ensures
        PROVINCE@ != CITY@,
        PROVINCE@ != SEX@,
        CITY@ != SEX@,
{
    reveal_strlit(":province");
    reveal_strlit(":city");
    reveal_strlit(":sex");
    assert(PROVINCE@.len() == 9);
    assert(CITY@.len() == 5);
    assert(SEX@.len() == 4);
}

/// What one more filter adds to the clauses and to the bindings.
proof fn lemma_one_more_filter(strategy: SearchStrategy, fs: Seq<Filter>, f: Filter)
    ensures
        strategy.clauses_text(fs.push(f)) == strategy.clauses_text(fs) + strategy.clause_text(f),
        filter_bindings(fs.push(f)) == filter_bindings(fs).push(filter_binding(f)),
{
    assert(fs.push(f).drop_last() =~= fs);
    assert(filter_bindings(fs.push(f)) =~= filter_bindings(fs).push(filter_binding(f)));
}

/// The reciprocal-rank term of a list in which a record stands at `rank`,
/// as a fraction: `1 / (RRF_K + rank)`, or `0 / 1` where the record is not
/// in the list.
pub open spec fn reciprocal(rank: Option<nat>) -> (int, int) {
    match rank {
        Some(r) => (1, RRF_K + r),
        None => (0, 1),
    }
}

/// The dividend of the fused score of a record, over `fused_divisor`:
/// each list's reciprocal-rank term times that list's weight. A weight is
/// a percentage, counted in a unit of which both weights are multiples.
pub open spec fn fused_dividend(
    fts_rank: Option<nat>,
    vec_rank: Option<nat>,
    weight_fts: nat,
    weight_semantic: nat,
) -> int {
    reciprocal(fts_rank).0 * weight_fts * reciprocal(vec_rank).1 + reciprocal(vec_rank).0
        * weight_semantic * reciprocal(fts_rank).1
}

/// The divisor of the fused score of a record, for weights counted in
/// `unit`-th parts of a percent.
pub open spec fn fused_divisor(fts_rank: Option<nat>, vec_rank: Option<nat>, unit: nat) -> int {
    WEIGHT_SCALE * unit * reciprocal(fts_rank).1 * reciprocal(vec_rank).1
}

/// For weights of `weight_fts / unit` and `weight_semantic / unit` percent,
/// the fused score `fused_dividend / fused_divisor` lies between zero and
/// the sum of the weights over `100 * RRF_K`, whatever the ranks.
pub proof fn lemma_fused_score_bounds(
    fts_rank: Option<nat>,
    vec_rank: Option<nat>,
    weight_fts: nat,
    weight_semantic: nat,
    unit: nat,
)
    requires
        unit > 0,
    ensures
        fused_divisor(fts_rank, vec_rank, unit) > 0,
        0 <= fused_dividend(fts_rank, vec_rank, weight_fts, weight_semantic),
        fused_dividend(fts_rank, vec_rank, weight_fts, weight_semantic) * (WEIGHT_SCALE * RRF_K
            * unit) <= (weight_fts + weight_semantic) * fused_divisor(fts_rank, vec_rank, unit),
{
    let nf = reciprocal(fts_rank).0;
    let df = reciprocal(fts_rank).1;
    let ns = reciprocal(vec_rank).0;
    let ds = reciprocal(vec_rank).1;
    let k = RRF_K as int;
    let u = unit as int;
    let wf = weight_fts as int;
    let ws = weight_semantic as int;
    let dividend = nf * wf * ds + ns * ws * df;
    assert(0 <= nf <= 1 && 0 <= ns <= 1 && df >= 1 && ds >= 1);
    assert(nf * k <= df && ns * k <= ds);
    assert(100 * u * df * ds > 0) by (nonlinear_arith)
        requires
            u >= 1,
            df >= 1,
            ds >= 1,
    ;
    assert(0 <= dividend) by (nonlinear_arith)
        requires
            dividend == nf * wf * ds + ns * ws * df,
            0 <= nf,
            0 <= ns,
            0 <= wf,
            0 <= ws,
            df >= 1,
            ds >= 1,
    ;
    assert((nf * wf * ds) * (100 * k) <= wf * (100 * df * ds)) by (nonlinear_arith)
        requires
            0 <= nf * k <= df,
            0 <= wf,
            ds >= 1,
    ;
    assert((ns * ws * df) * (100 * k) <= ws * (100 * df * ds)) by (nonlinear_arith)
        requires
            0 <= ns * k <= ds,
            0 <= ws,
            df >= 1,
    ;
    assert(dividend * (100 * k) <= (wf + ws) * (100 * df * ds)) by (nonlinear_arith)
        requires
            dividend == nf * wf * ds + ns * ws * df,
            (nf * wf * ds) * (100 * k) <= wf * (100 * df * ds),
            (ns * ws * df) * (100 * k) <= ws * (100 * df * ds),
    ;
    assert(dividend * (100 * k * u) <= (wf + ws) * (100 * u * df * ds)) by (nonlinear_arith)
        requires
            dividend * (100 * k) <= (wf + ws) * (100 * df * ds),
            u >= 1,
    ;
}

/// The score shown for a rank: the rank itself, or the rank with its sign
/// turned. Ranks are counted in a unit of which all of them are multiples.
pub open spec fn shown_score(rank: int, negate: bool) -> int {
    if negate {
        -rank
    } else {
        rank
    }
}

/// Whether no rank is lower than one before it.
pub open spec fn rising(ranks: Seq<int>) -> bool {
    forall|i: int, j: int| 0 <= i <= j < ranks.len() ==> ranks[i] <= ranks[j]
}

/// The lexical search returns its rows by rising rank and shows each rank
/// with its sign turned: the scores shown never increase down the list.
pub proof fn lemma_lexical_scores_do_not_increase(ranks: Seq<int>)
    requires
        rising(ranks),
    ensures
        SearchStrategy::Fts.row_shape().negate_score,
        forall|i: int, j: int|
            0 <= i <= j < ranks.len() ==> shown_score(
                ranks[i],
                SearchStrategy::Fts.row_shape().negate_score,
            ) >= shown_score(ranks[j], SearchStrategy::Fts.row_shape().negate_score),
{
}

/// What is shown above an empty table.
pub const NO_RESULTS: &'static str = "No se encontraron ningun registro.";

/// What is shown above a table of `count` rows.
pub fn result_message(count: u64) -> (out: String)
    ensures
        out@ == "Hay un total de "@ + decimal(count as nat) + " resultados."@,
{
    let mut out: Vec<char> = Vec::new();
    push_text(&mut out, "Hay un total de ");
    push_decimal(&mut out, count);
    push_text(&mut out, " resultados.");
    string_of(&out)
}

/// What a search is answered with.
#[derive(Debug, Clone, Copy, PartialEq, Eq, Structural)]
pub enum Reply {
    /// The table of results with the refreshed history.
    Results,
    /// The page that reports a failure.
    Fallback,
}

/// What happened last while a search was served.
#[derive(Debug, Clone, Copy, PartialEq, Eq, Structural)]
pub enum SearchEvent {
    /// The raw query was parsed.
    Parsed,
    /// The search term was embedded, or could not be.
    Embedded { ok: bool },
    /// The statement ran, or failed.
    Searched { ok: bool },
    /// The raw query was recorded in the history and the history read
    /// back, or one of the two failed.
    Recorded { ok: bool },
}

/// What is done next while a search is served.
#[derive(Debug, Clone, Copy, PartialEq, Eq, Structural)]
pub enum SearchAction {
    /// Embed the search term.
    Embed,
    /// Assemble the statement and run it.
    Run,
    /// Record the raw query in the history and read the history back.
    Record,
    /// Answer, and stop.
    Answer(Reply),
}

impl SearchStrategy {
    /// The action that follows an event. The term is embedded first where
    /// the strategy binds its embedding; the statement runs next; the
    /// query is recorded only after the statement ran; and the results are
    /// the answer only after the query was recorded. Whatever fails is
    /// answered with the fallback.
    pub open spec fn action_after(self, event: SearchEvent) -> SearchAction {
        match event {
            SearchEvent::Parsed => if self.embeds() {
                SearchAction::Embed
            } else {
                SearchAction::Run
            },
            SearchEvent::Embedded { ok } => if ok {
                SearchAction::Run
            } else {
                SearchAction::Answer(Reply::Fallback)
            },
            SearchEvent::Searched { ok } => if ok {
                SearchAction::Record
            } else {
                SearchAction::Answer(Reply::Fallback)
            },
            SearchEvent::Recorded { ok } => if ok {
                SearchAction::Answer(Reply::Results)
            } else {
                SearchAction::Answer(Reply::Fallback)
            },
        }
    }

    /// Decides what is done next while a search is served.
    pub fn next_action(self, event: SearchEvent) -> (out: SearchAction)
        ensures
            out == self.action_after(event),
    {
        match event {
            SearchEvent::Parsed => {
                if self.needs_embedding() {
                    SearchAction::Embed
                } else {
                    SearchAction::Run
                }
            },
            SearchEvent::Embedded { ok: true } => SearchAction::Run,
            SearchEvent::Searched { ok: true } => SearchAction::Record,
            SearchEvent::Recorded { ok: true } => SearchAction::Answer(Reply::Results),
            _ => SearchAction::Answer(Reply::Fallback),
        }
    }
}

/// Where the columns of a result row stand, and how its score is shown.
#[derive(Debug, Clone, Copy, PartialEq, Eq, Structural)]
pub struct RowShape {
    pub template: usize,
    pub email: usize,
    pub province: usize,
    pub city: usize,
    pub age: usize,
    pub sex: usize,
    /// The column of the score by which the row is ranked.
    pub score: usize,
    /// Whether the score is a lexical rank, which is negative and is shown
    /// with its sign turned.
    pub negate_score: bool,
    /// The columns that only a fused row has.
    pub fused: Option<FusedColumns>,
}

/// The columns of the two rankings that a fused row carries.
#[derive(Debug, Clone, Copy, PartialEq, Eq, Structural)]
pub struct FusedColumns {
    pub vec_rank: usize,
    pub fts_rank: usize,
    pub vec_distance: usize,
    /// The lexical rank, shown with its sign turned.
    pub fts_score: usize,
}

impl SearchStrategy {
    /// The shape of the rows that the statement of the strategy returns.
    pub open spec fn row_shape(self) -> RowShape {
        match self {
            SearchStrategy::Fts => RowShape {
                score: 0,
                email: 1,
                province: 2,
                city: 3,
                age: 4,
                sex: 5,
                template: 6,
                negate_score: true,
                fused: None,
            },
            SearchStrategy::Semantic => RowShape {
                score: 0,
                email: 1,
                province: 2,
                city: 3,
                age: 4,
                sex: 5,
                template: 6,
                negate_score: false,
                fused: None,
            },
            SearchStrategy::KeywordFirst => RowShape {
                template: 0,
                email: 1,
                province: 2,
                city: 3,
                age: 4,
                sex: 5,
                score: 6,
                negate_score: false,
                fused: None,
            },
            SearchStrategy::ReRankBySemantics => RowShape {
                template: 0,
                email: 1,
                province: 2,
                city: 3,
                age: 4,
                sex: 5,
                score: 6,
                negate_score: true,
                fused: None,
            },
            SearchStrategy::ReciprocalRankFusion => RowShape {
                template: 0,
                email: 1,
                province: 2,
                city: 3,
                age: 4,
                sex: 5,
                score: 8,
                negate_score: false,
                fused: Some(
                    FusedColumns { vec_rank: 6, fts_rank: 7, vec_distance: 9, fts_score: 10 },
                ),
            },
        }
    }

    /// The shape of the rows that the statement of the strategy returns.
    /// The score is the lexical rank, sign turned, for the lexical search
    /// and for lexical matches ranked anew; the distance for the semantic
    /// search; whichever of the two the row came from for the union; and
    /// the fused score for the fusion, whose rows carry both rankings too.
    pub fn shape(self) -> (out: RowShape)
        ensures
            out == self.row_shape(),
    {
        match self {
            SearchStrategy::Fts => RowShape {
                score: 0,
                email: 1,
                province: 2,
                city: 3,
                age: 4,
                sex: 5,
                template: 6,
                negate_score: true,
                fused: None,
            },
            SearchStrategy::Semantic => RowShape {
                score: 0,
                email: 1,
                province: 2,
                city: 3,
                age: 4,
                sex: 5,
                template: 6,
                negate_score: false,
                fused: None,
            },
            SearchStrategy::KeywordFirst => RowShape {
                template: 0,
                email: 1,
                province: 2,
                city: 3,
                age: 4,
                sex: 5,
                score: 6,
                negate_score: false,
                fused: None,
            },
            SearchStrategy::ReRankBySemantics => RowShape {
                template: 0,
                email: 1,
                province: 2,
                city: 3,
                age: 4,
                sex: 5,
                score: 6,
                negate_score: true,
                fused: None,
            },
            SearchStrategy::ReciprocalRankFusion => RowShape {
                template: 0,
                email: 1,
                province: 2,
                city: 3,
                age: 4,
                sex: 5,
                score: 8,
                negate_score: false,
                fused: Some(
                    FusedColumns { vec_rank: 6, fts_rank: 7, vec_distance: 9, fts_score: 10 },
                ),
            },
        }
    }
}

} // verus!
