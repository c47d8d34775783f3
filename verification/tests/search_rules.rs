use querysense::query::SearchString;
use querysense::search::{
    Params, Reply, SearchAction, SearchEvent, SearchQuery, SearchStrategy, SearchStrategyError,
    CLOSE_FTS, CLOSE_RERANK, RRF_K, SELECT_FTS, SELECT_RERANK,
};
use querysense::sexo::Sexo;
use querysense::store::{Binding, SqlValue, WEIGHT_SCALE};

fn params(raw: &str, strategy: SearchStrategy, sexo: Sexo) -> Params {
    Params {
        search_str: raw.to_string(),
        strategy,
        sexo,
        edad_min: 18,
        edad_max: 65,
        peso_fts: 30.0f32.to_bits(),
        peso_semantic: 62.5f32.to_bits(),
        k_neighbors: 25,
    }
}

fn names(q: &SearchQuery) -> Vec<String> {
    q.bindings.iter().map(|b| b.name.clone()).collect()
}

/// The placeholders of a statement, each once, in the order in which they
/// first occur.
fn placeholders(sql: &str) -> Vec<String> {
    let chars: Vec<char> = sql.chars().collect();
    let mut found: Vec<String> = Vec::new();
    let mut i = 0;
    while i < chars.len() {
        if chars[i] == ':' {
            let mut j = i + 1;
            while j < chars.len() && (chars[j].is_ascii_alphanumeric() || chars[j] == '_') {
                j += 1;
            }
            if j > i + 1 {
                let name: String = chars[i..j].iter().collect();
                if !found.contains(&name) {
                    found.push(name);
                }
            }
            i = j;
        } else {
            i += 1;
        }
    }
    found
}

const ALL: [SearchStrategy; 5] = [
    SearchStrategy::Fts,
    SearchStrategy::Semantic,
    SearchStrategy::KeywordFirst,
    SearchStrategy::ReciprocalRankFusion,
    SearchStrategy::ReRankBySemantics,
];

#[test]
fn strategy_names_are_read_in_any_case() {
    assert_eq!(SearchStrategy::try_from("fts".to_string()).unwrap(), SearchStrategy::Fts);
    assert_eq!(SearchStrategy::try_from("FTS".to_string()).unwrap(), SearchStrategy::Fts);
    assert_eq!(
        SearchStrategy::try_from("semantic_search".to_string()).unwrap(),
        SearchStrategy::Semantic
    );
    assert_eq!(
        SearchStrategy::try_from("RRF".to_string()).unwrap(),
        SearchStrategy::ReciprocalRankFusion
    );
    assert_eq!(
        SearchStrategy::try_from("HKF".to_string()).unwrap(),
        SearchStrategy::KeywordFirst
    );
    assert_eq!(
        SearchStrategy::try_from("rrs".to_string()).unwrap(),
        SearchStrategy::ReRankBySemantics
    );
}

#[test]
fn unknown_strategy_is_reported_in_lower_case() {
    let err = SearchStrategy::try_from("Fuzzy".to_string()).unwrap_err();
    match &err {
        SearchStrategyError::UnsupportedSearchStrategy(name) => assert_eq!(name, "fuzzy"),
    }
    assert_eq!(
        err.message(),
        "'fuzzy' No es una estrategia de búsqueda soportada, usa 'fts', 'semantic_search', 'HKF' o 'rrf'"
    );
    assert!(SearchStrategy::try_from(String::new()).is_err());
    assert!(SearchStrategy::try_from(" fts".to_string()).is_err());
}

#[test]
fn from_name_takes_lower_case_only() {
    assert_eq!(SearchStrategy::from_name("hkf"), Some(SearchStrategy::KeywordFirst));
    assert_eq!(SearchStrategy::from_name("HKF"), None);
    assert_eq!(SearchStrategy::from_name(""), None);
}

#[test]
fn only_the_lexical_strategy_needs_no_embedding() {
    assert!(!SearchStrategy::Fts.needs_embedding());
    assert!(SearchStrategy::Semantic.needs_embedding());
    assert!(SearchStrategy::KeywordFirst.needs_embedding());
    assert!(SearchStrategy::ReciprocalRankFusion.needs_embedding());
    assert!(SearchStrategy::ReRankBySemantics.needs_embedding());
}

#[test]
fn builder_keeps_clauses_and_bindings_in_step() {
    let mut q = SearchQuery::new("select 1 where a = :a");
    assert_eq!(q.stmt_str, "select 1 where a = :a");
    assert!(q.bindings.is_empty());
    q.add_bindings(vec![Binding::integer(":a", 1)]);
    q.add_filter(" and b = :b", vec![Binding::text(":b", "x")]);
    q.push_str(" order by a");
    assert_eq!(q.stmt_str, "select 1 where a = :a and b = :b order by a");
    assert_eq!(names(&q), vec![":a".to_string(), ":b".to_string()]);
    assert_eq!(placeholders(&q.stmt_str), names(&q));
}

#[test]
fn bindings_hold_what_they_are_given() {
    match Binding::text(":t", "abc").value {
        SqlValue::Text(s) => assert_eq!(s, "abc"),
        other => panic!("{:?}", other),
    }
    match Binding::integer(":n", 42).value {
        SqlValue::Integer(n) => assert_eq!(n, 42),
        other => panic!("{:?}", other),
    }
    match Binding::blob(":b", &vec![1u8, 2, 3]).value {
        SqlValue::Blob(b) => assert_eq!(b, vec![1u8, 2, 3]),
        other => panic!("{:?}", other),
    }
    match Binding::weight(":w", 12.5f32.to_bits()).value {
        SqlValue::Scaled { bits, divisor } => {
            assert_eq!(f32::from_bits(bits), 12.5);
            assert_eq!(divisor, 100);
            assert_eq!(divisor, WEIGHT_SCALE);
        }
        other => panic!("{:?}", other),
    }
    assert_eq!(Binding::text(":t", "abc").name, ":t");
}

#[test]
fn lexical_statement_without_filters() {
    let search = SearchString::parse("ana");
    let p = params("ana", SearchStrategy::Fts, Sexo::U);
    let q = SearchStrategy::Fts.assemble(&search, &p, &Vec::new());
    assert_eq!(q.stmt_str, format!("{}{}", SELECT_FTS, CLOSE_FTS));
    assert!(q.stmt_str.ends_with("and age between :age_min and :age_max order by rank"));
    assert_eq!(
        names(&q),
        vec![":term".to_string(), ":age_min".to_string(), ":age_max".to_string()]
    );
    match &q.bindings[0].value {
        SqlValue::Text(s) => assert_eq!(s, "ana"),
        other => panic!("{:?}", other),
    }
    match (&q.bindings[1].value, &q.bindings[2].value) {
        (SqlValue::Integer(a), SqlValue::Integer(b)) => {
            assert_eq!(*a, 18);
            assert_eq!(*b, 65);
        }
        other => panic!("{:?}", other),
    }
}

#[test]
fn lexical_statement_with_every_filter() {
    let search = SearchString::parse("ana|Santa Fe,Rosario");
    let p = params("ana|Santa Fe,Rosario", SearchStrategy::Fts, Sexo::F);
    let q = SearchStrategy::Fts.assemble(&search, &p, &Vec::new());
    assert_eq!(
        q.stmt_str,
        format!(
            "{} and province like :province and city like :city and sex = :sex{}",
            SELECT_FTS, CLOSE_FTS
        )
    );
    assert_eq!(
        names(&q),
        vec![
            ":term".to_string(),
            ":age_min".to_string(),
            ":age_max".to_string(),
            ":province".to_string(),
            ":city".to_string(),
            ":sex".to_string()
        ]
    );
    match (&q.bindings[3].value, &q.bindings[4].value, &q.bindings[5].value) {
        (SqlValue::Text(a), SqlValue::Text(b), SqlValue::Text(c)) => {
            assert_eq!(a, "%santa fe%");
            assert_eq!(b, "%rosario%");
            assert_eq!(c, "F");
        }
        other => panic!("{:?}", other),
    }
}

#[test]
fn sex_unknown_adds_no_filter() {
    let search = SearchString::parse("ana");
    for strategy in ALL {
        let with = strategy.assemble(&search, &params("ana", strategy, Sexo::M), &vec![0u8; 8]);
        let without = strategy.assemble(&search, &params("ana", strategy, Sexo::U), &vec![0u8; 8]);
        assert!(with.stmt_str.contains(":sex"));
        assert!(!without.stmt_str.contains(":sex"));
        assert_eq!(with.bindings.len(), without.bindings.len() + 1);
    }
}

#[test]
fn every_statement_binds_its_placeholders_in_order() {
    let raws = ["ana", "ana|cordoba", "ana|cordoba,capital"];
    let sexes = [Sexo::U, Sexo::F, Sexo::M];
    for strategy in ALL {
        for raw in raws {
            for sexo in sexes {
                let search = SearchString::parse(raw);
                let q = strategy.assemble(&search, &params(raw, strategy, sexo), &vec![7u8; 4]);
                let mut expected = names(&q);
                let mut seen: Vec<String> = Vec::new();
                expected.retain(|n| {
                    let fresh = !seen.contains(n);
                    seen.push(n.clone());
                    fresh
                });
                assert_eq!(placeholders(&q.stmt_str), expected, "{:?} {} {:?}", strategy, raw, sexo);
                assert!(q.stmt_str.contains("age between :age_min and :age_max"));
            }
        }
    }
}

#[test]
fn dropping_a_filter_drops_one_clause_and_nothing_else() {
    for strategy in ALL {
        let full = strategy.assemble(
            &SearchString::parse("ana|cordoba,capital"),
            &params("x", strategy, Sexo::F),
            &vec![1u8; 4],
        );
        let loose = strategy.assemble(
            &SearchString::parse("ana|cordoba"),
            &params("x", strategy, Sexo::U),
            &vec![1u8; 4],
        );
        for b in &loose.bindings {
            assert!(full.bindings.iter().any(|f| f.name == b.name));
        }
        assert_eq!(full.bindings.len(), loose.bindings.len() + 2);
        assert!(full.stmt_str.len() > loose.stmt_str.len());
    }
}

#[test]
fn fusion_binds_normalised_weights_and_the_constant() {
    let search = SearchString::parse("ana");
    let strategy = SearchStrategy::ReciprocalRankFusion;
    let q = strategy.assemble(&search, &params("ana", strategy, Sexo::U), &vec![9u8; 4]);
    assert_eq!(
        names(&q),
        vec![
            ":embedding".to_string(),
            ":k".to_string(),
            ":term".to_string(),
            ":rrf_k".to_string(),
            ":weight_fts".to_string(),
            ":weight_semantic".to_string(),
            ":age_min".to_string(),
            ":age_max".to_string()
        ]
    );
    match &q.bindings[0].value {
        SqlValue::Blob(b) => assert_eq!(b, &vec![9u8; 4]),
        other => panic!("{:?}", other),
    }
    match (&q.bindings[1].value, &q.bindings[3].value) {
        (SqlValue::Integer(k), SqlValue::Integer(c)) => {
            assert_eq!(*k, 25);
            assert_eq!(*c, 60);
            assert_eq!(*c, RRF_K);
        }
        other => panic!("{:?}", other),
    }
    match (&q.bindings[4].value, &q.bindings[5].value) {
        (
            SqlValue::Scaled { bits: a, divisor: x },
            SqlValue::Scaled { bits: b, divisor: y },
        ) => {
            assert_eq!((f32::from_bits(*a), *x), (30.0, 100));
            assert_eq!((f32::from_bits(*b), *y), (62.5, 100));
        }
        other => panic!("{:?}", other),
    }
    assert!(q.stmt_str.ends_with(" order by combined_rank desc) select * from final"));
}

#[test]
fn rerank_binds_the_embedding_last() {
    let search = SearchString::parse("ana|cordoba");
    let strategy = SearchStrategy::ReRankBySemantics;
    let q = strategy.assemble(&search, &params("ana|cordoba", strategy, Sexo::U), &vec![5u8; 4]);
    assert_eq!(
        q.stmt_str,
        format!("{} and record.province like :province{}", SELECT_RERANK, CLOSE_RERANK)
    );
    assert_eq!(
        names(&q),
        vec![
            ":term".to_string(),
            ":age_min".to_string(),
            ":age_max".to_string(),
            ":province".to_string(),
            ":embedding".to_string()
        ]
    );
}

#[test]
fn keyword_first_binds_term_embedding_and_neighbours() {
    let search = SearchString::parse("ana");
    let strategy = SearchStrategy::KeywordFirst;
    let q = strategy.assemble(&search, &params("ana", strategy, Sexo::U), &vec![5u8; 4]);
    assert_eq!(
        names(&q),
        vec![
            ":term".to_string(),
            ":embedding".to_string(),
            ":k".to_string(),
            ":age_min".to_string(),
            ":age_max".to_string()
        ]
    );
    assert!(q.stmt_str.ends_with(") select * from final"));
}

#[test]
fn fused_score_stays_within_its_bounds() {
    let k = RRF_K as f64;
    for wf in [0.0f64, 1.0, 30.0, 33.5, 100.0] {
        for ws in [0.0f64, 50.0, 62.5, 100.0] {
            for fts in [None, Some(1u64), Some(2), Some(1000)] {
                for vec in [None, Some(1u64), Some(7), Some(100000)] {
                    let term = |r: Option<u64>| r.map_or(0.0, |r| 1.0 / (k + r as f64));
                    let combined = term(fts) * (wf / WEIGHT_SCALE as f64)
                        + term(vec) * (ws / WEIGHT_SCALE as f64);
                    let bound = (wf + ws) / (WEIGHT_SCALE as f64 * k);
                    assert!(combined >= 0.0);
                    assert!(combined <= bound + 1e-12);
                }
            }
        }
    }
}

#[test]
fn row_shapes_follow_the_statements() {
    let column = |sql: &str, index: usize| -> String {
        let select = sql.rfind("select ").map(|at| &sql[at + 7..]).unwrap_or(sql);
        let list = select.split(" from ").next().unwrap();
        let mut depth = 0;
        let mut columns: Vec<String> = vec![String::new()];
        for c in list.chars() {
            match c {
                '(' => depth += 1,
                ')' => depth -= 1,
                ',' if depth == 0 => {
                    columns.push(String::new());
                    continue;
                }
                _ => {}
            }
            columns.last_mut().unwrap().push(c);
        }
        columns[index].trim().to_string()
    };
    let fts = SearchStrategy::Fts.shape();
    assert!(fts.negate_score && fts.fused.is_none());
    assert_eq!(column(SELECT_FTS, fts.score), "rank as score");
    assert_eq!(column(SELECT_FTS, fts.email), "email");
    assert_eq!(column(SELECT_FTS, fts.province), "province");
    assert_eq!(column(SELECT_FTS, fts.city), "city");
    assert_eq!(column(SELECT_FTS, fts.age), "age");
    assert_eq!(column(SELECT_FTS, fts.sex), "sex");
    assert!(column(SELECT_FTS, fts.template).ends_with("as template"));
    let rerank = SearchStrategy::ReRankBySemantics.shape();
    assert!(rerank.negate_score);
    assert_eq!(column(SELECT_RERANK, rerank.template), "record.template_text");
    assert_eq!(column(SELECT_RERANK, rerank.score), "fts_matches.score");
    assert_eq!(column(SELECT_RERANK, rerank.sex), "record.sex");
    assert!(!SearchStrategy::Semantic.shape().negate_score);
    assert!(!SearchStrategy::KeywordFirst.shape().negate_score);
    assert_eq!(SearchStrategy::KeywordFirst.shape().score, 6);
    let fused = SearchStrategy::ReciprocalRankFusion.shape();
    assert_eq!(fused.score, 8);
    assert!(!fused.negate_score);
    let extra = fused.fused.unwrap();
    assert_eq!(
        (extra.vec_rank, extra.fts_rank, extra.vec_distance, extra.fts_score),
        (6, 7, 9, 10)
    );
}

#[test]
fn a_search_goes_step_by_step() {
    for strategy in ALL {
        let first = strategy.next_action(SearchEvent::Parsed);
        if strategy == SearchStrategy::Fts {
            assert_eq!(first, SearchAction::Run);
        } else {
            assert_eq!(first, SearchAction::Embed);
        }
        assert_eq!(strategy.next_action(SearchEvent::Embedded { ok: true }), SearchAction::Run);
        assert_eq!(
            strategy.next_action(SearchEvent::Embedded { ok: false }),
            SearchAction::Answer(Reply::Fallback)
        );
        assert_eq!(strategy.next_action(SearchEvent::Searched { ok: true }), SearchAction::Record);
        assert_eq!(
            strategy.next_action(SearchEvent::Searched { ok: false }),
            SearchAction::Answer(Reply::Fallback)
        );
        assert_eq!(
            strategy.next_action(SearchEvent::Recorded { ok: true }),
            SearchAction::Answer(Reply::Results)
        );
        assert_eq!(
            strategy.next_action(SearchEvent::Recorded { ok: false }),
            SearchAction::Answer(Reply::Fallback)
        );
    }
}

#[test]
fn the_history_is_written_only_after_a_search_that_ran() {
    for strategy in ALL {
        for embedded in [true, false] {
            for searched in [true, false] {
                for recorded in [true, false] {
                    let mut wrote = false;
                    let mut ran = false;
                    let mut event = SearchEvent::Parsed;
                    let reply = loop {
                        match strategy.next_action(event) {
                            SearchAction::Embed => event = SearchEvent::Embedded { ok: embedded },
                            SearchAction::Run => {
                                ran = searched;
                                event = SearchEvent::Searched { ok: searched };
                            }
                            SearchAction::Record => {
                                assert!(ran);
                                wrote = true;
                                event = SearchEvent::Recorded { ok: recorded };
                            }
                            SearchAction::Answer(reply) => break reply,
                        }
                    };
                    let reached = !strategy.needs_embedding() || embedded;
                    assert_eq!(wrote, reached && searched);
                    assert_eq!(reply == Reply::Results, reached && searched && recorded);
                }
            }
        }
    }
}
