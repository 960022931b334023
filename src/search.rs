//! Search over the records: each record's file name, title and author are
//! scored against the query by a fuzzy matcher, and the best matches are
//! listed first.

use vstd::prelude::*;
use vstd::string::*;
use fuzzy_matcher::FuzzyMatcher;
use crate::record::{clone_records, PdfMetadata};

verus! {

/// How many matches a search lists at most.
pub const MAX_RESULTS: usize = 10;

/// The score of `pattern` against `choice` under the skim matcher's default
/// settings, or `None` when it does not match.
pub uninterp spec fn skim_score(choice: Seq<char>, pattern: Seq<char>) -> Option<i64>;

/// Relies on fuzzy_matcher's SkimMatcherV2::fuzzy_match with default
/// settings: the score depends on the two strings alone, and an empty pattern
/// scores 0.
#[verifier::external_body]
fn skim_fuzzy_match(choice: &str, pattern: &str) -> (r: Option<i64>)
    ensures
        r == skim_score(choice@, pattern@),
        pattern@.len() == 0 ==> r == Some(0i64),
{
    fuzzy_matcher::skim::SkimMatcherV2::default().fuzzy_match(choice, pattern)
}

/// The part of `p` after its last `/` (all of it when there is none).
pub open spec fn file_name_part(p: Seq<char>) -> Seq<char>
    decreases p.len(),
{
    if p.len() == 0 {
        p
    } else if p.last() == '/' {
        Seq::empty()
    } else {
        file_name_part(p.drop_last()).push(p.last())
    }
}

/// The text of an optional property, empty when absent.
pub open spec fn text_or_empty(o: Option<String>) -> Seq<char> {
    match o {
        Some(s) => s@,
        None => Seq::empty(),
    }
}

/// What a record is searched by: its file name, title and author, separated
/// by spaces.
pub open spec fn searchable_text(m: PdfMetadata) -> Seq<char> {
    file_name_part(m.path@) + seq![' '] + text_or_empty(m.title) + seq![' '] + text_or_empty(
        m.author,
    )
}

/// The records that match `q`, each with its score, in list order.
pub open spec fn scored(list: Seq<PdfMetadata>, q: Seq<char>) -> Seq<(PdfMetadata, i64)>
    decreases list.len(),
{
    if list.len() == 0 {
        Seq::empty()
    } else {
        let rest = scored(list.drop_last(), q);
        match skim_score(searchable_text(list.last()), q) {
            Some(sc) => rest.push((list.last(), sc)),
            None => rest,
        }
    }
}

/// `x` placed after every entry that scores at least as high.
pub open spec fn insert_by_score(s: Seq<(PdfMetadata, i64)>, x: (PdfMetadata, i64)) -> Seq<
    (PdfMetadata, i64),
>
    decreases s.len(),
{
    if s.len() == 0 {
        seq![x]
    } else if s[0].1 >= x.1 {
        seq![s[0]] + insert_by_score(s.drop_first(), x)
    } else {
        seq![x] + s
    }
}

/// The entries by descending score; entries with equal scores keep their order.
pub open spec fn ranked(s: Seq<(PdfMetadata, i64)>) -> Seq<(PdfMetadata, i64)>
    decreases s.len(),
{
    if s.len() == 0 {
        Seq::empty()
    } else {
        insert_by_score(ranked(s.drop_last()), s.last())
    }
}

/// What a search for `q` lists: every record when `q` is empty, else the
/// best-scoring matches, at most `MAX_RESULTS` of them.
pub open spec fn search_results(list: Seq<PdfMetadata>, q: Seq<char>) -> Seq<PdfMetadata> {
    if q.len() == 0 {
        list
    } else {
        let r = ranked(scored(list, q));
        let n = if r.len() <= MAX_RESULTS { r.len() as int } else { MAX_RESULTS as int };
        r.subrange(0, n).map_values(|e: (PdfMetadata, i64)| e.0)
    }
}

/// Inserting where the first lower score stands is `insert_by_score`.
pub proof fn lemma_insert_by_score_at(s: Seq<(PdfMetadata, i64)>, x: (PdfMetadata, i64), p: int)
    requires
        0 <= p <= s.len(),
        forall|k: int| 0 <= k < p ==> s[k].1 >= x.1,
        p < s.len() ==> s[p].1 < x.1,
    ensures
        insert_by_score(s, x) == s.insert(p, x),
    decreases p,
{
    if p == 0 {
        if s.len() > 0 {
            assert(seq![x] + s =~= s.insert(0, x));
        } else {
            assert(seq![x] =~= s.insert(0, x));
        }
    } else {
        let t = s.drop_first();
        assert forall|k: int| 0 <= k < p - 1 implies t[k].1 >= x.1 by {
            assert(t[k] == s[k + 1]);
        }
        lemma_insert_by_score_at(t, x, p - 1);
        assert(seq![s[0]] + t.insert(p - 1, x) =~= s.insert(p, x));
    }
}

/// The file name part of `path`.
fn file_name_of(path: &String) -> (r: String)
    ensures
        r@ == file_name_part(path@),
{
    let s = path.as_str();
    let n = s.unicode_len();
    let mut start: usize = n;
    assert(path@.subrange(0, n as int) =~= path@);
    assert(file_name_part(path@) =~= file_name_part(path@.subrange(0, n as int)) + path@.subrange(
        n as int,
        n as int,
    ));
    while start > 0 && s.get_char(start - 1) != '/'
        invariant
            start <= n,
            n == path@.len(),
            s@ == path@,
            file_name_part(path@) == file_name_part(path@.subrange(0, start as int)) + path@.subrange(
                start as int,
                n as int,
            ),
        decreases start,
    {
        let ghost p = path@.subrange(0, start as int);
        assert(p.drop_last() =~= path@.subrange(0, start - 1));
        assert(path@.subrange(start - 1, n as int) =~= seq![p.last()] + path@.subrange(
            start as int,
            n as int,
        ));
        assert(file_name_part(p.drop_last()).push(p.last()) + path@.subrange(start as int, n as int)
            =~= file_name_part(p.drop_last()) + path@.subrange(start - 1, n as int));
        start = start - 1;
    }
    proof {
        let p = path@.subrange(0, start as int);
        if start > 0 {
            assert(p.last() == '/');
        }
        assert(file_name_part(p) =~= Seq::<char>::empty());
        assert(path@.subrange(0, n as int) =~= path@);
    }
    let r = String::from_str(s.substring_char(start, n));
    assert(r@ =~= file_name_part(path@));
    r
}

fn text_of(o: &Option<String>) -> (r: &str)
    ensures
        r@ == text_or_empty(*o),
{
    proof {
        reveal_strlit("");
    }
    match o {
        Some(s) => s.as_str(),
        None => "",
    }
}

/// The text a record is searched by.
pub fn searchable(m: &PdfMetadata) -> (r: String)
    ensures
        r@ == searchable_text(*m),
{
    proof {
        reveal_strlit(" ");
    }
    let r = file_name_of(&m.path).concat(" ").concat(text_of(&m.title)).concat(" ").concat(
        text_of(&m.author),
    );
    assert(r@ =~= searchable_text(*m));
    r
}

/// The records of `list` for the query `query`: all of them, in order, when
/// the query is empty; else those the fuzzy matcher accepts, best score
/// first (equal scores in list order), at most `MAX_RESULTS`.
pub fn search(list: &Vec<PdfMetadata>, query: &String) -> (r: Vec<PdfMetadata>)
    ensures
        r@ == search_results(list@, query@),
{
    if query.as_str().unicode_len() == 0 {
        return clone_records(list);
    }
    let mut hits: Vec<(PdfMetadata, i64)> = Vec::new();
    let mut i: usize = 0;
    while i < list.len()
        invariant
            i <= list.len(),
            hits@ == scored(list@.subrange(0, i as int), query@),
        decreases list.len() - i,
    {
        let m = &list[i];
        proof {
            let s = list@.subrange(0, i + 1);
            assert(s.drop_last() =~= list@.subrange(0, i as int));
            assert(s.last() == list@[i as int]);
        }
        let text = searchable(m);
        match skim_fuzzy_match(text.as_str(), query.as_str()) {
            Some(sc) => {
                hits.push((m.clone(), sc));
            },
            None => {},
        }
        i = i + 1;
    }
    assert(list@.subrange(0, list@.len() as int) =~= list@);
    let mut order: Vec<(PdfMetadata, i64)> = Vec::new();
    let mut j: usize = 0;
    while j < hits.len()
        invariant
            j <= hits.len(),
            order@ == ranked(hits@.subrange(0, j as int)),
        decreases hits.len() - j,
    {
        let x = (hits[j].0.clone(), hits[j].1);
        let mut p: usize = 0;
        while p < order.len() && order[p].1 >= x.1
            invariant
                p <= order.len(),
                forall|k: int| 0 <= k < p ==> order@[k].1 >= x.1,
            decreases order.len() - p,
        {
            p = p + 1;
        }
        proof {
            lemma_insert_by_score_at(order@, x, p as int);
            let s = hits@.subrange(0, j + 1);
            assert(s.drop_last() =~= hits@.subrange(0, j as int));
            assert(s.last() == hits@[j as int]);
        }
        order.insert(p, x);
        j = j + 1;
    }
    assert(hits@.subrange(0, hits@.len() as int) =~= hits@);
    let n = if order.len() <= MAX_RESULTS { order.len() } else { MAX_RESULTS };
    let mut out: Vec<PdfMetadata> = Vec::new();
    let mut k: usize = 0;
    while k < n
        invariant
            k <= n,
            n <= order.len(),
            out@ == order@.subrange(0, k as int).map_values(|e: (PdfMetadata, i64)| e.0),
        decreases n - k,
    {
        out.push(order[k].0.clone());
        assert(order@.subrange(0, k + 1).map_values(|e: (PdfMetadata, i64)| e.0) =~= order@.subrange(
            0,
            k as int,
        ).map_values(|e: (PdfMetadata, i64)| e.0).push(order@[k as int].0));
        k = k + 1;
    }
    out
}

} // verus!
