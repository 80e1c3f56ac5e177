//! The Quran as a whole: gathering it from its bundled records, looking
//! up surahs and ayahs, searching, and picking an ayah at random.

use vstd::prelude::*;
use crate::api::types::{Ayah, AyahView, SearchResult, SearchResultView, Surah, SurahView, ayah_views};
use crate::text::{
    ascii_lowercase, ascii_uppercase, contains_substring, has_substring, is_ascii_text,
    lemma_ascii_case, lemma_ascii_lowercase_add, lemma_substring_of_longer, lowercase, to_lowercase,
};
use std::time::{Duration, SystemTime, SystemTimeError};

verus! {

/// One ayah as the bundled data records it.
#[derive(Debug)]
pub struct QuranJsonAyah {
    pub id: u32,
    pub text: String,
    pub translation: String,
}

/// One surah as the bundled data records it.
#[derive(Debug)]
pub struct QuranJsonSurah {
    pub id: u32,
    pub name: String,
    pub transliteration: String,
    pub translation: String,
    pub revelation_type: String,
    pub total_verses: u32,
    pub verses: Vec<QuranJsonAyah>,
}

/// The ayah that a recorded ayah of surah `surah_id` becomes.
pub open spec fn ayah_from_json(a: QuranJsonAyah, surah_id: u32) -> AyahView {
    AyahView { id: a.id, text: a.text@, translation: a.translation@, surah_id }
}

/// The surah that a recorded surah becomes: its fields as they are, and each
/// verse marked with the surah's number.
pub open spec fn surah_from_json(s: QuranJsonSurah) -> SurahView {
    SurahView {
        id: s.id,
        name: s.name@,
        transliteration: s.transliteration@,
        translation: s.translation@,
        revelation_type: s.revelation_type@,
        total_verses: s.total_verses,
        verses: s.verses@.map_values(|a: QuranJsonAyah| ayah_from_json(a, s.id)),
    }
}

/// The surahs of `records` keyed by number; of two records with one number,
/// the later one is kept.
pub open spec fn index_records(records: Seq<QuranJsonSurah>) -> Map<u32, SurahView>
    decreases records.len(),
{
    if records.len() == 0 {
        Map::empty()
    } else {
        index_records(records.drop_last()).insert(
            records.last().id,
            surah_from_json(records.last()),
        )
    }
}

/// Surah numbers strictly increase along `q`, so none occurs twice.
pub open spec fn ids_increasing(q: Seq<SurahView>) -> bool {
    forall|i: int, j: int| 0 <= i < j < q.len() ==> q[i].id < q[j].id
}

/// Every verse is marked with the number of the surah that holds it.
pub open spec fn verses_marked(q: Seq<SurahView>) -> bool {
    forall|i: int, k: int|
        0 <= i < q.len() && 0 <= k < q[i].verses.len() ==> #[trigger] q[i].verses[k].surah_id
            == q[i].id
}

/// What every `Quran` satisfies.
pub open spec fn quran_well_formed(q: Seq<SurahView>) -> bool {
    ids_increasing(q) && verses_marked(q)
}

/// The surah numbered `id` in `q`, if there is one.
pub open spec fn find_surah(q: Seq<SurahView>, id: u32) -> Option<SurahView> {
    if exists|i: int| 0 <= i < q.len() && q[i].id == id {
        Some(q[choose|i: int| 0 <= i < q.len() && q[i].id == id])
    } else {
        None
    }
}

/// The whole Quran: its surahs, held in order of their numbers. The order is
/// what search walks them in; a map keyed by number would give no order to
/// walk, so lookup by number is a binary search instead.
pub struct Quran {
    surahs: Vec<Surah>,
}

/// The views of a sequence of surahs.
pub open spec fn surah_views(v: Seq<Surah>) -> Seq<SurahView> {
    v.map_values(|s: Surah| s@)
}

impl View for Quran {
    type V = Seq<SurahView>;

    closed spec fn view(&self) -> Seq<SurahView> {
        surah_views(self.surahs@)
    }
}

impl Quran {
    #[verifier::type_invariant]
    spec fn inv(self) -> bool {
        quran_well_formed(self@)
    }
}

impl Quran {
    /// Every `Quran` is well formed: its surah numbers strictly increase and
    /// each verse is marked with the number of its surah.
    pub fn well_formed(&self)
        ensures
            quran_well_formed(self@),
    {
        proof {
            use_type_invariant(self);
        }
    }
}

/// In a `q` without repeated numbers, the surah at `i` is the one found by its number.
pub proof fn lemma_find_at(q: Seq<SurahView>, i: int)
    requires
        ids_increasing(q),
        0 <= i < q.len(),
    ensures
        find_surah(q, q[i].id) == Some(q[i]),
{
    let j = choose|j: int| 0 <= j < q.len() && q[j].id == q[i].id;
    assert(0 <= j < q.len() && q[j].id == q[i].id);
    if j < i {
        assert(q[j].id < q[i].id);
    } else if i < j {
        assert(q[i].id < q[j].id);
    }
}

/// The surah that a record becomes.
fn surah_of_record(r: &QuranJsonSurah) -> (s: Surah)
    ensures
        s@ == surah_from_json(*r),
{
    let mut verses: Vec<Ayah> = Vec::new();
    let n = r.verses.len();
    let mut k: usize = 0;
    while k < n
        invariant
            n == r.verses@.len(),
            k <= n,
            ayah_views(verses@) =~= r.verses@.subrange(0, k as int).map_values(
                |a: QuranJsonAyah| ayah_from_json(a, r.id),
            ),
        decreases n - k,
    {
        let a = &r.verses[k];
        let ghost before = verses@;
        verses.push(
            Ayah {
                id: a.id,
                text: a.text.clone(),
                translation: a.translation.clone(),
                surah_id: r.id,
            },
        );
        proof {
            assert(verses@ == before.push(verses@.last()));
            assert(r.verses@.subrange(0, k + 1) =~= r.verses@.subrange(0, k as int).push(
                r.verses@[k as int],
            ));
            assert(ayah_views(verses@) =~= ayah_views(before).push(verses@.last()@));
        }
        k = k + 1;
    }
    assert(r.verses@.subrange(0, n as int) =~= r.verses@);
    Surah {
        id: r.id,
        name: r.name.clone(),
        transliteration: r.transliteration.clone(),
        translation: r.translation.clone(),
        revelation_type: r.revelation_type.clone(),
        total_verses: r.total_verses,
        verses,
    }
}

/// The position at which a surah numbered `id` stands or belongs in `v`.
fn position_of(v: &Vec<Surah>, id: u32) -> (p: usize)
    requires
        ids_increasing(surah_views(v@)),
    ensures
        p <= v@.len(),
        forall|i: int| 0 <= i < p ==> v@[i].id < id,
        forall|i: int| p <= i < v@.len() ==> v@[i].id >= id,
{
    let mut lo: usize = 0;
    let mut hi: usize = v.len();
    while lo < hi
        invariant
            lo <= hi <= v@.len(),
            ids_increasing(surah_views(v@)),
            forall|i: int| 0 <= i < lo ==> v@[i].id < id,
            forall|i: int| hi <= i < v@.len() ==> v@[i].id >= id,
        decreases hi - lo,
    {
        let mid = lo + (hi - lo) / 2;
        if v[mid].id < id {
            proof {
                assert forall|i: int| 0 <= i <= mid implies v@[i].id < id by {
                    if i < mid {
                        assert(surah_views(v@)[i].id < surah_views(v@)[mid as int].id);
                    }
                }
            }
            lo = mid + 1;
        } else {
            proof {
                assert forall|i: int| mid <= i < v@.len() implies v@[i].id >= id by {
                    if mid < i {
                        assert(surah_views(v@)[mid as int].id < surah_views(v@)[i].id);
                    }
                }
            }
            hi = mid;
        }
    }
    lo
}

impl Quran {
    /// Gathers the records into surahs keyed by the number each record gives;
    /// of two records with one number the later one is kept.
    pub fn from_surahs(records: Vec<QuranJsonSurah>) -> (q: Quran)
        ensures
            quran_well_formed(q@),
            forall|id: u32|
                #![trigger find_surah(q@, id)]
                find_surah(q@, id) == if index_records(records@).contains_key(id) {
                    Some(index_records(records@)[id])
                } else {
                    None
                },
    {
        let mut surahs: Vec<Surah> = Vec::new();
        let n = records.len();
        let mut i: usize = 0;
        while i < n
            invariant
                n == records@.len(),
                i <= n,
                quran_well_formed(surah_views(surahs@)),
                forall|id: u32|
                    #![trigger find_surah(surah_views(surahs@), id)]
                    find_surah(surah_views(surahs@), id) == if index_records(
                        records@.subrange(0, i as int),
                    ).contains_key(id) {
                        Some(index_records(records@.subrange(0, i as int))[id])
                    } else {
                        None
                    },
            decreases n - i,
        {
            let s = surah_of_record(&records[i]);
            let ghost old_q = surah_views(surahs@);
            let ghost sv = s@;
            let p = position_of(&surahs, s.id);
            if p < surahs.len() && surahs[p].id == s.id {
                surahs.set(p, s);
                assert(surah_views(surahs@) =~= old_q.update(p as int, sv));
            } else {
                surahs.insert(p, s);
                assert(surah_views(surahs@) =~= old_q.insert(p as int, sv));
            }
            proof {
                let q = surah_views(surahs@);
                let prefix = records@.subrange(0, i + 1);
                assert(prefix.drop_last() =~= records@.subrange(0, i as int));
                assert(prefix.last() == records@[i as int]);
                lemma_place(old_q, q, sv, p as int);
                assert forall|id: u32| #[trigger]
                    find_surah(q, id) == if index_records(prefix).contains_key(id) {
                        Some(index_records(prefix)[id])
                    } else {
                        None
                    } by {
                    if id != sv.id {
                        assert(find_surah(q, id) == find_surah(old_q, id));
                    }
                }
            }
            i = i + 1;
        }
        assert(records@.subrange(0, n as int) =~= records@);
        let q = Quran { surahs };
        proof {
            use_type_invariant(&q);
        }
        q
    }
}

/// Placing `sv` at `p`, the first position whose number is not below its own:
/// over the number already there, or in front of it otherwise.
proof fn lemma_place(old_q: Seq<SurahView>, q: Seq<SurahView>, sv: SurahView, p: int)
    requires
        quran_well_formed(old_q),
        verses_marked(seq![sv]),
        0 <= p <= old_q.len(),
        forall|i: int| 0 <= i < p ==> old_q[i].id < sv.id,
        forall|i: int| p <= i < old_q.len() ==> old_q[i].id >= sv.id,
        q == if p < old_q.len() && old_q[p].id == sv.id {
            old_q.update(p, sv)
        } else {
            old_q.insert(p, sv)
        },
    ensures
        quran_well_formed(q),
        find_surah(q, sv.id) == Some(sv),
        forall|id: u32| id != sv.id ==> find_surah(q, id) == find_surah(old_q, id),
{
    let replace = p < old_q.len() && old_q[p].id == sv.id;
    assert forall|k: int| 0 <= k < sv.verses.len() implies #[trigger] sv.verses[k].surah_id
        == sv.id by {
        assert(seq![sv][0] == sv);
    }
    if replace {
        assert(ids_increasing(q)) by {
            assert forall|i: int, j: int| 0 <= i < j < q.len() implies q[i].id < q[j].id by {
                assert(old_q[i].id < old_q[j].id);
            }
        }
    } else {
        assert(ids_increasing(q)) by {
            assert forall|i: int, j: int| 0 <= i < j < q.len() implies q[i].id < q[j].id by {
                if j < p {
                    assert(old_q[i].id < old_q[j].id);
                } else if j == p {
                    assert(q[i] == old_q[i]);
                } else if i == p {
                    assert(q[j] == old_q[j - 1]);
                    if j - 1 > p {
                        assert(old_q[p].id < old_q[j - 1].id);
                    }
                } else if i < p {
                    assert(old_q[i].id < old_q[j - 1].id);
                } else {
                    assert(old_q[i - 1].id < old_q[j - 1].id);
                }
            }
        }
    }
    assert(verses_marked(q)) by {
        assert forall|i: int, k: int|
            0 <= i < q.len() && 0 <= k < q[i].verses.len() implies #[trigger] q[i].verses[k].surah_id
            == q[i].id by {
            if replace {
                if i != p {
                    assert(q[i] == old_q[i]);
                }
            } else {
                if i < p {
                    assert(q[i] == old_q[i]);
                } else if i > p {
                    assert(q[i] == old_q[i - 1]);
                }
            }
        }
    }
    assert(q[p] == sv);
    lemma_find_at(q, p);
    assert forall|id: u32| id != sv.id implies find_surah(q, id) == find_surah(old_q, id) by {
        if exists|i: int| 0 <= i < old_q.len() && old_q[i].id == id {
            let i = choose|i: int| 0 <= i < old_q.len() && old_q[i].id == id;
            lemma_find_at(old_q, i);
            let j = if replace || i < p {
                i
            } else {
                i + 1
            };
            assert(q[j] == old_q[i]);
            lemma_find_at(q, j);
        } else {
            assert forall|j: int| 0 <= j < q.len() implies q[j].id != id by {
                if j != p {
                    if replace || j < p {
                        assert(q[j] == old_q[j]);
                    } else {
                        assert(q[j] == old_q[j - 1]);
                    }
                }
            }
        }
    }
}

/// The surah found for `id`, taken by its view.
pub open spec fn surah_option_view(r: Option<&Surah>) -> Option<SurahView> {
    match r {
        Some(s) => Some(s@),
        None => None,
    }
}

/// The ayah found, taken by its view.
pub open spec fn ayah_option_view(r: Option<Ayah>) -> Option<AyahView> {
    match r {
        Some(a) => Some(a@),
        None => None,
    }
}

/// The `ayah_num`-th verse (counting from one) of the surah numbered `surah_id`.
pub open spec fn find_ayah(q: Seq<SurahView>, surah_id: u32, ayah_num: u32) -> Option<AyahView> {
    match find_surah(q, surah_id) {
        Some(s) => if 1 <= ayah_num && ayah_num - 1 < s.verses.len() {
            Some(s.verses[ayah_num - 1])
        } else {
            None
        },
        None => None,
    }
}

/// Looks up the surah numbered `id`.
pub fn get_surah(quran: &Quran, id: u32) -> (r: Option<&Surah>)
    ensures
        surah_option_view(r) == find_surah(quran@, id),
        quran_well_formed(quran@),
        r matches Some(s) ==> s.id == id && forall|k: int|
            0 <= k < s.verses@.len() ==> (#[trigger] s.verses@[k]).surah_id == id,
{
    proof {
        use_type_invariant(quran);
        law_found_surah_matches(quran@, id);
    }
    let v = &quran.surahs;
    let p = position_of(v, id);
    if p < v.len() && v[p].id == id {
        proof {
            lemma_find_at(quran@, p as int);
        }
        assert(surah_views(v@)[p as int] == v@[p as int]@);
        assert forall|k: int| 0 <= k < v@[p as int].verses@.len() implies (
        #[trigger] v@[p as int].verses@[k]).surah_id == id by {
            assert(v@[p as int]@.verses[k] == v@[p as int].verses@[k]@);
            assert(quran@[p as int].verses[k].surah_id == quran@[p as int].id);
        }
        Some(&v[p])
    } else {
        assert forall|i: int| 0 <= i < quran@.len() implies quran@[i].id != id by {
            if p < i {
                assert(quran@[p as int].id < quran@[i].id);
            }
        }
        None
    }
}

/// Looks up the `ayah_num`-th verse (counting from one) of the surah numbered `surah_id`.
pub fn get_ayah(quran: &Quran, surah_id: u32, ayah_num: u32) -> (r: Option<Ayah>)
    requires
        ayah_num >= 1,
    ensures
        ayah_option_view(r) == find_ayah(quran@, surah_id, ayah_num),
        quran_well_formed(quran@),
        r matches Some(a) ==> a.surah_id == surah_id,
{
    let surah = get_surah(quran, surah_id)?;
    let idx = (ayah_num - 1) as usize;
    if idx < surah.verses.len() {
        Some(surah.verses[idx].clone())
    } else {
        None
    }
}

/// The most results that a search gives.
pub const MAX_RESULTS: usize = 50;

/// The search hit for verse `a` of surah `s`.
pub open spec fn hit_of(s: SurahView, a: AyahView) -> SearchResultView {
    SearchResultView {
        surah_id: s.id,
        surah_name: s.transliteration,
        ayah_num: a.id,
        text: a.text,
        translation: a.translation,
    }
}

/// A verse matches a lowercased query when its lowercased translation contains it.
pub open spec fn ayah_matches(a: AyahView, query_lower: Seq<char>) -> bool {
    has_substring(lowercase(a.translation), query_lower)
}

/// The hits among the first `n` verses of `s`, in order.
pub open spec fn surah_hits(s: SurahView, query_lower: Seq<char>, n: int) -> Seq<SearchResultView>
    decreases n,
{
    if n <= 0 {
        seq![]
    } else if ayah_matches(s.verses[n - 1], query_lower) {
        surah_hits(s, query_lower, n - 1).push(hit_of(s, s.verses[n - 1]))
    } else {
        surah_hits(s, query_lower, n - 1)
    }
}

/// The hits among all verses of the first `n` surahs of `q`, in order.
pub open spec fn all_hits(q: Seq<SurahView>, query_lower: Seq<char>, n: int) -> Seq<
    SearchResultView,
>
    decreases n,
{
    if n <= 0 {
        seq![]
    } else {
        all_hits(q, query_lower, n - 1) + surah_hits(
            q[n - 1],
            query_lower,
            q[n - 1].verses.len() as int,
        )
    }
}

/// At most the first `n` elements of `s`.
pub open spec fn at_most<A>(s: Seq<A>, n: int) -> Seq<A> {
    if s.len() <= n {
        s
    } else {
        s.subrange(0, n)
    }
}

/// What a search for the lowercased query gives: the first hits, surah by
/// surah in order of number and verse by verse in order, up to `MAX_RESULTS`.
pub open spec fn search_lowered_results(q: Seq<SurahView>, query_lower: Seq<char>) -> Seq<
    SearchResultView,
> {
    at_most(all_hits(q, query_lower, q.len() as int), MAX_RESULTS as int)
}

/// What a search for `query` gives: the hits of its lowercase form.
pub open spec fn search_results(q: Seq<SurahView>, query: Seq<char>) -> Seq<SearchResultView> {
    search_lowered_results(q, lowercase(query))
}

/// What a search for an ASCII `query` gives: the hits of its ASCII lowercase form.
pub open spec fn search_ascii_results(q: Seq<SurahView>, query: Seq<char>) -> Seq<SearchResultView> {
    search_lowered_results(q, ascii_lowercase(query))
}

/// The views of a sequence of search hits.
pub open spec fn result_views(v: Seq<SearchResult>) -> Seq<SearchResultView> {
    v.map_values(|r: SearchResult| r@)
}

/// Whether the translation of `a` contains `query_lower` once lowercased.
pub fn translation_matches(a: &Ayah, query_lower: &str) -> (r: bool)
    ensures
        r == ayah_matches(a@, query_lower@),
{
    let t = to_lowercase(a.translation.as_str());
    contains_substring(t.as_str(), query_lower)
}

/// Searches the translations for a query that is already lowercase.
pub fn search_lowered(quran: &Quran, query_lower: &str) -> (r: Vec<SearchResult>)
    ensures
        result_views(r@) == search_lowered_results(quran@, query_lower@),
        quran_well_formed(quran@),
{
    quran.well_formed();
    let ghost ql = query_lower@;
    let surahs = &quran.surahs;
    let mut results: Vec<SearchResult> = Vec::new();
    let n = surahs.len();
    let mut i: usize = 0;
    while i < n
        invariant
            n == surahs@.len(),
            quran@ == surah_views(surahs@),
            ql == query_lower@,
            i <= n,
            result_views(results@) == all_hits(quran@, ql, i as int),
        decreases n - i,
    {
        let surah = &surahs[i];
        let ghost sv = quran@[i as int];
        assert(sv == surah@);
        let m = surah.verses.len();
        let mut k: usize = 0;
        while k < m
            invariant
                n == surahs@.len(),
                quran@ == surah_views(surahs@),
                ql == query_lower@,
                i < n,
                sv == quran@[i as int],
                sv == surah@,
                m == surah.verses@.len(),
                k <= m,
                result_views(results@) == all_hits(quran@, ql, i as int) + surah_hits(
                    sv,
                    ql,
                    k as int,
                ),
            decreases m - k,
        {
            let ayah = &surah.verses[k];
            assert(sv.verses[k as int] == ayah@);
            if translation_matches(ayah, query_lower) {
                let hit = SearchResult {
                    surah_id: surah.id,
                    surah_name: surah.transliteration.clone(),
                    ayah_num: ayah.id,
                    text: ayah.text.clone(),
                    translation: ayah.translation.clone(),
                };
                let ghost before = results@;
                results.push(hit);
                assert(result_views(results@) =~= result_views(before).push(
                    hit_of(sv, sv.verses[k as int]),
                ));
            }
            k = k + 1;
        }
        assert(all_hits(quran@, ql, i + 1) == all_hits(quran@, ql, i as int) + surah_hits(
            sv,
            ql,
            m as int,
        ));
        i = i + 1;
    }
    let ghost all = result_views(results@);
    results.truncate(MAX_RESULTS);
    assert(result_views(results@) =~= at_most(all, MAX_RESULTS as int));
    results
}

/// Searches the translations for `query`, ignoring case: the hits in order of
/// surah and verse, at most `MAX_RESULTS` of them.
pub fn search(quran: &Quran, query: &str) -> (r: Vec<SearchResult>)
    ensures
        result_views(r@) == search_results(quran@, query@),
        is_ascii_text(query@) ==> result_views(r@) == search_ascii_results(quran@, query@),
        quran_well_formed(quran@),
{
    let query_lower = to_lowercase(query);
    search_lowered(quran, query_lower.as_str())
}

/// `i` is the first surah of `q` whose transliteration, lowercased, is `name` lowercased.
pub open spec fn named_at(q: Seq<SurahView>, name: Seq<char>, i: int) -> bool {
    &&& 0 <= i < q.len()
    &&& lowercase(q[i].transliteration) == lowercase(name)
    &&& forall|j: int| 0 <= j < i ==> lowercase(q[j].transliteration) != lowercase(name)
}

/// The number of the surah that `name` names, ignoring case: of two surahs
/// with that transliteration, the one with the lower number.
pub open spec fn surah_by_name(q: Seq<SurahView>, name: Seq<char>) -> Option<u32> {
    if exists|i: int| named_at(q, name, i) {
        Some(q[choose|i: int| named_at(q, name, i)].id)
    } else {
        None
    }
}

/// Looks up a surah by its transliteration, ignoring case (see `surah_by_name`).
pub fn surah_id_by_name(quran: &Quran, name: &str) -> (r: Option<u32>)
    ensures
        r == surah_by_name(quran@, name@),
{
    let target = to_lowercase(name);
    let surahs = &quran.surahs;
    let n = surahs.len();
    let mut i: usize = 0;
    while i < n
        invariant
            n == surahs@.len(),
            quran@ == surah_views(surahs@),
            target@ == lowercase(name@),
            i <= n,
            forall|j: int| 0 <= j < i ==> lowercase(quran@[j].transliteration) != lowercase(name@),
        decreases n - i,
    {
        let t = to_lowercase(surahs[i].transliteration.as_str());
        assert(quran@[i as int].transliteration == surahs@[i as int].transliteration@);
        if t == target {
            assert(named_at(quran@, name@, i as int));
            assert forall|j: int| named_at(quran@, name@, j) implies j == i by {}
            return Some(surahs[i].id);
        }
        i = i + 1;
    }
    None
}

/// The number of surahs.
pub const SURAH_COUNT: usize = 114;

/// The surah numbered `id` is there and has at least one verse.
pub open spec fn surah_has_verses(q: Seq<SurahView>, id: u32) -> bool {
    find_surah(q, id) matches Some(s) && s.verses.len() > 0
}

/// Every surah from 1 to 114 is there with at least one verse.
pub open spec fn has_every_surah_spec(q: Seq<SurahView>) -> bool {
    forall|id: u32| 1 <= id <= SURAH_COUNT ==> surah_has_verses(q, id)
}

/// The surah number that `seed` picks: `seed % 114 + 1`.
pub open spec fn surah_for_seed(seed: usize) -> u32 {
    (seed % SURAH_COUNT + 1) as u32
}

/// The ayah that `seed` picks: in the surah it picks, the verse at
/// `seed % (number of verses)`.
pub open spec fn ayah_for_seed_spec(q: Seq<SurahView>, seed: usize) -> AyahView {
    let s = find_surah(q, surah_for_seed(seed))->0;
    s.verses[(seed as int) % (s.verses.len() as int)]
}

impl Quran {
    /// Whether every surah from 1 to 114 is there with at least one verse, which
    /// is what picking a random ayah needs.
    pub fn has_every_surah(&self) -> (r: bool)
        ensures
            r == has_every_surah_spec(self@),
    {
        let mut id: u32 = 1;
        while id <= SURAH_COUNT as u32
            invariant
                1 <= id <= SURAH_COUNT + 1,
                forall|j: u32| 1 <= j < id ==> surah_has_verses(self@, j),
            decreases SURAH_COUNT + 1 - id,
        {
            match get_surah(self, id) {
                Some(s) => {
                    if s.verses.len() == 0 {
                        assert(!surah_has_verses(self@, id));
                        return false;
                    }
                },
                None => {
                    assert(!surah_has_verses(self@, id));
                    return false;
                },
            }
            id = id + 1;
        }
        true
    }
}

/// The ayah that `seed` picks (see `ayah_for_seed_spec`).
pub fn ayah_for_seed(quran: &Quran, seed: usize) -> (a: Ayah)
    requires
        surah_has_verses(quran@, surah_for_seed(seed)),
    ensures
        a@ == ayah_for_seed_spec(quran@, seed),
{
    let surah_id = (seed % SURAH_COUNT + 1) as u32;
    let surah = get_surah(quran, surah_id).unwrap();
    let idx = seed % surah.verses.len();
    surah.verses[idx].clone()
}

/// `std::time::SystemTime`, the clock's reading.
#[verifier::external_type_specification]
#[verifier::external_body]
pub struct ExSystemTime(SystemTime);

/// `std::time::SystemTimeError`, a reading earlier than the one it was measured from.
#[verifier::external_type_specification]
#[verifier::external_body]
pub struct ExSystemTimeError(SystemTimeError);

/// `SystemTime::now`: the clock's reading now. Nothing is stated of it.
#[verifier::external_body]
fn system_time_now() -> SystemTime {
    SystemTime::now()
}

/// `SystemTime::duration_since(UNIX_EPOCH)`: the time since 1970, or an error
/// when the reading is earlier. Nothing is stated of which comes back.
#[verifier::external_body]
fn since_unix_epoch(t: &SystemTime) -> Result<Duration, SystemTimeError> {
    t.duration_since(std::time::UNIX_EPOCH)
}

/// `Duration::subsec_nanos`: the part of a duration under one second, in
/// nanoseconds, which its documentation says is always below one billion.
#[verifier::external_body]
fn subsec_nanos(d: &Duration) -> (r: u32)
    ensures
        r < 1_000_000_000,
{
    d.subsec_nanos()
}

/// An ayah picked by the nanoseconds of the clock: the one `ayah_for_seed`
/// picks for them. `None` when the clock reads earlier than 1970.
pub fn random_ayah(quran: &Quran) -> (r: Option<Ayah>)
    requires
        has_every_surah_spec(quran@),
    ensures
        r matches Some(a) ==> exists|seed: usize|
            seed < 1_000_000_000 && a@ == #[trigger] ayah_for_seed_spec(quran@, seed),
        r matches Some(a) ==> 1 <= a.surah_id <= SURAH_COUNT && (find_surah(
            quran@,
            a.surah_id,
        ) matches Some(s) && s.verses.contains(a@)),
        quran_well_formed(quran@),
{
    quran.well_formed();
    let now = system_time_now();
    match since_unix_epoch(&now) {
        Ok(d) => {
            let seed = subsec_nanos(&d) as usize;
            assert(1 <= surah_for_seed(seed) <= SURAH_COUNT);
            let a = ayah_for_seed(quran, seed);
            proof {
                law_seed_picks_verse_of_its_surah(quran@, seed);
            }
            Some(a)
        },
        Err(_) => None,
    }
}

/// `r` is the hit of a verse of `q` that matches `query_lower`.
pub open spec fn is_hit_of(q: Seq<SurahView>, query_lower: Seq<char>, r: SearchResultView) -> bool {
    exists|i: int, k: int|
        0 <= i < q.len() && 0 <= k < q[i].verses.len() && ayah_matches(q[i].verses[k], query_lower)
            && r == #[trigger] hit_of(q[i], q[i].verses[k])
}

proof fn lemma_surah_hits(q: Seq<SurahView>, ql: Seq<char>, i: int, n: int)
    requires
        0 <= i < q.len(),
        0 <= n <= q[i].verses.len(),
    ensures
        forall|j: int|
            0 <= j < surah_hits(q[i], ql, n).len() ==> is_hit_of(q, ql, #[trigger] surah_hits(q[i], ql, n)[j]),
        forall|k: int|
            0 <= k < n && ayah_matches(q[i].verses[k], ql) ==> surah_hits(q[i], ql, n).contains(
                hit_of(q[i], q[i].verses[k]),
            ),
    decreases n,
{
    if n > 0 {
        lemma_surah_hits(q, ql, i, n - 1);
        let prev = surah_hits(q[i], ql, n - 1);
        let cur = surah_hits(q[i], ql, n);
        if ayah_matches(q[i].verses[n - 1], ql) {
            assert forall|j: int| 0 <= j < cur.len() implies is_hit_of(q, ql, #[trigger] cur[j]) by {
                if j < prev.len() {
                    assert(cur[j] == prev[j]);
                } else {
                    assert(cur[j] == hit_of(q[i], q[i].verses[n - 1]));
                }
            }
            assert forall|k: int| 0 <= k < n && ayah_matches(q[i].verses[k], ql) implies cur.contains(
                hit_of(q[i], q[i].verses[k]),
            ) by {
                if k < n - 1 {
                    let j = choose|j: int| 0 <= j < prev.len() && prev[j] == hit_of(q[i], q[i].verses[k]);
                    assert(cur[j] == prev[j]);
                } else {
                    assert(cur[prev.len() as int] == hit_of(q[i], q[i].verses[k]));
                }
            }
        }
    }
}

proof fn lemma_all_hits(q: Seq<SurahView>, ql: Seq<char>, n: int)
    requires
        0 <= n <= q.len(),
    ensures
        forall|j: int|
            0 <= j < all_hits(q, ql, n).len() ==> is_hit_of(q, ql, #[trigger] all_hits(q, ql, n)[j]),
        forall|i: int, k: int|
            0 <= i < n && 0 <= k < q[i].verses.len() && ayah_matches(q[i].verses[k], ql)
                ==> all_hits(q, ql, n).contains(#[trigger] hit_of(q[i], q[i].verses[k])),
    decreases n,
{
    if n > 0 {
        lemma_all_hits(q, ql, n - 1);
        let prev = all_hits(q, ql, n - 1);
        let last = surah_hits(q[n - 1], ql, q[n - 1].verses.len() as int);
        lemma_surah_hits(q, ql, n - 1, q[n - 1].verses.len() as int);
        let cur = all_hits(q, ql, n);
        assert(cur == prev + last);
        assert forall|j: int| 0 <= j < cur.len() implies is_hit_of(q, ql, #[trigger] cur[j]) by {
            if j < prev.len() {
                assert(cur[j] == prev[j]);
            } else {
                assert(cur[j] == last[j - prev.len()]);
            }
        }
        assert forall|i: int, k: int|
            0 <= i < n && 0 <= k < q[i].verses.len() && ayah_matches(q[i].verses[k], ql) implies cur.contains(
            #[trigger] hit_of(q[i], q[i].verses[k]),
        ) by {
            if i < n - 1 {
                let j = choose|j: int| 0 <= j < prev.len() && prev[j] == hit_of(q[i], q[i].verses[k]);
                assert(cur[j] == prev[j]);
            } else {
                let j = choose|j: int| 0 <= j < last.len() && last[j] == hit_of(q[i], q[i].verses[k]);
                assert(cur[prev.len() + j] == last[j]);
            }
        }
    }
}

/// A search gives at most `MAX_RESULTS` results; each is the hit of a verse
/// whose lowercased translation contains the lowercased query; and when it gives
/// fewer than `MAX_RESULTS`, every such verse is among them.
pub proof fn law_search_sound_and_complete(q: Seq<SurahView>, query: Seq<char>)
    ensures
        search_results(q, query).len() <= MAX_RESULTS,
        forall|j: int|
            0 <= j < search_results(q, query).len() ==> is_hit_of(
                q,
                lowercase(query),
                #[trigger] search_results(q, query)[j],
            ),
        search_results(q, query).len() < MAX_RESULTS ==> forall|i: int, k: int|
            0 <= i < q.len() && 0 <= k < q[i].verses.len() && ayah_matches(
                q[i].verses[k],
                lowercase(query),
            ) ==> search_results(q, query).contains(#[trigger] hit_of(q[i], q[i].verses[k])),
{
    let ql = lowercase(query);
    let all = all_hits(q, ql, q.len() as int);
    lemma_all_hits(q, ql, q.len() as int);
    let r = search_results(q, query);
    assert forall|j: int| 0 <= j < r.len() implies is_hit_of(q, ql, #[trigger] r[j]) by {
        assert(r[j] == all[j]);
    }
}

proof fn lemma_surah_hits_ids(s: SurahView, ql: Seq<char>, n: int)
    requires
        0 <= n <= s.verses.len(),
    ensures
        forall|j: int|
            0 <= j < surah_hits(s, ql, n).len() ==> (#[trigger] surah_hits(s, ql, n)[j]).surah_id
                == s.id,
    decreases n,
{
    if n > 0 {
        lemma_surah_hits_ids(s, ql, n - 1);
        let prev = surah_hits(s, ql, n - 1);
        let cur = surah_hits(s, ql, n);
        assert forall|j: int| 0 <= j < cur.len() implies (#[trigger] cur[j]).surah_id == s.id by {
            if j < prev.len() {
                assert(cur[j] == prev[j]);
            }
        }
    }
}

proof fn lemma_all_hits_ordered(q: Seq<SurahView>, ql: Seq<char>, n: int)
    requires
        ids_increasing(q),
        0 <= n <= q.len(),
    ensures
        forall|j: int|
            0 <= j < all_hits(q, ql, n).len() ==> exists|i: int|
                0 <= i < n && (#[trigger] all_hits(q, ql, n)[j]).surah_id == q[i].id,
        forall|j1: int, j2: int|
            0 <= j1 <= j2 < all_hits(q, ql, n).len() ==> (#[trigger] all_hits(q, ql, n)[j1]).surah_id
                <= (#[trigger] all_hits(q, ql, n)[j2]).surah_id,
    decreases n,
{
    if n > 0 {
        lemma_all_hits_ordered(q, ql, n - 1);
        let prev = all_hits(q, ql, n - 1);
        let last = surah_hits(q[n - 1], ql, q[n - 1].verses.len() as int);
        lemma_surah_hits_ids(q[n - 1], ql, q[n - 1].verses.len() as int);
        let cur = all_hits(q, ql, n);
        assert(cur == prev + last);
        assert forall|j: int| 0 <= j < cur.len() implies exists|i: int|
            0 <= i < n && (#[trigger] cur[j]).surah_id == q[i].id by {
            if j < prev.len() {
                assert(cur[j] == prev[j]);
            } else {
                assert(cur[j] == last[j - prev.len()]);
                assert(cur[j].surah_id == q[n - 1].id);
            }
        }
        assert forall|j1: int, j2: int| 0 <= j1 <= j2 < cur.len() implies (#[trigger] cur[j1]).surah_id
            <= (#[trigger] cur[j2]).surah_id by {
            if j2 < prev.len() {
                assert(cur[j1] == prev[j1]);
                assert(cur[j2] == prev[j2]);
            } else if j1 >= prev.len() {
                assert(cur[j1] == last[j1 - prev.len()]);
                assert(cur[j2] == last[j2 - prev.len()]);
            } else {
                assert(cur[j1] == prev[j1]);
                let i = choose|i: int| 0 <= i < n - 1 && prev[j1].surah_id == q[i].id;
                assert(q[i].id < q[n - 1].id);
                assert(cur[j2] == last[j2 - prev.len()]);
            }
        }
    }
}

/// Search results come in order of surah number, as the surahs are walked in
/// order of their numbers.
pub proof fn law_search_in_surah_order(q: Seq<SurahView>, query: Seq<char>)
    requires
        quran_well_formed(q),
    ensures
        forall|j1: int, j2: int|
            0 <= j1 <= j2 < search_results(q, query).len() ==> (#[trigger] search_results(
                q,
                query,
            )[j1]).surah_id <= (#[trigger] search_results(q, query)[j2]).surah_id,
{
    let ql = lowercase(query);
    let all = all_hits(q, ql, q.len() as int);
    lemma_all_hits_ordered(q, ql, q.len() as int);
    let r = search_results(q, query);
    assert forall|j1: int, j2: int| 0 <= j1 <= j2 < r.len() implies (#[trigger] r[j1]).surah_id
        <= (#[trigger] r[j2]).surah_id by {
        assert(r[j1] == all[j1]);
        assert(r[j2] == all[j2]);
    }
}

/// The verse that hit `r` names is in `s`: it has the hit's number, text and translation.
pub open spec fn hit_in_surah(r: SearchResultView, s: SurahView) -> bool {
    &&& r.surah_name == s.transliteration
    &&& exists|k: int|
        0 <= k < s.verses.len() && (#[trigger] s.verses[k]).id == r.ayah_num && s.verses[k].text
            == r.text && s.verses[k].translation == r.translation
}

/// Each search hit names a surah that a lookup by its number finds, and the
/// verse it names is in that surah with the hit's text and translation.
pub proof fn law_hits_name_their_surah(q: Seq<SurahView>, query: Seq<char>)
    requires
        quran_well_formed(q),
    ensures
        forall|j: int|
            0 <= j < search_results(q, query).len() ==> (find_surah(
                q,
                (#[trigger] search_results(q, query)[j]).surah_id,
            ) matches Some(s) && hit_in_surah(search_results(q, query)[j], s)),
{
    law_search_sound_and_complete(q, query);
    let ql = lowercase(query);
    let r = search_results(q, query);
    assert forall|j: int| 0 <= j < r.len() implies (find_surah(q, (#[trigger] r[j]).surah_id) matches Some(
        s,
    ) && hit_in_surah(r[j], s)) by {
        assert(is_hit_of(q, ql, r[j]));
        let (i, k) = choose|i: int, k: int|
            0 <= i < q.len() && 0 <= k < q[i].verses.len() && ayah_matches(q[i].verses[k], ql)
                && r[j] == #[trigger] hit_of(q[i], q[i].verses[k]);
        lemma_find_at(q, i);
        assert(q[i].verses[k].id == r[j].ayah_num);
    }
}

/// The hits of `h` whose lowercased translation contains `query_lower`, in order.
pub open spec fn hits_containing(h: Seq<SearchResultView>, query_lower: Seq<char>) -> Seq<
    SearchResultView,
>
    decreases h.len(),
{
    if h.len() == 0 {
        seq![]
    } else if has_substring(lowercase(h.last().translation), query_lower) {
        hits_containing(h.drop_last(), query_lower).push(h.last())
    } else {
        hits_containing(h.drop_last(), query_lower)
    }
}

proof fn lemma_hits_containing_add(a: Seq<SearchResultView>, b: Seq<SearchResultView>, ql: Seq<char>)
    ensures
        hits_containing(a + b, ql) == hits_containing(a, ql) + hits_containing(b, ql),
    decreases b.len(),
{
    if b.len() == 0 {
        assert(a + b =~= a);
        assert(hits_containing(a, ql) + hits_containing(b, ql) =~= hits_containing(a, ql));
    } else {
        lemma_hits_containing_add(a, b.drop_last(), ql);
        assert((a + b).drop_last() =~= a + b.drop_last());
        assert((a + b).last() == b.last());
        if has_substring(lowercase(b.last().translation), ql) {
            assert(hits_containing(a, ql) + hits_containing(b.drop_last(), ql).push(b.last())
                =~= (hits_containing(a, ql) + hits_containing(b.drop_last(), ql)).push(b.last()));
        }
    }
}

proof fn lemma_hits_containing_len(h: Seq<SearchResultView>, ql: Seq<char>)
    ensures
        hits_containing(h, ql).len() <= h.len(),
    decreases h.len(),
{
    if h.len() > 0 {
        lemma_hits_containing_len(h.drop_last(), ql);
    }
}

proof fn lemma_surah_hits_extend(s: SurahView, ql: Seq<char>, x: Seq<char>, n: int)
    requires
        0 <= n <= s.verses.len(),
    ensures
        surah_hits(s, ql + x, n) == hits_containing(surah_hits(s, ql, n), ql + x),
    decreases n,
{
    if n > 0 {
        lemma_surah_hits_extend(s, ql, x, n - 1);
        let a = s.verses[n - 1];
        if ayah_matches(a, ql + x) {
            lemma_substring_of_longer(lowercase(a.translation), ql, x);
        }
        if ayah_matches(a, ql) {
            let h = surah_hits(s, ql, n);
            assert(h.drop_last() =~= surah_hits(s, ql, n - 1));
            assert(h.last() == hit_of(s, a));
        }
    }
}

proof fn lemma_all_hits_extend(q: Seq<SurahView>, ql: Seq<char>, x: Seq<char>, n: int)
    requires
        0 <= n <= q.len(),
    ensures
        all_hits(q, ql + x, n) == hits_containing(all_hits(q, ql, n), ql + x),
    decreases n,
{
    if n > 0 {
        lemma_all_hits_extend(q, ql, x, n - 1);
        lemma_surah_hits_extend(q[n - 1], ql, x, q[n - 1].verses.len() as int);
        lemma_hits_containing_add(
            all_hits(q, ql, n - 1),
            surah_hits(q[n - 1], ql, q[n - 1].verses.len() as int),
            ql + x,
        );
    }
}

/// Lengthening a (lowercased) query never finds a verse that the shorter query
/// missed: when the shorter query gave fewer than `MAX_RESULTS` results, the
/// longer one gives exactly those of them whose translation also contains it,
/// in the same order.
pub proof fn law_longer_query_narrows(q: Seq<SurahView>, query_lower: Seq<char>, more: Seq<char>)
    ensures
        search_lowered_results(q, query_lower).len() < MAX_RESULTS ==> search_lowered_results(
            q,
            query_lower + more,
        ) == hits_containing(search_lowered_results(q, query_lower), query_lower + more),
{
    let n = q.len() as int;
    lemma_all_hits_extend(q, query_lower, more, n);
    lemma_hits_containing_len(all_hits(q, query_lower, n), query_lower + more);
}

/// For ASCII queries, search ignores case: a query, its capitals form and its
/// small-letters form give the same results.
pub proof fn law_search_ignores_ascii_case(q: Seq<SurahView>, query: Seq<char>)
    requires
        is_ascii_text(query),
    ensures
        is_ascii_text(ascii_uppercase(query)),
        is_ascii_text(ascii_lowercase(query)),
        search_ascii_results(q, ascii_uppercase(query)) == search_ascii_results(q, query),
        search_ascii_results(q, ascii_lowercase(query)) == search_ascii_results(q, query),
{
    lemma_ascii_case(query);
}

/// Lengthening an ASCII query never finds a verse that the shorter query
/// missed: when the shorter query gave fewer than `MAX_RESULTS` results, the
/// longer one gives exactly those of them whose translation also contains its
/// lowercase form, in the same order.
pub proof fn law_longer_ascii_query_narrows(q: Seq<SurahView>, query: Seq<char>, more: Seq<char>)
    requires
        is_ascii_text(query),
        is_ascii_text(more),
    ensures
        is_ascii_text(query + more),
        search_ascii_results(q, query).len() < MAX_RESULTS ==> search_ascii_results(
            q,
            query + more,
        ) == hits_containing(search_ascii_results(q, query), ascii_lowercase(query + more)),
{
    lemma_ascii_lowercase_add(query, more);
    law_longer_query_narrows(q, ascii_lowercase(query), ascii_lowercase(more));
}

/// Every verse of a surah can be read by its position: when the surah numbered
/// `surah_id` is there and `ayah_num` is between 1 and its number of verses,
/// the lookup gives the verse at position `ayah_num` (counting from one); and
/// a lookup gives a verse only in that case.
pub proof fn law_ayah_lookup_complete(q: Seq<SurahView>, surah_id: u32, ayah_num: u32)
    ensures
        (find_surah(q, surah_id) matches Some(s) && 1 <= ayah_num <= s.verses.len())
            ==> find_ayah(q, surah_id, ayah_num) == Some(
            find_surah(q, surah_id)->0.verses[ayah_num - 1],
        ),
        find_ayah(q, surah_id, ayah_num) is Some ==> (find_surah(q, surah_id) matches Some(s) && 1
            <= ayah_num <= s.verses.len()),
{
}

/// Each surah number from 1 to 114 is picked by some clock reading: seed
/// `id - 1` picks surah `id`, and a seed picks the surah numbered one more
/// than its remainder by 114.
pub proof fn law_every_surah_can_be_picked(id: u32, seed: usize)
    ensures
        1 <= id <= SURAH_COUNT ==> surah_for_seed((id - 1) as usize) == id,
        1 <= surah_for_seed(seed) <= SURAH_COUNT,
        surah_for_seed(seed) - 1 == seed % 114,
{
}

/// A surah found by number has that number, and each of its verses is marked with it.
pub proof fn law_found_surah_matches(q: Seq<SurahView>, id: u32)
    requires
        quran_well_formed(q),
    ensures
        find_surah(q, id) matches Some(s) ==> s.id == id && forall|k: int|
            0 <= k < s.verses.len() ==> #[trigger] s.verses[k].surah_id == id,
{
    if exists|i: int| 0 <= i < q.len() && q[i].id == id {
        let i = choose|i: int| 0 <= i < q.len() && q[i].id == id;
        assert forall|k: int| 0 <= k < q[i].verses.len() implies #[trigger] q[i].verses[k].surah_id
            == id by {
            assert(q[i].verses[k].surah_id == q[i].id);
        }
    }
}

/// An ayah found by surah and number belongs to that surah, and is the verse at
/// that position of the surah that `get_surah` finds.
pub proof fn law_found_ayah_in_surah(q: Seq<SurahView>, surah_id: u32, ayah_num: u32)
    requires
        quran_well_formed(q),
    ensures
        find_ayah(q, surah_id, ayah_num) matches Some(a) ==> {
            &&& a.surah_id == surah_id
            &&& find_surah(q, surah_id) matches Some(s) && s.verses[ayah_num - 1] == a
        },
{
    law_found_surah_matches(q, surah_id);
}

/// The ayah that any seed picks is a verse of surah `seed % 114 + 1`.
pub proof fn law_seed_picks_verse_of_its_surah(q: Seq<SurahView>, seed: usize)
    requires
        quran_well_formed(q),
        has_every_surah_spec(q),
    ensures
        find_surah(q, surah_for_seed(seed)) matches Some(s) && s.verses.contains(
            ayah_for_seed_spec(q, seed),
        ) && ayah_for_seed_spec(q, seed).surah_id == surah_for_seed(seed),
{
    let id = surah_for_seed(seed);
    assert(surah_has_verses(q, id));
    law_found_surah_matches(q, id);
    let s = find_surah(q, id)->0;
    let k = (seed as int) % (s.verses.len() as int);
    assert(s.verses[k] == ayah_for_seed_spec(q, seed));
}

} // verus!
