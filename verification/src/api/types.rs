//! The records of the translation: ayahs, surahs, and search hits.

use vstd::prelude::*;
use vstd::std_specs::cmp::PartialEqSpecImpl;

verus! {

/// One verse: its number in its surah, the Arabic text and its translation.
#[derive(Debug)]
pub struct Ayah {
    pub id: u32,
    pub text: String,
    pub translation: String,
    pub surah_id: u32,
}

/// One chapter, with its names and verses.
#[derive(Debug)]
pub struct Surah {
    pub id: u32,
    pub name: String,
    pub transliteration: String,
    pub translation: String,
    pub revelation_type: String,
    pub total_verses: u32,
    pub verses: Vec<Ayah>,
}

/// One hit of a search: where the verse stands and what it says.
#[derive(Debug)]
pub struct SearchResult {
    pub surah_id: u32,
    pub surah_name: String,
    pub ayah_num: u32,
    pub text: String,
    pub translation: String,
}

/// An ayah with its strings taken by their characters.
pub struct AyahView {
    pub id: u32,
    pub text: Seq<char>,
    pub translation: Seq<char>,
    pub surah_id: u32,
}

/// A surah with its strings taken by their characters.
pub struct SurahView {
    pub id: u32,
    pub name: Seq<char>,
    pub transliteration: Seq<char>,
    pub translation: Seq<char>,
    pub revelation_type: Seq<char>,
    pub total_verses: u32,
    pub verses: Seq<AyahView>,
}

/// A search hit with its strings taken by their characters.
pub struct SearchResultView {
    pub surah_id: u32,
    pub surah_name: Seq<char>,
    pub ayah_num: u32,
    pub text: Seq<char>,
    pub translation: Seq<char>,
}

impl View for Ayah {
    type V = AyahView;

    open spec fn view(&self) -> AyahView {
        AyahView {
            id: self.id,
            text: self.text@,
            translation: self.translation@,
            surah_id: self.surah_id,
        }
    }
}

/// The views of a sequence of ayahs.
pub open spec fn ayah_views(v: Seq<Ayah>) -> Seq<AyahView> {
    v.map_values(|a: Ayah| a@)
}

impl View for Surah {
    type V = SurahView;

    open spec fn view(&self) -> SurahView {
        SurahView {
            id: self.id,
            name: self.name@,
            transliteration: self.transliteration@,
            translation: self.translation@,
            revelation_type: self.revelation_type@,
            total_verses: self.total_verses,
            verses: ayah_views(self.verses@),
        }
    }
}

impl View for SearchResult {
    type V = SearchResultView;

    open spec fn view(&self) -> SearchResultView {
        SearchResultView {
            surah_id: self.surah_id,
            surah_name: self.surah_name@,
            ayah_num: self.ayah_num,
            text: self.text@,
            translation: self.translation@,
        }
    }
}

impl Clone for Ayah {
    fn clone(&self) -> (r: Self)
        ensures
            r@ == self@,
    {
        Ayah {
            id: self.id,
            text: self.text.clone(),
            translation: self.translation.clone(),
            surah_id: self.surah_id,
        }
    }
}

impl Clone for Surah {
    fn clone(&self) -> (r: Self)
        ensures
            r@ == self@,
    {
        let verses = self.verses.clone();
        assert(ayah_views(verses@) =~= ayah_views(self.verses@)) by {
            assert forall|i: int| 0 <= i < verses@.len() implies verses@[i]@ == self.verses@[i]@ by {
                assert(cloned::<Ayah>(self.verses[i], verses[i]));
            }
        }
        Surah {
            id: self.id,
            name: self.name.clone(),
            transliteration: self.transliteration.clone(),
            translation: self.translation.clone(),
            revelation_type: self.revelation_type.clone(),
            total_verses: self.total_verses,
            verses,
        }
    }
}

impl Clone for SearchResult {
    fn clone(&self) -> (r: Self)
        ensures
            r@ == self@,
    {
        SearchResult {
            surah_id: self.surah_id,
            surah_name: self.surah_name.clone(),
            ayah_num: self.ayah_num,
            text: self.text.clone(),
            translation: self.translation.clone(),
        }
    }
}

impl PartialEq for Ayah {
    fn eq(&self, other: &Self) -> (r: bool) {
        self.id == other.id && self.text == other.text && self.translation == other.translation
            && self.surah_id == other.surah_id
    }
}

impl PartialEqSpecImpl for Ayah {
    open spec fn obeys_eq_spec() -> bool {
        true
    }

    open spec fn eq_spec(&self, other: &Ayah) -> bool {
        self@ == other@
    }
}

impl PartialEq for SearchResult {
    fn eq(&self, other: &Self) -> (r: bool) {
        self.surah_id == other.surah_id && self.surah_name == other.surah_name && self.ayah_num
            == other.ayah_num && self.text == other.text && self.translation == other.translation
    }
}

impl PartialEqSpecImpl for SearchResult {
    open spec fn obeys_eq_spec() -> bool {
        true
    }

    open spec fn eq_spec(&self, other: &SearchResult) -> bool {
        self@ == other@
    }
}

/// Whether two lists of ayahs are equal, ayah by ayah.
fn ayahs_eq(a: &Vec<Ayah>, b: &Vec<Ayah>) -> (r: bool)
    ensures
        r == (ayah_views(a@) == ayah_views(b@)),
{
    if a.len() != b.len() {
        assert(ayah_views(a@).len() != ayah_views(b@).len());
        return false;
    }
    let n = a.len();
    let mut i: usize = 0;
    while i < n
        invariant
            n == a@.len(),
            n == b@.len(),
            i <= n,
            forall|j: int| 0 <= j < i ==> a@[j]@ == b@[j]@,
        decreases n - i,
    {
        if !(a[i] == b[i]) {
            assert(ayah_views(a@)[i as int] != ayah_views(b@)[i as int]);
            return false;
        }
        i = i + 1;
    }
    assert(ayah_views(a@) =~= ayah_views(b@));
    true
}

impl PartialEq for Surah {
    fn eq(&self, other: &Self) -> (r: bool) {
        self.id == other.id && self.name == other.name && self.transliteration
            == other.transliteration && self.translation == other.translation
            && self.revelation_type == other.revelation_type && self.total_verses
            == other.total_verses && ayahs_eq(&self.verses, &other.verses)
    }
}

impl PartialEqSpecImpl for Surah {
    open spec fn obeys_eq_spec() -> bool {
        true
    }

    open spec fn eq_spec(&self, other: &Surah) -> bool {
        self@ == other@
    }
}

} // verus!
