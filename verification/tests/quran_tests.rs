use quran_cli::api::types::Ayah;
use quran_cli::data::quran::{
    ayah_for_seed, get_ayah, get_surah, random_ayah, search, search_lowered, translation_matches,
    Quran, QuranJsonAyah, QuranJsonSurah, MAX_RESULTS,
};

fn record(id: u32, transliteration: &str, translations: &[&str]) -> QuranJsonSurah {
    QuranJsonSurah {
        id,
        name: format!("name-{}", id),
        transliteration: transliteration.to_string(),
        translation: format!("translation-{}", id),
        revelation_type: "meccan".to_string(),
        total_verses: translations.len() as u32,
        verses: translations
            .iter()
            .enumerate()
            .map(|(i, t)| QuranJsonAyah {
                id: i as u32 + 1,
                text: format!("text-{}-{}", id, i + 1),
                translation: t.to_string(),
            })
            .collect(),
    }
}

fn sample() -> Quran {
    Quran::from_surahs(vec![
        record(2, "Al-Baqarah", &["This is the Book", "who believe in the unseen", "and establish prayer"]),
        record(1, "Al-Fatihah", &["In the name of Allah, the Entirely Merciful", "All praise is due to Allah"]),
        record(3, "Ali 'Imran", &["Alif, Lam, Meem", "Allah - there is no deity except Him"]),
    ])
}

#[test]
fn surahs_are_found_by_number() {
    let q = sample();
    assert_eq!(get_surah(&q, 1).unwrap().transliteration, "Al-Fatihah");
    assert_eq!(get_surah(&q, 2).unwrap().transliteration, "Al-Baqarah");
    assert_eq!(get_surah(&q, 3).unwrap().verses.len(), 2);
    assert!(get_surah(&q, 0).is_none());
    assert!(get_surah(&q, 4).is_none());
    assert!(get_surah(&q, 114).is_none());
}

#[test]
fn verses_carry_their_surah_number() {
    let q = sample();
    let s = get_surah(&q, 2).unwrap();
    assert_eq!(s.id, 2);
    assert_eq!(s.name, "name-2");
    assert_eq!(s.translation, "translation-2");
    assert_eq!(s.revelation_type, "meccan");
    assert_eq!(s.total_verses, 3);
    for (i, a) in s.verses.iter().enumerate() {
        assert_eq!(a.surah_id, 2);
        assert_eq!(a.id, i as u32 + 1);
    }
}

#[test]
fn later_record_with_same_number_wins() {
    let q = Quran::from_surahs(vec![
        record(5, "First", &["a"]),
        record(4, "Four", &["b"]),
        record(5, "Second", &["c", "d"]),
    ]);
    let s = get_surah(&q, 5).unwrap();
    assert_eq!(s.transliteration, "Second");
    assert_eq!(s.verses.len(), 2);
    assert_eq!(get_surah(&q, 4).unwrap().transliteration, "Four");
}

#[test]
fn empty_quran_has_nothing() {
    let q = Quran::from_surahs(vec![]);
    assert!(get_surah(&q, 1).is_none());
    assert!(get_ayah(&q, 1, 1).is_none());
    assert!(search(&q, "allah").is_empty());
    assert!(!q.has_every_surah());
}

#[test]
fn ayahs_are_found_by_position() {
    let q = sample();
    let a: Ayah = get_ayah(&q, 2, 2).unwrap();
    assert_eq!(a.translation, "who believe in the unseen");
    assert_eq!(a.surah_id, 2);
    assert_eq!(a.id, 2);
    assert_eq!(a.text, "text-2-2");
    assert!(get_ayah(&q, 2, 4).is_none());
    assert!(get_ayah(&q, 9, 1).is_none());
}

#[test]
fn search_ignores_case_and_keeps_order() {
    let q = sample();
    let r = search(&q, "ALLAH");
    let places: Vec<(u32, u32)> = r.iter().map(|h| (h.surah_id, h.ayah_num)).collect();
    assert_eq!(places, vec![(1, 1), (1, 2), (3, 2)]);
    assert_eq!(r[0].surah_name, "Al-Fatihah");
    assert_eq!(r[0].text, "text-1-1");
    assert_eq!(r[0].translation, "In the name of Allah, the Entirely Merciful");
}

#[test]
fn search_without_hits() {
    let q = sample();
    assert!(search(&q, "zebra").is_empty());
}

#[test]
fn empty_query_matches_everything() {
    let q = sample();
    assert_eq!(search(&q, "").len(), 7);
}

#[test]
fn search_keeps_at_most_fifty() {
    let many: Vec<String> = (0..60).map(|i| format!("mercy {}", i)).collect();
    let refs: Vec<&str> = many.iter().map(|s| s.as_str()).collect();
    let q = Quran::from_surahs(vec![record(1, "One", &refs)]);
    let r = search(&q, "Mercy");
    assert_eq!(r.len(), MAX_RESULTS);
    assert_eq!(r[0].ayah_num, 1);
    assert_eq!(r[49].ayah_num, 50);
}

#[test]
fn lowered_search_is_case_sensitive_in_its_query() {
    let q = sample();
    assert_eq!(search_lowered(&q, "allah").len(), 3);
    assert_eq!(search_lowered(&q, "ALLAH").len(), 0);
}

#[test]
fn translation_matching_lowers_the_translation() {
    let a = Ayah { id: 1, text: String::new(), translation: "MERCIFUL".to_string(), surah_id: 1 };
    assert!(translation_matches(&a, "merci"));
    assert!(!translation_matches(&a, "MERCI"));
}

fn complete() -> Quran {
    Quran::from_surahs(
        (1..=114)
            .map(|id| {
                let verses: Vec<String> = (1..=id).map(|k| format!("{}:{}", id, k)).collect();
                let refs: Vec<&str> = verses.iter().map(|s| s.as_str()).collect();
                record(id, &format!("S{}", id), &refs)
            })
            .collect(),
    )
}

#[test]
fn seed_picks_surah_and_verse() {
    let q = complete();
    assert!(q.has_every_surah());
    // 200 % 114 + 1 = 87; 200 % 87 = 26, the 27th verse
    let a = ayah_for_seed(&q, 200);
    assert_eq!((a.surah_id, a.id), (87, 27));
    let a = ayah_for_seed(&q, 0);
    assert_eq!((a.surah_id, a.id), (1, 1));
    let a = ayah_for_seed(&q, 113);
    assert_eq!((a.surah_id, a.id), (114, 114));
}

#[test]
fn random_ayah_is_one_of_the_verses() {
    let q = complete();
    let a = random_ayah(&q).unwrap();
    let s = get_surah(&q, a.surah_id).unwrap();
    assert!(s.verses.iter().any(|v| v.id == a.id && v.translation == a.translation));
}

#[test]
fn missing_or_empty_surah_is_not_complete() {
    let mut records: Vec<QuranJsonSurah> = (1..=114).map(|id| record(id, "S", &["x"])).collect();
    records[40] = record(41, "S", &[]);
    assert!(!Quran::from_surahs(records).has_every_surah());
    let records: Vec<QuranJsonSurah> = (1..=113).map(|id| record(id, "S", &["x"])).collect();
    assert!(!Quran::from_surahs(records).has_every_surah());
}

#[test]
fn well_formed_holds() {
    let q = Quran::from_surahs(vec![record(7, "Seven", &["a"]), record(3, "Three", &["b"])]);
    q.well_formed();
    assert_eq!(get_surah(&q, 3).unwrap().verses[0].surah_id, 3);
}

#[test]
fn ascii_case_does_not_matter() {
    let q = sample();
    let lower: Vec<(u32, u32)> = search(&q, "allah").iter().map(|h| (h.surah_id, h.ayah_num)).collect();
    let upper: Vec<(u32, u32)> = search(&q, "ALLAH").iter().map(|h| (h.surah_id, h.ayah_num)).collect();
    let mixed: Vec<(u32, u32)> = search(&q, "aLlAh").iter().map(|h| (h.surah_id, h.ayah_num)).collect();
    assert_eq!(lower, upper);
    assert_eq!(lower, mixed);
}

#[test]
fn longer_query_narrows() {
    let q = sample();
    let short = search(&q, "the");
    let long = search(&q, "the e");
    assert!(long.len() < short.len());
    let mut it = short.iter();
    for hit in &long {
        assert!(it.any(|h| h == hit));
    }
}

#[test]
fn records_compare_by_their_fields() {
    let q = sample();
    let a = get_ayah(&q, 1, 1).unwrap();
    let b = a.clone();
    assert!(a == b);
    let mut c = a.clone();
    c.surah_id = 9;
    assert!(a != c);
    let s = get_surah(&q, 2).unwrap();
    let t = s.clone();
    assert!(*s == t);
    let mut u = s.clone();
    u.verses.pop();
    assert!(*s != u);
    let mut w = s.clone();
    w.verses[1].translation.push('!');
    assert!(*s != w);
    let r = search(&q, "book");
    assert!(r[0] == r[0].clone());
}
