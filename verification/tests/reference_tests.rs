use quran_cli::data::quran::{surah_id_by_name, Quran, QuranJsonAyah, QuranJsonSurah};
use quran_cli::data::reference::{parse as parse_with, QuranReference};

fn record(id: u32, transliteration: &str) -> QuranJsonSurah {
    QuranJsonSurah {
        id,
        name: String::new(),
        transliteration: transliteration.to_string(),
        translation: String::new(),
        revelation_type: String::new(),
        total_verses: 1,
        verses: vec![QuranJsonAyah { id: 1, text: String::new(), translation: String::new() }],
    }
}

fn names() -> Quran {
    Quran::from_surahs(vec![
        record(1, "Al-Fatihah"),
        record(2, "Al-Baqarah"),
        record(3, "Ali 'Imran"),
        record(40, "Ghafir"),
        record(41, "Fussilat 7"),
    ])
}

fn parse(input: &str) -> Result<QuranReference, String> {
    parse_with(input, &names())
}

fn ok(surah_id: u32, ayah_num: Option<u32>) -> Result<QuranReference, String> {
    Ok(QuranReference { surah_id, ayah_num })
}

fn err(msg: &str) -> Result<QuranReference, String> {
    Err(msg.to_string())
}

#[test]
fn parses_surah_and_ayah() {
    assert_eq!(parse("2:255"), ok(2, Some(255)));
}

#[test]
fn parses_whole_surah() {
    assert_eq!(parse("2"), ok(2, None));
    assert_eq!(parse("114"), ok(114, None));
}

#[test]
fn trims_white_space_everywhere() {
    assert_eq!(parse("  2 : 255 \n"), ok(2, Some(255)));
    assert_eq!(parse("\t36\t"), ok(36, None));
    assert_eq!(parse("\u{3000}7\u{00A0}"), ok(7, None));
}

#[test]
fn empty_reference() {
    assert_eq!(parse(""), err("Empty reference"));
    assert_eq!(parse("   \t "), err("Empty reference"));
}

#[test]
fn invalid_surah_number() {
    assert_eq!(parse("x:1"), err("Invalid surah number"));
    assert_eq!(parse(":1"), err("Invalid surah number"));
    assert_eq!(parse("-2:1"), err("Invalid surah number"));
}

#[test]
fn invalid_ayah_number() {
    assert_eq!(parse("1:y"), err("Invalid ayah number"));
    assert_eq!(parse("1:"), err("Invalid ayah number"));
    assert_eq!(parse("1:2:3"), err("Invalid ayah number"));
}

#[test]
fn invalid_surah_reported_before_ayah() {
    assert_eq!(parse("a:b"), err("Invalid surah number"));
}

#[test]
fn unsupported_format() {
    assert_eq!(parse("Al-Baqarah255"), err("Unsupported reference format"));
    assert_eq!(parse("Unknown 255"), err("Unsupported reference format"));
    assert_eq!(parse("Al-Baqarah x"), err("Unsupported reference format"));
    assert_eq!(parse("-1"), err("Unsupported reference format"));
    assert_eq!(parse("+"), err("Unsupported reference format"));
    assert_eq!(parse("2 55"), err("Unsupported reference format"));
}

#[test]
fn plus_sign_and_leading_zeros() {
    assert_eq!(parse("+3"), ok(3, None));
    assert_eq!(parse("007:+01"), ok(7, Some(1)));
}

#[test]
fn u32_limits() {
    assert_eq!(parse("4294967295"), ok(4294967295, None));
    assert_eq!(parse("4294967296"), err("Unsupported reference format"));
    assert_eq!(parse("1:4294967296"), err("Invalid ayah number"));
    assert_eq!(parse("0:0"), ok(0, Some(0)));
}

#[test]
fn non_ascii_digits_are_not_numbers() {
    assert_eq!(parse("\u{0662}"), err("Unsupported reference format"));
}

#[test]
fn parses_surah_name_and_ayah() {
    assert_eq!(parse("Al-Baqarah 255"), ok(2, Some(255)));
    assert_eq!(parse("  al-baqarah\t 255 "), ok(2, Some(255)));
    assert_eq!(parse("Ali 'Imran 5"), ok(3, Some(5)));
    assert_eq!(parse("AL-FATIHAH +7"), ok(1, Some(7)));
}

#[test]
fn parses_surah_name_alone() {
    assert_eq!(parse("Al-Baqarah"), ok(2, None));
    assert_eq!(parse("ali 'imran"), ok(3, None));
}

#[test]
fn whole_name_wins_over_name_and_number() {
    assert_eq!(parse("Fussilat 7"), ok(41, None));
}

#[test]
fn names_do_not_work_before_a_colon() {
    assert_eq!(parse("Al-Baqarah:255"), err("Invalid surah number"));
}

#[test]
fn name_lookup() {
    let q = names();
    assert_eq!(surah_id_by_name(&q, "ghafir"), Some(40));
    assert_eq!(surah_id_by_name(&q, "GHAFIR"), Some(40));
    assert_eq!(surah_id_by_name(&q, "Ghafi"), None);
    let dup = Quran::from_surahs(vec![record(9, "Same"), record(4, "same")]);
    assert_eq!(surah_id_by_name(&dup, "SAME"), Some(4));
}
