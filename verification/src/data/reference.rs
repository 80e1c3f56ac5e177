//! References such as `2:255` or `Al-Baqarah 255` (a surah and one of its
//! ayahs), or `2` or `Al-Baqarah` (a whole surah).

use vstd::prelude::*;
use crate::api::types::SurahView;
use crate::data::quran::{surah_by_name, surah_id_by_name, Quran};
use crate::text::{
    all_digits, all_white_space, chars_of, decimal, is_first_of, is_white_space, is_white_space_char,
    lemma_decimal_parses, lemma_trim_digits, lemma_trim_padding, parse_u32, parse_u32_range, trim,
    trim_bounds,
};

verus! {

/// A parsed reference: a surah, and possibly one ayah in it.
#[derive(Debug, Clone, Copy, PartialEq, Eq)]
pub struct QuranReference {
    pub surah_id: u32,
    pub ayah_num: Option<u32>,
}

/// `k` is the position of the last white space character in `t`.
pub open spec fn is_last_white_space(t: Seq<char>, k: int) -> bool {
    &&& 0 <= k < t.len()
    &&& is_white_space(t[k])
    &&& forall|j: int| k < j < t.len() ==> !is_white_space(t[j])
}

/// What `parse` gives for the characters `input`, with the surahs of `q`:
/// the reference, or the message that says why there is none.
///
/// The input is trimmed of white space. Empty input is refused. When it holds a
/// `:`, it is split at the first one and both sides, trimmed, must be numbers.
/// Without a `:` it is a whole surah given by its number, or by its name (its
/// transliteration, ignoring case); failing both, it is a surah name and an
/// ayah number, split at the last white space.
pub open spec fn parse_reference(q: Seq<SurahView>, input: Seq<char>) -> Result<
    QuranReference,
    Seq<char>,
> {
    let t = trim(input);
    if t.len() == 0 {
        Err("Empty reference"@)
    } else if exists|k: int| is_first_of(t, ':', k) {
        let k = choose|k: int| is_first_of(t, ':', k);
        let surah = parse_u32(trim(t.subrange(0, k)));
        let ayah = parse_u32(trim(t.subrange(k + 1, t.len() as int)));
        if surah is None {
            Err("Invalid surah number"@)
        } else if ayah is None {
            Err("Invalid ayah number"@)
        } else {
            Ok(QuranReference { surah_id: surah->0, ayah_num: Some(ayah->0) })
        }
    } else if parse_u32(t) is Some {
        Ok(QuranReference { surah_id: parse_u32(t)->0, ayah_num: None })
    } else if surah_by_name(q, t) is Some {
        Ok(QuranReference { surah_id: surah_by_name(q, t)->0, ayah_num: None })
    } else if exists|k: int| is_last_white_space(t, k) {
        let k = choose|k: int| is_last_white_space(t, k);
        let surah = surah_by_name(q, trim(t.subrange(0, k)));
        let ayah = parse_u32(t.subrange(k + 1, t.len() as int));
        if surah is Some && ayah is Some {
            Ok(QuranReference { surah_id: surah->0, ayah_num: Some(ayah->0) })
        } else {
            Err("Unsupported reference format"@)
        }
    } else {
        Err("Unsupported reference format"@)
    }
}

/// The result of `parse`, with the error message taken by its characters.
pub open spec fn parse_result_view(r: Result<QuranReference, String>) -> Result<
    QuranReference,
    Seq<char>,
> {
    match r {
        Ok(q) => Ok(q),
        Err(e) => Err(e@),
    }
}

/// Parses a reference such as `2:255`, `2`, `Al-Baqarah 255` or `Al-Baqarah`,
/// finding surah names among the surahs of `quran`.
pub fn parse(input: &str, quran: &Quran) -> (r: Result<QuranReference, String>)
    ensures
        parse_result_view(r) == parse_reference(quran@, input@),
{
    let v = chars_of(input);
    let (a, b) = trim_bounds(&v, 0, v.len());
    proof {
        assert(v@.subrange(0, v@.len() as int) =~= v@);
    }
    let ghost t = v@.subrange(a as int, b as int);
    if a == b {
        return Err(String::from_str("Empty reference"));
    }
    let mut k = a;
    while k < b && v[k] != ':'
        invariant
            a <= k <= b <= v@.len(),
            t == v@.subrange(a as int, b as int),
            forall|j: int| a <= j < k ==> v@[j] != ':',
        decreases b - k,
    {
        k = k + 1;
    }
    if k < b {
        let ghost kk = k - a;
        assert(is_first_of(t, ':', kk));
        assert forall|j: int| is_first_of(t, ':', j) implies j == kk by {
            if j < kk {
                assert(t[j] == v@[a + j]);
            }
        }
        assert(t.subrange(0, kk) =~= v@.subrange(a as int, k as int));
        assert(t.subrange(kk + 1, t.len() as int) =~= v@.subrange(k + 1, b as int));
        let (sa, sb) = trim_bounds(&v, a, k);
        let surah = parse_u32_range(&v, sa, sb);
        let (aa, ab) = trim_bounds(&v, k + 1, b);
        let ayah = parse_u32_range(&v, aa, ab);
        match surah {
            None => Err(String::from_str("Invalid surah number")),
            Some(surah_id) => match ayah {
                None => Err(String::from_str("Invalid ayah number")),
                Some(ayah_num) => Ok(QuranReference { surah_id, ayah_num: Some(ayah_num) }),
            },
        }
    } else {
        assert forall|j: int| !is_first_of(t, ':', j) by {
            if 0 <= j < t.len() {
                assert(t[j] == v@[a + j]);
            }
        }
        if let Some(id) = parse_u32_range(&v, a, b) {
            return Ok(QuranReference { surah_id: id, ayah_num: None });
        }
        let whole = input.substring_char(a, b);
        if let Some(id) = surah_id_by_name(quran, whole) {
            return Ok(QuranReference { surah_id: id, ayah_num: None });
        }
        let mut e = b;
        while e > a && !is_white_space_char(v[e - 1])
            invariant
                a <= e <= b <= v@.len(),
                forall|j: int| e <= j < b ==> !is_white_space(v@[j]),
            decreases e,
        {
            e = e - 1;
        }
        if e > a {
            let w = e - 1;
            let ghost kk = w - a;
            assert(is_last_white_space(t, kk)) by {
                assert(t[kk] == v@[w as int]);
                assert forall|j: int| kk < j < t.len() implies !is_white_space(t[j]) by {
                    assert(t[j] == v@[a + j]);
                }
            }
            assert forall|j: int| is_last_white_space(t, j) implies j == kk by {
                if j < kk {
                    assert(t[kk] == v@[w as int]);
                } else if kk < j {
                    assert(t[j] == v@[a + j]);
                }
            }
            assert(t.subrange(0, kk) =~= v@.subrange(a as int, w as int));
            assert(t.subrange(kk + 1, t.len() as int) =~= v@.subrange(e as int, b as int));
            let ayah = parse_u32_range(&v, e, b);
            let (na, nb) = trim_bounds(&v, a, w);
            let name = input.substring_char(na, nb);
            let surah = surah_id_by_name(quran, name);
            match (surah, ayah) {
                (Some(surah_id), Some(ayah_num)) => Ok(
                    QuranReference { surah_id, ayah_num: Some(ayah_num) },
                ),
                _ => Err(String::from_str("Unsupported reference format")),
            }
        } else {
            assert forall|j: int| !is_last_white_space(t, j) by {
                if 0 <= j < t.len() {
                    assert(t[j] == v@[a + j]);
                }
            }
            Err(String::from_str("Unsupported reference format"))
        }
    }
}

/// A surah number written in decimal is read back as that whole surah.
pub proof fn law_parse_surah_number(q: Seq<SurahView>, surah: u32)
    ensures
        parse_reference(q, decimal(surah as nat)) == Ok::<QuranReference, Seq<char>>(
            QuranReference { surah_id: surah, ayah_num: None },
        ),
{
    let t = decimal(surah as nat);
    lemma_decimal_parses(surah as nat);
    lemma_trim_digits(t);
    assert forall|k: int| !is_first_of(t, ':', k) by {
        if 0 <= k < t.len() {
            assert(all_digits(t));
            assert(crate::text::is_digit(t[k]));
        }
    }
}

/// A reference written `surah:ayah` in decimal is read back as that ayah of that surah.
pub proof fn law_parse_surah_and_ayah(q: Seq<SurahView>, surah: u32, ayah: u32)
    ensures
        parse_reference(q, decimal(surah as nat) + seq![':'] + decimal(ayah as nat)) == Ok::<
            QuranReference,
            Seq<char>,
        >(QuranReference { surah_id: surah, ayah_num: Some(ayah) }),
{
    let ds = decimal(surah as nat);
    let da = decimal(ayah as nat);
    let t = ds + seq![':'] + da;
    lemma_decimal_parses(surah as nat);
    lemma_decimal_parses(ayah as nat);
    lemma_trim_digits(ds);
    lemma_trim_digits(da);
    assert(crate::text::is_digit(ds[0]));
    assert(crate::text::is_digit(da[da.len() - 1]));
    assert(t[0] == ds[0]);
    assert(t.last() == da[da.len() - 1]);
    lemma_trim_identity(t);
    let k = ds.len() as int;
    assert(is_first_of(t, ':', k)) by {
        assert forall|j: int| 0 <= j < k implies t[j] != ':' by {
            assert(t[j] == ds[j]);
            assert(crate::text::is_digit(ds[j]));
        }
    }
    assert forall|j: int| is_first_of(t, ':', j) implies j == k by {
        if j < k {
            assert(t[j] == ds[j]);
            assert(crate::text::is_digit(ds[j]));
        }
    }
    assert(t.subrange(0, k) =~= ds);
    assert(t.subrange(k + 1, t.len() as int) =~= da);
}

/// White space around a reference does not change how it is read.
pub proof fn law_parse_ignores_padding(
    q: Seq<SurahView>,
    before: Seq<char>,
    input: Seq<char>,
    after: Seq<char>,
)
    requires
        all_white_space(before),
        all_white_space(after),
    ensures
        parse_reference(q, before + input + after) == parse_reference(q, input),
{
    lemma_trim_padding(before, input, after);
}

/// A surah name followed by a space and an ayah number in decimal is read as
/// that ayah of the surah that the name names, unless the whole text is itself
/// the name of a surah. The name must start and end with other than white
/// space and hold no `:`.
pub proof fn law_parse_surah_name_and_ayah(q: Seq<SurahView>, name: Seq<char>, ayah: u32)
    requires
        name.len() > 0,
        !is_white_space(name[0]),
        !is_white_space(name.last()),
        forall|i: int| 0 <= i < name.len() ==> name[i] != ':',
        surah_by_name(q, name) is Some,
        surah_by_name(q, name + seq![' '] + decimal(ayah as nat)) is None,
    ensures
        parse_reference(q, name + seq![' '] + decimal(ayah as nat)) == Ok::<
            QuranReference,
            Seq<char>,
        >(QuranReference { surah_id: surah_by_name(q, name)->0, ayah_num: Some(ayah) }),
{
    let d = decimal(ayah as nat);
    let t = name + seq![' '] + d;
    let n = name.len() as int;
    lemma_decimal_parses(ayah as nat);
    assert(crate::text::is_digit(d[d.len() - 1]));
    assert(t[0] == name[0]);
    assert(t.last() == d[d.len() - 1]);
    lemma_trim_identity(t);
    lemma_trim_identity(name);
    assert(t[n] == ' ');
    assert forall|k: int| !is_first_of(t, ':', k) by {
        if 0 <= k < t.len() {
            if k < n {
                assert(t[k] == name[k]);
            } else if k > n {
                assert(t[k] == d[k - n - 1]);
                assert(crate::text::is_digit(d[k - n - 1]));
            }
        }
    }
    assert(parse_u32(t) is None) by {
        if t[0] == '+' {
            assert(t.drop_first()[n - 1] == ' ');
            assert(!all_digits(t.drop_first()));
        } else {
            assert(!all_digits(t));
        }
    }
    assert(is_last_white_space(t, n)) by {
        assert forall|j: int| n < j < t.len() implies !is_white_space(t[j]) by {
            assert(t[j] == d[j - n - 1]);
            assert(crate::text::is_digit(d[j - n - 1]));
        }
    }
    assert forall|j: int| is_last_white_space(t, j) implies j == n by {
        if j > n {
            assert(t[j] == d[j - n - 1]);
            assert(crate::text::is_digit(d[j - n - 1]));
        }
    }
    assert(t.subrange(0, n) =~= name);
    assert(t.subrange(n + 1, t.len() as int) =~= d);
}

proof fn lemma_trim_identity(t: Seq<char>)
    requires
        t.len() > 0,
        !is_white_space(t[0]),
        !is_white_space(t.last()),
    ensures
        trim(t) == t,
{
}

} // verus!
