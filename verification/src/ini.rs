//! INI parsing through `configparser`, handed over as plain maps.
use vstd::prelude::*;

use crate::strmap::StrMap;

verus! {

/// The sections of a parsed INI text: section name to (key to value).
pub type IniSections = StrMap<StrMap<Option<String>>>;

/// What `configparser`'s `Ini::read` on a fresh `Ini::new()` (case-insensitive, `;` and `#`
/// comments, `=` and `:` delimiters) makes of `content`: section name to (key to value, `None`
/// for a key written without a delimiter), or the error message.
pub uninterp spec fn ini_read(content: Seq<char>) -> Result<
    Map<Seq<char>, Map<Seq<char>, Option<Seq<char>>>>,
    Seq<char>,
>;

/// The view of an optional string.
pub open spec fn opt_view(o: Option<String>) -> Option<Seq<char>> {
    match o {
        Some(s) => Some(s@),
        None => None,
    }
}

/// The view of one section.
pub open spec fn section_view(s: StrMap<Option<String>>) -> Map<Seq<char>, Option<Seq<char>>> {
    s@.map_values(|o: Option<String>| opt_view(o))
}

/// The view of parsed sections.
pub open spec fn ini_view(d: IniSections) -> Map<Seq<char>, Map<Seq<char>, Option<Seq<char>>>> {
    d@.map_values(|s: StrMap<Option<String>>| section_view(s))
}

/// No section and no key within a section occurs twice.
pub open spec fn ini_wf(d: IniSections) -> bool {
    &&& d.wf()
    &&& forall|i: int| 0 <= i < d.entries@.len() ==> (#[trigger] d.entries@[i]).1.wf()
}

/// Whether `content` is too large for the parser: it numbers the lines with an `i32`
/// counter that overflows past 2147483645 lines, so texts of that many bytes are refused
/// before parsing (a text has no more lines than bytes).
pub open spec fn ini_too_large(content: Seq<char>) -> bool {
    vstd::utf8::encode_utf8(content).len() >= 2147483646
}

/// Whether `content` is small enough for [`read_ini`].
pub fn ini_size_ok(content: &str) -> (r: bool)
    ensures
        r == !ini_too_large(content@),
{
    content.as_bytes().len() < 2147483646
}

/// Parses `content` with `configparser::ini::Ini::read` on a fresh `Ini::new()`.
/// The contract claims only that the result is that function's result, each map taken
/// entry for entry (a `HashMap` has distinct keys). The parser counts lines with an `i32`,
/// which overflows (and panics in debug builds) on a text of 2147483646 lines or more, so
/// the text must be shorter than that many bytes.
#[verifier::external_body]
pub fn read_ini(content: &str) -> (r: Result<IniSections, String>)
    requires
        !ini_too_large(content@),
    ensures
        match r {
            Ok(d) => ini_wf(d) && ini_read(content@) == Ok::<
                Map<Seq<char>, Map<Seq<char>, Option<Seq<char>>>>,
                Seq<char>,
            >(ini_view(d)),
            Err(e) => ini_read(content@) == Err::<
                Map<Seq<char>, Map<Seq<char>, Option<Seq<char>>>>,
                Seq<char>,
            >(e@),
        },
{
    let mut ini = configparser::ini::Ini::new();
    match ini.read(content.to_string()) {
        Ok(map) => Ok(StrMap {
            entries: map.into_iter().map(
                |(name, section)| (name, StrMap { entries: section.into_iter().collect() }),
            ).collect(),
        }),
        Err(error) => Err(error),
    }
}

/// The value that `Ini::get(section, key)` returns over the sections `m`: `None` where the
/// section or the key is missing or the key has no value.
pub open spec fn ini_get_spec(
    m: Map<Seq<char>, Map<Seq<char>, Option<Seq<char>>>>,
    section: Seq<char>,
    key: Seq<char>,
) -> Option<Seq<char>> {
    if m.contains_key(section) && m[section].contains_key(key) {
        m[section][key]
    } else {
        None
    }
}

/// `Ini::get(section, key)` for the lowercase ASCII names that this library asks for: the
/// value stored under the key in the section, if there is one.
pub fn ini_get(d: &IniSections, section: &str, key: &str) -> (r: Option<String>)
    requires
        ini_wf(*d),
    ensures
        opt_view(r) == ini_get_spec(ini_view(*d), section@, key@),
{
    match d.find(section) {
        Some(i) => {
            proof {
                d.lemma_entry(i as int);
            }
            let sec = &d.entries[i].1;
            match sec.find(key) {
                Some(j) => {
                    proof {
                        sec.lemma_entry(j as int);
                    }
                    match &sec.entries[j].1 {
                        Some(v) => Some(v.clone()),
                        None => None,
                    }
                },
                None => None,
            }
        },
        None => None,
    }
}

} // verus!
