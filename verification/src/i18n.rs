//! Message catalogs: one table of `key -> template` per locale, lookup with
//! a fallback to the default locale, and `{name}` placeholders.
use std::collections::BTreeMap;

use vstd::prelude::*;

use crate::keyed::KeyedVec;
use crate::text::{
    concat3, copy_str, lemma_replace_at_front, lemma_replace_skips_front, replace_all, replace_str,
};

verus! {

#[verifier::external_type_specification]
#[verifier::external_body]
pub struct ExJsonError(serde_json::Error);

/// The entries of the JSON object of strings that `raw` holds, ordered by
/// key, or `None` when `raw` is not such an object.
pub uninterp spec fn json_string_object(raw: Seq<char>) -> Option<Seq<(Seq<char>, Seq<char>)>>;

/// The views of a vector of string pairs.
pub open spec fn pair_views(v: Seq<(String, String)>) -> Seq<(Seq<char>, Seq<char>)> {
    v.map_values(|p: (String, String)| (p.0@, p.1@))
}

/// Calls `serde_json::from_str::<BTreeMap<String, String>>` and hands out
/// the map's entries in key order: the result is `Ok` exactly when `raw` is a
/// JSON object whose values are all strings, and then holds its entries.
#[verifier::external_body]
fn parse_json_string_object(raw: &str) -> (r: Result<Vec<(String, String)>, serde_json::Error>)
    ensures
        r is Ok <==> json_string_object(raw@) is Some,
        r matches Ok(v) ==> pair_views(v@) == json_string_object(raw@)->0,
{
    serde_json::from_str::<BTreeMap<String, String>>(raw).map(|m| m.into_iter().collect())
}

impl<V: View> View for KeyedVec<V> {
    type V = Map<Seq<char>, V::V>;

    open spec fn view(&self) -> Map<Seq<char>, V::V> {
        self.map()
    }
}

/// The map that a sequence of key-value pairs makes, later pairs winning.
pub open spec fn pairs_map(s: Seq<(Seq<char>, Seq<char>)>) -> Map<Seq<char>, Seq<char>>
    decreases s.len(),
{
    if s.len() == 0 {
        Map::empty()
    } else {
        pairs_map(s.drop_last()).insert(s.last().0, s.last().1)
    }
}

/// A key is in the map of pairs exactly when some pair has it, and its value
/// is the one of the last pair with that key.
pub proof fn law_last_pair_wins(s: Seq<(Seq<char>, Seq<char>)>, key: Seq<char>)
    ensures
        pairs_map(s).contains_key(key) <==> exists|i: int| 0 <= i < s.len() && #[trigger] s[i].0
            == key,
        forall|i: int|
            0 <= i < s.len() && #[trigger] s[i].0 == key && (forall|j: int|
                i < j < s.len() ==> s[j].0 != key) ==> pairs_map(s)[key] == s[i].1,
    decreases s.len(),
{
    if s.len() > 0 {
        let t = s.drop_last();
        law_last_pair_wins(t, key);
        assert forall|i: int| 0 <= i < t.len() implies t[i] == s[i] by {}
        if s.last().0 != key {
            if exists|i: int| 0 <= i < s.len() && #[trigger] s[i].0 == key {
                let i = choose|i: int| 0 <= i < s.len() && #[trigger] s[i].0 == key;
                assert(t[i].0 == key);
            }
        } else {
            assert(s[s.len() - 1].0 == key);
        }
    }
}

/// The locales that have a catalog file, in loading order.
pub open spec fn supported_locales_spec() -> Seq<Seq<char>> {
    seq!["en"@, "zh-CN"@, "zh-TW"@]
}

/// The locales that have a catalog file: `en`, `zh-CN`, `zh-TW`.
pub fn supported_locales() -> (r: Vec<String>)
    ensures
        r@.map_values(|s: String| s@) == supported_locales_spec(),
{
    let mut r: Vec<String> = Vec::new();
    r.push(copy_str("en"));
    r.push(copy_str("zh-CN"));
    r.push(copy_str("zh-TW"));
    assert(r@.map_values(|s: String| s@) =~= supported_locales_spec());
    r
}

/// Why the catalogs could not be loaded.
#[derive(Debug, PartialEq, Eq)]
pub enum I18nError {
    /// The file of this locale is not a JSON object of strings.
    InvalidLocaleFile(String),
}

/// The translations of every supported locale, and the locale to fall back
/// to.
#[derive(Debug)]
pub struct I18nCatalog {
    pub default_locale: String,
    pub translations: KeyedVec<KeyedVec<String>>,
}

/// The template of `key` in `locale`.
pub open spec fn lookup_spec(
    translations: Map<Seq<char>, Map<Seq<char>, Seq<char>>>,
    locale: Seq<char>,
    key: Seq<char>,
) -> Option<Seq<char>> {
    if translations.contains_key(locale) && translations[locale].contains_key(key) {
        Some(translations[locale][key])
    } else {
        None
    }
}

/// The placeholder that stands for `name` in a template: `{name}`.
pub open spec fn placeholder(name: Seq<char>) -> Seq<char> {
    "{"@ + name + "}"@
}

/// `template` with each replacement applied in turn: every `{name}` becomes
/// its value.
pub open spec fn interpolate_spec(
    template: Seq<char>,
    replacements: Seq<(Seq<char>, Seq<char>)>,
) -> Seq<char>
    decreases replacements.len(),
{
    if replacements.len() == 0 {
        template
    } else {
        let last = replacements.last();
        replace_all(
            interpolate_spec(template, replacements.drop_last()),
            placeholder(last.0),
            last.1,
        )
    }
}

/// The views of replacement pairs.
pub open spec fn repl_views(r: Seq<(&str, &str)>) -> Seq<(Seq<char>, Seq<char>)> {
    r.map_values(|p: (&str, &str)| (p.0@, p.1@))
}

/// The message for `key` in `locale`: its template there, else its template
/// in the default locale, with the placeholders filled in; the key itself
/// when neither locale has it.
pub open spec fn translate_spec(
    translations: Map<Seq<char>, Map<Seq<char>, Seq<char>>>,
    default_locale: Seq<char>,
    locale: Seq<char>,
    key: Seq<char>,
    replacements: Seq<(Seq<char>, Seq<char>)>,
) -> Seq<char> {
    match lookup_spec(translations, locale, key) {
        Some(t) => interpolate_spec(t, replacements),
        None => match lookup_spec(translations, default_locale, key) {
            Some(t) => interpolate_spec(t, replacements),
            None => key,
        },
    }
}

/// A locale without a template for `key` reads it as the default locale
/// does, and a key that neither has reads as itself.
pub proof fn law_missing_key_falls_back(
    translations: Map<Seq<char>, Map<Seq<char>, Seq<char>>>,
    default_locale: Seq<char>,
    locale: Seq<char>,
    key: Seq<char>,
    replacements: Seq<(Seq<char>, Seq<char>)>,
)
    requires
        lookup_spec(translations, locale, key) is None,
    ensures
        translate_spec(translations, default_locale, locale, key, replacements)
            == translate_spec(translations, default_locale, default_locale, key, replacements),
        lookup_spec(translations, default_locale, key) is None ==> translate_spec(
            translations,
            default_locale,
            locale,
            key,
            replacements,
        ) == key,
{
}

/// The message for `key`: the template of `locale` when it has one, else the
/// template of the default locale, with the placeholders filled in; the key
/// itself when neither has a template.
pub proof fn law_translation_prefers_the_locale(
    translations: Map<Seq<char>, Map<Seq<char>, Seq<char>>>,
    default_locale: Seq<char>,
    locale: Seq<char>,
    key: Seq<char>,
    replacements: Seq<(Seq<char>, Seq<char>)>,
)
    ensures
        ({
            let own = translations.contains_key(locale) && translations[locale].contains_key(key);
            let dflt = translations.contains_key(default_locale)
                && translations[default_locale].contains_key(key);
            let m = translate_spec(translations, default_locale, locale, key, replacements);
            &&& own ==> m == interpolate_spec(translations[locale][key], replacements)
            &&& !own && dflt ==> m == interpolate_spec(
                translations[default_locale][key],
                replacements,
            )
            &&& !own && !dflt ==> m == key
        }),
{
}

/// A template without `{` comes out as it is, whatever the replacements.
pub proof fn law_plain_template_unchanged(
    template: Seq<char>,
    replacements: Seq<(Seq<char>, Seq<char>)>,
)
    requires
        forall|k: int| 0 <= k < template.len() ==> template[k] != '{',
    ensures
        interpolate_spec(template, replacements) == template,
    decreases replacements.len(),
{
    if replacements.len() > 0 {
        law_plain_template_unchanged(template, replacements.drop_last());
        let pat = placeholder(replacements.last().0);
        reveal_strlit("{");
        assert(pat[0] == '{');
        lemma_replace_skips_front(template, Seq::<char>::empty(), pat, replacements.last().1);
        assert(template + Seq::<char>::empty() =~= template);
    }
}

/// Every `{name}` becomes the value: the text before the first one (without
/// `{`) is kept, that placeholder becomes the value, and the rest is filled
/// in the same way.
pub proof fn law_placeholder_filled(a: Seq<char>, name: Seq<char>, b: Seq<char>, value: Seq<char>)
    requires
        forall|k: int| 0 <= k < a.len() ==> a[k] != '{',
    ensures
        interpolate_spec(a + "{"@ + name + "}"@ + b, seq![(name, value)]) == a + value
            + interpolate_spec(b, seq![(name, value)]),
{
    let pat = placeholder(name);
    assert(a + "{"@ + name + "}"@ + b =~= a + pat + b);
    reveal_strlit("{");
    assert(pat[0] == '{');
    let r = seq![(name, value)];
    assert(r.drop_last() =~= Seq::<(Seq<char>, Seq<char>)>::empty());
    assert(interpolate_spec(a + pat + b, r.drop_last()) == a + pat + b);
    assert(interpolate_spec(b, r.drop_last()) == b);
    assert(a + pat + b =~= a + (pat + b));
    lemma_replace_skips_front(a, pat + b, pat, value);
    lemma_replace_at_front(b, pat, value);
    assert(a + (value + replace_all(b, pat, value)) =~= a + value + replace_all(b, pat, value));
}

/// The table that the entries of a catalog file make.
fn table_from_entries(entries: &Vec<(String, String)>) -> (r: KeyedVec<String>)
    ensures
        r.wf(),
        r.map() == pairs_map(pair_views(entries@)),
{
    let mut table: KeyedVec<String> = KeyedVec::new();
    let ghost all = pair_views(entries@);
    let mut i: usize = 0;
    assert(pairs_map(all.take(0)) =~= Map::<Seq<char>, Seq<char>>::empty());
    while i < entries.len()
        invariant
            all == pair_views(entries@),
            i <= entries@.len(),
            table.wf(),
            table.map() == pairs_map(all.take(i as int)),
        decreases entries.len() - i,
    {
        let k = entries[i].0.clone();
        let v = entries[i].1.clone();
        proof {
            assert(all.take(i + 1).drop_last() =~= all.take(i as int));
            assert(all[i as int] == (k@, v@));
        }
        table.insert(k, v);
        i = i + 1;
    }
    assert(all.take(entries@.len() as int) =~= all);
    table
}

/// `template` with every `{name}` of the replacements, taken in order,
/// replaced by its value.
pub fn interpolate(template: &str, replacements: &[(&str, &str)]) -> (r: String)
    ensures
        r@ == interpolate_spec(template@, repl_views(replacements@)),
{
    let mut acc = copy_str(template);
    let mut i: usize = 0;
    while i < replacements.len()
        invariant
            i <= replacements@.len(),
            acc@ == interpolate_spec(template@, repl_views(replacements@.take(i as int))),
        decreases replacements.len() - i,
    {
        let (name, value) = replacements[i];
        let pat = concat3("{", name, "}");
        proof {
            reveal_strlit("{");
        }
        let next = replace_str(acc.as_str(), pat.as_str(), value);
        proof {
            let r = repl_views(replacements@.take(i + 1));
            assert(r.drop_last() =~= repl_views(replacements@.take(i as int)));
            assert(r.last() == (name@, value@));
        }
        acc = next;
        i = i + 1;
    }
    assert(replacements@.take(replacements@.len() as int) =~= replacements@);
    assert(repl_views(replacements@.take(i as int)) =~= repl_views(replacements@));
    acc
}

impl I18nCatalog {
    pub open spec fn wf(&self) -> bool {
        self.translations.wf() && forall|i: int|
            0 <= i < self.translations.entries@.len() ==> (
            #[trigger] self.translations.entries@[i]).1.wf()
    }

    /// The templates, by locale and key.
    pub open spec fn tables(&self) -> Map<Seq<char>, Map<Seq<char>, Seq<char>>> {
        self.translations.map()
    }

    /// The catalogs of `en`, `zh-CN` and `zh-TW`, from the texts of their
    /// JSON files; the first file that is not a JSON object of strings is
    /// named in the error.
    pub fn from_locale_files(default_locale: &str, en: &str, zh_cn: &str, zh_tw: &str) -> (r:
        Result<Self, I18nError>)
        ensures
            match r {
                Ok(c) => {
                    &&& c.wf()
                    &&& c.default_locale@ == default_locale@
                    &&& json_string_object(en@) is Some
                    &&& json_string_object(zh_cn@) is Some
                    &&& json_string_object(zh_tw@) is Some
                    &&& c.tables() == Map::<Seq<char>, Map<Seq<char>, Seq<char>>>::empty().insert(
                        "en"@,
                        pairs_map(json_string_object(en@)->0),
                    ).insert("zh-CN"@, pairs_map(json_string_object(zh_cn@)->0)).insert(
                        "zh-TW"@,
                        pairs_map(json_string_object(zh_tw@)->0),
                    )
                },
                Err(I18nError::InvalidLocaleFile(l)) => if json_string_object(en@) is None {
                    l@ == "en"@
                } else if json_string_object(zh_cn@) is None {
                    l@ == "zh-CN"@
                } else {
                    json_string_object(zh_tw@) is None && l@ == "zh-TW"@
                },
            },
    {
        let en_entries = match parse_json_string_object(en) {
            Ok(v) => v,
            Err(_) => {
                return Err(I18nError::InvalidLocaleFile(copy_str("en")));
            },
        };
        let zh_cn_entries = match parse_json_string_object(zh_cn) {
            Ok(v) => v,
            Err(_) => {
                return Err(I18nError::InvalidLocaleFile(copy_str("zh-CN")));
            },
        };
        let zh_tw_entries = match parse_json_string_object(zh_tw) {
            Ok(v) => v,
            Err(_) => {
                return Err(I18nError::InvalidLocaleFile(copy_str("zh-TW")));
            },
        };
        let mut entries: Vec<(String, KeyedVec<String>)> = Vec::new();
        entries.push((copy_str("en"), table_from_entries(&en_entries)));
        entries.push((copy_str("zh-CN"), table_from_entries(&zh_cn_entries)));
        entries.push((copy_str("zh-TW"), table_from_entries(&zh_tw_entries)));
        proof {
            reveal_strlit("en");
            reveal_strlit("zh-CN");
            reveal_strlit("zh-TW");
            let s = entries@;
            assert(s[0].0@.len() != s[1].0@.len());
            assert(s[0].0@.len() != s[2].0@.len());
            assert(s[1].0@[3] != s[2].0@[3]);
            assert forall|i: int, j: int|
                0 <= i < s.len() && 0 <= j < s.len() && i != j implies s[i].0@ != s[j].0@ by {
                if (i == 1 && j == 2) || (i == 2 && j == 1) {
                    assert(s[i].0@[3] != s[j].0@[3]);
                }
            }
            assert(crate::keyed::distinct_keys(s));
            assert(s.drop_last().drop_last().drop_last() =~= Seq::<(String, KeyedVec<String>)>::empty());
            let m0 = Map::<Seq<char>, Map<Seq<char>, Seq<char>>>::empty();
            let s1 = s.drop_last().drop_last();
            assert(s1.last() == s[0]);
            assert(s1.drop_last() =~= Seq::<(String, KeyedVec<String>)>::empty());
            assert(crate::keyed::entries_map(s1.drop_last()) == m0);
            assert(s[0].1@ == pairs_map(json_string_object(en@)->0));
            assert(s.drop_last().last() == s[1]);
            assert(s.last() == s[2]);
            assert(crate::keyed::entries_map(s.drop_last().drop_last()) == m0.insert(
                "en"@,
                pairs_map(json_string_object(en@)->0),
            ));
            assert(crate::keyed::entries_map(s.drop_last()) == m0.insert(
                "en"@,
                pairs_map(json_string_object(en@)->0),
            ).insert("zh-CN"@, pairs_map(json_string_object(zh_cn@)->0)));
        }
        let translations = KeyedVec { entries };
        Ok(I18nCatalog { default_locale: copy_str(default_locale), translations })
    }

    /// The template of `key` in `locale`.
    pub fn lookup(&self, locale: &str, key: &str) -> (r: Option<&String>)
        requires
            self.wf(),
        ensures
            match r {
                Some(t) => lookup_spec(self.tables(), locale@, key@) == Some(t@),
                None => lookup_spec(self.tables(), locale@, key@) is None,
            },
    {
        match self.translations.position(locale) {
            None => None,
            Some(i) => {
                proof {
                    crate::keyed::lemma_entries_map_at(self.translations.entries@, i as int);
                }
                self.translations.entries[i].1.get(key)
            },
        }
    }

    /// The message for `key` in `locale` with its placeholders filled in,
    /// falling back to the default locale and then to the key itself.
    pub fn t(&self, locale: &str, key: &str, replacements: &[(&str, &str)]) -> (r: String)
        requires
            self.wf(),
        ensures
            r@ == translate_spec(
                self.tables(),
                self.default_locale@,
                locale@,
                key@,
                repl_views(replacements@),
            ),
    {
        match self.lookup(locale, key) {
            Some(t) => interpolate(t.as_str(), replacements),
            None => match self.lookup(self.default_locale.as_str(), key) {
                Some(t) => interpolate(t.as_str(), replacements),
                None => copy_str(key),
            },
        }
    }

    /// Whether `locale` or the default locale has a template for `key`.
    pub fn has_key(&self, locale: &str, key: &str) -> (r: bool)
        requires
            self.wf(),
        ensures
            r == (lookup_spec(self.tables(), locale@, key@) is Some || lookup_spec(
                self.tables(),
                self.default_locale@,
                key@,
            ) is Some),
    {
        self.lookup(locale, key).is_some() || self.lookup(self.default_locale.as_str(), key).is_some()
    }
}

} // verus!
