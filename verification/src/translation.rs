//! Message translation: the keys of the messages, the languages, and the
//! lookup of a message's template in the table of a language.

use crate::text::text_eq;
use vstd::prelude::*;
use vstd::string::*;

verus! {

/// The messages that have a translation.
#[derive(Debug, Clone, Copy, PartialEq, Eq)]
pub enum TranslationKey {
    UnexpectedSymbol,
    UnexpectedSymbolComplete,
    ExpectedLiteral,
    ExpectedType,
    NoneKey,
}

impl TranslationKey {
    /// The name under which the tables hold the message.
    pub open spec fn name(self) -> Seq<char> {
        match self {
            TranslationKey::UnexpectedSymbol => "UnexpectedSymbol"@,
            TranslationKey::UnexpectedSymbolComplete => "UnexpectedSymbolComplete"@,
            TranslationKey::ExpectedLiteral => "ExpectedLiteral"@,
            TranslationKey::ExpectedType => "ExpectedType"@,
            TranslationKey::NoneKey => "None"@,
        }
    }
}

impl From<&TranslationKey> for &'static str {
    fn from(val: &TranslationKey) -> (name: &'static str)
        ensures
            name@ == val.name(),
    {
        match val {
            TranslationKey::UnexpectedSymbol => "UnexpectedSymbol",
            TranslationKey::UnexpectedSymbolComplete => "UnexpectedSymbolComplete",
            TranslationKey::ExpectedLiteral => "ExpectedLiteral",
            TranslationKey::ExpectedType => "ExpectedType",
            TranslationKey::NoneKey => "None",
        }
    }
}

impl vstd::std_specs::convert::FromSpecImpl<&TranslationKey> for &'static str {
    open spec fn obeys_from_spec() -> bool {
        true
    }

    open spec fn from_spec(val: &TranslationKey) -> &'static str {
        match val {
            TranslationKey::UnexpectedSymbol => "UnexpectedSymbol",
            TranslationKey::UnexpectedSymbolComplete => "UnexpectedSymbolComplete",
            TranslationKey::ExpectedLiteral => "ExpectedLiteral",
            TranslationKey::ExpectedType => "ExpectedType",
            TranslationKey::NoneKey => "None",
        }
    }
}

/// The languages of the messages.
#[derive(Debug, Clone, Copy, PartialEq, Eq)]
pub enum Language {
    English,
    Portuguese,
    Japanese,
}

/// The language that a setting names, in English or in the language itself;
/// English where it names none.
pub open spec fn language_named(name: Seq<char>) -> Language {
    if name == "Portuguese"@ || name == "Português"@ {
        Language::Portuguese
    } else if name == "Japanese"@ || name == "日本語"@ {
        Language::Japanese
    } else {
        Language::English
    }
}

impl Language {
    /// The English name of the language.
    pub open spec fn name(self) -> Seq<char> {
        match self {
            Language::English => "English"@,
            Language::Portuguese => "Portuguese"@,
            Language::Japanese => "Japanese"@,
        }
    }

    /// Whether the language has a table of templates. Japanese has none yet.
    pub open spec fn has_table(self) -> bool {
        self is English || self is Portuguese
    }

    /// Whether the language has a table of templates.
    pub fn is_implemented(&self) -> (implemented: bool)
        ensures
            implemented == self.has_table(),
    {
        match self {
            Language::English => true,
            Language::Portuguese => true,
            Language::Japanese => false,
        }
    }

    /// The language that `name` names.
    pub fn named(name: &str) -> (language: Language)
        ensures
            language == language_named(name@),
    {
        if text_eq(name, "Portuguese") || text_eq(name, "Português") {
            Language::Portuguese
        } else if text_eq(name, "Japanese") || text_eq(name, "日本語") {
            Language::Japanese
        } else {
            Language::English
        }
    }
}

impl From<String> for Language {
    fn from(string: String) -> (language: Language)
        ensures
            language == language_named(string@),
    {
        Language::named(string.as_str())
    }
}

impl vstd::std_specs::convert::FromSpecImpl<String> for Language {
    open spec fn obeys_from_spec() -> bool {
        true
    }

    open spec fn from_spec(string: String) -> Language {
        language_named(string@)
    }
}

impl From<Language> for String {
    fn from(val: Language) -> (name: String)
        ensures
            name@ == val.name(),
    {
        match val {
            Language::English => "English".to_string(),
            Language::Portuguese => "Portuguese".to_string(),
            Language::Japanese => "Japanese".to_string(),
        }
    }
}

/// The conversion to a string is stated on `from` itself, over the
/// characters of the result: the specification of the trait speaks of the
/// string as a whole, which no expression of a specification can build.
impl vstd::std_specs::convert::FromSpecImpl<Language> for String {
    open spec fn obeys_from_spec() -> bool {
        false
    }

    open spec fn from_spec(val: Language) -> String {
        choose|name: String| name@ == val.name()
    }
}

/// The table of a language, from the names of the messages to their
/// templates.
#[verifier::external_type_specification]
#[verifier::external_body]
#[verifier::reject_recursive_types(K)]
#[verifier::reject_recursive_types(V)]
pub struct ExTable<K: 'static, V: 'static>(phf::Map<K, V>);

/// What the lookups in a table find: the template of each name for which
/// `phf::Map::get` returns one. A lookup inspects the one entry that the hash
/// of the name leads to, so in a table that the crate's macro built these are
/// all its entries, and in a table put together by hand an entry that its
/// hash does not lead to is not among them.
pub uninterp spec fn table_finds(table: phf::Map<&'static str, &'static str>) -> Map<
    Seq<char>,
    Seq<char>,
>;

/// The number of entries of a table.
pub uninterp spec fn table_size(table: phf::Map<&'static str, &'static str>) -> nat;

/// The number of displacements of a table, by which a lookup finds its entry.
pub uninterp spec fn table_slots(table: phf::Map<&'static str, &'static str>) -> nat;

/// The number of entries, with `phf::Map::len`.
#[verifier::external_body]
fn table_len(table: &phf::Map<&'static str, &'static str>) -> (size: usize)
    ensures
        size == table_size(*table),
{
    table.len()
}

/// The number of displacements: the length of the field `disps` of
/// `phf::Map`.
#[verifier::external_body]
fn table_slot_count(table: &phf::Map<&'static str, &'static str>) -> (slots: usize)
    ensures
        slots == table_slots(*table),
{
    table.disps.len()
}

/// Whether a lookup in the table is sure to return. A lookup divides by the
/// number of displacements and by the number of entries, each cut to 32 bits:
/// so there is at least one entry, and neither number exceeds 32 bits.
pub open spec fn searchable(table: phf::Map<&'static str, &'static str>) -> bool {
    &&& 0 < table_size(table) <= u32::MAX
    &&& table_slots(table) <= u32::MAX
}

/// Whether a lookup in the table is sure to return.
pub fn is_searchable(table: &phf::Map<&'static str, &'static str>) -> (sure: bool)
    ensures
        sure == searchable(*table),
{
    let size = table_len(table);
    let slots = table_slot_count(table);
    0 < size && size <= 0xffff_ffff && slots <= 0xffff_ffff
}

/// Looks `name` up with `phf::Map::get`, which returns the value of the
/// entry that the hash of `name` leads to where the key of that entry equals
/// `name`, and nothing otherwise. The contract names what it finds. The
/// tables on which `get` divides by zero are left out.
#[verifier::external_body]
fn table_get(table: &phf::Map<&'static str, &'static str>, name: &str) -> (template: Option<
    &'static str,
>)
    requires
        searchable(*table),
    ensures
        match template {
            Some(text) => table_finds(*table).contains_key(name@) && table_finds(*table)[name@]
                == text@,
            None => !table_finds(*table).contains_key(name@),
        },
{
    table.get(name).copied()
}

/// The template that a lookup of `name` in `table` finds; nothing where it
/// finds none or where the table cannot be searched.
pub open spec fn found_in(table: phf::Map<&'static str, &'static str>, name: Seq<char>) -> Option<
    Seq<char>,
> {
    if searchable(table) && table_finds(table).contains_key(name) {
        Some(table_finds(table)[name])
    } else {
        None
    }
}

/// The template of `key` in the table of `language`, where that language has
/// a table and a lookup in it finds the key.
pub open spec fn template_of(
    language: Language,
    key: TranslationKey,
    english: phf::Map<&'static str, &'static str>,
    portuguese: phf::Map<&'static str, &'static str>,
) -> Option<Seq<char>> {
    match language {
        Language::English => found_in(english, key.name()),
        Language::Portuguese => found_in(portuguese, key.name()),
        Language::Japanese => None,
    }
}

/// The characters of a template that was looked up.
pub open spec fn template_view(template: Option<&'static str>) -> Option<Seq<char>> {
    match template {
        Some(text) => Some(text@),
        None => None,
    }
}

/// Looks `name` up in `table`.
fn find_in(table: &phf::Map<&'static str, &'static str>, name: &str) -> (template: Option<
    &'static str,
>)
    ensures
        template_view(template) == found_in(*table, name@),
{
    if is_searchable(table) {
        table_get(table, name)
    } else {
        None
    }
}

/// Looks up the template of `key` in the table of `language`; there is none
/// for a language without a table and for a key that the table lacks.
pub fn find_template(
    language: Language,
    key: &TranslationKey,
    english: &phf::Map<&'static str, &'static str>,
    portuguese: &phf::Map<&'static str, &'static str>,
) -> (template: Option<&'static str>)
    ensures
        template_view(template) == template_of(language, *key, *english, *portuguese),
{
    let name: &'static str = key.into();
    match language {
        Language::English => find_in(english, name),
        Language::Portuguese => find_in(portuguese, name),
        Language::Japanese => None,
    }
}

/// The template of `key` in the table of `language`, for a language that
/// has a table and a key that the table holds.
pub fn get_template(
    language: Language,
    key: &TranslationKey,
    english: &phf::Map<&'static str, &'static str>,
    portuguese: &phf::Map<&'static str, &'static str>,
) -> (template: &'static str)
    requires
        template_of(language, *key, *english, *portuguese) is Some,
    ensures
        template_of(language, *key, *english, *portuguese) == Some(template@),
{
    find_template(language, key, english, portuguese).unwrap()
}

/// The keys in the order in which their templates are registered.
pub open spec fn translation_keys() -> Seq<TranslationKey> {
    seq![
        TranslationKey::UnexpectedSymbol,
        TranslationKey::UnexpectedSymbolComplete,
        TranslationKey::ExpectedLiteral,
        TranslationKey::ExpectedType,
        TranslationKey::NoneKey,
    ]
}

/// Whether `pairs` holds, for the first `count` keys in their order, the name
/// of the key and its template in `language`.
pub open spec fn registers(
    pairs: Seq<(&'static str, &'static str)>,
    count: int,
    language: Language,
    english: phf::Map<&'static str, &'static str>,
    portuguese: phf::Map<&'static str, &'static str>,
) -> bool {
    &&& pairs.len() == count
    &&& forall|i: int|
        0 <= i < count ==> {
            &&& (#[trigger] pairs[i]).0@ == translation_keys()[i].name()
            &&& template_of(language, translation_keys()[i], english, portuguese) == Some(
                pairs[i].1@,
            )
        }
}

/// Whether the table of `language` lacks the template of one of the keys.
pub open spec fn lacks_a_template(
    language: Language,
    english: phf::Map<&'static str, &'static str>,
    portuguese: phf::Map<&'static str, &'static str>,
) -> bool {
    exists|i: int|
        0 <= i < translation_keys().len() && template_of(
            language,
            #[trigger] translation_keys()[i],
            english,
            portuguese,
        ) is None
}

/// What is to be registered with a template engine for `language`: for each
/// key, in the order of the keys, its name and its template. There is no such
/// list where the table lacks the template of a key.
pub fn templates(
    language: Language,
    english: &phf::Map<&'static str, &'static str>,
    portuguese: &phf::Map<&'static str, &'static str>,
) -> (list: Option<Vec<(&'static str, &'static str)>>)
    requires
        language.has_table(),
    ensures
        match list {
            Some(pairs) => registers(pairs@, 5, language, *english, *portuguese),
            None => lacks_a_template(language, *english, *portuguese),
        },
{
    let keys = vec![
        TranslationKey::UnexpectedSymbol,
        TranslationKey::UnexpectedSymbolComplete,
        TranslationKey::ExpectedLiteral,
        TranslationKey::ExpectedType,
        TranslationKey::NoneKey,
    ];
    assert(keys@ =~= translation_keys());
    let mut pairs: Vec<(&'static str, &'static str)> = Vec::new();
    let mut i: usize = 0;
    while i < keys.len()
        invariant
            keys@ == translation_keys(),
            0 <= i <= keys.len(),
            registers(pairs@, i as int, language, *english, *portuguese),
        decreases keys.len() - i,
    {
        let name: &'static str = (&keys[i]).into();
        match find_template(language, &keys[i], english, portuguese) {
            Some(template) => {
                pairs.push((name, template));
            },
            None => {
                return None;
            },
        }
        i = i + 1;
    }
    Some(pairs)
}

/// The language that a setting selects: the one that it names, and English
/// where there is no setting.
pub open spec fn selected_language(setting: Option<String>) -> Language {
    match setting {
        Some(name) => language_named(name@),
        None => Language::English,
    }
}

/// The language that a setting selects.
pub fn select_language(setting: &Option<String>) -> (language: Language)
    ensures
        language == selected_language(*setting),
{
    match setting {
        Some(name) => Language::named(name.as_str()),
        None => Language::English,
    }
}

/// What the selection of a language settles: the language of the messages,
/// and for each key its name and its template in that language, as they are
/// to be registered.
#[derive(Debug)]
pub struct Configuration {
    pub language: Language,
    pub templates: Vec<(&'static str, &'static str)>,
}

/// Selects the language that `setting` names and collects the templates of
/// that language, one for each key. A setting that selects a language without
/// a table is no input: the caller asks [`select_language`] and
/// [`Language::is_implemented`] first. There is no configuration where the
/// table lacks the template of a key.
pub fn configure_language(
    setting: Option<String>,
    english: &phf::Map<&'static str, &'static str>,
    portuguese: &phf::Map<&'static str, &'static str>,
) -> (configured: Option<Configuration>)
    requires
        selected_language(setting).has_table(),
    ensures
        match configured {
            Some(configuration) => {
                &&& configuration.language == selected_language(setting)
                &&& registers(
                    configuration.templates@,
                    5,
                    configuration.language,
                    *english,
                    *portuguese,
                )
            },
            None => lacks_a_template(selected_language(setting), *english, *portuguese),
        },
{
    let language = select_language(&setting);
    match templates(language, english, portuguese) {
        Some(templates) => Some(Configuration { language, templates }),
        None => None,
    }
}

} // verus!
