use glare::translation::{
    configure_language, find_template, get_template, is_searchable, select_language, templates,
    Language, TranslationKey,
};

type Table = phf::Map<&'static str, &'static str>;

static ONE_SLOT: [(u32, u32); 1] = [(0, 0)];

const ENGLISH: [(&str, &str); 5] = [
    ("UnexpectedSymbol", "Unexpected symbol at index {index}"),
    (
        "UnexpectedSymbolComplete",
        "Unexpected symbol: {symbol} (at index {index})",
    ),
    ("ExpectedLiteral", "Expected literal"),
    ("ExpectedType", "Expected valid type"),
    ("None", "None"),
];

const PORTUGUESE: [(&str, &str); 5] = [
    ("UnexpectedSymbol", "Símbolo inesperado (offset: {index})"),
    (
        "UnexpectedSymbolComplete",
        "Símbolo {symbol} inesperado (offset: {index})",
    ),
    ("ExpectedLiteral", "Literal era esperado"),
    ("ExpectedType", "Tipo válido era esperado"),
    ("None", "Nenhum"),
];

fn table_of(seed: u64, entries: Vec<(&'static str, &'static str)>) -> Table {
    phf::Map {
        key: seed,
        disps: &ONE_SLOT,
        entries: Box::leak(entries.into_boxed_slice()),
    }
}

/// The entry to which a lookup of `name` goes in a table of `size` entries.
fn slot_of(seed: u64, name: &'static str, size: usize) -> usize {
    for slot in 0..size {
        let mut entries = vec![("", ""); size];
        entries[slot] = (name, "");
        if table_of(seed, entries).get(name).is_some() {
            return slot;
        }
    }
    unreachable!()
}

/// A table in which a lookup finds each of `pairs`.
fn table(pairs: &[(&'static str, &'static str)]) -> Table {
    for seed in 0..100_000 {
        let mut entries = vec![("", ""); pairs.len()];
        let mut taken = vec![false; pairs.len()];
        let mut fits = true;
        for pair in pairs {
            let slot = slot_of(seed, pair.0, pairs.len());
            if taken[slot] {
                fits = false;
            }
            taken[slot] = true;
            entries[slot] = *pair;
        }
        if fits {
            return table_of(seed, entries);
        }
    }
    panic!("no seed places the entries")
}

const KEYS: [TranslationKey; 5] = [
    TranslationKey::UnexpectedSymbol,
    TranslationKey::UnexpectedSymbolComplete,
    TranslationKey::ExpectedLiteral,
    TranslationKey::ExpectedType,
    TranslationKey::NoneKey,
];

#[test]
fn key_names() {
    let name: &'static str = (&TranslationKey::UnexpectedSymbol).into();
    assert_eq!(name, "UnexpectedSymbol");
    let name: &'static str = (&TranslationKey::UnexpectedSymbolComplete).into();
    assert_eq!(name, "UnexpectedSymbolComplete");
    let name: &'static str = (&TranslationKey::ExpectedLiteral).into();
    assert_eq!(name, "ExpectedLiteral");
    let name: &'static str = (&TranslationKey::ExpectedType).into();
    assert_eq!(name, "ExpectedType");
    let name: &'static str = (&TranslationKey::NoneKey).into();
    assert_eq!(name, "None");
}

#[test]
fn language_of_a_name() {
    assert_eq!(Language::from("Portuguese".to_string()), Language::Portuguese);
    assert_eq!(Language::from("Português".to_string()), Language::Portuguese);
    assert_eq!(Language::from("Japanese".to_string()), Language::Japanese);
    assert_eq!(Language::from("日本語".to_string()), Language::Japanese);
    assert_eq!(Language::from("English".to_string()), Language::English);
    assert_eq!(Language::from("Deutsch".to_string()), Language::English);
    assert_eq!(Language::from("portuguese".to_string()), Language::English);
    assert_eq!(Language::from(String::new()), Language::English);
    assert_eq!(Language::named("Português"), Language::Portuguese);
    assert_eq!(Language::named("日本語"), Language::Japanese);
    assert_eq!(Language::named("Klingon"), Language::English);
}

#[test]
fn name_of_a_language() {
    assert_eq!(String::from(Language::English), "English");
    assert_eq!(String::from(Language::Portuguese), "Portuguese");
    assert_eq!(String::from(Language::Japanese), "Japanese");
    for language in [Language::English, Language::Portuguese, Language::Japanese] {
        assert_eq!(Language::from(String::from(language)), language);
    }
}

#[test]
fn languages_with_a_table() {
    assert!(Language::English.is_implemented());
    assert!(Language::Portuguese.is_implemented());
    assert!(!Language::Japanese.is_implemented());
}

#[test]
fn selected_language() {
    assert_eq!(select_language(&None), Language::English);
    assert_eq!(
        select_language(&Some("Português".to_string())),
        Language::Portuguese
    );
    assert_eq!(
        select_language(&Some("Japanese".to_string())),
        Language::Japanese
    );
    assert_eq!(
        select_language(&Some("日本語".to_string())),
        Language::Japanese
    );
    assert_eq!(
        select_language(&Some("Klingon".to_string())),
        Language::English
    );
}

#[test]
fn template_comes_from_the_table_of_the_language() {
    let english = table(&ENGLISH);
    let portuguese = table(&PORTUGUESE);
    for (i, key) in KEYS.iter().enumerate() {
        assert_eq!(
            find_template(Language::English, key, &english, &portuguese),
            Some(ENGLISH[i].1)
        );
        assert_eq!(
            get_template(Language::English, key, &english, &portuguese),
            ENGLISH[i].1
        );
        assert_eq!(
            find_template(Language::Portuguese, key, &english, &portuguese),
            Some(PORTUGUESE[i].1)
        );
        assert_eq!(
            get_template(Language::Portuguese, key, &english, &portuguese),
            PORTUGUESE[i].1
        );
    }
}

#[test]
fn template_that_the_table_lacks() {
    let english = table(&ENGLISH[2..3]);
    let portuguese = phf::Map::new();
    assert_eq!(
        find_template(
            Language::English,
            &TranslationKey::ExpectedLiteral,
            &english,
            &portuguese
        ),
        Some("Expected literal")
    );
    assert_eq!(
        find_template(
            Language::English,
            &TranslationKey::ExpectedType,
            &english,
            &portuguese
        ),
        None
    );
    assert_eq!(
        find_template(
            Language::Portuguese,
            &TranslationKey::ExpectedLiteral,
            &english,
            &portuguese
        ),
        None
    );
}

#[test]
fn language_without_a_table() {
    let english = table(&ENGLISH);
    let portuguese = table(&PORTUGUESE);
    for key in &KEYS {
        assert_eq!(
            find_template(Language::Japanese, key, &english, &portuguese),
            None
        );
    }
}

#[test]
fn table_without_entries_is_not_searched() {
    let hollow = table_of(0, Vec::new());
    let english = table(&ENGLISH);
    assert!(!is_searchable(&hollow));
    assert!(!is_searchable(&phf::Map::new()));
    assert!(is_searchable(&english));
    assert_eq!(
        find_template(
            Language::Portuguese,
            &TranslationKey::ExpectedLiteral,
            &english,
            &hollow
        ),
        None
    );
    assert_eq!(templates(Language::Portuguese, &english, &hollow), None);
}

#[test]
fn templates_of_each_key_in_order() {
    let english = table(&ENGLISH);
    let portuguese = table(&PORTUGUESE);
    assert_eq!(
        templates(Language::English, &english, &portuguese),
        Some(ENGLISH.to_vec())
    );
    assert_eq!(
        templates(Language::Portuguese, &english, &portuguese),
        Some(PORTUGUESE.to_vec())
    );
}

#[test]
fn templates_need_every_key() {
    let english = table(&ENGLISH[..4]);
    let portuguese = table(&PORTUGUESE);
    assert_eq!(templates(Language::English, &english, &portuguese), None);
    assert_eq!(
        templates(Language::Portuguese, &english, &portuguese),
        Some(PORTUGUESE.to_vec())
    );
}

#[test]
fn configured_language() {
    let english = table(&ENGLISH);
    let portuguese = table(&PORTUGUESE);

    let configuration = configure_language(None, &english, &portuguese).unwrap();
    assert_eq!(configuration.language, Language::English);
    assert_eq!(configuration.templates, ENGLISH.to_vec());

    let configuration =
        configure_language(Some("Português".to_string()), &english, &portuguese).unwrap();
    assert_eq!(configuration.language, Language::Portuguese);
    assert_eq!(configuration.templates, PORTUGUESE.to_vec());

    let configuration =
        configure_language(Some("Klingon".to_string()), &english, &portuguese).unwrap();
    assert_eq!(configuration.language, Language::English);
    assert_eq!(configuration.templates.len(), 5);
}

#[test]
fn configuration_needs_every_key() {
    let english = table(&ENGLISH);
    let portuguese = table(&PORTUGUESE[1..]);
    assert!(configure_language(Some("Portuguese".to_string()), &english, &portuguese).is_none());
    assert!(configure_language(Some("English".to_string()), &english, &portuguese).is_some());
}
