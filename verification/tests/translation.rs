use weekday_materials::{
    extract_str_in_ja_quotes, mat_type_to_name, read_words, TalentLevelUpMaterialType,
    TranslationError, WordEntry,
};

fn word(en: &str, ja: Option<&str>) -> WordEntry {
    WordEntry { en: en.to_string(), ja: ja.map(|ja| ja.to_string()) }
}

#[test]
fn extract_between_brackets() {
    assert_eq!(extract_str_in_ja_quotes("「正義」の教え"), Some("正義"));
    assert_eq!(extract_str_in_ja_quotes("これは「正義」です"), Some("正義"));
    assert_eq!(extract_str_in_ja_quotes("a「b」c"), Some("b"));
}

#[test]
fn extract_empty_quotation() {
    assert_eq!(extract_str_in_ja_quotes("「」"), Some(""));
}

#[test]
fn extract_takes_first_brackets() {
    assert_eq!(extract_str_in_ja_quotes("「自由」と「抗争」"), Some("自由"));
    assert_eq!(extract_str_in_ja_quotes("「「自由」」"), Some("「自由"));
}

#[test]
fn extract_only_opening_bracket() {
    assert_eq!(extract_str_in_ja_quotes("「正義の教え"), None);
}

#[test]
fn extract_only_closing_bracket() {
    assert_eq!(extract_str_in_ja_quotes("正義」の教え"), None);
}

#[test]
fn extract_reversed_brackets() {
    assert_eq!(extract_str_in_ja_quotes("」正義「の教え"), None);
    assert_eq!(extract_str_in_ja_quotes("」「正義」"), None);
}

#[test]
fn extract_without_brackets() {
    assert_eq!(extract_str_in_ja_quotes(""), None);
    assert_eq!(extract_str_in_ja_quotes("Teachings of Justice"), None);
    assert_eq!(extract_str_in_ja_quotes("\"正義\""), None);
}

#[test]
fn translate_known_type() {
    let words = read_words(vec![
        word("Teachings of Freedom", Some("「自由」の教え")),
        word("Teachings of Justice", Some("「正義」の教え")),
    ]);
    assert_eq!(words.len(), 2);
    assert_eq!(
        mat_type_to_name(TalentLevelUpMaterialType::Justice, &words),
        Ok("正義".to_string())
    );
    assert_eq!(
        mat_type_to_name(TalentLevelUpMaterialType::Freedom, &words),
        Ok("自由".to_string())
    );
}

#[test]
fn translate_missing_record() {
    let words = read_words(vec![word("Guide to Justice", Some("「正義」の導き"))]);
    assert_eq!(
        mat_type_to_name(TalentLevelUpMaterialType::Justice, &words),
        Err(TranslationError::TranslationNotFound)
    );
    let none = read_words(Vec::new());
    assert_eq!(none.len(), 0);
    assert_eq!(
        mat_type_to_name(TalentLevelUpMaterialType::Gold, &none),
        Err(TranslationError::TranslationNotFound)
    );
}

#[test]
fn translate_record_without_phrase() {
    let words = read_words(vec![word("Teachings of Order", None)]);
    assert_eq!(
        mat_type_to_name(TalentLevelUpMaterialType::Order, &words),
        Err(TranslationError::NoLocalizedPhrase)
    );
}

#[test]
fn translate_malformed_phrase() {
    let words = read_words(vec![
        word("Teachings of Gold", Some("「黄金の教え")),
        word("Teachings of Light", Some("」浮世「の教え")),
        word("Teachings of Praxis", Some("実践の教え")),
    ]);
    for mat_type in [
        TalentLevelUpMaterialType::Gold,
        TalentLevelUpMaterialType::Light,
        TalentLevelUpMaterialType::Praxis,
    ] {
        assert_eq!(
            mat_type_to_name(mat_type, &words),
            Err(TranslationError::MalformedBracketPhrase)
        );
    }
}

#[test]
fn words_last_record_of_a_phrase_counts() {
    let words = read_words(vec![
        word("Teachings of Justice", Some("「公平」の教え")),
        word("Teachings of Justice", None),
        word("Teachings of Justice", Some("「正義」の教え")),
    ]);
    assert_eq!(words.len(), 1);
    assert_eq!(words.get("Teachings of Justice").unwrap().ja.as_deref(), Some("「正義」の教え"));
    assert!(words.get("Teachings of Freedom").is_none());
    assert_eq!(
        mat_type_to_name(TalentLevelUpMaterialType::Justice, &words),
        Ok("正義".to_string())
    );
}
