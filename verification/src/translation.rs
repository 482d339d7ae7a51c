//! Display names of material types. The word catalog translates the name of
//! a type's teachings item; the name proper stands in that translation
//! between a pair of corner brackets.

use crate::catalog::WordEntry;
use crate::material::TalentLevelUpMaterialType;
use crate::schedule::TEACHINGS_PREFIX;
use crate::text::{find_char, first_index_of, lemma_first_index_of, to_chars};
use vstd::hash_map::StringHashMap;
use vstd::prelude::*;

verus! {

/// The bracket that opens a quoted name.
pub const OPENING_BRACKET: char = '「';

/// The bracket that closes a quoted name.
pub const CLOSING_BRACKET: char = '」';

/// Why a material type has no display name.
#[derive(Clone, Copy, Debug, PartialEq, Eq, Structural)]
pub enum TranslationError {
    /// The word catalog has no record for the type's teachings item.
    TranslationNotFound,
    /// The record has no translation.
    NoLocalizedPhrase,
    /// The translation holds no opening bracket followed by a closing one.
    MalformedBracketPhrase,
}

/// What stands in `phrase` between the brackets: the characters after the
/// first opening bracket and before the first closing bracket. There is
/// nothing to take where either bracket is missing, or where the first
/// closing bracket comes before the first opening one.
pub open spec fn bracketed(phrase: Seq<char>) -> Option<Seq<char>> {
    match (first_index_of(phrase, OPENING_BRACKET), first_index_of(phrase, CLOSING_BRACKET)) {
        (Some(open), Some(close)) => if open < close {
            Some(phrase.subrange(open + 1, close))
        } else {
            None
        },
        _ => None,
    }
}

/// The phrase under which the word catalog lists a type: the name of its
/// teachings item.
pub open spec fn word_key(mat_type: TalentLevelUpMaterialType) -> Seq<char> {
    TEACHINGS_PREFIX@ + mat_type.spec_token()
}

/// The words of a catalog by their English phrase. The records are taken
/// front to back, so of several records of one phrase the last one counts.
pub open spec fn words_by_phrase(entries: Seq<WordEntry>) -> Map<Seq<char>, WordEntry>
    decreases entries.len(),
{
    if entries.len() == 0 {
        Map::empty()
    } else {
        words_by_phrase(entries.drop_last()).insert(entries.last().en@, entries.last())
    }
}

/// The display name of a type, as `words` give it.
pub open spec fn translation(
    words: Map<Seq<char>, WordEntry>,
    mat_type: TalentLevelUpMaterialType,
) -> Result<Seq<char>, TranslationError> {
    if !words.contains_key(word_key(mat_type)) {
        Err(TranslationError::TranslationNotFound)
    } else {
        match words[word_key(mat_type)].ja {
            None => Err(TranslationError::NoLocalizedPhrase),
            Some(phrase) => match bracketed(phrase@) {
                None => Err(TranslationError::MalformedBracketPhrase),
                Some(name) => Ok(name),
            },
        }
    }
}

/// A table holds a phrase exactly when some record is of that phrase, and
/// then holds under it the last such record.
pub proof fn lemma_words_by_phrase(entries: Seq<WordEntry>, phrase: Seq<char>)
    ensures
        words_by_phrase(entries).contains_key(phrase) <==> exists|i: int|
            0 <= i < entries.len() && (#[trigger] entries[i]).en@ == phrase,
        forall|i: int|
            0 <= i < entries.len() && (#[trigger] entries[i]).en@ == phrase && (forall|j: int|
                i < j < entries.len() ==> (#[trigger] entries[j]).en@ != phrase)
                ==> words_by_phrase(entries)[phrase] == entries[i],
    decreases entries.len(),
{
    if entries.len() > 0 {
        let head = entries.drop_last();
        let last = entries.len() - 1;
        lemma_words_by_phrase(head, phrase);
        if entries[last].en@ == phrase {
        } else {
            if words_by_phrase(entries).contains_key(phrase) {
                let i = choose|i: int| 0 <= i < head.len() && (#[trigger] head[i]).en@ == phrase;
                assert(entries[i].en@ == phrase);
            }
            if exists|i: int| 0 <= i < entries.len() && (#[trigger] entries[i]).en@ == phrase {
                let i = choose|i: int|
                    0 <= i < entries.len() && (#[trigger] entries[i]).en@ == phrase;
                assert(head[i].en@ == phrase);
            }
            assert forall|i: int|
                0 <= i < entries.len() && (#[trigger] entries[i]).en@ == phrase && (forall|j: int|
                    i < j < entries.len() ==> (#[trigger] entries[j]).en@
                        != phrase) implies words_by_phrase(entries)[phrase] == entries[i] by {
                assert(head[i] == entries[i]);
                assert forall|j: int| i < j < head.len() implies (#[trigger] head[j]).en@
                    != phrase by {
                    assert(head[j] == entries[j]);
                }
            }
        }
    }
}

/// What is taken out of a phrase stood in it between the two brackets:
/// putting the brackets back round it gives a piece of the phrase, and
/// neither bracket occurs before that piece.
pub proof fn lemma_bracketed(phrase: Seq<char>)
    ensures
        match bracketed(phrase) {
            Some(inner) => exists|open: int|
                0 <= open && open + inner.len() + 2 <= phrase.len() && phrase[open]
                    == OPENING_BRACKET && phrase[open + inner.len() + 1] == CLOSING_BRACKET
                    && phrase.subrange(open + 1, open + 1 + inner.len()) == inner
                    && !inner.contains(CLOSING_BRACKET) && !phrase.take(open).contains(
                    OPENING_BRACKET,
                ) && !phrase.take(open).contains(CLOSING_BRACKET),
            None => !phrase.contains(OPENING_BRACKET) || !phrase.contains(CLOSING_BRACKET) || (
            exists|close: int|
                0 <= close < phrase.len() && phrase[close] == CLOSING_BRACKET && !phrase.take(
                    close,
                ).contains(OPENING_BRACKET)),
        },
{
    lemma_first_index_of(phrase, OPENING_BRACKET);
    lemma_first_index_of(phrase, CLOSING_BRACKET);
    match (first_index_of(phrase, OPENING_BRACKET), first_index_of(phrase, CLOSING_BRACKET)) {
        (Some(open), Some(close)) => {
            if open < close {
                let inner = phrase.subrange(open + 1, close);
                assert(!inner.contains(CLOSING_BRACKET)) by {
                    if inner.contains(CLOSING_BRACKET) {
                        let k = choose|k: int| 0 <= k < inner.len() && inner[k] == CLOSING_BRACKET;
                        assert(phrase.take(close)[open + 1 + k] == CLOSING_BRACKET);
                    }
                }
                assert(!phrase.take(open).contains(CLOSING_BRACKET)) by {
                    if phrase.take(open).contains(CLOSING_BRACKET) {
                        let k = choose|k: int|
                            0 <= k < phrase.take(open).len() && phrase.take(open)[k]
                                == CLOSING_BRACKET;
                        assert(phrase.take(close)[k] == CLOSING_BRACKET);
                    }
                }
                assert(phrase.subrange(open + 1, open + 1 + inner.len()) == inner);
            } else {
                assert(!phrase.take(close).contains(OPENING_BRACKET)) by {
                    if phrase.take(close).contains(OPENING_BRACKET) {
                        let k = choose|k: int|
                            0 <= k < phrase.take(close).len() && phrase.take(close)[k]
                                == OPENING_BRACKET;
                        assert(phrase.take(open)[k] == OPENING_BRACKET);
                    }
                }
            }
        },
        _ => {},
    }
}

/// The part of `ja` that stands between the corner brackets: what follows
/// the first opening bracket, up to the first closing bracket. Positions
/// count characters, so brackets and text outside ASCII are cut cleanly.
pub fn extract_str_in_ja_quotes(ja: &str) -> (inner: Option<&str>)
    ensures
        match inner {
            Some(text) => bracketed(ja@) == Some(text@),
            None => bracketed(ja@).is_none(),
        },
{
    let chars = to_chars(ja);
    let open = match find_char(&chars, OPENING_BRACKET) {
        Some(open) => open,
        None => { return None; },
    };
    let close = match find_char(&chars, CLOSING_BRACKET) {
        Some(close) => close,
        None => { return None; },
    };
    if open > close {
        return None;
    }
    proof {
        lemma_first_index_of(ja@, OPENING_BRACKET);
        lemma_first_index_of(ja@, CLOSING_BRACKET);
        assert(open != close);
    }
    Some(ja.substring_char(open + 1, close))
}

/// The words of a catalog, found by their English phrase.
pub struct WordTable {
    words: StringHashMap<WordEntry>,
}

impl View for WordTable {
    type V = Map<Seq<char>, WordEntry>;

    closed spec fn view(&self) -> Map<Seq<char>, WordEntry> {
        self.words@
    }
}

impl WordTable {
    /// How many phrases the table holds.
    pub fn len(&self) -> (n: usize)
        ensures
            n == self@.len(),
    {
        self.words.len()
    }

    /// The record of `phrase`, if the table holds one.
    pub fn get(&self, phrase: &str) -> (found: Option<&WordEntry>)
        ensures
            match found {
                Some(entry) => self@.contains_key(phrase@) && self@[phrase@] == *entry,
                None => !self@.contains_key(phrase@),
            },
    {
        self.words.get(phrase)
    }
}

/// Builds the table of a word catalog: every record under its English
/// phrase, the last one where several share a phrase.
pub fn read_words(entries: Vec<WordEntry>) -> (table: WordTable)
    ensures
        table@ == words_by_phrase(entries@),
{
    let mut words: StringHashMap<WordEntry> = StringHashMap::new();
    for entry in it: entries
        invariant
            it.seq() == entries@,
            words@ == words_by_phrase(it.seq().take(it.index() as int)),
    {
        proof {
            let k = it.index() as int;
            assert(it.seq().take(k + 1).drop_last() == it.seq().take(k));
        }
        words.insert(entry.en.clone(), entry);
    }
    proof {
        assert(entries@.take(entries@.len() as int) == entries@);
    }
    WordTable { words }
}

/// The display name of a material type: the translation of the name of its
/// teachings item, cut down to what stands between the brackets.
pub fn mat_type_to_name(mat_type: TalentLevelUpMaterialType, words: &WordTable) -> (name: Result<
    String,
    TranslationError,
>)
    ensures
        match name {
            Ok(text) => translation(words@, mat_type) == Ok::<_, TranslationError>(text@),
            Err(e) => translation(words@, mat_type) == Err::<Seq<char>, _>(e),
        },
{
    let mut teaching = TEACHINGS_PREFIX.to_owned();
    teaching.append(mat_type.as_str());
    let entry = match words.get(teaching.as_str()) {
        Some(entry) => entry,
        None => { return Err(TranslationError::TranslationNotFound); },
    };
    let ja = match &entry.ja {
        Some(ja) => ja,
        None => { return Err(TranslationError::NoLocalizedPhrase); },
    };
    match extract_str_in_ja_quotes(ja.as_str()) {
        Some(inner) => Ok(inner.to_owned()),
        None => Err(TranslationError::MalformedBracketPhrase),
    }
}

} // verus!
