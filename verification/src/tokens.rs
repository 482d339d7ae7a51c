//! The shape of the eighteen tokens, and what follows from it: no token
//! hides in another, and the names that the catalogs give to materials tell
//! their types without ambiguity.

use crate::material::{classify, lemma_classify, mentions, TalentLevelUpMaterialType};
use crate::schedule::{is_teachings, TEACHINGS_PREFIX};
use crate::text::{is_substring, occurs_at};
use crate::translation::word_key;
use vstd::prelude::*;

verus! {

/// An upper-case letter of the basic Latin alphabet.
pub open spec fn is_upper(c: char) -> bool {
    'A' <= c <= 'Z'
}

/// The first two characters of some token.
pub open spec fn opens_token(first: char, second: char) -> bool {
    exists|u: TalentLevelUpMaterialType|
        u.spec_token()[0] == first && #[trigger] u.spec_token()[1] == second
}

proof fn reveal_tokens()
    ensures
        "Freedom"@ == seq!['F', 'r', 'e', 'e', 'd', 'o', 'm'],
        "Resistance"@ == seq!['R', 'e', 's', 'i', 's', 't', 'a', 'n', 'c', 'e'],
        "Ballad"@ == seq!['B', 'a', 'l', 'l', 'a', 'd'],
        "Prosperity"@ == seq!['P', 'r', 'o', 's', 'p', 'e', 'r', 'i', 't', 'y'],
        "Diligence"@ == seq!['D', 'i', 'l', 'i', 'g', 'e', 'n', 'c', 'e'],
        "Gold"@ == seq!['G', 'o', 'l', 'd'],
        "Transience"@ == seq!['T', 'r', 'a', 'n', 's', 'i', 'e', 'n', 'c', 'e'],
        "Elegance"@ == seq!['E', 'l', 'e', 'g', 'a', 'n', 'c', 'e'],
        "Light"@ == seq!['L', 'i', 'g', 'h', 't'],
        "Admonition"@ == seq!['A', 'd', 'm', 'o', 'n', 'i', 't', 'i', 'o', 'n'],
        "Ingenuity"@ == seq!['I', 'n', 'g', 'e', 'n', 'u', 'i', 't', 'y'],
        "Praxis"@ == seq!['P', 'r', 'a', 'x', 'i', 's'],
        "Equity"@ == seq!['E', 'q', 'u', 'i', 't', 'y'],
        "Justice"@ == seq!['J', 'u', 's', 't', 'i', 'c', 'e'],
        "Order"@ == seq!['O', 'r', 'd', 'e', 'r'],
        "Contention"@ == seq!['C', 'o', 'n', 't', 'e', 'n', 't', 'i', 'o', 'n'],
        "Kindling"@ == seq!['K', 'i', 'n', 'd', 'l', 'i', 'n', 'g'],
        "Conflict"@ == seq!['C', 'o', 'n', 'f', 'l', 'i', 'c', 't'],
{
    reveal_strlit("Freedom");
    reveal_strlit("Resistance");
    reveal_strlit("Ballad");
    reveal_strlit("Prosperity");
    reveal_strlit("Diligence");
    reveal_strlit("Gold");
    reveal_strlit("Transience");
    reveal_strlit("Elegance");
    reveal_strlit("Light");
    reveal_strlit("Admonition");
    reveal_strlit("Ingenuity");
    reveal_strlit("Praxis");
    reveal_strlit("Equity");
    reveal_strlit("Justice");
    reveal_strlit("Order");
    reveal_strlit("Contention");
    reveal_strlit("Kindling");
    reveal_strlit("Conflict");
    assert("Freedom"@ =~= seq!['F', 'r', 'e', 'e', 'd', 'o', 'm']);
    assert("Resistance"@ =~= seq!['R', 'e', 's', 'i', 's', 't', 'a', 'n', 'c', 'e']);
    assert("Ballad"@ =~= seq!['B', 'a', 'l', 'l', 'a', 'd']);
    assert("Prosperity"@ =~= seq!['P', 'r', 'o', 's', 'p', 'e', 'r', 'i', 't', 'y']);
    assert("Diligence"@ =~= seq!['D', 'i', 'l', 'i', 'g', 'e', 'n', 'c', 'e']);
    assert("Gold"@ =~= seq!['G', 'o', 'l', 'd']);
    assert("Transience"@ =~= seq!['T', 'r', 'a', 'n', 's', 'i', 'e', 'n', 'c', 'e']);
    assert("Elegance"@ =~= seq!['E', 'l', 'e', 'g', 'a', 'n', 'c', 'e']);
    assert("Light"@ =~= seq!['L', 'i', 'g', 'h', 't']);
    assert("Admonition"@ =~= seq!['A', 'd', 'm', 'o', 'n', 'i', 't', 'i', 'o', 'n']);
    assert("Ingenuity"@ =~= seq!['I', 'n', 'g', 'e', 'n', 'u', 'i', 't', 'y']);
    assert("Praxis"@ =~= seq!['P', 'r', 'a', 'x', 'i', 's']);
    assert("Equity"@ =~= seq!['E', 'q', 'u', 'i', 't', 'y']);
    assert("Justice"@ =~= seq!['J', 'u', 's', 't', 'i', 'c', 'e']);
    assert("Order"@ =~= seq!['O', 'r', 'd', 'e', 'r']);
    assert("Contention"@ =~= seq!['C', 'o', 'n', 't', 'e', 'n', 't', 'i', 'o', 'n']);
    assert("Kindling"@ =~= seq!['K', 'i', 'n', 'd', 'l', 'i', 'n', 'g']);
    assert("Conflict"@ =~= seq!['C', 'o', 'n', 'f', 'l', 'i', 'c', 't']);
}

/// Every token has at least four characters, the first an upper-case
/// letter and none of the others; and the first four characters tell the
/// tokens apart.
pub proof fn lemma_token_shape()
    ensures
        forall|t: TalentLevelUpMaterialType| (#[trigger] t.spec_token()).len() >= 4,
        forall|t: TalentLevelUpMaterialType| is_upper(#[trigger] t.spec_token()[0]),
        forall|t: TalentLevelUpMaterialType, k: int|
            1 <= k < t.spec_token().len() ==> !is_upper(#[trigger] t.spec_token()[k]),
        forall|t: TalentLevelUpMaterialType, u: TalentLevelUpMaterialType|
            #![trigger t.spec_token(), u.spec_token()]
            t.spec_token()[0] == u.spec_token()[0] && t.spec_token()[1] == u.spec_token()[1]
                && t.spec_token()[2] == u.spec_token()[2] && t.spec_token()[3]
                == u.spec_token()[3] ==> t == u,
{
    reveal_tokens();
    assert forall|t: TalentLevelUpMaterialType, k: int|
        1 <= k < t.spec_token().len() implies !is_upper(#[trigger] t.spec_token()[k]) by {
        let s = t.spec_token();
        if k == 1 {
        } else if k == 2 {
        } else if k == 3 {
        } else if k == 4 {
        } else if k == 5 {
        } else if k == 6 {
        } else if k == 7 {
        } else if k == 8 {
        } else {
            assert(k == 9);
        }
    }
}

/// The pairs of characters with which tokens open.
proof fn lemma_openers()
    ensures
        forall|first: char, second: char|
            opens_token(first, second) ==> is_upper(first) && !is_upper(second) && !(first == 'T'
                && second == 'e') && !(first == 'G' && second == 'u') && !(first == 'P' && second
                == 'h'),
{
    reveal_tokens();
    assert forall|first: char, second: char| opens_token(first, second) implies is_upper(first)
        && !is_upper(second) && !(first == 'T' && second == 'e') && !(first == 'G' && second
        == 'u') && !(first == 'P' && second == 'h') by {
        let u = choose|u: TalentLevelUpMaterialType|
            u.spec_token()[0] == first && #[trigger] u.spec_token()[1] == second;
        let s = u.spec_token();
        assert(s[0] == first && s[1] == second);
    }
}

/// A token that follows words in which no token opens is the only token in
/// the text: the text tells the token's type, and holds the token of no
/// other type.
pub proof fn lemma_token_after_words(before: Seq<char>, t: TalentLevelUpMaterialType)
    requires
        forall|i: int|
            0 <= i && i + 1 < before.len() ==> !opens_token(#[trigger] before[i], before[i + 1]),
    ensures
        classify(before + t.spec_token()) == Some(t),
        forall|u: TalentLevelUpMaterialType| u != t ==> !mentions(before + t.spec_token(), u),
{
    let own = t.spec_token();
    let text = before + own;
    let start = before.len() as int;
    lemma_token_shape();
    assert(text.subrange(start, start + own.len()) =~= own);
    assert(occurs_at(text, own, start));
    assert(mentions(text, t));
    assert forall|u: TalentLevelUpMaterialType| u != t implies !mentions(text, u) by {
        let other = u.spec_token();
        if is_substring(text, other) {
            let at = choose|at: int| occurs_at(text, other, at);
            let found = text.subrange(at, at + other.len());
            assert(found[0] == other[0] && found[1] == other[1] && found[2] == other[2]
                && found[3] == other[3]);
            if at + 1 < start {
                assert(opens_token(before[at], before[at + 1]));
            } else if at + 1 == start {
                assert(text[at + 1] == own[0]);
            } else if at == start {
                assert(text[at] == own[0] && text[at + 1] == own[1] && text[at + 2] == own[2]
                    && text[at + 3] == own[3]);
                assert(other[0] == own[0] && other[1] == own[1] && other[2] == own[2] && other[3]
                    == own[3]);
            } else {
                assert(text[at] == own[at - start]);
            }
        }
    }
    lemma_classify(text);
}

/// The names that the catalogs give to the three tiers of a material tell
/// the material's type, and so does the token by itself.
pub proof fn lemma_tier_names_tell_types(t: TalentLevelUpMaterialType)
    ensures
        classify(t.spec_token()) == Some(t),
        classify("Teachings of "@ + t.spec_token()) == Some(t),
        classify("Guide to "@ + t.spec_token()) == Some(t),
        classify("Philosophies of "@ + t.spec_token()) == Some(t),
{
    let none = Seq::<char>::empty();
    lemma_token_after_words(none, t);
    assert(none + t.spec_token() == t.spec_token());
    lemma_no_token_in_heading("Teachings of "@);
    lemma_token_after_words("Teachings of "@, t);
    lemma_no_token_in_heading("Guide to "@);
    lemma_token_after_words("Guide to "@, t);
    lemma_no_token_in_heading("Philosophies of "@);
    lemma_token_after_words("Philosophies of "@, t);
}

/// The phrase under which the word catalog lists a type is the name of a
/// teachings item, and tells that type and no other.
pub proof fn lemma_word_key_tells_type(t: TalentLevelUpMaterialType)
    ensures
        is_teachings(word_key(t)),
        classify(word_key(t)) == Some(t),
{
    lemma_tier_names_tell_types(t);
    let key = word_key(t);
    assert(key.subrange(0, TEACHINGS_PREFIX@.len() as int) =~= TEACHINGS_PREFIX@);
    assert(occurs_at(key, TEACHINGS_PREFIX@, 0));
}

/// No token opens in the words that head the tier names.
proof fn lemma_no_token_in_heading(words: Seq<char>)
    requires
        words == "Teachings of "@ || words == "Guide to "@ || words == "Philosophies of "@,
    ensures
        forall|i: int|
            0 <= i && i + 1 < words.len() ==> !opens_token(#[trigger] words[i], words[i + 1]),
{
    lemma_openers();
    assert forall|i: int| 0 <= i && i + 1 < words.len() implies !opens_token(
        #[trigger] words[i],
        words[i + 1],
    ) by {
        if i == 0 {
            lemma_no_upper_after_first(words, 1);
        } else {
            lemma_no_upper_after_first(words, i);
        }
    }
}

/// In the words that head the tier names, only the first character is an
/// upper-case letter.
proof fn lemma_no_upper_after_first(words: Seq<char>, i: int)
    requires
        words == "Teachings of "@ || words == "Guide to "@ || words == "Philosophies of "@,
        1 <= i < words.len(),
    ensures
        !is_upper(words[i]),
        words.len() >= 2,
        (words[0] == 'T' && words[1] == 'e') || (words[0] == 'G' && words[1] == 'u') || (words[0]
            == 'P' && words[1] == 'h'),
{
    reveal_strlit("Teachings of ");
    reveal_strlit("Guide to ");
    reveal_strlit("Philosophies of ");
    if i == 1 {
    } else if i == 2 {
    } else if i == 3 {
    } else if i == 4 {
    } else if i == 5 {
    } else if i == 6 {
    } else if i == 7 {
    } else if i == 8 {
    } else if i == 9 {
    } else if i == 10 {
    } else if i == 11 {
    } else if i == 12 {
    } else if i == 13 {
    } else if i == 14 {
    } else {
        assert(i == 15);
    }
}

} // verus!
