//! The closed vocabulary of talent material types, and the classifier that
//! reads a type out of a material's free-text name.

use crate::day::DayOfWeek;
use crate::text::{contains_chars, is_substring, occurs_at, to_chars};
use vstd::prelude::*;

verus! {

/// How many material types there are.
pub const MATERIAL_TYPE_COUNT: usize = 18;

/// The type of a talent level-up material. The declaration order is the
/// order in which the regions were released, oldest first, three types per
/// region; it is the order of the type, and the classifier's scan order.
#[derive(Clone, Copy, Debug, PartialEq, Eq, PartialOrd, Ord, Hash, Structural)]
pub enum TalentLevelUpMaterialType {
    Freedom,
    Resistance,
    Ballad,
    Prosperity,
    Diligence,
    Gold,
    Transience,
    Elegance,
    Light,
    Admonition,
    Ingenuity,
    Praxis,
    Equity,
    Justice,
    Order,
    Contention,
    Kindling,
    Conflict,
}

impl TalentLevelUpMaterialType {
    /// Position in the declaration order, from 0.
    pub open spec fn spec_ordinal(self) -> int {
        match self {
            TalentLevelUpMaterialType::Freedom => 0,
            TalentLevelUpMaterialType::Resistance => 1,
            TalentLevelUpMaterialType::Ballad => 2,
            TalentLevelUpMaterialType::Prosperity => 3,
            TalentLevelUpMaterialType::Diligence => 4,
            TalentLevelUpMaterialType::Gold => 5,
            TalentLevelUpMaterialType::Transience => 6,
            TalentLevelUpMaterialType::Elegance => 7,
            TalentLevelUpMaterialType::Light => 8,
            TalentLevelUpMaterialType::Admonition => 9,
            TalentLevelUpMaterialType::Ingenuity => 10,
            TalentLevelUpMaterialType::Praxis => 11,
            TalentLevelUpMaterialType::Equity => 12,
            TalentLevelUpMaterialType::Justice => 13,
            TalentLevelUpMaterialType::Order => 14,
            TalentLevelUpMaterialType::Contention => 15,
            TalentLevelUpMaterialType::Kindling => 16,
            TalentLevelUpMaterialType::Conflict => 17,
        }
    }

    /// The type at position `k` of the declaration order; positions outside
    /// the enumeration give the last type.
    pub open spec fn spec_member(k: int) -> TalentLevelUpMaterialType {
        if k == 0 {
            TalentLevelUpMaterialType::Freedom
        } else if k == 1 {
            TalentLevelUpMaterialType::Resistance
        } else if k == 2 {
            TalentLevelUpMaterialType::Ballad
        } else if k == 3 {
            TalentLevelUpMaterialType::Prosperity
        } else if k == 4 {
            TalentLevelUpMaterialType::Diligence
        } else if k == 5 {
            TalentLevelUpMaterialType::Gold
        } else if k == 6 {
            TalentLevelUpMaterialType::Transience
        } else if k == 7 {
            TalentLevelUpMaterialType::Elegance
        } else if k == 8 {
            TalentLevelUpMaterialType::Light
        } else if k == 9 {
            TalentLevelUpMaterialType::Admonition
        } else if k == 10 {
            TalentLevelUpMaterialType::Ingenuity
        } else if k == 11 {
            TalentLevelUpMaterialType::Praxis
        } else if k == 12 {
            TalentLevelUpMaterialType::Equity
        } else if k == 13 {
            TalentLevelUpMaterialType::Justice
        } else if k == 14 {
            TalentLevelUpMaterialType::Order
        } else if k == 15 {
            TalentLevelUpMaterialType::Contention
        } else if k == 16 {
            TalentLevelUpMaterialType::Kindling
        } else {
            TalentLevelUpMaterialType::Conflict
        }
    }

    /// The canonical token of the type: the word by which a material's name
    /// tells its type.
    pub open spec fn spec_token(self) -> Seq<char> {
        match self {
            TalentLevelUpMaterialType::Freedom => "Freedom"@,
            TalentLevelUpMaterialType::Resistance => "Resistance"@,
            TalentLevelUpMaterialType::Ballad => "Ballad"@,
            TalentLevelUpMaterialType::Prosperity => "Prosperity"@,
            TalentLevelUpMaterialType::Diligence => "Diligence"@,
            TalentLevelUpMaterialType::Gold => "Gold"@,
            TalentLevelUpMaterialType::Transience => "Transience"@,
            TalentLevelUpMaterialType::Elegance => "Elegance"@,
            TalentLevelUpMaterialType::Light => "Light"@,
            TalentLevelUpMaterialType::Admonition => "Admonition"@,
            TalentLevelUpMaterialType::Ingenuity => "Ingenuity"@,
            TalentLevelUpMaterialType::Praxis => "Praxis"@,
            TalentLevelUpMaterialType::Equity => "Equity"@,
            TalentLevelUpMaterialType::Justice => "Justice"@,
            TalentLevelUpMaterialType::Order => "Order"@,
            TalentLevelUpMaterialType::Contention => "Contention"@,
            TalentLevelUpMaterialType::Kindling => "Kindling"@,
            TalentLevelUpMaterialType::Conflict => "Conflict"@,
        }
    }

    /// Position in the declaration order, from 0.
    pub fn ordinal(self) -> (k: usize)
        ensures
            k == self.spec_ordinal(),
            k < MATERIAL_TYPE_COUNT,
    {
        match self {
            TalentLevelUpMaterialType::Freedom => 0,
            TalentLevelUpMaterialType::Resistance => 1,
            TalentLevelUpMaterialType::Ballad => 2,
            TalentLevelUpMaterialType::Prosperity => 3,
            TalentLevelUpMaterialType::Diligence => 4,
            TalentLevelUpMaterialType::Gold => 5,
            TalentLevelUpMaterialType::Transience => 6,
            TalentLevelUpMaterialType::Elegance => 7,
            TalentLevelUpMaterialType::Light => 8,
            TalentLevelUpMaterialType::Admonition => 9,
            TalentLevelUpMaterialType::Ingenuity => 10,
            TalentLevelUpMaterialType::Praxis => 11,
            TalentLevelUpMaterialType::Equity => 12,
            TalentLevelUpMaterialType::Justice => 13,
            TalentLevelUpMaterialType::Order => 14,
            TalentLevelUpMaterialType::Contention => 15,
            TalentLevelUpMaterialType::Kindling => 16,
            TalentLevelUpMaterialType::Conflict => 17,
        }
    }

    /// The type at position `k` of the declaration order, for `k` inside
    /// the enumeration.
    pub fn from_ordinal(k: usize) -> (member: Option<TalentLevelUpMaterialType>)
        ensures
            k < MATERIAL_TYPE_COUNT ==> member == Some(
                TalentLevelUpMaterialType::spec_member(k as int),
            ),
            k >= MATERIAL_TYPE_COUNT ==> member.is_none(),
            member matches Some(t) ==> t.spec_ordinal() == k,
    {
        if k == 0 {
            Some(TalentLevelUpMaterialType::Freedom)
        } else if k == 1 {
            Some(TalentLevelUpMaterialType::Resistance)
        } else if k == 2 {
            Some(TalentLevelUpMaterialType::Ballad)
        } else if k == 3 {
            Some(TalentLevelUpMaterialType::Prosperity)
        } else if k == 4 {
            Some(TalentLevelUpMaterialType::Diligence)
        } else if k == 5 {
            Some(TalentLevelUpMaterialType::Gold)
        } else if k == 6 {
            Some(TalentLevelUpMaterialType::Transience)
        } else if k == 7 {
            Some(TalentLevelUpMaterialType::Elegance)
        } else if k == 8 {
            Some(TalentLevelUpMaterialType::Light)
        } else if k == 9 {
            Some(TalentLevelUpMaterialType::Admonition)
        } else if k == 10 {
            Some(TalentLevelUpMaterialType::Ingenuity)
        } else if k == 11 {
            Some(TalentLevelUpMaterialType::Praxis)
        } else if k == 12 {
            Some(TalentLevelUpMaterialType::Equity)
        } else if k == 13 {
            Some(TalentLevelUpMaterialType::Justice)
        } else if k == 14 {
            Some(TalentLevelUpMaterialType::Order)
        } else if k == 15 {
            Some(TalentLevelUpMaterialType::Contention)
        } else if k == 16 {
            Some(TalentLevelUpMaterialType::Kindling)
        } else if k == 17 {
            Some(TalentLevelUpMaterialType::Conflict)
        } else {
            None
        }
    }

    /// Every type once, in declaration order.
    pub fn all() -> (members: Vec<TalentLevelUpMaterialType>)
        ensures
            members@ == all_members(),
    {
        let mut members: Vec<TalentLevelUpMaterialType> = Vec::new();
        let mut k: usize = 0;
        while k < MATERIAL_TYPE_COUNT
            invariant
                k <= MATERIAL_TYPE_COUNT,
                members.len() == k,
                forall|i: int|
                    0 <= i < k ==> members[i] == TalentLevelUpMaterialType::spec_member(i),
            decreases MATERIAL_TYPE_COUNT - k,
        {
            match TalentLevelUpMaterialType::from_ordinal(k) {
                Some(t) => members.push(t),
                None => {},
            }
            k += 1;
        }
        assert(members@ =~= all_members());
        members
    }

    /// The canonical token of the type.
    pub fn as_str(self) -> (token: &'static str)
        ensures
            token@ == self.spec_token(),
    {
        match self {
            TalentLevelUpMaterialType::Freedom => "Freedom",
            TalentLevelUpMaterialType::Resistance => "Resistance",
            TalentLevelUpMaterialType::Ballad => "Ballad",
            TalentLevelUpMaterialType::Prosperity => "Prosperity",
            TalentLevelUpMaterialType::Diligence => "Diligence",
            TalentLevelUpMaterialType::Gold => "Gold",
            TalentLevelUpMaterialType::Transience => "Transience",
            TalentLevelUpMaterialType::Elegance => "Elegance",
            TalentLevelUpMaterialType::Light => "Light",
            TalentLevelUpMaterialType::Admonition => "Admonition",
            TalentLevelUpMaterialType::Ingenuity => "Ingenuity",
            TalentLevelUpMaterialType::Praxis => "Praxis",
            TalentLevelUpMaterialType::Equity => "Equity",
            TalentLevelUpMaterialType::Justice => "Justice",
            TalentLevelUpMaterialType::Order => "Order",
            TalentLevelUpMaterialType::Contention => "Contention",
            TalentLevelUpMaterialType::Kindling => "Kindling",
            TalentLevelUpMaterialType::Conflict => "Conflict",
        }
    }

    /// Reads the type out of a material's full name, such as
    /// "Teachings of Justice": the first type, in declaration order, whose
    /// token occurs in the name. A name that holds the tokens of two types
    /// gets the earlier one; a name that holds none gets nothing.
    pub fn from_full_name(fullname: &str) -> (found: Option<TalentLevelUpMaterialType>)
        ensures
            found == classify(fullname@),
            match found {
                Some(t) => mentions(fullname@, t) && forall|u: TalentLevelUpMaterialType|
                    u.spec_ordinal() < t.spec_ordinal() ==> !mentions(fullname@, u),
                None => forall|u: TalentLevelUpMaterialType| !mentions(fullname@, u),
            },
    {
        let name = to_chars(fullname);
        let members = TalentLevelUpMaterialType::all();
        let mut k: usize = 0;
        while k < MATERIAL_TYPE_COUNT
            invariant
                k <= MATERIAL_TYPE_COUNT,
                name@ == fullname@,
                members@ == all_members(),
                classify(fullname@) == classify_from(fullname@, k as int),
            decreases MATERIAL_TYPE_COUNT - k,
        {
            let t = members[k];
            let token = to_chars(t.as_str());
            if contains_chars(&name, &token) {
                proof {
                    lemma_classify(fullname@);
                }
                return Some(t);
            }
            k += 1;
        }
        proof {
            lemma_classify(fullname@);
        }
        None
    }
}

/// Every type once, in declaration order.
pub open spec fn all_members() -> Seq<TalentLevelUpMaterialType> {
    Seq::new(MATERIAL_TYPE_COUNT as nat, |k: int| TalentLevelUpMaterialType::spec_member(k))
}

/// The name holds the token of `t`.
pub open spec fn mentions(full_name: Seq<char>, t: TalentLevelUpMaterialType) -> bool {
    is_substring(full_name, t.spec_token())
}

/// The first type at or after position `k` whose token the name holds.
pub open spec fn classify_from(full_name: Seq<char>, k: int) -> Option<TalentLevelUpMaterialType>
    decreases MATERIAL_TYPE_COUNT - k,
{
    if k < 0 || k >= MATERIAL_TYPE_COUNT {
        None
    } else if mentions(full_name, TalentLevelUpMaterialType::spec_member(k)) {
        Some(TalentLevelUpMaterialType::spec_member(k))
    } else {
        classify_from(full_name, k + 1)
    }
}

/// The type of the material called `full_name`: the first type, in
/// declaration order, whose token the name holds.
pub open spec fn classify(full_name: Seq<char>) -> Option<TalentLevelUpMaterialType> {
    classify_from(full_name, 0)
}

/// Positions and types correspond one to one.
pub proof fn lemma_ordinal_round_trip()
    ensures
        forall|t: TalentLevelUpMaterialType|
            0 <= #[trigger] t.spec_ordinal() < MATERIAL_TYPE_COUNT
                && TalentLevelUpMaterialType::spec_member(t.spec_ordinal()) == t,
        forall|k: int|
            0 <= k < MATERIAL_TYPE_COUNT ==> (#[trigger] TalentLevelUpMaterialType::spec_member(
                k,
            )).spec_ordinal() == k,
{
}

/// The enumeration holds every type, each once, at the place of its
/// position.
pub proof fn lemma_every_type_enumerated()
    ensures
        all_members().len() == MATERIAL_TYPE_COUNT,
        all_members().no_duplicates(),
        forall|t: TalentLevelUpMaterialType| #[trigger] all_members().contains(t),
        forall|t: TalentLevelUpMaterialType| all_members()[#[trigger] t.spec_ordinal()] == t,
{
    lemma_ordinal_round_trip();
    assert forall|t: TalentLevelUpMaterialType| #[trigger] all_members().contains(t) by {
        assert(all_members()[t.spec_ordinal()] == t);
    }
    assert forall|i: int, j: int|
        0 <= i < all_members().len() && 0 <= j < all_members().len() && i != j implies all_members()[i]
        != all_members()[j] by {
        assert(all_members()[i].spec_ordinal() == i);
        assert(all_members()[j].spec_ordinal() == j);
    }
}

proof fn lemma_classify_from(full_name: Seq<char>, k: int)
    requires
        0 <= k <= MATERIAL_TYPE_COUNT,
    ensures
        match classify_from(full_name, k) {
            Some(t) => k <= t.spec_ordinal() && mentions(full_name, t) && forall|
                u: TalentLevelUpMaterialType,
            |
                k <= u.spec_ordinal() < t.spec_ordinal() ==> !mentions(full_name, u),
            None => forall|u: TalentLevelUpMaterialType|
                k <= u.spec_ordinal() ==> !mentions(full_name, u),
        },
    decreases MATERIAL_TYPE_COUNT - k,
{
    lemma_ordinal_round_trip();
    if k < MATERIAL_TYPE_COUNT && !mentions(full_name, TalentLevelUpMaterialType::spec_member(k)) {
        lemma_classify_from(full_name, k + 1);
    }
}

/// What the classifier finds: a type is found exactly when the name holds
/// its token and the token of no earlier type, and nothing is found exactly
/// when the name holds no token at all.
pub proof fn lemma_classify(full_name: Seq<char>)
    ensures
        forall|t: TalentLevelUpMaterialType|
            classify(full_name) == Some(t) <==> (mentions(full_name, t) && forall|
                u: TalentLevelUpMaterialType,
            |
                u.spec_ordinal() < t.spec_ordinal() ==> !mentions(full_name, u)),
        classify(full_name).is_none() <==> forall|u: TalentLevelUpMaterialType|
            !mentions(full_name, u),
{
    lemma_classify_from(full_name, 0);
    lemma_ordinal_round_trip();
    assert forall|t: TalentLevelUpMaterialType|
        (mentions(full_name, t) && forall|u: TalentLevelUpMaterialType|
            u.spec_ordinal() < t.spec_ordinal() ==> !mentions(full_name, u)) implies classify(
        full_name,
    ) == Some(t) by {
        match classify(full_name) {
            Some(w) => {
                if w.spec_ordinal() < t.spec_ordinal() {
                    assert(!mentions(full_name, w));
                } else if t.spec_ordinal() < w.spec_ordinal() {
                    assert(!mentions(full_name, t));
                }
            },
            None => {
                assert(!mentions(full_name, t));
            },
        }
    }
}

/// A token set into any text is enough to classify the text, whatever
/// stands before and after it, unless the token of an earlier type occurs in
/// the text as well.
pub proof fn lemma_embedded_token_classifies(
    before: Seq<char>,
    t: TalentLevelUpMaterialType,
    after: Seq<char>,
)
    requires
        forall|u: TalentLevelUpMaterialType|
            u.spec_ordinal() < t.spec_ordinal() ==> !mentions(before + t.spec_token() + after, u),
    ensures
        classify(before + t.spec_token() + after) == Some(t),
{
    let text = before + t.spec_token() + after;
    let at = before.len() as int;
    assert(text.subrange(at, at + t.spec_token().len()) =~= t.spec_token());
    assert(occurs_at(text, t.spec_token(), at));
    assert(mentions(text, t));
    lemma_classify(text);
}

/// A material as a character needs it.
#[derive(Clone, Debug)]
pub struct TalentLevelUpMaterial {
    /// The material's full name, as the catalog writes it.
    pub name: String,
    /// The type read out of the name.
    pub mat_type: TalentLevelUpMaterialType,
    /// The days on which the material can be collected.
    pub days: Vec<DayOfWeek>,
}

/// What a [`TalentLevelUpMaterial`] holds, with the name as characters.
pub struct TalentLevelUpMaterialView {
    pub name: Seq<char>,
    pub mat_type: TalentLevelUpMaterialType,
    pub days: Seq<DayOfWeek>,
}

impl View for TalentLevelUpMaterial {
    type V = TalentLevelUpMaterialView;

    open spec fn view(&self) -> TalentLevelUpMaterialView {
        TalentLevelUpMaterialView { name: self.name@, mat_type: self.mat_type, days: self.days@ }
    }
}

} // verus!
