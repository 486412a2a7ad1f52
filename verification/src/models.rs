//! The closed vocabularies of the catalog: game categories and lifecycle
//! states, with their wire codes and their lower-case labels.
//!
//! Each enum carries one canonical bidirectional mapping to the integer codes
//! used on the wire (`from_proto` / `to_proto`) and one to the label strings
//! used by the HTTP layer.  The round-trip laws at the bottom pin both down.

use vstd::prelude::*;
use vstd::string::StringSliceAdditionalSpecFns;

verus! {

/// A game classification drawn from the closed vocabulary.
///
/// `Unspecified` is the wire sentinel for an unknown code; it is never
/// persisted as a real classification.
#[derive(Clone, Copy, Debug, PartialEq, Eq, Structural)]
pub enum DbGameCategory {
    Unspecified,
    Action,
    Rpg,
    Strategy,
    Sports,
    Racing,
    Adventure,
    Simulation,
    Puzzle,
}

/// The lifecycle state of a game record.
///
/// `Unspecified` is the wire sentinel for an unknown code; stored rows always
/// hold one of the four real states.
#[derive(Clone, Copy, Debug, PartialEq, Eq, Structural)]
pub enum DbGameStatus {
    Unspecified,
    Draft,
    UnderReview,
    Published,
    Suspended,
}

impl DbGameCategory {
    /// The wire code of a category; `Unspecified` maps to 0.
    pub open spec fn spec_to_proto(self) -> i32 {
        match self {
            DbGameCategory::Unspecified => 0,
            DbGameCategory::Action => 1,
            DbGameCategory::Rpg => 2,
            DbGameCategory::Strategy => 3,
            DbGameCategory::Sports => 4,
            DbGameCategory::Racing => 5,
            DbGameCategory::Adventure => 6,
            DbGameCategory::Simulation => 7,
            DbGameCategory::Puzzle => 8,
        }
    }

    /// Decodes a wire code; every code outside 1..=8 yields `Unspecified`.
    pub fn from_proto(value: i32) -> (r: Self)
        ensures
            r == Self::spec_from_proto(value),
    {
        match value {
            1 => DbGameCategory::Action,
            2 => DbGameCategory::Rpg,
            3 => DbGameCategory::Strategy,
            4 => DbGameCategory::Sports,
            5 => DbGameCategory::Racing,
            6 => DbGameCategory::Adventure,
            7 => DbGameCategory::Simulation,
            8 => DbGameCategory::Puzzle,
            _ => DbGameCategory::Unspecified,
        }
    }

    pub open spec fn spec_from_proto(value: i32) -> Self {
        if value == 1 {
            DbGameCategory::Action
        } else if value == 2 {
            DbGameCategory::Rpg
        } else if value == 3 {
            DbGameCategory::Strategy
        } else if value == 4 {
            DbGameCategory::Sports
        } else if value == 5 {
            DbGameCategory::Racing
        } else if value == 6 {
            DbGameCategory::Adventure
        } else if value == 7 {
            DbGameCategory::Simulation
        } else if value == 8 {
            DbGameCategory::Puzzle
        } else {
            DbGameCategory::Unspecified
        }
    }

    /// Encodes a category as its wire code.
    pub fn to_proto(&self) -> (r: i32)
        ensures
            r == self.spec_to_proto(),
    {
        match self {
            DbGameCategory::Action => 1,
            DbGameCategory::Rpg => 2,
            DbGameCategory::Strategy => 3,
            DbGameCategory::Sports => 4,
            DbGameCategory::Racing => 5,
            DbGameCategory::Adventure => 6,
            DbGameCategory::Simulation => 7,
            DbGameCategory::Puzzle => 8,
            DbGameCategory::Unspecified => 0,
        }
    }
}

impl DbGameStatus {
    /// The wire code of a status; `Unspecified` maps to 0.
    pub open spec fn spec_to_proto(self) -> i32 {
        match self {
            DbGameStatus::Unspecified => 0,
            DbGameStatus::Draft => 1,
            DbGameStatus::UnderReview => 2,
            DbGameStatus::Published => 3,
            DbGameStatus::Suspended => 4,
        }
    }

    /// Decodes a wire code; every code outside 1..=4 yields `Unspecified`.
    pub fn from_proto(value: i32) -> (r: Self)
        ensures
            r == Self::spec_from_proto(value),
    {
        match value {
            1 => DbGameStatus::Draft,
            2 => DbGameStatus::UnderReview,
            3 => DbGameStatus::Published,
            4 => DbGameStatus::Suspended,
            _ => DbGameStatus::Unspecified,
        }
    }

    pub open spec fn spec_from_proto(value: i32) -> Self {
        if value == 1 {
            DbGameStatus::Draft
        } else if value == 2 {
            DbGameStatus::UnderReview
        } else if value == 3 {
            DbGameStatus::Published
        } else if value == 4 {
            DbGameStatus::Suspended
        } else {
            DbGameStatus::Unspecified
        }
    }

    /// Encodes a status as its wire code.
    pub fn to_proto(&self) -> (r: i32)
        ensures
            r == self.spec_to_proto(),
    {
        match self {
            DbGameStatus::Draft => 1,
            DbGameStatus::UnderReview => 2,
            DbGameStatus::Published => 3,
            DbGameStatus::Suspended => 4,
            DbGameStatus::Unspecified => 0,
        }
    }
}

impl DbGameCategory {
    /// The lower-case label of a category.
    pub open spec fn spec_label(self) -> Seq<char> {
        match self {
            DbGameCategory::Unspecified => "unspecified"@,
            DbGameCategory::Action => "action"@,
            DbGameCategory::Rpg => "rpg"@,
            DbGameCategory::Strategy => "strategy"@,
            DbGameCategory::Sports => "sports"@,
            DbGameCategory::Racing => "racing"@,
            DbGameCategory::Adventure => "adventure"@,
            DbGameCategory::Simulation => "simulation"@,
            DbGameCategory::Puzzle => "puzzle"@,
        }
    }

    /// Renders a category as its lower-case label.
    pub fn label(&self) -> (r: String)
        ensures
            r@ == self.spec_label(),
    {
        match self {
            DbGameCategory::Unspecified => "unspecified".to_owned(),
            DbGameCategory::Action => "action".to_owned(),
            DbGameCategory::Rpg => "rpg".to_owned(),
            DbGameCategory::Strategy => "strategy".to_owned(),
            DbGameCategory::Sports => "sports".to_owned(),
            DbGameCategory::Racing => "racing".to_owned(),
            DbGameCategory::Adventure => "adventure".to_owned(),
            DbGameCategory::Simulation => "simulation".to_owned(),
            DbGameCategory::Puzzle => "puzzle".to_owned(),
        }
    }

    /// The category a label denotes; every unknown label yields the
    /// sentinel.
    pub open spec fn spec_from_label(s: Seq<char>) -> DbGameCategory {
        if s == "action"@ {
            DbGameCategory::Action
        } else if s == "rpg"@ {
            DbGameCategory::Rpg
        } else if s == "strategy"@ {
            DbGameCategory::Strategy
        } else if s == "sports"@ {
            DbGameCategory::Sports
        } else if s == "racing"@ {
            DbGameCategory::Racing
        } else if s == "adventure"@ {
            DbGameCategory::Adventure
        } else if s == "simulation"@ {
            DbGameCategory::Simulation
        } else if s == "puzzle"@ {
            DbGameCategory::Puzzle
        } else {
            DbGameCategory::Unspecified
        }
    }

    /// Parses a lower-case label; every unknown label yields the sentinel.
    pub fn from_label(s: &str) -> (r: DbGameCategory)
        ensures
            r == Self::spec_from_label(s@),
    {
        if str_eq(s, "action") {
            DbGameCategory::Action
        } else if str_eq(s, "rpg") {
            DbGameCategory::Rpg
        } else if str_eq(s, "strategy") {
            DbGameCategory::Strategy
        } else if str_eq(s, "sports") {
            DbGameCategory::Sports
        } else if str_eq(s, "racing") {
            DbGameCategory::Racing
        } else if str_eq(s, "adventure") {
            DbGameCategory::Adventure
        } else if str_eq(s, "simulation") {
            DbGameCategory::Simulation
        } else if str_eq(s, "puzzle") {
            DbGameCategory::Puzzle
        } else {
            DbGameCategory::Unspecified
        }
    }
}

impl DbGameStatus {
    /// The snake-case label of a status.
    pub open spec fn spec_label(self) -> Seq<char> {
        match self {
            DbGameStatus::Unspecified => "unspecified"@,
            DbGameStatus::Draft => "draft"@,
            DbGameStatus::UnderReview => "under_review"@,
            DbGameStatus::Published => "published"@,
            DbGameStatus::Suspended => "suspended"@,
        }
    }

    /// Renders a status as its snake-case label.
    pub fn label(&self) -> (r: String)
        ensures
            r@ == self.spec_label(),
    {
        match self {
            DbGameStatus::Unspecified => "unspecified".to_owned(),
            DbGameStatus::Draft => "draft".to_owned(),
            DbGameStatus::UnderReview => "under_review".to_owned(),
            DbGameStatus::Published => "published".to_owned(),
            DbGameStatus::Suspended => "suspended".to_owned(),
        }
    }

    /// The status a label denotes, if any.
    pub open spec fn spec_from_label(s: Seq<char>) -> Option<DbGameStatus> {
        if s == "draft"@ {
            Some(DbGameStatus::Draft)
        } else if s == "under_review"@ {
            Some(DbGameStatus::UnderReview)
        } else if s == "published"@ {
            Some(DbGameStatus::Published)
        } else if s == "suspended"@ {
            Some(DbGameStatus::Suspended)
        } else if s == "unspecified"@ {
            Some(DbGameStatus::Unspecified)
        } else {
            None
        }
    }

    /// Parses a snake-case label; an unknown label parses to nothing.
    pub fn from_label(s: &str) -> (r: Option<DbGameStatus>)
        ensures
            r == Self::spec_from_label(s@),
    {
        if str_eq(s, "draft") {
            Some(DbGameStatus::Draft)
        } else if str_eq(s, "under_review") {
            Some(DbGameStatus::UnderReview)
        } else if str_eq(s, "published") {
            Some(DbGameStatus::Published)
        } else if str_eq(s, "suspended") {
            Some(DbGameStatus::Suspended)
        } else if str_eq(s, "unspecified") {
            Some(DbGameStatus::Unspecified)
        } else {
            None
        }
    }
}

/// Character-for-character equality of two string slices.
pub fn str_eq(a: &str, b: &str) -> (r: bool)
    ensures
        r == (a@ == b@),
{
    let ab = a.as_bytes();
    let bb = b.as_bytes();
    if ab.len() != bb.len() {
        proof {
            vstd::utf8::encode_utf8_decode_utf8(a@);
            vstd::utf8::encode_utf8_decode_utf8(b@);
        }
        return false;
    }
    let n = ab.len();
    let mut i: usize = 0;
    while i < n
        invariant
            n == ab@.len(),
            n == bb@.len(),
            i <= n,
            ab@ == a.spec_bytes(),
            bb@ == b.spec_bytes(),
            forall|k: int| 0 <= k < i ==> ab@[k] == bb@[k],
        decreases n - i,
    {
        if ab[i] != bb[i] {
            proof {
                vstd::utf8::encode_utf8_decode_utf8(a@);
                vstd::utf8::encode_utf8_decode_utf8(b@);
            }
            return false;
        }
        i = i + 1;
    }
    proof {
        assert(ab@ =~= bb@);
        vstd::utf8::encode_utf8_decode_utf8(a@);
        vstd::utf8::encode_utf8_decode_utf8(b@);
    }
    true
}

/// Every wire code decodes to a category that encodes back to the same code
/// when the code is a real classification (1..=8), and every category other
/// than the sentinel round-trips through its code.
pub proof fn lemma_category_code_round_trip(value: i32, c: DbGameCategory)
    ensures
        1 <= value <= 8 ==> DbGameCategory::spec_from_proto(value).spec_to_proto() == value,
        c != DbGameCategory::Unspecified ==> DbGameCategory::spec_from_proto(c.spec_to_proto())
            == c,
{
}

/// Every wire code decodes to a status that encodes back to the same code
/// when the code is a real state (1..=4), and every status other than the
/// sentinel round-trips through its code.
pub proof fn lemma_status_code_round_trip(value: i32, s: DbGameStatus)
    ensures
        1 <= value <= 4 ==> DbGameStatus::spec_from_proto(value).spec_to_proto() == value,
        s != DbGameStatus::Unspecified ==> DbGameStatus::spec_from_proto(s.spec_to_proto()) == s,
{
}

} // verus!
