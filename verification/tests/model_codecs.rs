use game_catalog::models::DbGameCategory;
use game_catalog::models::DbGameStatus;
use game_catalog::users::db_role_to_proto;
use game_catalog::users::proto_role_to_string;
use game_catalog::users::role_from_label;
use game_catalog::users::DbUserRole;

const CATEGORIES: [DbGameCategory; 8] = [
    DbGameCategory::Action,
    DbGameCategory::Rpg,
    DbGameCategory::Strategy,
    DbGameCategory::Sports,
    DbGameCategory::Racing,
    DbGameCategory::Adventure,
    DbGameCategory::Simulation,
    DbGameCategory::Puzzle,
];

#[test]
fn category_codes_round_trip() {
    for code in 1..=8 {
        let c = DbGameCategory::from_proto(code);
        assert_ne!(c.to_proto(), 0, "real codes decode to real categories");
        assert_eq!(c.to_proto(), code);
    }
    for c in CATEGORIES {
        assert_eq!(DbGameCategory::from_proto(c.to_proto()).to_proto(), c.to_proto());
    }
    assert_eq!(DbGameCategory::from_proto(0).to_proto(), 0);
    assert_eq!(DbGameCategory::from_proto(99).to_proto(), 0);
    assert_eq!(DbGameCategory::from_proto(-1).to_proto(), 0);
}

#[test]
fn category_codes_are_unique() {
    for (i, a) in CATEGORIES.iter().enumerate() {
        for (j, b) in CATEGORIES.iter().enumerate() {
            if i != j {
                assert_ne!(a.to_proto(), b.to_proto());
            }
        }
    }
}

#[test]
fn status_codes_round_trip() {
    for code in 1..=4 {
        let s = DbGameStatus::from_proto(code);
        assert_eq!(s.to_proto(), code);
    }
    assert_eq!(DbGameStatus::from_proto(0).to_proto(), 0);
    assert_eq!(DbGameStatus::from_proto(7).to_proto(), 0);
}

#[test]
fn category_labels_round_trip() {
    for c in CATEGORIES {
        let label = c.label();
        let back = DbGameCategory::from_label(&label);
        assert_eq!(back.to_proto(), c.to_proto());
    }
    assert_eq!(DbGameCategory::Action.label(), "action");
    assert_eq!(DbGameCategory::Rpg.label(), "rpg");
    assert_eq!(DbGameCategory::from_label("nonsense").to_proto(), 0);
}

#[test]
fn status_labels_round_trip() {
    let statuses = [
        DbGameStatus::Draft,
        DbGameStatus::UnderReview,
        DbGameStatus::Published,
        DbGameStatus::Suspended,
    ];
    for s in statuses {
        let label = s.label();
        let back = DbGameStatus::from_label(&label).expect("known label parses");
        assert_eq!(back.to_proto(), s.to_proto());
    }
    assert_eq!(DbGameStatus::UnderReview.label(), "under_review");
    assert!(DbGameStatus::from_label("archived").is_none());
    assert_eq!(
        DbGameStatus::from_label("unspecified").unwrap().to_proto(),
        0
    );
}

#[test]
fn role_codes_and_labels_agree() {
    assert_eq!(db_role_to_proto(DbUserRole::Player), 0);
    assert_eq!(db_role_to_proto(DbUserRole::Developer), 1);
    assert_eq!(db_role_to_proto(DbUserRole::Admin), 2);
    assert_eq!(proto_role_to_string(0), "player");
    assert_eq!(proto_role_to_string(1), "developer");
    assert_eq!(proto_role_to_string(2), "admin");
    assert_eq!(proto_role_to_string(9), "unknown");
    assert_eq!(role_from_label("player"), Some(0));
    assert_eq!(role_from_label("developer"), Some(1));
    assert_eq!(role_from_label("admin"), Some(2));
    assert_eq!(role_from_label("root"), None);
    for code in 0..=2 {
        let role = DbUserRole::from_proto(code);
        assert_eq!(db_role_to_proto(role), code);
    }
    assert_eq!(db_role_to_proto(DbUserRole::from_proto(42)), 0);
}
