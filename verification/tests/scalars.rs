use drysua::scalar::{
    ability_id_token, bool_feature, category_token, clamp, clamp_raw, coordinate_ratio,
    difference, direction_ratio, facing_feature, periodic_phase, pregame_progress, ratio,
    safe_fraction, saturating_sum, signed_ratio, truncated_quotient, unit_kind_token, unit_ratio,
    Scalar,
};
use drysua::world::{AbilityId, Angle, Team, UnitKind};

fn part(numerator: i64, denominator: i64) -> Scalar {
    Scalar::Ratio { numerator, denominator }
}

#[test]
fn ratios_are_clamped_to_their_range() {
    assert_eq!(ratio(5, 0, 10), part(5, 10));
    assert_eq!(ratio(-5, 0, 10), part(0, 10));
    assert_eq!(ratio(15, 2, 10), part(8, 8));
    assert_eq!(unit_ratio(3, 0), part(1, 1));
    assert_eq!(safe_fraction(3, 0), Scalar::Zero);
    assert_eq!(safe_fraction(3, 4), part(3, 4));
    assert_eq!(coordinate_ratio(9, 10), part(9, 9));
    assert_eq!(
        signed_ratio(-3, 10),
        Scalar::Signed { numerator: 7, denominator: 20 }
    );
    assert_eq!(
        signed_ratio(9, 0),
        Scalar::Signed { numerator: 2, denominator: 2 }
    );
    assert_eq!(
        direction_ratio(-3, 5),
        Scalar::Direction { numerator: -3, denominator: 5 }
    );
    assert_eq!(direction_ratio(0, 0), Scalar::Zero);
}

#[test]
fn tokens_start_at_one() {
    assert_eq!(category_token(0), Scalar::Category(1));
    assert_eq!(unit_kind_token(UnitKind::Hero), Scalar::Category(1));
    assert_eq!(bool_feature(true), Scalar::One);
    assert_eq!(bool_feature(false), Scalar::Zero);
    assert_ne!(ability_id_token(AbilityId(3)), ability_id_token(AbilityId(4)));
}

#[test]
fn clocks_count_from_the_first_wave() {
    assert_eq!(pregame_progress(450, 900), part(450, 900));
    assert_eq!(pregame_progress(900, 900), Scalar::One);
    assert_eq!(pregame_progress(0, 0), Scalar::One);
    assert_eq!(periodic_phase(1_000, 900, 30, 3), part(10, 90));
    assert_eq!(periodic_phase(10, 900, 30, 3), part(0, 90));
    assert_eq!(periodic_phase(1_000, 900, 0, 3), part(0, 1));
    assert_eq!(facing_feature(Team::Radiant, Angle { brads: 7 }), part(7, 65_535));
    assert_eq!(facing_feature(Team::Dire, Angle { brads: 7 }), part(32_775, 65_535));
}

#[test]
fn arithmetic_saturates() {
    assert_eq!(difference(3, 5), -2);
    assert_eq!(difference(u64::MAX, 0), i64::MAX);
    assert_eq!(saturating_sum(i64::MAX, 1), i64::MAX);
    assert_eq!(saturating_sum(i64::MIN, -1), i64::MIN);
    assert_eq!(truncated_quotient(-7, 2), -3);
    assert_eq!(clamp_raw(1 << 40), i32::MAX);
    assert_eq!(clamp_raw(-(1 << 40)), i32::MIN);
    assert_eq!(clamp(5, 0, 3), 3);
}
