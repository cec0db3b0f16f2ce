use anim_timeline::easing::{lerp_with_easing, Easing};
use anim_timeline::fixed::ONE;

const ALL: [Easing; 25] = [
    Easing::Linear,
    Easing::EaseIn,
    Easing::EaseOut,
    Easing::EaseInOut,
    Easing::EaseInQuad,
    Easing::EaseOutQuad,
    Easing::EaseInOutQuad,
    Easing::EaseInCubic,
    Easing::EaseOutCubic,
    Easing::EaseInOutCubic,
    Easing::EaseInQuart,
    Easing::EaseOutQuart,
    Easing::EaseInOutQuart,
    Easing::EaseInElastic,
    Easing::EaseOutElastic,
    Easing::EaseInOutElastic,
    Easing::EaseInBounce,
    Easing::EaseOutBounce,
    Easing::EaseInOutBounce,
    Easing::EaseInBack,
    Easing::EaseOutBack,
    Easing::EaseInOutBack,
    Easing::EaseInCirc,
    Easing::EaseOutCirc,
    Easing::EaseInOutCirc,
];

#[test]
fn every_curve_starts_at_zero_and_ends_at_one() {
    for e in ALL.iter() {
        assert_eq!(e.apply(0), 0, "{:?}", e);
        assert_eq!(e.apply(ONE), ONE, "{:?}", e);
    }
}

#[test]
fn time_is_clamped_before_evaluation() {
    for e in ALL.iter() {
        assert_eq!(e.apply(-5000), 0, "{:?}", e);
        assert_eq!(e.apply(3 * ONE), ONE, "{:?}", e);
    }
}

#[test]
fn in_bounce_reflects_out_bounce() {
    for t in [0, 1, 1234, 2500, 3636, 5000, 7272, 9090, 9999, ONE] {
        assert_eq!(
            Easing::EaseInBounce.apply(t),
            ONE - Easing::EaseOutBounce.apply(ONE - t)
        );
    }
}

#[test]
fn polynomial_curves_at_midpoint() {
    assert_eq!(Easing::Linear.apply(2500), 2500);
    assert_eq!(Easing::EaseInQuad.apply(5000), 2500);
    assert_eq!(Easing::EaseIn.apply(5000), 2500);
    assert_eq!(Easing::EaseOutQuad.apply(5000), 7500);
    assert_eq!(Easing::EaseInOutQuad.apply(2500), 1250);
    assert_eq!(Easing::EaseInOutQuad.apply(7500), 8750);
    assert_eq!(Easing::EaseInCubic.apply(5000), 1250);
    assert_eq!(Easing::EaseOutCubic.apply(5000), 8750);
    assert_eq!(Easing::EaseInOutCubic.apply(2500), 625);
    assert_eq!(Easing::EaseInOutCubic.apply(7500), 9375);
    assert_eq!(Easing::EaseInQuart.apply(5000), 625);
    assert_eq!(Easing::EaseOutQuart.apply(5000), 9375);
    assert_eq!(Easing::EaseInOutQuart.apply(5000), 5000);
}

#[test]
fn bounce_values() {
    assert_eq!(Easing::EaseOutBounce.apply(2500), 4726);
    assert_eq!(Easing::EaseOutBounce.apply(5000), 7656);
    assert_eq!(Easing::EaseOutBounce.apply(7500), 9726);
    assert_eq!(Easing::EaseInBounce.apply(5000), 2344);
    assert_eq!(Easing::EaseInOutBounce.apply(5000), 5000);
}

#[test]
fn back_curves_overshoot() {
    assert_eq!(Easing::EaseInBack.apply(5000), -877);
    assert_eq!(Easing::EaseOutBack.apply(5000), 10876);
    assert!(Easing::EaseInOutBack.apply(1000) < 0);
    assert!(Easing::EaseInOutBack.apply(9000) > ONE);
}

#[test]
fn circular_curves() {
    assert_eq!(Easing::EaseInCirc.apply(5000), 1340);
    assert_eq!(Easing::EaseOutCirc.apply(5000), 8660);
    assert_eq!(Easing::EaseInOutCirc.apply(5000), 5000);
}

#[test]
fn elastic_curves_oscillate_around_the_end() {
    assert_eq!(Easing::EaseOutElastic.apply(2500), 9111);
    assert_eq!(Easing::EaseOutElastic.apply(5000), 10156);
    assert_eq!(Easing::EaseInElastic.apply(5000), -156);
    assert_eq!(Easing::EaseInElastic.apply(7500), 889);
    assert_eq!(Easing::EaseInOutElastic.apply(5000), 5000);
}

#[test]
fn lerp_uses_the_curve() {
    assert_eq!(lerp_with_easing(0, 100 * ONE, 5000, Easing::Linear), 50 * ONE);
    assert_eq!(lerp_with_easing(0, 100 * ONE, 5000, Easing::EaseInQuad), 25 * ONE);
    assert_eq!(lerp_with_easing(10 * ONE, 0, 5000, Easing::Linear), 5 * ONE);
    assert_eq!(lerp_with_easing(-ONE, ONE, ONE, Easing::EaseOutBounce), ONE);
    assert_eq!(lerp_with_easing(-ONE, ONE, 0, Easing::EaseInElastic), -ONE);
}
