//! Library-wide laws of the calculator, stated over the same spec
//! functions that the executable functions' contracts use.

use vstd::prelude::*;
use crate::model::{CarCategory, CategorySet, PackageV, Tariff, TripRequest, ResultV, KM_SCALE};
use crate::calc::{
    lemma_best_member_min, lemma_consume_nonneg, spec_best, lemma_find_rate_some,
    lemma_next_boundary_advances, spec_calculate, spec_calculate_for_car,
    spec_calculate_for_package, spec_consume, spec_eligible, spec_find_rate, spec_loop_start,
    spec_next_boundary, spec_package_options, spec_package_price, spec_prefix_parts,
    spec_remaining_km, spec_time_of_day,
};
use crate::model::{rate_covered, RateWindow, MINUTES_PER_DAY, PricingTier};
use crate::parser::{lemma_day_night_windows_cover, spec_parse_tariff, ErrorV, TariffV};
use vstd::arithmetic::mul::{lemma_mul_by_zero_is_zero, lemma_mul_inequality};

verus! {

/// For every pricing tier and car category, the per-minute rate
/// windows of a successfully parsed tariff tile the full 24-hour
/// cycle: every minute of the day lies in at least one window, and in
/// no two, the midnight-wrapping night window included.
pub proof fn lemma_parsed_rates_tile(
    tier: PricingTier,
    s: Seq<char>,
    t: TariffV,
    cat: CarCategory,
)
    requires
        spec_parse_tariff(tier, s) == Ok::<TariffV, ErrorV>(t),
    ensures
        ({
            let rates = match cat {
                CarCategory::Legend => t.legend.rates,
                CarCategory::Fancy => t.fancy.rates,
                CarCategory::Boss => t.boss.rates,
            };
            &&& rates.len() == 2
            &&& forall|tod: nat| tod < MINUTES_PER_DAY ==> #[trigger] rate_covered(rates, tod)
            &&& forall|tod: nat|
                tod < MINUTES_PER_DAY ==> !((#[trigger] rates[0].spec_contains(tod))
                    && rates[1].spec_contains(tod))
        }),
{
    let rates = match cat {
        CarCategory::Legend => t.legend.rates,
        CarCategory::Fancy => t.fancy.rates,
        CarCategory::Boss => t.boss.rates,
    };
    lemma_day_night_windows_cover(rates);
}

/// The overall result is the per-category result of one eligible
/// category, and no eligible category prices the trip cheaper.
pub proof fn lemma_calculate_is_minimum(tariff: Tariff, cats: CategorySet, trip: TripRequest)
    requires
        cats.spec_non_empty(),
    ensures
        exists|i: int|
            0 <= i < spec_eligible(cats).len() && spec_calculate(tariff, cats, trip)
                == spec_calculate_for_car(tariff, spec_eligible(cats)[i], trip),
        forall|i: int|
            0 <= i < spec_eligible(cats).len() ==> spec_calculate(tariff, cats, trip).price
                <= spec_calculate_for_car(tariff, #[trigger] spec_eligible(cats)[i], trip).price,
{
    let m = spec_eligible(cats).map(
        |i: int, c: CarCategory| spec_calculate_for_car(tariff, c, trip),
    );
    assert(spec_eligible(cats).len() > 0);
    lemma_best_member_min(m);
    let j = choose|j: int| 0 <= j < m.len() && spec_best(m) == m[j];
    assert(m[j] == spec_calculate_for_car(tariff, spec_eligible(cats)[j], trip));
    assert forall|i: int|
        0 <= i < spec_eligible(cats).len() implies spec_calculate(tariff, cats, trip).price
        <= spec_calculate_for_car(tariff, #[trigger] spec_eligible(cats)[i], trip).price by {
        assert(m[i] == spec_calculate_for_car(tariff, spec_eligible(cats)[i], trip));
        assert(spec_best(m).price <= m[i].price);
    }
}

/// The per-category result is the result of one package option
/// (packages in table order, then no package), and no option prices
/// the trip cheaper; in particular it never exceeds plain per-minute
/// pricing.
pub proof fn lemma_calculate_for_car_is_minimum(
    tariff: Tariff,
    cat: CarCategory,
    trip: TripRequest,
)
    ensures
        ({
            let options = spec_package_options(tariff.spec_car(cat).packages@);
            let r = spec_calculate_for_car(tariff, cat, trip);
            &&& exists|i: int|
                0 <= i < options.len() && r == spec_calculate_for_package(
                    tariff,
                    cat,
                    options[i],
                    trip,
                )
            &&& forall|i: int|
                0 <= i < options.len() ==> r.price <= spec_calculate_for_package(
                    tariff,
                    cat,
                    #[trigger] options[i],
                    trip,
                ).price
            &&& r.price <= spec_calculate_for_package(tariff, cat, None, trip).price
        }),
{
    let options = spec_package_options(tariff.spec_car(cat).packages@);
    let m = options.map(
        |i: int, pkg: Option<PackageV>| spec_calculate_for_package(tariff, cat, pkg, trip),
    );
    lemma_best_member_min(m);
    let j = choose|j: int| 0 <= j < m.len() && spec_best(m) == m[j];
    assert(m[j] == spec_calculate_for_package(tariff, cat, options[j], trip));
    assert forall|i: int|
        0 <= i < options.len() implies spec_calculate_for_car(tariff, cat, trip).price
        <= spec_calculate_for_package(tariff, cat, #[trigger] options[i], trip).price by {
        assert(m[i] == spec_calculate_for_package(tariff, cat, options[i], trip));
        assert(spec_best(m).price <= m[i].price);
    }
    assert(options[options.len() - 1] is None);
    assert(m[options.len() - 1] == spec_calculate_for_package(
        tariff,
        cat,
        options[options.len() - 1],
        trip,
    ));
}

/// Calculation is deterministic: the result is a function of the
/// tariff, the eligible categories and the trip alone, so any two
/// results of the same query are equal.
pub proof fn lemma_calculate_deterministic(
    tariff: Tariff,
    cats: CategorySet,
    trip: TripRequest,
    r1: ResultV,
    r2: ResultV,
)
    requires
        r1 == spec_calculate(tariff, cats, trip),
        r2 == spec_calculate(tariff, cats, trip),
    ensures
        r1 == r2,
{
}

/// Restricting the eligible set to a single category yields the same
/// result as pricing that category alone.
pub proof fn lemma_single_category_matches_car(
    tariff: Tariff,
    cats: CategorySet,
    cat: CarCategory,
    trip: TripRequest,
)
    requires
        forall|c: CarCategory| cats.spec_contains(c) == (c == cat),
    ensures
        spec_calculate(tariff, cats, trip) == spec_calculate_for_car(tariff, cat, trip),
{
    assert(cats.spec_contains(CarCategory::Legend) == (CarCategory::Legend == cat));
    assert(cats.spec_contains(CarCategory::Fancy) == (CarCategory::Fancy == cat));
    assert(cats.spec_contains(CarCategory::Boss) == (CarCategory::Boss == cat));
    assert(spec_eligible(cats) =~= seq![cat]);
    assert(spec_eligible(cats).map(
        |i: int, c: CarCategory| spec_calculate_for_car(tariff, c, trip),
    ) =~= seq![spec_calculate_for_car(tariff, cat, trip)]);
}

/// If a package's allowance fully covers both the trip's duration and
/// its distance, the trip costs exactly the package's flat price, and
/// the breakdown holds no per-minute or overage component.
pub proof fn lemma_package_covers_trip(
    tariff: Tariff,
    cat: CarCategory,
    pkg: PackageV,
    trip: TripRequest,
)
    requires
        trip.end_min <= trip.begin_min + pkg.duration_min,
        trip.distance <= pkg.included_km,
    ensures
        spec_calculate_for_package(tariff, cat, Some(pkg), trip).price == pkg.price * KM_SCALE,
        spec_calculate_for_package(tariff, cat, Some(pkg), trip).parts == spec_prefix_parts(
            cat,
            Some(pkg),
        ),
{
    lemma_mul_by_zero_is_zero(tariff.per_km_price as int);
    let rates = tariff.spec_car(cat).rates@;
    let start = spec_loop_start(trip.begin_min, Some(pkg));
    assert(spec_consume(rates, start, trip.end_min as nat).0 == 0);
    assert(spec_calculate_for_package(tariff, cat, Some(pkg), trip).parts =~= spec_prefix_parts(
        cat,
        Some(pkg),
    ));
}

/// Walking the rate windows up to a later end never gets cheaper.
pub proof fn lemma_consume_monotone(rates: Seq<RateWindow>, cursor: nat, end1: nat, end2: nat)
    requires
        end1 <= end2,
    ensures
        spec_consume(rates, cursor, end1).0 <= spec_consume(rates, cursor, end2).0,
    decreases end2 - cursor,
{
    if cursor >= end1 {
        lemma_consume_nonneg(rates, cursor, end2);
    } else {
        match spec_find_rate(rates, spec_time_of_day(cursor)) {
            None => {},
            Some(i) => {
                let w = rates[i];
                lemma_find_rate_some(rates, spec_time_of_day(cursor));
                lemma_next_boundary_advances(w, cursor);
                let boundary = spec_next_boundary(w, cursor);
                let next1: nat = if boundary < end1 { boundary } else { end1 };
                let next2: nat = if boundary < end2 { boundary } else { end2 };
                if boundary < end1 {
                    lemma_consume_monotone(rates, boundary, end1, end2);
                } else {
                    assert(spec_consume(rates, next1, end1).0 == 0);
                    lemma_consume_nonneg(rates, next2, end2);
                    lemma_mul_inequality(
                        next1 - cursor,
                        next2 - cursor,
                        w.price_per_minute as int,
                    );
                }
            },
        }
    }
}

/// With distance, begin time and package choice held fixed, the price
/// is monotonically non-decreasing in the trip's duration.
pub proof fn lemma_price_monotone_in_duration(
    tariff: Tariff,
    cat: CarCategory,
    pkg: Option<PackageV>,
    trip1: TripRequest,
    trip2: TripRequest,
)
    requires
        trip1.begin_min == trip2.begin_min,
        trip1.distance == trip2.distance,
        trip1.end_min <= trip2.end_min,
    ensures
        spec_calculate_for_package(tariff, cat, pkg, trip1).price <= spec_calculate_for_package(
            tariff,
            cat,
            pkg,
            trip2,
        ).price,
{
    let rates = tariff.spec_car(cat).rates@;
    let start = spec_loop_start(trip1.begin_min, pkg);
    lemma_consume_monotone(rates, start, trip1.end_min as nat, trip2.end_min as nat);
}

/// Distance beyond a chosen package's allowance is charged at exactly
/// `remaining * per_km_price`, where the remaining distance is floored
/// at zero, never negative; without a package the whole distance is
/// the remainder.
pub proof fn lemma_overage_charged_exactly(
    tariff: Tariff,
    cat: CarCategory,
    pkg: Option<PackageV>,
    trip: TripRequest,
)
    ensures
        spec_remaining_km(trip.distance, pkg) >= 0,
        pkg matches Some(p) ==> spec_remaining_km(trip.distance, pkg) == (if trip.distance
            >= p.included_km {
            trip.distance - p.included_km
        } else {
            0int
        }),
        spec_calculate_for_package(tariff, cat, pkg, trip).price == spec_package_price(pkg)
            + spec_consume(
            tariff.spec_car(cat).rates@,
            spec_loop_start(trip.begin_min, pkg),
            trip.end_min as nat,
        ).0 * KM_SCALE + spec_remaining_km(trip.distance, pkg) * tariff.per_km_price,
{
}

} // verus!
