use tariff_engine::model::{
    BreakdownPart, CarCategory, CarTariff, CategorySet, Package, PricingTier, RateWindow, Tariff,
    TripRequest,
};
use tariff_engine::parser::parse_tariff;

fn chars(s: &str) -> Vec<char> {
    s.chars().collect()
}

/// Fixture: day rate 2.00/min 06:00-20:00, night rate 1.00/min
/// 20:00-06:00, per-km overage 5.00, no packages.
fn fixture_tariff() -> Tariff {
    let table = [
        "item\tlegend\tfancy\tboss",
        "Daily: 6:00–20:00, Mon–Sun\t2,00\t2,00\t2,00",
        "Nightly: 20:00–6:00, Mon–Sun\t1,00\t1,00\t1,00",
        "Km beyond packages\t5,00\t\t",
        "Prague Airport – entry\t100\t\t",
        "Prague Airport – exit\t50\t\t",
    ]
    .join("\n");
    parse_tariff(PricingTier::Basic, &table).unwrap()
}

/// The fixture plus a package covering 1 hour and 20 km for 300.00.
fn fixture_with_package() -> Tariff {
    let table = [
        "item\tlegend\tfancy\tboss",
        "Daily: 6:00–20:00, Mon–Sun\t2,00\t2,00\t2,00",
        "Nightly: 20:00–6:00, Mon–Sun\t1,00\t1,00\t1,00",
        "1 hour + 20 km\t300,00\t300,00\t300,00",
        "Km beyond packages\t5,00\t\t",
        "Prague Airport – entry\t100\t\t",
        "Prague Airport – exit\t50\t\t",
    ]
    .join("\n");
    parse_tariff(PricingTier::Basic, &table).unwrap()
}

/// One price unit is a hundred-millionth of a koruna.
const CZK: u128 = 100_000_000;

#[test]
fn half_hour_day_trip_costs_sixty() {
    // 0 km, 09:00 to 09:30 on the same day: 30 minutes at 2.00.
    let t = fixture_tariff();
    let trip = TripRequest { distance: 0, begin_min: 9 * 60, end_min: 9 * 60 + 30 };
    let r = t.calculate(CategorySet::all(), trip);
    assert_eq!(r.price, 60 * CZK);
    assert_eq!(
        r.parts,
        vec![
            BreakdownPart::Category { category: CarCategory::Legend },
            BreakdownPart::RateSegment { start_min: 360, end_min: 1200 },
        ]
    );
}

#[test]
fn trip_across_day_night_boundary_splits() {
    // 19:50 to 20:10: ten day minutes and ten night minutes.
    let t = fixture_tariff();
    let trip = TripRequest { distance: 0, begin_min: 19 * 60 + 50, end_min: 20 * 60 + 10 };
    let r = t.calculate(CategorySet::all(), trip);
    assert_eq!(r.price, (10 * 2 + 10 * 1) * CZK);
    assert_eq!(
        r.parts,
        vec![
            BreakdownPart::Category { category: CarCategory::Legend },
            BreakdownPart::RateSegment { start_min: 360, end_min: 1200 },
            BreakdownPart::RateSegment { start_min: 1200, end_min: 360 },
        ]
    );
}

#[test]
fn package_covering_time_and_distance_costs_its_flat_price() {
    // 15 km in exactly one hour under a 1 hour + 20 km package for
    // 300.00: the remaining distance clamps to zero and no time is
    // left to charge.
    let t = fixture_with_package();
    let pkg = t.legend.packages[0].clone();
    let trip = TripRequest { distance: 15_000, begin_min: 9 * 60, end_min: 10 * 60 };
    let r = t.calculate_for_package(CarCategory::Legend, Some(&pkg), trip);
    assert_eq!(r.price, 300 * CZK);
    assert_eq!(
        r.parts,
        vec![
            BreakdownPart::Category { category: CarCategory::Legend },
            BreakdownPart::PackageUsed { name: chars("1 hour + 20 km") },
        ]
    );
}

#[test]
fn distance_beyond_package_allowance_is_charged_per_km() {
    // 25 km under the 20 km package: 5 km at 5.00 on top of 300.00.
    let t = fixture_with_package();
    let pkg = t.legend.packages[0].clone();
    let trip = TripRequest { distance: 25_000, begin_min: 9 * 60, end_min: 10 * 60 };
    let r = t.calculate_for_package(CarCategory::Legend, Some(&pkg), trip);
    assert_eq!(r.price, (300 + 25) * CZK);
    assert_eq!(r.parts.last().unwrap(), &BreakdownPart::ExtraDistance);
}

#[test]
fn calculate_picks_the_cheaper_of_package_and_per_minute() {
    let t = fixture_with_package();
    // Thirty day minutes, no distance: 60.00 per-minute beats the
    // 300.00 package.
    let short = TripRequest { distance: 0, begin_min: 9 * 60, end_min: 9 * 60 + 30 };
    let r = t.calculate(CategorySet::all(), short);
    assert_eq!(r.price, 60 * CZK);
    // Four day hours: 480.00 per-minute loses to the package plus
    // three hours beyond it (300.00 + 180.00 would still run the
    // clock), so check the exact minimum the engine reports.
    let long = TripRequest { distance: 0, begin_min: 9 * 60, end_min: 13 * 60 };
    let r = t.calculate(CategorySet::all(), long);
    // Package covers the first hour; the remaining three day hours
    // cost 360.00; total 660.00 versus 480.00 without the package.
    assert_eq!(r.price, 480 * CZK);
}

#[test]
fn degenerate_trip_costs_nothing() {
    let t = fixture_tariff();
    let trip = TripRequest { distance: 0, begin_min: 600, end_min: 600 };
    let r = t.calculate(CategorySet::all(), trip);
    assert_eq!(r.price, 0);
    assert_eq!(
        r.parts,
        vec![BreakdownPart::Category { category: CarCategory::Legend }]
    );
}

#[test]
fn distance_without_package_is_charged_fully() {
    let t = fixture_tariff();
    let trip = TripRequest { distance: 10_000, begin_min: 600, end_min: 600 };
    let r = t.calculate(CategorySet::all(), trip);
    assert_eq!(r.price, 50 * CZK);
    assert_eq!(r.parts.last().unwrap(), &BreakdownPart::ExtraDistance);
}

#[test]
fn night_trip_across_midnight_stays_in_one_window() {
    // 23:00 to 01:00: 120 night minutes in a single wrapped window.
    let t = fixture_tariff();
    let trip = TripRequest { distance: 0, begin_min: 23 * 60, end_min: 25 * 60 };
    let r = t.calculate(CategorySet::all(), trip);
    assert_eq!(r.price, 120 * CZK);
    assert_eq!(
        r.parts,
        vec![
            BreakdownPart::Category { category: CarCategory::Legend },
            BreakdownPart::RateSegment { start_min: 1200, end_min: 360 },
        ]
    );
}

#[test]
fn full_day_trip_walks_all_windows() {
    // 05:00 to 05:00 next day: one night hour, fourteen day hours,
    // nine night hours.
    let t = fixture_tariff();
    let trip = TripRequest { distance: 0, begin_min: 5 * 60, end_min: 29 * 60 };
    let r = t.calculate(CategorySet::all(), trip);
    assert_eq!(r.price, (60 * 1 + 14 * 60 * 2 + 9 * 60 * 1) * CZK);
    assert_eq!(r.parts.len(), 4);
}

#[test]
fn calculation_is_deterministic() {
    let t = fixture_with_package();
    let trip = TripRequest { distance: 12_345, begin_min: 1000, end_min: 3000 };
    let r1 = t.calculate(CategorySet::all(), trip);
    let r2 = t.calculate(CategorySet::all(), trip);
    assert_eq!(r1, r2);
}

#[test]
fn single_category_set_matches_calculate_for_car() {
    let t = fixture_with_package();
    let trip = TripRequest { distance: 7_500, begin_min: 1100, end_min: 1500 };
    for cat in [CarCategory::Legend, CarCategory::Fancy, CarCategory::Boss] {
        let restricted = t.calculate(CategorySet::single(cat), trip);
        let direct = t.calculate_for_car(cat, trip);
        assert_eq!(restricted, direct);
    }
}

#[test]
fn price_grows_with_duration() {
    let t = fixture_with_package();
    let pkg = t.legend.packages[0].clone();
    let mut last: u128 = 0;
    for hours in 1..6u64 {
        let trip = TripRequest { distance: 30_000, begin_min: 9 * 60, end_min: (9 + hours) * 60 };
        let r = t.calculate_for_package(CarCategory::Legend, Some(&pkg), trip);
        assert!(r.price >= last);
        last = r.price;
    }
}

#[test]
fn cheapest_category_wins_and_ties_keep_canonical_order() {
    let table = [
        "item\tlegend\tfancy\tboss",
        "Daily: 6:00–20:00, Mon–Sun\t3,00\t2,00\t2,00",
        "Nightly: 20:00–6:00, Mon–Sun\t3,00\t2,00\t2,00",
        "Km beyond packages\t5,00\t\t",
        "Prague Airport – entry\t100\t\t",
        "Prague Airport – exit\t50\t\t",
    ]
    .join("\n");
    let t = parse_tariff(PricingTier::Basic, &table).unwrap();
    let trip = TripRequest { distance: 0, begin_min: 600, end_min: 660 };
    // Fancy and Boss tie at 120.00; Fancy is canonically first.
    let r = t.calculate(CategorySet::all(), trip);
    assert_eq!(r.price, 120 * CZK);
    assert_eq!(
        r.parts[0],
        BreakdownPart::Category { category: CarCategory::Fancy }
    );
}

#[test]
fn tie_between_package_and_per_minute_keeps_the_package() {
    // A 1 hour + 0 km package priced exactly like thirty day minutes.
    let table = [
        "item\tlegend\tfancy\tboss",
        "Daily: 6:00–20:00, Mon–Sun\t2,00\t2,00\t2,00",
        "Nightly: 20:00–6:00, Mon–Sun\t1,00\t1,00\t1,00",
        "1 hour + 0 km\t60,00\t60,00\t60,00",
        "Km beyond packages\t5,00\t\t",
        "Prague Airport – entry\t100\t\t",
        "Prague Airport – exit\t50\t\t",
    ]
    .join("\n");
    let t = parse_tariff(PricingTier::Basic, &table).unwrap();
    let trip = TripRequest { distance: 0, begin_min: 9 * 60, end_min: 9 * 60 + 30 };
    let r = t.calculate(CategorySet::all(), trip);
    assert_eq!(r.price, 60 * CZK);
    assert_eq!(
        r.parts,
        vec![
            BreakdownPart::Category { category: CarCategory::Legend },
            BreakdownPart::PackageUsed { name: chars("1 hour + 0 km") },
        ]
    );
}

#[test]
fn airport_fees_are_parsed_but_never_charged() {
    // The tariff holds both fees, yet no trip result includes them.
    let t = fixture_tariff();
    assert_eq!(t.airport_entry_price, 10_000_000);
    assert_eq!(t.airport_exit_price, 5_000_000);
    let trip = TripRequest { distance: 0, begin_min: 600, end_min: 660 };
    let r = t.calculate(CategorySet::all(), trip);
    assert_eq!(r.price, 120 * CZK);
}

#[test]
fn package_time_restriction_is_parsed_but_not_enforced() {
    // The weekend package applies to any trip, whatever its start.
    let table = [
        "item\tlegend\tfancy\tboss",
        "Daily: 6:00–20:00, Mon–Sun\t2,00\t2,00\t2,00",
        "Nightly: 20:00–6:00, Mon–Sun\t1,00\t1,00\t1,00",
        "Weekend + 200 km\t100,00\t100,00\t100,00",
        "Km beyond packages\t5,00\t\t",
        "Prague Airport – entry\t100\t\t",
        "Prague Airport – exit\t50\t\t",
    ]
    .join("\n");
    let t = parse_tariff(PricingTier::Basic, &table).unwrap();
    assert!(t.legend.packages[0].restriction.is_some());
    // A long mid-week trip is still allowed to use it.
    let trip = TripRequest { distance: 0, begin_min: 9 * 60, end_min: 9 * 60 + 40 * 60 };
    let r = t.calculate(CategorySet::all(), trip);
    assert_eq!(r.price, 100 * CZK);
}

#[test]
fn catalog_calculates_under_the_selected_tier() {
    let cheap = [
        "item\tlegend\tfancy\tboss",
        "Daily: 6:00–20:00, Mon–Sun\t1,00\t1,00\t1,00",
        "Nightly: 20:00–6:00, Mon–Sun\t1,00\t1,00\t1,00",
        "Km beyond packages\t5,00\t\t",
        "Prague Airport – entry\t100\t\t",
        "Prague Airport – exit\t50\t\t",
    ]
    .join("\n");
    let dear = cheap.replace("1,00", "2,00");
    let catalog =
        tariff_engine::catalog::TariffCatalog::build(&cheap, &dear, &cheap).unwrap();
    let trip = TripRequest { distance: 0, begin_min: 600, end_min: 660 };
    let basic = catalog.calculate(PricingTier::Basic, CategorySet::all(), trip);
    let active = catalog.calculate(PricingTier::Active, CategorySet::all(), trip);
    assert_eq!(basic.price, 60 * CZK);
    assert_eq!(active.price, 120 * CZK);
    let legend = catalog.calculate_for_car(PricingTier::Active, CarCategory::Legend, trip);
    assert_eq!(legend.price, 120 * CZK);
}

#[test]
fn category_set_helpers() {
    let all = CategorySet::all();
    assert!(all.non_empty());
    assert!(all.contains(CarCategory::Legend));
    assert!(all.contains(CarCategory::Fancy));
    assert!(all.contains(CarCategory::Boss));
    let only_boss = CategorySet::single(CarCategory::Boss);
    assert!(only_boss.non_empty());
    assert!(!only_boss.contains(CarCategory::Legend));
    assert!(!only_boss.contains(CarCategory::Fancy));
    assert!(only_boss.contains(CarCategory::Boss));
    let none = CategorySet { legend: false, fancy: false, boss: false };
    assert!(!none.non_empty());
}

#[test]
fn breakdown_renders_as_text() {
    let t = fixture_tariff();
    let trip = TripRequest { distance: 0, begin_min: 19 * 60 + 50, end_min: 20 * 60 + 10 };
    let r = t.calculate(CategorySet::all(), trip);
    let text: String = r.breakdown_text().iter().collect();
    assert_eq!(
        text,
        "Legend (Fabia), per-minute tariff 06:00–20:00, per-minute tariff 20:00–06:00"
    );
}

#[test]
fn breakdown_text_names_package_and_overage() {
    let t = fixture_with_package();
    let pkg = t.legend.packages[0].clone();
    let trip = TripRequest { distance: 25_000, begin_min: 9 * 60, end_min: 10 * 60 };
    let r = t.calculate_for_package(CarCategory::Legend, Some(&pkg), trip);
    let text: String = r.breakdown_text().iter().collect();
    assert_eq!(text, "Legend (Fabia), 1 hour + 20 km, extra distance");
}

#[test]
fn handbuilt_tariff_behaves_like_a_parsed_one() {
    // The calculator runs on any well-formed tariff, not only parsed
    // ones.
    let car = CarTariff {
        rates: vec![
            RateWindow { start_min: 360, end_min: 1200, price_per_minute: 200_000 },
            RateWindow { start_min: 1200, end_min: 360, price_per_minute: 100_000 },
        ],
        packages: vec![Package {
            name: chars("1 hour + 20 km"),
            duration_min: 60,
            included_km: 20_000,
            price: 30_000_000,
            restriction: None,
        }],
    };
    let t = Tariff {
        kind: PricingTier::Basic,
        legend: car.clone(),
        fancy: car.clone(),
        boss: car,
        per_km_price: 500_000,
        airport_entry_price: 10_000_000,
        airport_exit_price: 5_000_000,
    };
    let parsed = fixture_with_package();
    let trip = TripRequest { distance: 22_000, begin_min: 9 * 60, end_min: 11 * 60 };
    assert_eq!(
        t.calculate(CategorySet::all(), trip),
        parsed.calculate(CategorySet::all(), trip)
    );
}
