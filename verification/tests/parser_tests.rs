use tariff_engine::catalog::TariffCatalog;
use tariff_engine::model::{CarCategory, PricingTier, Weekday};
use tariff_engine::parser::{parse_tariff, TariffError, TariffField};

fn chars(s: &str) -> Vec<char> {
    s.chars().collect()
}

fn full_table() -> String {
    [
        "item\tlegend\tfancy\tboss",
        "Daily: 6:00–20:00, Mon–Sun\t2,00\t3,50\t4,00",
        "Nightly: 20:00–6:00, Mon–Sun\t1,00\t1,50\t2,00",
        "Advantageous packages\t\t\t",
        "1 hour + 20 km\t300,00\t350,00\t400,00",
        "3 hours + 50 km\t700,00\t800,00\t900,00",
        "2 days + 100 km\t2 000,00\t2 500,00\t3 000,00",
        "Weekend + 200 km\t3000\t3500\t4000",
        "Km beyond packages\t5,00\t\t",
        "Prague Airport – entry\t\t100\t",
        "Prague Airport – exit\t\t\t50",
    ]
    .join("\n")
}

#[test]
fn test_load_tariffs() {
    let table = full_table();
    let catalog = TariffCatalog::build(&table, &table, &table);
    assert!(catalog.is_ok());
    let catalog = catalog.unwrap();
    assert_eq!(catalog.basic.kind, PricingTier::Basic);
    assert_eq!(catalog.active.kind, PricingTier::Active);
    assert_eq!(catalog.business.kind, PricingTier::Business);
}

#[test]
fn category_display_names() {
    assert_eq!(CarCategory::Legend.display_name(), "Legend (Fabia)");
    assert_eq!(
        CarCategory::Fancy.display_name(),
        "Fancy (Scala, Karoq, Octavia, Caddy Van)"
    );
    assert_eq!(CarCategory::Boss.display_name(), "Boss (Superb, Kodiaq)");
    assert_eq!(PricingTier::default(), PricingTier::Basic);
}

#[test]
fn catalog_lookup_returns_each_tier() {
    let table = full_table();
    let catalog = TariffCatalog::build(&table, &table, &table).unwrap();
    assert_eq!(catalog.tariff(PricingTier::Basic).kind, PricingTier::Basic);
    assert_eq!(catalog.tariff(PricingTier::Active).kind, PricingTier::Active);
    assert_eq!(
        catalog.tariff(PricingTier::Business).kind,
        PricingTier::Business
    );
}

#[test]
fn parses_day_and_night_rates() {
    let t = parse_tariff(PricingTier::Basic, &full_table()).unwrap();
    assert_eq!(t.legend.rates.len(), 2);
    let day = t.legend.rates[0];
    assert_eq!(day.start_min, 360);
    assert_eq!(day.end_min, 1200);
    assert_eq!(day.price_per_minute, 200_000);
    let night = t.legend.rates[1];
    assert_eq!(night.start_min, 1200);
    assert_eq!(night.end_min, 360);
    assert_eq!(night.price_per_minute, 100_000);
    assert_eq!(t.fancy.rates[0].price_per_minute, 350_000);
    assert_eq!(t.boss.rates[1].price_per_minute, 200_000);
}

#[test]
fn parses_scalars_with_single_value_rows() {
    let t = parse_tariff(PricingTier::Basic, &full_table()).unwrap();
    assert_eq!(t.per_km_price, 500_000);
    assert_eq!(t.airport_entry_price, 10_000_000);
    assert_eq!(t.airport_exit_price, 5_000_000);
}

#[test]
fn parses_packages_in_table_order() {
    let t = parse_tariff(PricingTier::Basic, &full_table()).unwrap();
    assert_eq!(t.legend.packages.len(), 4);
    let hour = &t.legend.packages[0];
    assert_eq!(hour.name, chars("1 hour + 20 km"));
    assert_eq!(hour.duration_min, 60);
    assert_eq!(hour.included_km, 20_000);
    assert_eq!(hour.price, 30_000_000);
    assert!(hour.restriction.is_none());
    let three = &t.legend.packages[1];
    assert_eq!(three.duration_min, 180);
    assert_eq!(three.included_km, 50_000);
    let days = &t.legend.packages[2];
    assert_eq!(days.name, chars("2 days + 100 km"));
    assert_eq!(days.duration_min, 2 * 1440);
    assert_eq!(days.included_km, 100_000);
    // Normalization strips the thousands space: "2 000,00" CZK.
    assert_eq!(days.price, 200_000_000);
    // Per-category prices differ down the row.
    assert_eq!(t.fancy.packages[0].price, 35_000_000);
    assert_eq!(t.boss.packages[0].price, 40_000_000);
}

#[test]
fn parses_weekend_package_with_restriction() {
    let t = parse_tariff(PricingTier::Basic, &full_table()).unwrap();
    let weekend = &t.legend.packages[3];
    assert_eq!(weekend.name, chars("Weekend + 200 km"));
    assert_eq!(weekend.duration_min, (8 + 24 + 24 + 10) * 60);
    assert_eq!(weekend.included_km, 200_000);
    assert_eq!(weekend.price, 300_000_000);
    let restriction = weekend.restriction.unwrap();
    assert_eq!(restriction.from.weekday, Weekday::Friday);
    assert_eq!(restriction.from.minute_of_day, 16 * 60);
    assert_eq!(restriction.to.weekday, Weekday::Monday);
    assert_eq!(restriction.to.minute_of_day, 10 * 60);
}

#[test]
fn accepts_full_header_aliases_in_any_column_order() {
    let table = [
        "Minute tariff (km included)\tBoss Superb / Kodiaq\tLegend Fabia\tFancy Scala, Karoq, Octavia, Caddy Van",
        "Daily: 6:00–20:00, Mon–Sun\t4,00\t2,00\t3,50",
        "Nightly: 20:00–6:00, Mon–Sun\t2,00\t1,00\t1,50",
        "Km beyond packages\t\t5,00\t",
        "Prague Airport – entry\t100\t\t",
        "Prague Airport – exit\t50\t\t",
    ]
    .join("\n");
    let t = parse_tariff(PricingTier::Active, &table).unwrap();
    assert_eq!(t.legend.rates[0].price_per_minute, 200_000);
    assert_eq!(t.fancy.rates[0].price_per_minute, 350_000);
    assert_eq!(t.boss.rates[0].price_per_minute, 400_000);
}

#[test]
fn unrecognized_row_label_fails_naming_the_label() {
    let table = [
        "item\tlegend\tfancy\tboss",
        "Daily: 6:00–20:00, Mon–Sun\t2,00\t3,50\t4,00",
        "Nonsense row\t1\t2\t3",
    ]
    .join("\n");
    let e = parse_tariff(PricingTier::Basic, &table).unwrap_err();
    assert_eq!(e, TariffError::UnrecognizedRow { label: chars("Nonsense row") });
}

#[test]
fn unrecognized_row_fails_catalog_build_naming_tier_and_label() {
    let good = full_table();
    let bad = [
        "item\tlegend\tfancy\tboss",
        "Nonsense row\t1\t2\t3",
    ]
    .join("\n");
    let e = TariffCatalog::build(&good, &bad, &good).unwrap_err();
    assert_eq!(e.tier, PricingTier::Active);
    assert_eq!(e.error, TariffError::UnrecognizedRow { label: chars("Nonsense row") });
}

#[test]
fn malformed_price_cell_fails_naming_the_cell() {
    let table = [
        "item\tlegend\tfancy\tboss",
        "Daily: 6:00–20:00, Mon–Sun\t2,x0\t3,50\t4,00",
    ]
    .join("\n");
    let e = parse_tariff(PricingTier::Basic, &table).unwrap_err();
    assert_eq!(e, TariffError::MalformedNumber { raw: chars("2,x0") });
}

#[test]
fn malformed_cell_wins_over_label_classification() {
    // The row's cells are read before its label is matched, so a bad
    // number in an otherwise ignored section row still fails.
    let table = [
        "item\tlegend\tfancy\tboss",
        "Advantageous packages\tabc\t\t",
    ]
    .join("\n");
    let e = parse_tariff(PricingTier::Basic, &table).unwrap_err();
    assert_eq!(e, TariffError::MalformedNumber { raw: chars("abc") });
}

#[test]
fn oversized_package_count_is_malformed() {
    let table = [
        "item\tlegend\tfancy\tboss",
        "1234567890123 hours + 5 km\t10\t10\t10",
    ]
    .join("\n");
    let e = parse_tariff(PricingTier::Basic, &table).unwrap_err();
    assert_eq!(e, TariffError::MalformedNumber { raw: chars("1234567890123") });
}

#[test]
fn rate_row_with_empty_cell_is_incomplete() {
    let table = [
        "item\tlegend\tfancy\tboss",
        "Daily: 6:00–20:00, Mon–Sun\t2,00\t3,50\t",
    ]
    .join("\n");
    let e = parse_tariff(PricingTier::Basic, &table).unwrap_err();
    assert_eq!(
        e,
        TariffError::IncompletePriceRow { label: chars("Daily: 6:00–20:00, Mon–Sun") }
    );
}

#[test]
fn single_value_row_with_two_values_is_incomplete() {
    let table = [
        "item\tlegend\tfancy\tboss",
        "Daily: 6:00–20:00, Mon–Sun\t2,00\t3,50\t4,00",
        "Nightly: 20:00–6:00, Mon–Sun\t1,00\t1,50\t2,00",
        "Km beyond packages\t5,00\t6,00\t",
    ]
    .join("\n");
    let e = parse_tariff(PricingTier::Basic, &table).unwrap_err();
    assert_eq!(e, TariffError::IncompletePriceRow { label: chars("Km beyond packages") });
}

#[test]
fn missing_day_rate_is_reported() {
    let table = [
        "item\tlegend\tfancy\tboss",
        "Nightly: 20:00–6:00, Mon–Sun\t1,00\t1,50\t2,00",
        "Km beyond packages\t5,00\t\t",
        "Prague Airport – entry\t100\t\t",
        "Prague Airport – exit\t50\t\t",
    ]
    .join("\n");
    let e = parse_tariff(PricingTier::Business, &table).unwrap_err();
    assert_eq!(
        e,
        TariffError::MissingTariffField {
            tier: PricingTier::Business,
            field: TariffField::DayRate(CarCategory::Legend),
        }
    );
}

#[test]
fn missing_per_km_price_is_reported() {
    let table = [
        "item\tlegend\tfancy\tboss",
        "Daily: 6:00–20:00, Mon–Sun\t2,00\t3,50\t4,00",
        "Nightly: 20:00–6:00, Mon–Sun\t1,00\t1,50\t2,00",
        "Prague Airport – entry\t100\t\t",
        "Prague Airport – exit\t50\t\t",
    ]
    .join("\n");
    let e = parse_tariff(PricingTier::Basic, &table).unwrap_err();
    assert_eq!(
        e,
        TariffError::MissingTariffField {
            tier: PricingTier::Basic,
            field: TariffField::PerKilometre,
        }
    );
}

#[test]
fn header_without_label_column_is_rejected() {
    let table = ["foo\tbar", "Daily: 6:00–20:00, Mon–Sun\t2,00"].join("\n");
    let e = parse_tariff(PricingTier::Basic, &table).unwrap_err();
    assert_eq!(e, TariffError::MissingLabelColumn);
    let e = parse_tariff(PricingTier::Basic, "").unwrap_err();
    assert_eq!(e, TariffError::MissingLabelColumn);
}

#[test]
fn blank_lines_and_windows_line_endings_are_tolerated() {
    let table = "item\tlegend\tfancy\tboss\r\n\r\nDaily: 6:00–20:00, Mon–Sun\t 2,00 \t3,50\t4,00\r\nNightly: 20:00–6:00, Mon–Sun\t1,00\t1,50\t2,00\r\nKm beyond packages\t5,00\t\t\r\nPrague Airport – entry\t100\t\t\r\nPrague Airport – exit\t50\t\t\r\n";
    let t = parse_tariff(PricingTier::Basic, table).unwrap();
    assert_eq!(t.legend.rates[0].price_per_minute, 200_000);
}

#[test]
fn missing_price_column_reads_as_empty_cells() {
    // Without a boss column every three-price row is incomplete.
    let table = [
        "item\tlegend\tfancy",
        "Daily: 6:00–20:00, Mon–Sun\t2,00\t3,50",
    ]
    .join("\n");
    let e = parse_tariff(PricingTier::Basic, &table).unwrap_err();
    assert_eq!(
        e,
        TariffError::IncompletePriceRow { label: chars("Daily: 6:00–20:00, Mon–Sun") }
    );
}
