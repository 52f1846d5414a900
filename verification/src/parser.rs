//! Tariff table parser: one raw tab-separated table per pricing tier
//! becomes a fully populated `Tariff`, or the parse fails naming the
//! offending row, cell or missing field.
//!
//! The first row is a header whose cells identify the label column and
//! the three car-category price columns.  Every further row is read in
//! two steps: first the three price cells are parsed (a malformed cell
//! fails the row at once), then the label is classified by an ordered
//! list of matchers, first match wins.

use vstd::prelude::*;
use crate::model::{
    packages_view, rate_covered, CarCategory, CarTariff, Package, PackageV, PricingTier,
    RateWindow, Tariff, TimeRestriction, Weekday, WeekdayTime, KM_SCALE, MINUTES_PER_DAY,
    MONEY_LIMIT, PACKAGE_DURATION_LIMIT, PACKAGE_KM_LIMIT,
};
use crate::numbers::{digits_value, parse_cell, spec_cell_value, spec_digits_val, CellValue};
use crate::labels::{find_package_match, spec_pkg_match};
use crate::text::{
    cells_view, chars_eq, clone_chars, rows_view, spec_table, str_to_chars, subvec, tokenize,
};

verus! {

/// Start of the day rate window, in minutes after midnight (06:00).
pub const DAY_START_MIN: u16 = 360;

/// Start of the night rate window, in minutes after midnight (20:00).
pub const NIGHT_START_MIN: u16 = 1200;

/// Duration of the weekend package: Friday evening through Monday
/// morning (8 + 24 + 24 + 10 hours).
pub const WEEKEND_PACKAGE_MINUTES: u64 = (8 + 24 + 24 + 10) * 60;

/// Included distance of the weekend package, in distance units.
pub const WEEKEND_PACKAGE_KM: u64 = 200 * 1000;

/// Minute of day at which the weekend package becomes valid (16:00).
pub const WEEKEND_FROM_MIN: u16 = 960;

/// Minute of day at which the weekend package validity ends (10:00).
pub const WEEKEND_TO_MIN: u16 = 600;

/// A required tariff field that a finished table failed to populate.
#[derive(Clone, Copy, PartialEq, Eq, Structural, Debug)]
pub enum TariffField {
    DayRate(CarCategory),
    NightRate(CarCategory),
    PerKilometre,
    AirportEntry,
    AirportExit,
}

/// Why a tariff table failed to parse.  Every failure is fatal at
/// catalog build time: the tables are versioned build inputs.
#[derive(Clone, PartialEq, Eq, Debug)]
pub enum TariffError {
    /// A row's label matched no known pattern; the label is named.
    UnrecognizedRow { label: Vec<char> },
    /// A row required prices it did not have: a needed cell was empty,
    /// or a single-value row did not hold exactly one value.
    IncompletePriceRow { label: Vec<char> },
    /// A required scalar or per-minute rate was never populated.
    MissingTariffField { tier: PricingTier, field: TariffField },
    /// A cell (or a count inside a label) is not a representable
    /// localized decimal; the offending characters are named.
    MalformedNumber { raw: Vec<char> },
    /// No header cell names the label column.
    MissingLabelColumn,
}

/// Mathematical view of a `TariffError`.
pub enum ErrorV {
    UnrecognizedRow { label: Seq<char> },
    IncompletePriceRow { label: Seq<char> },
    MissingTariffField { tier: PricingTier, field: TariffField },
    MalformedNumber { raw: Seq<char> },
    MissingLabelColumn,
}

impl View for TariffError {
    type V = ErrorV;

    open spec fn view(&self) -> ErrorV {
        match self {
            TariffError::UnrecognizedRow { label } => ErrorV::UnrecognizedRow { label: label@ },
            TariffError::IncompletePriceRow { label } => ErrorV::IncompletePriceRow {
                label: label@,
            },
            TariffError::MissingTariffField { tier, field } => ErrorV::MissingTariffField {
                tier: *tier,
                field: *field,
            },
            TariffError::MalformedNumber { raw } => ErrorV::MalformedNumber { raw: raw@ },
            TariffError::MissingLabelColumn => ErrorV::MissingLabelColumn,
        }
    }
}

/// Mathematical view of a per-category tariff.
#[verifier::ext_equal]
pub struct CarTariffV {
    pub rates: Seq<RateWindow>,
    pub packages: Seq<PackageV>,
}

impl View for CarTariff {
    type V = CarTariffV;

    open spec fn view(&self) -> CarTariffV {
        CarTariffV { rates: self.rates@, packages: packages_view(self.packages@) }
    }
}

/// Mathematical view of a tariff.
#[verifier::ext_equal]
pub struct TariffV {
    pub kind: PricingTier,
    pub legend: CarTariffV,
    pub fancy: CarTariffV,
    pub boss: CarTariffV,
    pub per_km: u64,
    pub airport_entry: u64,
    pub airport_exit: u64,
}

impl View for Tariff {
    type V = TariffV;

    open spec fn view(&self) -> TariffV {
        TariffV {
            kind: self.kind,
            legend: self.legend@,
            fancy: self.fancy@,
            boss: self.boss@,
            per_km: self.per_km_price,
            airport_entry: self.airport_entry_price,
            airport_exit: self.airport_exit_price,
        }
    }
}

/// Which column of the table a header cell can name.
#[derive(Clone, Copy, PartialEq, Eq, Structural, Debug)]
pub enum ColumnSel {
    Label,
    Price(CarCategory),
}

/// The fixed header aliases: each column is named either by a short
/// name or by the full header written in the source tables.
pub open spec fn spec_header_matches(sel: ColumnSel, cell: Seq<char>) -> bool {
    match sel {
        ColumnSel::Label => cell == "item"@ || cell == "Minute tariff (km included)"@,
        ColumnSel::Price(CarCategory::Legend) => cell == "legend"@ || cell == "Legend Fabia"@,
        ColumnSel::Price(CarCategory::Fancy) => cell == "fancy"@ || cell
            == "Fancy Scala, Karoq, Octavia, Caddy Van"@,
        ColumnSel::Price(CarCategory::Boss) => cell == "boss"@ || cell == "Boss Superb / Kodiaq"@,
    }
}

/// First header cell matching the column, if any.
pub open spec fn spec_find_col(header: Seq<Seq<char>>, sel: ColumnSel) -> Option<int>
    decreases header.len(),
{
    if header.len() == 0 {
        None
    } else if spec_header_matches(sel, header[0]) {
        Some(0int)
    } else {
        match spec_find_col(header.drop_first(), sel) {
            None => None,
            Some(i) => Some(i + 1),
        }
    }
}

/// The header's column assignment.
pub struct ColMapV {
    pub label: int,
    pub legend: Option<int>,
    pub fancy: Option<int>,
    pub boss: Option<int>,
}

/// The cell of a row in an optional column: absent columns and rows
/// too short for the column read as the empty cell.
pub open spec fn spec_cell_at(row: Seq<Seq<char>>, idx: Option<int>) -> Seq<char> {
    match idx {
        None => Seq::<char>::empty(),
        Some(i) => if 0 <= i < row.len() {
            row[i]
        } else {
            Seq::<char>::empty()
        },
    }
}

/// How a row's label is classified, with the two digit-run captures
/// for package rows.
pub enum LabelClass {
    DayRate,
    NightRate,
    Section,
    HourPackage(Seq<char>, Seq<char>),
    DayPackage(Seq<char>, Seq<char>),
    WeekendPackage,
    PerKm,
    AirportEntry,
    AirportExit,
    Unknown,
}

/// The ordered label matchers; the first match wins.
pub open spec fn spec_classify(label: Seq<char>) -> LabelClass {
    if label == "Daily: 6:00–20:00, Mon–Sun"@ {
        LabelClass::DayRate
    } else if label == "Nightly: 20:00–6:00, Mon–Sun"@ {
        LabelClass::NightRate
    } else if label == "Advantageous packages"@ {
        LabelClass::Section
    } else if spec_pkg_match(label, "hour"@) is Some {
        LabelClass::HourPackage(
            spec_pkg_match(label, "hour"@)->Some_0.0,
            spec_pkg_match(label, "hour"@)->Some_0.1,
        )
    } else if spec_pkg_match(label, "day"@) is Some {
        LabelClass::DayPackage(
            spec_pkg_match(label, "day"@)->Some_0.0,
            spec_pkg_match(label, "day"@)->Some_0.1,
        )
    } else if label == "Weekend + 200 km"@ {
        LabelClass::WeekendPackage
    } else if label == "Km beyond packages"@ {
        LabelClass::PerKm
    } else if label == "Prague Airport – entry"@ {
        LabelClass::AirportEntry
    } else if label == "Prague Airport – exit"@ {
        LabelClass::AirportExit
    } else {
        LabelClass::Unknown
    }
}

/// The parser's accumulating state: what the rows read so far have
/// populated.
#[verifier::ext_equal]
pub struct StateV {
    pub day: Option<(u64, u64, u64)>,
    pub night: Option<(u64, u64, u64)>,
    pub packages_legend: Seq<PackageV>,
    pub packages_fancy: Seq<PackageV>,
    pub packages_boss: Seq<PackageV>,
    pub per_km: Option<u64>,
    pub airport_entry: Option<u64>,
    pub airport_exit: Option<u64>,
}

/// The state before any row is read.
pub open spec fn spec_init_state() -> StateV {
    StateV {
        day: None,
        night: None,
        packages_legend: Seq::<PackageV>::empty(),
        packages_fancy: Seq::<PackageV>::empty(),
        packages_boss: Seq::<PackageV>::empty(),
        per_km: None,
        airport_entry: None,
        airport_exit: None,
    }
}

/// The three price cells of a row, parsed in canonical category order;
/// the first malformed cell fails the row.
pub open spec fn spec_row_prices(row: Seq<Seq<char>>, cols: ColMapV) -> Result<
    (Option<u64>, Option<u64>, Option<u64>),
    ErrorV,
> {
    let lc = spec_cell_value(spec_cell_at(row, cols.legend));
    let fc = spec_cell_value(spec_cell_at(row, cols.fancy));
    let bc = spec_cell_value(spec_cell_at(row, cols.boss));
    if lc is Malformed {
        Err(ErrorV::MalformedNumber { raw: spec_cell_at(row, cols.legend) })
    } else if fc is Malformed {
        Err(ErrorV::MalformedNumber { raw: spec_cell_at(row, cols.fancy) })
    } else if bc is Malformed {
        Err(ErrorV::MalformedNumber { raw: spec_cell_at(row, cols.boss) })
    } else {
        Ok(
            (
                if lc is Price {
                    Some(lc->Price_0)
                } else {
                    None
                },
                if fc is Price {
                    Some(fc->Price_0)
                } else {
                    None
                },
                if bc is Price {
                    Some(bc->Price_0)
                } else {
                    None
                },
            ),
        )
    }
}

/// The single value of a row that must hold exactly one non-empty
/// price cell.
pub open spec fn spec_only(prices: (Option<u64>, Option<u64>, Option<u64>)) -> Option<u64> {
    match prices {
        (Some(v), None, None) => Some(v),
        (None, Some(v), None) => Some(v),
        (None, None, Some(v)) => Some(v),
        _ => None,
    }
}

/// One package row's packages, one per category, sharing the label as
/// name and the row-wide duration, allowance and restriction.
pub open spec fn spec_push_packages(
    st: StateV,
    label: Seq<char>,
    duration_min: u64,
    included_km: u64,
    prices: (u64, u64, u64),
    restriction: Option<TimeRestriction>,
) -> StateV {
    StateV {
        packages_legend: st.packages_legend.push(
            PackageV {
                name: label,
                duration_min,
                included_km,
                price: prices.0,
                restriction,
            },
        ),
        packages_fancy: st.packages_fancy.push(
            PackageV {
                name: label,
                duration_min,
                included_km,
                price: prices.1,
                restriction,
            },
        ),
        packages_boss: st.packages_boss.push(
            PackageV {
                name: label,
                duration_min,
                included_km,
                price: prices.2,
                restriction,
            },
        ),
        ..st
    }
}

/// The weekend package's validity window: Friday 16:00 through Monday
/// 10:00; parsed, never enforced in calculation.
pub open spec fn spec_weekend_restriction() -> TimeRestriction {
    TimeRestriction {
        from: WeekdayTime { weekday: Weekday::Friday, minute_of_day: WEEKEND_FROM_MIN },
        to: WeekdayTime { weekday: Weekday::Monday, minute_of_day: WEEKEND_TO_MIN },
    }
}

/// Apply one package row: the two captured counts must each fit in
/// twelve digits, and every category needs a price.
pub open spec fn spec_apply_package_row(
    st: StateV,
    label: Seq<char>,
    n_run: Seq<char>,
    km_run: Seq<char>,
    unit_minutes: u64,
    prices: (Option<u64>, Option<u64>, Option<u64>),
) -> Result<StateV, ErrorV> {
    if n_run.len() > 12 {
        Err(ErrorV::MalformedNumber { raw: n_run })
    } else if km_run.len() > 12 {
        Err(ErrorV::MalformedNumber { raw: km_run })
    } else {
        match prices {
            (Some(l), Some(f), Some(b)) => Ok(
                spec_push_packages(
                    st,
                    label,
                    (spec_digits_val(n_run) * unit_minutes) as u64,
                    (spec_digits_val(km_run) * KM_SCALE) as u64,
                    (l, f, b),
                    None,
                ),
            ),
            _ => Err(ErrorV::IncompletePriceRow { label }),
        }
    }
}

/// Apply one data row to the state: prices first, then the label,
/// classified by the ordered matchers.
pub open spec fn spec_apply_row(st: StateV, row: Seq<Seq<char>>, cols: ColMapV) -> Result<
    StateV,
    ErrorV,
> {
    match spec_row_prices(row, cols) {
        Err(e) => Err(e),
        Ok(prices) => {
            let label = spec_cell_at(row, Some(cols.label));
            match spec_classify(label) {
                LabelClass::DayRate => match prices {
                    (Some(l), Some(f), Some(b)) => Ok(StateV { day: Some((l, f, b)), ..st }),
                    _ => Err(ErrorV::IncompletePriceRow { label }),
                },
                LabelClass::NightRate => match prices {
                    (Some(l), Some(f), Some(b)) => Ok(StateV { night: Some((l, f, b)), ..st }),
                    _ => Err(ErrorV::IncompletePriceRow { label }),
                },
                LabelClass::Section => Ok(st),
                LabelClass::HourPackage(n_run, km_run) => spec_apply_package_row(
                    st,
                    label,
                    n_run,
                    km_run,
                    60,
                    prices,
                ),
                LabelClass::DayPackage(n_run, km_run) => spec_apply_package_row(
                    st,
                    label,
                    n_run,
                    km_run,
                    1440,
                    prices,
                ),
                LabelClass::WeekendPackage => match prices {
                    (Some(l), Some(f), Some(b)) => Ok(
                        spec_push_packages(
                            st,
                            label,
                            WEEKEND_PACKAGE_MINUTES,
                            WEEKEND_PACKAGE_KM,
                            (l, f, b),
                            Some(spec_weekend_restriction()),
                        ),
                    ),
                    _ => Err(ErrorV::IncompletePriceRow { label }),
                },
                LabelClass::PerKm => match spec_only(prices) {
                    Some(v) => Ok(StateV { per_km: Some(v), ..st }),
                    None => Err(ErrorV::IncompletePriceRow { label }),
                },
                LabelClass::AirportEntry => match spec_only(prices) {
                    Some(v) => Ok(StateV { airport_entry: Some(v), ..st }),
                    None => Err(ErrorV::IncompletePriceRow { label }),
                },
                LabelClass::AirportExit => match spec_only(prices) {
                    Some(v) => Ok(StateV { airport_exit: Some(v), ..st }),
                    None => Err(ErrorV::IncompletePriceRow { label }),
                },
                LabelClass::Unknown => Err(ErrorV::UnrecognizedRow { label }),
            }
        },
    }
}

/// Fold the data rows over the state, stopping at the first failure.
pub open spec fn spec_parse_rows(st: StateV, rows: Seq<Seq<Seq<char>>>, cols: ColMapV) -> Result<
    StateV,
    ErrorV,
>
    decreases rows.len(),
{
    if rows.len() == 0 {
        Ok(st)
    } else {
        match spec_apply_row(st, rows[0], cols) {
            Err(e) => Err(e),
            Ok(st2) => spec_parse_rows(st2, rows.drop_first(), cols),
        }
    }
}

/// The two per-minute rate windows of one category: the day window
/// `[06:00, 20:00)` and the midnight-wrapping night window
/// `[20:00, 06:00)`.
pub open spec fn spec_rates_of(day_price: u64, night_price: u64) -> Seq<RateWindow> {
    seq![
        RateWindow {
            start_min: DAY_START_MIN,
            end_min: NIGHT_START_MIN,
            price_per_minute: day_price,
        },
        RateWindow {
            start_min: NIGHT_START_MIN,
            end_min: DAY_START_MIN,
            price_per_minute: night_price,
        },
    ]
}

/// After all rows are read, every required field must be populated;
/// the finished tariff owns the two rate windows and the packages of
/// each category, and the tier-wide scalars.
pub open spec fn spec_finalize(tier: PricingTier, st: StateV) -> Result<TariffV, ErrorV> {
    if st.day is None {
        Err(
            ErrorV::MissingTariffField {
                tier,
                field: TariffField::DayRate(CarCategory::Legend),
            },
        )
    } else if st.night is None {
        Err(
            ErrorV::MissingTariffField {
                tier,
                field: TariffField::NightRate(CarCategory::Legend),
            },
        )
    } else if st.per_km is None {
        Err(ErrorV::MissingTariffField { tier, field: TariffField::PerKilometre })
    } else if st.airport_entry is None {
        Err(ErrorV::MissingTariffField { tier, field: TariffField::AirportEntry })
    } else if st.airport_exit is None {
        Err(ErrorV::MissingTariffField { tier, field: TariffField::AirportExit })
    } else {
        let day = st.day->Some_0;
        let night = st.night->Some_0;
        Ok(
            TariffV {
                kind: tier,
                legend: CarTariffV {
                    rates: spec_rates_of(day.0, night.0),
                    packages: st.packages_legend,
                },
                fancy: CarTariffV {
                    rates: spec_rates_of(day.1, night.1),
                    packages: st.packages_fancy,
                },
                boss: CarTariffV {
                    rates: spec_rates_of(day.2, night.2),
                    packages: st.packages_boss,
                },
                per_km: st.per_km->Some_0,
                airport_entry: st.airport_entry->Some_0,
                airport_exit: st.airport_exit->Some_0,
            },
        )
    }
}

/// What parsing a whole raw table means: tokenize, read the header's
/// column assignment, fold the data rows, and demand every required
/// field.
pub open spec fn spec_parse_tariff(tier: PricingTier, s: Seq<char>) -> Result<TariffV, ErrorV> {
    let rows = spec_table(s);
    if rows.len() == 0 {
        Err(ErrorV::MissingLabelColumn)
    } else {
        match spec_find_col(rows[0], ColumnSel::Label) {
            None => Err(ErrorV::MissingLabelColumn),
            Some(lc) => {
                let cols = ColMapV {
                    label: lc,
                    legend: spec_find_col(rows[0], ColumnSel::Price(CarCategory::Legend)),
                    fancy: spec_find_col(rows[0], ColumnSel::Price(CarCategory::Fancy)),
                    boss: spec_find_col(rows[0], ColumnSel::Price(CarCategory::Boss)),
                };
                match spec_parse_rows(spec_init_state(), rows.drop_first(), cols) {
                    Err(e) => Err(e),
                    Ok(st) => spec_finalize(tier, st),
                }
            },
        }
    }
}

/// Executable header matcher.
fn header_matches(sel: ColumnSel, cell: &Vec<char>) -> (r: bool)
    ensures
        r == spec_header_matches(sel, cell@),
{
    match sel {
        ColumnSel::Label => {
            let a = str_to_chars("item");
            let b = str_to_chars("Minute tariff (km included)");
            chars_eq(cell, &a) || chars_eq(cell, &b)
        },
        ColumnSel::Price(CarCategory::Legend) => {
            let a = str_to_chars("legend");
            let b = str_to_chars("Legend Fabia");
            chars_eq(cell, &a) || chars_eq(cell, &b)
        },
        ColumnSel::Price(CarCategory::Fancy) => {
            let a = str_to_chars("fancy");
            let b = str_to_chars("Fancy Scala, Karoq, Octavia, Caddy Van");
            chars_eq(cell, &a) || chars_eq(cell, &b)
        },
        ColumnSel::Price(CarCategory::Boss) => {
            let a = str_to_chars("boss");
            let b = str_to_chars("Boss Superb / Kodiaq");
            chars_eq(cell, &a) || chars_eq(cell, &b)
        },
    }
}

/// The first matching header cell stops the search.
proof fn lemma_find_col_first(header: Seq<Seq<char>>, sel: ColumnSel, upto: int)
    requires
        0 <= upto < header.len(),
        spec_header_matches(sel, header[upto]),
        forall|j: int| 0 <= j < upto ==> !spec_header_matches(sel, #[trigger] header[j]),
    ensures
        spec_find_col(header, sel) == Some(upto),
    decreases upto,
{
    if upto > 0 {
        assert forall|j: int|
            0 <= j < upto - 1 implies !spec_header_matches(
            sel,
            #[trigger] header.drop_first()[j],
        ) by {
            assert(!spec_header_matches(sel, header[j + 1]));
        }
        lemma_find_col_first(header.drop_first(), sel, upto - 1);
    }
}

/// A header with no matching cell yields no column.
proof fn lemma_find_col_none(header: Seq<Seq<char>>, sel: ColumnSel)
    requires
        forall|j: int| 0 <= j < header.len() ==> !spec_header_matches(sel, #[trigger] header[j]),
    ensures
        spec_find_col(header, sel) is None,
    decreases header.len(),
{
    if header.len() > 0 {
        assert forall|j: int|
            0 <= j < header.len() - 1 implies !spec_header_matches(
            sel,
            #[trigger] header.drop_first()[j],
        ) by {
            assert(!spec_header_matches(sel, header[j + 1]));
        }
        lemma_find_col_none(header.drop_first(), sel);
    }
}

/// First header cell matching the column, executably.
#[verifier::loop_isolation(false)]
fn find_col(header: &Vec<Vec<char>>, sel: ColumnSel) -> (r: Option<usize>)
    ensures
        match r {
            Some(i) => i < header@.len() && spec_find_col(cells_view(header@), sel) == Some(
                i as int,
            ),
            None => spec_find_col(cells_view(header@), sel) is None,
        },
{
    let mut i: usize = 0;
    while i < header.len()
        invariant
            i <= header@.len(),
            forall|j: int|
                0 <= j < i ==> !spec_header_matches(sel, #[trigger] cells_view(header@)[j]),
        decreases header@.len() - i,
    {
        if header_matches(sel, &header[i]) {
            proof {
                assert(cells_view(header@)[i as int] == header@[i as int]@);
                lemma_find_col_first(cells_view(header@), sel, i as int);
            }
            return Some(i);
        }
        proof {
            assert(cells_view(header@)[i as int] == header@[i as int]@);
        }
        i = i + 1;
    }
    proof {
        lemma_find_col_none(cells_view(header@), sel);
    }
    None
}

/// The view of an optional column index.
pub open spec fn opt_idx(i: Option<usize>) -> Option<int> {
    match i {
        None => None,
        Some(i) => Some(i as int),
    }
}

/// Copy of the cell of a row in an optional column; absent columns and
/// rows too short for the column read as the empty cell.
fn cell_at(row: &Vec<Vec<char>>, idx: Option<usize>) -> (r: Vec<char>)
    ensures
        r@ == spec_cell_at(cells_view(row@), opt_idx(idx)),
{
    match idx {
        None => Vec::new(),
        Some(i) => {
            if i < row.len() {
                proof {
                    assert(cells_view(row@)[i as int] == row@[i as int]@);
                }
                clone_chars(&row[i])
            } else {
                Vec::new()
            }
        },
    }
}

/// Executable single-value extraction.
fn only3(prices: (Option<u64>, Option<u64>, Option<u64>)) -> (r: Option<u64>)
    ensures
        r == spec_only(prices),
{
    match prices {
        (Some(v), None, None) => Some(v),
        (None, Some(v), None) => Some(v),
        (None, None, Some(v)) => Some(v),
        _ => None,
    }
}

/// Executable row-label classification, with capture bounds for the
/// package patterns.
enum LabelKind {
    DayRate,
    NightRate,
    Section,
    HourPackage(usize, usize, usize, usize),
    DayPackage(usize, usize, usize, usize),
    WeekendPackage,
    PerKm,
    AirportEntry,
    AirportExit,
    Unknown,
}

/// Classify one row label by the ordered matchers.
fn classify_label(label: &Vec<char>) -> (r: LabelKind)
    ensures
        ({
            let c = spec_classify(label@);
            match r {
                LabelKind::DayRate => c == LabelClass::DayRate,
                LabelKind::NightRate => c == LabelClass::NightRate,
                LabelKind::Section => c == LabelClass::Section,
                LabelKind::HourPackage(a, b, x, y) => {
                    &&& c == (LabelClass::HourPackage(
                        label@.subrange(a as int, b as int),
                        label@.subrange(x as int, y as int),
                    ))
                    &&& a < b <= label@.len()
                    &&& x < y <= label@.len()
                    &&& crate::numbers::spec_all_digits(label@.subrange(a as int, b as int))
                    &&& crate::numbers::spec_all_digits(label@.subrange(x as int, y as int))
                },
                LabelKind::DayPackage(a, b, x, y) => {
                    &&& c == (LabelClass::DayPackage(
                        label@.subrange(a as int, b as int),
                        label@.subrange(x as int, y as int),
                    ))
                    &&& a < b <= label@.len()
                    &&& x < y <= label@.len()
                    &&& crate::numbers::spec_all_digits(label@.subrange(a as int, b as int))
                    &&& crate::numbers::spec_all_digits(label@.subrange(x as int, y as int))
                },
                LabelKind::WeekendPackage => c == LabelClass::WeekendPackage,
                LabelKind::PerKm => c == LabelClass::PerKm,
                LabelKind::AirportEntry => c == LabelClass::AirportEntry,
                LabelKind::AirportExit => c == LabelClass::AirportExit,
                LabelKind::Unknown => c == LabelClass::Unknown,
            }
        }),
{
    let day_lab = str_to_chars("Daily: 6:00–20:00, Mon–Sun");
    if chars_eq(label, &day_lab) {
        return LabelKind::DayRate;
    }
    let night_lab = str_to_chars("Nightly: 20:00–6:00, Mon–Sun");
    if chars_eq(label, &night_lab) {
        return LabelKind::NightRate;
    }
    let section_lab = str_to_chars("Advantageous packages");
    if chars_eq(label, &section_lab) {
        return LabelKind::Section;
    }
    let hour_unit = str_to_chars("hour");
    if let Some((a, b, x, y)) = find_package_match(label, &hour_unit) {
        return LabelKind::HourPackage(a, b, x, y);
    }
    let day_unit = str_to_chars("day");
    if let Some((a, b, x, y)) = find_package_match(label, &day_unit) {
        return LabelKind::DayPackage(a, b, x, y);
    }
    let weekend_lab = str_to_chars("Weekend + 200 km");
    if chars_eq(label, &weekend_lab) {
        return LabelKind::WeekendPackage;
    }
    let km_lab = str_to_chars("Km beyond packages");
    if chars_eq(label, &km_lab) {
        return LabelKind::PerKm;
    }
    let entry_lab = str_to_chars("Prague Airport – entry");
    if chars_eq(label, &entry_lab) {
        return LabelKind::AirportEntry;
    }
    let exit_lab = str_to_chars("Prague Airport – exit");
    if chars_eq(label, &exit_lab) {
        return LabelKind::AirportExit;
    }
    LabelKind::Unknown
}

/// The parser's accumulating state, executably.
struct ParseState {
    day: Option<(u64, u64, u64)>,
    night: Option<(u64, u64, u64)>,
    packages_legend: Vec<Package>,
    packages_fancy: Vec<Package>,
    packages_boss: Vec<Package>,
    per_km: Option<u64>,
    airport_entry: Option<u64>,
    airport_exit: Option<u64>,
}

/// The view of the executable state.
spec fn state_view(st: ParseState) -> StateV {
    StateV {
        day: st.day,
        night: st.night,
        packages_legend: packages_view(st.packages_legend@),
        packages_fancy: packages_view(st.packages_fancy@),
        packages_boss: packages_view(st.packages_boss@),
        per_km: st.per_km,
        airport_entry: st.airport_entry,
        airport_exit: st.airport_exit,
    }
}

/// Every price the state holds is bounded and every package is
/// well-formed.
spec fn state_ok(st: ParseState) -> bool {
    &&& match st.day {
        Some(p) => p.0 < MONEY_LIMIT && p.1 < MONEY_LIMIT && p.2 < MONEY_LIMIT,
        None => true,
    }
    &&& match st.night {
        Some(p) => p.0 < MONEY_LIMIT && p.1 < MONEY_LIMIT && p.2 < MONEY_LIMIT,
        None => true,
    }
    &&& match st.per_km {
        Some(v) => v < MONEY_LIMIT,
        None => true,
    }
    &&& match st.airport_entry {
        Some(v) => v < MONEY_LIMIT,
        None => true,
    }
    &&& match st.airport_exit {
        Some(v) => v < MONEY_LIMIT,
        None => true,
    }
    &&& forall|i: int|
        0 <= i < st.packages_legend@.len() ==> (#[trigger] st.packages_legend@[i])@.wf()
    &&& forall|i: int|
        0 <= i < st.packages_fancy@.len() ==> (#[trigger] st.packages_fancy@[i])@.wf()
    &&& forall|i: int| 0 <= i < st.packages_boss@.len() ==> (#[trigger] st.packages_boss@[i])@.wf()
}

/// The two windows built for every category cover the whole day.
pub proof fn lemma_day_night_windows_cover(rates: Seq<RateWindow>)
    requires
        rates.len() == 2,
        rates[0].start_min == DAY_START_MIN,
        rates[0].end_min == NIGHT_START_MIN,
        rates[1].start_min == NIGHT_START_MIN,
        rates[1].end_min == DAY_START_MIN,
    ensures
        forall|t: nat| t < MINUTES_PER_DAY ==> #[trigger] rate_covered(rates, t),
{
    assert forall|t: nat| t < MINUTES_PER_DAY implies #[trigger] rate_covered(rates, t) by {
        if DAY_START_MIN <= t < NIGHT_START_MIN {
            assert(rates[0].spec_contains(t));
        } else {
            assert(rates[1].spec_contains(t));
        }
    }
}

/// Build one category's tariff from the finished state.
fn build_car(day_price: u64, night_price: u64, packages: Vec<Package>) -> (r: CarTariff)
    requires
        day_price < MONEY_LIMIT,
        night_price < MONEY_LIMIT,
        forall|i: int| 0 <= i < packages@.len() ==> (#[trigger] packages@[i])@.wf(),
    ensures
        r@.rates == spec_rates_of(day_price, night_price),
        r@.packages == packages_view(packages@),
        r.wf(),
{
    let rates: Vec<RateWindow> = vec![
        RateWindow {
            start_min: DAY_START_MIN,
            end_min: NIGHT_START_MIN,
            price_per_minute: day_price,
        },
        RateWindow {
            start_min: NIGHT_START_MIN,
            end_min: DAY_START_MIN,
            price_per_minute: night_price,
        },
    ];
    proof {
        assert(rates@ =~= spec_rates_of(day_price, night_price));
        lemma_day_night_windows_cover(rates@);
    }
    CarTariff { rates, packages }
}

/// Parse one raw tariff table into a typed price model, or fail with
/// the first error the ordered reading meets.  On success the tariff
/// is well-formed: its windows tile the day and every amount is
/// bounded, so the calculator accepts it.
#[verifier::loop_isolation(false)]
#[verifier::rlimit(100)]
pub fn parse_tariff(tier: PricingTier, table: &str) -> (r: Result<Tariff, TariffError>)
    ensures
        ({
            let s = spec_parse_tariff(tier, table@);
            match r {
                Ok(t) => s == Ok::<TariffV, ErrorV>(t@) && t.wf() && t.kind == tier,
                Err(e) => s == Err::<TariffV, ErrorV>(e@),
            }
        }),
{
    let rows = tokenize(table);
    let ghost rows_v = spec_table(table@);
    if rows.len() == 0 {
        return Err(TariffError::MissingLabelColumn);
    }
    let lc = match find_col(&rows[0], ColumnSel::Label) {
        Some(i) => i,
        None => {
            proof {
                assert(cells_view(rows@[0]@) == rows_v[0]);
            }
            return Err(TariffError::MissingLabelColumn);
        },
    };
    let col_legend = find_col(&rows[0], ColumnSel::Price(CarCategory::Legend));
    let col_fancy = find_col(&rows[0], ColumnSel::Price(CarCategory::Fancy));
    let col_boss = find_col(&rows[0], ColumnSel::Price(CarCategory::Boss));
    proof {
        assert(cells_view(rows@[0]@) == rows_v[0]);
    }
    let ghost cols = ColMapV {
        label: lc as int,
        legend: opt_idx(col_legend),
        fancy: opt_idx(col_fancy),
        boss: opt_idx(col_boss),
    };
    let mut st = ParseState {
        day: None,
        night: None,
        packages_legend: Vec::new(),
        packages_fancy: Vec::new(),
        packages_boss: Vec::new(),
        per_km: None,
        airport_entry: None,
        airport_exit: None,
    };
    let mut i: usize = 1;
    proof {
        assert(state_view(st) =~= spec_init_state());
        assert(rows_v.drop_first() =~= rows_v.skip(1));
    }
    while i < rows.len()
        invariant
            1 <= i <= rows@.len(),
            state_ok(st),
            spec_parse_rows(spec_init_state(), rows_v.drop_first(), cols) == spec_parse_rows(
                state_view(st),
                rows_v.skip(i as int),
                cols,
            ),
        decreases rows@.len() - i,
    {
        let ghost remaining = rows_v.skip(i as int);
        proof {
            assert(remaining[0] == rows_v[i as int]);
            assert(remaining.drop_first() =~= rows_v.skip(i as int + 1));
            assert(rows_v[i as int] == cells_view(rows@[i as int]@));
        }
        let row = &rows[i];
        let lcell = cell_at(row, col_legend);
        let lv = parse_cell(&lcell);
        if let CellValue::Malformed = lv {
            return Err(TariffError::MalformedNumber { raw: lcell });
        }
        let fcell = cell_at(row, col_fancy);
        let fv = parse_cell(&fcell);
        if let CellValue::Malformed = fv {
            return Err(TariffError::MalformedNumber { raw: fcell });
        }
        let bcell = cell_at(row, col_boss);
        let bv = parse_cell(&bcell);
        if let CellValue::Malformed = bv {
            return Err(TariffError::MalformedNumber { raw: bcell });
        }
        let prices = (
            match lv {
                CellValue::Price(v) => Some(v),
                _ => None,
            },
            match fv {
                CellValue::Price(v) => Some(v),
                _ => None,
            },
            match bv {
                CellValue::Price(v) => Some(v),
                _ => None,
            },
        );
        proof {
            assert(spec_row_prices(remaining[0], cols) == Ok::<_, ErrorV>(prices));
        }
        let label = cell_at(row, Some(lc));
        let kind = classify_label(&label);
        match kind {
            LabelKind::DayRate => {
                match prices {
                    (Some(l), Some(f), Some(b)) => {
                        st.day = Some((l, f, b));
                    },
                    _ => {
                        return Err(TariffError::IncompletePriceRow { label });
                    },
                }
            },
            LabelKind::NightRate => {
                match prices {
                    (Some(l), Some(f), Some(b)) => {
                        st.night = Some((l, f, b));
                    },
                    _ => {
                        return Err(TariffError::IncompletePriceRow { label });
                    },
                }
            },
            LabelKind::Section => {},
            LabelKind::HourPackage(a, b, x, y) => {
                if b - a > 12 {
                    return Err(TariffError::MalformedNumber { raw: subvec(&label, a, b) });
                }
                if y - x > 12 {
                    return Err(TariffError::MalformedNumber { raw: subvec(&label, x, y) });
                }
                match prices {
                    (Some(pl), Some(pf), Some(pb)) => {
                        let n = digits_value(&label, a, b);
                        let m = digits_value(&label, x, y);
                        push_packages(&mut st, &label, n * 60, m * KM_SCALE, pl, pf, pb, None);
                    },
                    _ => {
                        return Err(TariffError::IncompletePriceRow { label });
                    },
                }
            },
            LabelKind::DayPackage(a, b, x, y) => {
                if b - a > 12 {
                    return Err(TariffError::MalformedNumber { raw: subvec(&label, a, b) });
                }
                if y - x > 12 {
                    return Err(TariffError::MalformedNumber { raw: subvec(&label, x, y) });
                }
                match prices {
                    (Some(pl), Some(pf), Some(pb)) => {
                        let n = digits_value(&label, a, b);
                        let m = digits_value(&label, x, y);
                        push_packages(&mut st, &label, n * 1440, m * KM_SCALE, pl, pf, pb, None);
                    },
                    _ => {
                        return Err(TariffError::IncompletePriceRow { label });
                    },
                }
            },
            LabelKind::WeekendPackage => {
                match prices {
                    (Some(pl), Some(pf), Some(pb)) => {
                        let restriction = TimeRestriction {
                            from: WeekdayTime {
                                weekday: Weekday::Friday,
                                minute_of_day: WEEKEND_FROM_MIN,
                            },
                            to: WeekdayTime {
                                weekday: Weekday::Monday,
                                minute_of_day: WEEKEND_TO_MIN,
                            },
                        };
                        push_packages(
                            &mut st,
                            &label,
                            WEEKEND_PACKAGE_MINUTES,
                            WEEKEND_PACKAGE_KM,
                            pl,
                            pf,
                            pb,
                            Some(restriction),
                        );
                    },
                    _ => {
                        return Err(TariffError::IncompletePriceRow { label });
                    },
                }
            },
            LabelKind::PerKm => {
                match only3(prices) {
                    Some(v) => {
                        st.per_km = Some(v);
                    },
                    None => {
                        return Err(TariffError::IncompletePriceRow { label });
                    },
                }
            },
            LabelKind::AirportEntry => {
                match only3(prices) {
                    Some(v) => {
                        st.airport_entry = Some(v);
                    },
                    None => {
                        return Err(TariffError::IncompletePriceRow { label });
                    },
                }
            },
            LabelKind::AirportExit => {
                match only3(prices) {
                    Some(v) => {
                        st.airport_exit = Some(v);
                    },
                    None => {
                        return Err(TariffError::IncompletePriceRow { label });
                    },
                }
            },
            LabelKind::Unknown => {
                return Err(TariffError::UnrecognizedRow { label });
            },
        }
        i = i + 1;
    }
    proof {
        assert(rows_v.skip(rows_v.len() as int) =~= Seq::<Seq<Seq<char>>>::empty());
    }
    let day = match st.day {
        Some(p) => p,
        None => {
            return Err(
                TariffError::MissingTariffField {
                    tier,
                    field: TariffField::DayRate(CarCategory::Legend),
                },
            );
        },
    };
    let night = match st.night {
        Some(p) => p,
        None => {
            return Err(
                TariffError::MissingTariffField {
                    tier,
                    field: TariffField::NightRate(CarCategory::Legend),
                },
            );
        },
    };
    let per_km = match st.per_km {
        Some(v) => v,
        None => {
            return Err(
                TariffError::MissingTariffField { tier, field: TariffField::PerKilometre },
            );
        },
    };
    let airport_entry = match st.airport_entry {
        Some(v) => v,
        None => {
            return Err(
                TariffError::MissingTariffField { tier, field: TariffField::AirportEntry },
            );
        },
    };
    let airport_exit = match st.airport_exit {
        Some(v) => v,
        None => {
            return Err(TariffError::MissingTariffField { tier, field: TariffField::AirportExit });
        },
    };
    let ParseState { packages_legend, packages_fancy, packages_boss, .. } = st;
    let legend = build_car(day.0, night.0, packages_legend);
    let fancy = build_car(day.1, night.1, packages_fancy);
    let boss = build_car(day.2, night.2, packages_boss);
    let t = Tariff {
        kind: tier,
        legend,
        fancy,
        boss,
        per_km_price: per_km,
        airport_entry_price: airport_entry,
        airport_exit_price: airport_exit,
    };
    Ok(t)
}

/// Append one row's package to every category's list.
fn push_packages(
    st: &mut ParseState,
    label: &Vec<char>,
    duration_min: u64,
    included_km: u64,
    price_legend: u64,
    price_fancy: u64,
    price_boss: u64,
    restriction: Option<TimeRestriction>,
)
    requires
        duration_min < PACKAGE_DURATION_LIMIT,
        included_km < PACKAGE_KM_LIMIT,
        price_legend < MONEY_LIMIT,
        price_fancy < MONEY_LIMIT,
        price_boss < MONEY_LIMIT,
        state_ok(*old(st)),
    ensures
        state_ok(*final(st)),
        state_view(*final(st)) == spec_push_packages(
            state_view(*old(st)),
            label@,
            duration_min,
            included_km,
            (price_legend, price_fancy, price_boss),
            restriction,
        ),
{
    let p_legend = Package {
        name: clone_chars(label),
        duration_min,
        included_km,
        price: price_legend,
        restriction,
    };
    let p_fancy = Package {
        name: clone_chars(label),
        duration_min,
        included_km,
        price: price_fancy,
        restriction,
    };
    let p_boss = Package {
        name: clone_chars(label),
        duration_min,
        included_km,
        price: price_boss,
        restriction,
    };
    st.packages_legend.push(p_legend);
    st.packages_fancy.push(p_fancy);
    st.packages_boss.push(p_boss);
    proof {
        assert(packages_view(st.packages_legend@) =~= packages_view(
            old(st).packages_legend@,
        ).push(
            PackageV {
                name: label@,
                duration_min,
                included_km,
                price: price_legend,
                restriction,
            },
        ));
        assert(packages_view(st.packages_fancy@) =~= packages_view(old(st).packages_fancy@).push(
            PackageV {
                name: label@,
                duration_min,
                included_km,
                price: price_fancy,
                restriction,
            },
        ));
        assert(packages_view(st.packages_boss@) =~= packages_view(old(st).packages_boss@).push(
            PackageV {
                name: label@,
                duration_min,
                included_km,
                price: price_boss,
                restriction,
            },
        ));
    }
}

} // verus!
