//! Core data model: tiers, car categories, rate windows, packages,
//! tariffs, trip requests and calculation results, with their
//! mathematical views and well-formedness conditions.

use vstd::prelude::*;

verus! {

/// Money units per koruna for amounts parsed from a tariff table.
pub const MONEY_SCALE: u64 = 100_000;

/// Distance units per kilometre.
pub const KM_SCALE: u64 = 1000;

/// Price units per koruna in a `CalculationResult`; equals
/// `MONEY_SCALE * KM_SCALE`, so money amounts scale up by `KM_SCALE`.
pub const PRICE_SCALE: u64 = 100_000_000;

/// Minutes in one day.
pub const MINUTES_PER_DAY: u64 = 1440;

/// Exclusive bound on any money amount the table parser accepts
/// (at most twelve integer digits and five fractional digits).
pub const MONEY_LIMIT: u64 = 100_000_000_000_000_000;

/// Exclusive bound on any plain count (hours, days, kilometres) the
/// table parser accepts: at most twelve digits.
pub const COUNT_LIMIT: u64 = 1_000_000_000_000;

/// Exclusive bound on a parsed package duration in minutes
/// (`COUNT_LIMIT` days).
pub const PACKAGE_DURATION_LIMIT: u64 = 1_440_000_000_000_000;

/// Exclusive bound on a parsed package distance allowance in
/// distance units (`COUNT_LIMIT` kilometres).
pub const PACKAGE_KM_LIMIT: u64 = 1_000_000_000_000_000;

/// Inclusive bound on the begin and end minute of a trip request, and on
/// its distance in distance units.  Generous (about 130 million years of
/// minutes), but needed so that prices fit the machine integers.
pub const TRIP_LIMIT: u64 = 0x4000_0000_0000;

/// The service's named rate plans; each one has its own tariff table.
#[derive(Clone, Copy, PartialEq, Eq, Structural, Debug)]
pub enum PricingTier {
    Basic,
    Active,
    Business,
}

impl Default for PricingTier {
    /// The tier selected before a caller picks one.
    fn default() -> (r: Self)
        ensures
            r == PricingTier::Basic,
    {
        PricingTier::Basic
    }
}

/// The vehicle classes with tier-specific pricing, in canonical order.
/// The declaration order is the iteration and tie-breaking order.
#[derive(Clone, Copy, PartialEq, Eq, Structural, Debug)]
pub enum CarCategory {
    Legend,
    Fancy,
    Boss,
}

impl CarCategory {
    /// Human display name of the category.
    pub fn display_name(&self) -> (r: &'static str)
        ensures
            r@ == self.spec_display_name(),
    {
        match self {
            CarCategory::Legend => "Legend (Fabia)",
            CarCategory::Fancy => "Fancy (Scala, Karoq, Octavia, Caddy Van)",
            CarCategory::Boss => "Boss (Superb, Kodiaq)",
        }
    }

    pub open spec fn spec_display_name(self) -> Seq<char> {
        match self {
            CarCategory::Legend => "Legend (Fabia)"@,
            CarCategory::Fancy => "Fancy (Scala, Karoq, Octavia, Caddy Van)"@,
            CarCategory::Boss => "Boss (Superb, Kodiaq)"@,
        }
    }
}

/// Days of the week, used only by parsed package time restrictions.
#[derive(Clone, Copy, PartialEq, Eq, Structural, Debug)]
pub enum Weekday {
    Monday,
    Tuesday,
    Wednesday,
    Thursday,
    Friday,
    Saturday,
    Sunday,
}

/// A half-open, possibly midnight-wrapping time-of-day window and the
/// price charged per minute spent inside it.
#[derive(Clone, Copy, PartialEq, Eq, Structural, Debug)]
pub struct RateWindow {
    /// First minute of day inside the window.
    pub start_min: u16,
    /// First minute of day past the window; at or before `start_min`
    /// means the window wraps past midnight.
    pub end_min: u16,
    /// Price per minute, in money units.
    pub price_per_minute: u64,
}

impl RateWindow {
    /// Bounds on a meaningful rate window.
    pub open spec fn wf(self) -> bool {
        self.start_min < MINUTES_PER_DAY && self.end_min < MINUTES_PER_DAY
            && self.price_per_minute < MONEY_LIMIT
    }

    /// Whether minute-of-day `tod` falls inside the window, handling the
    /// midnight wrap: a window with `start_min >= end_min` covers the
    /// late evening and the early morning.
    pub open spec fn spec_contains(self, tod: nat) -> bool {
        if self.start_min < self.end_min {
            self.start_min <= tod && tod < self.end_min
        } else {
            self.start_min <= tod || tod < self.end_min
        }
    }

    /// Executable window containment test.
    pub fn contains_time(&self, tod: u16) -> (r: bool)
        ensures
            r == self.spec_contains(tod as nat),
    {
        if self.start_min < self.end_min {
            self.start_min <= tod && tod < self.end_min
        } else {
            self.start_min <= tod || tod < self.end_min
        }
    }
}

/// A day-of-week plus time-of-day instant, the bound of a package's
/// validity window.
#[derive(Clone, Copy, PartialEq, Eq, Structural, Debug)]
pub struct WeekdayTime {
    pub weekday: Weekday,
    /// Minutes after midnight.
    pub minute_of_day: u16,
}

/// A weekly validity window for a package, e.g. Friday 16:00 through
/// Monday 10:00.  Parsed from the table but deliberately not enforced by
/// the calculator, mirroring the service's current behaviour.
#[derive(Clone, Copy, PartialEq, Eq, Structural, Debug)]
pub struct TimeRestriction {
    pub from: WeekdayTime,
    pub to: WeekdayTime,
}

/// A prepaid bundle: a fixed duration and an included distance for a
/// flat price, optionally restricted to a weekly validity window.
#[derive(Clone, Debug)]
pub struct Package {
    /// The label of the table row the package came from.
    pub name: Vec<char>,
    /// Bundle duration in minutes.
    pub duration_min: u64,
    /// Included distance in distance units.
    pub included_km: u64,
    /// Flat price in money units.
    pub price: u64,
    /// Parsed validity window, if any; not applied in calculation.
    pub restriction: Option<TimeRestriction>,
}

/// Mathematical view of a `Package`.
pub struct PackageV {
    pub name: Seq<char>,
    pub duration_min: u64,
    pub included_km: u64,
    pub price: u64,
    pub restriction: Option<TimeRestriction>,
}

impl View for Package {
    type V = PackageV;

    open spec fn view(&self) -> PackageV {
        PackageV {
            name: self.name@,
            duration_min: self.duration_min,
            included_km: self.included_km,
            price: self.price,
            restriction: self.restriction,
        }
    }
}

impl PackageV {
    /// Bounds the parser guarantees of every package it produces.
    pub open spec fn wf(self) -> bool {
        self.duration_min < PACKAGE_DURATION_LIMIT && self.included_km < PACKAGE_KM_LIMIT
            && self.price < MONEY_LIMIT
    }
}

/// The view of a sequence of packages.
pub open spec fn packages_view(s: Seq<Package>) -> Seq<PackageV> {
    s.map(|i: int, p: Package| p@)
}

/// Per-category part of a tariff: the rate windows that tile the day,
/// and the packages offered for the category in table order.
#[derive(Clone, Debug)]
pub struct CarTariff {
    pub rates: Vec<RateWindow>,
    pub packages: Vec<Package>,
}

/// Whether some window of `rates` contains minute-of-day `t`.
pub open spec fn rate_covered(rates: Seq<RateWindow>, t: nat) -> bool {
    exists|i: int| 0 <= i < rates.len() && (#[trigger] rates[i]).spec_contains(t)
}

impl CarTariff {
    /// Every window and package is bounded, and the windows leave no
    /// minute of the day uncovered, so the calculator always finds a
    /// rate to charge.
    pub open spec fn wf(self) -> bool {
        &&& forall|i: int| 0 <= i < self.rates@.len() ==> (#[trigger] self.rates@[i]).wf()
        &&& forall|t: nat| t < MINUTES_PER_DAY ==> #[trigger] rate_covered(self.rates@, t)
        &&& forall|i: int| 0 <= i < self.packages@.len() ==> (#[trigger] self.packages@[i])@.wf()
    }
}

/// A complete price model for one pricing tier.
#[derive(Clone, Debug)]
pub struct Tariff {
    pub kind: PricingTier,
    pub legend: CarTariff,
    pub fancy: CarTariff,
    pub boss: CarTariff,
    /// Price per kilometre driven beyond a package allowance, in money
    /// units.
    pub per_km_price: u64,
    /// Fee for entering the airport, in money units; parsed but never
    /// applied to a result, mirroring the service's current behaviour.
    pub airport_entry_price: u64,
    /// Fee for leaving the airport, in money units; parsed but never
    /// applied to a result.
    pub airport_exit_price: u64,
}

impl Tariff {
    /// The per-category part of the tariff, as a spec value.
    pub open spec fn spec_car(self, cat: CarCategory) -> CarTariff {
        match cat {
            CarCategory::Legend => self.legend,
            CarCategory::Fancy => self.fancy,
            CarCategory::Boss => self.boss,
        }
    }

    /// The per-category part of the tariff.
    pub fn car(&self, cat: CarCategory) -> (r: &CarTariff)
        ensures
            *r == self.spec_car(cat),
    {
        match cat {
            CarCategory::Legend => &self.legend,
            CarCategory::Fancy => &self.fancy,
            CarCategory::Boss => &self.boss,
        }
    }

    /// A tariff the calculator can be run on: every per-category part is
    /// well-formed and the tier-wide scalars are bounded.
    pub open spec fn wf(self) -> bool {
        self.legend.wf() && self.fancy.wf() && self.boss.wf() && self.per_km_price < MONEY_LIMIT
            && self.airport_entry_price < MONEY_LIMIT && self.airport_exit_price < MONEY_LIMIT
    }
}

/// The caller's trip: a distance and naive local begin and end instants.
/// An `end_min` at or before `begin_min` is degenerate but allowed: no
/// time is consumed.
#[derive(Clone, Copy, PartialEq, Eq, Structural, Debug)]
pub struct TripRequest {
    /// Distance in distance units (thousandths of a kilometre).
    pub distance: u64,
    /// Trip begin, in minutes from the epoch.
    pub begin_min: u64,
    /// Trip end, in minutes from the epoch.
    pub end_min: u64,
}

impl TripRequest {
    /// Machine bound on trips the calculator accepts, so that no price
    /// can overflow its integer type.
    pub open spec fn valid(self) -> bool {
        self.begin_min <= TRIP_LIMIT && self.end_min <= TRIP_LIMIT && self.distance <= TRIP_LIMIT
    }
}

/// One entry of a result's breakdown, in the order the price was
/// accumulated.
#[derive(Clone, PartialEq, Eq, Debug)]
pub enum BreakdownPart {
    /// The car category the result is for.
    Category { category: CarCategory },
    /// A prepaid package was applied, named by its table label.
    PackageUsed { name: Vec<char> },
    /// Minutes were charged inside this rate window.
    RateSegment { start_min: u16, end_min: u16 },
    /// Distance beyond the package allowance was charged.
    ExtraDistance,
}

/// Mathematical view of a `BreakdownPart`.
pub enum PartV {
    Category { category: CarCategory },
    PackageUsed { name: Seq<char> },
    RateSegment { start_min: u16, end_min: u16 },
    ExtraDistance,
}

impl View for BreakdownPart {
    type V = PartV;

    open spec fn view(&self) -> PartV {
        match self {
            BreakdownPart::Category { category } => PartV::Category { category: *category },
            BreakdownPart::PackageUsed { name } => PartV::PackageUsed { name: name@ },
            BreakdownPart::RateSegment { start_min, end_min } => PartV::RateSegment {
                start_min: *start_min,
                end_min: *end_min,
            },
            BreakdownPart::ExtraDistance => PartV::ExtraDistance,
        }
    }
}

/// The view of a breakdown.
pub open spec fn parts_view(s: Seq<BreakdownPart>) -> Seq<PartV> {
    s.map(|i: int, p: BreakdownPart| p@)
}

/// The total price of a trip and the ordered list of price components
/// that produced it.  Results are compared by total price alone.
#[derive(Clone, PartialEq, Eq, Debug)]
pub struct CalculationResult {
    /// Total price in price units (hundred-millionths of a koruna).
    pub price: u128,
    /// The components applied, in order.
    pub parts: Vec<BreakdownPart>,
}

/// Mathematical view of a `CalculationResult`.
pub struct ResultV {
    pub price: int,
    pub parts: Seq<PartV>,
}

impl View for CalculationResult {
    type V = ResultV;

    open spec fn view(&self) -> ResultV {
        ResultV { price: self.price as int, parts: parts_view(self.parts@) }
    }
}

impl CalculationResult {
    /// The total price in price units; results compare by this alone.
    pub fn total_price(&self) -> (r: u128)
        ensures
            r as int == self@.price,
    {
        self.price
    }
}

/// The set of car categories a caller is willing to rent, ordered
/// canonically for deterministic iteration and tie-breaking.
#[derive(Clone, Copy, PartialEq, Eq, Structural, Debug)]
pub struct CategorySet {
    pub legend: bool,
    pub fancy: bool,
    pub boss: bool,
}

impl CategorySet {
    /// Whether the set holds the category.
    pub open spec fn spec_contains(self, cat: CarCategory) -> bool {
        match cat {
            CarCategory::Legend => self.legend,
            CarCategory::Fancy => self.fancy,
            CarCategory::Boss => self.boss,
        }
    }

    /// Executable membership test.
    pub fn contains(&self, cat: CarCategory) -> (r: bool)
        ensures
            r == self.spec_contains(cat),
    {
        match cat {
            CarCategory::Legend => self.legend,
            CarCategory::Fancy => self.fancy,
            CarCategory::Boss => self.boss,
        }
    }

    /// Whether any category is eligible.
    pub open spec fn spec_non_empty(self) -> bool {
        self.legend || self.fancy || self.boss
    }

    /// Executable emptiness test.
    pub fn non_empty(&self) -> (r: bool)
        ensures
            r == self.spec_non_empty(),
    {
        self.legend || self.fancy || self.boss
    }

    /// The set of every category.
    pub fn all() -> (r: CategorySet)
        ensures
            r == (CategorySet { legend: true, fancy: true, boss: true }),
    {
        CategorySet { legend: true, fancy: true, boss: true }
    }

    /// The set holding exactly one category.
    pub fn single(cat: CarCategory) -> (r: CategorySet)
        ensures
            forall|c: CarCategory| r.spec_contains(c) == (c == cat),
    {
        CategorySet {
            legend: matches!(cat, CarCategory::Legend),
            fancy: matches!(cat, CarCategory::Fancy),
            boss: matches!(cat, CarCategory::Boss),
        }
    }
}

} // verus!
