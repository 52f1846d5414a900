//! Tariff catalog: one parsed tariff per pricing tier, built once from
//! the three raw tables and read-only afterward.

use vstd::prelude::*;
use crate::calc::{spec_calculate, spec_calculate_for_car};
use crate::model::{CalculationResult, CarCategory, CategorySet, PricingTier, Tariff, TripRequest};
use crate::parser::{parse_tariff, spec_parse_tariff, ErrorV, TariffError, TariffV};

verus! {

/// A tariff table failure, tagged with the tier whose table failed.
#[derive(Clone, PartialEq, Eq, Debug)]
pub struct CatalogError {
    pub tier: PricingTier,
    pub error: TariffError,
}

/// Mathematical view of a `CatalogError`.
pub struct CatalogErrorV {
    pub tier: PricingTier,
    pub error: ErrorV,
}

impl View for CatalogError {
    type V = CatalogErrorV;

    open spec fn view(&self) -> CatalogErrorV {
        CatalogErrorV { tier: self.tier, error: self.error@ }
    }
}

/// One parsed tariff per pricing tier; immutable once built.
#[derive(Clone, Debug)]
pub struct TariffCatalog {
    pub basic: Tariff,
    pub active: Tariff,
    pub business: Tariff,
}

impl TariffCatalog {
    /// The tariff the tier selects, as a spec value.
    pub open spec fn spec_tariff(self, tier: PricingTier) -> Tariff {
        match tier {
            PricingTier::Basic => self.basic,
            PricingTier::Active => self.active,
            PricingTier::Business => self.business,
        }
    }

    /// A catalog fit for calculation: every tariff is well-formed and
    /// carries its own tier.
    pub open spec fn wf(self) -> bool {
        &&& self.basic.wf() && self.basic.kind == PricingTier::Basic
        &&& self.active.wf() && self.active.kind == PricingTier::Active
        &&& self.business.wf() && self.business.kind == PricingTier::Business
    }

    /// Build the three tariffs once by parsing each tier's embedded
    /// table; the first failing tier aborts the build, tagged with
    /// that tier.
    pub fn build(basic_table: &str, active_table: &str, business_table: &str) -> (r: Result<
        TariffCatalog,
        CatalogError,
    >)
        ensures
            match r {
                Ok(c) => {
                    &&& c.wf()
                    &&& spec_parse_tariff(PricingTier::Basic, basic_table@) == Ok::<
                        TariffV,
                        ErrorV,
                    >(c.basic@)
                    &&& spec_parse_tariff(PricingTier::Active, active_table@) == Ok::<
                        TariffV,
                        ErrorV,
                    >(c.active@)
                    &&& spec_parse_tariff(PricingTier::Business, business_table@) == Ok::<
                        TariffV,
                        ErrorV,
                    >(c.business@)
                },
                Err(e) => match e@.tier {
                    PricingTier::Basic => spec_parse_tariff(PricingTier::Basic, basic_table@)
                        == Err::<TariffV, ErrorV>(e@.error),
                    PricingTier::Active => spec_parse_tariff(PricingTier::Basic, basic_table@)
                        is Ok && spec_parse_tariff(PricingTier::Active, active_table@) == Err::<
                        TariffV,
                        ErrorV,
                    >(e@.error),
                    PricingTier::Business => spec_parse_tariff(PricingTier::Basic, basic_table@)
                        is Ok && spec_parse_tariff(PricingTier::Active, active_table@) is Ok
                        && spec_parse_tariff(PricingTier::Business, business_table@) == Err::<
                        TariffV,
                        ErrorV,
                    >(e@.error),
                },
            },
    {
        let basic = match parse_tariff(PricingTier::Basic, basic_table) {
            Ok(t) => t,
            Err(error) => {
                return Err(CatalogError { tier: PricingTier::Basic, error });
            },
        };
        let active = match parse_tariff(PricingTier::Active, active_table) {
            Ok(t) => t,
            Err(error) => {
                return Err(CatalogError { tier: PricingTier::Active, error });
            },
        };
        let business = match parse_tariff(PricingTier::Business, business_table) {
            Ok(t) => t,
            Err(error) => {
                return Err(CatalogError { tier: PricingTier::Business, error });
            },
        };
        Ok(TariffCatalog { basic, active, business })
    }

    /// Look the tier's tariff up; every tier is always present.
    pub fn tariff(&self, tier: PricingTier) -> (r: &Tariff)
        ensures
            *r == self.spec_tariff(tier),
    {
        match tier {
            PricingTier::Basic => &self.basic,
            PricingTier::Active => &self.active,
            PricingTier::Business => &self.business,
        }
    }

    /// Price a trip under the tier's tariff over the eligible
    /// categories, which must not be empty.
    pub fn calculate(&self, tier: PricingTier, cats: CategorySet, trip: TripRequest) -> (r:
        CalculationResult)
        requires
            self.wf(),
            trip.valid(),
            cats.spec_non_empty(),
        ensures
            r@ == spec_calculate(self.spec_tariff(tier), cats, trip),
    {
        self.tariff(tier).calculate(cats, trip)
    }

    /// Price a trip under the tier's tariff for one car category.
    pub fn calculate_for_car(
        &self,
        tier: PricingTier,
        cat: CarCategory,
        trip: TripRequest,
    ) -> (r: CalculationResult)
        requires
            self.wf(),
            trip.valid(),
        ensures
            r@ == spec_calculate_for_car(self.spec_tariff(tier), cat, trip),
    {
        self.tariff(tier).calculate_for_car(cat, trip)
    }
}

} // verus!
