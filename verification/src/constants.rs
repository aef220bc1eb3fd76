//! Named physical constants of the language.
//!
//! Each constant resolves to a fixed closed-form rational value. The
//! `*_frac` spec functions give the mathematical value; each executable
//! constant is proved to denote it exactly.

use vstd::prelude::*;

use crate::rat::{
    Frac, Rat, frac_eq, frac_int, frac_div, rat_den, rat_div, rat_frac, rat_from_i64, rat_num,
    reduced_frac,
};

verus! {

/// The offset between Celsius and Kelvin: 273.15.
pub open spec fn kelvin_frac() -> Frac {
    Frac { num: 27315, den: 100 }
}

/// The canonical pair the executable Kelvin constant holds.
pub open spec fn s_kelvin() -> Frac {
    reduced_frac(27315, 100)
}

/// The offset between Celsius and Kelvin, 273.15, as an exact rational.
pub fn kelvin_constant() -> (r: Rat)
    ensures
        rat_den(r) > 0,
        rat_frac(r) == s_kelvin(),
        frac_eq(rat_frac(r), kelvin_frac()),
{
    let n = rat_from_i64(27315);
    let d = rat_from_i64(100);
    rat_div(&n, &d)
}

/// Pi to one hundred decimal digits.
pub open spec fn pi_frac() -> Frac {
    Frac {
        num: 31415926535897932384626433832795028841971693993751058209749445923078164062862089986280348253421170679int,
        den: 10000000000000000000000000000000000000000000000000000000000000000000000000000000000000000000000000000int,
    }
}

/// The canonical pair the executable pi constant holds.
pub open spec fn s_pi() -> Frac {
    reduced_frac(
        31415926535897932384626433832795028841971693993751058209749445923078164062862089986280348253421170679int,
        10000000000000000000000000000000000000000000000000000000000000000000000000000000000000000000000000000int,
    )
}

/// Pi to one hundred decimal digits, as an exact rational.
///
/// Relies on `BigInt::parse_bytes` (reads a decimal numeral) and
/// `BigRational::new` (reduces to canonical form, positive denominator).
#[verifier::external_body]
pub fn pi_constant() -> (r: Rat)
    ensures
        rat_den(r) > 0,
        rat_frac(r) == s_pi(),
        frac_eq(rat_frac(r), pi_frac()),
{
    num_rational::BigRational::new(
        num_bigint::BigInt::parse_bytes(
            b"31415926535897932384626433832795028841971693993751058209749445923078164062862089986280348253421170679",
            10,
        ).unwrap(),
        num_bigint::BigInt::parse_bytes(
            b"10000000000000000000000000000000000000000000000000000000000000000000000000000000000000000000000000000",
            10,
        ).unwrap(),
    )
}

/// The gas constant for dry air, 287.05 J/(kg K).
pub open spec fn rd_frac() -> Frac {
    Frac { num: 28705, den: 100 }
}

pub open spec fn s_rd() -> Frac {
    reduced_frac(28705, 100)
}

/// The gas constant for dry air, 287.05, as an exact rational.
pub fn rd_constant() -> (r: Rat)
    ensures
        rat_den(r) > 0,
        rat_frac(r) == s_rd(),
        frac_eq(rat_frac(r), rd_frac()),
{
    let n = rat_from_i64(28705);
    let d = rat_from_i64(100);
    rat_div(&n, &d)
}

/// The specific heat capacity of air at constant pressure, 1005 J/(kg K).
pub open spec fn cp_frac() -> Frac {
    frac_int(1005)
}

/// The specific heat capacity of air at constant pressure, 1005.
pub fn cp_constant() -> (r: Rat)
    ensures
        rat_den(r) > 0,
        rat_frac(r) == cp_frac(),
{
    rat_from_i64(1005)
}

/// Standard atmospheric pressure, 101325 Pa.
pub open spec fn p0_frac() -> Frac {
    frac_int(101325)
}

/// Standard atmospheric pressure, 101325.
pub fn p0_constant() -> (r: Rat)
    ensures
        rat_den(r) > 0,
        rat_frac(r) == p0_frac(),
{
    rat_from_i64(101325)
}

/// The latent heat of vaporization of water, 2260000 J/kg.
pub open spec fn lv_frac() -> Frac {
    frac_int(2260000)
}

/// The latent heat of vaporization of water, 2260000.
pub fn lv_constant() -> (r: Rat)
    ensures
        rat_den(r) > 0,
        rat_frac(r) == lv_frac(),
{
    rat_from_i64(2260000)
}

/// The specific heat capacity of water, 4184 J/(kg K).
pub open spec fn cw_frac() -> Frac {
    frac_int(4184)
}

/// The specific heat capacity of water, 4184.
pub fn cw_constant() -> (r: Rat)
    ensures
        rat_den(r) > 0,
        rat_frac(r) == cw_frac(),
{
    rat_from_i64(4184)
}

/// The density of air, 1200 g/m3.
pub open spec fn rho_air_frac() -> Frac {
    frac_int(1200)
}

/// The density of air, 1200.
pub fn rho_air_constant() -> (r: Rat)
    ensures
        rat_den(r) > 0,
        rat_frac(r) == rho_air_frac(),
{
    rat_from_i64(1200)
}

/// The density of water, 1000 kg/m3.
pub open spec fn rho_water_frac() -> Frac {
    frac_int(1000)
}

/// The density of water, 1000.
pub fn rho_water_constant() -> (r: Rat)
    ensures
        rat_den(r) > 0,
        rat_frac(r) == rho_water_frac(),
{
    rat_from_i64(1000)
}

/// The acceleration due to gravity, 9.81 m/s2.
pub open spec fn g_frac() -> Frac {
    Frac { num: 981, den: 100 }
}

pub open spec fn s_g() -> Frac {
    reduced_frac(981, 100)
}

/// The acceleration due to gravity, 9.81, as an exact rational.
pub fn g_constant() -> (r: Rat)
    ensures
        rat_den(r) > 0,
        rat_frac(r) == s_g(),
        frac_eq(rat_frac(r), g_frac()),
{
    let n = rat_from_i64(981);
    let d = rat_from_i64(100);
    rat_div(&n, &d)
}

} // verus!
