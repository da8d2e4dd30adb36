//! Classification of a compass heading into one of the five facade
//! categories Norte, Leste, Sul, Oeste and Indefinida.

use vstd::prelude::*;

verus! {

/// Millidegrees in a full circle.
pub const FULL_CIRCLE_MDEG: i64 = 360000;

/// The facade name for a heading in millidegrees clockwise from true
/// north: [315, 360) and [0, 45) face Norte, [45, 135) Leste, [135, 225)
/// Sul, [225, 315) Oeste; a missing or out-of-range heading is
/// Indefinida.
pub open spec fn spec_fachada_nome(direction_mdeg: Option<i64>) -> Seq<char> {
    match direction_mdeg {
        Option::None => "Indefinida"@,
        Option::Some(d) => {
            if (315000 <= d && d < 360000) || (0 <= d && d < 45000) {
                "Norte"@
            } else if 45000 <= d && d < 135000 {
                "Leste"@
            } else if 135000 <= d && d < 225000 {
                "Sul"@
            } else if 225000 <= d && d < 315000 {
                "Oeste"@
            } else {
                "Indefinida"@
            }
        },
    }
}

/// Maps a heading in millidegrees to its facade name.
pub fn determinar_fachada_nome(direction_mdeg: Option<i64>) -> (r: String)
    ensures
        r@ == spec_fachada_nome(direction_mdeg),
{
    match direction_mdeg {
        Option::None => String::from_str("Indefinida"),
        Option::Some(d) => {
            if (315000 <= d && d < 360000) || (0 <= d && d < 45000) {
                String::from_str("Norte")
            } else if 45000 <= d && d < 135000 {
                String::from_str("Leste")
            } else if 135000 <= d && d < 225000 {
                String::from_str("Sul")
            } else if 225000 <= d && d < 315000 {
                String::from_str("Oeste")
            } else {
                String::from_str("Indefinida")
            }
        },
    }
}

/// Every heading inside [0, 360) degrees lands in one of the four
/// cardinal facades, never in Indefinida.
pub proof fn lemma_in_range_heading_is_cardinal(d: i64)
    requires
        0 <= d < FULL_CIRCLE_MDEG,
    ensures
        spec_fachada_nome(Option::Some(d)) == "Norte"@
            || spec_fachada_nome(Option::Some(d)) == "Leste"@
            || spec_fachada_nome(Option::Some(d)) == "Sul"@
            || spec_fachada_nome(Option::Some(d)) == "Oeste"@,
{
}

/// Every heading outside [0, 360) degrees, and a missing heading, is
/// Indefinida.
pub proof fn lemma_out_of_range_heading_is_indefinida(direction_mdeg: Option<i64>)
    requires
        match direction_mdeg {
            Option::None => true,
            Option::Some(d) => d < 0 || d >= FULL_CIRCLE_MDEG,
        },
    ensures
        spec_fachada_nome(direction_mdeg) == "Indefinida"@,
{
}

} // verus!
