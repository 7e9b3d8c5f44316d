//! The static capacity table: a fixed mapping from wormhole type code to the
//! maximum size of ship that can traverse it, in millions of kilograms.
//!
//! Codes are matched exactly as the feeds report them: canonical form is the
//! upper-case four-character code, with no trimming or case folding.

use vstd::prelude::*;

use crate::text::str_eq;

verus! {

/// The maximum traversable mass for a wormhole type code, where one is known.
pub open spec fn jump_mass_of(code: Seq<char>) -> Option<u32> {
    if code == "A009"@ {
        Some(5u32)
    } else if code == "A239"@ {
        Some(375u32)
    } else if code == "A641"@ {
        Some(1000u32)
    } else if code == "A982"@ {
        Some(375u32)
    } else if code == "B041"@ {
        Some(375u32)
    } else if code == "B274"@ {
        Some(375u32)
    } else if code == "B449"@ {
        Some(1000u32)
    } else if code == "B520"@ {
        Some(375u32)
    } else if code == "B735"@ {
        Some(375u32)
    } else if code == "C008"@ {
        Some(5u32)
    } else if code == "C125"@ {
        Some(62u32)
    } else if code == "C140"@ {
        Some(2000u32)
    } else if code == "C247"@ {
        Some(375u32)
    } else if code == "C248"@ {
        Some(2000u32)
    } else if code == "C391"@ {
        Some(2000u32)
    } else if code == "C414"@ {
        Some(375u32)
    } else if code == "C729"@ {
        Some(375u32)
    } else if code == "D364"@ {
        Some(375u32)
    } else if code == "D382"@ {
        Some(375u32)
    } else if code == "D792"@ {
        Some(1000u32)
    } else if code == "D845"@ {
        Some(375u32)
    } else if code == "E004"@ {
        Some(5u32)
    } else if code == "E175"@ {
        Some(375u32)
    } else if code == "E545"@ {
        Some(375u32)
    } else if code == "E587"@ {
        Some(1000u32)
    } else if code == "F135"@ {
        Some(375u32)
    } else if code == "F216"@ {
        Some(375u32)
    } else if code == "F353"@ {
        Some(62u32)
    } else if code == "F355"@ {
        Some(62u32)
    } else if code == "G008"@ {
        Some(5u32)
    } else if code == "G024"@ {
        Some(375u32)
    } else if code == "H121"@ {
        Some(62u32)
    } else if code == "H296"@ {
        Some(2000u32)
    } else if code == "H900"@ {
        Some(375u32)
    } else if code == "I182"@ {
        Some(375u32)
    } else if code == "J244"@ {
        Some(62u32)
    } else if code == "J377"@ {
        Some(62000u32)
    } else if code == "K329"@ {
        Some(2000u32)
    } else if code == "K346"@ {
        Some(375u32)
    } else if code == "L005"@ {
        Some(5u32)
    } else if code == "L031"@ {
        Some(1000u32)
    } else if code == "L477"@ {
        Some(375u32)
    } else if code == "L614"@ {
        Some(62u32)
    } else if code == "M001"@ {
        Some(5u32)
    } else if code == "M164"@ {
        Some(375u32)
    } else if code == "M267"@ {
        Some(375u32)
    } else if code == "M555"@ {
        Some(1000u32)
    } else if code == "M609"@ {
        Some(62u32)
    } else if code == "N062"@ {
        Some(375u32)
    } else if code == "N110"@ {
        Some(62u32)
    } else if code == "N290"@ {
        Some(2000u32)
    } else if code == "N432"@ {
        Some(2000u32)
    } else if code == "N766"@ {
        Some(375u32)
    } else if code == "N770"@ {
        Some(375u32)
    } else if code == "N944"@ {
        Some(2000u32)
    } else if code == "N968"@ {
        Some(375u32)
    } else if code == "O128"@ {
        Some(375u32)
    } else if code == "O477"@ {
        Some(375u32)
    } else if code == "O883"@ {
        Some(62u32)
    } else if code == "P060"@ {
        Some(62u32)
    } else if code == "Q003"@ {
        Some(5u32)
    } else if code == "Q063"@ {
        Some(62u32)
    } else if code == "Q317"@ {
        Some(62u32)
    } else if code == "R051"@ {
        Some(1000u32)
    } else if code == "R081"@ {
        Some(450u32)
    } else if code == "R259"@ {
        Some(375u32)
    } else if code == "R474"@ {
        Some(375u32)
    } else if code == "R943"@ {
        Some(375u32)
    } else if code == "S047"@ {
        Some(375u32)
    } else if code == "S199"@ {
        Some(2000u32)
    } else if code == "S804"@ {
        Some(62u32)
    } else if code == "S877"@ {
        Some(375u32)
    } else if code == "T405"@ {
        Some(375u32)
    } else if code == "T458"@ {
        Some(62u32)
    } else if code == "U210"@ {
        Some(375u32)
    } else if code == "U319"@ {
        Some(2000u32)
    } else if code == "U372"@ {
        Some(375u32)
    } else if code == "U574"@ {
        Some(375u32)
    } else if code == "V283"@ {
        Some(1000u32)
    } else if code == "V301"@ {
        Some(62u32)
    } else if code == "V753"@ {
        Some(2000u32)
    } else if code == "V898"@ {
        Some(375u32)
    } else if code == "V911"@ {
        Some(2000u32)
    } else if code == "V928"@ {
        Some(375u32)
    } else if code == "W237"@ {
        Some(2000u32)
    } else if code == "X450"@ {
        Some(375u32)
    } else if code == "X702"@ {
        Some(375u32)
    } else if code == "X877"@ {
        Some(375u32)
    } else if code == "Y683"@ {
        Some(375u32)
    } else if code == "Y790"@ {
        Some(62u32)
    } else if code == "Z006"@ {
        Some(5u32)
    } else if code == "Z060"@ {
        Some(62u32)
    } else if code == "Z142"@ {
        Some(2000u32)
    } else if code == "Z457"@ {
        Some(375u32)
    } else if code == "Z647"@ {
        Some(62u32)
    } else if code == "Z971"@ {
        Some(62u32)
    } else {
        None
    }
}

pub fn wormhole_jump_mass(code: &str) -> (r: Option<u32>)
    ensures
        r == jump_mass_of(code@),
{
    if str_eq(code, "A009") {
        Some(5)
    } else if str_eq(code, "A239") {
        Some(375)
    } else if str_eq(code, "A641") {
        Some(1000)
    } else if str_eq(code, "A982") {
        Some(375)
    } else if str_eq(code, "B041") {
        Some(375)
    } else if str_eq(code, "B274") {
        Some(375)
    } else if str_eq(code, "B449") {
        Some(1000)
    } else if str_eq(code, "B520") {
        Some(375)
    } else if str_eq(code, "B735") {
        Some(375)
    } else if str_eq(code, "C008") {
        Some(5)
    } else if str_eq(code, "C125") {
        Some(62)
    } else if str_eq(code, "C140") {
        Some(2000)
    } else if str_eq(code, "C247") {
        Some(375)
    } else if str_eq(code, "C248") {
        Some(2000)
    } else if str_eq(code, "C391") {
        Some(2000)
    } else if str_eq(code, "C414") {
        Some(375)
    } else if str_eq(code, "C729") {
        Some(375)
    } else if str_eq(code, "D364") {
        Some(375)
    } else if str_eq(code, "D382") {
        Some(375)
    } else if str_eq(code, "D792") {
        Some(1000)
    } else if str_eq(code, "D845") {
        Some(375)
    } else if str_eq(code, "E004") {
        Some(5)
    } else if str_eq(code, "E175") {
        Some(375)
    } else if str_eq(code, "E545") {
        Some(375)
    } else if str_eq(code, "E587") {
        Some(1000)
    } else if str_eq(code, "F135") {
        Some(375)
    } else if str_eq(code, "F216") {
        Some(375)
    } else if str_eq(code, "F353") {
        Some(62)
    } else if str_eq(code, "F355") {
        Some(62)
    } else if str_eq(code, "G008") {
        Some(5)
    } else if str_eq(code, "G024") {
        Some(375)
    } else if str_eq(code, "H121") {
        Some(62)
    } else if str_eq(code, "H296") {
        Some(2000)
    } else if str_eq(code, "H900") {
        Some(375)
    } else if str_eq(code, "I182") {
        Some(375)
    } else if str_eq(code, "J244") {
        Some(62)
    } else if str_eq(code, "J377") {
        Some(62000)
    } else if str_eq(code, "K329") {
        Some(2000)
    } else if str_eq(code, "K346") {
        Some(375)
    } else if str_eq(code, "L005") {
        Some(5)
    } else if str_eq(code, "L031") {
        Some(1000)
    } else if str_eq(code, "L477") {
        Some(375)
    } else if str_eq(code, "L614") {
        Some(62)
    } else if str_eq(code, "M001") {
        Some(5)
    } else if str_eq(code, "M164") {
        Some(375)
    } else if str_eq(code, "M267") {
        Some(375)
    } else if str_eq(code, "M555") {
        Some(1000)
    } else if str_eq(code, "M609") {
        Some(62)
    } else if str_eq(code, "N062") {
        Some(375)
    } else if str_eq(code, "N110") {
        Some(62)
    } else if str_eq(code, "N290") {
        Some(2000)
    } else if str_eq(code, "N432") {
        Some(2000)
    } else if str_eq(code, "N766") {
        Some(375)
    } else if str_eq(code, "N770") {
        Some(375)
    } else if str_eq(code, "N944") {
        Some(2000)
    } else if str_eq(code, "N968") {
        Some(375)
    } else if str_eq(code, "O128") {
        Some(375)
    } else if str_eq(code, "O477") {
        Some(375)
    } else if str_eq(code, "O883") {
        Some(62)
    } else if str_eq(code, "P060") {
        Some(62)
    } else if str_eq(code, "Q003") {
        Some(5)
    } else if str_eq(code, "Q063") {
        Some(62)
    } else if str_eq(code, "Q317") {
        Some(62)
    } else if str_eq(code, "R051") {
        Some(1000)
    } else if str_eq(code, "R081") {
        Some(450)
    } else if str_eq(code, "R259") {
        Some(375)
    } else if str_eq(code, "R474") {
        Some(375)
    } else if str_eq(code, "R943") {
        Some(375)
    } else if str_eq(code, "S047") {
        Some(375)
    } else if str_eq(code, "S199") {
        Some(2000)
    } else if str_eq(code, "S804") {
        Some(62)
    } else if str_eq(code, "S877") {
        Some(375)
    } else if str_eq(code, "T405") {
        Some(375)
    } else if str_eq(code, "T458") {
        Some(62)
    } else if str_eq(code, "U210") {
        Some(375)
    } else if str_eq(code, "U319") {
        Some(2000)
    } else if str_eq(code, "U372") {
        Some(375)
    } else if str_eq(code, "U574") {
        Some(375)
    } else if str_eq(code, "V283") {
        Some(1000)
    } else if str_eq(code, "V301") {
        Some(62)
    } else if str_eq(code, "V753") {
        Some(2000)
    } else if str_eq(code, "V898") {
        Some(375)
    } else if str_eq(code, "V911") {
        Some(2000)
    } else if str_eq(code, "V928") {
        Some(375)
    } else if str_eq(code, "W237") {
        Some(2000)
    } else if str_eq(code, "X450") {
        Some(375)
    } else if str_eq(code, "X702") {
        Some(375)
    } else if str_eq(code, "X877") {
        Some(375)
    } else if str_eq(code, "Y683") {
        Some(375)
    } else if str_eq(code, "Y790") {
        Some(62)
    } else if str_eq(code, "Z006") {
        Some(5)
    } else if str_eq(code, "Z060") {
        Some(62)
    } else if str_eq(code, "Z142") {
        Some(2000)
    } else if str_eq(code, "Z457") {
        Some(375)
    } else if str_eq(code, "Z647") {
        Some(62)
    } else if str_eq(code, "Z971") {
        Some(62)
    } else {
        None
    }
}

} // verus!
