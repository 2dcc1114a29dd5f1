//! The built-in level layouts, one text block per level, in the line-oriented
//! format that [`crate::level::Level::decode`] reads: one character per cell,
//! `p` the player spawn, `e` an enemy, `g` the goal, `$` the princess.

use vstd::prelude::*;

verus! {

pub const LAYOUT_1: &'static str = "tttttttttt\ntpssssssst\ntsskssssst\ntsssssdsst\ntsessssset\ntsssssssgt\ntttttttttt";

pub const LAYOUT_2: &'static str = "tttttttttt\ntpsassssst\ntssssslwwt\ntsssssssst\ntessssssgt\ntttttttttt";

pub const LAYOUT_3: &'static str = "tttttttttt\ntpshssssst\ntssssssrst\ntessssssst\ntsssssrsgt\ntttttttttt";

pub const LAYOUT_4: &'static str = "tttttttttt\ntpsjssssst\nts1sssss2t\ntsssssssst\ntessssssgt\ntttttttttt";

pub const LAYOUT_5: &'static str = "tttttttttt\ntps+ssssst\ntsesssesst\ntsssssssst\ntssessssgt\ntttttttttt";

pub const LAYOUT_6: &'static str = "tttttttttt\ntpsAsss3st\ntssBsss4st\ntssCsss5st\ntsssssssgt\ntttttttttt";

pub const LAYOUT_7: &'static str = "tttttttttt\ntpsAs3ssst\ntssBs4sost\ntssCs5ssst\ntsssssssgt\ntttttttttt";

pub const LAYOUT_8: &'static str = "tttttttttt\ntpsmmssszt\ntsswwcssst\ntsOsssnsst\ntesssssbgt\ntttttttttt";

pub const LAYOUT_9: &'static str = "tttttttttt\ntpsxssssst\ntsssss0sst\ntsssssssst\ntsssssssgt\ntttttttttt";

pub const LAYOUT_10: &'static str = "tttttttttt\ntpssssssst\ntsks0sssst\ntsdsssss$t\ntsssssssst\ntttttttttt";

/// The layout text of each built-in level; numbers outside the built-in
/// range have none.
pub open spec fn spec_layout(level_number: int) -> Seq<char> {
    if level_number == 1 {
        LAYOUT_1@
    } else if level_number == 2 {
        LAYOUT_2@
    } else if level_number == 3 {
        LAYOUT_3@
    } else if level_number == 4 {
        LAYOUT_4@
    } else if level_number == 5 {
        LAYOUT_5@
    } else if level_number == 6 {
        LAYOUT_6@
    } else if level_number == 7 {
        LAYOUT_7@
    } else if level_number == 8 {
        LAYOUT_8@
    } else if level_number == 9 {
        LAYOUT_9@
    } else if level_number == 10 {
        LAYOUT_10@
    } else {
        Seq::empty()
    }
}

/// The layout text of a built-in level, if the number names one: exactly
/// [`spec_layout`] of that number.
pub fn builtin_layout(level_number: usize) -> (r: Option<&'static str>)
    ensures
        (1 <= level_number <= 10) <==> r is Some,
        r matches Some(s) ==> s@ == spec_layout(level_number as int),
{
    match level_number {
        1 => Some(LAYOUT_1),
        2 => Some(LAYOUT_2),
        3 => Some(LAYOUT_3),
        4 => Some(LAYOUT_4),
        5 => Some(LAYOUT_5),
        6 => Some(LAYOUT_6),
        7 => Some(LAYOUT_7),
        8 => Some(LAYOUT_8),
        9 => Some(LAYOUT_9),
        10 => Some(LAYOUT_10),
        _ => None,
    }
}

} // verus!
