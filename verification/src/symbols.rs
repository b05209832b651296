//! The symbols the interface draws with: keys, arrows, lines, stars and check marks.
use vstd::prelude::*;

use crate::audio::{stars, AudioRating};

verus! {

pub const TAB: &'static str = "Tab";
pub const ALT: &'static str = "⎇";
pub const CTRL: &'static str = "^";
pub const SHIFT: &'static str = "⇧";
pub const ENTER: &'static str = "↵";
pub const SPACE: &'static str = "Space";
pub const ESCAPE: &'static str = "Esc";
pub const DELETE: &'static str = "Del";
pub const ARROW_UP: &'static str = "￪";
pub const ARROW_DOWN: &'static str = "￬";
pub const ARROW_RIGHT: &'static str = "➔";
pub const ARROW_DOWN_UP: &'static str = "⇵";
pub const ARROW_RIGHT_LEFT: &'static str = "⇄";
pub const ARROW_LEFT_RIGHT: &'static str = "⇆";
pub const ARROW_HEAD_UP: &'static str = "⌃";
pub const ARROW_HEAD_DOWN: &'static str = "⌄";
pub const LINE_VERTICAL_LIGHT: &'static str = "│";
pub const LINE_VERTICAL_HEAVY: &'static str = "┃";
pub const LINE_HORIZONTAL_LIGHT: &'static str = "─";
pub const LINE_HORIZONTAL_LIGHT_CHAR: char = '─';
pub const LINE_HORIZONTAL_HEAVY: &'static str = "━";
pub const SELECTED: &'static str = ">";
pub const SELECTION: &'static str = "|";
pub const STAR: &'static str = "★";
pub const STAR_BIG: &'static str = "🟊";
pub const CHECKMARK_YES: &'static str = "🗸";
pub const CHECKMARK_NO: &'static str = "✗";

/// The check mark for a yes or a no.
pub fn checkmark(b: bool) -> (s: &'static str)
    ensures
        s@ == (if b {
            CHECKMARK_YES@
        } else {
            CHECKMARK_NO@
        }),
{
    if b {
        CHECKMARK_YES
    } else {
        CHECKMARK_NO
    }
}

/// The check mark for a yes or a no, with the value that goes with it.
pub fn checkmark_with_value<T: Copy>(b: bool, yes: T, no: T) -> (r: (&'static str, T))
    ensures
        r.0@ == (if b {
            CHECKMARK_YES@
        } else {
            CHECKMARK_NO@
        }),
        r.1 == (if b {
            yes
        } else {
            no
        }),
{
    if b {
        (CHECKMARK_YES, yes)
    } else {
        (CHECKMARK_NO, no)
    }
}

/// `n` copies of the character `c`.
pub open spec fn repeated(c: char, n: int) -> Seq<char> {
    Seq::new(n as nat, |i: int| c)
}

/// The number of stars a rating shows: none for no rating.
pub open spec fn star_count(rating: Option<AudioRating>) -> int {
    match rating {
        Some(r) => stars(r),
        None => 0,
    }
}

/// The stars of a rating, one small star each.
pub fn stars_of(rating: Option<AudioRating>) -> (s: &'static str)
    ensures
        s@ == repeated('★', star_count(rating)),
{
    match rating {
        None => {
            proof {
                reveal_strlit("");
                assert(""@ =~= repeated('★', 0));
            }
            ""
        },
        Some(AudioRating::Awful) => {
            proof {
                reveal_strlit("★");
                assert("★"@ =~= repeated('★', 1));
            }
            "★"
        },
        Some(AudioRating::Bad) => {
            proof {
                reveal_strlit("★★");
                assert("★★"@ =~= repeated('★', 2));
            }
            "★★"
        },
        Some(AudioRating::Okay) => {
            proof {
                reveal_strlit("★★★");
                assert("★★★"@ =~= repeated('★', 3));
            }
            "★★★"
        },
        Some(AudioRating::Good) => {
            proof {
                reveal_strlit("★★★★");
                assert("★★★★"@ =~= repeated('★', 4));
            }
            "★★★★"
        },
        Some(AudioRating::Amazing) => {
            proof {
                reveal_strlit("★★★★★");
                assert("★★★★★"@ =~= repeated('★', 5));
            }
            "★★★★★"
        },
    }
}

/// The stars of a rating as big stars, and the big stars still missing to five.
pub fn stars_split(rating: Option<AudioRating>) -> (r: (&'static str, &'static str))
    ensures
        r.0@ == repeated('🟊', star_count(rating)),
        r.1@ == repeated('🟊', 5 - star_count(rating)),
{
    proof {
        reveal_strlit("");
        reveal_strlit("🟊");
        reveal_strlit("🟊🟊");
        reveal_strlit("🟊🟊🟊");
        reveal_strlit("🟊🟊🟊🟊");
        reveal_strlit("🟊🟊🟊🟊🟊");
        assert(""@ =~= repeated('🟊', 0));
        assert("🟊"@ =~= repeated('🟊', 1));
        assert("🟊🟊"@ =~= repeated('🟊', 2));
        assert("🟊🟊🟊"@ =~= repeated('🟊', 3));
        assert("🟊🟊🟊🟊"@ =~= repeated('🟊', 4));
        assert("🟊🟊🟊🟊🟊"@ =~= repeated('🟊', 5));
    }
    match rating {
        None => ("", "🟊🟊🟊🟊🟊"),
        Some(AudioRating::Awful) => ("🟊", "🟊🟊🟊🟊"),
        Some(AudioRating::Bad) => ("🟊🟊", "🟊🟊🟊"),
        Some(AudioRating::Okay) => ("🟊🟊🟊", "🟊🟊"),
        Some(AudioRating::Good) => ("🟊🟊🟊🟊", "🟊"),
        Some(AudioRating::Amazing) => ("🟊🟊🟊🟊🟊", ""),
    }
}

} // verus!
