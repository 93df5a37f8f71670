//! Pure helpers behind the dashboard's rendering: fixed-width labels and
//! cycling through the available sounds and themes in the settings panel.

use vstd::prelude::*;

use crate::text::str_eq;

verus! {

/// `n` spaces.
pub open spec fn spec_spaces(n: nat) -> Seq<char>
    decreases n,
{
    if n == 0 {
        Seq::empty()
    } else {
        spec_spaces((n - 1) as nat).push(' ')
    }
}

/// A string fitted to a width: too-long text is cut (with an ellipsis when
/// the width leaves room for one), too-short text is padded with spaces.
pub open spec fn spec_pad_or_truncate(s: Seq<char>, width: nat) -> Seq<char> {
    if s.len() > width {
        if width >= 3 {
            s.subrange(0, width - 3) + "..."@
        } else {
            s.subrange(0, width as int)
        }
    } else {
        s + spec_spaces((width - s.len()) as nat)
    }
}

pub fn pad_or_truncate(s: &str, width: usize) -> (r: String)
    ensures
        r@ == spec_pad_or_truncate(s@, width as nat),
{
    let n = s.unicode_len();
    if n > width {
        if width >= 3 {
            let mut t = String::from_str(s.substring_char(0, width - 3));
            t.append("...");
            t
        } else {
            String::from_str(s.substring_char(0, width))
        }
    } else {
        let mut t = String::from_str(s);
        let mut k = n;
        proof {
            reveal_strlit(" ");
            assert(t@ =~= s@ + spec_spaces(0));
        }
        while k < width
            invariant
                n <= k <= width,
                n == s@.len(),
                t@ == s@ + spec_spaces((k - n) as nat),
            decreases width - k,
        {
            t.append(" ");
            proof {
                reveal_strlit(" ");
                assert(" "@ =~= seq![' ']);
                assert(t@ =~= s@ + spec_spaces((k + 1 - n) as nat));
            }
            k += 1;
        }
        t
    }
}

/// The 25-column label of a plate: the project name, joined with its branch
/// when one is known.
pub open spec fn spec_format_label(project: Seq<char>, branch: Option<Seq<char>>) -> Seq<char> {
    let label = match branch {
        Some(b) => project + "/"@ + b,
        None => project,
    };
    spec_pad_or_truncate(label, 25)
}

pub fn format_label(project: &str, branch: Option<&str>) -> (r: String)
    ensures
        r@ == spec_format_label(project@, crate::text::opt_str_view(branch)),
{
    match branch {
        Some(b) => {
            let mut label = String::from_str(project);
            label.append("/");
            label.append(b);
            pad_or_truncate(label.as_str(), 25)
        },
        None => pad_or_truncate(project, 25),
    }
}

/// The selectable notification sounds, in settings order.
pub open spec fn spec_available_sounds() -> Seq<Seq<char>> {
    seq![
        "alert"@,
        "bell"@,
        "click"@,
        "error"@,
        "long-pop"@,
        "peon-angry-1"@,
        "peon-angry-2"@,
        "peon-angry-3"@,
        "peon-angry-4"@,
        "peon-death"@,
        "peon-ready"@,
        "peon-what-1"@,
        "peon-what-2"@,
        "peon-what-3"@,
        "peon-what-4"@,
        "peon-warcry"@,
        "peon-yes-1"@,
        "peon-yes-2"@,
        "peon-yes-3"@,
        "peon-yes-4"@,
        "peon-yes-attack-1"@,
        "peon-yes-attack-2"@,
        "peon-yes-attack-3"@,
        "pop"@,
        "tap"@,
        "none"@,
    ]
}

/// The selectable themes, in settings order.
pub open spec fn spec_available_themes() -> Seq<Seq<char>> {
    seq!["default"@, "light"@, "monochrome"@]
}

/// The views of a list of string slices.
pub open spec fn strsl_view(v: Seq<&str>) -> Seq<Seq<char>> {
    v.map_values(|s: &str| s@)
}

pub fn available_sounds() -> (r: Vec<&'static str>)
    ensures
        strsl_view(r@) == spec_available_sounds(),
{
    let v: Vec<&'static str> = vec![
        "alert",
        "bell",
        "click",
        "error",
        "long-pop",
        "peon-angry-1",
        "peon-angry-2",
        "peon-angry-3",
        "peon-angry-4",
        "peon-death",
        "peon-ready",
        "peon-what-1",
        "peon-what-2",
        "peon-what-3",
        "peon-what-4",
        "peon-warcry",
        "peon-yes-1",
        "peon-yes-2",
        "peon-yes-3",
        "peon-yes-4",
        "peon-yes-attack-1",
        "peon-yes-attack-2",
        "peon-yes-attack-3",
        "pop",
        "tap",
        "none",
    ];
    proof {
        assert(strsl_view(v@) =~= spec_available_sounds());
    }
    v
}

pub fn available_themes() -> (r: Vec<&'static str>)
    ensures
        strsl_view(r@) == spec_available_themes(),
{
    let v: Vec<&'static str> = vec!["default", "light", "monochrome"];
    proof {
        assert(strsl_view(v@) =~= spec_available_themes());
    }
    v
}

/// The index of the first occurrence, or the list's length when absent.
pub open spec fn spec_first_pos(list: Seq<Seq<char>>, x: Seq<char>) -> int
    decreases list.len(),
{
    if list.len() == 0 {
        0
    } else if list[0] == x {
        0
    } else {
        1 + spec_first_pos(list.drop_first(), x)
    }
}

/// Where cycling starts from: the current entry's position, or the first
/// entry when the current value is not in the list.
pub open spec fn spec_cycle_base(list: Seq<Seq<char>>, current: Seq<char>) -> int {
    let fp = spec_first_pos(list, current);
    if fp < list.len() {
        fp
    } else {
        0
    }
}

/// The entry after the current one, wrapping around.
pub open spec fn spec_cycle_next(list: Seq<Seq<char>>, current: Seq<char>) -> Seq<char>
    recommends
        list.len() > 0,
{
    list[(spec_cycle_base(list, current) + 1) % (list.len() as int)]
}

/// The entry before the current one, wrapping around.
pub open spec fn spec_cycle_prev(list: Seq<Seq<char>>, current: Seq<char>) -> Seq<char>
    recommends
        list.len() > 0,
{
    list[(spec_cycle_base(list, current) + list.len() - 1) % (list.len() as int)]
}

/// A scan that mismatches before `i` and matches at `i` (or ran off the
/// end) has found the first occurrence.
proof fn lemma_first_pos_at(list: Seq<Seq<char>>, x: Seq<char>, i: int)
    requires
        0 <= i <= list.len(),
        forall|k: int| 0 <= k < i ==> list[k] != x,
        i < list.len() ==> list[i] == x,
        i == list.len() ==> forall|k: int| 0 <= k < list.len() ==> list[k] != x,
    ensures
        spec_first_pos(list, x) == i,
    decreases i, list.len(),
{
    if list.len() == 0 {
    } else if i == 0 {
        if list.len() > 0 && list[0] != x {
            // i == 0 == list.len() is impossible here, so list[0] == x
            assert(list[0] == x);
        }
    } else {
        assert(list[0] != x);
        lemma_first_pos_at(list.drop_first(), x, i - 1);
    }
}

/// The position to cycle from, computed by scanning.
fn cycle_base(list: &Vec<&'static str>, current: &str) -> (r: usize)
    ensures
        r == spec_cycle_base(strsl_view(list@), current@),
        r < list@.len() || list@.len() == 0,
{
    let ghost l = strsl_view(list@);
    let mut i: usize = 0;
    while i < list.len()
        invariant
            i <= l.len(),
            l == strsl_view(list@),
            l.len() == list@.len(),
            forall|k: int| 0 <= k < i ==> l[k] != current@,
        decreases l.len() - i,
    {
        if str_eq(list[i], current) {
            proof {
                lemma_first_pos_at(l, current@, i as int);
            }
            return i;
        }
        i += 1;
    }
    proof {
        lemma_first_pos_at(l, current@, l.len() as int);
    }
    0
}

/// The sound after the current one in the settings cycle.
pub fn next_sound(current: &str) -> (r: &'static str)
    ensures
        r@ == spec_cycle_next(spec_available_sounds(), current@),
{
    let sounds = available_sounds();
    let base = cycle_base(&sounds, current);
    let n = sounds.len();
    sounds[(base + 1) % n]
}

/// The sound before the current one in the settings cycle.
pub fn prev_sound(current: &str) -> (r: &'static str)
    ensures
        r@ == spec_cycle_prev(spec_available_sounds(), current@),
{
    let sounds = available_sounds();
    let base = cycle_base(&sounds, current);
    let n = sounds.len();
    sounds[(base + n - 1) % n]
}

/// The theme after the current one in the settings cycle.
pub fn next_theme(current: &str) -> (r: &'static str)
    ensures
        r@ == spec_cycle_next(spec_available_themes(), current@),
{
    let themes = available_themes();
    let base = cycle_base(&themes, current);
    let n = themes.len();
    themes[(base + 1) % n]
}

} // verus!
