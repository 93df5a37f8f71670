//! State model of the dashboard: which plates are shown in which order,
//! which one is selected, which have been seen, and the small bits of
//! interface state the input loop flips. Rendering and key handling live
//! with the caller; every rule about the list itself is here.

use vstd::prelude::*;

use crate::config::Config;
use crate::models::{spec_needs_attention, Plate, PlateStatus};
use crate::text::{str_eq, strs_view};

verus! {

/// An open plate shown in the attention group.
pub open spec fn spec_open_attention(p: Plate) -> bool {
    !(p.status is Closed) && spec_needs_attention(p.status)
}

/// An open plate shown in the quiet group.
pub open spec fn spec_open_calm(p: Plate) -> bool {
    !(p.status is Closed) && !spec_needs_attention(p.status)
}

pub open spec fn spec_is_closed(p: Plate) -> bool {
    p.status is Closed
}

/// The open plates as displayed: the ones needing attention first, each
/// group in its original order.
pub open spec fn spec_open_plates(plates: Seq<Plate>) -> Seq<Plate> {
    plates.filter(|p: Plate| spec_open_attention(p)) + plates.filter(
        |p: Plate| spec_open_calm(p),
    )
}

pub open spec fn spec_closed_plates(plates: Seq<Plate>) -> Seq<Plate> {
    plates.filter(|p: Plate| spec_is_closed(p))
}

/// The plates behind a sequence of references.
pub open spec fn derefs(v: Seq<&Plate>) -> Seq<Plate> {
    v.map_values(|p: &Plate| *p)
}

/// Whether this session id was marked seen.
pub open spec fn spec_seen_contains(seen: Seq<String>, id: Seq<char>) -> bool {
    exists|i: int| 0 <= i < seen.len() && seen[i]@ == id
}

/// Every plate is shown exactly once: the open and closed groups together
/// are the whole list.
pub proof fn lemma_display_counts(plates: Seq<Plate>)
    ensures
        spec_open_plates(plates).len() + spec_closed_plates(plates).len() == plates.len(),
    decreases plates.len(),
{
    reveal(Seq::filter);
    if plates.len() > 0 {
        lemma_display_counts(plates.drop_last());
    }
}

/// The status recorded for a session at the previous fetch.
pub open spec fn spec_prev_status(
    entries: Seq<(String, PlateStatus)>,
    id: Seq<char>,
) -> Option<PlateStatus> {
    if exists|i: int| 0 <= i < entries.len() && entries[i].0@ == id {
        Some(entries[choose|i: int| 0 <= i < entries.len() && entries[i].0@ == id].1)
    } else {
        None
    }
}

pub open spec fn unique_prev_keys(entries: Seq<(String, PlateStatus)>) -> bool {
    forall|i: int, j: int| 0 <= i < j < entries.len() ==> entries[i].0@ != entries[j].0@
}

/// With unique keys, any matching index is the index the lookup denotes.
proof fn lemma_prev_found(entries: Seq<(String, PlateStatus)>, id: Seq<char>, i: int)
    requires
        unique_prev_keys(entries),
        0 <= i < entries.len(),
        entries[i].0@ == id,
    ensures
        spec_prev_status(entries, id) == Some(entries[i].1),
{
    let j = choose|j: int| 0 <= j < entries.len() && entries[j].0@ == id;
    if i != j {
        assert(entries[i].0@ != entries[j].0@);
    }
}

/// A session whose previous status was `Running` and whose fresh status
/// needs attention has just stopped working: the dashboard surfaces it
/// again and may ring a sound.
pub open spec fn spec_transitioned(prev0: Seq<(String, PlateStatus)>, p: Plate) -> bool {
    spec_prev_status(prev0, p.session_id@) == Some(PlateStatus::Running) && spec_needs_attention(
        p.status,
    )
}

/// Whether a refresh clears the seen mark of this session: some fetched
/// plate with its id transitioned into a non-closed attention state.
pub open spec fn spec_cleared(
    plates: Seq<Plate>,
    prev0: Seq<(String, PlateStatus)>,
    id: Seq<char>,
) -> bool {
    exists|i: int|
        0 <= i < plates.len() && (#[trigger] plates[i]).session_id@ == id && spec_transitioned(
            prev0,
            plates[i],
        ) && !(plates[i].status is Closed)
}

/// The configured sound name for a status a session just transitioned into.
pub open spec fn spec_sound_for(status: PlateStatus, sounds: crate::config::SoundsConfig) -> Seq<
    char,
> {
    match status {
        PlateStatus::AwaitingInput => sounds.awaiting_input@,
        PlateStatus::AwaitingApproval => sounds.awaiting_approval@,
        PlateStatus::Idle => sounds.idle@,
        PlateStatus::Error => sounds.error@,
        PlateStatus::Closed => sounds.closed@,
        _ => "none"@,
    }
}

/// Some fetched plate carries this session id.
pub open spec fn fetched_has(plates: Seq<Plate>, id: Seq<char>) -> bool {
    exists|i: int| 0 <= i < plates.len() && (#[trigger] plates[i]).session_id@ == id
}

pub open spec fn fetched_index(plates: Seq<Plate>, id: Seq<char>) -> int {
    choose|i: int| 0 <= i < plates.len() && (#[trigger] plates[i]).session_id@ == id
}

/// The dashboard's state. `plates` is the last list fetched from the
/// daemon; `seen_plates` the sessions whose attention state the user has
/// acknowledged; `previous_statuses` the statuses of the previous fetch,
/// kept to detect transitions worth a sound.
pub struct App {
    pub plates: Vec<Plate>,
    pub selected_index: Option<usize>,
    pub seen_plates: Vec<String>,
    pub previous_statuses: Vec<(String, PlateStatus)>,
    pub config: Config,
    pub should_quit: bool,
    pub show_sound_settings: bool,
    pub sound_settings_row: usize,
    pub show_auth_banner: bool,
    pub closed_expanded: bool,
    pub status_message: Option<String>,
}

/// The highest selectable position: the last open plate when nothing is
/// closed, otherwise the closed-group header, plus the closed plates when
/// that group is expanded.
pub open spec fn spec_max_selectable(a: App) -> int {
    let o = spec_open_plates(a.plates@).len() as int;
    let c = spec_closed_plates(a.plates@).len() as int;
    if c == 0 {
        if o > 0 {
            o - 1
        } else {
            0
        }
    } else if a.closed_expanded {
        o + c
    } else {
        o
    }
}

/// The plate a selection position denotes, if it denotes one: positions
/// run through the open plates, then the closed-group header, then (when
/// expanded) the closed plates.
pub open spec fn spec_selected_plate(a: App) -> Option<Plate> {
    match a.selected_index {
        Some(idx) => {
            let o = spec_open_plates(a.plates@);
            let c = spec_closed_plates(a.plates@);
            if (idx as int) < o.len() {
                Some(o[idx as int])
            } else if a.closed_expanded && idx > o.len() && idx - o.len() < c.len() + 1 {
                Some(c[idx - o.len() - 1])
            } else {
                None
            }
        },
        None => None,
    }
}

impl App {
    /// A fresh dashboard: nothing fetched yet, first row selected, the
    /// missing-credentials banner shown only while no key is configured and
    /// the banner was never dismissed.
    pub fn new(config: Config, has_api_key: bool, banner_dismissed: bool) -> (r: Self)
        ensures
            r.plates@ == Seq::<Plate>::empty(),
            r.selected_index == Some(0usize),
            r.seen_plates@ == Seq::<String>::empty(),
            r.previous_statuses@ == Seq::<(String, PlateStatus)>::empty(),
            r.config == config,
            r.should_quit == false,
            r.show_sound_settings == false,
            r.sound_settings_row == 0,
            r.show_auth_banner == (!has_api_key && !banner_dismissed),
            r.closed_expanded == false,
            r.status_message is None,
    {
        App {
            plates: Vec::new(),
            selected_index: Some(0),
            seen_plates: Vec::new(),
            previous_statuses: Vec::new(),
            config,
            should_quit: false,
            show_sound_settings: false,
            sound_settings_row: 0,
            show_auth_banner: !has_api_key && !banner_dismissed,
            closed_expanded: false,
            status_message: None,
        }
    }

    /// Hides the missing-credentials banner; recording the dismissal on
    /// disk is the caller's concern.
    pub fn dismiss_auth_banner(&mut self)
        ensures
            *final(self) == (App { show_auth_banner: false, ..*old(self) }),
    {
        self.show_auth_banner = false;
    }

    /// The open plates, the ones needing attention first.
    pub fn open_plates(&self) -> (r: Vec<&Plate>)
        ensures
            derefs(r@) == spec_open_plates(self.plates@),
    {
        let ghost all = self.plates@;
        let ghost att = |p: Plate| spec_open_attention(p);
        let ghost calm = |p: Plate| spec_open_calm(p);
        let mut out: Vec<&Plate> = Vec::new();
        let mut i: usize = 0;
        proof {
            reveal(Seq::filter);
            assert(all.subrange(0, 0) =~= Seq::<Plate>::empty());
            assert(derefs(out@) =~= all.subrange(0, 0).filter(att));
        }
        while i < self.plates.len()
            invariant
                i <= all.len(),
                self.plates@ == all,
                att == (|p: Plate| spec_open_attention(p)),
                derefs(out@) == all.subrange(0, i as int).filter(att),
            decreases all.len() - i,
        {
            let p = &self.plates[i];
            let keep = p.status != PlateStatus::Closed && p.status.needs_attention();
            proof {
                reveal(Seq::filter);
                assert(all.subrange(0, i + 1).drop_last() =~= all.subrange(0, i as int));
                assert(all.subrange(0, i + 1).last() == all[i as int]);
            }
            if keep {
                out.push(p);
            }
            proof {
                assert(derefs(out@) =~= all.subrange(0, i + 1).filter(att));
            }
            i += 1;
        }
        let ghost att_part = all.filter(att);
        proof {
            assert(all.subrange(0, all.len() as int) =~= all);
        }
        let mut j: usize = 0;
        proof {
            reveal(Seq::filter);
            assert(derefs(out@) =~= att_part + all.subrange(0, 0).filter(calm));
        }
        while j < self.plates.len()
            invariant
                j <= all.len(),
                self.plates@ == all,
                att_part == all.filter(att),
                att == (|p: Plate| spec_open_attention(p)),
                calm == (|p: Plate| spec_open_calm(p)),
                derefs(out@) == att_part + all.subrange(0, j as int).filter(calm),
            decreases all.len() - j,
        {
            let p = &self.plates[j];
            let keep = p.status != PlateStatus::Closed && !p.status.needs_attention();
            let ghost out0 = out@;
            if keep {
                out.push(p);
            }
            proof {
                reveal(Seq::filter);
                assert(all.subrange(0, j + 1).drop_last() =~= all.subrange(0, j as int));
                assert(all.subrange(0, j + 1).last() == all[j as int]);
                if keep {
                    assert(derefs(out@) =~= derefs(out0).push(all[j as int]));
                    assert(att_part + all.subrange(0, j + 1).filter(calm) =~= (att_part
                        + all.subrange(0, j as int).filter(calm)).push(all[j as int]));
                } else {
                    assert(out@ == out0);
                }
                assert(derefs(out@) =~= att_part + all.subrange(0, j + 1).filter(calm));
            }
            j += 1;
        }
        proof {
            assert(all.subrange(0, all.len() as int) =~= all);
        }
        out
    }

    /// The closed plates, in their original order.
    pub fn closed_plates(&self) -> (r: Vec<&Plate>)
        ensures
            derefs(r@) == spec_closed_plates(self.plates@),
    {
        let ghost all = self.plates@;
        let ghost pred = |p: Plate| spec_is_closed(p);
        let mut out: Vec<&Plate> = Vec::new();
        let mut i: usize = 0;
        proof {
            reveal(Seq::filter);
            assert(all.subrange(0, 0) =~= Seq::<Plate>::empty());
            assert(derefs(out@) =~= all.subrange(0, 0).filter(pred));
        }
        while i < self.plates.len()
            invariant
                i <= all.len(),
                self.plates@ == all,
                pred == (|p: Plate| spec_is_closed(p)),
                derefs(out@) == all.subrange(0, i as int).filter(pred),
            decreases all.len() - i,
        {
            let p = &self.plates[i];
            let keep = p.status == PlateStatus::Closed;
            proof {
                reveal(Seq::filter);
                assert(all.subrange(0, i + 1).drop_last() =~= all.subrange(0, i as int));
                assert(all.subrange(0, i + 1).last() == all[i as int]);
            }
            if keep {
                out.push(p);
            }
            proof {
                assert(derefs(out@) =~= all.subrange(0, i + 1).filter(pred));
            }
            i += 1;
        }
        proof {
            assert(all.subrange(0, all.len() as int) =~= all);
        }
        out
    }

    /// Everything the list shows, in display order: the open plates, then
    /// the closed ones when that group is expanded.
    pub fn display_order(&self) -> (r: Vec<&Plate>)
        ensures
            self.closed_expanded ==> derefs(r@) == spec_open_plates(self.plates@)
                + spec_closed_plates(self.plates@),
            !self.closed_expanded ==> derefs(r@) == spec_open_plates(self.plates@),
    {
        let mut open = self.open_plates();
        if self.closed_expanded {
            let mut closed = self.closed_plates();
            let ghost open0 = open@;
            let ghost closed0 = closed@;
            open.append(&mut closed);
            proof {
                assert(derefs(open@) =~= derefs(open0) + derefs(closed0));
            }
        }
        open
    }

    /// Whether the selection sits on the closed-group header.
    pub fn is_on_closed_header(&self) -> (r: bool)
        ensures
            r == (spec_closed_plates(self.plates@).len() > 0 && (self.selected_index matches Some(
                idx,
            ) && idx == spec_open_plates(self.plates@).len())),
    {
        let open_count = self.open_plates().len();
        let closed_count = self.closed_plates().len();
        closed_count > 0 && match self.selected_index {
            Some(idx) => idx == open_count,
            None => false,
        }
    }

    /// Expands or collapses the closed group.
    pub fn toggle_closed(&mut self)
        ensures
            *final(self) == (App { closed_expanded: !old(self).closed_expanded, ..*old(self) }),
    {
        self.closed_expanded = !self.closed_expanded;
    }

    pub fn max_selectable_index(&self) -> (r: usize)
        ensures
            r == spec_max_selectable(*self),
    {
        let total = self.plates.len();
        let open_count = self.open_plates().len();
        let closed_count = self.closed_plates().len();
        proof {
            lemma_display_counts(self.plates@);
            assert(open_count + closed_count <= total);
        }
        if closed_count == 0 {
            if open_count > 0 {
                open_count - 1
            } else {
                0
            }
        } else if self.closed_expanded {
            open_count + closed_count
        } else {
            open_count
        }
    }

    /// Moves the selection one row up; with nothing selected, selects the
    /// last selectable row if there is anything to select.
    pub fn move_up(&mut self)
        ensures
            *final(self) == (App { selected_index: final(self).selected_index, ..*old(self) }),
            final(self).selected_index == match old(self).selected_index {
                Some(idx) => if idx > 0 {
                    Some((idx - 1) as usize)
                } else {
                    Some(idx)
                },
                None => if spec_max_selectable(*old(self)) > 0 || spec_open_plates(
                    old(self).plates@,
                ).len() > 0 || spec_closed_plates(old(self).plates@).len() > 0 {
                    Some(spec_max_selectable(*old(self)) as usize)
                } else {
                    None
                },
            },
    {
        match self.selected_index {
            Some(idx) if idx > 0 => {
                self.selected_index = Some(idx - 1);
            },
            None => {
                let max = self.max_selectable_index();
                if max > 0 || !self.open_plates().is_empty() || self.closed_plates().len() > 0 {
                    self.selected_index = Some(max);
                }
            },
            _ => {},
        }
    }

    /// Moves the selection one row down; with nothing selected, selects the
    /// first row if there is anything to select.
    pub fn move_down(&mut self)
        ensures
            *final(self) == (App { selected_index: final(self).selected_index, ..*old(self) }),
            final(self).selected_index == match old(self).selected_index {
                Some(idx) => if (idx as int) < spec_max_selectable(*old(self)) {
                    Some((idx + 1) as usize)
                } else {
                    Some(idx)
                },
                None => if spec_max_selectable(*old(self)) > 0 || spec_open_plates(
                    old(self).plates@,
                ).len() > 0 || spec_closed_plates(old(self).plates@).len() > 0 {
                    Some(0usize)
                } else {
                    None
                },
            },
    {
        let max = self.max_selectable_index();
        match self.selected_index {
            Some(idx) if idx < max => {
                self.selected_index = Some(idx + 1);
            },
            None => {
                if max > 0 || !self.open_plates().is_empty() || self.closed_plates().len() > 0 {
                    self.selected_index = Some(0);
                }
            },
            _ => {},
        }
    }

    pub fn deselect(&mut self)
        ensures
            *final(self) == (App { selected_index: None, ..*old(self) }),
    {
        self.selected_index = None;
    }

    /// The plate the selection denotes, when it denotes one (the closed
    /// header and out-of-range positions denote none).
    pub fn selected_plate(&self) -> (r: Option<&Plate>)
        ensures
            match r {
                Some(p) => spec_selected_plate(*self) == Some(*p),
                None => spec_selected_plate(*self) is None,
            },
    {
        let idx = match self.selected_index {
            Some(i) => i,
            None => {
                return None;
            },
        };
        let open = self.open_plates();
        let open_count = open.len();
        if idx < open_count {
            Some(open[idx])
        } else if self.closed_expanded && idx > open_count {
            let closed = self.closed_plates();
            let closed_idx = idx - open_count - 1;
            if closed_idx < closed.len() {
                Some(closed[closed_idx])
            } else {
                None
            }
        } else {
            None
        }
    }

    /// Jumps to a selectable position; anything beyond the last one is
    /// ignored.
    pub fn jump(&mut self, index: usize)
        ensures
            *final(self) == (App { selected_index: final(self).selected_index, ..*old(self) }),
            final(self).selected_index == if index as int <= spec_max_selectable(*old(self)) {
                Some(index)
            } else {
                old(self).selected_index
            },
    {
        let max = self.max_selectable_index();
        if index <= max {
            self.selected_index = Some(index);
        }
    }

    /// Marks the selected plate's session as seen.
    pub fn mark_seen(&mut self)
        ensures
            *final(self) == (App { seen_plates: final(self).seen_plates, ..*old(self) }),
            match spec_selected_plate(*old(self)) {
                Some(p) => if spec_seen_contains(old(self).seen_plates@, p.session_id@) {
                    final(self).seen_plates@ == old(self).seen_plates@
                } else {
                    final(self).seen_plates@ == old(self).seen_plates@.push(p.session_id)
                },
                None => final(self).seen_plates@ == old(self).seen_plates@,
            },
    {
        let id: Option<String> = match self.selected_plate() {
            Some(p) => Some(p.session_id.clone()),
            None => None,
        };
        if let Some(id) = id {
            if self.is_unseen(id.as_str()) {
                self.seen_plates.push(id);
            }
        }
    }

    /// Whether this session still counts as unseen.
    pub fn is_unseen(&self, session_id: &str) -> (r: bool)
        ensures
            r == !spec_seen_contains(self.seen_plates@, session_id@),
    {
        let mut i: usize = 0;
        while i < self.seen_plates.len()
            invariant
                i <= self.seen_plates@.len(),
                forall|k: int| 0 <= k < i ==> self.seen_plates@[k]@ != session_id@,
            decreases self.seen_plates@.len() - i,
        {
            if str_eq(self.seen_plates[i].as_str(), session_id) {
                return false;
            }
            i += 1;
        }
        true
    }

    /// How many plates need attention and were not yet seen: the number on
    /// the dashboard's badge.
    pub fn attention_count(&self) -> (c: usize)
        ensures
            c == self.plates@.filter(
                |p: Plate| spec_needs_attention(p.status) && !spec_seen_contains(
                    self.seen_plates@,
                    p.session_id@,
                ),
            ).len(),
    {
        let ghost all = self.plates@;
        let ghost pred = |p: Plate| spec_needs_attention(p.status) && !spec_seen_contains(
            self.seen_plates@,
            p.session_id@,
        );
        let mut c: usize = 0;
        let mut i: usize = 0;
        proof {
            reveal(Seq::filter);
            assert(all.subrange(0, 0) =~= Seq::<Plate>::empty());
        }
        while i < self.plates.len()
            invariant
                i <= all.len(),
                self.plates@ == all,
                pred == (|p: Plate| spec_needs_attention(p.status) && !spec_seen_contains(
                    self.seen_plates@,
                    p.session_id@,
                )),
                c <= i,
                c == all.subrange(0, i as int).filter(pred).len(),
            decreases all.len() - i,
        {
            let p = &self.plates[i];
            let matched = p.status.needs_attention() && self.is_unseen(p.session_id.as_str());
            proof {
                reveal(Seq::filter);
                assert(all.subrange(0, i + 1).drop_last() =~= all.subrange(0, i as int));
                assert(all.subrange(0, i + 1).last() == all[i as int]);
                all.subrange(0, i + 1).drop_last().lemma_filter_len(pred);
            }
            if matched {
                c += 1;
            }
            i += 1;
        }
        proof {
            assert(all.subrange(0, all.len() as int) =~= all);
        }
        c
    }

    /// The status this session carried at the previous fetch.
    fn prev_status(&self, session_id: &str) -> (r: Option<PlateStatus>)
        requires
            unique_prev_keys(self.previous_statuses@),
        ensures
            r == spec_prev_status(self.previous_statuses@, session_id@),
    {
        let mut i: usize = 0;
        while i < self.previous_statuses.len()
            invariant
                i <= self.previous_statuses@.len(),
                unique_prev_keys(self.previous_statuses@),
                forall|k: int| 0 <= k < i ==> self.previous_statuses@[k].0@ != session_id@,
            decreases self.previous_statuses@.len() - i,
        {
            if str_eq(self.previous_statuses[i].0.as_str(), session_id) {
                proof {
                    lemma_prev_found(self.previous_statuses@, session_id@, i as int);
                }
                return Some(self.previous_statuses[i].1);
            }
            i += 1;
        }
        None
    }

    /// Whether a refresh with these plates clears this seen mark.
    fn refresh_clears(&self, plates: &Vec<Plate>, session_id: &str) -> (r: bool)
        requires
            unique_prev_keys(self.previous_statuses@),
        ensures
            r == spec_cleared(plates@, self.previous_statuses@, session_id@),
    {
        let mut i: usize = 0;
        while i < plates.len()
            invariant
                i <= plates@.len(),
                unique_prev_keys(self.previous_statuses@),
                forall|k: int|
                    0 <= k < i ==> !((#[trigger] plates@[k]).session_id@ == session_id@
                        && spec_transitioned(self.previous_statuses@, plates@[k]) && !(
                        plates@[k].status is Closed)),
            decreases plates@.len() - i,
        {
            let p = &plates[i];
            let was_running = match self.prev_status(p.session_id.as_str()) {
                Some(PlateStatus::Running) => true,
                _ => false,
            };
            if str_eq(p.session_id.as_str(), session_id) && was_running
                && p.status.needs_attention() && p.status != PlateStatus::Closed {
                return true;
            }
            i += 1;
        }
        false
    }

    /// The configured sound for a freshly transitioned status.
    fn sound_for(&self, status: PlateStatus) -> (r: String)
        ensures
            r@ == spec_sound_for(status, self.config.sounds),
    {
        match status {
            PlateStatus::AwaitingInput => self.config.sounds.awaiting_input.clone(),
            PlateStatus::AwaitingApproval => self.config.sounds.awaiting_approval.clone(),
            PlateStatus::Idle => self.config.sounds.idle.clone(),
            PlateStatus::Error => self.config.sounds.error.clone(),
            PlateStatus::Closed => self.config.sounds.closed.clone(),
            _ => String::from_str("none"),
        }
    }

    /// Applies one fetched session list: remembers each session's status
    /// for the next round, clears the seen mark of every session that just
    /// stopped working, clamps the selection to the new list, and returns
    /// the names of the sounds to ring (one per fresh transition, in list
    /// order, and none while sounds are disabled).
    #[verifier::rlimit(50)]
    pub fn apply_refresh(&mut self, plates: Vec<Plate>) -> (sounds: Vec<String>)
        requires
            forall|a: int, b: int|
                0 <= a < b < plates@.len() ==> plates@[a].session_id@ != plates@[b].session_id@,
            unique_prev_keys(old(self).previous_statuses@),
        ensures
            final(self).plates@ == plates@,
            final(self).config == old(self).config,
            final(self).should_quit == old(self).should_quit,
            final(self).show_sound_settings == old(self).show_sound_settings,
            final(self).sound_settings_row == old(self).sound_settings_row,
            final(self).show_auth_banner == old(self).show_auth_banner,
            final(self).closed_expanded == old(self).closed_expanded,
            final(self).status_message == old(self).status_message,
            strs_view(sounds@) == if old(self).config.sounds.enabled {
                plates@.filter(
                    |p: Plate| spec_transitioned(old(self).previous_statuses@, p),
                ).map_values(|p: Plate| spec_sound_for(p.status, old(self).config.sounds))
            } else {
                Seq::<Seq<char>>::empty()
            },
            final(self).seen_plates@ == old(self).seen_plates@.filter(
                |s: String| !spec_cleared(plates@, old(self).previous_statuses@, s@),
            ),
            unique_prev_keys(final(self).previous_statuses@),
            forall|id: Seq<char>|
                #[trigger] spec_prev_status(final(self).previous_statuses@, id) == if fetched_has(
                    plates@,
                    id,
                ) {
                    Some(plates@[fetched_index(plates@, id)].status)
                } else {
                    spec_prev_status(old(self).previous_statuses@, id)
                },
            final(self).selected_index == match old(self).selected_index {
                Some(idx) => if idx as int > spec_max_selectable(*final(self)) {
                    if plates@.len() > 0 {
                        Some(spec_max_selectable(*final(self)) as usize)
                    } else {
                        None
                    }
                } else {
                    Some(idx)
                },
                None => None,
            },
    {
        let ghost fetched = plates@;
        let ghost prev0 = self.previous_statuses@;
        let ghost seen0 = self.seen_plates@;
        let ghost tpred = |p: Plate| spec_transitioned(prev0, p);
        let ghost sfun = |p: Plate| spec_sound_for(p.status, self.config.sounds);
        let ghost keeppred = |s: String| !spec_cleared(fetched, prev0, s@);

        // Sounds for fresh transitions, judged against the previous fetch.
        let mut sounds: Vec<String> = Vec::new();
        if self.config.sounds.enabled {
            let mut i: usize = 0;
            proof {
                reveal(Seq::filter);
                assert(fetched.subrange(0, 0) =~= Seq::<Plate>::empty());
                assert(strs_view(sounds@) =~= fetched.subrange(0, 0).filter(tpred).map_values(
                    sfun,
                ));
            }
            while i < plates.len()
                invariant
                    i <= fetched.len(),
                    plates@ == fetched,
                    self == old(self),
                    prev0 == self.previous_statuses@,
                    unique_prev_keys(prev0),
                    tpred == (|p: Plate| spec_transitioned(prev0, p)),
                    sfun == (|p: Plate| spec_sound_for(p.status, self.config.sounds)),
                    strs_view(sounds@) == fetched.subrange(0, i as int).filter(tpred).map_values(
                        sfun,
                    ),
                decreases fetched.len() - i,
            {
                let p = &plates[i];
                let ghost sounds0 = sounds@;
                let was_running = match self.prev_status(p.session_id.as_str()) {
                    Some(PlateStatus::Running) => true,
                    _ => false,
                };
                let transitioned = was_running && p.status.needs_attention();
                if transitioned {
                    let name = self.sound_for(p.status);
                    sounds.push(name);
                }
                proof {
                    reveal(Seq::filter);
                    let prefix1 = fetched.subrange(0, i + 1);
                    assert(prefix1.drop_last() =~= fetched.subrange(0, i as int));
                    assert(prefix1.last() == fetched[i as int]);
                    if tpred(fetched[i as int]) {
                        assert(sounds@ == sounds0.push(sounds@.last()));
                        assert(prefix1.filter(tpred) == fetched.subrange(0, i as int).filter(
                            tpred,
                        ).push(fetched[i as int]));
                        assert(strs_view(sounds@) =~= strs_view(sounds0).push(
                            sfun(fetched[i as int]),
                        ));
                        assert(prefix1.filter(tpred).map_values(sfun) =~= fetched.subrange(
                            0,
                            i as int,
                        ).filter(tpred).map_values(sfun).push(sfun(fetched[i as int])));
                    } else {
                        assert(sounds@ == sounds0);
                        assert(prefix1.filter(tpred) == fetched.subrange(0, i as int).filter(
                            tpred,
                        ));
                    }
                    assert(strs_view(sounds@) =~= prefix1.filter(tpred).map_values(sfun));
                }
                i += 1;
            }
            proof {
                assert(fetched.subrange(0, fetched.len() as int) =~= fetched);
            }
        }

        // Seen marks survive unless their session just transitioned.
        let mut new_seen: Vec<String> = Vec::new();
        let mut k: usize = 0;
        proof {
            reveal(Seq::filter);
            assert(new_seen@ =~= seen0.subrange(0, 0).filter(keeppred));
        }
        while k < self.seen_plates.len()
            invariant
                k <= seen0.len(),
                self == old(self),
                seen0 == self.seen_plates@,
                prev0 == self.previous_statuses@,
                unique_prev_keys(prev0),
                plates@ == fetched,
                keeppred == (|s: String| !spec_cleared(fetched, prev0, s@)),
                new_seen@ == seen0.subrange(0, k as int).filter(keeppred),
            decreases seen0.len() - k,
        {
            let s = &self.seen_plates[k];
            let cleared = self.refresh_clears(&plates, s.as_str());
            proof {
                reveal(Seq::filter);
                assert(seen0.subrange(0, k + 1).drop_last() =~= seen0.subrange(0, k as int));
                assert(seen0.subrange(0, k + 1).last() == seen0[k as int]);
            }
            if !cleared {
                new_seen.push(s.clone());
            }
            k += 1;
        }
        proof {
            assert(seen0.subrange(0, seen0.len() as int) =~= seen0);
        }

        // The new previous-status map: every fetched session at its fresh
        // status, then the remembered entries of sessions not fetched.
        let mut new_prev: Vec<(String, PlateStatus)> = Vec::new();
        let mut i: usize = 0;
        while i < plates.len()
            invariant
                i <= fetched.len(),
                plates@ == fetched,
                new_prev@.len() == i,
                forall|t: int|
                    0 <= t < i ==> (#[trigger] new_prev@[t]).0 == fetched[t].session_id
                        && new_prev@[t].1 == fetched[t].status,
            decreases fetched.len() - i,
        {
            let p = &plates[i];
            new_prev.push((p.session_id.clone(), p.status));
            i += 1;
        }
        let ghost head = new_prev@;
        let mut j: usize = 0;
        while j < self.previous_statuses.len()
            invariant
                j <= prev0.len(),
                self == old(self),
                prev0 == self.previous_statuses@,
                plates@ == fetched,
                head.len() == fetched.len(),
                forall|t: int|
                    0 <= t < head.len() ==> (#[trigger] head[t]).0 == fetched[t].session_id
                        && head[t].1 == fetched[t].status,
                new_prev@.len() >= head.len(),
                new_prev@.subrange(0, head.len() as int) == head,
                forall|t: int|
                    head.len() <= t < new_prev@.len() ==> !fetched_has(
                        fetched,
                        (#[trigger] new_prev@[t]).0@,
                    ) && (exists|u: int|
                        0 <= u < j && prev0[u] == new_prev@[t]),
                forall|a: int, b: int|
                    head.len() <= a < b < new_prev@.len() ==> new_prev@[a].0@ != new_prev@[b].0@,
                forall|u: int|
                    0 <= u < j && !fetched_has(fetched, (#[trigger] prev0[u]).0@) ==> exists|t: int|
                        head.len() <= t < new_prev@.len() && new_prev@[t] == prev0[u],
                unique_prev_keys(prev0),
            decreases prev0.len() - j,
        {
            let entry = &self.previous_statuses[j];
            let mut in_fetched = false;
            let mut t: usize = 0;
            while t < plates.len()
                invariant
                    t <= fetched.len(),
                    plates@ == fetched,
                    prev0 == self.previous_statuses@,
                    j < prev0.len(),
                    entry == &prev0[j as int],
                    in_fetched ==> fetched_has(fetched, prev0[j as int].0@),
                    !in_fetched ==> forall|u: int|
                        0 <= u < t ==> (#[trigger] fetched[u]).session_id@ != prev0[j as int].0@,
                decreases fetched.len() - t,
            {
                if str_eq(plates[t].session_id.as_str(), entry.0.as_str()) {
                    in_fetched = true;
                }
                t += 1;
            }
            let ghost np0 = new_prev@;
            if !in_fetched {
                new_prev.push((entry.0.clone(), entry.1));
                proof {
                    assert(new_prev@.subrange(0, head.len() as int) =~= np0.subrange(
                        0,
                        head.len() as int,
                    ));
                    assert forall|u: int|
                        0 <= u < j + 1 && !fetched_has(
                            fetched,
                            (#[trigger] prev0[u]).0@,
                        ) implies exists|t2: int|
                        head.len() <= t2 < new_prev@.len() && new_prev@[t2] == prev0[u] by {
                        if u < j {
                            let t2 = choose|t2: int|
                                head.len() <= t2 < np0.len() && np0[t2] == prev0[u];
                            assert(new_prev@[t2] == prev0[u]);
                        } else {
                            assert(new_prev@[new_prev@.len() - 1] == prev0[j as int]);
                        }
                    }
                    // The appended key is new among the tail: its owner sits
                    // at position j of the old map, every other tail entry
                    // at an earlier position, and old keys are unique.
                    assert forall|a: int|
                        head.len() <= a < new_prev@.len() - 1 implies new_prev@[a].0@
                        != prev0[j as int].0@ by {
                        let u = choose|u: int| 0 <= u < j && prev0[u] == np0[a];
                        assert(prev0[u].0@ != prev0[j as int].0@);
                    }
                }
            }
            j += 1;
        }

        self.plates = plates;
        self.previous_statuses = new_prev;
        self.seen_plates = new_seen;
        proof {
            let entries = self.previous_statuses@;
            let h = head.len() as int;
            assert(entries.subrange(0, h) == head);
            // Unique keys overall: the fetched part repeats the unique
            // fetched ids, the tail avoids them and is unique itself.
            assert forall|a: int, b: int|
                0 <= a < b < entries.len() implies entries[a].0@ != entries[b].0@ by {
                if b < h {
                    assert(entries.subrange(0, h)[a] == entries[a]);
                    assert(entries.subrange(0, h)[b] == entries[b]);
                    assert(entries[a].0 == fetched[a].session_id);
                    assert(entries[b].0 == fetched[b].session_id);
                } else if a < h {
                    assert(entries.subrange(0, h)[a] == entries[a]);
                    assert(entries[a].0 == fetched[a].session_id);
                    assert(fetched_has(fetched, fetched[a].session_id@));
                    assert(!fetched_has(fetched, entries[b].0@));
                }
            }
            // The lookup contract, id by id.
            assert forall|id: Seq<char>|
                #[trigger] spec_prev_status(entries, id) == (if fetched_has(fetched, id) {
                    Some(fetched[fetched_index(fetched, id)].status)
                } else {
                    spec_prev_status(prev0, id)
                }) by {
                if fetched_has(fetched, id) {
                    let fi = fetched_index(fetched, id);
                    assert(entries.subrange(0, h)[fi] == entries[fi]);
                    assert(entries[fi].0 == fetched[fi].session_id);
                    assert(entries[fi].1 == fetched[fi].status);
                    assert(entries[fi].0@ == id);
                    lemma_prev_found(entries, id, fi);
                } else {
                    if exists|u: int| 0 <= u < prev0.len() && (#[trigger] prev0[u]).0@ == id {
                        let u = choose|u: int|
                            0 <= u < prev0.len() && (#[trigger] prev0[u]).0@ == id;
                        lemma_prev_found(prev0, id, u);
                        let t2 = choose|t2: int|
                            head.len() <= t2 < entries.len() && entries[t2] == prev0[u];
                        lemma_prev_found(entries, id, t2);
                    } else {
                        if exists|e: int| 0 <= e < entries.len() && (#[trigger] entries[e]).0@
                            == id {
                            let e = choose|e: int|
                                0 <= e < entries.len() && (#[trigger] entries[e]).0@ == id;
                            if e < h {
                                assert(entries.subrange(0, h)[e] == entries[e]);
                                assert(entries[e].0 == fetched[e].session_id);
                                assert(fetched[e].session_id@ == id);
                            } else {
                                let u = choose|u: int|
                                    0 <= u < prev0.len() && prev0[u] == entries[e];
                                assert(prev0[u].0@ == id);
                            }
                        }
                    }
                }
            }
        }

        // Clamp the selection to the new list.
        if let Some(idx) = self.selected_index {
            let max = self.max_selectable_index();
            let has_items = !self.open_plates().is_empty() || self.closed_plates().len() > 0;
            proof {
                lemma_display_counts(self.plates@);
            }
            if idx > max {
                self.selected_index = if has_items {
                    Some(max)
                } else {
                    None
                };
            }
        }
        proof {
            if !old(self).config.sounds.enabled {
                assert(strs_view(sounds@) =~= Seq::<Seq<char>>::empty());
            }
        }
        sounds
    }
}

} // verus!
