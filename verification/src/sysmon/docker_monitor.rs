//! Container statuses as the Docker daemon lists them, and the crash-loop
//! rule read from them.
use vstd::prelude::*;

use crate::pattern::{captures, opt_text, regex_captures};
use crate::text::{
    chars_of, eq_str, owned, parse_decimal, parse_decimal_chars, string_of, to_lowercase,
    trim_start_matches_set, trim_start_set, unicode_lowercase,
};

verus! {

#[derive(Clone, Debug, PartialEq, Eq)]
pub enum ContainerState {
    Running,
    Exited,
    Restarting,
    Paused,
    Dead,
    Unknown(String),
}

#[derive(Clone, Debug)]
pub struct ContainerStatus {
    pub id: String,
    pub name: String,
    pub image: String,
    pub state: ContainerState,
    pub status: String,
    pub restart_count: u32,
    pub is_crash_looping: bool,
}

/// What the daemon lists of one container, as plain values: its state is
/// the daemon's name for it ("running", "exited", ...).
#[derive(Clone, Debug)]
pub struct ContainerSummary {
    pub id: Option<String>,
    pub names: Option<Vec<String>>,
    pub image: Option<String>,
    pub state: Option<String>,
    pub status: Option<String>,
}

/// The pattern of the restart count in a status such as
/// "Restarting (5) 3 seconds ago".
pub const RESTART_COUNT_PATTERN: &'static str = "\\((\\d+)\\)";

/// The restart count a status text shows: the number in the first
/// parenthesised run of digits, 0 where there is none or it exceeds `u32`.
pub open spec fn restart_count_of(status: Seq<char>) -> u32 {
    match regex_captures(RESTART_COUNT_PATTERN@, status) {
        Some(groups) => if groups.len() > 1 && groups[1] is Some {
            match parse_decimal(groups[1]->Some_0, u32::MAX as nat) {
                Some(n) => n as u32,
                None => 0,
            }
        } else {
            0
        },
        None => 0,
    }
}

/// Reads the restart count out of a status text.
pub fn extract_restart_count(status: &str) -> (r: u32)
    ensures
        r == restart_count_of(status@),
{
    match captures(RESTART_COUNT_PATTERN, status) {
        Some(groups) => {
            if groups.len() > 1 {
                match &groups[1] {
                    Some(g) => {
                        assert(opt_text(groups@[1]) == Some(g@));
                        let digits = chars_of(g.as_str());
                        match parse_decimal_chars(digits.as_slice(), 4294967295u64) {
                            Some(n) => n as u32,
                            None => 0,
                        }
                    },
                    None => {
                        assert(opt_text(groups@[1]) is None);
                        0
                    },
                }
            } else {
                0
            }
        },
        None => 0,
    }
}

/// Whether a lower-cased state name is one of the five the daemon reports.
pub open spec fn known_state(name: Seq<char>) -> bool {
    name == "running"@ || name == "exited"@ || name == "restarting"@ || name == "paused"@ || name == "dead"@
}

/// The name a state goes by.
pub open spec fn state_text(s: ContainerState) -> Seq<char> {
    match s {
        ContainerState::Running => "running"@,
        ContainerState::Exited => "exited"@,
        ContainerState::Restarting => "restarting"@,
        ContainerState::Paused => "paused"@,
        ContainerState::Dead => "dead"@,
        ContainerState::Unknown(o) => o@,
    }
}

/// Whether a state is `Unknown` exactly when its name is none of the five.
pub open spec fn state_well_named(s: ContainerState) -> bool {
    (s is Unknown) == !known_state(state_text(s))
}

/// The state for a lower-cased name.
pub fn state_from_name(name: &str) -> (r: ContainerState)
    ensures
        state_text(r) == name@,
        state_well_named(r),
{
    proof {
        reveal_strlit("running");
        reveal_strlit("exited");
        reveal_strlit("restarting");
        reveal_strlit("paused");
        reveal_strlit("dead");
    }
    let v = chars_of(name);
    if eq_str(v.as_slice(), "running") {
        ContainerState::Running
    } else if eq_str(v.as_slice(), "exited") {
        ContainerState::Exited
    } else if eq_str(v.as_slice(), "restarting") {
        ContainerState::Restarting
    } else if eq_str(v.as_slice(), "paused") {
        ContainerState::Paused
    } else if eq_str(v.as_slice(), "dead") {
        ContainerState::Dead
    } else {
        ContainerState::Unknown(owned(name))
    }
}

/// A status as values: id, name, image, state name, status text, restart
/// count, crash loop.
pub type StatusView = (Seq<char>, Seq<char>, Seq<char>, Seq<char>, Seq<char>, u32, bool);

pub open spec fn status_view(s: ContainerStatus) -> StatusView {
    (s.id@, s.name@, s.image@, state_text(s.state), s.status@, s.restart_count, s.is_crash_looping)
}

pub open spec fn text_or_empty(o: Option<String>) -> Seq<char> {
    match o {
        Some(s) => s@,
        None => seq![],
    }
}

/// The status of a listed container; none for a container without a name.
/// The name loses its leading slashes, the state name is lower-cased
/// ("unknown" where the daemon gives none), and a container crash-loops
/// when restarting or restarted at least three times.
pub open spec fn summary_status(c: ContainerSummary) -> Option<StatusView> {
    match c.names {
        Some(names) => if names@.len() > 0 {
            let state = unicode_lowercase(
                match c.state {
                    Some(s) => s@,
                    None => "unknown"@,
                },
            );
            let status = text_or_empty(c.status);
            let restarts = restart_count_of(status);
            Some(
                (
                    text_or_empty(c.id),
                    trim_start_set(names@[0]@, seq!['/']),
                    text_or_empty(c.image),
                    state,
                    status,
                    restarts,
                    state == "restarting"@ || restarts >= 3,
                ),
            )
        } else {
            None
        },
        None => None,
    }
}

fn text_or_default(o: &Option<String>) -> (r: String)
    ensures
        r@ == text_or_empty(*o),
{
    match o {
        Some(s) => s.clone(),
        None => {
            let e = owned("");
            proof {
                reveal_strlit("");
            }
            assert(e@ =~= seq![]);
            e
        },
    }
}

/// The status of one listed container, if it has a name.
pub fn container_status(c: &ContainerSummary) -> (r: Option<ContainerStatus>)
    ensures
        match r {
            Some(s) => summary_status(*c) == Some(status_view(s)) && state_well_named(s.state),
            None => summary_status(*c) is None,
        },
{
    let names = match &c.names {
        Some(n) => n,
        None => {
            return None;
        },
    };
    if names.len() == 0 {
        return None;
    }
    let first = chars_of(names[0].as_str());
    let slash: [char; 1] = ['/'];
    let trimmed = trim_start_matches_set(first.as_slice(), &slash);
    assert(slash@ =~= seq!['/']);
    let raw_state = match &c.state {
        Some(s) => s.clone(),
        None => owned("unknown"),
    };
    let lower = to_lowercase(raw_state.as_str());
    let state = state_from_name(lower.as_str());
    let status = text_or_default(&c.status);
    let restart_count = extract_restart_count(status.as_str());
    proof {
        reveal_strlit("running");
        reveal_strlit("exited");
        reveal_strlit("restarting");
        reveal_strlit("paused");
        reveal_strlit("dead");
    }
    let is_crash_looping = matches!(state, ContainerState::Restarting) || restart_count >= 3;
    let r = ContainerStatus {
        id: text_or_default(&c.id),
        name: string_of(trimmed.as_slice()),
        image: text_or_default(&c.image),
        state,
        status,
        restart_count,
        is_crash_looping,
    };
    Some(r)
}

/// The statuses of every listed container that has a name, in listing order.
pub open spec fn summaries_statuses(cs: Seq<ContainerSummary>) -> Seq<StatusView>
    decreases cs.len(),
{
    if cs.len() == 0 {
        seq![]
    } else {
        let rest = summaries_statuses(cs.drop_last());
        match summary_status(cs.last()) {
            Some(v) => rest.push(v),
            None => rest,
        }
    }
}

/// The statuses of the listed containers that have a name.
pub fn container_statuses(cs: &Vec<ContainerSummary>) -> (r: Vec<ContainerStatus>)
    ensures
        r@.map_values(|s: ContainerStatus| status_view(s)) == summaries_statuses(cs@),
        forall|i: int| 0 <= i < r@.len() ==> state_well_named(#[trigger] r@[i].state),
{
    let mut r: Vec<ContainerStatus> = Vec::new();
    let mut i: usize = 0;
    while i < cs.len()
        invariant
            i <= cs.len(),
            r@.map_values(|s: ContainerStatus| status_view(s)) == summaries_statuses(cs@.take(i as int)),
            forall|k: int| 0 <= k < r@.len() ==> state_well_named(#[trigger] r@[k].state),
        decreases cs.len() - i,
    {
        let ghost before = r@;
        assert(cs@.take(i + 1).drop_last() =~= cs@.take(i as int));
        assert(cs@.take(i + 1).last() == cs@[i as int]);
        match container_status(&cs[i]) {
            Some(s) => {
                r.push(s);
                assert(r@.map_values(|s: ContainerStatus| status_view(s)) =~= before.map_values(
                    |s: ContainerStatus| status_view(s),
                ).push(status_view(s)));
            },
            None => {},
        }
        i = i + 1;
    }
    assert(cs@.take(cs.len() as int) =~= cs@);
    r
}

/// A container is reported as crash-looping exactly when its state is
/// `restarting` (in any case) or its status shows three or more restarts;
/// the restart count is the one its status text shows.
pub proof fn law_crash_loop(c: ContainerSummary)
    ensures
        summary_status(c) matches Some(v) ==> {
            &&& v.5 == restart_count_of(text_or_empty(c.status))
            &&& v.3 == unicode_lowercase(
                match c.state {
                    Some(s) => s@,
                    None => "unknown"@,
                },
            )
            &&& (v.6 <==> (v.3 == "restarting"@ || v.5 >= 3))
        },
        summary_status(c) is Some <==> (c.names matches Some(n) && n@.len() > 0),
{
}

} // verus!
