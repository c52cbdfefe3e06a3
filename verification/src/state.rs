//! The bot's bookkeeping of pull request builds: how many run at once, which pull requests are
//! being processed, and which packages each build covers.
use std::collections::{HashMap, HashSet};
use vstd::prelude::*;
use vstd::std_specs::iter::IteratorSpec;

use crate::text::{
    chars_of, chars_of_all, decimal, decimal_vec, join, join_vec, push_all, push_str,
    string_from_chars, string_views, views,
};

verus! {

broadcast use vstd::std_specs::hash::group_hash_axioms;

/// The answer to a request to build a pull request.
#[derive(Debug, Clone, Copy, PartialEq, Eq, Structural)]
pub enum Admission {
    /// As many builds as allowed are running already.
    TooManyRunning,
    /// The pull request is being processed already.
    AlreadyRunning,
    /// The build starts; it holds one of the build slots until it finishes.
    Admitted,
}

/// The bookkeeping over mathematical values.
pub struct BotStateView {
    pub max_tasks: nat,
    pub tasks_in_use: nat,
    pub running: Set<u32>,
    pub building: Map<u32, Seq<Seq<char>>>,
    /// The pull request whose build is working on the nixpkgs checkout, if any.
    pub git_holder: Option<u32>,
}

/// Running builds and the packages each one builds.
pub struct BotState {
    max_tasks: usize,
    tasks_in_use: usize,
    running: HashSet<u32>,
    building: HashMap<u32, Vec<String>>,
    git_holder: Option<u32>,
}

impl BotStateView {
    /// At most `max_tasks` slots are taken.
    pub open spec fn wf(self) -> bool {
        self.tasks_in_use <= self.max_tasks
    }
}

/// What a request to build pull request `num` is answered, and the bookkeeping after it: no
/// free slot, then the pull request already in progress, then a start that takes a slot.
pub open spec fn admission_step(s: BotStateView, num: u32) -> (Admission, BotStateView) {
    if s.tasks_in_use >= s.max_tasks {
        (Admission::TooManyRunning, s)
    } else if s.running.contains(num) {
        (Admission::AlreadyRunning, s)
    } else {
        (
            Admission::Admitted,
            BotStateView { tasks_in_use: s.tasks_in_use + 1, running: s.running.insert(num), ..s },
        )
    }
}

/// The bookkeeping after the handling of a request for pull request `num` ends: its slot is
/// freed if it had one, and the pull request is no longer listed as running or building.
pub open spec fn finish(s: BotStateView, num: u32, admitted: bool) -> BotStateView {
    BotStateView {
        tasks_in_use: if admitted {
            (s.tasks_in_use - 1) as nat
        } else {
            s.tasks_in_use
        },
        running: s.running.remove(num),
        building: s.building.remove(num),
        ..s
    }
}

/// The bookkeeping after pull request `num` starts building `pkgs`.
pub open spec fn record_building(s: BotStateView, num: u32, pkgs: Seq<Seq<char>>) -> BotStateView {
    BotStateView { building: s.building.insert(num, pkgs), ..s }
}

/// A build asks to work on the nixpkgs checkout (git and jj operations): it may when no other
/// build is working on it, and then holds it.
pub open spec fn enter_git(s: BotStateView, num: u32) -> (bool, BotStateView) {
    if s.git_holder is None {
        (true, BotStateView { git_holder: Some(num), ..s })
    } else {
        (false, s)
    }
}

/// The build of pull request `num` is done with the nixpkgs checkout.
pub open spec fn leave_git(s: BotStateView, num: u32) -> BotStateView {
    if s.git_holder == Some(num) {
        BotStateView { git_holder: None, ..s }
    } else {
        s
    }
}

/// One line of the status message: `PR <num>: <packages separated by spaces>`.
pub open spec fn status_line(num: u32, pkgs: Seq<Seq<char>>) -> Seq<char> {
    "PR "@ + decimal(num as nat) + ": "@ + join(pkgs, " "@)
}

/// `order` lists every pull request that is building exactly once.
pub open spec fn is_listing_order(order: Seq<u32>, b: Map<u32, Seq<Seq<char>>>) -> bool {
    &&& order.no_duplicates()
    &&& forall|k: u32| #[trigger] order.contains(k) <==> b.contains_key(k)
}

/// The status message for the builds in progress listed in `order`: one line per build.
pub open spec fn status_message(order: Seq<u32>, b: Map<u32, Seq<Seq<char>>>) -> Seq<char> {
    join(order.map_values(|k: u32| status_line(k, b[k])), "\n"@)
}

impl BotState {
    /// The bookkeeping over mathematical values.
    pub closed spec fn view(&self) -> BotStateView {
        BotStateView {
            max_tasks: self.max_tasks as nat,
            tasks_in_use: self.tasks_in_use as nat,
            running: self.running@,
            building: self.building@.map_values(|v: Vec<String>| string_views(v@)),
            git_holder: self.git_holder,
        }
    }

    /// No build running, at most `max_tasks` at once.
    pub fn new(max_tasks: usize) -> (s: Self)
        ensures
            s.view() == (BotStateView {
                max_tasks: max_tasks as nat,
                tasks_in_use: 0,
                running: Set::empty(),
                building: Map::empty(),
                git_holder: None,
            }),
            s.view().wf(),
    {
        let s = BotState {
            max_tasks,
            tasks_in_use: 0,
            running: HashSet::new(),
            building: HashMap::new(),
            git_holder: None,
        };
        assert(s.view().building =~= Map::<u32, Seq<Seq<char>>>::empty());
        s
    }

    /// Answers a request to build pull request `num` and books a slot when it starts.
    pub fn try_admit(&mut self, num: u32) -> (a: Admission)
        requires
            old(self).view().wf(),
        ensures
            (a, final(self).view()) == admission_step(old(self).view(), num),
            final(self).view().wf(),
    {
        if self.tasks_in_use >= self.max_tasks {
            return Admission::TooManyRunning;
        }
        if self.running.contains(&num) {
            return Admission::AlreadyRunning;
        }
        self.running.insert(num);
        self.tasks_in_use = self.tasks_in_use + 1;
        Admission::Admitted
    }

    /// Ends the handling of a request for pull request `num`; `admitted` tells whether it held a
    /// slot.
    pub fn finish(&mut self, num: u32, admitted: bool)
        requires
            old(self).view().wf(),
            admitted ==> old(self).view().tasks_in_use > 0,
        ensures
            final(self).view() == finish(old(self).view(), num, admitted),
            final(self).view().wf(),
    {
        let ghost b0 = self.building@;
        if admitted {
            self.tasks_in_use = self.tasks_in_use - 1;
        }
        self.running.remove(&num);
        self.building.remove(&num);
        assert(self.building@.map_values(|v: Vec<String>| string_views(v@)) =~= b0.map_values(
            |v: Vec<String>| string_views(v@),
        ).remove(num));
    }

    /// Records that pull request `num` builds `pkgs`, replacing an earlier record of it.
    pub fn record_building(&mut self, num: u32, pkgs: Vec<String>)
        requires
            old(self).view().wf(),
        ensures
            final(self).view() == record_building(old(self).view(), num, string_views(pkgs@)),
            final(self).view().wf(),
    {
        let ghost b0 = self.building@;
        let ghost pv = string_views(pkgs@);
        self.building.insert(num, pkgs);
        assert(self.building@.map_values(|v: Vec<String>| string_views(v@)) =~= b0.map_values(
            |v: Vec<String>| string_views(v@),
        ).insert(num, pv));
    }

    /// Lets the build of pull request `num` work on the nixpkgs checkout if no other build does;
    /// `false` where it has to wait.
    pub fn try_enter_git(&mut self, num: u32) -> (entered: bool)
        requires
            old(self).view().wf(),
        ensures
            (entered, final(self).view()) == enter_git(old(self).view(), num),
            final(self).view().wf(),
    {
        if self.git_holder.is_none() {
            self.git_holder = Some(num);
            true
        } else {
            false
        }
    }

    /// The build of pull request `num` is done with the nixpkgs checkout.
    pub fn leave_git(&mut self, num: u32)
        requires
            old(self).view().wf(),
        ensures
            final(self).view() == leave_git(old(self).view(), num),
            final(self).view().wf(),
    {
        if self.git_holder == Some(num) {
            self.git_holder = None;
        }
    }

    /// The status message, where a build is in progress: one line per build, in the order in
    /// which the map of builds yields them (which the hasher decides).
    pub fn status_text(&self) -> (r: Option<String>)
        ensures
            r is None <==> self.view().building.dom().len() == 0,
            r matches Some(t) ==> exists|order: Seq<u32>|
                is_listing_order(order, self.view().building) && t@ == status_message(
                    order,
                    self.view().building,
                ),
    {
        let ghost b = self.view().building;
        let ghost m = self.building@;
        let ghost v = vstd::std_specs::hash::spec_hash_map_iter(&self.building).remaining();
        let mut lines: Vec<Vec<char>> = Vec::new();
        let ghost mut order: Seq<u32> = Seq::empty();
        for entry in it: self.building.iter()
            invariant
                b == self.view().building,
                m == self.building@,
                v == vstd::std_specs::hash::spec_hash_map_iter(&self.building).remaining(),
                it.seq() == v,
                lines@.len() == it.index(),
                order.len() == it.index(),
                forall|k: int| 0 <= k < it.index() ==> #[trigger] order[k] == *v[k].0,
                forall|k: int|
                    0 <= k < it.index() ==> #[trigger] lines@[k]@ == status_line(order[k], b[order[k]]),
        {
            let (num, pkgs) = entry;
            assert(m.contains_key(*v[it.index()].0) && m[*v[it.index()].0] == *v[it.index()].1);
            let mut line = chars_of("PR ");
            let n = decimal_vec(*num as u64);
            push_all(&mut line, &n);
            push_str(&mut line, ": ");
            let parts = chars_of_all(pkgs);
            let sep = chars_of(" ");
            let joined = join_vec(&parts, &sep);
            push_all(&mut line, &joined);
            assert(line@ =~= status_line(*num, b[*num]));
            lines.push(line);
            proof {
                order = order.push(*num);
            }
        }
        proof {
            assert(order.len() == v.len());
            assert(v.len() == m.dom().len());
            assert(b.dom() =~= m.dom());
            assert forall|k: u32| #[trigger] order.contains(k) <==> b.contains_key(k) by {
                if order.contains(k) {
                    let i = choose|i: int| 0 <= i < order.len() && order[i] == k;
                    assert(m.contains_key(*v[i].0));
                }
                if b.contains_key(k) {
                    assert(v.contains((&k, &m[k])));
                    let i = choose|i: int| 0 <= i < v.len() && v[i] == (&k, &m[k]);
                    assert(order[i] == k);
                }
            }
            assert forall|i: int, j: int|
                0 <= i < order.len() && 0 <= j < order.len() && i != j implies order[i]
                != order[j] by {
                if order[i] == order[j] {
                    assert(m.contains_key(*v[i].0) && m[*v[i].0] == *v[i].1);
                    assert(m.contains_key(*v[j].0) && m[*v[j].0] == *v[j].1);
                    assert(v[i] == v[j]);
                }
            }
        }
        assert(views(lines@) =~= order.map_values(|k: u32| status_line(k, b[k])));
        let nl = chars_of("\n");
        let text = join_vec(&lines, &nl);
        if lines.len() == 0 {
            assert(b.dom().len() == 0);
            None
        } else {
            assert(is_listing_order(order, b));
            Some(string_from_chars(text))
        }
    }
}

// ---------------------------------------------------------------------------------------------
// Laws
// ---------------------------------------------------------------------------------------------

/// A pull request that was just admitted is not admitted again before its handling ends.
pub proof fn law_no_double_admission(s: BotStateView, num: u32)
    requires
        s.wf(),
        admission_step(s, num).0 == Admission::Admitted,
    ensures
        admission_step(admission_step(s, num).1, num).0 != Admission::Admitted,
{
}

/// Every step keeps the bookkeeping well formed; in particular no more builds run than allowed.
pub proof fn law_steps_keep_bounds(s: BotStateView, num: u32, admitted: bool, pkgs: Seq<Seq<char>>)
    requires
        s.wf(),
        admitted ==> s.tasks_in_use > 0,
    ensures
        admission_step(s, num).1.wf(),
        admission_step(s, num).1.tasks_in_use <= s.max_tasks,
        finish(s, num, admitted).wf(),
        record_building(s, num, pkgs).wf(),
{
}

/// Once the handling of a request ends, the pull request is neither running nor listed as
/// building, and every other pull request keeps its state.
pub proof fn law_finish_clears(s: BotStateView, num: u32, admitted: bool, other: u32)
    requires
        s.wf(),
        other != num,
    ensures
        !finish(s, num, admitted).running.contains(num),
        !finish(s, num, admitted).building.contains_key(num),
        finish(s, num, admitted).running.contains(other) == s.running.contains(other),
        finish(s, num, admitted).building.contains_key(other) == s.building.contains_key(other),
        s.building.contains_key(other) ==> finish(s, num, admitted).building[other]
            == s.building[other],
{
}

/// Admitting a pull request and then ending its handling frees its slot again and leaves it
/// neither running nor building.
pub proof fn law_admit_then_finish(s: BotStateView, num: u32)
    requires
        s.wf(),
        admission_step(s, num).0 == Admission::Admitted,
    ensures
        finish(admission_step(s, num).1, num, true).tasks_in_use == s.tasks_in_use,
        !finish(admission_step(s, num).1, num, true).running.contains(num),
        !finish(admission_step(s, num).1, num, true).building.contains_key(num),
{
}

/// At most one build works on the nixpkgs checkout at a time: while one holds it, no other
/// build may enter, and the holder's leaving lets the next one in.
pub proof fn law_git_exclusive(s: BotStateView, a: u32, b: u32)
    requires
        s.wf(),
        enter_git(s, a).0,
    ensures
        !enter_git(enter_git(s, a).1, b).0,
        enter_git(enter_git(s, a).1, b).1 == enter_git(s, a).1,
        enter_git(leave_git(enter_git(s, a).1, a), b).0,
        admission_step(enter_git(s, a).1, b).1.git_holder == Some(a),
        finish(enter_git(s, a).1, b, false).git_holder == Some(a),
        record_building(enter_git(s, a).1, b, Seq::empty()).git_holder == Some(a),
{
}

} // verus!
