//! Working out what to build from the AUR: each AUR target is fetched, its
//! `.SRCINFO` dependencies are checked one by one, those that no repository
//! has are fetched in turn, and every package is built after its own AUR
//! dependencies. Fetching and asking pacman belong to the caller; this state
//! machine decides what to ask next and keeps the plan.
use vstd::prelude::*;

use crate::engine::{
    base_name_spec, dependency_base_name, is_valid_aur_name, lines, parse_srcinfo_deps,
    srcinfo_deps_of, valid_aur_name,
};
use crate::models::aur_build::AurBuild;
use crate::models::aur_plan::AurPlan;
use crate::text::{push_str, push_string, str_eq, string_from};

verus! {

/// A package being resolved: what fetching it gave, its dependencies and
/// how far they have been checked.
pub struct Frame {
    pub name: String,
    pub explicit: bool,
    pub dir: String,
    pub fresh: bool,
    pub prev_commit: Option<String>,
    pub deps: Vec<String>,
    pub next: usize,
    /// The dependencies of this package that went to the AUR so far.
    pub needs: Ghost<Set<Seq<char>>>,
}

/// What the resolver waits for.
pub enum Phase {
    /// Nothing: a new target may be started.
    Idle,
    /// The top package is being fetched.
    Fetching,
    /// pacman is asked whether the top package's next dependency is
    /// installed.
    Checking,
    /// pacman is asked whether a repository has this package.
    Probing(String),
    /// Resolution failed; the plan is abandoned.
    Failed,
}

/// What the caller reports back.
pub enum ResolveEvent {
    /// The package was cloned (`fresh`) or pulled into `dir`; `prev_commit`
    /// is the commit it was at before a pull, and `srcinfo` the text of its
    /// `.SRCINFO` when it could be read.
    Fetched { dir: String, fresh: bool, prev_commit: Option<String>, srcinfo: Option<String> },
    /// Fetching failed, with this message.
    FetchFailed(String),
    /// Whether the dependency that was asked about is installed.
    Satisfied(bool),
    /// Whether a repository has the package that was asked about.
    InRepo(bool),
}

/// What the caller does next.
pub enum ResolveAction {
    /// Clone or pull this AUR package and read its `.SRCINFO`.
    Fetch(String),
    /// Ask pacman whether this dependency is installed (`pacman -T`).
    CheckSatisfied(String),
    /// Ask pacman whether a repository has this package (`pacman -Si`).
    CheckRepo(String),
    /// Resolution of the current target ended, well or with this error.
    Done(Result<(), String>),
}

pub open spec fn build_names(b: Seq<AurBuild>) -> Seq<Seq<char>> {
    b.map_values(|x: AurBuild| x.name@)
}

pub open spec fn frame_names(f: Seq<Frame>) -> Seq<Seq<char>> {
    f.map_values(|x: Frame| x.name@)
}

/// Each planned package comes after the AUR dependencies it needs, except
/// those that were still being resolved when it was planned (packages that
/// depend on it in turn).
pub open spec fn built_after_needs(
    names: Seq<Seq<char>>,
    needs: Seq<Set<Seq<char>>>,
    context: Seq<Set<Seq<char>>>,
) -> bool {
    forall|i: int, t: Seq<char>|
        0 <= i < names.len() && #[trigger] needs[i].contains(t) ==> names.take(i).contains(t)
            || context[i].contains(t)
}

pub open spec fn invalid_name_message(name: Seq<char>) -> Seq<char> {
    "invalid package name: "@ + name
}

impl Resolver {
    pub open spec fn builds(&self) -> Seq<Seq<char>> {
        build_names(self.plan.builds@)
    }

    pub open spec fn frames(&self) -> Seq<Seq<char>> {
        frame_names(self.stack@)
    }

    pub open spec fn seen(&self) -> Seq<Seq<char>> {
        self.visited.deep_view()
    }

    pub open spec fn top(&self) -> Frame {
        self.stack@.last()
    }

    /// The resolver's invariant: no package is built twice or resolved
    /// while it is built; what is built or being resolved has been visited,
    /// and (unless resolution failed) nothing else has; every such name is
    /// a valid AUR name; and the phase matches the stack.
    pub open spec fn wf(&self) -> bool {
        &&& self.wf_core()
        &&& (self.phase is Checking || self.phase is Probing) ==> self.top().next
            < self.top().deps@.len()
    }

    /// The invariant between steps, where the package on top may have no
    /// dependency left to check.
    pub open spec fn wf_core(&self) -> bool {
        &&& self.builds().no_duplicates()
        &&& self.frames().no_duplicates()
        &&& forall|i: int, j: int|
            0 <= i < self.builds().len() && 0 <= j < self.frames().len() ==> self.builds()[i]
                != self.frames()[j]
        &&& forall|x: Seq<char>| #[trigger] self.builds().contains(x) ==> self.seen().contains(x)
        &&& forall|x: Seq<char>| #[trigger] self.frames().contains(x) ==> self.seen().contains(x)
        &&& !(self.phase is Failed) ==> forall|x: Seq<char>|
            #[trigger] self.seen().contains(x) ==> self.builds().contains(x) || self.frames().contains(x)
        &&& forall|x: Seq<char>| #[trigger] self.builds().contains(x) ==> valid_aur_name(x)
        &&& forall|x: Seq<char>| #[trigger] self.frames().contains(x) ==> valid_aur_name(x)
        &&& forall|k: int|
            0 <= k < self.stack@.len() ==> #[trigger] self.stack@[k].next <= self.stack@[k].deps@.len()
        &&& self.phase is Idle ==> self.stack@.len() == 0
        &&& (self.phase is Fetching || self.phase is Checking || self.phase is Probing)
            ==> self.stack@.len() > 0
        &&& self.build_needs@.len() == self.plan.builds@.len()
        &&& self.build_context@.len() == self.plan.builds@.len()
        &&& built_after_needs(self.builds(), self.build_needs@, self.build_context@)
        &&& !(self.phase is Failed) ==> forall|k: int, t: Seq<char>|
            0 <= k < self.stack@.len() && #[trigger] self.stack@[k].needs@.contains(t)
                ==> self.builds().contains(t) || self.frames().contains(t)
        &&& !(self.phase is Failed) ==> forall|i: int, t: Seq<char>|
            0 <= i < self.builds().len() && #[trigger] self.build_context@[i].contains(t)
                ==> self.builds().skip(i).contains(t) || self.frames().contains(t)
    }
}

/// Resolution state: the packages being resolved (the last is the one
/// worked on), every name visited so far, and the plan built up.
pub struct Resolver {
    pub stack: Vec<Frame>,
    pub visited: Vec<String>,
    pub plan: AurPlan,
    pub phase: Phase,
    /// For each planned build, its dependencies that went to the AUR.
    pub build_needs: Ghost<Seq<Set<Seq<char>>>>,
    /// For each planned build, the packages that were being resolved when
    /// it was planned: itself and the packages that led to it.
    pub build_context: Ghost<Seq<Set<Seq<char>>>>,
}

/// Whether `v` holds `s`.
pub fn contains_str(v: &Vec<String>, s: &str) -> (r: bool)
    ensures
        r == v.deep_view().contains(s@),
{
    let mut i: usize = 0;
    while i < v.len()
        invariant
            i <= v@.len(),
            forall|j: int| 0 <= j < i ==> v.deep_view()[j] != s@,
        decreases v@.len() - i,
    {
        if str_eq(v[i].as_str(), s) {
            assert(v.deep_view()[i as int] == s@);
            return true;
        }
        i += 1;
    }
    false
}

/// Whether `e` answers what the resolver asked in phase `p`.
pub open spec fn answers(p: Phase, e: ResolveEvent) -> bool {
    match e {
        ResolveEvent::Fetched { .. } | ResolveEvent::FetchFailed(_) => p is Fetching,
        ResolveEvent::Satisfied(_) => p is Checking,
        ResolveEvent::InRepo(_) => p is Probing,
    }
}

/// The dependencies that a fetched package's `.SRCINFO` lists, none when
/// it could not be read.
pub open spec fn fetched_deps(srcinfo: Option<String>) -> Seq<Seq<char>> {
    match srcinfo {
        Some(t) => srcinfo_deps_of(lines(t@)),
        None => seq![],
    }
}

/// The resolver went on with package `t` (when `built` packages were
/// planned): it asks about `t`'s next dependency, or, when none is left, has
/// planned `t`.
pub open spec fn continues(t: Frame, built: nat, new: Resolver, a: ResolveAction) -> bool {
    &&& t.next < t.deps@.len() ==> (a matches ResolveAction::CheckSatisfied(d) && d@
        == t.deps.deep_view()[t.next as int])
    &&& t.next >= t.deps@.len() ==> {
        &&& new.plan.builds@.len() > built
        &&& planned_from(new.plan.builds@[built as int], t)
    }
}

/// After the dependency being checked turned out to be installed or in a
/// repository, the resolver goes on with the next dependency of the same
/// package, or, when none is left, plans that package.
pub open spec fn moves_on(old: Resolver, new: Resolver, a: ResolveAction) -> bool {
    let t = old.top();
    &&& t.next + 1 < t.deps@.len() ==> (a matches ResolveAction::CheckSatisfied(d) && d@
        == t.deps.deep_view()[t.next + 1])
    &&& t.next + 1 >= t.deps@.len() ==> {
        &&& new.plan.builds@.len() > old.plan.builds@.len()
        &&& planned_from(new.plan.builds@[old.plan.builds@.len() as int], t)
    }
}

/// The planned build `b` is the package of frame `f`, as fetched.
pub open spec fn planned_from(b: AurBuild, f: Frame) -> bool {
    &&& b.name@ == f.name@
    &&& b.dir@ == f.dir@
    &&& b.explicit == f.explicit
    &&& b.fresh == f.fresh
    &&& b.prev_commit == f.prev_commit
}

pub open spec fn done_ok(a: ResolveAction) -> bool {
    a matches ResolveAction::Done(Ok(_))
}

/// What the resolver keeps across every step: the plan only grows at its
/// end, and each new build is a package that was being resolved.
pub open spec fn grows(old: Resolver, new: Resolver) -> bool {
    &&& old.plan.builds@.len() <= new.plan.builds@.len()
    &&& new.plan.builds@.take(old.plan.builds@.len() as int) == old.plan.builds@
    &&& old.plan.repo_deps.deep_view().len() <= new.plan.repo_deps.deep_view().len()
    &&& new.plan.repo_deps.deep_view().take(old.plan.repo_deps.deep_view().len() as int)
        == old.plan.repo_deps.deep_view()
    &&& old.seen().len() <= new.seen().len()
    &&& new.seen().take(old.seen().len() as int) == old.seen()
}

proof fn lemma_grows_trans(a: Resolver, b: Resolver, c: Resolver)
    requires
        grows(a, b),
        grows(b, c),
    ensures
        grows(a, c),
{
    assert(c.plan.builds@.take(a.plan.builds@.len() as int) =~= b.plan.builds@.take(
        a.plan.builds@.len() as int,
    ));
    assert(c.plan.repo_deps.deep_view().take(a.plan.repo_deps.deep_view().len() as int)
        =~= b.plan.repo_deps.deep_view().take(a.plan.repo_deps.deep_view().len() as int));
    assert(c.seen().take(a.seen().len() as int) =~= b.seen().take(a.seen().len() as int));
}

/// `p` was found to need `t` from the AUR: `t` is among the recorded AUR
/// dependencies of `p`, being resolved or planned.
pub open spec fn recorded(r: Resolver, p: Seq<char>, t: Seq<char>) -> bool {
    ||| exists|k: int|
        0 <= k < r.stack@.len() && r.stack@[k].name@ == p && #[trigger] r.stack@[k].needs@.contains(t)
    ||| exists|i: int|
        0 <= i < r.plan.builds@.len() && r.plan.builds@[i].name@ == p
            && #[trigger] r.build_needs@[i].contains(t)
}

/// Nothing recorded is forgotten.
pub open spec fn keeps_records(a: Resolver, b: Resolver) -> bool {
    forall|p: Seq<char>, t: Seq<char>| #[trigger] recorded(a, p, t) ==> recorded(b, p, t)
}

proof fn lemma_keeps_trans(a: Resolver, b: Resolver, c: Resolver)
    requires
        keeps_records(a, b),
        keeps_records(b, c),
    ensures
        keeps_records(a, c),
{
    assert forall|p: Seq<char>, t: Seq<char>| #[trigger] recorded(a, p, t) implies recorded(c, p, t) by {
        assert(recorded(b, p, t));
    }
}

/// The frames below the top of `a` stay, by name, in `b`, with at least
/// their recorded needs; so do the planned builds.
proof fn lemma_keeps_prefix(a: Resolver, b: Resolver, kept: int)
    requires
        0 <= kept <= a.stack@.len(),
        kept <= b.stack@.len(),
        forall|k: int| 0 <= k < kept ==> #[trigger] b.stack@[k].name@ == a.stack@[k].name@
            && a.stack@[k].needs@.subset_of(b.stack@[k].needs@),
        a.plan.builds@.len() <= b.plan.builds@.len(),
        a.build_needs@.len() == a.plan.builds@.len(),
        forall|i: int| 0 <= i < a.plan.builds@.len() ==> #[trigger] b.plan.builds@[i].name@
            == a.plan.builds@[i].name@ && b.build_needs@[i] == a.build_needs@[i],
        kept < a.stack@.len() ==> {
            &&& kept + 1 == a.stack@.len()
            &&& b.plan.builds@.len() > a.plan.builds@.len()
            &&& b.plan.builds@[a.plan.builds@.len() as int].name@ == a.stack@[kept].name@
            &&& a.stack@[kept].needs@.subset_of(b.build_needs@[a.plan.builds@.len() as int])
        },
    ensures
        keeps_records(a, b),
{
    assert forall|p: Seq<char>, t: Seq<char>| #[trigger] recorded(a, p, t) implies recorded(b, p, t) by {
        if exists|k: int|
            0 <= k < a.stack@.len() && a.stack@[k].name@ == p && #[trigger] a.stack@[k].needs@.contains(t) {
            let k = choose|k: int|
                0 <= k < a.stack@.len() && a.stack@[k].name@ == p && #[trigger] a.stack@[k].needs@.contains(t);
            if k < kept {
                assert(b.stack@[k].name@ == p && b.stack@[k].needs@.contains(t));
            } else {
                let i = a.plan.builds@.len() as int;
                assert(b.plan.builds@[i].name@ == p && b.build_needs@[i].contains(t));
            }
        } else {
            assert(exists|i: int|
                0 <= i < a.plan.builds@.len() && a.plan.builds@[i].name@ == p
                    && #[trigger] a.build_needs@[i].contains(t));
            let i = choose|i: int|
                0 <= i < a.plan.builds@.len() && a.plan.builds@[i].name@ == p
                    && #[trigger] a.build_needs@[i].contains(t);
            assert(b.plan.builds@[i].name@ == a.plan.builds@[i].name@);
            assert(b.plan.builds@[i].name@ == p && b.build_needs@[i].contains(t));
        }
    }
}

/// What every answer promises: a fetch names a valid AUR package seen for
/// the first time, which is now being resolved; success means nothing is
/// left being resolved and every package visited is built once.
pub open spec fn answer_ok(old: Resolver, new: Resolver, a: ResolveAction) -> bool {
    &&& new.wf()
    &&& grows(old, new)
    &&& keeps_records(old, new)
    &&& (a matches ResolveAction::Fetch(n) ==> {
        &&& valid_aur_name(n@)
        &&& !old.seen().contains(n@)
        &&& new.seen() == old.seen().push(n@)
        &&& new.phase is Fetching
        &&& new.top().name@ == n@
    })
    &&& (a matches ResolveAction::CheckSatisfied(d) ==> new.phase is Checking && d@
        == new.top().deps.deep_view()[new.top().next as int])
    &&& (a matches ResolveAction::CheckRepo(b) ==> new.phase matches Phase::Probing(p) && p@ == b@
        && b@ == base_name_spec(new.top().deps.deep_view()[new.top().next as int]))
    &&& (done_ok(a) ==> {
        &&& new.phase is Idle
        &&& new.stack@.len() == 0
        &&& forall|x: Seq<char>| #[trigger] new.seen().contains(x) <==> new.builds().contains(x)
    })
    &&& (a matches ResolveAction::Done(Err(_)) ==> new.phase is Failed)
}

impl Resolver {
    /// A resolver with nothing visited and an empty plan.
    pub fn new() -> (r: Resolver)
        ensures
            r.wf(),
            r.phase is Idle,
            r.seen().len() == 0,
            r.plan.builds@.len() == 0,
            r.plan.repo_deps@.len() == 0,
    {
        let r = Resolver {
            stack: Vec::new(),
            visited: Vec::new(),
            plan: AurPlan::new(),
            phase: Phase::Idle,
            build_needs: Ghost(Seq::empty()),
            build_context: Ghost(Seq::empty()),
        };
        proof {
            assert(r.builds() =~= seq![]);
            assert(r.frames() =~= seq![]);
            assert(r.seen() =~= seq![]);
        }
        r
    }

    /// Starts resolving an AUR target (`explicit` when the user asked for
    /// it). An invalid name fails; a name already visited needs nothing;
    /// any other is fetched.
    pub fn begin(&mut self, name: &str, explicit: bool) -> (a: ResolveAction)
        requires
            old(self).wf(),
            old(self).phase is Idle,
        ensures
            answer_ok(*old(self), *final(self), a),
            !valid_aur_name(name@) ==> (a matches ResolveAction::Done(Err(m)) && m@
                == invalid_name_message(name@)),
            !valid_aur_name(name@) ==> final(self).plan == old(self).plan && final(self).visited
                == old(self).visited,
            valid_aur_name(name@) && old(self).seen().contains(name@) ==> done_ok(a)
                && final(self).plan == old(self).plan && final(self).visited == old(self).visited,
            valid_aur_name(name@) && !old(self).seen().contains(name@) ==> (a matches ResolveAction::Fetch(
                n,
            ) && n@ == name@ && final(self).top().explicit == explicit),
    {
        self.enter(name, explicit, false)
    }

    /// Enters the package `name`: fails on an invalid name, goes on with
    /// the current package when it was visited already, else fetches it.
    fn enter(&mut self, name: &str, explicit: bool, from_parent: bool) -> (a: ResolveAction)
        requires
            old(self).wf_core(),
            old(self).phase is Idle || old(self).phase is Checking,
            old(self).phase is Checking ==> old(self).stack@.len() > 0,
            from_parent ==> old(self).phase is Checking,
        ensures
            answer_ok(*old(self), *final(self), a),
            !valid_aur_name(name@) ==> (a matches ResolveAction::Done(Err(m)) && m@
                == invalid_name_message(name@)),
            !valid_aur_name(name@) ==> final(self).plan == old(self).plan && final(self).visited
                == old(self).visited,
            valid_aur_name(name@) && old(self).seen().contains(name@) && old(self).phase is Idle
                ==> done_ok(a) && final(self).plan == old(self).plan && final(self).visited
                == old(self).visited,
            valid_aur_name(name@) && !old(self).seen().contains(name@) ==> (a matches ResolveAction::Fetch(
                n,
            ) && n@ == name@ && final(self).top().explicit == explicit),
            from_parent && valid_aur_name(name@) ==> recorded(
                *final(self),
                old(self).top().name@,
                name@,
            ),
            old(self).phase is Checking && valid_aur_name(name@) && old(self).seen().contains(name@)
                ==> continues(old(self).top(), old(self).plan.builds@.len(), *final(self), a),
    {
        let ghost s_in = *self;
        if !is_valid_aur_name(name) {
            self.phase = Phase::Failed;
            proof { self.lemma_same_names(s_in); }
            let mut m = string_from("invalid package name: ");
            push_str(&mut m, name);
            proof {
                assert(self.plan.builds@.take(old(self).plan.builds@.len() as int)
                    =~= old(self).plan.builds@);
                assert(self.plan.repo_deps.deep_view().take(
                    old(self).plan.repo_deps.deep_view().len() as int,
                ) =~= old(self).plan.repo_deps.deep_view());
                assert(self.seen().take(old(self).seen().len() as int) =~= old(self).seen());
            }
            return ResolveAction::Done(Err(m));
        }
        if contains_str(&self.visited, name) {
            if self.stack.len() == 0 {
                self.phase = Phase::Idle;
                proof { self.lemma_same_names(s_in); }
                proof {
                    assert(self.plan.builds@.take(old(self).plan.builds@.len() as int)
                        =~= old(self).plan.builds@);
                    assert(self.plan.repo_deps.deep_view().take(
                        old(self).plan.repo_deps.deep_view().len() as int,
                    ) =~= old(self).plan.repo_deps.deep_view());
                    assert(self.seen().take(old(self).seen().len() as int) =~= old(self).seen());
                    assert(self.frames() =~= seq![]);
                }
                return ResolveAction::Done(Ok(()));
            }
            self.phase = Phase::Checking;
            proof { self.lemma_same_names(s_in); }
            if from_parent {
                let ghost s1 = *self;
                self.note_need(name);
                proof {
                    lemma_keeps_trans(s_in, s1, *self);
                    assert(self.top().name@ == s1.top().name@);
                    assert(s1.frames()[s1.stack@.len() - 1] == s_in.frames()[s_in.stack@.len() - 1]);
                    assert(recorded(*self, s_in.top().name@, name@)) by {
                        let k = self.stack@.len() - 1;
                        assert(self.stack@[k].needs@.contains(name@));
                    }
                }
            }
            let ghost s2 = *self;
            let a = self.advance();
            proof {
                lemma_keeps_trans(s_in, s2, *self);
                assert(s2.top().next == s_in.top().next && s2.top().deps == s_in.top().deps);
                assert(planned_from(self.plan.builds@[s_in.plan.builds@.len() as int], s2.top())
                    ==> planned_from(self.plan.builds@[s_in.plan.builds@.len() as int], s_in.top()));
            }
            return a;
        }
        let ghost s0 = *self;
        if from_parent {
            let mut parent = self.stack.pop().unwrap();
            parent.needs = Ghost(parent.needs@.insert(name@));
            self.stack.push(parent);
        }
        let ghost s_mid = *self;
        self.visited.push(string_from(name));
        self.stack.push(
            Frame {
                name: string_from(name),
                explicit,
                dir: String::new(),
                fresh: false,
                prev_commit: None,
                deps: Vec::new(),
                next: 0,
                needs: Ghost(Set::empty()),
            },
        );
        self.phase = Phase::Fetching;
        proof {
            assert(self.seen() =~= s0.seen().push(name@));
            assert(self.frames() =~= s0.frames().push(name@));
            assert(self.builds() == s0.builds());
            assert forall|x: Seq<char>| #[trigger] s0.seen().contains(x) implies self.seen().contains(x) by {
                let k = choose|k: int| 0 <= k < s0.seen().len() && s0.seen()[k] == x;
                assert(self.seen()[k] == x);
            }
            assert(self.seen()[s0.seen().len() as int] == name@);
            assert forall|x: Seq<char>| #[trigger] self.frames().contains(x) implies self.seen().contains(x) by {
                let k = choose|k: int| 0 <= k < self.frames().len() && self.frames()[k] == x;
                if k < s0.frames().len() {
                    assert(s0.frames()[k] == x);
                    assert(s0.frames().contains(x));
                    assert(s0.seen().contains(x));
                }
            }
            assert forall|x: Seq<char>| #[trigger] self.builds().contains(x) implies self.seen().contains(x) by {
                assert(s0.builds().contains(x));
                assert(s0.seen().contains(x));
            }
            assert forall|x: Seq<char>| #[trigger] self.seen().contains(x) implies self.builds().contains(x)
                || self.frames().contains(x) by {
                let k = choose|k: int| 0 <= k < self.seen().len() && self.seen()[k] == x;
                if k < s0.seen().len() {
                    assert(s0.seen()[k] == x);
                    assert(s0.seen().contains(x));
                    if s0.frames().contains(x) {
                        let j = choose|j: int| 0 <= j < s0.frames().len() && s0.frames()[j] == x;
                        assert(self.frames()[j] == x);
                    }
                } else {
                    assert(self.frames()[s0.frames().len() as int] == x);
                }
            }
            assert forall|x: Seq<char>| #[trigger] self.frames().contains(x) implies valid_aur_name(x) by {
                let k = choose|k: int| 0 <= k < self.frames().len() && self.frames()[k] == x;
                if k < s0.frames().len() {
                    assert(s0.frames()[k] == x);
                    assert(s0.frames().contains(x));
                } else {
                    assert(self.frames()[k] == name@);
                }
            }
            assert forall|i: int, j: int|
                0 <= i < self.builds().len() && 0 <= j < self.frames().len() implies self.builds()[i]
                    != self.frames()[j] by {
                if j == s0.frames().len() {
                    if self.builds()[i] == name@ {
                        assert(s0.builds().contains(name@));
                    }
                }
            }
            assert forall|i: int, j: int|
                0 <= i < self.frames().len() && 0 <= j < self.frames().len() && i != j implies self.frames()[i]
                    != self.frames()[j] by {
                if i == s0.frames().len() && s0.frames()[j] == name@ {
                    assert(s0.frames().contains(name@));
                }
                if j == s0.frames().len() && s0.frames()[i] == name@ {
                    assert(s0.frames().contains(name@));
                }
            }
            assert(s_mid.frames() =~= s0.frames());
            assert forall|k: int| 0 <= k < s0.stack@.len() implies #[trigger] s_mid.stack@[k].next
                == s0.stack@[k].next && s_mid.stack@[k].deps == s0.stack@[k].deps by {
                if k < s0.stack@.len() - 1 {
                    assert(s_mid.stack@[k] == s0.stack@[k]);
                }
            }
            assert forall|k: int| 0 <= k < self.stack@.len() implies #[trigger] self.stack@[k].next
                <= self.stack@[k].deps@.len() by {
                if k < s0.stack@.len() {
                    assert(self.stack@[k] == s_mid.stack@[k]);
                }
            }
            assert forall|k: int, t: Seq<char>|
                0 <= k < self.stack@.len() && #[trigger] self.stack@[k].needs@.contains(t)
                    implies self.builds().contains(t) || self.frames().contains(t) by {
                if t == name@ {
                    assert(self.frames()[s0.frames().len() as int] == t);
                } else if k < s0.stack@.len() {
                    assert(self.stack@[k] == s_mid.stack@[k]);
                    if k < s0.stack@.len() - 1 {
                        assert(s_mid.stack@[k] == s0.stack@[k]);
                    }
                    assert(s0.stack@[k].needs@.contains(t));
                    if s0.frames().contains(t) {
                        let j = choose|j: int| 0 <= j < s0.frames().len() && s0.frames()[j] == t;
                        assert(self.frames()[j] == t);
                    }
                }
            }
            assert(self.plan.builds@.take(old(self).plan.builds@.len() as int)
                =~= old(self).plan.builds@);
            assert(self.plan.repo_deps.deep_view().take(
                old(self).plan.repo_deps.deep_view().len() as int,
            ) =~= old(self).plan.repo_deps.deep_view());
            assert(self.seen().take(old(self).seen().len() as int) =~= old(self).seen());
            assert(self.top().name@ == name@);
            assert forall|k: int| 0 <= k < s0.stack@.len() implies #[trigger] self.stack@[k].name@
                == s0.stack@[k].name@ && s0.stack@[k].needs@.subset_of(self.stack@[k].needs@) by {
                assert(self.stack@[k] == s_mid.stack@[k]);
                if k < s0.stack@.len() - 1 {
                    assert(s_mid.stack@[k] == s0.stack@[k]);
                }
            }
            lemma_keeps_prefix(s0, *self, s0.stack@.len() as int);
            if from_parent {
                let k = s0.stack@.len() - 1;
                assert(self.stack@[k] == s_mid.stack@[k]);
                assert(self.stack@[k].needs@.contains(name@));
                assert(recorded(*self, s0.top().name@, name@));
            }
        }
        ResolveAction::Fetch(string_from(name))
    }

    /// Goes on with the package on top: asks about its next dependency, or,
    /// when none is left, moves it to the plan and goes on with the one
    /// below, until the target itself is built.
    fn advance(&mut self) -> (a: ResolveAction)
        requires
            old(self).wf_core(),
            old(self).phase is Checking,
            old(self).stack@.len() > 0,
        ensures
            answer_ok(*old(self), *final(self), a),
            !(a is Fetch),
            final(self).plan.repo_deps == old(self).plan.repo_deps,
            continues(old(self).top(), old(self).plan.builds@.len(), *final(self), a),
    {
        proof {
            self.lemma_unchanged_plan(*old(self));
            lemma_keeps_prefix(*old(self), *self, self.stack@.len() as int);
        }
        loop
            invariant
                self.wf_core(),
                self.phase is Checking,
                self.stack@.len() > 0,
                grows(*old(self), *self),
                keeps_records(*old(self), *self),
                old(self).seen() == self.seen(),
                self.plan.repo_deps == old(self).plan.repo_deps,
                self.plan.builds@.len() == old(self).plan.builds@.len() ==> self.stack@ == old(self).stack@,
                self.plan.builds@.len() > old(self).plan.builds@.len() ==> planned_from(
                    self.plan.builds@[old(self).plan.builds@.len() as int],
                    old(self).top(),
                ) && old(self).top().next >= old(self).top().deps@.len(),
            decreases self.stack@.len(),
        {
            let n = self.stack.len();
            let top = n - 1;
            if self.stack[top].next < self.stack[top].deps.len() {
                let d = self.stack[top].deps[self.stack[top].next].clone();
                proof {
                    assert(d@ == self.top().deps.deep_view()[self.top().next as int]);
                }
                return ResolveAction::CheckSatisfied(d);
            }
            let ghost s0 = *self;
            let frame = self.stack.pop().unwrap();
            let ghost fneeds = frame.needs@;
            let Frame { name, explicit, dir, fresh, prev_commit, deps: _, next: _, needs: _ } = frame;
            let ghost nm = name@;
            self.plan.builds.push(AurBuild { name, dir, explicit, fresh, prev_commit });
            self.build_needs = Ghost(self.build_needs@.push(fneeds));
            self.build_context = Ghost(self.build_context@.push(s0.frames().to_set()));
            let done = self.stack.len() == 0;
            if done {
                self.phase = Phase::Idle;
            }
            proof {
                let f0 = s0.frames();
                let b0 = s0.builds();
                assert(f0[f0.len() - 1] == nm);
                assert(self.frames() =~= f0.drop_last());
                assert(self.builds() =~= b0.push(nm));
                assert forall|i: int, j: int|
                    0 <= i < self.builds().len() && 0 <= j < self.builds().len() && i != j implies self.builds()[i]
                        != self.builds()[j] by {
                    if i == b0.len() {
                        assert(b0[j] != f0[f0.len() - 1]);
                    }
                    if j == b0.len() {
                        assert(b0[i] != f0[f0.len() - 1]);
                    }
                }
                assert forall|i: int, j: int|
                    0 <= i < self.builds().len() && 0 <= j < self.frames().len() implies self.builds()[i]
                        != self.frames()[j] by {
                    if i == b0.len() {
                        assert(f0[j] != f0[f0.len() - 1]);
                    } else {
                        assert(b0[i] != f0[j]);
                    }
                }
                assert forall|x: Seq<char>| #[trigger] self.builds().contains(x) implies self.seen().contains(x) by {
                    let k = choose|k: int| 0 <= k < self.builds().len() && self.builds()[k] == x;
                    if k < b0.len() {
                        assert(b0[k] == x);
                        assert(b0.contains(x));
                    } else {
                        assert(f0[f0.len() - 1] == x);
                        assert(f0.contains(x));
                    }
                }
                assert forall|x: Seq<char>| #[trigger] self.frames().contains(x) implies self.seen().contains(x) by {
                    let k = choose|k: int| 0 <= k < self.frames().len() && self.frames()[k] == x;
                    assert(f0[k] == x);
                    assert(f0.contains(x));
                }
                assert forall|x: Seq<char>| #[trigger] self.seen().contains(x) implies self.builds().contains(x)
                    || self.frames().contains(x) by {
                    assert(b0.contains(x) || f0.contains(x));
                    if b0.contains(x) {
                        let k = choose|k: int| 0 <= k < b0.len() && b0[k] == x;
                        assert(self.builds()[k] == x);
                    } else {
                        let k = choose|k: int| 0 <= k < f0.len() && f0[k] == x;
                        if k == f0.len() - 1 {
                            assert(self.builds()[b0.len() as int] == x);
                        } else {
                            assert(self.frames()[k] == x);
                        }
                    }
                }
                assert forall|x: Seq<char>| #[trigger] self.builds().contains(x) implies valid_aur_name(x) by {
                    let k = choose|k: int| 0 <= k < self.builds().len() && self.builds()[k] == x;
                    if k < b0.len() {
                        assert(b0[k] == x);
                        assert(b0.contains(x));
                    } else {
                        assert(f0[f0.len() - 1] == x);
                        assert(f0.contains(x));
                    }
                }
                assert forall|x: Seq<char>| #[trigger] self.frames().contains(x) implies valid_aur_name(x) by {
                    let k = choose|k: int| 0 <= k < self.frames().len() && self.frames()[k] == x;
                    assert(f0[k] == x);
                    assert(f0.contains(x));
                }
                assert forall|k: int| 0 <= k < self.stack@.len() implies #[trigger] self.stack@[k].next
                    <= self.stack@[k].deps@.len() by {
                    assert(self.stack@[k] == s0.stack@[k]);
                }
                assert(self.plan.builds@.take(old(self).plan.builds@.len() as int)
                    =~= old(self).plan.builds@);
                let top_k = s0.stack@.len() - 1;
                assert(s0.stack@[top_k].needs@ == fneeds);
                assert forall|i: int, t: Seq<char>|
                    0 <= i < self.builds().len() && #[trigger] self.build_needs@[i].contains(t)
                        implies self.builds().take(i).contains(t) || self.build_context@[i].contains(t) by {
                    if i < b0.len() {
                        assert(self.build_needs@[i] == s0.build_needs@[i]);
                        assert(self.build_context@[i] == s0.build_context@[i]);
                        assert(self.builds().take(i) =~= b0.take(i));
                    } else {
                        assert(s0.stack@[top_k].needs@.contains(t));
                        assert(b0.contains(t) || f0.contains(t));
                        assert(self.builds().take(i) =~= b0);
                        if f0.contains(t) {
                            assert(f0.to_set().contains(t));
                        }
                    }
                }
                assert forall|k: int| 0 <= k < self.stack@.len() implies #[trigger] self.stack@[k].name@
                    == s0.stack@[k].name@ && s0.stack@[k].needs@.subset_of(self.stack@[k].needs@) by {
                    assert(self.stack@[k] == s0.stack@[k]);
                }
                assert forall|i: int| 0 <= i < s0.plan.builds@.len() implies #[trigger] self.plan.builds@[i].name@
                    == s0.plan.builds@[i].name@ && self.build_needs@[i] == s0.build_needs@[i] by {
                    assert(self.plan.builds@[i] == s0.plan.builds@[i]);
                }
                lemma_keeps_prefix(s0, *self, top_k);
                lemma_keeps_trans(*old(self), s0, *self);
                assert forall|i: int, t: Seq<char>|
                    0 <= i < self.builds().len() && #[trigger] self.build_context@[i].contains(t)
                        implies self.builds().skip(i).contains(t) || self.frames().contains(t) by {
                    if i < b0.len() {
                        assert(self.build_context@[i] == s0.build_context@[i]);
                        if b0.skip(i).contains(t) {
                            let j = choose|j: int| 0 <= j < b0.skip(i).len() && b0.skip(i)[j] == t;
                            assert(self.builds().skip(i)[j] == t);
                        } else {
                            let j = choose|j: int| 0 <= j < f0.len() && f0[j] == t;
                            if j == f0.len() - 1 {
                                assert(self.builds().skip(i)[b0.len() - i] == t);
                            } else {
                                assert(self.frames()[j] == t);
                            }
                        }
                    } else {
                        assert(f0.to_set().contains(t));
                        let j = choose|j: int| 0 <= j < f0.len() && f0[j] == t;
                        if j == f0.len() - 1 {
                            assert(self.builds().skip(i)[0] == t);
                        } else {
                            assert(self.frames()[j] == t);
                        }
                    }
                }
                assert forall|k: int, t: Seq<char>|
                    0 <= k < self.stack@.len() && #[trigger] self.stack@[k].needs@.contains(t)
                        implies self.builds().contains(t) || self.frames().contains(t) by {
                    assert(self.stack@[k] == s0.stack@[k]);
                    assert(s0.stack@[k].needs@.contains(t));
                    assert(b0.contains(t) || f0.contains(t));
                    if b0.contains(t) {
                        let j = choose|j: int| 0 <= j < b0.len() && b0[j] == t;
                        assert(self.builds()[j] == t);
                    } else {
                        let j = choose|j: int| 0 <= j < f0.len() && f0[j] == t;
                        if j == f0.len() - 1 {
                            assert(self.builds()[b0.len() as int] == t);
                        } else {
                            assert(self.frames()[j] == t);
                        }
                    }
                }
            }
            if done {
                proof {
                    assert(self.frames() =~= seq![]);
                }
                return ResolveAction::Done(Ok(()));
            }
        }
    }

    /// Takes the caller's report and says what to do next. A report that
    /// does not answer what was asked fails the resolution.
    pub fn feed(&mut self, event: ResolveEvent) -> (a: ResolveAction)
        requires
            old(self).wf(),
        ensures
            answer_ok(*old(self), *final(self), a),
            !answers(old(self).phase, event) ==> a matches ResolveAction::Done(Err(_)),
            old(self).phase is Fetching ==> (event matches ResolveEvent::Fetched {
                dir,
                fresh,
                prev_commit,
                srcinfo,
            } ==> {
                let deps = fetched_deps(srcinfo);
                &&& deps.len() > 0 ==> (a matches ResolveAction::CheckSatisfied(d) && d@ == deps[0])
                &&& deps.len() == 0 ==> {
                    &&& final(self).plan.builds@.len() > old(self).plan.builds@.len()
                    &&& final(self).plan.builds@[old(self).plan.builds@.len() as int].name@
                        == old(self).top().name@
                    &&& final(self).plan.builds@[old(self).plan.builds@.len() as int].dir@ == dir@
                    &&& final(self).plan.builds@[old(self).plan.builds@.len() as int].fresh == fresh
                    &&& final(self).plan.builds@[old(self).plan.builds@.len() as int].prev_commit
                        == prev_commit
                    &&& final(self).plan.builds@[old(self).plan.builds@.len() as int].explicit
                        == old(self).top().explicit
                }
            }),
            old(self).phase is Fetching ==> (event matches ResolveEvent::FetchFailed(e) ==> (a matches ResolveAction::Done(
                Err(m),
            ) && m@ == e@)),
            old(self).phase is Checking && event == ResolveEvent::Satisfied(false) ==> (a matches ResolveAction::CheckRepo(
                b,
            ) && b@ == base_name_spec(old(self).top().deps.deep_view()[old(self).top().next as int])),
            old(self).phase is Checking && event == ResolveEvent::Satisfied(true) ==> moves_on(
                *old(self),
                *final(self),
                a,
            ),
            old(self).phase matches Phase::Probing(b) ==> (event == ResolveEvent::InRepo(true) ==> {
                &&& final(self).plan.repo_deps.deep_view() == old(self).plan.repo_deps.deep_view().push(b@)
                &&& moves_on(*old(self), *final(self), a)
            }),
            old(self).phase matches Phase::Probing(b) ==> (event == ResolveEvent::InRepo(false) ==> {
                &&& !valid_aur_name(b@) ==> (a matches ResolveAction::Done(Err(m)) && m@
                    == invalid_name_message(b@))
                &&& valid_aur_name(b@) ==> recorded(*final(self), old(self).top().name@, b@)
                &&& valid_aur_name(b@) && !old(self).seen().contains(b@) ==> (a matches ResolveAction::Fetch(
                    n,
                ) && n@ == b@)
                &&& valid_aur_name(b@) && old(self).seen().contains(b@) ==> moves_on(
                    *old(self),
                    *final(self),
                    a,
                )
            }),
    {
        let ghost s0 = *self;
        match event {
            ResolveEvent::Fetched { dir, fresh, prev_commit, srcinfo } => {
                if !matches!(self.phase, Phase::Fetching) {
                    return self.fail("the resolver was not fetching");
                }
                let deps = match srcinfo {
                    Some(text) => parse_srcinfo_deps(text.as_str()),
                    None => Vec::new(),
                };
                let mut frame = self.stack.pop().unwrap();
                frame.dir = dir;
                frame.fresh = fresh;
                frame.prev_commit = prev_commit;
                frame.deps = deps;
                frame.next = 0;
                self.stack.push(frame);
                self.phase = Phase::Checking;
                proof {
                    assert(self.frames() =~= s0.frames());
                    assert(self.top().name@ == s0.top().name@);
                    assert(self.top().deps@.len() == self.top().deps.deep_view().len());
                    assert forall|k: int| 0 <= k < self.stack@.len() implies #[trigger] self.stack@[k].next
                        <= self.stack@[k].deps@.len() by {
                        if k < s0.stack@.len() - 1 {
                            assert(self.stack@[k] == s0.stack@[k]);
                        }
                    }
                    assert forall|k: int| 0 <= k < self.stack@.len() implies #[trigger] self.stack@[k].needs
                        == s0.stack@[k].needs by {
                        if k < s0.stack@.len() - 1 {
                            assert(self.stack@[k] == s0.stack@[k]);
                        }
                    }
                    self.lemma_same_names(s0);
                    self.lemma_unchanged_plan(s0);
                }
                let ghost mid = *self;
                let a = self.advance();
                proof {
                    lemma_grows_trans(s0, mid, *self);
                }
                a
            },
            ResolveEvent::FetchFailed(e) => {
                if !matches!(self.phase, Phase::Fetching) {
                    return self.fail("the resolver was not fetching");
                }
                self.phase = Phase::Failed;
                proof { self.lemma_same_names(s0); }
                proof {
                    self.lemma_unchanged_plan(s0);
                }
                ResolveAction::Done(Err(e))
            },
            ResolveEvent::Satisfied(yes) => {
                if !matches!(self.phase, Phase::Checking) {
                    return self.fail("the resolver was not checking a dependency");
                }
                let top = self.stack.len() - 1;
                if yes {
                    self.bump_top();
                    let ghost mid = *self;
                    proof {
                        self.lemma_unchanged_plan(s0);
                        assert(mid.top().next == s0.top().next + 1);
                        assert(mid.top().deps == s0.top().deps);
                    }
                    let a = self.advance();
                    proof {
                        lemma_grows_trans(s0, mid, *self);
                    }
                    return a;
                }
                let base = dependency_base_name(self.stack[top].deps[self.stack[top].next].as_str());
                assert(self.top().deps.deep_view()[self.top().next as int] == self.top().deps@[self.top().next as int]@);
                self.phase = Phase::Probing(base.clone());
                proof { self.lemma_same_names(s0); }
                proof {
                    self.lemma_unchanged_plan(s0);
                }
                ResolveAction::CheckRepo(base)
            },
            ResolveEvent::InRepo(yes) => {
                let base = match &self.phase {
                    Phase::Probing(b) => b.clone(),
                    _ => {
                        return self.fail("the resolver was not asking about a repository");
                    },
                };
                self.phase = Phase::Checking;
                proof { self.lemma_same_names(s0); }
                let ghost sb = *self;
                self.bump_top();
                proof {
                    assert(sb.top() == s0.top());
                    assert(self.top().next == s0.top().next + 1);
                    assert(self.top().deps == s0.top().deps);
                }
                if yes {
                    let ghost s1 = *self;
                    push_string(&mut self.plan.repo_deps, base.as_str());
                    proof {
                        assert(self.builds() == s1.builds());
                        self.lemma_same_names(s1);
                        assert(self.plan.repo_deps.deep_view().take(
                            s0.plan.repo_deps.deep_view().len() as int,
                        ) =~= s0.plan.repo_deps.deep_view());
                        assert(self.plan.builds@.take(s0.plan.builds@.len() as int)
                            =~= s0.plan.builds@);
                        assert(self.seen().take(s0.seen().len() as int) =~= s0.seen());
                    }
                    let ghost mid = *self;
                    proof {
                        assert(mid.stack == s1.stack);
                        assert(mid.top() == s1.top());
                    }
                    let a = self.advance();
                    proof {
                        lemma_grows_trans(s0, mid, *self);
                    }
                    return a;
                }
                let ghost mid = *self;
                proof {
                    self.lemma_unchanged_plan(s0);
                    assert(mid.frames()[mid.stack@.len() - 1] == s0.frames()[s0.stack@.len() - 1]);
                }
                let a = self.enter(base.as_str(), false, true);
                proof {
                    lemma_grows_trans(s0, mid, *self);
                }
                a
            },
        }
    }

    /// Records that the package on top needs `name` from the AUR, which is
    /// planned or being resolved already.
    fn note_need(&mut self, name: &str)
        requires
            old(self).wf_core(),
            old(self).phase is Checking,
            old(self).stack@.len() > 0,
            old(self).builds().contains(name@) || old(self).frames().contains(name@),
        ensures
            final(self).wf_core(),
            final(self).phase == old(self).phase,
            final(self).plan == old(self).plan,
            final(self).visited == old(self).visited,
            final(self).build_needs == old(self).build_needs,
            final(self).build_context == old(self).build_context,
            final(self).frames() == old(self).frames(),
            final(self).stack@.len() == old(self).stack@.len(),
            keeps_records(*old(self), *final(self)),
            final(self).top().name@ == old(self).top().name@,
            final(self).top().needs@.contains(name@),
            final(self).top() == (Frame { needs: final(self).top().needs, ..old(self).top() }),
    {
        let ghost s0 = *self;
        let mut top = self.stack.pop().unwrap();
        top.needs = Ghost(top.needs@.insert(name@));
        self.stack.push(top);
        proof {
            assert(self.frames() =~= s0.frames());
            assert forall|k: int| 0 <= k < self.stack@.len() implies #[trigger] self.stack@[k].next
                <= self.stack@[k].deps@.len() by {
                if k < s0.stack@.len() - 1 {
                    assert(self.stack@[k] == s0.stack@[k]);
                }
            }
            assert forall|k: int, t: Seq<char>|
                0 <= k < self.stack@.len() && #[trigger] self.stack@[k].needs@.contains(t)
                    implies self.builds().contains(t) || self.frames().contains(t) by {
                if t != name@ {
                    if k < s0.stack@.len() - 1 {
                        assert(self.stack@[k] == s0.stack@[k]);
                    }
                    assert(s0.stack@[k].needs@.contains(t));
                }
            }
            assert forall|x: Seq<char>| #[trigger] self.frames().contains(x) implies self.seen().contains(x)
                && valid_aur_name(x) by {
                assert(s0.frames().contains(x));
            }
            assert forall|x: Seq<char>| #[trigger] self.seen().contains(x) implies self.builds().contains(x)
                || self.frames().contains(x) by {
                assert(s0.seen().contains(x));
            }
            assert forall|k: int| 0 <= k < s0.stack@.len() implies #[trigger] self.stack@[k].name@
                == s0.stack@[k].name@ && s0.stack@[k].needs@.subset_of(self.stack@[k].needs@) by {
                if k < s0.stack@.len() - 1 {
                    assert(self.stack@[k] == s0.stack@[k]);
                }
            }
            lemma_keeps_prefix(s0, *self, s0.stack@.len() as int);
        }
    }

    /// Fails the resolution with `message`.
    fn fail(&mut self, message: &str) -> (a: ResolveAction)
        requires
            old(self).wf(),
        ensures
            answer_ok(*old(self), *final(self), a),
            a matches ResolveAction::Done(Err(m)) && m@ == message@,
    {
        let ghost s0 = *self;
        self.phase = Phase::Failed;
        proof { self.lemma_same_names(s0); }
        proof {
            self.lemma_unchanged_plan(s0);
        }
        ResolveAction::Done(Err(string_from(message)))
    }

    /// Changing the phase, or what the frames hold besides their names,
    /// keeps the invariant when the names stay.
    proof fn lemma_same_names(&self, s: Resolver)
        requires
            s.wf_core(),
            self.frames() == s.frames(),
            self.builds() == s.builds(),
            self.seen() == s.seen(),
            self.stack@.len() == s.stack@.len(),
            !(self.phase is Failed) ==> !(s.phase is Failed),
            self.phase is Idle ==> self.stack@.len() == 0,
            (self.phase is Fetching || self.phase is Checking || self.phase is Probing)
                ==> self.stack@.len() > 0,
            forall|k: int|
                0 <= k < self.stack@.len() ==> #[trigger] self.stack@[k].next
                    <= self.stack@[k].deps@.len(),
            self.build_needs == s.build_needs,
            self.build_context == s.build_context,
            self.plan.builds@.len() == s.plan.builds@.len(),
            forall|k: int| 0 <= k < self.stack@.len() ==> #[trigger] self.stack@[k].needs == s.stack@[k].needs,
        ensures
            self.wf_core(),
            keeps_records(s, *self),
    {
        assert forall|k: int| 0 <= k < s.stack@.len() implies #[trigger] self.stack@[k].name@
            == s.stack@[k].name@ && s.stack@[k].needs@.subset_of(self.stack@[k].needs@) by {
            assert(self.frames()[k] == s.frames()[k]);
        }
        assert forall|i: int| 0 <= i < s.plan.builds@.len() implies #[trigger] self.plan.builds@[i].name@
            == s.plan.builds@[i].name@ && self.build_needs@[i] == s.build_needs@[i] by {
            assert(self.builds()[i] == s.builds()[i]);
        }
        lemma_keeps_prefix(s, *self, s.stack@.len() as int);
        assert forall|k: int, t: Seq<char>|
            0 <= k < self.stack@.len() && #[trigger] self.stack@[k].needs@.contains(t) implies (!(
            self.phase is Failed) ==> self.builds().contains(t) || self.frames().contains(t)) by {
            if !(self.phase is Failed) {
                assert(s.stack@[k].needs@.contains(t));
            }
        }
        assert forall|x: Seq<char>| #[trigger] self.seen().contains(x) implies (!(self.phase is Failed)
            ==> self.builds().contains(x) || self.frames().contains(x)) by {
            if !(self.phase is Failed) {
                assert(s.seen().contains(x));
            }
        }
        assert forall|x: Seq<char>| #[trigger] self.builds().contains(x) implies self.seen().contains(x)
            && valid_aur_name(x) by {
            assert(s.builds().contains(x));
        }
        assert forall|x: Seq<char>| #[trigger] self.frames().contains(x) implies self.seen().contains(x)
            && valid_aur_name(x) by {
            assert(s.frames().contains(x));
        }
    }

    proof fn lemma_unchanged_plan(&self, s0: Resolver)
        requires
            self.plan == s0.plan,
            self.visited == s0.visited,
        ensures
            grows(s0, *self),
    {
        assert(self.plan.builds@.take(s0.plan.builds@.len() as int) =~= s0.plan.builds@);
        assert(self.plan.repo_deps.deep_view().take(s0.plan.repo_deps.deep_view().len() as int)
            =~= s0.plan.repo_deps.deep_view());
        assert(self.seen().take(s0.seen().len() as int) =~= s0.seen());
    }

    /// Moves the top package on to its next dependency.
    fn bump_top(&mut self)
        requires
            old(self).wf(),
            old(self).phase is Checking,
        ensures
            final(self).wf_core(),
            final(self).phase is Checking,
            final(self).plan == old(self).plan,
            final(self).visited == old(self).visited,
            final(self).frames() == old(self).frames(),
            final(self).stack@.len() == old(self).stack@.len(),
            final(self).top().next == old(self).top().next + 1,
            final(self).top() == (Frame { next: final(self).top().next, ..old(self).top() }),
            keeps_records(*old(self), *final(self)),
    {
        let ghost s0 = *self;
        let mut frame = self.stack.pop().unwrap();
        let len = frame.deps.len();
        assert(frame.next < len);
        frame.next = frame.next + 1;
        self.stack.push(frame);
        proof {
            assert(self.frames() =~= s0.frames());
            assert forall|k: int| 0 <= k < self.stack@.len() implies #[trigger] self.stack@[k].next
                <= self.stack@[k].deps@.len() by {
                if k < s0.stack@.len() - 1 {
                    assert(self.stack@[k] == s0.stack@[k]);
                }
            }
            assert forall|k: int| 0 <= k < self.stack@.len() implies #[trigger] self.stack@[k].needs
                == s0.stack@[k].needs by {
                if k < s0.stack@.len() - 1 {
                    assert(self.stack@[k] == s0.stack@[k]);
                }
            }
            self.lemma_same_names(s0);
        }
    }
}

// ---------------------------------------------------------------------
// Laws of the resolver
// ---------------------------------------------------------------------

/// No AUR package ever appears twice in the build plan, and every package in
/// it has a valid AUR name.
pub proof fn lemma_plan_builds_each_once(r: Resolver)
    requires
        r.wf(),
    ensures
        build_names(r.plan.builds@).no_duplicates(),
        forall|i: int| 0 <= i < r.plan.builds@.len() ==> valid_aur_name(#[trigger] r.plan.builds@[i].name@),
{
    assert forall|i: int| 0 <= i < r.plan.builds@.len() implies valid_aur_name(
        #[trigger] r.plan.builds@[i].name@,
    ) by {
        assert(r.builds()[i] == r.plan.builds@[i].name@);
        assert(r.builds().contains(r.plan.builds@[i].name@));
    }
}

/// A planned package comes after every AUR dependency it was found to need,
/// unless that dependency was still being resolved when the package was
/// planned (it depends back on the package), in which case it is the package
/// itself, planned after it, or still being resolved.
pub proof fn lemma_aur_dependencies_built_first(r: Resolver, i: int, t: Seq<char>)
    requires
        r.wf(),
        !(r.phase is Failed),
        0 <= i < r.plan.builds@.len(),
        recorded(r, r.plan.builds@[i].name@, t),
    ensures
        build_names(r.plan.builds@).take(i).contains(t) || (r.build_context@[i].contains(t) && (
        build_names(r.plan.builds@).skip(i).contains(t) || frame_names(r.stack@).contains(t))),
{
    let p = r.plan.builds@[i].name@;
    assert(r.builds()[i] == p);
    if exists|k: int|
        0 <= k < r.stack@.len() && r.stack@[k].name@ == p && #[trigger] r.stack@[k].needs@.contains(t) {
        let k = choose|k: int|
            0 <= k < r.stack@.len() && r.stack@[k].name@ == p && #[trigger] r.stack@[k].needs@.contains(t);
        assert(r.frames()[k] == p);
        assert(false);
    }
    assert(exists|j: int|
        0 <= j < r.plan.builds@.len() && r.plan.builds@[j].name@ == p
            && #[trigger] r.build_needs@[j].contains(t));
    let j = choose|j: int|
        0 <= j < r.plan.builds@.len() && r.plan.builds@[j].name@ == p
            && #[trigger] r.build_needs@[j].contains(t);
    assert(r.builds()[j] == p);
    assert(j == i);
}

} // verus!
