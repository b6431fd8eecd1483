//! The native handles that a platform wrapper owns: the event loop, the
//! client built on it, at most one service browser and the outstanding
//! service resolvers. A handle is the native object's address; 0 is the
//! null handle by which the daemon reports a failed creation.

use vstd::prelude::*;

verus! {

/// Why a wrapper could not be constructed.
#[derive(PartialEq, Eq, Structural, Clone, Copy, Debug)]
pub enum CreateError {
    EventLoop,
    Client,
}

/// One step of a wrapper's teardown, in the order it must be taken.
#[derive(PartialEq, Eq, Structural, Clone, Copy, Debug)]
pub enum TeardownStep {
    StopLoop,
    JoinThread,
    FreeResolver(u64),
    FreeBrowser(u64),
    FreeClient(u64),
    FreePoll(u64),
}

/// The handles of a running wrapper.
pub struct Handles {
    poll: u64,
    client: u64,
    browser: Option<u64>,
    resolvers: Vec<u64>,
}

pub struct HandlesView {
    pub poll: u64,
    pub client: u64,
    pub browser: Option<u64>,
    pub resolvers: Seq<u64>,
}

impl View for Handles {
    type V = HandlesView;

    closed spec fn view(&self) -> HandlesView {
        HandlesView {
            poll: self.poll,
            client: self.client,
            browser: self.browser,
            resolvers: self.resolvers@,
        }
    }
}

/// No handle is null, and no resolver is held twice.
pub open spec fn handles_wf(v: HandlesView) -> bool {
    &&& v.poll != 0
    &&& v.client != 0
    &&& v.browser != Some(0u64)
    &&& forall|i: int| 0 <= i < v.resolvers.len() ==> v.resolvers[i] != 0
    &&& v.resolvers.no_duplicates()
}

/// `after` is `before` without the resolver `r`; `release` tells whether it
/// was held.
pub open spec fn resolver_dropped(before: HandlesView, after: HandlesView, r: u64, release: bool) -> bool {
    &&& release == before.resolvers.contains(r)
    &&& after.poll == before.poll
    &&& after.client == before.client
    &&& after.browser == before.browser
    &&& after.resolvers.to_set() == before.resolvers.to_set().remove(r)
    &&& after.resolvers.len() == before.resolvers.len() - if release {
        1int
    } else {
        0int
    }
}

/// The teardown of a wrapper: the event loop is stopped and its thread
/// joined, then the resolvers, the browser, the client and the event loop are
/// freed, each derived handle before the one it was made from.
pub open spec fn teardown_plan(v: HandlesView) -> Seq<TeardownStep> {
    seq![TeardownStep::StopLoop, TeardownStep::JoinThread] + v.resolvers.map_values(
        |r: u64| TeardownStep::FreeResolver(r),
    ) + match v.browser {
        Some(b) => seq![TeardownStep::FreeBrowser(b)],
        None => Seq::<TeardownStep>::empty(),
    } + seq![TeardownStep::FreeClient(v.client), TeardownStep::FreePoll(v.poll)]
}

/// The place of a step's kind in the teardown order.
pub open spec fn step_rank(s: TeardownStep) -> int {
    match s {
        TeardownStep::StopLoop => 0,
        TeardownStep::JoinThread => 1,
        TeardownStep::FreeResolver(_) => 2,
        TeardownStep::FreeBrowser(_) => 3,
        TeardownStep::FreeClient(_) => 4,
        TeardownStep::FreePoll(_) => 5,
    }
}

impl Handles {
    pub closed spec fn wf(&self) -> bool {
        handles_wf(self@)
    }

    /// Takes the event loop and the client as their creation returned them.
    pub fn create(poll: u64, client: u64) -> (r: Result<Handles, CreateError>)
        ensures
            poll == 0 <==> r == Err::<Handles, CreateError>(CreateError::EventLoop),
            poll != 0 && client == 0 <==> r == Err::<Handles, CreateError>(CreateError::Client),
            r is Ok <==> poll != 0 && client != 0,
            r matches Ok(h) ==> h.wf() && h@ == (HandlesView {
                poll,
                client,
                browser: None,
                resolvers: Seq::empty(),
            }),
    {
        if poll == 0 {
            Err(CreateError::EventLoop)
        } else if client == 0 {
            Err(CreateError::Client)
        } else {
            Ok(Handles { poll, client, browser: None, resolvers: Vec::new() })
        }
    }

    /// Drops the browser, if any, and returns it to be freed.
    pub fn stop_browser(&mut self) -> (r: Option<u64>)
        requires
            old(self).wf(),
        ensures
            final(self).wf(),
            r == old(self)@.browser,
            final(self)@ == (HandlesView { browser: None, ..old(self)@ }),
    {
        let r = self.browser;
        self.browser = None;
        r
    }

    /// Records a browser as its creation returned it. A new browser replaces
    /// the one before, which is returned to be freed; a null one changes
    /// nothing.
    pub fn browser_started(&mut self, browser: u64) -> (previous: Option<u64>)
        requires
            old(self).wf(),
        ensures
            final(self).wf(),
            browser == 0 ==> final(self)@ == old(self)@ && previous is None,
            browser != 0 ==> final(self)@ == (HandlesView {
                browser: Some(browser),
                ..old(self)@
            }),
            browser != 0 ==> previous == if old(self)@.browser == Some(browser) {
                None
            } else {
                old(self)@.browser
            },
    {
        if browser == 0 {
            return None;
        }
        let previous = self.browser;
        self.browser = Some(browser);
        if previous == Some(browser) {
            None
        } else {
            previous
        }
    }

    /// Records a resolver as its creation returned it; a null one, or one
    /// already held, changes nothing.
    pub fn resolver_started(&mut self, resolver: u64)
        requires
            old(self).wf(),
        ensures
            final(self).wf(),
            final(self)@ == (HandlesView {
                resolvers: if resolver == 0 || old(self)@.resolvers.contains(resolver) {
                    old(self)@.resolvers
                } else {
                    old(self)@.resolvers.push(resolver)
                },
                ..old(self)@
            }),
    {
        if resolver == 0 || self.holds_resolver(resolver) {
            return;
        }
        self.resolvers.push(resolver);
        assert(self.resolvers@.no_duplicates());
    }

    /// The browser held, if any.
    pub fn browser(&self) -> (r: Option<u64>)
        ensures
            r == self@.browser,
    {
        self.browser
    }

    /// Whether a resolver is outstanding.
    pub fn holds_resolver(&self, resolver: u64) -> (r: bool)
        ensures
            r == self@.resolvers.contains(resolver),
    {
        self.position_of(resolver).is_some()
    }

    fn position_of(&self, resolver: u64) -> (r: Option<usize>)
        ensures
            match r {
                Some(i) => i < self.resolvers@.len() && self.resolvers@[i as int] == resolver,
                None => !self.resolvers@.contains(resolver),
            },
    {
        let mut i: usize = 0;
        while i < self.resolvers.len()
            invariant
                i <= self.resolvers@.len(),
                forall|k: int| 0 <= k < i ==> self.resolvers@[k] != resolver,
            decreases self.resolvers@.len() - i,
        {
            if self.resolvers[i] == resolver {
                return Some(i);
            }
            i = i + 1;
        }
        None
    }

    /// Drops a resolver once its outcome has been delivered. Returns whether
    /// it was outstanding, and so is to be freed now.
    pub fn resolver_finished(&mut self, resolver: u64) -> (release: bool)
        requires
            old(self).wf(),
        ensures
            final(self).wf(),
            resolver_dropped(old(self)@, final(self)@, resolver, release),
    {
        match self.position_of(resolver) {
            Some(i) => {
                let ghost before = self.resolvers@;
                self.resolvers.remove(i);
                proof {
                    lemma_remove_distinct(before, i as int);
                }
                true
            },
            None => {
                proof {
                    assert(!self.resolvers@.to_set().contains(resolver));
                    assert(self.resolvers@.to_set() =~= self.resolvers@.to_set().remove(resolver));
                }
                false
            },
        }
    }

    /// The steps that release every handle, in teardown order.
    pub fn teardown(self) -> (steps: Vec<TeardownStep>)
        requires
            self.wf(),
        ensures
            steps@ == teardown_plan(self@),
    {
        let mut steps: Vec<TeardownStep> = Vec::new();
        steps.push(TeardownStep::StopLoop);
        steps.push(TeardownStep::JoinThread);
        let mut i: usize = 0;
        while i < self.resolvers.len()
            invariant
                i <= self.resolvers@.len(),
                steps@ == seq![TeardownStep::StopLoop, TeardownStep::JoinThread]
                    + self.resolvers@.subrange(0, i as int).map_values(
                    |r: u64| TeardownStep::FreeResolver(r),
                ),
            decreases self.resolvers@.len() - i,
        {
            steps.push(TeardownStep::FreeResolver(self.resolvers[i]));
            i = i + 1;
            assert(self.resolvers@.subrange(0, i as int) =~= self.resolvers@.subrange(
                0,
                i - 1,
            ).push(self.resolvers@[i - 1]));
        }
        assert(self.resolvers@.subrange(0, i as int) =~= self.resolvers@);
        match self.browser {
            Some(b) => steps.push(TeardownStep::FreeBrowser(b)),
            None => {},
        }
        steps.push(TeardownStep::FreeClient(self.client));
        steps.push(TeardownStep::FreePoll(self.poll));
        assert(steps@ =~= teardown_plan(self@));
        steps
    }
}

/// Teardown takes its steps in order: the loop is stopped and its thread
/// joined first, then resolvers, the browser, the client and the event loop
/// are freed, in that order, each handle that is held exactly once.
pub proof fn teardown_order(v: HandlesView)
    requires
        handles_wf(v),
    ensures
        forall|i: int, j: int|
            0 <= i < j < teardown_plan(v).len() ==> step_rank(teardown_plan(v)[i]) <= step_rank(
                teardown_plan(v)[j],
            ),
        teardown_plan(v)[0] == TeardownStep::StopLoop,
        teardown_plan(v)[1] == TeardownStep::JoinThread,
        forall|r: u64| #[trigger]
            v.resolvers.contains(r) ==> teardown_plan(v).contains(TeardownStep::FreeResolver(r)),
        v.browser matches Some(b) ==> teardown_plan(v).contains(TeardownStep::FreeBrowser(b)),
        teardown_plan(v).contains(TeardownStep::FreeClient(v.client)),
        teardown_plan(v).contains(TeardownStep::FreePoll(v.poll)),
        teardown_plan(v).len() == v.resolvers.len() + (if v.browser is Some { 5int } else { 4int }),
        teardown_plan(v).to_multiset().count(TeardownStep::FreeClient(v.client)) == 1,
        teardown_plan(v).to_multiset().count(TeardownStep::FreePoll(v.poll)) == 1,
{
    let p = teardown_plan(v);
    let m = v.resolvers.map_values(|r: u64| TeardownStep::FreeResolver(r));
    let n: int = v.resolvers.len() as int;
    let bl: int = if v.browser is Some { 1 } else { 0 };
    assert forall|i: int| 0 <= i < p.len() implies step_rank(p[i]) == if i < 2 {
        i
    } else if i < 2 + n {
        2
    } else if i < 2 + n + bl {
        3
    } else if i == 2 + n + bl {
        4
    } else {
        5
    } by {
        if 2 <= i < 2 + n {
            assert(p[i] == m[i - 2]);
        }
    }
    assert forall|r: u64| #[trigger] v.resolvers.contains(r) implies p.contains(TeardownStep::FreeResolver(r)) by {
        let k = choose|k: int| 0 <= k < n && v.resolvers[k] == r;
        assert(p[k + 2] == TeardownStep::FreeResolver(r));
    }
    if let Some(b) = v.browser {
        assert(p[2 + n] == TeardownStep::FreeBrowser(b));
    }
    assert(p[2 + n + bl] == TeardownStep::FreeClient(v.client));
    assert(p[3 + n + bl] == TeardownStep::FreePoll(v.poll));
    let tail = seq![TeardownStep::FreeClient(v.client), TeardownStep::FreePoll(v.poll)];
    let head = p.subrange(0, 2 + n + bl);
    assert(p =~= head + tail);
    assert forall|i: int| 0 <= i < head.len() implies step_rank(head[i]) < 4 by {
        assert(head[i] == p[i]);
    }
    assert(!head.contains(TeardownStep::FreeClient(v.client)));
    assert(!head.contains(TeardownStep::FreePoll(v.poll)));
    head.to_multiset_ensures();
    tail.to_multiset_ensures();
    vstd::seq_lib::lemma_multiset_commutative(head, tail);
    assert(tail =~= seq![TeardownStep::FreeClient(v.client)].push(TeardownStep::FreePoll(v.poll)));
    seq![TeardownStep::FreeClient(v.client)].to_multiset_ensures();
    Seq::<TeardownStep>::empty().to_multiset_ensures();
    assert(seq![TeardownStep::FreeClient(v.client)] =~= Seq::<TeardownStep>::empty().push(TeardownStep::FreeClient(v.client)));
}

/// A browser that `stop_browser` handed out to be freed is not freed again
/// by teardown: once stopped, the teardown plan frees no browser at all.
pub proof fn stopped_browser_freed_once(v: HandlesView)
    requires
        handles_wf(v),
    ensures
        forall|b: u64|
            !#[trigger] teardown_plan(HandlesView { browser: None, ..v }).contains(
                TeardownStep::FreeBrowser(b),
            ),
{
    let w = HandlesView { browser: None, ..v };
    let p = teardown_plan(w);
    let m = w.resolvers.map_values(|r: u64| TeardownStep::FreeResolver(r));
    assert forall|b: u64| !#[trigger] p.contains(TeardownStep::FreeBrowser(b)) by {
        assert forall|i: int| 0 <= i < p.len() implies p[i] != TeardownStep::FreeBrowser(b) by {
            if 2 <= i < 2 + m.len() {
                assert(p[i] == m[i - 2]);
            }
        }
    }
}

proof fn lemma_remove_distinct(s: Seq<u64>, i: int)
    requires
        0 <= i < s.len(),
        s.no_duplicates(),
        forall|k: int| 0 <= k < s.len() ==> s[k] != 0,
    ensures
        s.remove(i).no_duplicates(),
        s.remove(i).to_set() == s.to_set().remove(s[i]),
        forall|k: int| 0 <= k < s.remove(i).len() ==> s.remove(i)[k] != 0,
{
    let t = s.remove(i);
    assert forall|a: u64| t.to_set().contains(a) <==> s.to_set().remove(s[i]).contains(a) by {
        if t.contains(a) {
            let k = choose|k: int| 0 <= k < t.len() && t[k] == a;
            if k < i {
                assert(s[k] == a);
                assert(k != i);
            } else {
                assert(s[k + 1] == a);
            }
        }
        if s.contains(a) && a != s[i] {
            let k = choose|k: int| 0 <= k < s.len() && s[k] == a;
            if k < i {
                assert(t[k] == a);
            } else {
                assert(k != i);
                assert(t[k - 1] == a);
            }
        }
    }
    assert(t.to_set() =~= s.to_set().remove(s[i]));
    assert forall|k: int| 0 <= k < t.len() implies t[k] != 0 by {
        if k < i {
            assert(t[k] == s[k]);
        } else {
            assert(t[k] == s[k + 1]);
        }
    }
    assert forall|a: int, b: int| 0 <= a < t.len() && 0 <= b < t.len() && a != b implies t[a] != t[b] by {
        let sa = if a < i { a } else { a + 1 };
        let sb = if b < i { b } else { b + 1 };
        assert(t[a] == s[sa]);
        assert(t[b] == s[sb]);
    }
}

} // verus!
