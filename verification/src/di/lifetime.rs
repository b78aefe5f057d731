//! Service lifetimes, scopes and the bookkeeping of active scopes.

use vstd::prelude::*;
use crate::assoc::{as_map, get_value, has_key, index_of_key, insert_value, keys_unique, lemma_index_of_key, remove_value};
use crate::error::types::AppError;
use crate::text::{decimal_spec, owned, push_str, u64_to_decimal};

verus! {

/// How long a service instance lives.
#[derive(Debug, Clone, Copy, PartialEq, Eq, Structural)]
pub enum Lifetime {
    Singleton,
    Scoped,
    Transient,
}

/// Kinds of service.
#[derive(Debug, Clone, Copy, PartialEq, Eq, Structural)]
pub enum ServiceType {
    Configuration,
    Database,
    Cache,
    Service,
    Repository,
    Controller,
    Utility,
    Infrastructure,
}

/// Cost of creating a service.
#[derive(Debug, Clone, Copy, PartialEq, Eq, Structural)]
pub enum CreationCost {
    Low,
    Medium,
    High,
}

/// The lifetime each kind of service gets by default: configuration,
/// database, cache, utility and infrastructure services live as long as
/// the application, services per scope, repositories and controllers per
/// request.
pub open spec fn spec_default_for(t: ServiceType) -> Lifetime {
    match t {
        ServiceType::Configuration => Lifetime::Singleton,
        ServiceType::Database => Lifetime::Singleton,
        ServiceType::Cache => Lifetime::Singleton,
        ServiceType::Service => Lifetime::Scoped,
        ServiceType::Repository => Lifetime::Transient,
        ServiceType::Controller => Lifetime::Transient,
        ServiceType::Utility => Lifetime::Singleton,
        ServiceType::Infrastructure => Lifetime::Singleton,
    }
}

impl Lifetime {
    /// The default lifetime of a kind of service.
    pub fn default_for(service_type: ServiceType) -> (r: Lifetime)
        ensures
            r == spec_default_for(service_type),
    {
        match service_type {
            ServiceType::Configuration => Lifetime::Singleton,
            ServiceType::Database => Lifetime::Singleton,
            ServiceType::Cache => Lifetime::Singleton,
            ServiceType::Service => Lifetime::Scoped,
            ServiceType::Repository => Lifetime::Transient,
            ServiceType::Controller => Lifetime::Transient,
            ServiceType::Utility => Lifetime::Singleton,
            ServiceType::Infrastructure => Lifetime::Singleton,
        }
    }

    /// Only transient services are not kept.
    pub fn requires_caching(&self) -> (r: bool)
        ensures
            r == !(*self is Transient),
    {
        match self {
            Lifetime::Transient => false,
            _ => true,
        }
    }

    /// Longer-lived services cost more to create.
    pub fn creation_cost(&self) -> (r: CreationCost)
        ensures
            r == match *self {
                Lifetime::Singleton => CreationCost::High,
                Lifetime::Scoped => CreationCost::Medium,
                Lifetime::Transient => CreationCost::Low,
            },
    {
        match self {
            Lifetime::Singleton => CreationCost::High,
            Lifetime::Scoped => CreationCost::Medium,
            Lifetime::Transient => CreationCost::Low,
        }
    }

    /// The lifetime's name, as it is displayed.
    pub fn to_string(&self) -> (r: String)
        ensures
            r@ == match *self {
                Lifetime::Singleton => "Singleton"@,
                Lifetime::Scoped => "Scoped"@,
                Lifetime::Transient => "Transient"@,
            },
    {
        match self {
            Lifetime::Singleton => owned("Singleton"),
            Lifetime::Scoped => owned("Scoped"),
            Lifetime::Transient => owned("Transient"),
        }
    }
}

impl ServiceType {
    /// The readable name of each kind.
    pub fn name(&self) -> (r: &'static str)
        ensures
            r@ == match *self {
                ServiceType::Configuration => "Configuration"@,
                ServiceType::Database => "Database"@,
                ServiceType::Cache => "Cache"@,
                ServiceType::Service => "Service"@,
                ServiceType::Repository => "Repository"@,
                ServiceType::Controller => "Controller"@,
                ServiceType::Utility => "Utility"@,
                ServiceType::Infrastructure => "Infrastructure"@,
            },
    {
        match self {
            ServiceType::Configuration => "Configuration",
            ServiceType::Database => "Database",
            ServiceType::Cache => "Cache",
            ServiceType::Service => "Service",
            ServiceType::Repository => "Repository",
            ServiceType::Controller => "Controller",
            ServiceType::Utility => "Utility",
            ServiceType::Infrastructure => "Infrastructure",
        }
    }

    /// The default lifetime of this kind.
    pub fn recommended_lifetime(&self) -> (r: Lifetime)
        ensures
            r == spec_default_for(*self),
    {
        Lifetime::default_for(*self)
    }

    /// Every kind but controllers must be safe to share between threads.
    pub fn should_be_thread_safe(&self) -> (r: bool)
        ensures
            r == !(*self is Controller),
    {
        match self {
            ServiceType::Controller => false,
            _ => true,
        }
    }
}

impl CreationCost {
    /// The tier of each cost, cheapest first.
    pub fn tier(&self) -> (r: u8)
        ensures
            r == match *self {
                CreationCost::Low => 1u8,
                CreationCost::Medium => 2u8,
                CreationCost::High => 3u8,
            },
    {
        match self {
            CreationCost::Low => 1,
            CreationCost::Medium => 2,
            CreationCost::High => 3,
        }
    }
}

/// A scope: the root, or a child of a scope.
#[derive(Debug, PartialEq, Eq)]
pub enum ServiceScope {
    Root,
    Child(Box<ServiceScope>),
}

/// How many scopes lie above a scope.
pub open spec fn scope_depth(s: ServiceScope) -> nat
    decreases s,
{
    match s {
        ServiceScope::Root => 0,
        ServiceScope::Child(p) => 1 + scope_depth(*p),
    }
}

/// `Root`, or `Child(...)` around the parent's text.
pub open spec fn scope_text(s: ServiceScope) -> Seq<char>
    decreases s,
{
    match s {
        ServiceScope::Root => "Root"@,
        ServiceScope::Child(p) => "Child("@ + scope_text(*p) + ")"@,
    }
}

impl ServiceScope {
    /// The root scope.
    pub fn root() -> (r: ServiceScope)
        ensures
            r is Root,
    {
        ServiceScope::Root
    }

    /// A child of `parent`.
    pub fn child(parent: ServiceScope) -> (r: ServiceScope)
        ensures
            r == ServiceScope::Child(Box::new(parent)),
    {
        ServiceScope::Child(Box::new(parent))
    }

    /// The parent of a child scope.
    pub fn parent(&self) -> (r: Option<&ServiceScope>)
        ensures
            match *self {
                ServiceScope::Root => r is None,
                ServiceScope::Child(p) => r == Some(&*p),
            },
    {
        match self {
            ServiceScope::Root => None,
            ServiceScope::Child(p) => Some(&**p),
        }
    }

    /// Whether this is the root.
    pub fn is_root(&self) -> (r: bool)
        ensures
            r == (*self is Root),
    {
        match self {
            ServiceScope::Root => true,
            ServiceScope::Child(_) => false,
        }
    }

    /// The number of scopes above this one.
    pub fn depth(&self) -> (r: usize)
        requires
            scope_depth(*self) <= usize::MAX,
        ensures
            r == scope_depth(*self),
        decreases *self,
    {
        match self {
            ServiceScope::Root => 0,
            ServiceScope::Child(p) => 1 + p.depth(),
        }
    }

    /// The path from the root: it walks up to the root and records no step,
    /// so it is always empty.
    pub fn path(&self) -> (r: Vec<usize>)
        ensures
            r@.len() == 0,
    {
        let path: Vec<usize> = Vec::new();
        let mut current: &ServiceScope = self;
        loop
            invariant
                path@.len() == 0,
            decreases *current,
        {
            match current {
                ServiceScope::Root => break,
                ServiceScope::Child(parent) => {
                    current = &**parent;
                },
            }
        }
        path
    }

    /// The scope as text.
    pub fn to_string(&self) -> (r: String)
        ensures
            r@ == scope_text(*self),
        decreases *self,
    {
        match self {
            ServiceScope::Root => owned("Root"),
            ServiceScope::Child(p) => {
                let mut out = owned("Child(");
                let inner = p.to_string();
                push_str(&mut out, inner.as_str());
                push_str(&mut out, ")");
                out
            },
        }
    }

    /// A copy of the scope.
    pub fn duplicate(&self) -> (r: ServiceScope)
        ensures
            r == *self,
        decreases *self,
    {
        match self {
            ServiceScope::Root => ServiceScope::Root,
            ServiceScope::Child(p) => ServiceScope::Child(Box::new(p.duplicate())),
        }
    }
}

impl Default for ServiceScope {
    /// The root scope.
    fn default() -> (r: ServiceScope)
        ensures
            r is Root,
    {
        ServiceScope::Root
    }
}

/// An active scope and the id of its parent, if it has one.
#[derive(Debug)]
pub struct ScopeEntry {
    pub scope: ServiceScope,
    pub parent_id: Option<String>,
}

/// The number of active scopes whose parent is `id`.
pub open spec fn child_count(s: Seq<(String, ScopeEntry)>, id: Seq<char>) -> nat
    decreases s.len(),
{
    if s.len() == 0 {
        0
    } else {
        child_count(s.drop_last(), id) + if (s.last().1.parent_id matches Some(p) && p@ == id) { 1nat } else { 0nat }
    }
}

/// Keeps the active scopes by id.
pub struct LifetimeManager {
    active_scopes: Vec<(String, ScopeEntry)>,
}

impl LifetimeManager {
    /// The active scopes by id.
    pub closed spec fn scopes(&self) -> Map<Seq<char>, ScopeEntry> {
        as_map(self.active_scopes@)
    }

    /// The number of active scopes whose parent is `id`.
    pub closed spec fn children_of(&self, id: Seq<char>) -> nat {
        child_count(self.active_scopes@, id)
    }

    /// Each id is held once.
    pub closed spec fn wf(&self) -> bool {
        keys_unique(self.active_scopes@)
    }

    /// No active scope.
    pub fn new() -> (r: LifetimeManager)
        ensures
            r.wf(),
            r.scopes() == Map::<Seq<char>, ScopeEntry>::empty(),
    {
        let r = LifetimeManager { active_scopes: Vec::new() };
        assert(as_map(r.active_scopes@) =~= Map::<Seq<char>, ScopeEntry>::empty());
        r
    }

    /// Opens a scope under `scope_id`: a root scope, or a child of the
    /// active scope `parent_id`. An unknown parent is refused with
    /// `Parent scope '<id>' not found` for the service `lifetime_manager`.
    /// A scope already open under that id is replaced.
    pub fn create_scope(&mut self, scope_id: &str, parent_id: Option<&str>) -> (r: Result<ServiceScope, AppError>)
        requires
            old(self).wf(),
        ensures
            final(self).wf(),
            match parent_id {
                None => r matches Ok(s) && s is Root && final(self).scopes() == old(self).scopes().insert(
                    scope_id@, ScopeEntry { scope: s, parent_id: None }),
                Some(p) => if old(self).scopes().contains_key(p@) {
                    r matches Ok(s) && s == ServiceScope::Child(Box::new(old(self).scopes()[p@].scope))
                        && final(self).scopes().contains_key(scope_id@)
                        && final(self).scopes()[scope_id@].scope == s
                        && (final(self).scopes()[scope_id@].parent_id matches Some(q) && q@ == p@)
                        && final(self).scopes().dom() == old(self).scopes().dom().insert(scope_id@)
                        && forall|k: Seq<char>| k != scope_id@ && #[trigger] old(self).scopes().contains_key(k)
                            ==> final(self).scopes()[k] == old(self).scopes()[k]
                } else {
                    r matches Err(AppError::DependencyInjection { message, service_id })
                        && message@ == "Parent scope '"@ + p@ + "' not found"@
                        && service_id@ == "lifetime_manager"@
                        && final(self).scopes() == old(self).scopes()
                },
            },
    {
        let (scope, parent) = match parent_id {
            Some(p) => {
                match get_value(&self.active_scopes, p) {
                    Some(entry) => (ServiceScope::child(entry.scope.duplicate()), Some(owned(p))),
                    None => {
                        let mut message = owned("Parent scope '");
                        push_str(&mut message, p);
                        push_str(&mut message, "' not found");
                        return Err(AppError::DependencyInjection { message, service_id: owned("lifetime_manager") });
                    },
                }
            },
            None => (ServiceScope::root(), None),
        };
        let stored = scope.duplicate();
        insert_value(&mut self.active_scopes, owned(scope_id), ScopeEntry { scope: stored, parent_id: parent });
        proof {
            assert(self.scopes().dom() =~= old(self).scopes().dom().insert(scope_id@));
        }
        Ok(scope)
    }

    /// The active scope of an id.
    pub fn get_scope(&self, scope_id: &str) -> (r: Option<&ServiceScope>)
        requires
            self.wf(),
        ensures
            match r {
                Some(s) => self.scopes().contains_key(scope_id@) && *s == self.scopes()[scope_id@].scope,
                None => !self.scopes().contains_key(scope_id@),
            },
    {
        match get_value(&self.active_scopes, scope_id) {
            Some(e) => Some(&e.scope),
            None => None,
        }
    }

    /// Closes a scope. A scope with open children is refused with
    /// `Cannot destroy scope '<id>': <n> child scopes exist` for the service
    /// `lifetime_manager`; closing an id that is not open succeeds.
    pub fn destroy_scope(&mut self, scope_id: &str) -> (r: Result<(), AppError>)
        requires
            old(self).wf(),
        ensures
            final(self).wf(),
            old(self).children_of(scope_id@) > 0 ==> (r matches Err(AppError::DependencyInjection { message, service_id })
                && message@ == "Cannot destroy scope '"@ + scope_id@ + "': "@ + decimal_spec(old(self).children_of(scope_id@))
                    + " child scopes exist"@
                && service_id@ == "lifetime_manager"@
                && final(self).scopes() == old(self).scopes()),
            old(self).children_of(scope_id@) == 0 ==> (r is Ok
                && final(self).scopes() == old(self).scopes().remove(scope_id@)),
    {
        let n = self.count_children(scope_id);
        if n > 0 {
            let mut message = owned("Cannot destroy scope '");
            push_str(&mut message, scope_id);
            push_str(&mut message, "': ");
            let d = u64_to_decimal(n as u64);
            push_str(&mut message, d.as_str());
            push_str(&mut message, " child scopes exist");
            return Err(AppError::DependencyInjection { message, service_id: owned("lifetime_manager") });
        }
        let _ = remove_value(&mut self.active_scopes, scope_id);
        Ok(())
    }

    /// The number of active scopes whose parent is `scope_id`.
    fn count_children(&self, scope_id: &str) -> (n: usize)
        ensures
            n == self.children_of(scope_id@),
    {
        let mut n: usize = 0;
        let mut i: usize = 0;
        while i < self.active_scopes.len()
            invariant
                i <= self.active_scopes@.len(),
                n == child_count(self.active_scopes@.subrange(0, i as int), scope_id@),
                n <= i,
            decreases self.active_scopes@.len() - i,
        {
            proof {
                let sub = self.active_scopes@.subrange(0, i + 1);
                assert(sub.drop_last() =~= self.active_scopes@.subrange(0, i as int));
                assert(sub.last() == self.active_scopes@[i as int]);
            }
            match &self.active_scopes[i].1.parent_id {
                Some(p) => {
                    if crate::text::str_eq(p.as_str(), scope_id) {
                        n = n + 1;
                    }
                },
                None => {},
            }
            i = i + 1;
        }
        assert(self.active_scopes@.subrange(0, i as int) =~= self.active_scopes@);
        n
    }

    /// The ids of the active scopes.
    pub fn active_scope_ids(&self) -> (r: Vec<String>)
        requires
            self.wf(),
        ensures
            forall|k: Seq<char>| self.scopes().contains_key(k) <==> exists|i: int| 0 <= i < r@.len() && #[trigger] r@[i]@ == k,
    {
        let mut out: Vec<String> = Vec::new();
        let mut i: usize = 0;
        while i < self.active_scopes.len()
            invariant
                i <= self.active_scopes@.len(),
                out@.len() == i,
                forall|j: int| 0 <= j < i ==> (#[trigger] out@[j])@ == self.active_scopes@[j].0@,
            decreases self.active_scopes@.len() - i,
        {
            out.push(self.active_scopes[i].0.clone());
            i = i + 1;
        }
        proof {
            assert forall|k: Seq<char>| self.scopes().contains_key(k) <==> exists|i: int| 0 <= i < out@.len() && #[trigger] out@[i]@ == k by {
                if self.scopes().contains_key(k) {
                    let j = index_of_key(self.active_scopes@, k);
                    assert(out@[j]@ == k);
                }
                if exists|i: int| 0 <= i < out@.len() && #[trigger] out@[i]@ == k {
                    let j = choose|i: int| 0 <= i < out@.len() && #[trigger] out@[i]@ == k;
                    assert(self.active_scopes@[j].0@ == k);
                }
            }
        }
        out
    }

    /// The scope hierarchy as text: a line `Scope (Root)` for each active
    /// root scope. Children are looked for by identity among the stored
    /// scopes, where a child's parent is never found, so none is listed.
    pub fn get_hierarchy(&self) -> (r: String)
        ensures
            r@ == repeat_text("Scope (Root)\n"@, root_count(self.scopes_seq())),
    {
        let mut out = String::new();
        let mut i: usize = 0;
        while i < self.active_scopes.len()
            invariant
                i <= self.active_scopes@.len(),
                out@ == repeat_text("Scope (Root)\n"@, root_count(self.active_scopes@.subrange(0, i as int))),
            decreases self.active_scopes@.len() - i,
        {
            proof {
                let sub = self.active_scopes@.subrange(0, i + 1);
                assert(sub.drop_last() =~= self.active_scopes@.subrange(0, i as int));
                assert(sub.last() == self.active_scopes@[i as int]);
            }
            if self.active_scopes[i].1.scope.is_root() {
                push_str(&mut out, "Scope (Root)\n");
                proof {
                    lemma_repeat_push("Scope (Root)\n"@, root_count(self.active_scopes@.subrange(0, i as int)));
                }
            }
            i = i + 1;
        }
        assert(self.active_scopes@.subrange(0, i as int) =~= self.active_scopes@);
        out
    }

    /// The active scopes in the order they are kept.
    pub closed spec fn scopes_seq(&self) -> Seq<(String, ScopeEntry)> {
        self.active_scopes@
    }
}

/// The number of root scopes in a list.
pub open spec fn root_count(s: Seq<(String, ScopeEntry)>) -> nat
    decreases s.len(),
{
    if s.len() == 0 {
        0
    } else {
        root_count(s.drop_last()) + if s.last().1.scope is Root { 1nat } else { 0nat }
    }
}

/// `n` copies of a text.
pub open spec fn repeat_text(t: Seq<char>, n: nat) -> Seq<char>
    decreases n,
{
    if n == 0 {
        Seq::empty()
    } else {
        repeat_text(t, (n - 1) as nat) + t
    }
}

/// One more copy is the text appended.
proof fn lemma_repeat_push(t: Seq<char>, n: nat)
    ensures
        repeat_text(t, n + 1) == repeat_text(t, n) + t,
{
}

} // verus!
