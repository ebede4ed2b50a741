//! Module composition: application modules describe themselves by name,
//! routes and dependencies, and a builder collects them in registration
//! order.
use vstd::prelude::*;
use crate::text::owned;

verus! {

/// Description of a route provided by a module.
#[derive(Debug)]
pub struct RouteEntry {
    pub path: String,
    pub method: String,
    pub description: String,
}

impl Clone for RouteEntry {
    fn clone(&self) -> (r: Self)
        ensures
            r == *self,
    {
        RouteEntry { path: self.path.clone(), method: self.method.clone(), description: self.description.clone() }
    }
}

/// Module health status.
#[derive(Debug, Clone, PartialEq, Eq)]
pub enum ModuleHealth {
    Healthy,
    Degraded { reason: String },
    Unhealthy { reason: String },
}

/// An application module, described by its name, the routes it provides
/// and the names of the modules it depends on.
///
/// Each implementation states what its methods give through `spec_name`,
/// `spec_routes` and `spec_dependencies`.
pub trait Module {
    /// The module's name.
    open spec fn spec_name(&self) -> Seq<char> {
        Seq::empty()
    }

    /// The module's routes, `None` when it provides none.
    open spec fn spec_routes(&self) -> Option<Seq<RouteEntry>> {
        None
    }

    /// The names of the modules this one depends on.
    open spec fn spec_dependencies(&self) -> Seq<Seq<char>> {
        Seq::empty()
    }

    fn name(&self) -> (r: &str)
        ensures
            r@ == self.spec_name(),
    ;

    fn routes(&self) -> (r: Option<Vec<RouteEntry>>)
        ensures
            match r {
                Some(v) => self.spec_routes() == Some(v@),
                None => self.spec_routes() is None,
            },
    ;

    fn dependencies(&self) -> (r: Vec<String>)
        ensures
            r@.map_values(|s: String| s@) == self.spec_dependencies(),
    ;
}

/// The names of a sequence of modules, in order.
pub open spec fn names_of(modules: Seq<ModuleInfo>) -> Seq<Seq<char>> {
    modules.map_values(|m: ModuleInfo| m.name@)
}

/// Whether `info` records the module `m`: its name, routes and dependencies.
pub open spec fn records<M: Module>(info: ModuleInfo, m: M) -> bool {
    &&& info.name@ == m.spec_name()
    &&& match info.routes {
        Some(v) => m.spec_routes() == Some(v@),
        None => m.spec_routes() is None,
    }
    &&& info.dependencies@.map_values(|s: String| s@) == m.spec_dependencies()
}

/// What the builder keeps of a registered module.
pub struct ModuleInfo {
    pub name: String,
    pub routes: Option<Vec<RouteEntry>>,
    pub dependencies: Vec<String>,
}

/// Collects modules in registration order.
pub struct ModuleBuilder {
    modules: Vec<ModuleInfo>,
}

/// The routes of a sequence of modules, module by module, in order.
pub open spec fn routes_of(modules: Seq<ModuleInfo>) -> Seq<RouteEntry>
    decreases modules.len(),
{
    if modules.len() == 0 {
        Seq::empty()
    } else {
        routes_of(modules.drop_last()) + match modules.last().routes {
            Some(r) => r@,
            None => Seq::empty(),
        }
    }
}

/// The (name, dependencies) pairs of the modules that have dependencies.
pub open spec fn with_dependencies(modules: Seq<ModuleInfo>) -> Seq<(Seq<char>, Seq<Seq<char>>)>
    decreases modules.len(),
{
    if modules.len() == 0 {
        Seq::empty()
    } else {
        let prev = with_dependencies(modules.drop_last());
        let m = modules.last();
        if m.dependencies@.len() > 0 {
            prev.push((m.name@, m.dependencies@.map_values(|s: String| s@)))
        } else {
            prev
        }
    }
}

impl ModuleBuilder {
    pub closed spec fn infos(&self) -> Seq<ModuleInfo> {
        self.modules@
    }

    pub fn new() -> (r: Self)
        ensures
            r.infos().len() == 0,
    {
        ModuleBuilder { modules: Vec::new() }
    }

    /// Registers a module.
    pub fn register<M: Module>(self, module: M) -> (r: Self)
        ensures
            r.infos().len() == self.infos().len() + 1,
            r.infos().drop_last() == self.infos(),
            records(r.infos().last(), module),
            names_of(r.infos()) == names_of(self.infos()).push(module.spec_name()),
    {
        let info = ModuleInfo { name: owned(module.name()), routes: module.routes(), dependencies: module.dependencies() };
        let r = self.register_info(info);
        assert(r.infos().drop_last() =~= self.infos());
        assert(names_of(r.infos()) =~= names_of(self.infos()).push(r.infos().last().name@));
        r
    }

    /// Registers a shared module.
    pub fn register_arc<M: Module>(self, module: std::sync::Arc<M>) -> (r: Self)
        ensures
            r.infos().len() == self.infos().len() + 1,
            r.infos().drop_last() == self.infos(),
            records(r.infos().last(), *module),
            names_of(r.infos()) == names_of(self.infos()).push(module.spec_name()),
    {
        let m: &M = &*module;
        let info = ModuleInfo { name: owned(m.name()), routes: m.routes(), dependencies: m.dependencies() };
        let r = self.register_info(info);
        assert(r.infos().drop_last() =~= self.infos());
        assert(names_of(r.infos()) =~= names_of(self.infos()).push(r.infos().last().name@));
        r
    }

    /// Registers a module given by its description.
    pub fn register_info(self, info: ModuleInfo) -> (r: Self)
        ensures
            r.infos() == self.infos().push(info),
    {
        let mut modules = self.modules;
        modules.push(info);
        ModuleBuilder { modules }
    }

    /// Names of the registered modules, in registration order.
    pub fn module_names(&self) -> (r: Vec<String>)
        ensures
            r@.len() == self.infos().len(),
            forall|i: int| 0 <= i < r@.len() ==> #[trigger] r@[i]@ == self.infos()[i].name@,
            r@.map_values(|s: String| s@) == names_of(self.infos()),
    {
        let mut out: Vec<String> = Vec::new();
        let mut i: usize = 0;
        while i < self.modules.len()
            invariant
                i <= self.modules@.len(),
                out@.len() == i,
                forall|k: int| 0 <= k < i ==> #[trigger] out@[k]@ == self.modules@[k].name@,
            decreases self.modules@.len() - i,
        {
            out.push(self.modules[i].name.clone());
            i = i + 1;
        }
        assert(out@.map_values(|s: String| s@) =~= names_of(self.modules@));
        out
    }

    /// All routes of all modules, module by module.
    pub fn all_routes(&self) -> (r: Vec<RouteEntry>)
        ensures
            r@ == routes_of(self.infos()),
    {
        let mut out: Vec<RouteEntry> = Vec::new();
        let mut i: usize = 0;
        while i < self.modules.len()
            invariant
                i <= self.modules@.len(),
                out@ == routes_of(self.modules@.take(i as int)),
            decreases self.modules@.len() - i,
        {
            assert(self.modules@.take(i + 1).drop_last() =~= self.modules@.take(i as int));
            match &self.modules[i].routes {
                Some(routes) => {
                    let mut j: usize = 0;
                    let ghost base = out@;
                    while j < routes.len()
                        invariant
                            j <= routes@.len(),
                            out@ == base + routes@.take(j as int),
                        decreases routes@.len() - j,
                    {
                        out.push(routes[j].clone());
                        assert(routes@.take(j + 1) =~= routes@.take(j as int).push(routes@[j as int]));
                        assert(out@ =~= base + routes@.take(j + 1));
                        j = j + 1;
                    }
                    assert(routes@.take(j as int) =~= routes@);
                },
                None => {
                    assert(out@ =~= out@ + Seq::<RouteEntry>::empty());
                },
            }
            i = i + 1;
        }
        assert(self.modules@.take(i as int) =~= self.modules@);
        out
    }

    /// The order in which modules are started: registration order.
    pub fn init_order(&self) -> (r: Vec<usize>)
        ensures
            r@.len() == self.infos().len(),
            forall|k: int| 0 <= k < r@.len() ==> #[trigger] r@[k] == k,
    {
        let n = self.modules.len();
        let mut out: Vec<usize> = Vec::new();
        let mut i: usize = 0;
        while i < n
            invariant
                i <= n,
                n == self.modules@.len(),
                out@.len() == i,
                forall|k: int| 0 <= k < i ==> #[trigger] out@[k] == k,
            decreases n - i,
        {
            out.push(i);
            i = i + 1;
        }
        out
    }

    /// The order in which modules are shut down: the reverse of
    /// registration order.
    pub fn shutdown_order(&self) -> (r: Vec<usize>)
        ensures
            r@.len() == self.infos().len(),
            forall|k: int| 0 <= k < r@.len() ==> #[trigger] r@[k] == self.infos().len() - 1 - k,
    {
        let n = self.modules.len();
        let mut out: Vec<usize> = Vec::new();
        let mut i: usize = n;
        while i > 0
            invariant
                i <= n,
                n == self.modules@.len(),
                out@.len() == n - i,
                forall|k: int| 0 <= k < n - i ==> #[trigger] out@[k] == n - 1 - k,
            decreases i,
        {
            i = i - 1;
            out.push(i);
        }
        out
    }

    /// Number of registered modules.
    pub fn module_count(&self) -> (r: usize)
        ensures
            r == self.infos().len(),
    {
        self.modules.len()
    }

    /// The modules that declare dependencies, with their dependencies.
    pub fn modules_with_dependencies(&self) -> (r: Vec<(String, Vec<String>)>)
        ensures
            r@.map_values(|e: (String, Vec<String>)| (e.0@, e.1@.map_values(|s: String| s@)))
                == with_dependencies(self.infos()),
    {
        let mut out: Vec<(String, Vec<String>)> = Vec::new();
        let mut i: usize = 0;
        while i < self.modules.len()
            invariant
                i <= self.modules@.len(),
                out@.map_values(|e: (String, Vec<String>)| (e.0@, e.1@.map_values(|s: String| s@)))
                    == with_dependencies(self.modules@.take(i as int)),
            decreases self.modules@.len() - i,
        {
            assert(self.modules@.take(i + 1).drop_last() =~= self.modules@.take(i as int));
            let m = &self.modules[i];
            if m.dependencies.len() > 0 {
                let deps = copy_texts(&m.dependencies);
                let ghost before = out@;
                out.push((m.name.clone(), deps));
                assert(out@.map_values(|e: (String, Vec<String>)| (e.0@, e.1@.map_values(|s: String| s@)))
                    =~= before.map_values(|e: (String, Vec<String>)| (e.0@, e.1@.map_values(|s: String| s@)))
                    .push((m.name@, m.dependencies@.map_values(|s: String| s@))));
            }
            i = i + 1;
        }
        assert(self.modules@.take(i as int) =~= self.modules@);
        out
    }
}

/// A copy of a list of texts.
pub(crate) fn copy_texts(v: &Vec<String>) -> (r: Vec<String>)
    ensures
        r@ == v@,
{
    let mut out: Vec<String> = Vec::new();
    let mut i: usize = 0;
    while i < v.len()
        invariant
            i <= v@.len(),
            out@ == v@.take(i as int),
        decreases v@.len() - i,
    {
        out.push(v[i].clone());
        assert(out@ =~= v@.take(i + 1));
        i = i + 1;
    }
    assert(v@.take(i as int) =~= v@);
    out
}

/// A module with a name and nothing else.
pub struct EmptyModule {
    name: String,
}

impl EmptyModule {
    pub fn new(name: &str) -> (r: Self)
        ensures
            r.spec_name() == name@,
    {
        EmptyModule { name: owned(name) }
    }

    /// The description a builder keeps of this module.
    pub fn info(&self) -> (r: ModuleInfo)
        ensures
            r.name@ == self.spec_name(),
            r.routes is None,
            r.dependencies@.len() == 0,
    {
        ModuleInfo { name: self.name.clone(), routes: None, dependencies: Vec::new() }
    }
}

impl Module for EmptyModule {
    closed spec fn spec_name(&self) -> Seq<char> {
        self.name@
    }

    open spec fn spec_routes(&self) -> Option<Seq<RouteEntry>> {
        None
    }

    open spec fn spec_dependencies(&self) -> Seq<Seq<char>> {
        Seq::empty()
    }

    fn name(&self) -> (r: &str) {
        self.name.as_str()
    }

    fn routes(&self) -> (r: Option<Vec<RouteEntry>>) {
        None
    }

    fn dependencies(&self) -> (r: Vec<String>) {
        let r: Vec<String> = Vec::new();
        assert(r@.map_values(|s: String| s@) =~= Seq::<Seq<char>>::empty());
        r
    }
}

/// A module that provides routes.
pub struct RouteModule {
    name: String,
    routes: Vec<RouteEntry>,
}

impl RouteModule {
    pub closed spec fn route_list(&self) -> Seq<RouteEntry> {
        self.routes@
    }

    pub fn new(name: &str) -> (r: Self)
        ensures
            r.spec_name() == name@,
            r.route_list().len() == 0,
    {
        RouteModule { name: owned(name), routes: Vec::new() }
    }

    /// Adds a route.
    pub fn with_route(self, path: &str, method: &str, desc: &str) -> (r: Self)
        ensures
            r.spec_name() == self.spec_name(),
            r.route_list().len() == self.route_list().len() + 1,
            r.route_list().drop_last() == self.route_list(),
            r.route_list().last().path@ == path@,
            r.route_list().last().method@ == method@,
            r.route_list().last().description@ == desc@,
    {
        let mut routes = self.routes;
        routes.push(RouteEntry { path: owned(path), method: owned(method), description: owned(desc) });
        assert(routes@.drop_last() =~= self.routes@);
        RouteModule { name: self.name, routes }
    }

    fn copy_routes(&self) -> (r: Vec<RouteEntry>)
        ensures
            r@ == self.route_list(),
    {
        let mut out: Vec<RouteEntry> = Vec::new();
        let mut i: usize = 0;
        while i < self.routes.len()
            invariant
                i <= self.routes@.len(),
                out@ == self.routes@.take(i as int),
            decreases self.routes@.len() - i,
        {
            out.push(self.routes[i].clone());
            assert(out@ =~= self.routes@.take(i + 1));
            i = i + 1;
        }
        assert(self.routes@.take(i as int) =~= self.routes@);
        out
    }
}

impl Module for RouteModule {
    closed spec fn spec_name(&self) -> Seq<char> {
        self.name@
    }

    /// The routes, or `None` when the module has none.
    closed spec fn spec_routes(&self) -> Option<Seq<RouteEntry>> {
        if self.routes@.len() == 0 {
            None
        } else {
            Some(self.routes@)
        }
    }

    open spec fn spec_dependencies(&self) -> Seq<Seq<char>> {
        Seq::empty()
    }

    fn name(&self) -> (r: &str) {
        self.name.as_str()
    }

    fn routes(&self) -> (r: Option<Vec<RouteEntry>>)
        ensures
            self.route_list().len() == 0 ==> r is None,
            self.route_list().len() > 0 ==> (r matches Some(v) && v@ == self.route_list()),
    {
        if self.routes.len() == 0 {
            None
        } else {
            Some(self.copy_routes())
        }
    }

    fn dependencies(&self) -> (r: Vec<String>) {
        let r: Vec<String> = Vec::new();
        assert(r@.map_values(|s: String| s@) =~= Seq::<Seq<char>>::empty());
        r
    }
}

/// The next module to start or stop, given the order, how many have been
/// handled and whether the last one failed: the first failure ends the
/// walk, as does the end of the order.
pub fn lifecycle_next(order: &Vec<usize>, done: usize, last_failed: bool) -> (r: Option<usize>)
    requires
        done <= order@.len(),
    ensures
        r == (if last_failed || done == order@.len() { None } else { Some(order@[done as int]) }),
{
    if last_failed || done == order.len() {
        None
    } else {
        Some(order[done])
    }
}

/// Whether every module reported healthy, given the name and health each
/// reported.
pub fn all_healthy(results: &Vec<(String, ModuleHealth)>) -> (r: bool)
    ensures
        r == forall|i: int| 0 <= i < results@.len() ==> (#[trigger] results@[i]).1 is Healthy,
{
    let mut i: usize = 0;
    while i < results.len()
        invariant
            i <= results@.len(),
            forall|k: int| 0 <= k < i ==> (#[trigger] results@[k]).1 is Healthy,
        decreases results@.len() - i,
    {
        match &results[i].1 {
            ModuleHealth::Healthy => {},
            _ => return false,
        }
        i = i + 1;
    }
    true
}

} // verus!
