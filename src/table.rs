//! The route table and the collector that fills it from discovered files.
use vstd::prelude::*;
use crate::route::{Route, RouteView, resolve};
use crate::text::{strip_prefix, without_prefix};

verus! {

/// Folder of the route source files, relative to the project root.
pub const ROOT_FOLDER: &'static str = "src/routes";

/// Build mode of a run.
pub enum Mode {
    Prod,
    Dev,
}

/// Routes keyed by the path of their source file relative to the routes
/// folder, one entry per key, in order of first insertion.
pub struct RouteTable {
    entries: Vec<(String, Route)>,
}

/// The keys of `entries` are pairwise distinct.
pub open spec fn keys_unique(entries: Seq<(Seq<char>, RouteView)>) -> bool {
    forall|i: int, j: int|
        0 <= i < entries.len() && 0 <= j < entries.len() && i != j ==> entries[i].0 != entries[j].0
}

/// `key` is the key of some entry.
pub open spec fn has_key(entries: Seq<(Seq<char>, RouteView)>, key: Seq<char>) -> bool {
    exists|i: int| 0 <= i < entries.len() && entries[i].0 == key
}

impl View for RouteTable {
    type V = Seq<(Seq<char>, RouteView)>;

    closed spec fn view(&self) -> Seq<(Seq<char>, RouteView)> {
        self.entries@.map_values(|e: (String, Route)| (e.0@, e.1@))
    }
}

impl RouteTable {
    pub open spec fn wf(&self) -> bool {
        keys_unique(self@)
    }

    /// An empty table.
    pub fn new() -> (r: Self)
        ensures
            r@ == Seq::<(Seq<char>, RouteView)>::empty(),
            r.wf(),
    {
        let r = RouteTable { entries: Vec::new() };
        assert(r@ =~= Seq::<(Seq<char>, RouteView)>::empty());
        r
    }

    /// Number of entries.
    pub fn len(&self) -> (r: usize)
        ensures
            r == self@.len(),
    {
        self.entries.len()
    }

    /// Key of entry `i`.
    pub fn key_at(&self, i: usize) -> (r: &String)
        requires
            i < self@.len(),
        ensures
            r@ == self@[i as int].0,
    {
        &self.entries[i].0
    }

    /// Route of entry `i`.
    pub fn route_at(&self, i: usize) -> (r: &Route)
        requires
            i < self@.len(),
        ensures
            r@ == self@[i as int].1,
    {
        &self.entries[i].1
    }

    /// Position of the entry with `key`, if any.
    fn position(&self, key: &str) -> (r: Option<usize>)
        ensures
            r is None <==> !has_key(self@, key@),
            r matches Some(i) ==> i < self@.len() && self@[i as int].0 == key@,
    {
        let n = self.entries.len();
        let mut i: usize = 0;
        while i < n
            invariant
                n == self@.len(),
                i <= n,
                forall|j: int| 0 <= j < i ==> self@[j].0 != key@,
            decreases n - i,
        {
            if string_eq(self.entries[i].0.as_str(), key) {
                assert(self@[i as int].0 == key@);
                return Some(i);
            }
            i = i + 1;
        }
        None
    }

    /// The route stored under `key`, if any.
    pub fn get(&self, key: &str) -> (r: Option<&Route>)
        ensures
            r is None <==> !has_key(self@, key@),
            r matches Some(route) ==> exists|i: int|
                0 <= i < self@.len() && self@[i].0 == key@ && route@ == self@[i].1,
    {
        match self.position(key) {
            Some(i) => Some(&self.entries[i].1),
            None => None,
        }
    }

    /// Stores `route` under `key`: an entry with that key has its route
    /// replaced in place; otherwise the entry is added at the end.
    pub fn insert(&mut self, key: String, route: Route)
        requires
            old(self).wf(),
        ensures
            final(self).wf(),
            !has_key(old(self)@, key@) ==> final(self)@ == old(self)@.push((key@, route@)),
            forall|i: int|
                0 <= i < old(self)@.len() && old(self)@[i].0 == key@ ==> final(self)@ == old(
                    self,
                )@.update(i, (key@, route@)),
    {
        let ghost k = key@;
        let ghost r = route@;
        match self.position(key.as_str()) {
            Some(i) => {
                self.entries.set(i, (key, route));
                assert(self@ =~= old(self)@.update(i as int, (k, r)));
            },
            None => {
                self.entries.push((key, route));
                assert(self@ =~= old(self)@.push((k, r)));
            },
        }
    }
}

/// Character-wise equality of two strings.
fn string_eq(a: &str, b: &str) -> (r: bool)
    ensures
        r == (a@ == b@),
{
    let n = a.unicode_len();
    if n != b.unicode_len() {
        return false;
    }
    let mut i: usize = 0;
    while i < n
        invariant
            n == a@.len(),
            n == b@.len(),
            i <= n,
            forall|j: int| 0 <= j < i ==> a@[j] == b@[j],
        decreases n - i,
    {
        if a.get_char(i) != b.get_char(i) {
            return false;
        }
        i = i + 1;
    }
    assert(a@ =~= b@);
    true
}

/// The prefix that a discovered file's absolute path shares with every other:
/// the project root followed by `/src/routes`.
pub open spec fn routes_prefix(base_path: Seq<char>) -> Seq<char> {
    base_path + "/"@ + ROOT_FOLDER@
}

/// The table key of the file at `absolute`: its path below the routes folder.
pub open spec fn route_key(base_path: Seq<char>, absolute: Seq<char>) -> Seq<char> {
    strip_prefix(absolute, routes_prefix(base_path))
}

/// Collects routes of a project into a [`RouteTable`].
pub struct SourceBuilder {
    pub route_map: RouteTable,
    pub mode: Mode,
    pub base_path: String,
}

impl SourceBuilder {
    /// A builder for the project rooted at `base_path`, with an empty table.
    pub fn new(mode: Mode, base_path: String) -> (r: Self)
        ensures
            r.route_map@ == Seq::<(Seq<char>, RouteView)>::empty(),
            r.route_map.wf(),
            r.base_path@ == base_path@,
            r.mode == mode,
    {
        SourceBuilder { route_map: RouteTable::new(), mode, base_path }
    }

    /// Adds the route of the discovered file at `entry`, an absolute path,
    /// under its path relative to the routes folder.
    pub fn collect_route(&mut self, entry: &str)
        requires
            old(self).route_map.wf(),
        ensures
            final(self).route_map.wf(),
            final(self).base_path@ == old(self).base_path@,
            final(self).mode == old(self).mode,
            ({
                let key = route_key(old(self).base_path@, entry@);
                &&& !has_key(old(self).route_map@, key) ==> final(self).route_map@ == old(
                    self,
                ).route_map@.push((key, resolve(key)))
                &&& forall|i: int|
                    0 <= i < old(self).route_map@.len() && old(self).route_map@[i].0 == key
                        ==> final(self).route_map@ == old(self).route_map@.update(
                        i,
                        (key, resolve(key)),
                    )
            }),
    {
        let mut prefix = self.base_path.clone();
        prefix.append("/");
        prefix.append(ROOT_FOLDER);
        let path = without_prefix(entry, prefix.as_str());
        let route = Route::new(path.as_str());
        self.route_map.insert(path, route);
    }
}

} // verus!
