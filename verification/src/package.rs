//! Packages: their metadata, the table of installed packages, and resolution.
//!
//! The directories searched for packages are read by the caller; the library is
//! given, for each search path, whether it exists and the names of the
//! directories in it.

use vstd::prelude::*;
use crate::module_loader::strings_view;
use crate::text::{owned, append_str, str_eq};

verus! {

/// A package's metadata.
#[derive(Debug, Clone)]
pub struct Package {
    pub name: String,
    pub version: String,
    pub description: String,
    pub author: String,
    pub main_file: String,
    pub dependencies: Vec<String>,
    pub exports: Vec<String>,
}

/// A package's metadata as mathematical values.
pub struct PackageSpec {
    pub name: Seq<char>,
    pub version: Seq<char>,
    pub description: Seq<char>,
    pub author: Seq<char>,
    pub main_file: Seq<char>,
    pub dependencies: Seq<Seq<char>>,
    pub exports: Seq<Seq<char>>,
}

impl View for Package {
    type V = PackageSpec;

    open spec fn view(&self) -> PackageSpec {
        PackageSpec {
            name: self.name@,
            version: self.version@,
            description: self.description@,
            author: self.author@,
            main_file: self.main_file@,
            dependencies: strings_view(self.dependencies@),
            exports: strings_view(self.exports@),
        }
    }
}

/// What a search path holds, as the caller found it.
#[derive(Debug, Clone)]
pub struct PathListing {
    pub exists: bool,
    pub directories: Vec<String>,
}

/// The metadata given to a package found as a directory `name`: no manifest is
/// read, so every package gets the same defaults.
pub open spec fn default_package(name: Seq<char>) -> PackageSpec {
    PackageSpec {
        name,
        version: "1.0.0"@,
        description: name + " package"@,
        author: "Unknown"@,
        main_file: "main.grease"@,
        dependencies: Seq::empty(),
        exports: seq!["*"@],
    }
}

/// The index of the package named `name`, or -1.
pub open spec fn find_package(t: Seq<PackageSpec>, name: Seq<char>) -> int
    decreases t.len(),
{
    if t.len() == 0 {
        -1
    } else if t.last().name == name {
        t.len() - 1
    } else {
        find_package(t.drop_last(), name)
    }
}

/// No two packages of the table share a name.
pub open spec fn names_distinct(t: Seq<PackageSpec>) -> bool {
    forall|i: int, j: int| 0 <= i < t.len() && 0 <= j < t.len() && i != j ==> #[trigger] t[i].name != #[trigger] t[j].name
}

/// Some package of the table has the name.
pub open spec fn has_package(t: Seq<PackageSpec>, name: Seq<char>) -> bool {
    exists|k: int| 0 <= k < t.len() && #[trigger] t[k].name == name
}

/// `find_package` finds a package exactly when one has the name, and then one
/// with that name.
pub proof fn lemma_find_package(t: Seq<PackageSpec>, name: Seq<char>)
    ensures
        -1 <= find_package(t, name) < t.len(),
        find_package(t, name) >= 0 <==> has_package(t, name),
        find_package(t, name) >= 0 ==> t[find_package(t, name)].name == name,
    decreases t.len(),
{
    if t.len() > 0 {
        lemma_find_package(t.drop_last(), name);
        if t.last().name != name {
            if has_package(t, name) {
                let k = choose|k: int| 0 <= k < t.len() && #[trigger] t[k].name == name;
                assert(t.drop_last()[k].name == name);
            }
            if has_package(t.drop_last(), name) {
                let k = choose|k: int| 0 <= k < t.len() - 1 && #[trigger] t.drop_last()[k].name == name;
                assert(t[k].name == name);
            }
        } else {
            assert(t[t.len() - 1].name == name);
        }
    }
}

/// Installing a package keeps the names of the table distinct.
pub proof fn law_install_keeps_names_distinct(t: Seq<PackageSpec>, p: PackageSpec)
    requires
        names_distinct(t),
    ensures
        names_distinct(install(t, p)),
{
    lemma_find_package(t, p.name);
    let u = install(t, p);
    let i = find_package(t, p.name);
    assert forall|a: int, b: int| 0 <= a < u.len() && 0 <= b < u.len() && a != b implies #[trigger] u[a].name
        != #[trigger] u[b].name by {
        if i >= 0 {
            if a != i && b != i {
                assert(t[a].name != t[b].name);
            } else if a == i {
                assert(t[b].name != t[i].name);
            } else {
                assert(t[a].name != t[i].name);
            }
        } else {
            if a < t.len() && b < t.len() {
                assert(t[a].name != t[b].name);
            } else if a < t.len() {
                assert(!has_package(t, p.name));
                assert(t[a].name != p.name);
            } else {
                assert(!has_package(t, p.name));
                assert(t[b].name != p.name);
            }
        }
    }
}

/// Installs a package: it replaces the one of the same name, or is added.
pub open spec fn install(t: Seq<PackageSpec>, p: PackageSpec) -> Seq<PackageSpec> {
    let i = find_package(t, p.name);
    if i >= 0 {
        t.update(i, p)
    } else {
        t.push(p)
    }
}

/// Installing the packages found as `names`, in order.
pub open spec fn install_all(t: Seq<PackageSpec>, names: Seq<Seq<char>>) -> Seq<PackageSpec>
    decreases names.len(),
{
    if names.len() == 0 {
        t
    } else {
        install(install_all(t, names.drop_last()), default_package(names.last()))
    }
}

/// The directories of the search paths that exist, in order.
pub open spec fn found_directories(ls: Seq<PathListing>) -> Seq<Seq<char>>
    decreases ls.len(),
{
    if ls.len() == 0 {
        Seq::empty()
    } else if ls.last().exists {
        found_directories(ls.drop_last()) + strings_view(ls.last().directories@)
    } else {
        found_directories(ls.drop_last())
    }
}

pub open spec fn packages_view(v: Seq<Package>) -> Seq<PackageSpec> {
    v.map_values(|p: Package| p@)
}

fn copy_strings(v: &Vec<String>) -> (r: Vec<String>)
    ensures
        strings_view(r@) == strings_view(v@),
{
    let mut r: Vec<String> = Vec::new();
    let mut i: usize = 0;
    while i < v.len()
        invariant
            i <= v@.len(),
            strings_view(r@) =~= strings_view(v@.take(i as int)),
        decreases v@.len() - i,
    {
        let ghost before = r@;
        r.push(v[i].clone());
        assert(strings_view(r@) =~= strings_view(before).push(v@[i as int]@));
        assert(v@.take(i + 1) =~= v@.take(i as int).push(v@[i as int]));
        i = i + 1;
    }
    assert(v@.take(i as int) =~= v@);
    r
}

fn position_of(v: &Vec<Package>, name: &str) -> (r: Option<usize>)
    ensures
        match r {
            Some(i) => i == find_package(packages_view(v@), name@) && i < v@.len(),
            None => find_package(packages_view(v@), name@) == -1,
        },
{
    let ghost t = packages_view(v@);
    let mut i = v.len();
    assert(t.take(i as int) =~= t);
    while i > 0
        invariant
            i <= v@.len(),
            t == packages_view(v@),
            find_package(t, name@) == find_package(t.take(i as int), name@),
        decreases i,
    {
        assert(t.take(i as int).drop_last() =~= t.take(i - 1));
        if str_eq(v[i - 1].name.as_str(), name) {
            return Some(i - 1);
        }
        i = i - 1;
    }
    assert(t.take(0) =~= Seq::<PackageSpec>::empty());
    None
}

fn install_into(v: &mut Vec<Package>, p: Package)
    ensures
        packages_view(final(v)@) == install(packages_view(old(v)@), p@),
{
    let ghost t = packages_view(v@);
    match position_of(v, p.name.as_str()) {
        Some(i) => {
            v.set(i, p);
            assert(packages_view(v@) =~= t.update(i as int, p@));
        },
        None => {
            v.push(p);
            assert(packages_view(v@) =~= t.push(p@));
        },
    }
}

impl Package {
    /// A copy of the package, field for field.
    pub fn duplicate(&self) -> (r: Package)
        ensures
            r@ == self@,
    {
        Package {
            name: self.name.clone(),
            version: self.version.clone(),
            description: self.description.clone(),
            author: self.author.clone(),
            main_file: self.main_file.clone(),
            dependencies: copy_strings(&self.dependencies),
            exports: copy_strings(&self.exports),
        }
    }
}

/// The table of installed packages and the paths searched for them.
pub struct PackageManager {
    installed_packages: Vec<Package>,
    package_paths: Vec<String>,
    cache_directory: String,
}

impl PackageManager {
    pub closed spec fn packages(&self) -> Seq<PackageSpec> {
        packages_view(self.installed_packages@)
    }

    pub closed spec fn paths(&self) -> Seq<Seq<char>> {
        strings_view(self.package_paths@)
    }

    pub closed spec fn cache(&self) -> Seq<char> {
        self.cache_directory@
    }

    /// Each package is installed under its own name once.
    #[verifier::type_invariant]
    spec fn one_package_per_name(self) -> bool {
        names_distinct(packages_view(self.installed_packages@))
    }

    /// No packages; the search paths `./lib` and `./vendor`; the cache `./packages`.
    pub fn new() -> (r: Self)
        ensures
            r.packages() == Seq::<PackageSpec>::empty(),
            r.paths() == seq!["./lib"@, "./vendor"@],
            r.cache() == "./packages"@,
    {
        let mut pm = PackageManager {
            installed_packages: Vec::new(),
            package_paths: Vec::new(),
            cache_directory: owned("./packages"),
        };
        assert(pm.paths() =~= Seq::empty());
        pm.add_package_path(owned("./lib"));
        assert(pm.paths() =~= seq!["./lib"@]);
        proof {
            reveal_strlit("./lib");
            reveal_strlit("./vendor");
            assert(!seq!["./lib"@].contains("./vendor"@)) by {
                assert("./lib"@.len() != "./vendor"@.len());
            }
        }
        pm.add_package_path(owned("./vendor"));
        assert(pm.packages() =~= Seq::empty());
        assert(pm.paths() =~= seq!["./lib"@, "./vendor"@]);
        pm
    }

    fn has_path(&self, path: &str) -> (r: bool)
        ensures
            r == self.paths().contains(path@),
    {
        let mut i: usize = 0;
        while i < self.package_paths.len()
            invariant
                i <= self.package_paths@.len(),
                forall|k: int| 0 <= k < i ==> self.paths()[k] != path@,
            decreases self.package_paths@.len() - i,
        {
            if str_eq(self.package_paths[i].as_str(), path) {
                assert(self.paths()[i as int] == path@);
                return true;
            }
            i = i + 1;
        }
        false
    }

    /// Adds a search path, unless it is one already.
    pub fn add_package_path(&mut self, path: String)
        ensures
            final(self).paths() == if old(self).paths().contains(path@) {
                old(self).paths()
            } else {
                old(self).paths().push(path@)
            },
            final(self).packages() == old(self).packages(),
            final(self).cache() == old(self).cache(),
    {
        proof {
            use_type_invariant(&*self);
        }
        if !self.has_path(path.as_str()) {
            let ghost before = self.package_paths@;
            let mut paths: Vec<String> = Vec::new();
            std::mem::swap(&mut paths, &mut self.package_paths);
            paths.push(path);
            std::mem::swap(&mut paths, &mut self.package_paths);
            assert(self.paths() =~= strings_view(before).push(path@));
        }
    }

    fn find(&self, name: &str) -> (r: Option<usize>)
        ensures
            match r {
                Some(i) => i == find_package(self.packages(), name@) && i < self.installed_packages@.len(),
                None => find_package(self.packages(), name@) == -1,
            },
    {
        position_of(&self.installed_packages, name)
    }

    /// The metadata of the package found as the directory `name`.
    fn load_package_info(name: &str) -> (r: Package)
        ensures
            r@ == default_package(name@),
    {
        let mut description = owned(name);
        append_str(&mut description, " package");
        let mut exports: Vec<String> = Vec::new();
        exports.push(owned("*"));
        let r = Package {
            name: owned(name),
            version: owned("1.0.0"),
            description,
            author: owned("Unknown"),
            main_file: owned("main.grease"),
            dependencies: Vec::new(),
            exports,
        };
        assert(r@.dependencies =~= Seq::empty());
        assert(r@.exports =~= seq!["*"@]);
        r
    }

    fn install(&mut self, p: Package)
        ensures
            final(self).packages() == install(old(self).packages(), p@),
            final(self).paths() == old(self).paths(),
            final(self).cache() == old(self).cache(),
    {
        proof {
            use_type_invariant(&*self);
            law_install_keeps_names_distinct(self.packages(), p@);
        }
        let mut packages: Vec<Package> = Vec::new();
        std::mem::swap(&mut packages, &mut self.installed_packages);
        install_into(&mut packages, p);
        std::mem::swap(&mut packages, &mut self.installed_packages);
    }

    /// Installs a package for each directory of each search path that exists, and
    /// gives how many directories were found. `listings` holds, for each search
    /// path in order, what the caller found there.
    pub fn discover_packages(&mut self, listings: &Vec<PathListing>) -> (r: Result<usize, String>)
        requires
            listings@.len() == old(self).paths().len(),
            found_directories(listings@).len() <= usize::MAX,
        ensures
            r == Ok::<usize, String>(found_directories(listings@).len() as usize),
            final(self).packages() == install_all(old(self).packages(), found_directories(listings@)),
            final(self).paths() == old(self).paths(),
            final(self).cache() == old(self).cache(),
    {
        let ghost t0 = self.packages();
        let mut count: usize = 0;
        let mut i: usize = 0;
        while i < listings.len()
            invariant
                i <= listings@.len(),
                t0 == old(self).packages(),
                self.paths() == old(self).paths(),
                self.cache() == old(self).cache(),
                count == found_directories(listings@.take(i as int)).len(),
                found_directories(listings@).len() <= usize::MAX,
                self.packages() == install_all(t0, found_directories(listings@.take(i as int))),
            decreases listings@.len() - i,
        {
            assert(listings@.take(i + 1).drop_last() =~= listings@.take(i as int));
            proof {
                lemma_found_prefix(listings@, i + 1);
            }
            if listings[i].exists {
                let dirs = &listings[i].directories;
                let ghost base = found_directories(listings@.take(i as int));
                let mut j: usize = 0;
                while j < dirs.len()
                    invariant
                        j <= dirs@.len(),
                        t0 == old(self).packages(),
                        self.paths() == old(self).paths(),
                        self.cache() == old(self).cache(),
                        count == base.len() + j,
                        base.len() + dirs@.len() <= usize::MAX,
                        self.packages() == install_all(t0, base + strings_view(dirs@.take(j as int))),
                    decreases dirs@.len() - j,
                {
                    let p = Self::load_package_info(dirs[j].as_str());
                    self.install(p);
                    let ghost x = base + strings_view(dirs@.take(j as int));
                    assert(base + strings_view(dirs@.take(j + 1)) =~= x.push(dirs@[j as int]@));
                    assert(x.push(dirs@[j as int]@).drop_last() =~= x);
                    count = count + 1;
                    j = j + 1;
                }
                assert(dirs@.take(j as int) =~= dirs@);
            }
            i = i + 1;
        }
        assert(listings@.take(i as int) =~= listings@);
        Ok(count)
    }

    /// The package named `name`, if installed.
    pub fn get_package(&self, name: &str) -> (r: Option<&Package>)
        ensures
            r is Some <==> has_package(self.packages(), name@),
            r matches Some(p) ==> p@.name == name@,
            match r {
                Some(p) => find_package(self.packages(), name@) >= 0 && p@ == self.packages()[find_package(
                    self.packages(),
                    name@,
                )],
                None => find_package(self.packages(), name@) == -1,
            },
    {
        proof {
            lemma_find_package(self.packages(), name@);
        }
        match self.find(name) {
            Some(i) => Some(&self.installed_packages[i]),
            None => None,
        }
    }

    /// The installed packages, in the order they were first installed.
    pub fn list_packages(&self) -> (r: Vec<&Package>)
        ensures
            r@.map_values(|p: &Package| p@) == self.packages(),
            names_distinct(r@.map_values(|p: &Package| p@)),
    {
        proof {
            use_type_invariant(self);
        }
        let mut r: Vec<&Package> = Vec::new();
        assert(r@.map_values(|p: &Package| p@) =~= self.packages().take(0));
        let mut i: usize = 0;
        while i < self.installed_packages.len()
            invariant
                i <= self.installed_packages@.len(),
                r@.map_values(|p: &Package| p@) =~= self.packages().take(i as int),
            decreases self.installed_packages@.len() - i,
        {
            let ghost before = r@;
            r.push(&self.installed_packages[i]);
            assert(r@.map_values(|p: &Package| p@) =~= before.map_values(|p: &Package| p@).push(
                self.installed_packages@[i as int]@,
            ));
            assert(r@.map_values(|p: &Package| p@) =~= self.packages().take(i + 1));
            i = i + 1;
        }
        r
    }

    /// Whether a package of that name is installed.
    pub fn is_package_installed(&self, name: &str) -> (r: bool)
        ensures
            r == (find_package(self.packages(), name@) >= 0),
            r == has_package(self.packages(), name@),
    {
        proof {
            lemma_find_package(self.packages(), name@);
        }
        self.find(name).is_some()
    }
}

proof fn lemma_found_prefix(ls: Seq<PathListing>, i: int)
    requires
        0 <= i <= ls.len(),
    ensures
        found_directories(ls.take(i)).len() <= found_directories(ls).len(),
    decreases ls.len(),
{
    if i < ls.len() {
        assert(ls.drop_last().take(i) =~= ls.take(i));
        lemma_found_prefix(ls.drop_last(), i);
    } else {
        assert(ls.take(i) =~= ls);
    }
}

/// Resolves packages against a package manager, remembering what it resolved.
pub struct PackageResolver {
    package_manager: PackageManager,
    resolved_packages: Vec<Package>,
}

impl PackageResolver {
    pub closed spec fn manager(&self) -> PackageManager {
        self.package_manager
    }

    pub closed spec fn resolved(&self) -> Seq<PackageSpec> {
        packages_view(self.resolved_packages@)
    }

    /// A resolver over a new package manager, with nothing resolved.
    pub fn new() -> (r: Self)
        ensures
            r.manager().packages() == Seq::<PackageSpec>::empty(),
            r.manager().paths() == seq!["./lib"@, "./vendor"@],
            r.resolved() == Seq::<PackageSpec>::empty(),
    {
        let r = PackageResolver { package_manager: PackageManager::new(), resolved_packages: Vec::new() };
        assert(r.resolved() =~= Seq::empty());
        r
    }

    /// The package named `name`: the one resolved before, or the installed one,
    /// which is then remembered as resolved. Dependencies are not followed.
    pub fn resolve_package(&mut self, package_name: &str) -> (r: Result<Vec<Package>, String>)
        ensures
            final(self).manager() == old(self).manager(),
            find_package(old(self).resolved(), package_name@) >= 0 ==> ({
                &&& r is Ok
                &&& r->Ok_0@.map_values(|p: Package| p@) == seq![
                    old(self).resolved()[find_package(old(self).resolved(), package_name@)],
                ]
                &&& final(self).resolved() == old(self).resolved()
            }),
            find_package(old(self).resolved(), package_name@) < 0 && find_package(
                old(self).manager().packages(),
                package_name@,
            ) >= 0 ==> ({
                let p = old(self).manager().packages()[find_package(old(self).manager().packages(), package_name@)];
                &&& r is Ok
                &&& r->Ok_0@.map_values(|p: Package| p@) == seq![p]
                &&& final(self).resolved() == install(old(self).resolved(), p)
            }),
            find_package(old(self).resolved(), package_name@) < 0 && find_package(
                old(self).manager().packages(),
                package_name@,
            ) < 0 ==> (r matches Err(m) && m@ == "Package '"@ + package_name@ + "' not found"@),
    {
        if let Some(i) = position_of(&self.resolved_packages, package_name) {
            let out = vec![self.resolved_packages[i].duplicate()];
            assert(out@.map_values(|p: Package| p@) =~= seq![self.resolved()[i as int]]);
            return Ok(out);
        }
        match self.package_manager.find(package_name) {
            Some(i) => {
                let p = self.package_manager.installed_packages[i].duplicate();
                let out = vec![p.duplicate()];
                assert(out@.map_values(|q: Package| q@) =~= seq![p@]);
                install_into(&mut self.resolved_packages, p);
                Ok(out)
            },
            None => {
                let mut m = owned("Package '");
                append_str(&mut m, package_name);
                append_str(&mut m, "' not found");
                Err(m)
            },
        }
    }

    /// The package manager the resolver reads.
    pub fn get_package_manager(&self) -> (r: &PackageManager)
        ensures
            *r == self.manager(),
    {
        &self.package_manager
    }
}

/// The listing the `package_list` function of the language gives.
pub open spec fn package_list_spec() -> Seq<char> {
    "Available Packages:\n  math v1.0.0 - Mathematical functions\n  string v1.0.0 - String utilities\n"@
}

/// The description the `package_info` function of the language gives of a package.
pub open spec fn package_info_spec(name: Seq<char>) -> Seq<char> {
    "Package: "@ + name
        + "\nVersion: 1.0.0\nDescription: Example package\nAuthor: Grease Team\nMain: main.grease\nDependencies: none\nExports: *"@
}

/// The text of the `package_list` function of the language.
pub fn package_list_text() -> (r: String)
    ensures
        r@ == package_list_spec(),
{
    owned("Available Packages:\n  math v1.0.0 - Mathematical functions\n  string v1.0.0 - String utilities\n")
}

/// The text of the `package_info` function of the language for a package.
pub fn package_info_text(package_name: &str) -> (r: String)
    ensures
        r@ == package_info_spec(package_name@),
{
    let mut r = owned("Package: ");
    append_str(&mut r, package_name);
    append_str(
        &mut r,
        "\nVersion: 1.0.0\nDescription: Example package\nAuthor: Grease Team\nMain: main.grease\nDependencies: none\nExports: *",
    );
    r
}

/// Whether the `package_exists` function of the language reports a package: the
/// `math` and `string` packages are the ones it knows.
pub fn package_exists(package_name: &str) -> (r: bool)
    ensures
        r == (package_name@ == "math"@ || package_name@ == "string"@),
{
    str_eq(package_name, "math") || str_eq(package_name, "string")
}

} // verus!
