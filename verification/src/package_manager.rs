//! The command-line package manager's configuration and records.

use vstd::prelude::*;
use crate::module_loader::strings_view;
use crate::text::{owned, append_str, str_eq, contains_str, contains_seq};

verus! {

/// A package repository.
#[derive(Debug, Clone)]
pub struct PackageRepository {
    pub name: String,
    pub url: String,
    pub packages: Vec<PackageInfo>,
}

/// A package as a repository describes it.
#[derive(Debug, Clone)]
pub struct PackageInfo {
    pub name: String,
    pub version: String,
    pub description: String,
    pub author: String,
    pub license: String,
    pub homepage: String,
    pub download_url: String,
    pub dependencies: Vec<String>,
    pub tags: Vec<String>,
}

/// Where packages go and where they come from.
#[derive(Debug, Clone)]
pub struct PackageManagerConfig {
    pub install_directory: String,
    pub cache_directory: String,
    pub repositories: Vec<PackageRepository>,
    pub auto_update: bool,
}

/// An installed package.
#[derive(Debug, Clone)]
pub struct InstalledPackage {
    pub info: PackageInfo,
    pub install_date: String,
    pub install_path: String,
    pub files: Vec<String>,
}

/// The command-line package manager.
pub struct PackageCliManager {
    config: PackageManagerConfig,
    installed_packages: Vec<InstalledPackage>,
}

/// What the repositories are taken to say of a package: every name is found,
/// with the same metadata.
pub open spec fn repository_entry(name: Seq<char>) -> (Seq<char>, Seq<char>, Seq<char>, Seq<char>, Seq<char>, Seq<char>, Seq<char>, Seq<Seq<char>>) {
    (
        "1.0.0"@,
        name + " package for Grease"@,
        "Grease Team"@,
        "MIT"@,
        "https://grease-lang.org/packages/"@ + name,
        "https://packages.grease-lang.org/download/"@ + name,
        name,
        seq!["utility"@],
    )
}

/// An installed package as a mathematical value.
pub struct InstalledSpec {
    pub name: Seq<char>,
    pub version: Seq<char>,
    pub description: Seq<char>,
    pub author: Seq<char>,
    pub license: Seq<char>,
    pub homepage: Seq<char>,
    pub install_date: Seq<char>,
    pub install_path: Seq<char>,
    pub files: Seq<Seq<char>>,
}

pub open spec fn installed_spec(p: InstalledPackage) -> InstalledSpec {
    InstalledSpec {
        name: p.info.name@,
        version: p.info.version@,
        description: p.info.description@,
        author: p.info.author@,
        license: p.info.license@,
        homepage: p.info.homepage@,
        install_date: p.install_date@,
        install_path: p.install_path@,
        files: strings_view(p.files@),
    }
}

/// No two records share a package name.
pub open spec fn names_unique(s: Seq<InstalledPackage>) -> bool {
    forall|i: int, j: int|
        0 <= i < s.len() && 0 <= j < s.len() && i != j ==> #[trigger] s[i].info.name@ != #[trigger] s[j].info.name@
}

/// Whether a record with the name is present.
pub open spec fn has_name(s: Seq<InstalledPackage>, n: Seq<char>) -> bool {
    exists|k: int| 0 <= k < s.len() && #[trigger] s[k].info.name@ == n
}

/// The records as a map from package name to record.
pub open spec fn installed_map(s: Seq<InstalledPackage>) -> Map<Seq<char>, InstalledSpec> {
    Map::new(
        |n: Seq<char>| has_name(s, n),
        |n: Seq<char>| installed_spec(s[choose|k: int| 0 <= k < s.len() && #[trigger] s[k].info.name@ == n]),
    )
}

/// The record at `k` is what the map holds under its name.
proof fn lemma_map_at(s: Seq<InstalledPackage>, k: int)
    requires
        names_unique(s),
        0 <= k < s.len(),
    ensures
        installed_map(s).contains_key(s[k].info.name@),
        installed_map(s)[s[k].info.name@] == installed_spec(s[k]),
{
    let n = s[k].info.name@;
    assert(has_name(s, n));
    let c = choose|j: int| 0 <= j < s.len() && #[trigger] s[j].info.name@ == n;
    assert(c == k);
}

/// The directory a package is installed in: the name joined to the install
/// directory, as `Path::join` joins a relative name (an absolute name replaces it).
pub open spec fn package_dir(install_dir: Seq<char>, name: Seq<char>) -> Seq<char> {
    if name.len() > 0 && name[0] == '/' {
        name
    } else {
        install_dir + "/"@ + name
    }
}

/// The `main.grease` written for a package.
pub open spec fn main_file_text(name: Seq<char>, version: Seq<char>, author: Seq<char>) -> Seq<char> {
    "# "@ + name + " package for Grease\n# Version: "@ + version + "\n# Author: "@ + author
        + "\n\nprint('Package "@ + name + " loaded')\n"@
}

/// The `package.json` written for a package.
pub open spec fn manifest_text(
    name: Seq<char>,
    version: Seq<char>,
    description: Seq<char>,
    author: Seq<char>,
    license: Seq<char>,
) -> Seq<char> {
    "{\n  \"name\": \""@ + name + "\",\n  \"version\": \""@ + version + "\",\n  \"description\": \""@
        + description + "\",\n  \"author\": \""@ + author + "\",\n  \"license\": \""@ + license
        + "\",\n  \"main\": \"main.grease\"\n}"@
}

/// What installing a package writes, and where.
#[derive(Debug)]
pub struct PackageFiles {
    pub info: PackageInfo,
    pub directory: String,
    pub main_path: String,
    pub main_content: String,
    pub manifest_path: String,
    pub manifest_content: String,
}

/// The packages the search knows, with their descriptions.
pub open spec fn known_packages() -> Seq<(Seq<char>, Seq<char>)> {
    seq![
        ("math"@, "Mathematical functions and utilities"@),
        ("string"@, "String manipulation and utilities"@),
        ("ui"@, "User interface components"@),
        ("http"@, "HTTP client and server utilities"@),
    ]
}

/// The entry, if its name or description contains the query.
pub open spec fn keep_match(p: (Seq<char>, Seq<char>), query: Seq<char>) -> Seq<(Seq<char>, Seq<char>)> {
    if contains_seq(p.0, query) || contains_seq(p.1, query) {
        seq![p]
    } else {
        Seq::empty()
    }
}

/// The matches among the first `i` known packages.
pub open spec fn search_prefix(query: Seq<char>, i: int) -> Seq<(Seq<char>, Seq<char>)>
    decreases i,
{
    if i <= 0 {
        Seq::empty()
    } else {
        search_prefix(query, i - 1) + keep_match(known_packages()[i - 1], query)
    }
}

/// The known packages whose name or description contains the query, in order.
pub open spec fn search_results(query: Seq<char>) -> Seq<(Seq<char>, Seq<char>)> {
    let k = known_packages();
    keep_match(k[0], query) + keep_match(k[1], query) + keep_match(k[2], query) + keep_match(k[3], query)
}

impl PackageCliManager {
    pub closed spec fn config(&self) -> PackageManagerConfig {
        self.config
    }

    /// No two installed packages share a name.
    pub closed spec fn wf(&self) -> bool {
        names_unique(self.installed_packages@)
    }

    /// The installed packages by name.
    pub closed spec fn installed(&self) -> Map<Seq<char>, InstalledSpec> {
        installed_map(self.installed_packages@)
    }

    /// Packages go to `./packages`, the cache to `./.grease/cache`; one repository,
    /// `official`, with no packages listed yet; updates are automatic.
    pub fn new() -> (r: Self)
        ensures
            r.config().install_directory@ == "./packages"@,
            r.config().cache_directory@ == "./.grease/cache"@,
            r.config().repositories@.len() == 1,
            r.config().repositories@[0].name@ == "official"@,
            r.config().repositories@[0].url@ == "https://packages.grease-lang.org"@,
            r.config().repositories@[0].packages@.len() == 0,
            r.config().auto_update,
            r.wf(),
            r.installed() == Map::<Seq<char>, InstalledSpec>::empty(),
    {
        let config = PackageManagerConfig {
            install_directory: owned("./packages"),
            cache_directory: owned("./.grease/cache"),
            repositories: vec![
                PackageRepository {
                    name: owned("official"),
                    url: owned("https://packages.grease-lang.org"),
                    packages: Vec::new(),
                },
            ],
            auto_update: true,
        };
        let r = PackageCliManager { config, installed_packages: Vec::new() };
        assert(installed_map(r.installed_packages@) =~= Map::<Seq<char>, InstalledSpec>::empty());
        r
    }

    /// What the repositories say of a package.
    pub fn search_package(&self, package_name: &str) -> (r: Result<PackageInfo, String>)
        ensures
            r matches Ok(info) && {
                let e = repository_entry(package_name@);
                &&& info.name@ == e.6
                &&& info.version@ == e.0
                &&& info.description@ == e.1
                &&& info.author@ == e.2
                &&& info.license@ == e.3
                &&& info.homepage@ == e.4
                &&& info.download_url@ == e.5
                &&& info.dependencies@.len() == 0
                &&& strings_view(info.tags@) == e.7
            },
    {
        let mut description = owned(package_name);
        append_str(&mut description, " package for Grease");
        let mut homepage = owned("https://grease-lang.org/packages/");
        append_str(&mut homepage, package_name);
        let mut download_url = owned("https://packages.grease-lang.org/download/");
        append_str(&mut download_url, package_name);
        let tags = vec![owned("utility")];
        assert(strings_view(tags@) =~= seq!["utility"@]);
        Ok(
            PackageInfo {
                name: owned(package_name),
                version: owned("1.0.0"),
                description,
                author: owned("Grease Team"),
                license: owned("MIT"),
                homepage,
                download_url,
                dependencies: Vec::new(),
                tags,
            },
        )
    }

    /// Where the package of that name is recorded, if it is.
    fn find_installed(&self, name: &str) -> (r: Option<usize>)
        ensures
            match r {
                Some(k) => k < self.installed_packages@.len() && self.installed_packages@[k as int].info.name@
                    == name@,
                None => !has_name(self.installed_packages@, name@),
            },
    {
        let n = self.installed_packages.len();
        let mut k: usize = 0;
        while k < n
            invariant
                n == self.installed_packages@.len(),
                k <= n,
                forall|j: int| 0 <= j < k ==> #[trigger] self.installed_packages@[j].info.name@ != name@,
            decreases n - k,
        {
            if str_eq(self.installed_packages[k].info.name.as_str(), name) {
                return Some(k);
            }
            k = k + 1;
        }
        None
    }

    /// The record of an installed package.
    pub fn get_installed(&self, package_name: &str) -> (r: Option<&InstalledPackage>)
        requires
            self.wf(),
        ensures
            r is Some <==> self.installed().contains_key(package_name@),
            r matches Some(p) ==> installed_spec(*p) == self.installed()[package_name@],
    {
        match self.find_installed(package_name) {
            Some(k) => {
                proof {
                    lemma_map_at(self.installed_packages@, k as int);
                }
                Some(&self.installed_packages[k])
            },
            None => None,
        }
    }

    /// The installed packages, in the order they were installed.
    pub fn installed_packages(&self) -> (r: &Vec<InstalledPackage>)
        ensures
            names_unique(r@) == self.wf(),
            installed_map(r@) == self.installed(),
    {
        &self.installed_packages
    }

    /// Checks that a package can be installed and says what installing it writes:
    /// fails when a package of that name is installed already.
    pub fn prepare_install(&self, package_name: &str) -> (r: Result<PackageFiles, String>)
        requires
            self.wf(),
        ensures
            match r {
                Err(e) => self.installed().contains_key(package_name@) && e@ == "Package '"@ + package_name@
                    + "' is already installed"@,
                Ok(f) => {
                    let e = repository_entry(package_name@);
                    let dir = package_dir(self.config().install_directory@, package_name@);
                    &&& !self.installed().contains_key(package_name@)
                    &&& f.info.name@ == package_name@
                    &&& f.info.version@ == e.0
                    &&& f.info.description@ == e.1
                    &&& f.info.author@ == e.2
                    &&& f.info.license@ == e.3
                    &&& f.info.homepage@ == e.4
                    &&& f.info.download_url@ == e.5
                    &&& f.info.dependencies@.len() == 0
                    &&& strings_view(f.info.tags@) == e.7
                    &&& f.directory@ == dir
                    &&& f.main_path@ == dir + "/main.grease"@
                    &&& f.manifest_path@ == dir + "/package.json"@
                    &&& f.main_content@ == main_file_text(package_name@, e.0, e.2)
                    &&& f.manifest_content@ == manifest_text(package_name@, e.0, e.1, e.2, e.3)
                },
            },
    {
        if let Some(k) = self.find_installed(package_name) {
            proof {
                lemma_map_at(self.installed_packages@, k as int);
            }
            let mut e = owned("Package '");
            append_str(&mut e, package_name);
            append_str(&mut e, "' is already installed");
            return Err(e);
        }
        let info = match self.search_package(package_name) {
            Ok(i) => i,
            Err(e) => {
                return Err(e);
            },
        };
        let directory = if package_name.unicode_len() > 0 && package_name.get_char(0) == '/' {
            owned(package_name)
        } else {
            let mut d = self.config.install_directory.clone();
            append_str(&mut d, "/");
            append_str(&mut d, package_name);
            d
        };
        let mut main_path = directory.clone();
        append_str(&mut main_path, "/main.grease");
        let mut manifest_path = directory.clone();
        append_str(&mut manifest_path, "/package.json");
        let mut main_content = owned("# ");
        append_str(&mut main_content, info.name.as_str());
        append_str(&mut main_content, " package for Grease\n# Version: ");
        append_str(&mut main_content, info.version.as_str());
        append_str(&mut main_content, "\n# Author: ");
        append_str(&mut main_content, info.author.as_str());
        append_str(&mut main_content, "\n\nprint('Package ");
        append_str(&mut main_content, info.name.as_str());
        append_str(&mut main_content, " loaded')\n");
        let mut manifest_content = owned("{\n  \"name\": \"");
        append_str(&mut manifest_content, info.name.as_str());
        append_str(&mut manifest_content, "\",\n  \"version\": \"");
        append_str(&mut manifest_content, info.version.as_str());
        append_str(&mut manifest_content, "\",\n  \"description\": \"");
        append_str(&mut manifest_content, info.description.as_str());
        append_str(&mut manifest_content, "\",\n  \"author\": \"");
        append_str(&mut manifest_content, info.author.as_str());
        append_str(&mut manifest_content, "\",\n  \"license\": \"");
        append_str(&mut manifest_content, info.license.as_str());
        append_str(&mut manifest_content, "\",\n  \"main\": \"main.grease\"\n}");
        Ok(PackageFiles { info, directory, main_path, main_content, manifest_path, manifest_content })
    }

    /// Records a package as installed once its files were written (`written`); a
    /// failed write is handed back and nothing is recorded.
    pub fn download_and_install(&mut self, files: PackageFiles, written: Result<(), String>) -> (r: Result<
        (),
        String,
    >)
        requires
            old(self).wf(),
        ensures
            final(self).wf(),
            final(self).config() == old(self).config(),
            match written {
                Err(e) => r == Err::<(), String>(e) && final(self).installed() == old(self).installed(),
                Ok(_) => r is Ok && final(self).installed() == old(self).installed().insert(
                    files.info.name@,
                    InstalledSpec {
                        name: files.info.name@,
                        version: files.info.version@,
                        description: files.info.description@,
                        author: files.info.author@,
                        license: files.info.license@,
                        homepage: files.info.homepage@,
                        install_date: "2025-01-01"@,
                        install_path: files.directory@,
                        files: seq!["main.grease"@, "package.json"@],
                    },
                ),
            },
    {
        if let Err(e) = written {
            return Err(e);
        }
        let name = files.info.name.clone();
        let record = InstalledPackage {
            info: files.info,
            install_date: owned("2025-01-01"),
            install_path: files.directory,
            files: vec![owned("main.grease"), owned("package.json")],
        };
        assert(strings_view(record.files@) =~= seq!["main.grease"@, "package.json"@]);
        let ghost old_s = self.installed_packages@;
        let ghost rec = installed_spec(record);
        match self.find_installed(name.as_str()) {
            Some(k) => {
                self.installed_packages.set(k, record);
                proof {
                    let s = self.installed_packages@;
                    assert(s == old_s.update(k as int, record));
                    assert(names_unique(s)) by {
                        assert forall|i: int, j: int|
                            0 <= i < s.len() && 0 <= j < s.len() && i != j implies #[trigger] s[i].info.name@
                            != #[trigger] s[j].info.name@ by {
                            assert(old_s[i].info.name@ != old_s[j].info.name@);
                        }
                    }
                    assert(installed_map(s) =~= installed_map(old_s).insert(name@, rec)) by {
                        assert forall|n: Seq<char>| has_name(s, n) <==> (has_name(old_s, n) || n == name@) by {
                            if has_name(old_s, n) {
                                let j = choose|j: int| 0 <= j < old_s.len() && #[trigger] old_s[j].info.name@ == n;
                                assert(s[j].info.name@ == n);
                            }
                            if has_name(s, n) {
                                let j = choose|j: int| 0 <= j < s.len() && #[trigger] s[j].info.name@ == n;
                                assert(old_s[j].info.name@ == n);
                            }
                            if n == name@ {
                                assert(s[k as int].info.name@ == n);
                            }
                        }
                        assert forall|n: Seq<char>| #[trigger] installed_map(s).contains_key(n) implies installed_map(
                            s,
                        )[n] == installed_map(old_s).insert(name@, rec)[n] by {
                            let j = choose|j: int| 0 <= j < s.len() && #[trigger] s[j].info.name@ == n;
                            lemma_map_at(s, j);
                            if j != k {
                                lemma_map_at(old_s, j);
                            }
                        }
                    }
                }
            },
            None => {
                self.installed_packages.push(record);
                proof {
                    let s = self.installed_packages@;
                    assert(s == old_s.push(record));
                    assert(names_unique(s)) by {
                        assert forall|i: int, j: int|
                            0 <= i < s.len() && 0 <= j < s.len() && i != j implies #[trigger] s[i].info.name@
                            != #[trigger] s[j].info.name@ by {
                            if i < old_s.len() && j < old_s.len() {
                                assert(old_s[i].info.name@ != old_s[j].info.name@);
                            } else if i < old_s.len() {
                                assert(old_s[i].info.name@ != name@);
                            } else {
                                assert(old_s[j].info.name@ != name@);
                            }
                        }
                    }
                    assert(installed_map(s) =~= installed_map(old_s).insert(name@, rec)) by {
                        assert forall|n: Seq<char>| has_name(s, n) <==> (has_name(old_s, n) || n == name@) by {
                            if has_name(old_s, n) {
                                let j = choose|j: int| 0 <= j < old_s.len() && #[trigger] old_s[j].info.name@ == n;
                                assert(s[j].info.name@ == n);
                            }
                            if has_name(s, n) {
                                let j = choose|j: int| 0 <= j < s.len() && #[trigger] s[j].info.name@ == n;
                                if j < old_s.len() {
                                    assert(old_s[j].info.name@ == n);
                                }
                            }
                            if n == name@ {
                                assert(s[old_s.len() as int].info.name@ == n);
                            }
                        }
                        assert forall|n: Seq<char>| #[trigger] installed_map(s).contains_key(n) implies installed_map(
                            s,
                        )[n] == installed_map(old_s).insert(name@, rec)[n] by {
                            let j = choose|j: int| 0 <= j < s.len() && #[trigger] s[j].info.name@ == n;
                            lemma_map_at(s, j);
                            if j < old_s.len() {
                                lemma_map_at(old_s, j);
                            }
                        }
                    }
                }
            },
        }
        Ok(())
    }

    /// Removes a package's record and hands it back, so that its directory can be
    /// deleted; fails when no package of that name is installed.
    pub fn remove_package(&mut self, package_name: &str) -> (r: Result<InstalledPackage, String>)
        requires
            old(self).wf(),
        ensures
            final(self).wf(),
            final(self).config() == old(self).config(),
            match r {
                Err(e) => !old(self).installed().contains_key(package_name@) && e@ == "Package '"@
                    + package_name@ + "' is not installed"@ && final(self).installed() == old(self).installed(),
                Ok(p) => old(self).installed().contains_key(package_name@) && installed_spec(p) == old(
                    self,
                ).installed()[package_name@] && final(self).installed() == old(self).installed().remove(
                    package_name@,
                ),
            },
    {
        let k = match self.find_installed(package_name) {
            Some(k) => k,
            None => {
                let mut e = owned("Package '");
                append_str(&mut e, package_name);
                append_str(&mut e, "' is not installed");
                return Err(e);
            },
        };
        let ghost old_s = self.installed_packages@;
        proof {
            lemma_map_at(old_s, k as int);
        }
        let p = self.installed_packages.remove(k);
        proof {
            let s = self.installed_packages@;
            assert(s == old_s.remove(k as int));
            assert(names_unique(s)) by {
                assert forall|i: int, j: int|
                    0 <= i < s.len() && 0 <= j < s.len() && i != j implies #[trigger] s[i].info.name@
                    != #[trigger] s[j].info.name@ by {
                    let oi = if i < k { i } else { i + 1 };
                    let oj = if j < k { j } else { j + 1 };
                    assert(old_s[oi].info.name@ != old_s[oj].info.name@);
                }
            }
            assert(installed_map(s) =~= installed_map(old_s).remove(package_name@)) by {
                assert forall|n: Seq<char>| has_name(s, n) <==> (has_name(old_s, n) && n != package_name@) by {
                    if has_name(s, n) {
                        let j = choose|j: int| 0 <= j < s.len() && #[trigger] s[j].info.name@ == n;
                        let oj = if j < k { j } else { j + 1 };
                        assert(old_s[oj].info.name@ == n);
                        assert(oj != k);
                    }
                    if has_name(old_s, n) && n != package_name@ {
                        let j = choose|j: int| 0 <= j < old_s.len() && #[trigger] old_s[j].info.name@ == n;
                        assert(j != k);
                        let sj = if j < k { j } else { j - 1 };
                        assert(s[sj].info.name@ == n);
                    }
                }
                assert forall|n: Seq<char>| #[trigger] installed_map(s).contains_key(n) implies installed_map(
                    s,
                )[n] == installed_map(old_s)[n] by {
                    let j = choose|j: int| 0 <= j < s.len() && #[trigger] s[j].info.name@ == n;
                    let oj = if j < k { j } else { j + 1 };
                    lemma_map_at(s, j);
                    lemma_map_at(old_s, oj);
                }
            }
        }
        Ok(p)
    }

    /// The known packages whose name or description contains the query, as
    /// `(name, description)`.
    pub fn search_packages(&self, query: &str) -> (r: Vec<(String, String)>)
        ensures
            r@.map_values(|p: (String, String)| (p.0@, p.1@)) == search_results(query@),
    {
        let known: [(&str, &str); 4] = [
            ("math", "Mathematical functions and utilities"),
            ("string", "String manipulation and utilities"),
            ("ui", "User interface components"),
            ("http", "HTTP client and server utilities"),
        ];
        let mut out: Vec<(String, String)> = Vec::new();
        let mut i: usize = 0;
        while i < 4
            invariant
                i <= 4,
                known@.map_values(|p: (&str, &str)| (p.0@, p.1@)) == known_packages(),
                out@.map_values(|p: (String, String)| (p.0@, p.1@)) == search_prefix(query@, i as int),
            decreases 4 - i,
        {
            let (name, description) = known[i];
            let ghost before = out@.map_values(|p: (String, String)| (p.0@, p.1@));
            assert(known_packages()[i as int] == (name@, description@));
            if contains_str(name, query) || contains_str(description, query) {
                out.push((owned(name), owned(description)));
                assert(out@.map_values(|p: (String, String)| (p.0@, p.1@)) =~= before.push((name@, description@)));
            }
            assert(search_prefix(query@, i + 1) =~= search_prefix(query@, i as int) + keep_match(
                known_packages()[i as int],
                query@,
            ));
            i = i + 1;
        }
        assert(search_prefix(query@, 4) =~= search_results(query@)) by {
            reveal_with_fuel(search_prefix, 5);
        }
        out
    }
}

/// Removing a package right after installing it leaves the installed packages as
/// they were, when none of that name was installed before.
pub proof fn law_remove_undoes_install(
    before: PackageCliManager,
    installed: PackageCliManager,
    after: PackageCliManager,
    name: Seq<char>,
    record: InstalledSpec,
)
    requires
        !before.installed().contains_key(name),
        installed.installed() == before.installed().insert(name, record),
        after.installed() == installed.installed().remove(name),
    ensures
        after.installed() == before.installed(),
{
    assert(after.installed() =~= before.installed());
}

} // verus!
