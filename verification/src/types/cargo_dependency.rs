use vstd::prelude::*;
use crate::text::{
    chars_of, join, join_strings, lemma_seq_lt_total, lemma_seq_lt_transitive, replace, replace_in,
    seq_lt, str_lt, str_views, string_of, strictly_sorted,
};

verus! {

/// The texts of a list of static strings.
pub open spec fn strs_of(v: Seq<&'static str>) -> Seq<Seq<char>> {
    v.map_values(|s: &'static str| s@)
}

/// The set of names held in a list of features.
pub open spec fn feature_names(v: Seq<&'static str>) -> Set<Seq<char>> {
    strs_of(v).to_set()
}

proof fn lemma_names_take_push(v: Seq<&'static str>, i: int)
    requires
        0 <= i < v.len(),
    ensures
        feature_names(v.take(i + 1)) == feature_names(v.take(i)).insert(v[i]@),
{
    let a = strs_of(v.take(i + 1));
    let b = strs_of(v.take(i));
    assert(a =~= b.push(v[i]@));
    assert forall|x: Seq<char>| a.to_set().contains(x) <==> b.to_set().insert(v[i]@).contains(x) by {
        if a.to_set().contains(x) {
            let k = choose|k: int| 0 <= k < a.len() && a[k] == x;
            if k < i {
                assert(b[k] == x);
            }
        }
        if b.to_set().contains(x) {
            let k = choose|k: int| 0 <= k < b.len() && b[k] == x;
            assert(a[k] == x);
        }
        if x == v[i]@ {
            assert(a[i] == x);
        }
    }
    assert(a.to_set() =~= b.to_set().insert(v[i]@));
}

proof fn lemma_no_names(v: Seq<&'static str>)
    requires
        feature_names(v) == feature_names(Seq::<&'static str>::empty()),
    ensures
        v.len() == 0,
{
    assert(feature_names(Seq::<&'static str>::empty()) =~= Set::<Seq<char>>::empty());
    if v.len() > 0 {
        assert(strs_of(v)[0] == v[0]@);
        assert(feature_names(v).contains(v[0]@));
    }
}

/// Adds `f` to the sorted feature list `v`, keeping it sorted and free of
/// repeats.
pub fn insert_feature(v: &mut Vec<&'static str>, f: &'static str)
    requires
        strictly_sorted(strs_of(old(v)@)),
    ensures
        strictly_sorted(strs_of(final(v)@)),
        feature_names(final(v)@) == feature_names(old(v)@).insert(f@),
{
    let ghost old_v = v@;
    let mut p: usize = 0;
    while p < v.len() && str_lt(v[p], f)
        invariant
            v@ == old_v,
            p <= v@.len(),
            forall|i: int| 0 <= i < p ==> seq_lt(#[trigger] strs_of(v@)[i], f@),
        decreases v@.len() - p,
    {
        p = p + 1;
    }
    if p < v.len() && !str_lt(f, v[p]) {
        proof {
            lemma_seq_lt_total(f@, v@[p as int]@);
            assert(strs_of(v@)[p as int] == f@);
            assert(feature_names(v@) =~= feature_names(v@).insert(f@));
        }
        return;
    }
    proof {
        if p < v@.len() {
            lemma_seq_lt_total(f@, v@[p as int]@);
        }
    }
    v.insert(p, f);
    proof {
        let nv = strs_of(v@);
        let ov = strs_of(old_v);
        assert(nv =~= ov.insert(p as int, f@));
        assert forall|i: int, j: int| 0 <= i < j < nv.len() implies seq_lt(#[trigger] nv[i], #[trigger] nv[j]) by {
            if j < p {
                assert(nv[i] == ov[i] && nv[j] == ov[j]);
            } else if j == p {
                assert(nv[i] == ov[i]);
            } else if i == p {
                assert(nv[j] == ov[j - 1]);
                if j - 1 > p {
                    assert(seq_lt(ov[p as int], ov[j - 1]));
                    lemma_seq_lt_transitive(f@, ov[p as int], ov[j - 1]);
                }
            } else if i < p {
                assert(nv[i] == ov[i] && nv[j] == ov[j - 1]);
                if j - 1 > p {
                    assert(seq_lt(ov[p as int], ov[j - 1]));
                    lemma_seq_lt_transitive(ov[i], f@, ov[p as int]);
                    lemma_seq_lt_transitive(ov[i], ov[p as int], ov[j - 1]);
                } else {
                    lemma_seq_lt_transitive(ov[i], f@, ov[j - 1]);
                }
            } else {
                assert(nv[i] == ov[i - 1] && nv[j] == ov[j - 1]);
            }
        }
        assert forall|x: Seq<char>| feature_names(v@).contains(x) <==> feature_names(old_v).insert(f@).contains(x) by {
            if feature_names(v@).contains(x) {
                let k = choose|k: int| 0 <= k < nv.len() && nv[k] == x;
                if k < p {
                    assert(ov[k] == x);
                } else if k > p {
                    assert(ov[k - 1] == x);
                }
            }
            if feature_names(old_v).contains(x) {
                let k = choose|k: int| 0 <= k < ov.len() && ov[k] == x;
                if k < p {
                    assert(nv[k] == x);
                } else {
                    assert(nv[k + 1] == x);
                }
            }
            if x == f@ {
                assert(nv[p as int] == x);
            }
        }
        assert(feature_names(v@) =~= feature_names(old_v).insert(f@));
    }
}

/// The features of `list` as a sorted list without repeats.
pub fn feature_set(list: &Vec<&'static str>) -> (res: Vec<&'static str>)
    ensures
        strictly_sorted(strs_of(res@)),
        feature_names(res@) == feature_names(list@),
{
    let mut res: Vec<&'static str> = Vec::new();
    let mut i: usize = 0;
    assert(feature_names(res@) =~= feature_names(list@.take(0)));
    while i < list.len()
        invariant
            i <= list@.len(),
            strictly_sorted(strs_of(res@)),
            feature_names(res@) == feature_names(list@.take(i as int)),
        decreases list@.len() - i,
    {
        insert_feature(&mut res, list[i]);
        proof {
            lemma_names_take_push(list@, i as int);
        }
        i = i + 1;
    }
    assert(list@.take(list@.len() as int) =~= list@);
    res
}

/// The union of two sorted feature lists, sorted.
pub fn union_features(a: &Vec<&'static str>, b: &Vec<&'static str>) -> (res: Vec<&'static str>)
    requires
        strictly_sorted(strs_of(a@)),
    ensures
        strictly_sorted(strs_of(res@)),
        feature_names(res@) == feature_names(a@).union(feature_names(b@)),
{
    let mut res: Vec<&'static str> = a.clone();
    let mut i: usize = 0;
    assert(res@ == a@);
    assert(feature_names(b@.take(0)) =~= Set::<Seq<char>>::empty());
    assert(feature_names(a@).union(feature_names(b@.take(0))) =~= feature_names(a@));
    while i < b.len()
        invariant
            i <= b@.len(),
            strictly_sorted(strs_of(res@)),
            feature_names(res@) == feature_names(a@).union(feature_names(b@.take(i as int))),
        decreases b@.len() - i,
    {
        insert_feature(&mut res, b[i]);
        proof {
            lemma_names_take_push(b@, i as int);
            assert(feature_names(a@).union(feature_names(b@.take(i + 1))) =~= feature_names(a@).union(feature_names(b@.take(i as int))).insert(b@[i as int]@));
        }
        i = i + 1;
    }
    assert(b@.take(b@.len() as int) =~= b@);
    res
}


/// Used for defining Cargo dependencies.
#[derive(Debug, PartialEq, Eq, Hash)]
pub struct CargoDependency {
    pub branch: Option<&'static str>,
    pub default_features: Option<bool>,
    /// The enabled features, sorted and without repeats.
    pub features: Vec<&'static str>,
    pub git: Option<&'static str>,
    pub path: Option<&'static str>,
    pub registry: Option<&'static str>,
    pub version: Option<&'static str>,
    pub workspace: Option<bool>,
}

/// The first of two optional values that is present.
pub open spec fn or_else<T>(a: Option<T>, b: Option<T>) -> Option<T> {
    match a {
        Some(x) => Some(x),
        None => b,
    }
}

fn first_of(a: Option<&'static str>, b: Option<&'static str>) -> (res: Option<&'static str>)
    ensures
        res == or_else(a, b),
{
    match a {
        Some(x) => Some(x),
        None => b,
    }
}

fn first_flag(a: Option<bool>, b: Option<bool>) -> (res: Option<bool>)
    ensures
        res == or_else(a, b),
{
    match a {
        Some(x) => Some(x),
        None => b,
    }
}

/// A value quoted for a TOML file: backslashes and double quotes escaped,
/// double quotes around it.
pub open spec fn quote_value_spec(v: Seq<char>) -> Seq<char> {
    "\""@ + replace(replace(v, "\\"@, "\\\\"@), "\""@, "\\\""@) + "\""@
}

/// Quotes a value for a TOML file.
pub fn quote_value(val: &str) -> (res: String)
    ensures
        res@ == quote_value_spec(val@),
{
    let v = chars_of(val);
    let backslash = chars_of("\\");
    let two_backslashes = chars_of("\\\\");
    let quote = chars_of("\"");
    let escaped_quote = chars_of("\\\"");
    proof {
        reveal_strlit("\\");
        reveal_strlit("\"");
    }
    let step1 = replace_in(&v, &backslash, &two_backslashes);
    let step2 = replace_in(&step1, &quote, &escaped_quote);
    let mut res = "\"".to_owned();
    let body = string_of(&step2);
    res.append(body.as_str());
    res.append("\"");
    res
}

/// The `name = value` attributes with which a dependency is written in a
/// `Cargo.toml` file, in order.
pub open spec fn dependency_attributes(d: CargoDependency) -> Seq<Seq<char>> {
    let source = if d.path is Some {
        seq!["path = "@ + quote_value_spec(d.path.unwrap()@)]
    } else if d.git is Some {
        seq!["git = "@ + quote_value_spec(d.git.unwrap()@)] + if d.branch is Some {
            seq!["branch = "@ + quote_value_spec(d.branch.unwrap()@)]
        } else {
            Seq::empty()
        }
    } else if d.workspace == Some(true) {
        seq!["workspace = true"@]
    } else {
        Seq::empty()
    };
    let version = if d.version is Some {
        seq!["version = "@ + quote_value_spec(d.version.unwrap()@)] + if d.registry is Some {
            seq!["registry = "@ + quote_value_spec(d.registry.unwrap()@)]
        } else {
            Seq::empty()
        }
    } else {
        Seq::empty()
    };
    let default_features = match d.default_features {
        Some(b) => seq!["default_features = "@ + if b { "true"@ } else { "false"@ }],
        None => Seq::empty(),
    };
    let features = if d.features@.len() > 0 {
        seq!["features = ["@ + join(strs_of(d.features@).map_values(|f: Seq<char>| quote_value_spec(f)), ", "@) + "]"@]
    } else {
        Seq::empty()
    };
    source + version + default_features + features
}

/// The text of a dependency on the right-hand side of its `=` in a
/// `Cargo.toml` file.
pub open spec fn dependency_text(d: CargoDependency) -> Seq<char> {
    "{ "@ + join(dependency_attributes(d), ", "@) + " }"@
}

fn push_string(v: &mut Vec<String>, s: String)
    ensures
        str_views(final(v)@) == str_views(old(v)@).push(s@),
{
    v.push(s);
    assert(str_views(v@) =~= str_views(old(v)@).push(s@));
}

fn labelled(label: &str, value: &str) -> (res: String)
    ensures
        res@ == label@ + quote_value_spec(value@),
{
    let mut s = label.to_owned();
    let q = quote_value(value);
    s.append(q.as_str());
    s
}

/// What `merge_or_replace_with` makes of `a` and `b`: the features of
/// both, and the other settings of `b` where it has them, of `a` otherwise,
/// with `b` leading in case of conflicts.
pub open spec fn merged(a: CargoDependency, b: CargoDependency, res: CargoDependency) -> bool {
    &&& res.wf()
    &&& feature_names(res.features@) == feature_names(a.features@).union(feature_names(b.features@))
    &&& res.default_features == or_else(b.default_features, a.default_features)
    &&& (b.path is Some ==> {
        &&& res.branch is None
        &&& res.git is None
        &&& res.path == b.path
        &&& res.registry == or_else(b.registry, a.registry)
        &&& res.version == or_else(b.version, a.version)
        &&& res.workspace is None
    })
    &&& (b.path is None && b.git is Some ==> {
        &&& res.branch == b.branch
        &&& res.git == b.git
        &&& res.path is None
        &&& res.registry == or_else(b.registry, a.registry)
        &&& res.version == or_else(b.version, a.version)
        &&& res.workspace is None
    })
    &&& (b.path is None && b.git is None && b.workspace is Some ==> {
        &&& res.branch == b.branch
        &&& res.git is None
        &&& res.path is None
        &&& res.registry == b.registry
        &&& res.version == b.version
        &&& res.workspace == b.workspace
    })
    &&& (b.path is None && b.git is None && b.workspace is None ==> {
        &&& res.branch == a.branch
        &&& res.git == a.git
        &&& res.path == a.path
        &&& res.registry == or_else(b.registry, a.registry)
        &&& res.version == or_else(b.version, a.version)
        &&& res.workspace == a.workspace
    })
}

/// Whether a dependency has only a version and the given features.
pub open spec fn version_dependency(d: CargoDependency, version: Seq<char>, features: Set<Seq<char>>) -> bool {
    &&& d.wf()
    &&& d.version matches Some(v) && v@ == version
    &&& feature_names(d.features@) == features
    &&& d.branch is None && d.default_features is None && d.git is None
    &&& d.path is None && d.registry is None && d.workspace is None
}

impl CargoDependency {
    /// The dependency's features are sorted and free of repeats.
    pub open spec fn wf(&self) -> bool {
        strictly_sorted(strs_of(self.features@))
    }

    /// A dependency with nothing specified.
    pub fn default() -> (res: Self)
        ensures
            res.wf(),
            res.branch is None,
            res.default_features is None,
            res.features@.len() == 0,
            res.git is None,
            res.path is None,
            res.registry is None,
            res.version is None,
            res.workspace is None,
    {
        let res = CargoDependency {
            branch: None,
            default_features: None,
            features: Vec::new(),
            git: None,
            path: None,
            registry: None,
            version: None,
            workspace: None,
        };
        assert(strs_of(res.features@) =~= Seq::<Seq<char>>::empty());
        res
    }

    /// A dependency taken from the workspace, with the given features.
    pub fn from_workspace_with_features(features: Vec<&'static str>) -> (res: Self)
        ensures
            res.wf(),
            feature_names(res.features@) == feature_names(features@),
            res.workspace == Some(true),
            res.branch is None && res.default_features is None && res.git is None,
            res.path is None && res.registry is None && res.version is None,
    {
        let mut d = Self::default();
        d.features = feature_set(&features);
        d.workspace = Some(true);
        d
    }

    /// A dependency taken from the workspace.
    pub fn from_workspace() -> (res: Self)
        ensures
            res.wf(),
            res.features@.len() == 0,
            res.workspace == Some(true),
            res.branch is None && res.default_features is None && res.git is None,
            res.path is None && res.registry is None && res.version is None,
    {
        let res = Self::from_workspace_with_features(Vec::new());
        proof {
            lemma_no_names(res.features@);
        }
        res
    }

    /// A dependency on a local path, with the given features.
    pub fn with_path_and_features(path: &'static str, features: Vec<&'static str>) -> (res: Self)
        ensures
            res.wf(),
            feature_names(res.features@) == feature_names(features@),
            res.path == Some(path),
            res.branch is None && res.default_features is None && res.git is None,
            res.registry is None && res.version is None && res.workspace is None,
    {
        let mut d = Self::default();
        d.features = feature_set(&features);
        d.path = Some(path);
        d
    }

    /// A dependency on a local path.
    pub fn with_path(path: &'static str) -> (res: Self)
        ensures
            res.wf(),
            res.features@.len() == 0,
            res.path == Some(path),
            res.branch is None && res.default_features is None && res.git is None,
            res.registry is None && res.version is None && res.workspace is None,
    {
        let res = Self::with_path_and_features(path, Vec::new());
        proof {
            lemma_no_names(res.features@);
        }
        res
    }

    /// A dependency on a version from crates.io, with the given features.
    pub fn with_version_and_features(version: &'static str, features: Vec<&'static str>) -> (res: Self)
        ensures
            res.wf(),
            feature_names(res.features@) == feature_names(features@),
            res.version == Some(version),
            res.branch is None && res.default_features is None && res.git is None,
            res.path is None && res.registry is None && res.workspace is None,
    {
        let mut d = Self::default();
        d.features = feature_set(&features);
        d.version = Some(version);
        d
    }

    /// A dependency on a version from crates.io.
    pub fn with_version(version: &'static str) -> (res: Self)
        ensures
            res.wf(),
            res.features@.len() == 0,
            res.version == Some(version),
            res.branch is None && res.default_features is None && res.git is None,
            res.path is None && res.registry is None && res.workspace is None,
    {
        let res = Self::with_version_and_features(version, Vec::new());
        proof {
            lemma_no_names(res.features@);
        }
        res
    }

    /// A dependency on a version from a registry, with the given features.
    pub fn with_version_and_features_from_registry(
        version: &'static str,
        registry: &'static str,
        features: Vec<&'static str>,
    ) -> (res: Self)
        ensures
            res.wf(),
            feature_names(res.features@) == feature_names(features@),
            res.version == Some(version),
            res.registry == Some(registry),
            res.branch is None && res.default_features is None && res.git is None,
            res.path is None && res.workspace is None,
    {
        let mut d = Self::default();
        d.features = feature_set(&features);
        d.registry = Some(registry);
        d.version = Some(version);
        d
    }

    /// A dependency on a version from a registry.
    pub fn with_version_from_registry(version: &'static str, registry: &'static str) -> (res: Self)
        ensures
            res.wf(),
            res.features@.len() == 0,
            res.version == Some(version),
            res.registry == Some(registry),
            res.branch is None && res.default_features is None && res.git is None,
            res.path is None && res.workspace is None,
    {
        let res = Self::with_version_and_features_from_registry(version, registry, Vec::new());
        proof {
            lemma_no_names(res.features@);
        }
        res
    }

    /// A dependency on a Git repository, with the given features.
    pub fn with_git_and_features(git: &'static str, features: Vec<&'static str>) -> (res: Self)
        ensures
            res.wf(),
            feature_names(res.features@) == feature_names(features@),
            res.git == Some(git),
            res.branch is None && res.default_features is None && res.path is None,
            res.registry is None && res.version is None && res.workspace is None,
    {
        let mut d = Self::default();
        d.features = feature_set(&features);
        d.git = Some(git);
        d
    }

    /// A dependency on a Git repository.
    pub fn with_git(git: &'static str) -> (res: Self)
        ensures
            res.wf(),
            res.features@.len() == 0,
            res.git == Some(git),
            res.branch is None && res.default_features is None && res.path is None,
            res.registry is None && res.version is None && res.workspace is None,
    {
        let res = Self::with_git_and_features(git, Vec::new());
        proof {
            lemma_no_names(res.features@);
        }
        res
    }

    /// A dependency on a branch of a Git repository, with the given
    /// features.
    pub fn with_git_and_branch_and_features(
        git: &'static str,
        branch: &'static str,
        features: Vec<&'static str>,
    ) -> (res: Self)
        ensures
            res.wf(),
            feature_names(res.features@) == feature_names(features@),
            res.git == Some(git),
            res.branch == Some(branch),
            res.default_features is None && res.path is None,
            res.registry is None && res.version is None && res.workspace is None,
    {
        let mut d = Self::default();
        d.features = feature_set(&features);
        d.git = Some(git);
        d.branch = Some(branch);
        d
    }

    /// A dependency on a branch of a Git repository.
    pub fn with_git_and_branch(git: &'static str, branch: &'static str) -> (res: Self)
        ensures
            res.wf(),
            res.features@.len() == 0,
            res.git == Some(git),
            res.branch == Some(branch),
            res.default_features is None && res.path is None,
            res.registry is None && res.version is None && res.workspace is None,
    {
        let res = Self::with_git_and_branch_and_features(git, branch, Vec::new());
        proof {
            lemma_no_names(res.features@);
        }
        res
    }

    /// Merges or replaces this dependency with another.
    ///
    /// The algorithm used attempts to reuse as much of the current
    /// dependency as possible, but treats the incoming dependency as leading
    /// in case of conflicts.
    pub fn merge_or_replace_with(&self, other: &Self) -> (res: Self)
        requires
            self.wf(),
        ensures
            merged(*self, *other, res),
    {
        let features = union_features(&self.features, &other.features);
        let default_features = first_flag(other.default_features, self.default_features);
        if let Some(path) = other.path {
            CargoDependency {
                branch: None,
                default_features,
                features,
                git: None,
                path: Some(path),
                registry: first_of(other.registry, self.registry),
                version: first_of(other.version, self.version),
                workspace: None,
            }
        } else if let Some(git) = other.git {
            CargoDependency {
                branch: other.branch,
                default_features,
                features,
                git: Some(git),
                path: None,
                registry: first_of(other.registry, self.registry),
                version: first_of(other.version, self.version),
                workspace: None,
            }
        } else if let Some(workspace) = other.workspace {
            CargoDependency {
                branch: other.branch,
                default_features,
                features,
                git: other.git,
                path: other.path,
                registry: other.registry,
                version: other.version,
                workspace: Some(workspace),
            }
        } else {
            CargoDependency {
                branch: self.branch,
                default_features,
                features,
                git: self.git,
                path: self.path,
                registry: first_of(other.registry, self.registry),
                workspace: self.workspace,
                version: first_of(other.version, self.version),
            }
        }
    }

    /// The text of the dependency on the right-hand side of its `=` in a
    /// `Cargo.toml` file.
    pub fn to_string(&self) -> (res: String)
        ensures
            res@ == dependency_text(*self),
    {
        let mut attributes: Vec<String> = Vec::new();
        assert(str_views(attributes@) =~= Seq::<Seq<char>>::empty());
        if let Some(path) = self.path {
            push_string(&mut attributes, labelled("path = ", path));
        } else if let Some(git) = self.git {
            push_string(&mut attributes, labelled("git = ", git));
            if let Some(branch) = self.branch {
                push_string(&mut attributes, labelled("branch = ", branch));
            }
        } else if self.workspace == Some(true) {
            push_string(&mut attributes, "workspace = true".to_owned());
        }
        let ghost a1 = str_views(attributes@);
        if let Some(version) = self.version {
            push_string(&mut attributes, labelled("version = ", version));
            if let Some(registry) = self.registry {
                push_string(&mut attributes, labelled("registry = ", registry));
            }
        }
        let ghost a2 = str_views(attributes@);
        if let Some(default_features) = self.default_features {
            let mut s = "default_features = ".to_owned();
            s.append(if default_features { "true" } else { "false" });
            push_string(&mut attributes, s);
        }
        let ghost a3 = str_views(attributes@);
        if self.features.len() > 0 {
            let mut quoted: Vec<String> = Vec::new();
            let mut i: usize = 0;
            while i < self.features.len()
                invariant
                    i <= self.features@.len(),
                    str_views(quoted@) == strs_of(self.features@).map_values(|f: Seq<char>| quote_value_spec(f)).take(i as int),
                decreases self.features@.len() - i,
            {
                let q = quote_value(self.features[i]);
                let ghost before = str_views(quoted@);
                push_string(&mut quoted, q);
                assert(str_views(quoted@) =~= strs_of(self.features@).map_values(|f: Seq<char>| quote_value_spec(f)).take(i as int + 1));
                i = i + 1;
            }
            assert(strs_of(self.features@).map_values(|f: Seq<char>| quote_value_spec(f)).take(self.features@.len() as int)
                =~= strs_of(self.features@).map_values(|f: Seq<char>| quote_value_spec(f)));
            let mut s = "features = [".to_owned();
            let joined = join_strings(&quoted, ", ");
            s.append(joined.as_str());
            s.append("]");
            push_string(&mut attributes, s);
        }
        proof {
            let d = *self;
            let parts = dependency_attributes(d);
            assert(str_views(attributes@) =~= parts);
        }
        let mut res = "{ ".to_owned();
        let joined = join_strings(&attributes, ", ");
        res.append(joined.as_str());
        res.append(" }");
        res
    }
}


/// Whether two dependencies hold the same settings and features.
pub open spec fn same_dependency(a: CargoDependency, b: CargoDependency) -> bool {
    &&& a.branch == b.branch
    &&& a.default_features == b.default_features
    &&& a.features@ == b.features@
    &&& a.git == b.git
    &&& a.path == b.path
    &&& a.registry == b.registry
    &&& a.version == b.version
    &&& a.workspace == b.workspace
}

impl Clone for CargoDependency {
    fn clone(&self) -> (res: Self)
        ensures
            same_dependency(res, *self),
    {
        let mut features: Vec<&'static str> = Vec::new();
        let mut i: usize = 0;
        while i < self.features.len()
            invariant
                i <= self.features@.len(),
                features@ == self.features@.take(i as int),
            decreases self.features@.len() - i,
        {
            features.push(self.features[i]);
            assert(features@ =~= self.features@.take(i as int + 1));
            i = i + 1;
        }
        assert(features@ =~= self.features@);
        CargoDependency {
            branch: self.branch,
            default_features: self.default_features,
            features,
            git: self.git,
            path: self.path,
            registry: self.registry,
            version: self.version,
            workspace: self.workspace,
        }
    }
}


/// Whether a text begins with `d` (as only the `default_features` setting
/// of a dependency does).
pub open spec fn starts_with_d(t: Seq<char>) -> bool {
    t.len() > 0 && t[0] == 'd'
}

proof fn lemma_first_char(x: Seq<char>, y: Seq<char>)
    requires
        x.len() > 0,
    ensures
        (x + y).len() > 0,
        (x + y)[0] == x[0],
{
}

/// A dependency's `default_features` setting is rendered as it is set: its
/// attributes hold `default_features = true` exactly when the setting is
/// `Some(true)`, `default_features = false` exactly when it is
/// `Some(false)`, and neither when it is unset.
pub proof fn lemma_default_features_rendered(d: CargoDependency)
    ensures
        dependency_attributes(d).contains("default_features = true"@) <==> d.default_features == Some(true),
        dependency_attributes(d).contains("default_features = false"@) <==> d.default_features == Some(false),
{
    reveal_strlit("default_features = true");
    reveal_strlit("default_features = false");
    reveal_strlit("default_features = ");
    reveal_strlit("true");
    reveal_strlit("false");
    reveal_strlit("path = ");
    reveal_strlit("git = ");
    reveal_strlit("branch = ");
    reveal_strlit("workspace = true");
    reveal_strlit("version = ");
    reveal_strlit("registry = ");
    reveal_strlit("features = [");
    let source = if d.path is Some {
        seq!["path = "@ + quote_value_spec(d.path.unwrap()@)]
    } else if d.git is Some {
        seq!["git = "@ + quote_value_spec(d.git.unwrap()@)] + if d.branch is Some {
            seq!["branch = "@ + quote_value_spec(d.branch.unwrap()@)]
        } else {
            Seq::<Seq<char>>::empty()
        }
    } else if d.workspace == Some(true) {
        seq!["workspace = true"@]
    } else {
        Seq::<Seq<char>>::empty()
    };
    let version = if d.version is Some {
        seq!["version = "@ + quote_value_spec(d.version.unwrap()@)] + if d.registry is Some {
            seq!["registry = "@ + quote_value_spec(d.registry.unwrap()@)]
        } else {
            Seq::<Seq<char>>::empty()
        }
    } else {
        Seq::<Seq<char>>::empty()
    };
    let default_features = match d.default_features {
        Some(b) => seq!["default_features = "@ + if b { "true"@ } else { "false"@ }],
        None => Seq::<Seq<char>>::empty(),
    };
    let features = if d.features@.len() > 0 {
        seq!["features = ["@ + join(strs_of(d.features@).map_values(|f: Seq<char>| quote_value_spec(f)), ", "@) + "]"@]
    } else {
        Seq::<Seq<char>>::empty()
    };
    let all = dependency_attributes(d);
    assert(all == source + version + default_features + features);
    // Only the `default_features` attribute begins with `d`.
    if d.path is Some {
        lemma_first_char("path = "@, quote_value_spec(d.path.unwrap()@));
    } else if d.git is Some {
        lemma_first_char("git = "@, quote_value_spec(d.git.unwrap()@));
        if d.branch is Some {
            lemma_first_char("branch = "@, quote_value_spec(d.branch.unwrap()@));
        }
    }
    if d.version is Some {
        lemma_first_char("version = "@, quote_value_spec(d.version.unwrap()@));
        if d.registry is Some {
            lemma_first_char("registry = "@, quote_value_spec(d.registry.unwrap()@));
        }
    }
    if d.features@.len() > 0 {
        lemma_first_char("features = ["@, join(strs_of(d.features@).map_values(|f: Seq<char>| quote_value_spec(f)), ", "@) + "]"@);
    }
    assert forall|i: int| 0 <= i < source.len() implies !starts_with_d(#[trigger] source[i]) by {}
    assert forall|i: int| 0 <= i < version.len() implies !starts_with_d(#[trigger] version[i]) by {}
    assert forall|i: int| 0 <= i < features.len() implies !starts_with_d(#[trigger] features[i]) by {}
    let o: int = (source.len() + version.len()) as int;
    assert forall|i: int| 0 <= i < all.len() && starts_with_d(#[trigger] all[i]) implies
        default_features.len() == 1 && i == o && all[i] == default_features[0] by {
        if i < source.len() {
            assert(all[i] == source[i]);
        } else if i < o {
            assert(all[i] == version[i - source.len()]);
        } else if i >= o + default_features.len() {
            assert(all[i] == features[i - o - default_features.len()]);
        }
    }
    assert(starts_with_d("default_features = true"@));
    assert(starts_with_d("default_features = false"@));
    match d.default_features {
        Some(b) => {
            assert(all[o] == default_features[0]);
            if b {
                assert(default_features[0] =~= "default_features = true"@);
                assert(all.contains("default_features = true"@));
                if all.contains("default_features = false"@) {
                    let i = choose|i: int| 0 <= i < all.len() && all[i] == "default_features = false"@;
                    assert(all[i][21] != default_features[0][21]);
                }
            } else {
                assert(default_features[0] =~= "default_features = false"@);
                assert(all.contains("default_features = false"@));
                if all.contains("default_features = true"@) {
                    let i = choose|i: int| 0 <= i < all.len() && all[i] == "default_features = true"@;
                    assert(all[i][21] != default_features[0][21]);
                }
            }
        },
        None => {
            if all.contains("default_features = true"@) {
                let i = choose|i: int| 0 <= i < all.len() && all[i] == "default_features = true"@;
                assert(starts_with_d(all[i]));
            }
            if all.contains("default_features = false"@) {
                let i = choose|i: int| 0 <= i < all.len() && all[i] == "default_features = false"@;
                assert(starts_with_d(all[i]));
            }
        },
    }
}


/// Each setting of a dependency yields its attribute, with its value quoted
/// for TOML: a path (which takes precedence over every other source), or a
/// Git repository with its branch, or the workspace; a version with its
/// registry; and the features, quoted and joined in a list.
pub proof fn lemma_dependency_settings_rendered(d: CargoDependency)
    ensures
        d.path is Some ==> dependency_attributes(d).contains("path = "@ + quote_value_spec(d.path.unwrap()@)),
        d.path is None && d.git is Some ==> dependency_attributes(d).contains("git = "@ + quote_value_spec(d.git.unwrap()@)),
        d.path is None && d.git is Some && d.branch is Some
            ==> dependency_attributes(d).contains("branch = "@ + quote_value_spec(d.branch.unwrap()@)),
        d.path is None && d.git is None && d.workspace == Some(true) ==> dependency_attributes(d).contains("workspace = true"@),
        d.version is Some ==> dependency_attributes(d).contains("version = "@ + quote_value_spec(d.version.unwrap()@)),
        d.version is Some && d.registry is Some
            ==> dependency_attributes(d).contains("registry = "@ + quote_value_spec(d.registry.unwrap()@)),
        d.features@.len() > 0 ==> dependency_attributes(d).contains("features = ["@
            + join(strs_of(d.features@).map_values(|f: Seq<char>| quote_value_spec(f)), ", "@) + "]"@),
{
    let source = if d.path is Some {
        seq!["path = "@ + quote_value_spec(d.path.unwrap()@)]
    } else if d.git is Some {
        seq!["git = "@ + quote_value_spec(d.git.unwrap()@)] + if d.branch is Some {
            seq!["branch = "@ + quote_value_spec(d.branch.unwrap()@)]
        } else {
            Seq::<Seq<char>>::empty()
        }
    } else if d.workspace == Some(true) {
        seq!["workspace = true"@]
    } else {
        Seq::<Seq<char>>::empty()
    };
    let version = if d.version is Some {
        seq!["version = "@ + quote_value_spec(d.version.unwrap()@)] + if d.registry is Some {
            seq!["registry = "@ + quote_value_spec(d.registry.unwrap()@)]
        } else {
            Seq::<Seq<char>>::empty()
        }
    } else {
        Seq::<Seq<char>>::empty()
    };
    let default_features = match d.default_features {
        Some(b) => seq!["default_features = "@ + if b { "true"@ } else { "false"@ }],
        None => Seq::<Seq<char>>::empty(),
    };
    let features = if d.features@.len() > 0 {
        seq!["features = ["@ + join(strs_of(d.features@).map_values(|f: Seq<char>| quote_value_spec(f)), ", "@) + "]"@]
    } else {
        Seq::<Seq<char>>::empty()
    };
    let all = dependency_attributes(d);
    assert(all == source + version + default_features + features);
    if source.len() > 0 {
        assert(all[0] == source[0]);
    }
    if source.len() > 1 {
        assert(all[1] == source[1]);
    }
    let s = source.len() as int;
    if version.len() > 0 {
        assert(all[s] == version[0]);
    }
    if version.len() > 1 {
        assert(all[s + 1] == version[1]);
    }
    if features.len() > 0 {
        assert(all[s + version.len() + default_features.len()] == features[0]);
    }
}

} // verus!
