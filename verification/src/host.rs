//! The resolver's view of the world outside the manifest: environment
//! variables, which files exist, and how paths canonicalize to absolute
//! form. `SystemHost` reads the real machine; `FixedHost` is a value-backed
//! host whose behaviour is fully determined by its fields.

use vstd::prelude::*;

use crate::chars::{chars_eq, chars_to_string, replace_all, spec_replace_all, str_to_chars};

verus! {

/// What a host answers with: an environment association list, the list of
/// existing paths, and an association list from paths to their absolute
/// form (a path off the list fails to canonicalize).
pub struct HostView {
    pub env: Seq<(Seq<char>, Seq<char>)>,
    pub files: Seq<Seq<char>>,
    pub absolute: Seq<(Seq<char>, Seq<char>)>,
}

/// First-match lookup in an association list.
pub open spec fn spec_assoc_lookup(s: Seq<(Seq<char>, Seq<char>)>, key: Seq<char>) -> Option<
    Seq<char>,
>
    decreases s.len(),
{
    if s.len() == 0 {
        None
    } else if s[0].0 == key {
        Some(s[0].1)
    } else {
        spec_assoc_lookup(s.drop_first(), key)
    }
}

/// First-match lookup in an association list of strings.
pub fn assoc_get(list: &Vec<(String, String)>, key: &str) -> (r: Option<String>)
    ensures
        match r {
            Some(v) => spec_assoc_lookup(list.deep_view(), key@) == Some(v@),
            None => spec_assoc_lookup(list.deep_view(), key@) is None,
        },
{
    let kc = str_to_chars(key);
    let ghost dv = list.deep_view();
    proof {
        assert(dv.skip(0) =~= dv);
    }
    let mut i: usize = 0;
    while i < list.len()
        invariant
            dv == list.deep_view(),
            dv.len() == list@.len(),
            kc@ == key@,
            0 <= i <= list@.len(),
            spec_assoc_lookup(dv, key@) == spec_assoc_lookup(dv.skip(i as int), key@),
        decreases list@.len() - i,
    {
        proof {
            assert(dv.skip(i as int)[0] == dv[i as int]);
            assert(dv[i as int] == list@[i as int].deep_view());
            assert(dv.skip(i as int).drop_first() =~= dv.skip(i + 1));
        }
        let ec = str_to_chars(list[i].0.as_str());
        if chars_eq(&ec, &kc) {
            return Some(list[i].1.clone());
        }
        i += 1;
    }
    proof {
        assert(dv.skip(dv.len() as int) =~= Seq::<(Seq<char>, Seq<char>)>::empty());
    }
    None
}

/// Answers the three questions the resolver asks of the machine.
pub trait Host {
    /// The snapshot this host answers from.
    spec fn host_view(&self) -> HostView;

    /// The value of environment variable `name`, if set.
    fn env_var(&self, name: &str) -> (r: Option<String>)
        ensures
            match r {
                Some(v) => spec_assoc_lookup(self.host_view().env, name@) == Some(v@),
                None => spec_assoc_lookup(self.host_view().env, name@) is None,
            },
    ;

    /// Whether a file or directory exists at `path`.
    fn file_exists(&self, path: &str) -> (r: bool)
        ensures
            r == self.host_view().files.contains(path@),
    ;

    /// The canonical absolute form of `path`, with backslashes normalized to
    /// forward slashes; fails for a path that cannot be canonicalized.
    fn make_absolute(&self, path: &str) -> (r: Result<String, String>)
        ensures
            match r {
                Ok(a) => spec_assoc_lookup(self.host_view().absolute, path@) == Some(a@),
                Err(_) => spec_assoc_lookup(self.host_view().absolute, path@) is None,
            },
    ;
}

/// A host whose answers are exactly its fields; used where the resolver's
/// behaviour must be determined by values alone.
pub struct FixedHost {
    pub env_vars: Vec<(String, String)>,
    pub files: Vec<String>,
    pub absolute_paths: Vec<(String, String)>,
}

impl Host for FixedHost {
    open spec fn host_view(&self) -> HostView {
        HostView {
            env: self.env_vars.deep_view(),
            files: self.files.deep_view(),
            absolute: self.absolute_paths.deep_view(),
        }
    }

    fn env_var(&self, name: &str) -> (r: Option<String>) {
        assoc_get(&self.env_vars, name)
    }

    fn file_exists(&self, path: &str) -> (r: bool) {
        let pc = str_to_chars(path);
        let ghost dv = self.files.deep_view();
        let mut i: usize = 0;
        while i < self.files.len()
            invariant
                dv == self.files.deep_view(),
                dv.len() == self.files@.len(),
                pc@ == path@,
                0 <= i <= self.files@.len(),
                forall|k: int| 0 <= k < i ==> dv[k] != path@,
            decreases self.files@.len() - i,
        {
            let fc = str_to_chars(self.files[i].as_str());
            proof {
                assert(dv[i as int] == self.files@[i as int]@);
            }
            if chars_eq(&fc, &pc) {
                assert(dv.contains(path@)) by {
                    assert(dv[i as int] == path@);
                }
                return true;
            }
            i += 1;
        }
        proof {
            assert(!dv.contains(path@)) by {
                assert(forall|k: int| 0 <= k < dv.len() ==> dv[k] != path@);
            }
        }
        false
    }

    fn make_absolute(&self, path: &str) -> (r: Result<String, String>) {
        match assoc_get(&self.absolute_paths, path) {
            Some(a) => Ok(a),
            None => Err(String::new()),
        }
    }
}

/// The real machine. The directory tree and the canonicalization relation
/// are treated as fixed for the lifetime of this value: two queries for the
/// same path answer alike.
pub struct SystemHost {
    env_vars: Vec<(String, String)>,
    files: Ghost<Seq<Seq<char>>>,
    canonical: Ghost<Seq<(Seq<char>, Seq<char>)>>,
}

/// The canonicalization snapshot with every value's backslashes normalized
/// to forward slashes, which is the form the host answers with.
pub open spec fn normalized_paths(list: Seq<(Seq<char>, Seq<char>)>) -> Seq<
    (Seq<char>, Seq<char>),
> {
    list.map(|i: int, p: (Seq<char>, Seq<char>)| (p.0, spec_replace_all(p.1, seq!['\\'], seq!['/'])))
}

/// Lookup in the normalized snapshot is the raw lookup, normalized.
proof fn lemma_assoc_lookup_normalized(list: Seq<(Seq<char>, Seq<char>)>, key: Seq<char>)
    ensures
        spec_assoc_lookup(normalized_paths(list), key) == (match spec_assoc_lookup(list, key) {
            Some(v) => Some(spec_replace_all(v, seq!['\\'], seq!['/'])),
            None => None,
        }),
    decreases list.len(),
{
    if list.len() == 0 {
        assert(normalized_paths(list).len() == 0);
    } else {
        assert(normalized_paths(list)[0] == (
            list[0].0,
            spec_replace_all(list[0].1, seq!['\\'], seq!['/']),
        ));
        assert(normalized_paths(list).drop_first() =~= normalized_paths(list.drop_first()));
        lemma_assoc_lookup_normalized(list.drop_first(), key);
    }
}

impl SystemHost {
    /// Builds a host from the process environment, read by the caller.
    pub fn new(env_vars: Vec<(String, String)>) -> (r: SystemHost)
        ensures
            r.host_view().env == env_vars.deep_view(),
    {
        SystemHost { env_vars, files: Ghost(arbitrary()), canonical: Ghost(arbitrary()) }
    }

    /// Relies on std::path::Path::exists; the existing paths are the
    /// snapshot this value stands for.
    #[verifier::external_body]
    fn disk_exists(&self, path: &str) -> (r: bool)
        ensures
            r == self.files@.contains(path@),
    {
        std::path::Path::new(path).exists()
    }

    /// Relies on dunce::canonicalize: resolves a path that exists to its
    /// canonical absolute form, without UNC prefixes on Windows, as the
    /// snapshot records it.
    #[verifier::external_body]
    fn disk_canonicalize(&self, path: &str) -> (r: Result<String, String>)
        ensures
            match r {
                Ok(a) => spec_assoc_lookup(self.canonical@, path@) == Some(a@),
                Err(_) => spec_assoc_lookup(self.canonical@, path@) is None,
            },
    {
        match dunce::canonicalize(std::path::Path::new(path)) {
            Ok(p) => Ok(p.to_string_lossy().into_owned()),
            Err(e) => Err(e.to_string()),
        }
    }
}

impl Host for SystemHost {
    closed spec fn host_view(&self) -> HostView {
        HostView {
            env: self.env_vars.deep_view(),
            files: self.files@,
            absolute: normalized_paths(self.canonical@),
        }
    }

    fn env_var(&self, name: &str) -> (r: Option<String>) {
        assoc_get(&self.env_vars, name)
    }

    fn file_exists(&self, path: &str) -> (r: bool) {
        self.disk_exists(path)
    }

    fn make_absolute(&self, path: &str) -> (r: Result<String, String>) {
        proof {
            lemma_assoc_lookup_normalized(self.canonical@, path@);
        }
        match self.disk_canonicalize(path) {
            Ok(raw) => {
                let rc = str_to_chars(raw.as_str());
                let mut bs: Vec<char> = Vec::new();
                bs.push('\\');
                let mut fs: Vec<char> = Vec::new();
                fs.push('/');
                proof {
                    assert(bs@ =~= seq!['\\']);
                    assert(fs@ =~= seq!['/']);
                }
                let normalized = replace_all(&rc, &bs, &fs);
                Ok(chars_to_string(&normalized))
            },
            Err(e) => Err(e),
        }
    }
}

} // verus!
